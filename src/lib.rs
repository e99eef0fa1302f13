//! Audio capture engine for lecture sessions: session recording state,
//! segment stitching, device configuration negotiation and the session
//! data model.

pub mod capture;
pub mod models;
pub mod recorder;
pub mod registry;
pub mod speech;
pub mod stitch;
pub mod wav;
