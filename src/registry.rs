//! Per-session recording state: which sessions are capturing, which are
//! paused, the segments each has created and not yet stitched, and the
//! next segment index.
//!
//! The registry decides every control transition (start, pause, resume,
//! stop) and tells its caller which segment to open, finalize or stitch;
//! the caller performs the device and file work.

use vstd::prelude::*;
use crate::capture::{AudioFormat, ConfigRange, StreamSettings, mono_pcm16, speech_settings, negotiate_speech};

verus! {

/// Why a control call on a recording session was refused.
#[derive(Debug, Clone, Copy, PartialEq, Eq, Structural)]
pub enum RecordingError {
    AlreadyRecording,
    NotRecording,
    NotPaused,
    SessionNotFound,
    NoSegments,
    NoInputDevice,
    NoSuitableConfig,
    /// Every segment index of the session has been used.
    SegmentLimit,
}

/// What the registry knows of one capturing session.
pub struct SessionView {
    pub paused: bool,
    /// Segments created and not yet stitched, oldest first.
    pub pending: Seq<usize>,
    /// Index that the next segment will get.
    pub next_segment: usize,
}

/// What a successful start asks the caller to set up.
#[derive(Debug, Clone, Copy, PartialEq, Eq, Structural)]
pub struct StartPlan {
    /// Index of the segment to open a writer for.
    pub segment: usize,
    /// Parameters for the input stream.
    pub settings: StreamSettings,
    /// Format of the segment file.
    pub format: AudioFormat,
}

/// What a successful resume asks the caller to set up.
#[derive(Debug, Clone, Copy, PartialEq, Eq, Structural)]
pub struct ResumePlan {
    /// Index of the segment to open a writer for.
    pub segment: usize,
    /// Format of the segment file.
    pub format: AudioFormat,
}

/// What a successful stop asks the caller to do.
#[derive(Debug, Clone, PartialEq, Eq)]
pub struct StopPlan {
    /// The segment whose writer was open and must be finalized.
    pub finalize: Option<usize>,
    /// Segments to stitch into the main file, oldest first, then delete.
    pub stitch: Vec<usize>,
}

/// Flags of one session as reported to callers.
#[derive(Debug, Clone, Copy, PartialEq, Eq, Structural)]
pub struct RecordingState {
    pub recording: bool,
    pub paused: bool,
}

/// The state of a session right after a successful start.
pub open spec fn fresh_session() -> SessionView {
    SessionView { paused: false, pending: seq![0usize], next_segment: 1 }
}

/// The configuration ranges a device offers, as a sequence.
pub open spec fn device_view(device: Option<Vec<ConfigRange>>) -> Option<Seq<ConfigRange>> {
    match device {
        Some(v) => Some(v@),
        None => None,
    }
}

/// Outcome of `start`: the stream settings, or why it was refused.
pub open spec fn start_result(
    m: Map<Seq<char>, SessionView>,
    id: Seq<char>,
    device: Option<Seq<ConfigRange>>,
) -> Result<StreamSettings, RecordingError> {
    if m.contains_key(id) {
        Err(RecordingError::AlreadyRecording)
    } else {
        match device {
            None => Err(RecordingError::NoInputDevice),
            Some(cs) => match speech_settings(cs) {
                None => Err(RecordingError::NoSuitableConfig),
                Some(s) => Ok(s),
            },
        }
    }
}

pub open spec fn after_start(
    m: Map<Seq<char>, SessionView>,
    id: Seq<char>,
    device: Option<Seq<ConfigRange>>,
) -> Map<Seq<char>, SessionView> {
    if start_result(m, id, device) is Ok {
        m.insert(id, fresh_session())
    } else {
        m
    }
}

/// Outcome of `pause`: the segment whose writer must be finalized, if one
/// is open.
pub open spec fn pause_result(m: Map<Seq<char>, SessionView>, id: Seq<char>) -> Result<
    Option<usize>,
    RecordingError,
> {
    if !m.contains_key(id) {
        Err(RecordingError::NotRecording)
    } else if m[id].paused {
        Ok(None)
    } else {
        Ok(Some((m[id].next_segment - 1) as usize))
    }
}

pub open spec fn after_pause(m: Map<Seq<char>, SessionView>, id: Seq<char>) -> Map<
    Seq<char>,
    SessionView,
> {
    if m.contains_key(id) {
        m.insert(id, SessionView { paused: true, ..m[id] })
    } else {
        m
    }
}

/// Outcome of `pop_latest_segment`: the most recently created segment
/// that is not stitched yet.
pub open spec fn pop_result(m: Map<Seq<char>, SessionView>, id: Seq<char>) -> Result<
    usize,
    RecordingError,
> {
    if !m.contains_key(id) {
        Err(RecordingError::SessionNotFound)
    } else if m[id].pending.len() == 0 {
        Err(RecordingError::NoSegments)
    } else {
        Ok(m[id].pending.last())
    }
}

pub open spec fn after_pop(m: Map<Seq<char>, SessionView>, id: Seq<char>) -> Map<
    Seq<char>,
    SessionView,
> {
    if pop_result(m, id) is Ok {
        m.insert(id, SessionView { pending: m[id].pending.drop_last(), ..m[id] })
    } else {
        m
    }
}

/// The format of a resumed segment: the main file's, else the default.
pub open spec fn resume_format(main_format: Option<AudioFormat>) -> AudioFormat {
    match main_format {
        Some(f) => f,
        None => mono_pcm16(16000),
    }
}

/// Outcome of `resume`: the new segment and its format.
pub open spec fn resume_result(
    m: Map<Seq<char>, SessionView>,
    id: Seq<char>,
    main_format: Option<AudioFormat>,
) -> Result<ResumePlan, RecordingError> {
    if !m.contains_key(id) {
        Err(RecordingError::NotRecording)
    } else if !m[id].paused {
        Err(RecordingError::NotPaused)
    } else if m[id].next_segment == usize::MAX {
        Err(RecordingError::SegmentLimit)
    } else {
        Ok(ResumePlan { segment: m[id].next_segment, format: resume_format(main_format) })
    }
}

pub open spec fn after_resume(
    m: Map<Seq<char>, SessionView>,
    id: Seq<char>,
    main_format: Option<AudioFormat>,
) -> Map<Seq<char>, SessionView> {
    if resume_result(m, id, main_format) is Ok {
        m.insert(
            id,
            SessionView {
                paused: false,
                pending: m[id].pending.push(m[id].next_segment),
                next_segment: (m[id].next_segment + 1) as usize,
            },
        )
    } else {
        m
    }
}

/// Outcome of `stop`: the segment to finalize, if its writer is open, and
/// the segments to stitch, oldest first.
pub open spec fn stop_result(m: Map<Seq<char>, SessionView>, id: Seq<char>) -> Result<
    (Option<usize>, Seq<usize>),
    RecordingError,
> {
    if !m.contains_key(id) {
        Err(RecordingError::NotRecording)
    } else if m[id].paused {
        Ok((None, m[id].pending))
    } else {
        Ok((Some((m[id].next_segment - 1) as usize), m[id].pending))
    }
}

pub open spec fn after_stop(m: Map<Seq<char>, SessionView>, id: Seq<char>) -> Map<
    Seq<char>,
    SessionView,
> {
    m.remove(id)
}

/// One pause/resume cycle in which the finalized segment is stitched:
/// pause, pop the latest segment, resume.
pub open spec fn after_cycle(
    m: Map<Seq<char>, SessionView>,
    id: Seq<char>,
    main_format: Option<AudioFormat>,
) -> Map<Seq<char>, SessionView> {
    after_resume(after_pop(after_pause(m, id), id), id, main_format)
}

/// The registry after `n` such cycles.
pub open spec fn after_cycles(
    m: Map<Seq<char>, SessionView>,
    id: Seq<char>,
    main_format: Option<AudioFormat>,
    n: nat,
) -> Map<Seq<char>, SessionView>
    decreases n,
{
    if n == 0 {
        m
    } else {
        after_cycle(after_cycles(m, id, main_format, (n - 1) as nat), id, main_format)
    }
}

/// Before a session is started, pause and resume both fail with
/// `NotRecording` and change nothing; right after a successful start,
/// resume fails with `NotPaused`.
pub proof fn lemma_control_before_start(
    m: Map<Seq<char>, SessionView>,
    id: Seq<char>,
    device: Option<Seq<ConfigRange>>,
    main_format: Option<AudioFormat>,
)
    requires
        !m.contains_key(id),
    ensures
        pause_result(m, id) == Err::<Option<usize>, RecordingError>(RecordingError::NotRecording),
        after_pause(m, id) == m,
        resume_result(m, id, main_format) == Err::<ResumePlan, RecordingError>(
            RecordingError::NotRecording,
        ),
        after_resume(m, id, main_format) == m,
        start_result(m, id, device) is Ok ==> resume_result(
            after_start(m, id, device),
            id,
            main_format,
        ) == Err::<ResumePlan, RecordingError>(RecordingError::NotPaused),
{
}

/// Starting a session twice without stopping it: the second start fails
/// with `AlreadyRecording` and leaves the state of the first.
pub proof fn lemma_start_twice(
    m: Map<Seq<char>, SessionView>,
    id: Seq<char>,
    first: Option<Seq<ConfigRange>>,
    second: Option<Seq<ConfigRange>>,
)
    requires
        start_result(m, id, first) is Ok,
    ensures
        start_result(after_start(m, id, first), id, second) == Err::<StreamSettings, RecordingError>(
            RecordingError::AlreadyRecording,
        ),
        after_start(after_start(m, id, first), id, second) == after_start(m, id, first),
{
}

proof fn lemma_cycles_state(
    m: Map<Seq<char>, SessionView>,
    id: Seq<char>,
    device: Option<Seq<ConfigRange>>,
    main_format: Option<AudioFormat>,
    k: nat,
)
    requires
        start_result(m, id, device) is Ok,
        k + 1 < usize::MAX,
    ensures
        after_cycles(after_start(m, id, device), id, main_format, k) == after_start(m, id, device).insert(
            id,
            SessionView { paused: false, pending: seq![k as usize], next_segment: (k + 1) as usize },
        ),
    decreases k,
{
    let m0 = after_start(m, id, device);
    if k == 0 {
        assert(m0.insert(id, fresh_session()) =~= m0);
        assert(seq![0usize] =~= seq![(0nat) as usize]);
    } else {
        lemma_cycles_state(m, id, device, main_format, (k - 1) as nat);
        let prev = after_cycles(m0, id, main_format, (k - 1) as nat);
        let paused = after_pause(prev, id);
        let popped = after_pop(paused, id);
        assert(paused[id].pending.drop_last() =~= Seq::<usize>::empty());
        assert(popped[id].pending.push((k as usize)) =~= seq![k as usize]);
        assert(after_resume(popped, id, main_format) =~= m0.insert(
            id,
            SessionView { paused: false, pending: seq![k as usize], next_segment: (k + 1) as usize },
        ));
    }
}

/// Segments are handed out for stitching in creation order: after a start
/// and `n` pause/resume cycles, the k-th pause finalizes segment k, which
/// is the one then popped for stitching, and resume opens segment k + 1;
/// the final stop finalizes segment n and leaves exactly it to stitch.
pub proof fn lemma_cycles_stitch_in_order(
    m: Map<Seq<char>, SessionView>,
    id: Seq<char>,
    device: Option<Seq<ConfigRange>>,
    main_format: Option<AudioFormat>,
    n: nat,
)
    requires
        start_result(m, id, device) is Ok,
        n + 2 < usize::MAX,
    ensures
        forall|k: nat|
            k < n ==> {
                let mk = #[trigger] after_cycles(after_start(m, id, device), id, main_format, k);
                &&& pause_result(mk, id) == Ok::<Option<usize>, RecordingError>(Some(k as usize))
                &&& pop_result(after_pause(mk, id), id) == Ok::<usize, RecordingError>(k as usize)
                &&& resume_result(after_pop(after_pause(mk, id), id), id, main_format) == Ok::<
                    ResumePlan,
                    RecordingError,
                >(ResumePlan { segment: (k + 1) as usize, format: resume_format(main_format) })
            },
        stop_result(after_cycles(after_start(m, id, device), id, main_format, n), id) == Ok::<
            (Option<usize>, Seq<usize>),
            RecordingError,
        >((Some(n as usize), seq![n as usize])),
{
    assert forall|k: nat| k < n implies {
        let mk = #[trigger] after_cycles(after_start(m, id, device), id, main_format, k);
        &&& pause_result(mk, id) == Ok::<Option<usize>, RecordingError>(Some(k as usize))
        &&& pop_result(after_pause(mk, id), id) == Ok::<usize, RecordingError>(k as usize)
        &&& resume_result(after_pop(after_pause(mk, id), id), id, main_format) == Ok::<
            ResumePlan,
            RecordingError,
        >(ResumePlan { segment: (k + 1) as usize, format: resume_format(main_format) })
    } by {
        lemma_cycles_state(m, id, device, main_format, k);
    }
    lemma_cycles_state(m, id, device, main_format, n);
}

/// Segment bookkeeping of one session is consistent: at least one segment
/// was created, and the pending ones are increasing and already allocated.
pub open spec fn session_ok(s: SessionView) -> bool {
    &&& s.next_segment >= 1
    &&& forall|i: int| 0 <= i < s.pending.len() ==> #[trigger] s.pending[i] < s.next_segment
    &&& forall|i: int, j: int| 0 <= i < j < s.pending.len() ==> s.pending[i] < s.pending[j]
}

struct RecordingSession {
    id: String,
    paused: bool,
    pending: Vec<usize>,
    next_segment: usize,
}

spec fn entry_view(s: RecordingSession) -> SessionView {
    SessionView { paused: s.paused, pending: s.pending@, next_segment: s.next_segment }
}

spec fn ids_unique(t: Seq<RecordingSession>) -> bool {
    forall|i: int, j: int|
        0 <= i < t.len() && 0 <= j < t.len() && i != j ==> t[i].id@ != t[j].id@
}

spec fn has_id(t: Seq<RecordingSession>, k: Seq<char>) -> bool {
    exists|i: int| 0 <= i < t.len() && t[i].id@ == k
}

spec fn table_view(t: Seq<RecordingSession>) -> Map<Seq<char>, SessionView> {
    Map::new(
        |k: Seq<char>| has_id(t, k),
        |k: Seq<char>| entry_view(t[choose|i: int| 0 <= i < t.len() && t[i].id@ == k]),
    )
}

proof fn lemma_table_at(t: Seq<RecordingSession>, i: int)
    requires
        ids_unique(t),
        0 <= i < t.len(),
    ensures
        table_view(t).contains_key(t[i].id@),
        table_view(t)[t[i].id@] == entry_view(t[i]),
{
    let k = t[i].id@;
    assert(has_id(t, k));
    let j = choose|j: int| 0 <= j < t.len() && t[j].id@ == k;
    assert(j == i);
}

proof fn lemma_table_remove(t: Seq<RecordingSession>, i: int)
    requires
        ids_unique(t),
        0 <= i < t.len(),
    ensures
        ids_unique(t.remove(i)),
        table_view(t.remove(i)) == table_view(t).remove(t[i].id@),
{
    let r = t.remove(i);
    let k0 = t[i].id@;
    assert forall|a: int, b: int| 0 <= a < r.len() && 0 <= b < r.len() && a != b implies r[a].id@
        != r[b].id@ by {
        let a2 = if a < i { a } else { a + 1 };
        let b2 = if b < i { b } else { b + 1 };
        assert(r[a] == t[a2]);
        assert(r[b] == t[b2]);
    }
    assert forall|k: Seq<char>| #[trigger] has_id(r, k) <==> has_id(t, k) && k != k0 by {
        if has_id(r, k) {
            let a = choose|a: int| 0 <= a < r.len() && r[a].id@ == k;
            let a2 = if a < i { a } else { a + 1 };
            assert(r[a] == t[a2]);
            assert(a2 != i);
        }
        if has_id(t, k) && k != k0 {
            let a = choose|a: int| 0 <= a < t.len() && t[a].id@ == k;
            assert(a != i);
            let a1 = if a < i { a } else { a - 1 };
            assert(r[a1] == t[a]);
        }
    }
    assert forall|k: Seq<char>| #[trigger] table_view(r).contains_key(k) implies table_view(r)[k]
        == table_view(t)[k] by {
        let a = choose|a: int| 0 <= a < r.len() && r[a].id@ == k;
        let a2 = if a < i { a } else { a + 1 };
        assert(r[a] == t[a2]);
        lemma_table_at(r, a);
        lemma_table_at(t, a2);
    }
    assert(table_view(r) =~= table_view(t).remove(k0));
}

proof fn lemma_table_push(t: Seq<RecordingSession>, s: RecordingSession)
    requires
        ids_unique(t),
        !table_view(t).contains_key(s.id@),
    ensures
        ids_unique(t.push(s)),
        table_view(t.push(s)) == table_view(t).insert(s.id@, entry_view(s)),
{
    let r = t.push(s);
    assert forall|a: int| 0 <= a < t.len() implies r[a] == t[a] by {}
    assert forall|a: int| 0 <= a < t.len() implies t[a].id@ != s.id@ by {
        if t[a].id@ == s.id@ {
            assert(has_id(t, s.id@));
        }
    }
    assert forall|a: int, b: int| 0 <= a < r.len() && 0 <= b < r.len() && a != b implies r[a].id@
        != r[b].id@ by {}
    assert forall|k: Seq<char>| #[trigger] has_id(r, k) <==> has_id(t, k) || k == s.id@ by {
        if has_id(t, k) {
            let a = choose|a: int| 0 <= a < t.len() && t[a].id@ == k;
            assert(r[a] == t[a]);
        }
        if k == s.id@ {
            assert(r[t.len() as int] == s);
        }
        if has_id(r, k) {
            let a = choose|a: int| 0 <= a < r.len() && r[a].id@ == k;
            if a < t.len() {
                assert(r[a] == t[a]);
            }
        }
    }
    assert forall|k: Seq<char>| #[trigger] table_view(r).contains_key(k) implies table_view(r)[k]
        == table_view(t).insert(s.id@, entry_view(s))[k] by {
        let a = choose|a: int| 0 <= a < r.len() && r[a].id@ == k;
        lemma_table_at(r, a);
        if a < t.len() {
            assert(r[a] == t[a]);
            lemma_table_at(t, a);
        } else {
            assert(r[a] == s);
        }
    }
    assert(table_view(r) =~= table_view(t).insert(s.id@, entry_view(s)));
}

/// The recording state of every capturing session, keyed by session id.
pub struct SessionRegistry {
    sessions: Vec<RecordingSession>,
}

impl View for SessionRegistry {
    type V = Map<Seq<char>, SessionView>;

    closed spec fn view(&self) -> Map<Seq<char>, SessionView> {
        table_view(self.sessions@)
    }
}

impl SessionRegistry {
    /// Session ids are unique and each session's bookkeeping is consistent.
    pub closed spec fn wf(&self) -> bool {
        &&& ids_unique(self.sessions@)
        &&& forall|i: int|
            0 <= i < self.sessions@.len() ==> session_ok(entry_view(#[trigger] self.sessions@[i]))
    }

    /// A registry with no session.
    pub fn new() -> (r: SessionRegistry)
        ensures
            r.wf(),
            r@ == Map::<Seq<char>, SessionView>::empty(),
    {
        let r = SessionRegistry { sessions: Vec::new() };
        assert(r@ =~= Map::<Seq<char>, SessionView>::empty());
        r
    }

    fn find(&self, id: &str) -> (r: Option<usize>)
        requires
            self.wf(),
        ensures
            match r {
                Some(i) => i < self.sessions@.len() && self.sessions@[i as int].id@ == id@
                    && self@.contains_key(id@) && self@[id@] == entry_view(self.sessions@[i as int]),
                None => !self@.contains_key(id@),
            },
    {
        let key = id.to_owned();
        let mut i: usize = 0;
        while i < self.sessions.len()
            invariant
                self.wf(),
                i <= self.sessions@.len(),
                key@ == id@,
                forall|j: int| 0 <= j < i ==> (#[trigger] self.sessions@[j]).id@ != id@,
            decreases self.sessions@.len() - i,
        {
            if self.sessions[i].id == key {
                proof {
                    lemma_table_at(self.sessions@, i as int);
                }
                return Some(i);
            }
            i = i + 1;
        }
        None
    }

    /// Takes the session at `i` out of the table.
    fn take_at(&mut self, i: usize) -> (s: RecordingSession)
        requires
            old(self).wf(),
            i < old(self).sessions@.len(),
        ensures
            final(self).wf(),
            s == old(self).sessions@[i as int],
            session_ok(entry_view(s)),
            final(self)@ == old(self)@.remove(s.id@),
    {
        proof {
            lemma_table_remove(self.sessions@, i as int);
        }
        let s = self.sessions.remove(i);
        proof {
            assert forall|j: int| 0 <= j < self.sessions@.len() implies session_ok(
                entry_view(#[trigger] self.sessions@[j]),
            ) by {
                let j2 = if j < i { j } else { j + 1 };
                assert(self.sessions@[j] == old(self).sessions@[j2]);
            }
        }
        s
    }

    /// Puts a session whose id is not tracked into the table.
    fn put(&mut self, s: RecordingSession)
        requires
            old(self).wf(),
            !old(self)@.contains_key(s.id@),
            session_ok(entry_view(s)),
        ensures
            final(self).wf(),
            final(self)@ == old(self)@.insert(s.id@, entry_view(s)),
    {
        proof {
            lemma_table_push(self.sessions@, s);
        }
        self.sessions.push(s);
    }

    /// Starts capture for `session_id` on a device that offers the
    /// configuration ranges in `device` (`None`: no input device).
    /// Segment 0 is allocated and its writer is to be opened.
    pub fn start(&mut self, session_id: &str, device: &Option<Vec<ConfigRange>>) -> (r: Result<
        StartPlan,
        RecordingError,
    >)
        requires
            old(self).wf(),
        ensures
            final(self).wf(),
            match r {
                Ok(p) => start_result(old(self)@, session_id@, device_view(*device)) == Ok::<
                    StreamSettings,
                    RecordingError,
                >(p.settings) && p.segment == 0 && p.format == mono_pcm16(p.settings.sample_rate),
                Err(e) => start_result(old(self)@, session_id@, device_view(*device)) == Err::<
                    StreamSettings,
                    RecordingError,
                >(e),
            },
            final(self)@ == after_start(old(self)@, session_id@, device_view(*device)),
    {
        if self.find(session_id).is_some() {
            return Err(RecordingError::AlreadyRecording);
        }
        let settings = match device {
            None => {
                return Err(RecordingError::NoInputDevice);
            },
            Some(cs) => match negotiate_speech(cs) {
                None => {
                    return Err(RecordingError::NoSuitableConfig);
                },
                Some(s) => s,
            },
        };
        let mut pending: Vec<usize> = Vec::new();
        pending.push(0);
        let s = RecordingSession { id: session_id.to_owned(), paused: false, pending, next_segment: 1 };
        proof {
            assert(entry_view(s).pending =~= seq![0usize]);
        }
        self.put(s);
        Ok(StartPlan { segment: 0, settings, format: AudioFormat::mono(settings.sample_rate) })
    }

    /// Pauses capture: marks the session paused and hands back the segment
    /// whose writer must now be finalized and stitched (none if it was
    /// already paused).
    pub fn pause(&mut self, session_id: &str) -> (r: Result<Option<usize>, RecordingError>)
        requires
            old(self).wf(),
        ensures
            final(self).wf(),
            r == pause_result(old(self)@, session_id@),
            final(self)@ == after_pause(old(self)@, session_id@),
    {
        match self.find(session_id) {
            None => Err(RecordingError::NotRecording),
            Some(i) => {
                let mut s = self.take_at(i);
                let was_paused = s.paused;
                s.paused = true;
                let open = s.next_segment - 1;
                self.put(s);
                if was_paused {
                    Ok(None)
                } else {
                    Ok(Some(open))
                }
            },
        }
    }

    /// Removes and returns the most recently created segment of the session
    /// that is not stitched yet.
    pub fn pop_latest_segment(&mut self, session_id: &str) -> (r: Result<usize, RecordingError>)
        requires
            old(self).wf(),
        ensures
            final(self).wf(),
            r == pop_result(old(self)@, session_id@),
            final(self)@ == after_pop(old(self)@, session_id@),
    {
        match self.find(session_id) {
            None => Err(RecordingError::SessionNotFound),
            Some(i) => {
                if self.sessions[i].pending.len() == 0 {
                    return Err(RecordingError::NoSegments);
                }
                let mut s = self.take_at(i);
                let ghost before = s.pending@;
                let seg = s.pending.pop().unwrap();
                proof {
                    assert(s.pending@ =~= before.drop_last());
                    assert forall|a: int| 0 <= a < s.pending@.len() implies s.pending@[a] == before[a] by {}
                }
                self.put(s);
                Ok(seg)
            },
        }
    }

    /// Resumes a paused session: allocates the next segment, whose writer
    /// is to be opened in the main file's format (`main_format`), or in the
    /// default format when there is no readable main file yet.
    pub fn resume(&mut self, session_id: &str, main_format: Option<AudioFormat>) -> (r: Result<
        ResumePlan,
        RecordingError,
    >)
        requires
            old(self).wf(),
        ensures
            final(self).wf(),
            r == resume_result(old(self)@, session_id@, main_format),
            final(self)@ == after_resume(old(self)@, session_id@, main_format),
    {
        match self.find(session_id) {
            None => Err(RecordingError::NotRecording),
            Some(i) => {
                if !self.sessions[i].paused {
                    return Err(RecordingError::NotPaused);
                }
                if self.sessions[i].next_segment == usize::MAX {
                    return Err(RecordingError::SegmentLimit);
                }
                let mut s = self.take_at(i);
                let seg = s.next_segment;
                s.pending.push(seg);
                s.next_segment = seg + 1;
                s.paused = false;
                self.put(s);
                let format = match main_format {
                    Some(f) => f,
                    None => AudioFormat::default_format(),
                };
                Ok(ResumePlan { segment: seg, format })
            },
        }
    }

    /// Stops capture: forgets the session and hands back the segment whose
    /// writer must be finalized, if open, and every segment still to be
    /// stitched, oldest first.
    pub fn stop(&mut self, session_id: &str) -> (r: Result<StopPlan, RecordingError>)
        requires
            old(self).wf(),
        ensures
            final(self).wf(),
            match r {
                Ok(p) => stop_result(old(self)@, session_id@) == Ok::<
                    (Option<usize>, Seq<usize>),
                    RecordingError,
                >((p.finalize, p.stitch@)),
                Err(e) => stop_result(old(self)@, session_id@) == Err::<
                    (Option<usize>, Seq<usize>),
                    RecordingError,
                >(e),
            },
            r is Ok ==> final(self)@ == after_stop(old(self)@, session_id@),
            r is Err ==> final(self)@ == old(self)@,
    {
        match self.find(session_id) {
            None => Err(RecordingError::NotRecording),
            Some(i) => {
                let s = self.take_at(i);
                let finalize = if s.paused {
                    None
                } else {
                    Some(s.next_segment - 1)
                };
                Ok(StopPlan { finalize, stitch: s.pending })
            },
        }
    }

    /// Whether the session is capturing (paused or not).
    pub fn is_recording(&self, session_id: &str) -> (r: bool)
        requires
            self.wf(),
        ensures
            r == self@.contains_key(session_id@),
    {
        self.find(session_id).is_some()
    }

    /// Whether the session is capturing and paused.
    pub fn is_paused(&self, session_id: &str) -> (r: bool)
        requires
            self.wf(),
        ensures
            r == (self@.contains_key(session_id@) && self@[session_id@].paused),
    {
        match self.find(session_id) {
            None => false,
            Some(i) => self.sessions[i].paused,
        }
    }

    /// Both flags of the session.
    pub fn state(&self, session_id: &str) -> (r: RecordingState)
        requires
            self.wf(),
        ensures
            r.recording == self@.contains_key(session_id@),
            r.paused == (self@.contains_key(session_id@) && self@[session_id@].paused),
    {
        RecordingState { recording: self.is_recording(session_id), paused: self.is_paused(session_id) }
    }
}

/// Whether `session_id` is capturing in `registry`.
pub fn is_recording(registry: &SessionRegistry, session_id: &str) -> (r: bool)
    requires
        registry.wf(),
    ensures
        r == registry@.contains_key(session_id@),
{
    registry.is_recording(session_id)
}

/// Whether `session_id` is capturing and paused in `registry`.
pub fn is_paused(registry: &SessionRegistry, session_id: &str) -> (r: bool)
    requires
        registry.wf(),
    ensures
        r == (registry@.contains_key(session_id@) && registry@[session_id@].paused),
{
    registry.is_paused(session_id)
}

} // verus!
