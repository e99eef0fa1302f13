//! State of the transcription feed that runs beside each recording, and
//! the pseudo-random source that paces it.

use vstd::prelude::*;

verus! {

/// The sessions whose transcription feed is running.
pub struct SpeechRegistry {
    active: Vec<String>,
}

spec fn ids_of(v: Seq<String>) -> Set<Seq<char>> {
    Set::new(|k: Seq<char>| exists|i: int| 0 <= i < v.len() && v[i]@ == k)
}

impl View for SpeechRegistry {
    type V = Set<Seq<char>>;

    closed spec fn view(&self) -> Set<Seq<char>> {
        ids_of(self.active@)
    }
}

impl SpeechRegistry {
    /// A registry with no running feed.
    pub fn new() -> (r: SpeechRegistry)
        ensures
            r@ == Set::<Seq<char>>::empty(),
    {
        let r = SpeechRegistry { active: Vec::new() };
        assert(r@ =~= Set::<Seq<char>>::empty());
        r
    }

    /// Marks the feed of `session_id` running.
    pub fn start(&mut self, session_id: &str)
        ensures
            final(self)@ == old(self)@.insert(session_id@),
    {
        let id = session_id.to_owned();
        let ghost before = self.active@;
        self.active.push(id);
        proof {
            let after = self.active@;
            assert forall|k: Seq<char>| ids_of(after).contains(k) <==> ids_of(before).insert(
                session_id@,
            ).contains(k) by {
                if ids_of(before).contains(k) {
                    let i = choose|i: int| 0 <= i < before.len() && before[i]@ == k;
                    assert(after[i] == before[i]);
                }
                if k == session_id@ {
                    assert(after[before.len() as int]@ == k);
                }
                if ids_of(after).contains(k) {
                    let i = choose|i: int| 0 <= i < after.len() && after[i]@ == k;
                    if i < before.len() {
                        assert(after[i] == before[i]);
                    }
                }
            }
            assert(ids_of(after) =~= ids_of(before).insert(session_id@));
        }
    }

    /// Marks the feed of `session_id` stopped.
    pub fn stop(&mut self, session_id: &str)
        ensures
            final(self)@ == old(self)@.remove(session_id@),
    {
        let key = session_id.to_owned();
        let mut kept: Vec<String> = Vec::new();
        let mut i: usize = 0;
        while i < self.active.len()
            invariant
                i <= self.active@.len(),
                key@ == session_id@,
                forall|k: Seq<char>|
                    ids_of(kept@).contains(k) <==> (k != session_id@ && exists|j: int|
                        0 <= j < i && (#[trigger] self.active@[j])@ == k),
            decreases self.active@.len() - i,
        {
            let ghost before = kept@;
            assert(forall|k: Seq<char>|
                ids_of(before).contains(k) <==> (k != session_id@ && exists|j: int|
                    0 <= j < i && (#[trigger] self.active@[j])@ == k));
            let same = self.active[i] == key;
            if !same {
                kept.push(self.active[i].clone());
            }
            proof {
                let cur = self.active@[i as int]@;
                assert(same <==> cur == session_id@);
                assert forall|k: Seq<char>| ids_of(kept@).contains(k) <==> (k != session_id@ && exists|j: int|
                    0 <= j < i + 1 && (#[trigger] self.active@[j])@ == k) by {
                    if ids_of(kept@).contains(k) {
                        let a = choose|a: int| 0 <= a < kept@.len() && kept@[a]@ == k;
                        if a < before.len() {
                            assert(kept@[a] == before[a]);
                            assert(ids_of(before).contains(k));
                            let j = choose|j: int| 0 <= j < i && (#[trigger] self.active@[j])@ == k;
                            assert(self.active@[j]@ == k);
                        } else {
                            assert(!same);
                            assert(kept@[a]@ == cur);
                            assert(self.active@[i as int]@ == k);
                        }
                    }
                    if k != session_id@ && exists|j: int| 0 <= j < i + 1 && (#[trigger] self.active@[j])@ == k {
                        let j = choose|j: int| 0 <= j < i + 1 && (#[trigger] self.active@[j])@ == k;
                        if j < i {
                            assert(ids_of(before).contains(k));
                            let a = choose|a: int| 0 <= a < before.len() && before[a]@ == k;
                            assert(kept@[a] == before[a]);
                            assert(ids_of(kept@).contains(k));
                        } else {
                            assert(j == i);
                            assert(!same);
                            assert(kept@[before.len() as int]@ == k);
                            assert(ids_of(kept@).contains(k));
                        }
                    }
                }
            }
            i = i + 1;
        }
        self.active = kept;
        proof {
            assert forall|k: Seq<char>| ids_of(self.active@).contains(k) <==> ids_of(old(self).active@).remove(
                session_id@,
            ).contains(k) by {
                if ids_of(old(self).active@).contains(k) && k != session_id@ {
                    let j = choose|j: int| 0 <= j < old(self).active@.len() && old(self).active@[j]@ == k;
                    assert(old(self).active@[j]@ == k);
                }
            }
            assert(ids_of(self.active@) =~= ids_of(old(self).active@).remove(session_id@));
        }
    }

    /// Forgets the feed of `session_id`.
    pub fn cleanup(&mut self, session_id: &str)
        ensures
            final(self)@ == old(self)@.remove(session_id@),
    {
        self.stop(session_id);
    }
}

/// Whether the transcription feed of `session_id` is running.
pub fn is_speech_processing(registry: &SpeechRegistry, session_id: &str) -> (r: bool)
    ensures
        r == registry@.contains(session_id@),
{
    let key = session_id.to_owned();
    let mut i: usize = 0;
    while i < registry.active.len()
        invariant
            i <= registry.active@.len(),
            key@ == session_id@,
            forall|j: int| 0 <= j < i ==> (#[trigger] registry.active@[j])@ != session_id@,
        decreases registry.active@.len() - i,
    {
        if registry.active[i] == key {
            assert(registry.active@[i as int]@ == session_id@);
            return true;
        }
        i = i + 1;
    }
    proof {
        if registry@.contains(session_id@) {
            let j = choose|j: int| 0 <= j < registry.active@.len() && registry.active@[j]@ == session_id@;
            assert(registry.active@[j]@ == session_id@);
        }
    }
    false
}

/// Number of phrases the mock feed cycles through.
pub const PHRASE_COUNT: usize = 10;

/// The phrases the mock feed speaks, in turn.
pub open spec fn phrase_text(i: usize) -> Seq<char> {
    match i {
        0 => "Today we're going to discuss the fundamentals of machine learning."@,
        1 => "The key concept here is that data drives the model's understanding."@,
        2 => "Let me explain this algorithm step by step."@,
        3 => "This approach has several advantages over traditional methods."@,
        4 => "We can see from the results that the performance has improved significantly."@,
        5 => "The next topic we need to cover is neural network architecture."@,
        6 => "This implementation allows for better scalability and maintainability."@,
        7 => "There are some important considerations when choosing this framework."@,
        8 => "The data shows a clear pattern that we should investigate further."@,
        _ => "In conclusion, this methodology provides robust and reliable results."@,
    }
}

/// Phrase `i` of the mock feed.
pub fn phrase(i: usize) -> (r: &'static str)
    requires
        i < 10,
    ensures
        r@ == phrase_text(i),
{
    match i {
        0 => "Today we're going to discuss the fundamentals of machine learning.",
        1 => "The key concept here is that data drives the model's understanding.",
        2 => "Let me explain this algorithm step by step.",
        3 => "This approach has several advantages over traditional methods.",
        4 => "We can see from the results that the performance has improved significantly.",
        5 => "The next topic we need to cover is neural network architecture.",
        6 => "This implementation allows for better scalability and maintainability.",
        7 => "There are some important considerations when choosing this framework.",
        8 => "The data shows a clear pattern that we should investigate further.",
        _ => "In conclusion, this methodology provides robust and reliable results.",
    }
}

/// The words of `t[i..]`, where a word in progress began at `start`
/// (`start == i`: none): maximal runs of characters other than a space.
pub open spec fn words_from(t: Seq<char>, i: int, start: int) -> Seq<Seq<char>>
    decreases t.len() - i,
{
    if i >= t.len() {
        if start < i { seq![t.subrange(start, i)] } else { Seq::empty() }
    } else if t[i] == ' ' {
        let rest = words_from(t, i + 1, i + 1);
        if start < i { seq![t.subrange(start, i)] + rest } else { rest }
    } else {
        words_from(t, i + 1, start)
    }
}

/// The words of `t`, split at spaces, empty pieces dropped.
pub open spec fn words_of(t: Seq<char>) -> Seq<Seq<char>> {
    words_from(t, 0, 0)
}

/// Words joined by single spaces.
pub open spec fn joined(ws: Seq<Seq<char>>) -> Seq<char>
    decreases ws.len(),
{
    if ws.len() == 0 {
        Seq::empty()
    } else if ws.len() == 1 {
        ws[0]
    } else {
        joined(ws.drop_last()) + seq![' '] + ws.last()
    }
}

/// The characters of each string.
pub open spec fn texts(v: Seq<String>) -> Seq<Seq<char>> {
    v.map_values(|s: String| s@)
}

/// Splits `t` into its words.
pub fn split_words(t: &str) -> (r: Vec<String>)
    ensures
        texts(r@) == words_of(t@),
{
    let n = t.unicode_len();
    let mut acc: Vec<String> = Vec::new();
    let mut i: usize = 0;
    let mut start: usize = 0;
    while i < n
        invariant
            n == t@.len(),
            start <= i <= n,
            texts(acc@) + words_from(t@, i as int, start as int) == words_of(t@),
        decreases n - i,
    {
        let c = t.get_char(i);
        let ghost before = texts(acc@);
        if c == ' ' {
            if start < i {
                let w = t.substring_char(start, i).to_owned();
                acc.push(w);
                assert(texts(acc@) =~= before + seq![t@.subrange(start as int, i as int)]);
            }
            start = i + 1;
        }
        i = i + 1;
    }
    let ghost before = texts(acc@);
    if start < i {
        let w = t.substring_char(start, i).to_owned();
        acc.push(w);
        assert(texts(acc@) =~= before + seq![t@.subrange(start as int, i as int)]);
    }
    assert(texts(acc@) =~= words_of(t@));
    acc
}

/// Joins the first `count` words of `ws` with single spaces.
pub fn join_words(ws: &Vec<String>, count: usize) -> (r: String)
    requires
        count <= ws@.len(),
    ensures
        r@ == joined(texts(ws@).subrange(0, count as int)),
{
    proof {
        reveal_strlit(" ");
    }
    let mut s = String::new();
    let mut k: usize = 0;
    while k < count
        invariant
            k <= count <= ws@.len(),
            s@ == joined(texts(ws@).subrange(0, k as int)),
        decreases count - k,
    {
        let ghost prev = texts(ws@).subrange(0, k as int);
        let ghost next = texts(ws@).subrange(0, k + 1);
        assert(next.drop_last() =~= prev);
        if k == 0 {
            s = ws[0].clone();
            assert(next =~= seq![ws@[0]@]);
        } else {
            proof {
                reveal_strlit(" ");
                assert(next.len() >= 2);
                assert(next.last() == ws@[k as int]@);
            }
            s = s.concat(" ").concat(ws[k].as_str());
            assert(s@ =~= joined(prev) + seq![' '] + next.last());
        }
        k = k + 1;
    }
    s
}

/// What the mock feed holds between ticks.
pub struct FeedView {
    /// The phrase to load next.
    pub next_phrase: usize,
    /// Words of the phrase being spoken; empty between phrases.
    pub words: Seq<Seq<char>>,
    /// How many of its words have been spoken.
    pub progress: usize,
}

/// The mock transcription feed: it speaks the phrases word by word, at a
/// pace set by the time since its last line and a random draw.
pub struct MockTranscriber {
    next_phrase: usize,
    words: Vec<String>,
    progress: usize,
}

impl View for MockTranscriber {
    type V = FeedView;

    closed spec fn view(&self) -> FeedView {
        FeedView { next_phrase: self.next_phrase, words: texts(self.words@), progress: self.progress }
    }
}

/// What one tick of the feed asks its runner to do.
pub struct FeedStep {
    /// A line to emit: the current phrase up to the word just spoken.
    pub text: Option<String>,
    /// The phrase is finished: rest before the next one.
    pub rest: bool,
}

/// The feed with a phrase loaded: the next phrase when none is under way.
pub open spec fn feed_loaded(v: FeedView) -> FeedView {
    if v.words.len() == 0 {
        FeedView {
            next_phrase: ((v.next_phrase % 10 + 1) % 10) as usize,
            words: words_of(phrase_text((v.next_phrase % 10) as usize)),
            progress: 0,
        }
    } else {
        v
    }
}

/// One tick: with `since_last_ms` since the last emitted line and a random
/// `draw`, the next word is due once 800 ms plus `draw % 400` have passed.
/// A due word is spoken; the line so far is emitted when it holds two words
/// or more, or ends the phrase; a finished phrase is cleared and asks for a
/// rest. Gives the new state, the emitted line and the rest flag.
pub open spec fn feed_tick(v: FeedView, since_last_ms: u64, draw: u64) -> (FeedView, Option<Seq<char>>, bool) {
    let w = feed_loaded(v);
    if since_last_ms >= 800 + draw % 400 && w.progress < w.words.len() {
        let said = w.words.subrange(0, w.progress + 1);
        let text = if said.len() >= 2 || w.progress == w.words.len() - 1 {
            Some(joined(said))
        } else {
            None
        };
        let p = (w.progress + 1) as usize;
        if p >= w.words.len() {
            (FeedView { words: Seq::empty(), progress: p, ..w }, text, true)
        } else {
            (FeedView { progress: p, ..w }, text, false)
        }
    } else {
        (w, None, false)
    }
}

/// An optional line as its characters.
pub open spec fn opt_text(o: Option<String>) -> Option<Seq<char>> {
    match o {
        Some(s) => Some(s@),
        None => None,
    }
}

impl MockTranscriber {
    /// A feed about to speak its first phrase.
    pub fn new() -> (r: MockTranscriber)
        ensures
            r@.next_phrase == 0,
            r@.words.len() == 0,
            r@.progress == 0,
    {
        MockTranscriber { next_phrase: 0, words: Vec::new(), progress: 0 }
    }

    /// Advances the feed one tick.
    pub fn tick(&mut self, since_last_ms: u64, draw: u64) -> (r: FeedStep)
        ensures
            (final(self)@, opt_text(r.text), r.rest) == feed_tick(old(self)@, since_last_ms, draw),
    {
        if self.words.len() == 0 {
            let i = self.next_phrase % PHRASE_COUNT;
            self.words = split_words(phrase(i));
            self.progress = 0;
            self.next_phrase = (i + 1) % PHRASE_COUNT;
        }
        let threshold: u64 = 800 + draw % 400;
        if since_last_ms >= threshold && self.progress < self.words.len() {
            let count = self.progress + 1;
            let text = if count >= 2 || self.progress == self.words.len() - 1 {
                Some(join_words(&self.words, count))
            } else {
                None
            };
            self.progress = count;
            if count >= self.words.len() {
                self.words = Vec::new();
                proof {
                    assert(texts(self.words@) =~= Seq::<Seq<char>>::empty());
                }
                FeedStep { text, rest: true }
            } else {
                FeedStep { text, rest: false }
            }
        } else {
            FeedStep { text: None, rest: false }
        }
    }
}

/// One step of the linear congruential generator: multiply by 1103515245,
/// add 12345, modulo 2^64.
pub open spec fn lcg_step(seed: u64) -> u64 {
    ((seed * 1103515245 + 12345) % 0x1_0000_0000_0000_0000) as u64
}

/// Advances `seed` one generator step and returns the new value.
pub fn random(seed: &mut u64) -> (r: u64)
    ensures
        *final(seed) == lcg_step(*old(seed)),
        r == *final(seed),
{
    let next = seed.wrapping_mul(1103515245).wrapping_add(12345);
    assert(next == lcg_step(*seed)) by (nonlinear_arith)
        requires
            next == (((*seed as int * 1103515245) % 0x1_0000_0000_0000_0000) + 12345) % 0x1_0000_0000_0000_0000,
    ;
    *seed = next;
    next
}

} // verus!
