//! Script events and script validation.
//!
//! A script is an ordered sequence of events, each a pointer action or a key
//! action. Raw records (one per JSON object of the script file, decoded by
//! the unverified shell) are validated here: an unknown record kind, a
//! missing field, an inverted delay range, a zero or oversized repeat count,
//! or an out-of-range target all reject the script before any replay.

use vstd::prelude::*;

verus! {

use vstd::string::StrSliceExecFns;
use vstd::string::StringExecFns;

/// Largest coordinate an event may target. Kept below the engine's
/// `COORD_LIMIT` so that jitter cannot push a position past it.
pub const MAX_TARGET: u32 = 999_000;

/// Largest repeat count a key action may carry, so a plan always fits in
/// memory and its length arithmetic stays within `usize`.
pub const MAX_COUNT: u32 = 10_000;

/// A closed delay interval in milliseconds.
#[derive(Clone, Copy, PartialEq, Eq, Structural, Debug)]
pub struct DelayRange {
    pub min_ms: u32,
    pub max_ms: u32,
}

impl DelayRange {
    /// The interval is non-empty: its lower bound does not exceed its upper.
    pub open spec fn wf(&self) -> bool {
        self.min_ms <= self.max_ms
    }
}

/// What a key action presses: a single character, or a symbolic key name
/// (such as a modifier) that the backend resolves.
#[derive(Debug)]
pub enum KeySpec {
    Character(char),
    Symbol(String),
}

/// One script event, in playback order within a script.
#[derive(Debug)]
pub enum Event {
    Mouse { id: String, x: u32, y: u32, delay: DelayRange },
    KeyPress { id: String, key: KeySpec, delay: DelayRange, count: u32 },
}

/// An event the engine agrees to execute: bounded target, non-empty delay
/// interval, and a positive, bounded repeat count.
pub open spec fn wf_event(e: Event) -> bool {
    match e {
        Event::Mouse { x, y, delay, .. } => x <= MAX_TARGET && y <= MAX_TARGET && delay.wf(),
        Event::KeyPress { delay, count, .. } => 1 <= count <= MAX_COUNT && delay.wf(),
    }
}

/// An ordered, validated event sequence. Playback order is the vector
/// order; the engine never reorders or mutates it.
#[derive(Debug)]
pub struct Script {
    pub events: Vec<Event>,
}

impl Script {
    /// Every event of the script is well formed.
    pub open spec fn wf(&self) -> bool {
        forall|i: int| 0 <= i < self.events@.len() ==> wf_event(#[trigger] self.events@[i])
    }

    /// Number of events in one pass.
    pub fn len(&self) -> (n: usize)
        ensures
            n == self.events@.len(),
    {
        self.events.len()
    }
}

/// One record of the script file, after JSON decoding but before
/// validation: the tag and the optional fields as they appeared.
#[derive(Debug)]
pub struct RawEvent {
    pub kind: String,
    pub id: String,
    pub pos: Option<(u32, u32)>,
    pub keycode: Option<String>,
    pub delay_rng: Option<(u32, u32)>,
    pub count: Option<u32>,
}

/// Why a script was rejected.
#[derive(Clone, Copy, PartialEq, Eq, Structural, Debug)]
pub enum ScriptErrorKind {
    UnknownType,
    MissingField,
    BadDelayRange,
    BadCount,
    TargetOutOfRange,
}

/// A rejected script: the first offending record and what is wrong with it.
#[derive(Clone, Copy, PartialEq, Eq, Structural, Debug)]
pub struct ScriptError {
    pub index: usize,
    pub kind: ScriptErrorKind,
}

impl ScriptError {
    /// A short name of the error kind, for reporting.
    pub fn kind_name(&self) -> String {
        match self.kind {
            ScriptErrorKind::UnknownType => String::from_str("unknown event type"),
            ScriptErrorKind::MissingField => String::from_str("missing required field"),
            ScriptErrorKind::BadDelayRange => String::from_str("delay range minimum exceeds maximum"),
            ScriptErrorKind::BadCount => String::from_str("repeat count out of range"),
            ScriptErrorKind::TargetOutOfRange => String::from_str("target coordinate out of range"),
        }
    }
}

/// The key a raw keycode string denotes: a one-character string is the
/// character itself, anything else a symbolic key name.
pub open spec fn spec_key_of(s: String) -> KeySpec {
    if s@.len() == 1 {
        KeySpec::Character(s@[0])
    } else {
        KeySpec::Symbol(s)
    }
}

/// A raw mouse record with all required fields present.
pub open spec fn raw_mouse_complete(r: RawEvent) -> bool {
    r.kind@ == "mouse"@ && r.pos is Some && r.delay_rng is Some
}

/// A raw key record with all required fields present.
pub open spec fn raw_key_complete(r: RawEvent) -> bool {
    r.kind@ == "keypress"@ && r.keycode is Some && r.delay_rng is Some && r.count is Some
}

/// A raw record that validation accepts.
pub open spec fn raw_wf(r: RawEvent) -> bool {
    ||| (raw_mouse_complete(r) && r.delay_rng->Some_0.0 <= r.delay_rng->Some_0.1
        && r.pos->Some_0.0 <= MAX_TARGET && r.pos->Some_0.1 <= MAX_TARGET)
    ||| (raw_key_complete(r) && r.delay_rng->Some_0.0 <= r.delay_rng->Some_0.1
        && 1 <= r.count->Some_0 <= MAX_COUNT)
}

/// The event an accepted raw record denotes.
pub open spec fn raw_to_event(r: RawEvent) -> Event {
    if r.kind@ == "mouse"@ {
        Event::Mouse {
            id: r.id,
            x: r.pos->Some_0.0,
            y: r.pos->Some_0.1,
            delay: DelayRange { min_ms: r.delay_rng->Some_0.0, max_ms: r.delay_rng->Some_0.1 },
        }
    } else {
        Event::KeyPress {
            id: r.id,
            key: spec_key_of(r.keycode->Some_0),
            delay: DelayRange { min_ms: r.delay_rng->Some_0.0, max_ms: r.delay_rng->Some_0.1 },
            count: r.count->Some_0,
        }
    }
}

/// The first complaint validation raises against a rejected raw record.
pub open spec fn raw_error_kind(r: RawEvent) -> ScriptErrorKind {
    if r.kind@ != "mouse"@ && r.kind@ != "keypress"@ {
        ScriptErrorKind::UnknownType
    } else if r.kind@ == "mouse"@ {
        if !(r.pos is Some && r.delay_rng is Some) {
            ScriptErrorKind::MissingField
        } else if r.delay_rng->Some_0.0 > r.delay_rng->Some_0.1 {
            ScriptErrorKind::BadDelayRange
        } else {
            ScriptErrorKind::TargetOutOfRange
        }
    } else {
        if !(r.keycode is Some && r.delay_rng is Some && r.count is Some) {
            ScriptErrorKind::MissingField
        } else if r.delay_rng->Some_0.0 > r.delay_rng->Some_0.1 {
            ScriptErrorKind::BadDelayRange
        } else {
            ScriptErrorKind::BadCount
        }
    }
}

/// Turn a keycode string into the key it denotes.
fn key_of_string(s: String) -> (k: KeySpec)
    ensures
        k == spec_key_of(s),
{
    let n: usize = s.as_str().unicode_len();
    if n == 1 {
        KeySpec::Character(s.as_str().get_char(0))
    } else {
        KeySpec::Symbol(s)
    }
}

/// Validate a decoded script. Succeeds exactly when every record is well
/// formed, and then yields the events in record order; otherwise reports
/// the first offending record and the first complaint against it.
pub fn validate_script(raw: Vec<RawEvent>) -> (res: Result<Script, ScriptError>)
    ensures
        res is Ok <==> (forall|i: int| 0 <= i < raw@.len() ==> raw_wf(#[trigger] raw@[i])),
        res matches Ok(s) ==> {
            &&& s.wf()
            &&& s.events@.len() == raw@.len()
            &&& forall|i: int|
                0 <= i < raw@.len() ==> s.events@[i] == raw_to_event(#[trigger] raw@[i])
        },
        res matches Err(e) ==> {
            &&& e.index < raw@.len()
            &&& !raw_wf(raw@[e.index as int])
            &&& e.kind == raw_error_kind(raw@[e.index as int])
            &&& forall|j: int| 0 <= j < e.index ==> raw_wf(#[trigger] raw@[j])
        },
{
    proof {
        reveal_strlit("mouse");
        reveal_strlit("keypress");
    }
    let mouse_tag: String = String::from_str("mouse");
    let key_tag: String = String::from_str("keypress");
    let mut events: Vec<Event> = Vec::new();
    let mut i: usize = 0;
    while i < raw.len()
        invariant
            i <= raw@.len(),
            mouse_tag@ == "mouse"@,
            key_tag@ == "keypress"@,
            events@.len() == i,
            forall|j: int| 0 <= j < i ==> raw_wf(#[trigger] raw@[j]),
            forall|j: int| 0 <= j < i ==> events@[j] == raw_to_event(#[trigger] raw@[j]),
            forall|j: int| 0 <= j < i ==> wf_event(#[trigger] events@[j]),
        decreases raw@.len() - i,
    {
        proof {
            reveal_strlit("mouse");
            reveal_strlit("keypress");
            assert("mouse"@.len() == 5);
            assert("keypress"@.len() == 8);
        }
        let r = &raw[i];
        let is_mouse = r.kind == mouse_tag;
        let is_key = r.kind == key_tag;
        if !is_mouse && !is_key {
            proof {
                assert(!raw_wf(raw@[i as int]));
                assert(raw_error_kind(raw@[i as int]) == ScriptErrorKind::UnknownType);
            }
            return Err(ScriptError { index: i, kind: ScriptErrorKind::UnknownType });
        }
        let (dmin, dmax) = match &r.delay_rng {
            Some(d) => (d.0, d.1),
            None => {
                proof {
                    assert(!raw_wf(raw@[i as int]));
                    assert(raw_error_kind(raw@[i as int]) == ScriptErrorKind::MissingField);
                }
                return Err(ScriptError { index: i, kind: ScriptErrorKind::MissingField });
            },
        };
        if is_mouse {
            let (x, y) = match &r.pos {
                Some(p) => (p.0, p.1),
                None => {
                    proof {
                        assert(!raw_wf(raw@[i as int]));
                        assert(raw_error_kind(raw@[i as int]) == ScriptErrorKind::MissingField);
                    }
                    return Err(ScriptError { index: i, kind: ScriptErrorKind::MissingField });
                },
            };
            if dmin > dmax {
                proof {
                    assert(!raw_wf(raw@[i as int]));
                    assert(raw_error_kind(raw@[i as int]) == ScriptErrorKind::BadDelayRange);
                }
                return Err(ScriptError { index: i, kind: ScriptErrorKind::BadDelayRange });
            }
            if x > MAX_TARGET || y > MAX_TARGET {
                proof {
                    assert(!raw_wf(raw@[i as int]));
                    assert(raw_error_kind(raw@[i as int]) == ScriptErrorKind::TargetOutOfRange);
                }
                return Err(ScriptError { index: i, kind: ScriptErrorKind::TargetOutOfRange });
            }
            events.push(Event::Mouse {
                id: r.id.clone(),
                x,
                y,
                delay: DelayRange { min_ms: dmin, max_ms: dmax },
            });
        } else {
            let (kc, count) = match (&r.keycode, &r.count) {
                (Some(k), Some(c)) => (k.clone(), *c),
                _ => {
                    proof {
                        assert(!raw_wf(raw@[i as int]));
                        assert(raw_error_kind(raw@[i as int]) == ScriptErrorKind::MissingField);
                    }
                    return Err(ScriptError { index: i, kind: ScriptErrorKind::MissingField });
                },
            };
            if dmin > dmax {
                proof {
                    assert(!raw_wf(raw@[i as int]));
                    assert(raw_error_kind(raw@[i as int]) == ScriptErrorKind::BadDelayRange);
                }
                return Err(ScriptError { index: i, kind: ScriptErrorKind::BadDelayRange });
            }
            if count < 1 || count > MAX_COUNT {
                proof {
                    assert(!raw_wf(raw@[i as int]));
                    assert(raw_error_kind(raw@[i as int]) == ScriptErrorKind::BadCount);
                }
                return Err(ScriptError { index: i, kind: ScriptErrorKind::BadCount });
            }
            events.push(Event::KeyPress {
                id: r.id.clone(),
                key: key_of_string(kc),
                delay: DelayRange { min_ms: dmin, max_ms: dmax },
                count,
            });
        }
        i = i + 1;
    }
    Ok(Script { events })
}

/// `needle` occurs contiguously inside `hay`.
pub open spec fn contains_seq(hay: Seq<char>, needle: Seq<char>) -> bool {
    exists|i: int|
        0 <= i <= hay.len() - needle.len() && #[trigger] hay.subrange(
            i,
            i + needle.len(),
        ) == needle
}

/// `needle` matches the characters of `hay` starting at position `i`.
fn matches_at(hay: &str, needle: &str, i: usize) -> (m: bool)
    requires
        i + needle@.len() <= hay@.len(),
        hay@.len() <= usize::MAX as int,
    ensures
        m == (hay@.subrange(i as int, i + needle@.len()) == needle@),
{
    let nn: usize = needle.unicode_len();
    let mut j: usize = 0;
    while j < nn
        invariant
            j <= nn,
            nn == needle@.len(),
            i + nn <= hay@.len(),
            hay@.len() <= usize::MAX as int,
            forall|t: int| 0 <= t < j ==> hay@[i + t] == needle@[t],
        decreases nn - j,
    {
        if hay.get_char(i + j) != needle.get_char(j) {
            proof {
                let jj = j as int;
                assert(hay@.subrange(i as int, i + needle@.len())[jj] == hay@[i + jj]);
            }
            return false;
        }
        j = j + 1;
    }
    proof {
        assert(hay@.subrange(i as int, i + needle@.len()) =~= needle@);
    }
    true
}

/// Substring search over characters, against `contains_seq`.
pub fn contains_chars(hay: &str, needle: &str) -> (found: bool)
    ensures
        found == contains_seq(hay@, needle@),
{
    let hn: usize = hay.unicode_len();
    let nn: usize = needle.unicode_len();
    if nn > hn {
        return false;
    }
    if nn == 0 {
        proof {
            assert(hay@.subrange(0, 0 + needle@.len() as int) =~= needle@);
            assert(contains_seq(hay@, needle@));
        }
        return true;
    }
    let mut i: usize = 0;
    while i <= hn - nn
        invariant
            1 <= nn <= hn,
            hn == hay@.len(),
            nn == needle@.len(),
            i <= hn - nn + 1,
            forall|t: int|
                0 <= t < i ==> #[trigger] hay@.subrange(t, t + needle@.len()) != needle@,
        decreases hn - nn - i + 1,
    {
        if matches_at(hay, needle, i) {
            proof {
                let w = i as int;
                assert(0 <= w <= hay@.len() - needle@.len());
                assert(hay@.subrange(w, w + needle@.len()) == needle@);
                assert(contains_seq(hay@, needle@));
            }
            return true;
        }
        i = i + 1;
    }
    proof {
        assert forall|t: int|
            0 <= t <= hay@.len() - needle@.len() implies #[trigger] hay@.subrange(
            t,
            t + needle@.len(),
        ) != needle@ by {
            assert(t < i);
        }
    }
    false
}

} // verus!
