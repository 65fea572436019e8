//! Events: one parsed log record, and the extractor that turns raw lines
//! into records.
//!
//! A line has the fixed shape `[LEVEL] [TIMESTAMP] [ignored] ORIGINATOR:
//! PAYLOAD`.  A line that breaks the shape, names an unknown level,
//! carries a malformed timestamp or an unparseable payload is skipped:
//! it produces no event and does not advance the id counter, so ids are
//! dense and strictly increasing in file order across the lines that do
//! parse.




pub mod node_ev;
pub mod parser;

use vstd::prelude::*;

use crate::abstract_object::{AbstractObject, ObjModel};
use crate::abstract_object::parser::{parse_abstract_object, spec_parse_object};
use crate::err::AppError;
use crate::text::{
    all_digit_chars, digits_val, is_digit_char, lemma_scan_bounds, not_rbracket_pred,
    originator_char_pred, scan, space_pred, str_chars, str_eq, word_char, word_pred,
};

verus! {

broadcast use lemma_scan_bounds;

// ---------------------------------------------------------------------
// Levels.
// ---------------------------------------------------------------------

/// The verbosity level of a log line, from finest to coarsest.
#[derive(Debug, PartialEq, Eq, PartialOrd, Ord, Hash, Clone, Copy, Structural)]
pub enum EventLevel {
    Finest,
    Finer,
    Info,
}

/// The level a line's level field names, if any.
pub open spec fn spec_level_of(s: Seq<char>) -> Option<EventLevel> {
    if s == "FINEST"@ {
        Some(EventLevel::Finest)
    } else if s == "FINER"@ {
        Some(EventLevel::Finer)
    } else if s == "INFO"@ {
        Some(EventLevel::Info)
    } else {
        None
    }
}

/// The three level names are pairwise distinct strings.
proof fn level_literals_distinct()
    ensures
        "FINEST"@ != "FINER"@,
        "FINEST"@ != "INFO"@,
        "FINER"@ != "INFO"@,
{
    reveal_strlit("FINEST");
    reveal_strlit("FINER");
    reveal_strlit("INFO");
    assert("FINEST"@.len() == 6);
    assert("FINER"@.len() == 5);
    assert("INFO"@.len() == 4);
}

impl EventLevel {
    /// Reads a level field; anything but the three known names is an
    /// error.
    pub fn try_from_str(value: &str) -> (r: Result<Self, AppError>)
        ensures
            match r {
                Ok(lv) => spec_level_of(value@) == Some(lv),
                Err(_) => spec_level_of(value@) is None,
            },
    {
        proof {
            level_literals_distinct();
        }
        if str_eq(value, "FINEST") {
            Ok(EventLevel::Finest)
        } else if str_eq(value, "FINER") {
            Ok(EventLevel::Finer)
        } else if str_eq(value, "INFO") {
            Ok(EventLevel::Info)
        } else {
            Err(AppError::new("not a valid event level".to_owned()))
        }
    }

    /// The level's name, as it stands in a log line.
    pub fn as_str(&self) -> (r: &str)
        ensures
            spec_level_of(r@) == Some(*self),
    {
        proof {
            level_literals_distinct();
        }
        match self {
            EventLevel::Finest => "FINEST",
            EventLevel::Finer => "FINER",
            EventLevel::Info => "INFO",
        }
    }
}

// ---------------------------------------------------------------------
// Timestamps, as plain calendar fields.
// ---------------------------------------------------------------------

/// A wall-clock timestamp, second precision, as read from the fixed
/// `YYYY-MM-DD HH:MM:SS` field of a log line.
#[derive(Debug, PartialEq, Eq, PartialOrd, Ord, Hash, Clone, Copy, Structural)]
pub struct Timestamp {
    pub year: u32,
    pub month: u32,
    pub day: u32,
    pub hour: u32,
    pub minute: u32,
    pub second: u32,
}

/// Whether `y` is a leap year.
pub open spec fn spec_is_leap_year(y: int) -> bool {
    y % 4 == 0 && (y % 100 != 0 || y % 400 == 0)
}

/// How many days month `m` of year `y` has.
pub open spec fn spec_days_in_month(y: int, m: int) -> int {
    if m == 2 {
        if spec_is_leap_year(y) {
            29
        } else {
            28
        }
    } else if m == 4 || m == 6 || m == 9 || m == 11 {
        30
    } else {
        31
    }
}

impl Timestamp {
    /// The fields form a real calendar date and time of day.
    pub open spec fn valid(&self) -> bool {
        self.year <= 9999 && 1 <= self.month <= 12 && 1 <= self.day && self.day
            <= spec_days_in_month(self.year as int, self.month as int) && self.hour <= 23
            && self.minute <= 59 && self.second <= 59
    }
}

/// The timestamp a `YYYY-MM-DD HH:MM:SS` field denotes: exactly that
/// shape, all fields in range, `None` otherwise.
pub open spec fn spec_parse_timestamp(s: Seq<char>) -> Option<Timestamp> {
    if s.len() == 19 && s[4] == '-' && s[7] == '-' && s[10] == ' ' && s[13] == ':' && s[16] == ':'
        && all_digit_chars(s.subrange(0, 4)) && all_digit_chars(s.subrange(5, 7))
        && all_digit_chars(s.subrange(8, 10)) && all_digit_chars(s.subrange(11, 13))
        && all_digit_chars(s.subrange(14, 16)) && all_digit_chars(s.subrange(17, 19)) {
        let y = digits_val(s.subrange(0, 4));
        let mo = digits_val(s.subrange(5, 7));
        let d = digits_val(s.subrange(8, 10));
        let h = digits_val(s.subrange(11, 13));
        let mi = digits_val(s.subrange(14, 16));
        let se = digits_val(s.subrange(17, 19));
        let t = Timestamp {
            year: y as u32,
            month: mo as u32,
            day: d as u32,
            hour: h as u32,
            minute: mi as u32,
            second: se as u32,
        };
        if y <= 9999 && 1 <= mo <= 12 && 1 <= d <= spec_days_in_month(y, mo) && h <= 23 && mi
            <= 59 && se <= 59 {
            Some(t)
        } else {
            None
        }
    } else {
        None
    }
}

/// Reads the digit run `cs[from .. to]`; `None` when a character is no
/// digit or the value tops 9999.
fn read_digit_field(cs: &Vec<char>, from: usize, to: usize) -> (r: Option<u32>)
    requires
        from <= to <= cs@.len(),
    ensures
        ({
            let sub = cs@.subrange(from as int, to as int);
            match r {
                Some(v) => all_digit_chars(sub) && v == digits_val(sub) && v <= 9999,
                None => !all_digit_chars(sub) || digits_val(sub) > 9999,
            }
        }),
{
    let mut v: u32 = 0;
    let mut over = false;
    let mut j: usize = from;
    while j < to
        invariant
            from <= j <= to <= cs@.len(),
            all_digit_chars(cs@.subrange(from as int, j as int)),
            !over ==> v == digits_val(cs@.subrange(from as int, j as int)) && v <= 9999,
            over ==> digits_val(cs@.subrange(from as int, j as int)) > 9999,
        decreases to - j,
    {
        let c = cs[j];
        let is_d = crate::text::digit_char(c);
        proof {
            let pre = cs@.subrange(from as int, j as int);
            let post = cs@.subrange(from as int, j + 1);
            assert(post.drop_last() =~= pre);
            assert(post.last() == cs@[j as int]);
            crate::text::lemma_digits_val_nonneg(pre);
        }
        if !is_d {
            proof {
                let sub = cs@.subrange(from as int, to as int);
                assert(sub[j - from] == cs@[j as int]);
                assert(!all_digit_chars(sub));
            }
            return None;
        }
        let d: u32 = c as u32 - 48;
        if !over {
            if v > 999 {
                over = true;
            } else {
                v = v * 10 + d;
            }
        }
        j = j + 1;
    }
    if over {
        return None;
    }
    Some(v)
}

/// Reads a whole string as a `YYYY-MM-DD HH:MM:SS` timestamp.
pub fn parse_timestamp(s: &str) -> (r: Option<Timestamp>)
    ensures
        r == spec_parse_timestamp(s@),
{
    let cs = str_chars(s);
    if cs.len() != 19 {
        return None;
    }
    if !(cs[4] == '-' && cs[7] == '-' && cs[10] == ' ' && cs[13] == ':' && cs[16] == ':') {
        return None;
    }
    let y = match read_digit_field(&cs, 0, 4) {
        Some(v) => v,
        None => {
            return None;
        },
    };
    let mo = match read_digit_field(&cs, 5, 7) {
        Some(v) => v,
        None => {
            return None;
        },
    };
    let d = match read_digit_field(&cs, 8, 10) {
        Some(v) => v,
        None => {
            return None;
        },
    };
    let h = match read_digit_field(&cs, 11, 13) {
        Some(v) => v,
        None => {
            return None;
        },
    };
    let mi = match read_digit_field(&cs, 14, 16) {
        Some(v) => v,
        None => {
            return None;
        },
    };
    let se = match read_digit_field(&cs, 17, 19) {
        Some(v) => v,
        None => {
            return None;
        },
    };
    let dim = days_in_month(y, mo);
    if 1 <= mo && mo <= 12 && 1 <= d && d <= dim && h <= 23 && mi <= 59 && se <= 59 {
        Some(Timestamp { year: y, month: mo, day: d, hour: h, minute: mi, second: se })
    } else {
        None
    }
}

/// How many days month `m` of year `y` has.
pub fn days_in_month(y: u32, m: u32) -> (r: u32)
    ensures
        r == spec_days_in_month(y as int, m as int),
{
    if m == 2 {
        if y % 4 == 0 && (y % 100 != 0 || y % 400 == 0) {
            29
        } else {
            28
        }
    } else if m == 4 || m == 6 || m == 9 || m == 11 {
        30
    } else {
        31
    }
}

// ---------------------------------------------------------------------
// Events.
// ---------------------------------------------------------------------

/// Mathematical model of an [`Event`].
pub struct EvModel {
    pub id: int,
    pub level: EventLevel,
    pub time: Timestamp,
    pub originator: Seq<char>,
    pub payload: ObjModel,
}

/// One parsed log record.  Immutable once constructed; ids are unique and
/// dense across a corpus built by [`parse_event_log`].
#[derive(Debug)]
pub struct Event {
    pub id: usize,
    pub level: EventLevel,
    pub time: Timestamp,
    pub originator: String,
    pub event_obj: AbstractObject,
}

impl View for Event {
    type V = EvModel;

    open spec fn view(&self) -> EvModel {
        EvModel {
            id: self.id as int,
            level: self.level,
            time: self.time,
            originator: self.originator@,
            payload: self.event_obj@,
        }
    }
}

impl Event {
    /// The payload representation is well-formed.
    pub open spec fn wf(&self) -> bool {
        self.event_obj.wf()
    }

    pub fn new(
        id: usize,
        level: EventLevel,
        time: Timestamp,
        originator: String,
        event_obj: AbstractObject,
    ) -> (r: Self)
        ensures
            r.id == id && r.level == level && r.time == time && r.originator == originator
                && r.event_obj == event_obj,
    {
        Event { id, level, time, originator, event_obj }
    }

    pub fn id(&self) -> (r: usize)
        ensures
            r == self.id,
    {
        self.id
    }

    pub fn level(&self) -> (r: &EventLevel)
        ensures
            r == self.level,
    {
        &self.level
    }

    pub fn time(&self) -> (r: Timestamp)
        ensures
            r == self.time,
    {
        self.time
    }

    pub fn originator(&self) -> (r: &str)
        ensures
            r@ == self.originator@,
    {
        self.originator.as_str()
    }

    pub fn event_obj(&self) -> (r: &AbstractObject)
        ensures
            r == self.event_obj,
    {
        &self.event_obj
    }
}

// ---------------------------------------------------------------------
// The line format.
// ---------------------------------------------------------------------

/// What one well-shaped line carries.
pub struct LineModel {
    pub level: EventLevel,
    pub time: Timestamp,
    pub originator: Seq<char>,
    pub payload: ObjModel,
}

/// What a raw line denotes: `None` when the shape, the level, the
/// timestamp or the payload is bad, so that the line is skipped.
///
/// The shape is `'[' level-word space* ']' ' ' '[' timestamp ']' ' ' '['
/// ignored ']' ' ' originator ':' ' ' payload`, where the level word is
/// one or more word characters, the bracketed fields are nonempty and
/// free of `']'`, and the originator is one or more word characters or
/// hyphens.  Whatever payload text follows the object literal is
/// ignored.
pub open spec fn spec_parse_line(s: Seq<char>) -> Option<LineModel> {
    if s.len() == 0 || s[0] != '[' {
        None
    } else {
        let e1 = scan(s, 1, word_pred());
        let e2 = scan(s, e1, space_pred());
        if e1 == 1 || !(e2 + 2 < s.len() && s[e2] == ']' && s[e2 + 1] == ' ' && s[e2 + 2] == '[') {
            None
        } else {
            let t0 = e2 + 3;
            let e3 = scan(s, t0, not_rbracket_pred());
            if !(e3 > t0 && e3 + 2 < s.len() && s[e3] == ']' && s[e3 + 1] == ' ' && s[e3 + 2]
                == '[') {
                None
            } else {
                let g0 = e3 + 3;
                let e4 = scan(s, g0, not_rbracket_pred());
                if !(e4 > g0 && e4 + 1 < s.len() && s[e4] == ']' && s[e4 + 1] == ' ') {
                    None
                } else {
                    let o0 = e4 + 2;
                    let e5 = scan(s, o0, originator_char_pred());
                    if !(e5 > o0 && e5 + 2 < s.len() && s[e5] == ':' && s[e5 + 1] == ' ') {
                        None
                    } else {
                        let pay = s.subrange(e5 + 2, s.len() as int);
                        match (
                            spec_level_of(s.subrange(1, e1)),
                            spec_parse_timestamp(s.subrange(t0, e3)),
                            spec_parse_object(pay, 0),
                        ) {
                            (Some(lv), Some(ts), Some((om, _))) => Some(
                                LineModel {
                                    level: lv,
                                    time: ts,
                                    originator: s.subrange(o0, e5),
                                    payload: om,
                                },
                            ),
                            _ => None,
                        }
                    }
                }
            }
        }
    }
}

fn scan_word_run(cs: &Vec<char>, pos: usize) -> (e: usize)
    requires
        pos <= cs@.len(),
    ensures
        e == scan(cs@, pos as int, word_pred()),
        pos <= e <= cs@.len(),
{
    let n = cs.len();
    let mut e = pos;
    while e < n && word_char(cs[e])
        invariant
            pos <= e <= n,
            n == cs@.len(),
            scan(cs@, pos as int, word_pred()) == scan(cs@, e as int, word_pred()),
        decreases n - e,
    {
        e = e + 1;
    }
    e
}

fn scan_space_run(cs: &Vec<char>, pos: usize) -> (e: usize)
    requires
        pos <= cs@.len(),
    ensures
        e == scan(cs@, pos as int, space_pred()),
        pos <= e <= cs@.len(),
{
    let n = cs.len();
    let mut e = pos;
    while e < n && crate::text::space_char(cs[e])
        invariant
            pos <= e <= n,
            n == cs@.len(),
            scan(cs@, pos as int, space_pred()) == scan(cs@, e as int, space_pred()),
        decreases n - e,
    {
        e = e + 1;
    }
    e
}

fn scan_bracket_run(cs: &Vec<char>, pos: usize) -> (e: usize)
    requires
        pos <= cs@.len(),
    ensures
        e == scan(cs@, pos as int, not_rbracket_pred()),
        pos <= e <= cs@.len(),
{
    let n = cs.len();
    let mut e = pos;
    while e < n && cs[e] != ']'
        invariant
            pos <= e <= n,
            n == cs@.len(),
            scan(cs@, pos as int, not_rbracket_pred()) == scan(cs@, e as int, not_rbracket_pred()),
        decreases n - e,
    {
        e = e + 1;
    }
    e
}

fn scan_originator_run(cs: &Vec<char>, pos: usize) -> (e: usize)
    requires
        pos <= cs@.len(),
    ensures
        e == scan(cs@, pos as int, originator_char_pred()),
        pos <= e <= cs@.len(),
{
    let n = cs.len();
    let mut e = pos;
    while e < n && (word_char(cs[e]) || cs[e] == '-')
        invariant
            pos <= e <= n,
            n == cs@.len(),
            scan(cs@, pos as int, originator_char_pred()) == scan(
                cs@,
                e as int,
                originator_char_pred(),
            ),
        decreases n - e,
    {
        e = e + 1;
    }
    e
}

// ---------------------------------------------------------------------
// The extractor.
// ---------------------------------------------------------------------

/// Splits raw lines into events, assigning each a dense sequential id.
pub struct EventParser {
    pub running_id: usize,
}

impl EventParser {
    pub fn new() -> (r: Self)
        ensures
            r.running_id == 0,
    {
        EventParser { running_id: 0 }
    }

    /// Reads one line.  On success the event takes the next id and the
    /// counter advances; a line that [`spec_parse_line`] rejects leaves
    /// the counter alone.
    pub fn parse(&mut self, line: &str) -> (r: Result<Event, AppError>)
        requires
            old(self).running_id < usize::MAX,
        ensures
            match r {
                Ok(ev) => {
                    &&& spec_parse_line(line@) matches Some(lm)
                    &&& ev.id == old(self).running_id
                    &&& ev.level == lm.level
                    &&& ev.time == lm.time
                    &&& ev.originator@ == lm.originator
                    &&& ev.event_obj@ == lm.payload
                    &&& ev.wf()
                    &&& final(self).running_id == old(self).running_id + 1
                },
                Err(_) => spec_parse_line(line@) is None && final(self).running_id == old(
                    self,
                ).running_id,
            },
    {
        let cs = str_chars(line);
        let n = cs.len();
        if n == 0 || cs[0] != '[' {
            return Err(AppError::new("line was of an invalid format".to_owned()));
        }
        let e1 = scan_word_run(&cs, 1);
        let e2 = scan_space_run(&cs, e1);
        if e1 == 1 || !(n > 2 && e2 < n - 2 && cs[e2] == ']' && cs[e2 + 1] == ' ' && cs[e2 + 2]
            == '[') {
            return Err(AppError::new("line was of an invalid format".to_owned()));
        }
        let t0 = e2 + 3;
        let e3 = scan_bracket_run(&cs, t0);
        if !(e3 > t0 && n > 2 && e3 < n - 2 && cs[e3] == ']' && cs[e3 + 1] == ' ' && cs[e3 + 2]
            == '[') {
            return Err(AppError::new("line was of an invalid format".to_owned()));
        }
        let g0 = e3 + 3;
        let e4 = scan_bracket_run(&cs, g0);
        if !(e4 > g0 && n > 1 && e4 < n - 1 && cs[e4] == ']' && cs[e4 + 1] == ' ') {
            return Err(AppError::new("line was of an invalid format".to_owned()));
        }
        let o0 = e4 + 2;
        let e5 = scan_originator_run(&cs, o0);
        if !(e5 > o0 && n > 2 && e5 < n - 2 && cs[e5] == ':' && cs[e5 + 1] == ' ') {
            return Err(AppError::new("line was of an invalid format".to_owned()));
        }
        let level_text = crate::text::chars_string(&cs, 1, e1);
        let level = match EventLevel::try_from_str(level_text.as_str()) {
            Ok(lv) => lv,
            Err(e) => {
                return Err(e);
            },
        };
        let ts_text = crate::text::chars_string(&cs, t0, e3);
        let ts = match parse_timestamp(ts_text.as_str()) {
            Some(t) => t,
            None => {
                return Err(AppError::new("could not parse timestamp".to_owned()));
            },
        };
        let originator = crate::text::chars_string(&cs, o0, e5);
        let payload_text = crate::text::chars_string(&cs, e5 + 2, n);
        let payload = match parse_abstract_object(payload_text.as_str()) {
            Some((_, obj)) => obj,
            None => {
                return Err(AppError::new("failed to parse abstract object".to_owned()));
            },
        };
        let id = self.running_id;
        self.running_id = id + 1;
        Ok(Event::new(id, level, ts, originator, payload))
    }
}

/// Every event of the corpus carries a well-formed payload.
pub open spec fn events_wf(evs: Seq<Event>) -> bool {
    forall|i: int| 0 <= i < evs.len() ==> (#[trigger] evs[i]).wf()
}

/// The model of the event built from `lm` under id `id`.
pub open spec fn event_of(lm: LineModel, id: int) -> EvModel {
    EvModel {
        id: id,
        level: lm.level,
        time: lm.time,
        originator: lm.originator,
        payload: lm.payload,
    }
}

/// The records the parseable lines of `ls` carry, in order.
pub open spec fn spec_extract(ls: Seq<Seq<char>>) -> Seq<LineModel>
    decreases ls.len(),
{
    if ls.len() == 0 {
        Seq::empty()
    } else {
        spec_extract(ls.drop_last()) + (match spec_parse_line(ls.last()) {
            Some(lm) => seq![lm],
            None => Seq::empty(),
        })
    }
}

/// Parses a whole log, skipping bad lines.  Of `N` lines with `M`
/// parsing successfully, the resulting ids are exactly `0 .. M-1`, in
/// file order.
pub fn parse_event_log(lines: &Vec<String>) -> (r: Vec<Event>)
    ensures
        ({
            let ms = spec_extract(lines.deep_view());
            &&& r@.len() == ms.len()
            &&& forall|j: int| 0 <= j < ms.len() ==> (#[trigger] r@[j])@ == event_of(ms[j], j)
            &&& forall|j: int| 0 <= j < ms.len() ==> (#[trigger] r@[j]).wf()
        }),
{
    let mut events: Vec<Event> = Vec::new();
    let mut parser = EventParser::new();
    let n = lines.len();
    let mut i: usize = 0;
    while i < n
        invariant
            i <= n,
            n == lines@.len(),
            parser.running_id == events@.len(),
            events@.len() <= i,
            ({
                let ms = spec_extract(lines.deep_view().subrange(0, i as int));
                &&& events@.len() == ms.len()
                &&& forall|j: int|
                    0 <= j < ms.len() ==> (#[trigger] events@[j])@ == event_of(ms[j], j)
                &&& forall|j: int| 0 <= j < ms.len() ==> (#[trigger] events@[j]).wf()
            }),
        decreases n - i,
    {
        proof {
            let pre = lines.deep_view().subrange(0, i as int);
            let post = lines.deep_view().subrange(0, i + 1);
            assert(post.drop_last() =~= pre);
            assert(post.last() == lines.deep_view()[i as int]);
            assert(lines.deep_view()[i as int] == lines@[i as int]@);
        }
        match parser.parse(lines[i].as_str()) {
            Ok(ev) => {
                events.push(ev);
            },
            Err(_) => {},
        }
        i = i + 1;
    }
    proof {
        assert(lines.deep_view().subrange(0, n as int) =~= lines.deep_view());
    }
    events
}

} // verus!
