use crate::clock::Timestamp;
use crate::text;
use vstd::prelude::*;

verus! {

// ---------------------------------------------------------------------------
// Data model
// ---------------------------------------------------------------------------

/// The time of day an alarm is set for.
#[derive(Debug, Clone, Copy, PartialEq, Eq, Structural)]
pub struct Time {
    pub hours: u32,
    pub minutes: u32,
    pub seconds: u32,
}

impl Time {
    /// Field ranges of a real time of day.
    pub open spec fn wf(self) -> bool {
        self.hours < 24 && self.minutes < 60 && self.seconds < 60
    }

    /// This time of day counted in seconds since midnight.
    pub open spec fn spec_seconds_of_day(self) -> int {
        self.hours * 3600 + self.minutes * 60 + self.seconds
    }
}

/// The mathematical picture of an alarm record.
#[verifier::ext_equal]
pub struct AlarmView {
    pub days: Seq<bool>,
    pub time: Time,
    pub audio_file: Seq<char>,
    pub volume: u32,
    pub last_run: Option<Timestamp>,
}

/// One configured alarm: the weekdays it is active on (Monday first), its
/// time of day, the audio payload to play, the playback volume in percent,
/// and when it last fired (`None` until it ever does).
#[derive(Debug, Clone, PartialEq)]
pub struct AlarmConfig {
    pub days: Vec<bool>,
    pub time: Time,
    pub audio_file: String,
    pub volume: u32,
    pub last_run: Option<Timestamp>,
}

impl View for AlarmConfig {
    type V = AlarmView;

    open spec fn view(&self) -> AlarmView {
        AlarmView {
            days: self.days@,
            time: self.time,
            audio_file: self.audio_file@,
            volume: self.volume,
            last_run: self.last_run,
        }
    }
}

impl AlarmView {
    /// The record invariant: exactly seven day slots, a volume within
    /// [0, 100], and an in-range time of day.
    pub open spec fn wf(self) -> bool {
        self.days.len() == 7 && self.volume <= 100 && self.time.wf()
    }

    /// The alarm fired earlier today: its last run falls on the same
    /// calendar day as `now` and at or after the alarm's own time of day.
    pub open spec fn spec_already_run_today(self, now: Timestamp) -> bool {
        match self.last_run {
            Some(lr) => lr.spec_same_day(now) && lr.spec_seconds_of_day()
                >= self.time.spec_seconds_of_day(),
            None => false,
        }
    }

    /// The current time of day has reached the alarm's time of day.
    pub open spec fn spec_is_expired(self, now: Timestamp) -> bool {
        now.spec_seconds_of_day() >= self.time.spec_seconds_of_day()
    }

    /// The alarm is configured to run on `now`'s weekday; an out-of-range
    /// weekday index counts as inactive.
    pub open spec fn spec_is_active_day(self, now: Timestamp) -> bool {
        now.weekday < self.days.len() && self.days[now.weekday as int]
    }

    /// The combined firing predicate: due now, on an active day, and not
    /// already fired today.
    pub open spec fn spec_should_fire(self, now: Timestamp) -> bool {
        self.spec_is_active_day(now) && self.spec_is_expired(now)
            && !self.spec_already_run_today(now)
    }
}

// ---------------------------------------------------------------------------
// Time predicates
// ---------------------------------------------------------------------------

pub open spec fn spec_hms_seconds(hms: (u32, u32, u32)) -> int {
    hms.0 * 3600 + hms.1 * 60 + hms.2
}

/// Compares two (hours, minutes, seconds) triples by their seconds-of-day
/// value.
pub fn hms_gte(hms1: (u32, u32, u32), hms2: (u32, u32, u32)) -> (r: bool)
    ensures
        r == (spec_hms_seconds(hms1) >= spec_hms_seconds(hms2)),
{
    (hms1.0 as u64) * 3600 + (hms1.1 as u64) * 60 + (hms1.2 as u64) >= (hms2.0 as u64) * 3600 + (
    hms2.1 as u64) * 60 + (hms2.2 as u64)
}

impl AlarmConfig {
    /// Whether the alarm has already fired today, or had already passed its
    /// trigger time when its record was created.
    pub fn already_run_today(&self, now: &Timestamp) -> (r: bool)
        ensures
            r == self@.spec_already_run_today(*now),
    {
        match &self.last_run {
            Some(lr) => lr.same_day(now) && hms_gte(
                (lr.hours, lr.minutes, lr.seconds),
                (self.time.hours, self.time.minutes, self.time.seconds),
            ),
            None => false,
        }
    }

    /// Whether the current time of day is at or past the alarm's time of day.
    pub fn is_expired(&self, now: &Timestamp) -> (r: bool)
        ensures
            r == self@.spec_is_expired(*now),
    {
        hms_gte(
            (now.hours, now.minutes, now.seconds),
            (self.time.hours, self.time.minutes, self.time.seconds),
        )
    }

    /// Whether the alarm is configured to run on `now`'s weekday.
    pub fn is_active_day(&self, now: &Timestamp) -> (r: bool)
        ensures
            r == self@.spec_is_active_day(*now),
    {
        let idx = now.weekday as usize;
        if idx < self.days.len() {
            self.days[idx]
        } else {
            false
        }
    }

    /// The combined firing predicate of one record.
    pub fn should_fire(&self, now: &Timestamp) -> (r: bool)
        ensures
            r == self@.spec_should_fire(*now),
    {
        self.is_active_day(now) && self.is_expired(now) && !self.already_run_today(now)
    }
}

/// Reaching an alarm's trigger time is stable for the rest of the day: once
/// `spec_is_expired` holds at `t1`, it holds at any `t2` at or after `t1` on
/// the same calendar day.
pub proof fn lemma_is_expired_monotone(a: AlarmView, t1: Timestamp, t2: Timestamp)
    requires
        t1.spec_same_day(t2),
        t2.spec_seconds_of_day() >= t1.spec_seconds_of_day(),
        a.spec_is_expired(t1),
    ensures
        a.spec_is_expired(t2),
{
}

// ---------------------------------------------------------------------------
// Parsing
// ---------------------------------------------------------------------------

/// The canonical weekday letters of a day mask, Monday first.
pub open spec fn day_letters() -> Seq<char> {
    seq!['M', 'T', 'W', 'T', 'F', 'S', 'S']
}

/// A 7-character mask parses to seven flags, position `i` true exactly when
/// the character there is the canonical letter of weekday `i`; any other
/// length is invalid.
pub open spec fn spec_parse_days(s: Seq<char>) -> Option<Seq<bool>> {
    if s.len() == 7 {
        Some(Seq::new(7, |i: int| s[i] == day_letters()[i]))
    } else {
        None
    }
}

fn parse_days_chars(s: &Vec<char>) -> (r: Option<Vec<bool>>)
    ensures
        r is Some <==> spec_parse_days(s@) is Some,
        r matches Some(v) ==> Some(v@) == spec_parse_days(s@),
{
    if s.len() != 7 {
        return None;
    }
    let mut v: Vec<bool> = Vec::new();
    v.push(s[0] == 'M');
    v.push(s[1] == 'T');
    v.push(s[2] == 'W');
    v.push(s[3] == 'T');
    v.push(s[4] == 'F');
    v.push(s[5] == 'S');
    v.push(s[6] == 'S');
    proof {
        assert(v@ =~= spec_parse_days(s@).unwrap());
    }
    Some(v)
}

/// Parses a day mask such as `MTWTF__` into seven weekday flags.
pub fn parse_days(s: &str) -> (r: Option<Vec<bool>>)
    ensures
        r is Some <==> spec_parse_days(s@) is Some,
        r matches Some(v) ==> Some(v@) == spec_parse_days(s@),
{
    let chars = text::chars_of(s);
    parse_days_chars(&chars)
}

/// `v` raised to at least `lo`, then lowered to at most `hi`.
pub open spec fn spec_min_max(v: int, lo: int, hi: int) -> int {
    let raised = if v > lo {
        v
    } else {
        lo
    };
    if hi < raised {
        hi
    } else {
        raised
    }
}

/// What parsing a numeral with bounds yields: the parsed value clamped into
/// [`lo`, `hi`], or `hi` itself when the text is not a numeral.
pub open spec fn spec_parse_int_with_min_max(s: Seq<char>, lo: u32, hi: u32) -> int {
    let v = match text::spec_parse_u32(s) {
        Some(u) => u as int,
        None => hi as int,
    };
    spec_min_max(v, lo as int, hi as int)
}

fn parse_int_chars(s: &Vec<char>, lo: u32, hi: u32) -> (r: u32)
    ensures
        r == spec_parse_int_with_min_max(s@, lo, hi),
{
    let v = match text::parse_u32_chars(s) {
        Some(u) => u,
        None => hi,
    };
    let raised = if v > lo {
        v
    } else {
        lo
    };
    if hi < raised {
        hi
    } else {
        raised
    }
}

/// Parses a numeral and clamps it into [`lo`, `hi`]; text that is not a
/// numeral defaults to `hi`.
pub fn parse_int_with_min_max(i: &str, lo: u32, hi: u32) -> (r: u32)
    ensures
        r == spec_parse_int_with_min_max(i@, lo, hi),
{
    let chars = text::chars_of(i);
    parse_int_chars(&chars, lo, hi)
}

/// A time-of-day string parses when it has exactly three `:`-separated
/// fields; hours clamp into 0..=23 and minutes and seconds into 0..=59, and a
/// field that is not a numeral defaults to that bound.
pub open spec fn spec_parse_time(s: Seq<char>) -> Option<Time> {
    let parts = text::spec_split(s, ':');
    if parts.len() == 3 {
        Some(
            Time {
                hours: spec_parse_int_with_min_max(parts[0], 0, 23) as u32,
                minutes: spec_parse_int_with_min_max(parts[1], 0, 59) as u32,
                seconds: spec_parse_int_with_min_max(parts[2], 0, 59) as u32,
            },
        )
    } else {
        None
    }
}

fn parse_time_chars(s: &Vec<char>) -> (r: Option<Time>)
    ensures
        r is Some <==> spec_parse_time(s@) is Some,
        r matches Some(t) ==> Some(t) == spec_parse_time(s@),
        r matches Some(t) ==> t.wf(),
{
    let parts = text::split_chars(s, ':');
    if parts.len() != 3 {
        return None;
    }
    let t = Time {
        hours: parse_int_chars(&parts[0], 0, 23),
        minutes: parse_int_chars(&parts[1], 0, 59),
        seconds: parse_int_chars(&parts[2], 0, 59),
    };
    Some(t)
}

/// Parses an `HH:MM:SS` string, clamping each component into its range.
pub fn parse_time(s: &str) -> (r: Option<Time>)
    ensures
        r is Some <==> spec_parse_time(s@) is Some,
        r matches Some(t) ==> Some(t) == spec_parse_time(s@),
        r matches Some(t) ==> t.wf(),
{
    let chars = text::chars_of(s);
    parse_time_chars(&chars)
}

/// A configuration line parses when it has exactly four `;`-separated fields
/// (day mask, time of day, audio path, volume), the mask has seven characters
/// and the time three fields. The volume clamps into 0..=100 and a fresh
/// record has never run.
pub open spec fn spec_parse_configuration(s: Seq<char>) -> Option<AlarmView> {
    let parts = text::spec_split(s, ';');
    if parts.len() == 4 {
        let days_opt = spec_parse_days(parts[0]);
        let time_opt = spec_parse_time(parts[1]);
        if days_opt is Some && time_opt is Some {
            Some(
                AlarmView {
                    days: days_opt.unwrap(),
                    time: time_opt.unwrap(),
                    audio_file: parts[2],
                    volume: spec_parse_int_with_min_max(parts[3], 0, 100) as u32,
                    last_run: None,
                },
            )
        } else {
            None
        }
    } else {
        None
    }
}

fn parse_configuration_chars(s: &Vec<char>) -> (r: Option<AlarmConfig>)
    ensures
        r is Some <==> spec_parse_configuration(s@) is Some,
        r matches Some(c) ==> Some(c@) == spec_parse_configuration(s@),
        r matches Some(c) ==> c@.wf(),
{
    let parts = text::split_chars(s, ';');
    if parts.len() != 4 {
        return None;
    }
    let days = match parse_days_chars(&parts[0]) {
        Some(d) => d,
        None => {
            return None;
        },
    };
    let time = match parse_time_chars(&parts[1]) {
        Some(t) => t,
        None => {
            return None;
        },
    };
    let audio_file = text::string_from_chars(&parts[2]);
    let volume = parse_int_chars(&parts[3], 0, 100);
    let c = AlarmConfig { days, time, audio_file, volume, last_run: None };
    Some(c)
}

/// Parses one configuration line into an alarm record.
pub fn parse_configuration(s: &str) -> (r: Option<AlarmConfig>)
    ensures
        r is Some <==> spec_parse_configuration(s@) is Some,
        r matches Some(c) ==> Some(c@) == spec_parse_configuration(s@),
        r matches Some(c) ==> c@.wf(),
{
    let chars = text::chars_of(s);
    parse_configuration_chars(&chars)
}

// ---------------------------------------------------------------------------
// Status reporting
// ---------------------------------------------------------------------------

/// The 7-character day mask of a record: the canonical letter where the day
/// is active, an underscore where it is not.
pub open spec fn spec_days_mask(days: Seq<bool>) -> Seq<char> {
    Seq::new(
        7,
        |i: int|
            if 0 <= i < days.len() && days[i] {
                day_letters()[i]
            } else {
                '_'
            },
    )
}

fn day_letter(i: usize) -> (c: char)
    requires
        i < 7,
    ensures
        c == day_letters()[i as int],
{
    if i == 0 {
        'M'
    } else if i == 1 {
        'T'
    } else if i == 2 {
        'W'
    } else if i == 3 {
        'T'
    } else if i == 4 {
        'F'
    } else {
        'S'
    }
}

/// Renders the day mask of a record.
pub fn days_mask(days: &Vec<bool>) -> (r: Vec<char>)
    ensures
        r@ == spec_days_mask(days@),
{
    let mut r: Vec<char> = Vec::new();
    let mut i: usize = 0;
    while i < 7
        invariant
            i <= 7,
            r@.len() == i,
            forall|j: int| 0 <= j < i ==> r@[j] == spec_days_mask(days@)[j],
        decreases 7 - i,
    {
        let active = i < days.len() && days[i];
        let c = if active {
            day_letter(i)
        } else {
            '_'
        };
        r.push(c);
        i = i + 1;
    }
    proof {
        assert(r@ =~= spec_days_mask(days@));
    }
    r
}

/// A time of day as `HH:MM:SS`.
pub open spec fn spec_time_text(t: Time) -> Seq<char> {
    text::spec_numeral2(t.hours as int) + ":"@ + text::spec_numeral2(t.minutes as int) + ":"@
        + text::spec_numeral2(t.seconds as int)
}

fn push_time(out: &mut Vec<char>, t: &Time)
    ensures
        final(out)@ == old(out)@ + spec_time_text(*t),
{
    let mut h = text::numeral2_chars(t.hours);
    out.append(&mut h);
    text::push_str_chars(out, ":");
    let mut m = text::numeral2_chars(t.minutes);
    out.append(&mut m);
    text::push_str_chars(out, ":");
    let mut s = text::numeral2_chars(t.seconds);
    out.append(&mut s);
    proof {
        assert(out@ =~= old(out)@ + spec_time_text(*t));
    }
}

/// A last-run marker: an ISO-8601 date and time, or `never` for a record
/// that has not fired.
pub open spec fn spec_last_run_text(lr: Option<Timestamp>) -> Seq<char> {
    match lr {
        None => "never"@,
        Some(t) => text::spec_numeral(t.year as int) + "-"@ + text::spec_numeral2(t.month as int)
            + "-"@ + text::spec_numeral2(t.day as int) + "T"@ + spec_time_text(
            Time { hours: t.hours, minutes: t.minutes, seconds: t.seconds },
        ),
    }
}

/// One status-report line of a record, as the periodic report and the `show`
/// command print it.
pub open spec fn spec_status_line(a: AlarmView, now: Timestamp) -> Seq<char> {
    "Days: "@ + spec_days_mask(a.days) + ", Time: "@ + spec_time_text(a.time) + ", File: "@
        + a.audio_file + ", Volume: "@ + text::spec_numeral(a.volume as int) + "%, Last run: "@
        + spec_last_run_text(a.last_run) + ", Run today: "@ + (if !a.spec_already_run_today(now) {
        "true"@
    } else {
        "false"@
    })
}

impl AlarmConfig {
    /// Renders this record's status-report line.
    pub fn status_line(&self, now: &Timestamp) -> (r: String)
        ensures
            r@ == spec_status_line(self@, *now),
    {
        let mut out: Vec<char> = Vec::new();
        text::push_str_chars(&mut out, "Days: ");
        let mut mask = days_mask(&self.days);
        out.append(&mut mask);
        text::push_str_chars(&mut out, ", Time: ");
        push_time(&mut out, &self.time);
        text::push_str_chars(&mut out, ", File: ");
        let mut f = text::chars_of(self.audio_file.as_str());
        out.append(&mut f);
        text::push_str_chars(&mut out, ", Volume: ");
        let mut v = text::numeral_chars(self.volume);
        out.append(&mut v);
        text::push_str_chars(&mut out, "%, Last run: ");
        match &self.last_run {
            None => {
                text::push_str_chars(&mut out, "never");
            },
            Some(t) => {
                let mut y = text::numeral_chars(t.year);
                out.append(&mut y);
                text::push_str_chars(&mut out, "-");
                let mut mo = text::numeral2_chars(t.month);
                out.append(&mut mo);
                text::push_str_chars(&mut out, "-");
                let mut d = text::numeral2_chars(t.day);
                out.append(&mut d);
                text::push_str_chars(&mut out, "T");
                let day_time = Time { hours: t.hours, minutes: t.minutes, seconds: t.seconds };
                push_time(&mut out, &day_time);
            },
        }
        text::push_str_chars(&mut out, ", Run today: ");
        if !self.already_run_today(now) {
            text::push_str_chars(&mut out, "true");
        } else {
            text::push_str_chars(&mut out, "false");
        }
        proof {
            assert(out@ =~= spec_status_line(self@, *now));
        }
        text::string_from_chars(&out)
    }
}

// ---------------------------------------------------------------------------
// Whole configuration texts
// ---------------------------------------------------------------------------

/// The records of the lines that parse, in order; lines that do not parse
/// are skipped.
pub open spec fn spec_load(lines: Seq<Seq<char>>) -> Seq<AlarmView>
    decreases lines.len(),
{
    if lines.len() == 0 {
        Seq::empty()
    } else {
        let rest = spec_load(lines.drop_last());
        match spec_parse_configuration(lines.last()) {
            Some(a) => rest.push(a),
            None => rest,
        }
    }
}

/// The lines that do not parse, in order.
pub open spec fn spec_rejected(lines: Seq<Seq<char>>) -> Seq<Seq<char>>
    decreases lines.len(),
{
    if lines.len() == 0 {
        Seq::empty()
    } else {
        let rest = spec_rejected(lines.drop_last());
        match spec_parse_configuration(lines.last()) {
            Some(a) => rest,
            None => rest.push(lines.last()),
        }
    }
}

/// Parses a whole configuration text: one record per line that parses,
/// in line order.
pub fn load_configuration(text_s: &str) -> (r: Vec<AlarmConfig>)
    ensures
        r@.map_values(|c: AlarmConfig| c@) == spec_load(text::spec_lines(text_s@)),
        forall|k: int| 0 <= k < r@.len() ==> (#[trigger] r@[k])@.wf(),
{
    let lines = text::split_lines(text_s);
    let ghost ls = text::spec_lines(text_s@);
    let mut r: Vec<AlarmConfig> = Vec::new();
    let mut i: usize = 0;
    while i < lines.len()
        invariant
            i <= lines.len(),
            lines@.len() == ls.len(),
            forall|j: int| 0 <= j < ls.len() ==> (#[trigger] lines@[j])@ == ls[j],
            r@.map_values(|c: AlarmConfig| c@) == spec_load(ls.take(i as int)),
            forall|k: int| 0 <= k < r@.len() ==> (#[trigger] r@[k])@.wf(),
        decreases lines.len() - i,
    {
        proof {
            assert(ls.take(i as int + 1).drop_last() =~= ls.take(i as int));
            assert(ls.take(i as int + 1).last() == ls[i as int]);
        }
        match parse_configuration_chars(&lines[i]) {
            Some(c) => {
                r.push(c);
                proof {
                    assert(r@.map_values(|c: AlarmConfig| c@) =~= spec_load(
                        ls.take(i as int + 1),
                    ));
                }
            },
            None => {
                proof {
                    assert(r@.map_values(|c: AlarmConfig| c@) =~= spec_load(
                        ls.take(i as int + 1),
                    ));
                }
            },
        }
        i = i + 1;
    }
    proof {
        assert(ls.take(ls.len() as int) =~= ls);
    }
    r
}

/// The lines of a configuration text that are rejected, for reporting.
pub fn rejected_lines(text_s: &str) -> (r: Vec<String>)
    ensures
        r@.map_values(|l: String| l@) == spec_rejected(text::spec_lines(text_s@)),
{
    let lines = text::split_lines(text_s);
    let ghost ls = text::spec_lines(text_s@);
    let mut r: Vec<String> = Vec::new();
    let mut i: usize = 0;
    while i < lines.len()
        invariant
            i <= lines.len(),
            lines@.len() == ls.len(),
            forall|j: int| 0 <= j < ls.len() ==> (#[trigger] lines@[j])@ == ls[j],
            r@.map_values(|l: String| l@) == spec_rejected(ls.take(i as int)),
        decreases lines.len() - i,
    {
        proof {
            assert(ls.take(i as int + 1).drop_last() =~= ls.take(i as int));
            assert(ls.take(i as int + 1).last() == ls[i as int]);
        }
        match parse_configuration_chars(&lines[i]) {
            Some(_c) => {
                proof {
                    assert(r@.map_values(|l: String| l@) =~= spec_rejected(
                        ls.take(i as int + 1),
                    ));
                }
            },
            None => {
                let l = text::string_from_chars(&lines[i]);
                r.push(l);
                proof {
                    assert(r@.map_values(|l: String| l@) =~= spec_rejected(
                        ls.take(i as int + 1),
                    ));
                }
            },
        }
        i = i + 1;
    }
    proof {
        assert(ls.take(ls.len() as int) =~= ls);
    }
    r
}

} // verus!
