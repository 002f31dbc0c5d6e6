//! The download scheduler: times of day as `HH:MM`, the 12-hour picker, and the decision
//! taken on each clock tick.

use vstd::prelude::*;
use crate::numbers::{decimal_text, decimal_value, digit_char, parse_bounded, parse_nat, parse_unsigned, push_decimal, unsigned_digits, all_digits};
use crate::text::{chars_of, find_first, find_vec, lit, occurs_at, push_str, string_from_chars, sub_vec, trim, trim_vec, contains_seq};

verus! {

/// `n` printed with at least two digits (`{:02}`).
pub open spec fn two_digits(n: nat) -> Seq<char> {
    if n < 10 { seq!['0'] + decimal_text(n) } else { decimal_text(n) }
}

fn push_two_digits(out: &mut Vec<char>, n: u64)
    ensures
        final(out)@ == old(out)@ + two_digits(n as nat),
{
    if n < 10 {
        out.push('0');
    }
    push_decimal(out, n);
    assert(final(out)@ =~= old(out)@ + two_digits(n as nat));
}

/// The `HH:MM` time for a 12-hour picker: the hour is clamped to 1..=12 and the minute to
/// 0..=59; 12 AM is hour 0 and 12 PM is hour 12.
pub open spec fn picker_time_text(hour: i32, minute: i32, pm: bool) -> Seq<char> {
    let h: int = if hour < 1 { 1 } else if hour > 12 { 12 } else { hour as int };
    let m: int = if minute < 0 { 0 } else if minute > 59 { 59 } else { minute as int };
    let h24: int = h % 12 + if pm { 12int } else { 0int };
    two_digits(h24 as nat) + ":"@ + two_digits(m as nat)
}

/// Converts the scheduler's 12-hour picker to a `HH:MM` time.
pub fn time_picker_to_schedule_time(hour: i32, minute: i32, pm: bool) -> (r: String)
    ensures
        r@ == picker_time_text(hour, minute, pm),
{
    let h: u64 = if hour < 1 { 1 } else if hour > 12 { 12 } else { hour as u64 };
    let m: u64 = if minute < 0 { 0 } else if minute > 59 { 59 } else { minute as u64 };
    let mut h24 = h % 12;
    if pm {
        h24 = h24 + 12;
    }
    let mut out: Vec<char> = Vec::new();
    push_two_digits(&mut out, h24);
    push_str(&mut out, ":");
    push_two_digits(&mut out, m);
    string_from_chars(out.as_slice())
}

/// A `HH:MM` time read as hour and minute: the text is trimmed and split at its first `:`,
/// each side trimmed and read as a number; the hour must be below 24 and the minute
/// below 60.
#[verifier::opaque]
pub open spec fn schedule_time(value: Seq<char>) -> Option<(nat, nat)> {
    let t = trim(value);
    match find_first(t, seq![':']) {
        None => None,
        Some(i) => match (parse_bounded(trim(t.take(i)), u32::MAX as nat), parse_bounded(trim(t.skip(i + 1)), u32::MAX as nat)) {
            (Some(h), Some(m)) => if h < 24 && m < 60 { Some((h, m)) } else { None },
            _ => None,
        },
    }
}

/// Reads a `HH:MM` scheduler time.
pub fn parse_schedule_time(value: &str) -> (r: Option<(u32, u32)>)
    ensures
        r matches Some(hm) ==> schedule_time(value@) == Some((hm.0 as nat, hm.1 as nat)),
        r is None ==> schedule_time(value@) is None,
{
    reveal(schedule_time);
    let v = chars_of(value);
    let t = trim_vec(&v);
    let colon = lit(":");
    proof {
        reveal_strlit(":");
    }
    assert(colon@ =~= seq![':']);
    match find_vec(&t, &colon) {
        None => None,
        Some(i) => {
            assert(occurs_at(t@, colon@, i as int));
            let tl = t.len();
            let before = sub_vec(&t, 0, i);
            assert(before@ =~= t@.take(i as int));
            let after = sub_vec(&t, i + 1, tl);
            assert(after@ =~= t@.skip(i + 1));
            let hour = parse_unsigned(&trim_vec(&before), 0xffff_ffff);
            let minute = parse_unsigned(&trim_vec(&after), 0xffff_ffff);
            match (hour, minute) {
                (Some(h), Some(m)) => {
                    if h < 24 && m < 60 {
                        Some((h as u32, m as u32))
                    } else {
                        None
                    }
                },
                _ => None,
            }
        },
    }
}

/// A `HH:MM` time as shown on the 12-hour picker: hour 1..=12, minute, and PM.
pub open spec fn picker_of(value: Seq<char>) -> Option<(nat, nat, bool)> {
    match schedule_time(value) {
        None => None,
        Some(hm) => Some((if hm.0 % 12 == 0 { 12 } else { hm.0 % 12 }, hm.1, hm.0 >= 12)),
    }
}

/// Converts a `HH:MM` time to the 12-hour picker.
pub fn schedule_time_to_picker(value: &str) -> (r: Option<(u32, u32, bool)>)
    ensures
        r matches Some(p) ==> picker_of(value@) == Some((p.0 as nat, p.1 as nat, p.2)),
        r is None ==> picker_of(value@) is None,
{
    let (hour, minute) = match parse_schedule_time(value) {
        Some(hm) => hm,
        None => return None,
    };
    let pm = hour >= 12;
    let hour_12 = if hour % 12 == 0 { 12 } else { hour % 12 };
    Some((hour_12, minute, pm))
}


proof fn lemma_digit_char(d: nat)
    requires
        d < 10,
    ensures
        crate::numbers::is_digit(digit_char(d)),
        crate::numbers::digit_value(digit_char(d)) == d,
        !crate::text::is_white_space(digit_char(d)),
        digit_char(d) != ':',
{
    assert((((d + ('0' as u32)) as u32) as char) as u32 == d + 48);
}

proof fn lemma_two_digits(n: nat)
    requires
        n < 100,
    ensures
        two_digits(n) == seq![digit_char(n / 10), digit_char(n % 10)],
        parse_nat(two_digits(n)) == Some(n),
        trim(two_digits(n)) == two_digits(n),
{
    lemma_digit_char(n / 10);
    lemma_digit_char(n % 10);
    if n < 10 {
        assert(decimal_text(n) == seq![digit_char(n)]);
        assert(two_digits(n) =~= seq![digit_char(n / 10), digit_char(n % 10)]);
    } else {
        assert(decimal_text(n / 10) == seq![digit_char(n / 10)]);
        assert(two_digits(n) =~= seq![digit_char(n / 10), digit_char(n % 10)]);
    }
    let t = two_digits(n);
    assert(unsigned_digits(t) == t);
    assert(all_digits(t));
    assert(t.drop_last() =~= seq![digit_char(n / 10)]);
    assert(t.drop_last().drop_last() =~= Seq::<char>::empty());
    assert(decimal_value(t.drop_last().drop_last()) == 0);
    assert(decimal_value(t.drop_last()) == n / 10);
    assert(decimal_value(t) == (n / 10) * 10 + n % 10);
    assert((n / 10) * 10 + n % 10 == n) by (nonlinear_arith);
    assert(decimal_value(t) == n);
    assert(crate::text::trim_start(t) == t);
    assert(crate::text::trim_end(t) == t);
}

/// A time written as `HH:MM` reads back as the same hour and minute.
pub proof fn schedule_time_round_trip(hour: nat, minute: nat)
    requires
        hour < 24,
        minute < 60,
    ensures
        schedule_time(two_digits(hour) + ":"@ + two_digits(minute)) == Some((hour, minute)),
{
    reveal(schedule_time);
    reveal_strlit(":");
    lemma_two_digits(hour);
    lemma_two_digits(minute);
    lemma_digit_char(hour / 10);
    lemma_digit_char(minute % 10);
    let t = two_digits(hour) + ":"@ + two_digits(minute);
    assert(t =~= seq![digit_char(hour / 10), digit_char(hour % 10), ':', digit_char(minute / 10), digit_char(minute % 10)]);
    assert(crate::text::trim_start(t) == t);
    assert(crate::text::trim_end(t) == t);
    assert(trim(t) == t);
    let colon = seq![':'];
    assert(occurs_at(t, colon, 2)) by {
        assert(t.subrange(2, 3) =~= colon);
    }
    assert(!occurs_at(t, colon, 0)) by {
        assert(t.subrange(0, 1)[0] != ':');
    }
    assert(!occurs_at(t, colon, 1)) by {
        assert(t.subrange(1, 2)[0] != ':');
    }
    assert(contains_seq(t, colon));
    let k = choose|i: int| occurs_at(t, colon, i) && forall|j: int| 0 <= j < i ==> !occurs_at(t, colon, j);
    assert(k == 2);
    assert(find_first(t, colon) == Some(2int));
    assert(t.take(2) =~= two_digits(hour));
    assert(t.skip(3) =~= two_digits(minute));
}

/// The 12-hour picker reads back what it wrote: for any hour 1..=12, minute 0..=59 and
/// AM/PM, converting to `HH:MM` and back gives the same three values.
pub proof fn picker_round_trip(hour: i32, minute: i32, pm: bool)
    requires
        1 <= hour <= 12,
        0 <= minute <= 59,
    ensures
        picker_of(picker_time_text(hour, minute, pm)) == Some((hour as nat, minute as nat, pm)),
{
    let h: int = hour as int;
    let h24: int = h % 12 + if pm { 12int } else { 0int };
    assert(0 <= h24 < 24);
    let text = two_digits(h24 as nat) + ":"@ + two_digits(minute as nat);
    assert(picker_time_text(hour, minute, pm) == text);
    schedule_time_round_trip(h24 as nat, minute as nat);
    assert(schedule_time(text) == Some((h24 as nat, minute as nat)));
    assert((if h24 % 12 == 0 { 12 } else { h24 % 12 }) == h);
    assert((h24 >= 12) == pm);
}


/// What the scheduler is set to, and which minutes it last acted in.
pub struct SchedulerConfig {
    pub enabled: bool,
    pub start_at_enabled: bool,
    pub start_time: String,
    pub stop_enabled: bool,
    pub stop_time: String,
    pub last_start_key: String,
    pub last_stop_key: String,
}

/// The scheduler's settings as plain values.
pub struct SchedulerState {
    pub enabled: bool,
    pub start_at_enabled: bool,
    pub start_time: Seq<char>,
    pub stop_enabled: bool,
    pub stop_time: Seq<char>,
    pub last_start_key: Seq<char>,
    pub last_stop_key: Seq<char>,
}

impl View for SchedulerConfig {
    type V = SchedulerState;

    open spec fn view(&self) -> SchedulerState {
        SchedulerState {
            enabled: self.enabled,
            start_at_enabled: self.start_at_enabled,
            start_time: self.start_time@,
            stop_enabled: self.stop_enabled,
            stop_time: self.stop_time@,
            last_start_key: self.last_start_key@,
            last_stop_key: self.last_stop_key@,
        }
    }
}

impl Default for SchedulerConfig {
    /// Off; starting at 08:00 and stopping at 23:00 once switched on.
    fn default() -> (c: SchedulerConfig)
        ensures
            !c.enabled,
            c.start_at_enabled,
            c.start_time@ == "08:00"@,
            c.stop_enabled,
            c.stop_time@ == "23:00"@,
            c.last_start_key@.len() == 0,
            c.last_stop_key@.len() == 0,
    {
        SchedulerConfig {
            enabled: false,
            start_at_enabled: true,
            start_time: String::from_str("08:00"),
            stop_enabled: true,
            stop_time: String::from_str("23:00"),
            last_start_key: String::new(),
            last_stop_key: String::new(),
        }
    }
}

/// What the scheduler does on a tick.
#[derive(Clone, Copy, Debug, PartialEq, Eq, Structural)]
pub enum SchedulerAction {
    /// Start the scheduled queue.
    Start,
    /// Stop the scheduled downloads.
    Stop,
}

/// The key of a minute: `<date> <HH:MM>`.
pub open spec fn minute_key(today: Seq<char>, now: Seq<char>) -> Seq<char> {
    today + " "@ + now
}

/// The action of a tick at time `now` on date `today`: start when the start time is due and
/// has not been acted on this minute; else stop when the stop time is due and has not been
/// acted on this minute.
pub open spec fn tick_action(c: SchedulerState, today: Seq<char>, now: Seq<char>) -> Option<SchedulerAction> {
    let key = minute_key(today, now);
    if !c.enabled {
        None
    } else if c.start_at_enabled && c.start_time == now && c.last_start_key != key {
        Some(SchedulerAction::Start)
    } else if c.stop_enabled && c.stop_time.len() > 0 && c.stop_time == now && c.last_stop_key != key {
        Some(SchedulerAction::Stop)
    } else {
        None
    }
}

/// The settings after a tick: the minute acted in is remembered.
pub open spec fn after_tick(c: SchedulerState, today: Seq<char>, now: Seq<char>) -> SchedulerState {
    match tick_action(c, today, now) {
        Some(SchedulerAction::Start) => SchedulerState { last_start_key: minute_key(today, now), ..c },
        Some(SchedulerAction::Stop) => SchedulerState { last_stop_key: minute_key(today, now), ..c },
        None => c,
    }
}

/// Decides what the scheduler does on a clock tick, and remembers the minute it acted in.
pub fn scheduler_tick(config: &mut SchedulerConfig, today: &str, current_time: &str) -> (r: Option<SchedulerAction>)
    ensures
        r == tick_action(old(config)@, today@, current_time@),
        final(config)@ == after_tick(old(config)@, today@, current_time@),
{
    let mut key: Vec<char> = Vec::new();
    push_str(&mut key, today);
    push_str(&mut key, " ");
    push_str(&mut key, current_time);
    let key = string_from_chars(key.as_slice());
    if !config.enabled {
        return None;
    }
    let now = String::from_str(current_time);
    if config.start_at_enabled && config.start_time == now && config.last_start_key != key {
        config.last_start_key = key;
        return Some(SchedulerAction::Start);
    }
    if config.stop_enabled && config.stop_time.unicode_len() > 0 && config.stop_time == now
        && config.last_stop_key != key {
        config.last_stop_key = key;
        return Some(SchedulerAction::Stop);
    }
    None
}

/// The scheduler acts at most once per minute for each of its two times: a second tick in
/// the same minute, on the settings the first tick left, neither starts nor stops again what
/// the first tick started or stopped.
pub proof fn scheduler_acts_once_per_minute(c: SchedulerState, today: Seq<char>, now: Seq<char>)
    ensures
        tick_action(c, today, now) == Some(SchedulerAction::Start) ==>
            tick_action(after_tick(c, today, now), today, now) != Some(SchedulerAction::Start),
        tick_action(c, today, now) == Some(SchedulerAction::Stop) ==>
            tick_action(after_tick(c, today, now), today, now) is None,
{
}

} // verus!
