use vstd::prelude::*;

use crate::text::str_eq;
use crate::parser::{parse_user_prompt_timestamp, user_prompt_timestamp};
use crate::text::{
    lemma_seq_lt_irreflexive, lemma_seq_lt_total,
    lemma_seq_lt_transitive, seq_lt, str_lt,
};
use crate::time::{
    day_number, is_within_hours, parse_rfc3339, rfc3339_of, utc_date, utc_date_of, utc_day_number,
    within_hours, Instant,
};

verus! {

/// The heatmap covers the 84 days (12 weeks) before now.
pub const ACTIVITY_HOURS: u32 = 2016;

/// The instant of the genuine prompt that a line records, where its
/// timestamp is an RFC 3339 time.
pub open spec fn prompt_instant(line: Seq<char>) -> Option<Instant> {
    match user_prompt_timestamp(line) {
        Some(ts) => rfc3339_of(ts@),
        None => None,
    }
}

/// The line records a genuine prompt made within `hours` hours before `now`.
pub open spec fn prompt_in_window(line: Seq<char>, now: Instant, hours: int) -> bool {
    prompt_instant(line) is Some && within_hours(prompt_instant(line).unwrap(), now, hours)
}

/// Number of lines that record a genuine prompt within the window.
pub open spec fn prompt_count(lines: Seq<String>, now: Instant, hours: int) -> int
    decreases lines.len(),
{
    if lines.len() == 0 {
        0
    } else {
        prompt_count(lines.drop_last(), now, hours) + if prompt_in_window(lines.last()@, now, hours) {
            1int
        } else {
            0
        }
    }
}

/// Number of lines that record a genuine prompt within the heatmap's window
/// on the UTC day `date`.
pub open spec fn day_prompt_count(lines: Seq<String>, now: Instant, date: Seq<char>) -> int
    decreases lines.len(),
{
    if lines.len() == 0 {
        0
    } else {
        day_prompt_count(lines.drop_last(), now, date) + if prompt_in_window(
            lines.last()@,
            now,
            ACTIVITY_HOURS as int,
        ) && utc_date_of(prompt_instant(lines.last()@).unwrap().secs) == date {
            1int
        } else {
            0
        }
    }
}

proof fn lemma_prompt_count_bound(lines: Seq<String>, now: Instant, hours: int)
    ensures
        0 <= prompt_count(lines, now, hours) <= lines.len(),
    decreases lines.len(),
{
    if lines.len() > 0 {
        lemma_prompt_count_bound(lines.drop_last(), now, hours);
    }
}

proof fn lemma_day_count_bound(lines: Seq<String>, now: Instant, date: Seq<char>)
    ensures
        0 <= day_prompt_count(lines, now, date) <= lines.len(),
    decreases lines.len(),
{
    if lines.len() > 0 {
        lemma_day_count_bound(lines.drop_last(), now, date);
    }
}

/// The instant of the genuine prompt on a line, if it records one.
pub fn prompt_instant_of(line: &str) -> (r: Option<Instant>)
    ensures
        r == prompt_instant(line@),
{
    match parse_user_prompt_timestamp(line) {
        Some(ts) => parse_rfc3339(ts.as_str()),
        None => None,
    }
}

/// Counts the lines that record a genuine user prompt made within `hours`
/// hours before `now`; tool-result echoes and malformed lines count nothing.
pub fn count_user_prompts_in_window(lines: &Vec<String>, now: &Instant, hours: u32) -> (r: u32)
    requires
        lines@.len() <= u32::MAX,
    ensures
        r == prompt_count(lines@, *now, hours as int),
{
    let mut count: u32 = 0;
    let mut i: usize = 0;
    while i < lines.len()
        invariant
            i <= lines@.len(),
            lines@.len() <= u32::MAX,
            count == prompt_count(lines@.subrange(0, i as int), *now, hours as int),
        decreases lines@.len() - i,
    {
        let ghost next = lines@.subrange(0, i + 1);
        assert(next.drop_last() =~= lines@.subrange(0, i as int));
        proof {
            lemma_prompt_count_bound(next, *now, hours as int);
        }
        match prompt_instant_of(lines[i].as_str()) {
            Some(t) => {
                if is_within_hours(&t, now, hours) {
                    count = count + 1;
                }
            },
            None => {},
        }
        i += 1;
    }
    assert(lines@.subrange(0, lines@.len() as int) =~= lines@);
    count
}

/// Genuine prompts on one UTC day.
#[derive(Debug)]
pub struct DailyActivity {
    /// `YYYY-MM-DD`.
    pub date: String,
    pub prompt_count: u32,
}

/// Dates strictly ascending, so each at most once.
pub open spec fn ascending_dates(s: Seq<DailyActivity>) -> bool {
    forall|a: int, b: int| 0 <= a < b < s.len() ==> seq_lt(s[a].date@, s[b].date@)
}

fn find_date(acts: &Vec<DailyActivity>, date: &str) -> (r: usize)
    ensures
        r <= acts@.len(),
        r < acts@.len() ==> acts@[r as int].date@ == date@,
        r == acts@.len() ==> forall|a: int| 0 <= a < acts@.len() ==> acts@[a].date@ != date@,
{
    let mut j: usize = 0;
    while j < acts.len()
        invariant
            j <= acts@.len(),
            forall|a: int| 0 <= a < j ==> acts@[a].date@ != date@,
        decreases acts@.len() - j,
    {
        if str_eq(acts[j].date.as_str(), date) {
            return j;
        }
        j += 1;
    }
    j
}

fn insert_by_date(acts: &mut Vec<DailyActivity>, x: DailyActivity) -> (p: usize)
    requires
        ascending_dates(old(acts)@),
        forall|a: int| 0 <= a < old(acts)@.len() ==> old(acts)@[a].date@ != x.date@,
    ensures
        p <= old(acts)@.len(),
        final(acts)@ == old(acts)@.insert(p as int, x),
        ascending_dates(final(acts)@),
{
    let ghost old_acts = acts@;
    let mut p: usize = 0;
    while p < acts.len() && !str_lt(x.date.as_str(), acts[p].date.as_str())
        invariant
            p <= acts@.len(),
            acts@ == old_acts,
            forall|a: int| 0 <= a < p ==> !seq_lt(x.date@, acts@[a].date@),
        decreases acts@.len() - p,
    {
        p += 1;
    }
    proof {
        assert forall|a: int| 0 <= a < p implies seq_lt(acts@[a].date@, x.date@) by {
            lemma_seq_lt_total(acts@[a].date@, x.date@);
        }
        if p < acts@.len() {
            assert forall|b: int| p <= b < acts@.len() implies seq_lt(x.date@, acts@[b].date@) by {
                if b > p {
                    lemma_seq_lt_transitive(x.date@, acts@[p as int].date@, acts@[b].date@);
                }
            }
        }
    }
    acts.insert(p, x);
    proof {
        assert forall|a: int, b: int| 0 <= a < b < acts@.len() implies seq_lt(acts@[a].date@, acts@[b].date@) by {
            if b < p {
                assert(acts@[a] == old_acts[a] && acts@[b] == old_acts[b]);
            } else if b == p {
                assert(acts@[a] == old_acts[a]);
            } else if a < p {
                assert(acts@[a] == old_acts[a] && acts@[b] == old_acts[b - 1]);
                lemma_seq_lt_transitive(acts@[a].date@, x.date@, acts@[b].date@);
            } else if a == p {
                assert(acts@[b] == old_acts[b - 1]);
            } else {
                assert(acts@[a] == old_acts[a - 1] && acts@[b] == old_acts[b - 1]);
            }
        }
    }
    p
}

/// Genuine prompts of the last 84 days per UTC date, one record per date
/// that has any, dates ascending.
pub fn collect_daily_activity(lines: &Vec<String>, now: &Instant) -> (r: Vec<DailyActivity>)
    requires
        lines@.len() <= u32::MAX,
    ensures
        ascending_dates(r@),
        forall|i: int|
            0 <= i < r@.len() ==> (#[trigger] r@[i]).prompt_count == day_prompt_count(lines@, *now, r@[i].date@)
                && r@[i].prompt_count > 0,
        forall|date: Seq<char>|
            (forall|i: int| 0 <= i < r@.len() ==> r@[i].date@ != date) ==> #[trigger] day_prompt_count(
                lines@,
                *now,
                date,
            ) == 0,
{
    let mut acts: Vec<DailyActivity> = Vec::new();
    let mut i: usize = 0;
    while i < lines.len()
        invariant
            i <= lines@.len(),
            lines@.len() <= u32::MAX,
            ascending_dates(acts@),
            forall|j: int|
                0 <= j < acts@.len() ==> (#[trigger] acts@[j]).prompt_count == day_prompt_count(
                    lines@.subrange(0, i as int),
                    *now,
                    acts@[j].date@,
                ) && acts@[j].prompt_count > 0,
            forall|date: Seq<char>|
                (forall|j: int| 0 <= j < acts@.len() ==> acts@[j].date@ != date) ==> #[trigger] day_prompt_count(
                    lines@.subrange(0, i as int),
                    *now,
                    date,
                ) == 0,
        decreases lines@.len() - i,
    {
        let ghost pre = lines@.subrange(0, i as int);
        let ghost next = lines@.subrange(0, i + 1);
        assert(next.drop_last() =~= pre);
        assert(next.last() == lines@[i as int]);
        let ghost old_acts = acts@;
        let ghost mut at: int = -1;
        let ghost mut inserted = false;
        match prompt_instant_of(lines[i].as_str()) {
            Some(t) => {
                if is_within_hours(&t, now, ACTIVITY_HOURS) {
                    let date = utc_date(t.secs);
                    let j = find_date(&acts, date.as_str());
                    proof {
                        lemma_day_count_bound(next, *now, date@);
                    }
                    if j < acts.len() {
                        assert(acts@[j as int].prompt_count == day_prompt_count(pre, *now, date@));
                        let c = acts[j].prompt_count + 1;
                        let d = acts[j].date.clone();
                        acts.set(j, DailyActivity { date: d, prompt_count: c });
                        proof {
                            at = j as int;
                            assert(acts@ == old_acts.update(at, acts@[at]));
                        }
                    } else {
                        assert(day_prompt_count(pre, *now, date@) == 0);
                        let ghost dd = date@;
                        let p = insert_by_date(&mut acts, DailyActivity { date, prompt_count: 1 });
                        proof {
                            at = p as int;
                            inserted = true;
                            assert(acts@[at].date@ == dd);
                            assert(acts@ == old_acts.insert(at, acts@[at]));
                        }
                    }
                }
            },
            None => {},
        }
        i += 1;
        proof {
            assert(lines@.subrange(0, i as int) == next);
            let counted = prompt_in_window(lines@[i - 1]@, *now, ACTIVITY_HOURS as int);
            let dt = utc_date_of(prompt_instant(lines@[i - 1]@).unwrap().secs);
            assert(!counted ==> acts@ == old_acts);
            assert(counted ==> 0 <= at < acts@.len() && acts@[at].date@ == dt);
            assert(counted && inserted ==> acts@ == old_acts.insert(at, acts@[at]) && forall|a: int|
                0 <= a < old_acts.len() ==> old_acts[a].date@ != dt);
            assert(counted && !inserted ==> acts@ == old_acts.update(at, acts@[at]) && old_acts[at].date@ == dt);
            assert forall|j: int| 0 <= j < acts@.len() implies (#[trigger] acts@[j]).prompt_count
                == day_prompt_count(next, *now, acts@[j].date@) && acts@[j].prompt_count > 0 by {
                if counted && j != at {
                    if inserted {
                        let k = if j < at { j } else { j - 1 };
                        assert(acts@[j] == old_acts[k]);
                        assert(old_acts[k].date@ != dt);
                    } else {
                        assert(acts@[j] == old_acts[j]);
                        if j < at {
                            assert(seq_lt(old_acts[j].date@, old_acts[at].date@));
                        } else {
                            assert(seq_lt(old_acts[at].date@, old_acts[j].date@));
                        }
                        lemma_seq_lt_irreflexive(dt);
                    }
                }
            }
            assert forall|date: Seq<char>|
                (forall|j: int| 0 <= j < acts@.len() ==> acts@[j].date@ != date) implies #[trigger] day_prompt_count(
                    next,
                    *now,
                    date,
                ) == 0 by {
                assert forall|j: int| 0 <= j < old_acts.len() implies old_acts[j].date@ != date by {
                    if counted && inserted && j >= at {
                        assert(acts@[j + 1] == old_acts[j]);
                    } else if counted && !inserted && j == at {
                        assert(acts@[j].date@ == old_acts[j].date@);
                    } else {
                        assert(acts@[j] == old_acts[j]);
                    }
                }
                assert(day_prompt_count(pre, *now, date) == 0);
                if counted && dt == date {
                    assert(acts@[at].date@ == date);
                }
            }
        }
    }
    assert(lines@.subrange(0, lines@.len() as int) =~= lines@);
    acts
}

/// Number of weeks in the heatmap.
pub const WEEKS: usize = 12;

/// Which week of the heatmap an instant falls in: 0 for the 7 UTC days
/// ending with the day of `now`, 1 for the 7 days before them, and so on.
pub open spec fn week_index(t: Instant, now: Instant) -> int {
    (day_number(now.secs as int) - day_number(t.secs as int)) / 7
}

/// Number of lines that record a genuine prompt within the heatmap's window
/// in week `w`.
pub open spec fn week_prompt_count(lines: Seq<String>, now: Instant, w: int) -> int
    decreases lines.len(),
{
    if lines.len() == 0 {
        0
    } else {
        week_prompt_count(lines.drop_last(), now, w) + if prompt_in_window(
            lines.last()@,
            now,
            ACTIVITY_HOURS as int,
        ) && week_index(prompt_instant(lines.last()@).unwrap(), now) == w {
            1int
        } else {
            0
        }
    }
}

proof fn lemma_week_count_bound(lines: Seq<String>, now: Instant, w: int)
    ensures
        0 <= week_prompt_count(lines, now, w) <= lines.len(),
    decreases lines.len(),
{
    if lines.len() > 0 {
        lemma_week_count_bound(lines.drop_last(), now, w);
    }
}

/// Genuine prompts of the heatmap's window per week, the most recent week
/// first; weeks are whole runs of 7 UTC days that end with today.
pub fn compute_weekly_usage(lines: &Vec<String>, now: &Instant) -> (r: Vec<u32>)
    requires
        lines@.len() <= u32::MAX,
    ensures
        r@.len() == WEEKS,
        forall|w: int| 0 <= w < WEEKS ==> r@[w] == week_prompt_count(lines@, *now, w),
{
    let mut weeks: Vec<u32> = Vec::new();
    while weeks.len() < WEEKS
        invariant
            weeks@.len() <= WEEKS,
            forall|w: int| 0 <= w < weeks@.len() ==> weeks@[w] == 0,
        decreases WEEKS - weeks@.len(),
    {
        weeks.push(0);
    }
    let today = utc_day_number(now.secs);
    let mut i: usize = 0;
    while i < lines.len()
        invariant
            i <= lines@.len(),
            lines@.len() <= u32::MAX,
            today == day_number(now.secs as int),
            weeks@.len() == WEEKS,
            forall|w: int|
                0 <= w < WEEKS ==> #[trigger] weeks@[w] == week_prompt_count(
                    lines@.subrange(0, i as int),
                    *now,
                    w,
                ),
        decreases lines@.len() - i,
    {
        let ghost next = lines@.subrange(0, i + 1);
        assert(next.drop_last() =~= lines@.subrange(0, i as int));
        assert(next.last() == lines@[i as int]);
        let ghost old_weeks = weeks@;
        proof {
            assert forall|w: int| 0 <= w < WEEKS implies week_prompt_count(next, *now, w) <= u32::MAX by {
                lemma_week_count_bound(next, *now, w);
            }
        }
        match prompt_instant_of(lines[i].as_str()) {
            Some(t) => {
                if is_within_hours(&t, now, ACTIVITY_HOURS) {
                    let day = utc_day_number(t.secs);
                    proof {
                        assert(-200000000000000 <= day_number(t.secs as int) <= 200000000000000) by (nonlinear_arith)
                            requires day == day_number(t.secs as int), day == (t.secs as int) / 86400;
                        assert(-200000000000000 <= day_number(now.secs as int) <= 200000000000000) by (nonlinear_arith)
                            requires today == day_number(now.secs as int), today == (now.secs as int) / 86400;
                    }
                    if day <= today {
                        let w = ((today - day) / 7) as usize;
                        if w < WEEKS {
                            assert(week_prompt_count(next, *now, w as int) == weeks@[w as int] + 1);
                            let c = weeks[w] + 1;
                            weeks.set(w, c);
                        }
                    }
                }
            },
            None => {},
        }
        i += 1;
        proof {
            assert forall|w: int| 0 <= w < WEEKS implies #[trigger] weeks@[w] == week_prompt_count(
                lines@.subrange(0, i as int),
                *now,
                w,
            ) by {
                assert(lines@.subrange(0, i as int) == next);
                assert(old_weeks[w] == week_prompt_count(lines@.subrange(0, i - 1), *now, w));
            }
        }
    }
    assert(lines@.subrange(0, lines@.len() as int) =~= lines@);
    weeks
}

} // verus!
