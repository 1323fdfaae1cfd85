use vstd::multiset::Multiset;
use vstd::prelude::*;

use crate::json::{json_of, parse_json, JsonValue};
use crate::text::str_eq;
use crate::model::{
    calculate_context_remaining, calculate_cost, context_remaining_of, cost_of,
    display_name_of, get_model_display_name, lemma_cost_bound, pricing_of, MAX_PRICE,
};
use crate::parser::{opt_text, views, ParsedEntry, ParsedEntryView};
use crate::text::{
    first_chars, last_path_segment, last_segment, lemma_seq_lt_asymmetric,
    lemma_seq_lt_total, lemma_seq_lt_transitive, seq_lt, str_lt,
    take_chars,
};
use crate::time::{is_within_hours, parse_rfc3339, rfc3339_of, within_hours, Instant};
use crate::totals::{all_tokens, lemma_all_tokens_nonneg, lemma_all_tokens_prefix, sums_fit};

verus! {

broadcast use vstd::seq_lib::group_to_multiset_ensures, vstd::multiset::group_multiset_axioms;

/// An entry counts towards the active sessions: it names a session and its
/// timestamp lies within the 24 hours before `now`.
pub open spec fn in_day(e: ParsedEntryView, now: Instant) -> bool {
    e.session_id.len() > 0 && rfc3339_of(e.timestamp) is Some && within_hours(
        rfc3339_of(e.timestamp).unwrap(),
        now,
        24,
    )
}

pub open spec fn of_session(e: ParsedEntryView, now: Instant, sid: Seq<char>) -> bool {
    in_day(e, now) && e.session_id == sid
}

/// Number of the session's entries within the last day.
pub open spec fn session_count(es: Seq<ParsedEntryView>, now: Instant, sid: Seq<char>) -> int
    decreases es.len(),
{
    if es.len() == 0 {
        0
    } else {
        session_count(es.drop_last(), now, sid) + if of_session(es.last(), now, sid) {
            1int
        } else {
            0
        }
    }
}

/// All tokens of the session's entries within the last day.
pub open spec fn session_tokens(es: Seq<ParsedEntryView>, now: Instant, sid: Seq<char>) -> int
    decreases es.len(),
{
    if es.len() == 0 {
        0
    } else {
        session_tokens(es.drop_last(), now, sid) + if of_session(es.last(), now, sid) {
            es.last().tokens.all()
        } else {
            0
        }
    }
}

/// Cost in picodollars of the session's entries within the last day.
pub open spec fn session_cost(es: Seq<ParsedEntryView>, now: Instant, sid: Seq<char>) -> int
    decreases es.len(),
{
    if es.len() == 0 {
        0
    } else {
        session_cost(es.drop_last(), now, sid) + if of_session(es.last(), now, sid) {
            cost_of(es.last().model, es.last().tokens)
        } else {
            0
        }
    }
}

/// The session's first entry within the last day.
pub open spec fn session_opening(es: Seq<ParsedEntryView>, now: Instant, sid: Seq<char>) -> Option<ParsedEntryView>
    decreases es.len(),
{
    if es.len() == 0 {
        None
    } else {
        let prev = session_opening(es.drop_last(), now, sid);
        if prev is None && of_session(es.last(), now, sid) {
            Some(es.last())
        } else {
            prev
        }
    }
}

/// The earliest timestamp of the session's entries within the last day.
pub open spec fn session_first(es: Seq<ParsedEntryView>, now: Instant, sid: Seq<char>) -> Seq<char>
    decreases es.len(),
{
    if es.len() == 0 {
        Seq::empty()
    } else {
        let prev = session_first(es.drop_last(), now, sid);
        if of_session(es.last(), now, sid) && (session_count(es.drop_last(), now, sid) == 0
            || seq_lt(es.last().timestamp, prev)) {
            es.last().timestamp
        } else {
            prev
        }
    }
}

/// The session's entry with the greatest timestamp within the last day; of
/// several with that timestamp, the first.
pub open spec fn session_latest(es: Seq<ParsedEntryView>, now: Instant, sid: Seq<char>) -> Option<ParsedEntryView>
    decreases es.len(),
{
    if es.len() == 0 {
        None
    } else {
        let prev = session_latest(es.drop_last(), now, sid);
        if of_session(es.last(), now, sid) && (prev is None || seq_lt(
            prev.unwrap().timestamp,
            es.last().timestamp,
        )) {
            Some(es.last())
        } else {
            prev
        }
    }
}

/// Whole minutes from `first` to `last`, at most `u32::MAX`; zero where
/// `last` is not later or either is no RFC 3339 time.
pub open spec fn minutes_between(first: Seq<char>, last: Seq<char>) -> int {
    match (rfc3339_of(first), rfc3339_of(last)) {
        (Some(a), Some(b)) => if b.total_nanos() > a.total_nanos() {
            let m = (b.total_nanos() - a.total_nanos()) / 60000000000;
            if m > u32::MAX {
                u32::MAX as int
            } else {
                m
            }
        } else {
            0
        },
        _ => 0,
    }
}

/// A file of a session's task list: its name, and the number of its tasks
/// that are not completed, where its text is such a list.
pub struct TodoFile {
    pub name: String,
    pub pending: Option<u32>,
}

pub open spec fn starts_with(s: Seq<char>, p: Seq<char>) -> bool {
    p.len() <= s.len() && s.subrange(0, p.len() as int) == p
}

pub open spec fn ends_with(s: Seq<char>, p: Seq<char>) -> bool {
    p.len() <= s.len() && s.subrange(s.len() - p.len(), s.len() as int) == p
}

/// The task list of a session: a `.json` file whose name starts with the
/// session id.
pub open spec fn todo_file_of(f: TodoFile, sid: Seq<char>) -> bool {
    starts_with(f.name@, sid) && ends_with(f.name@, ".json"@) && f.pending is Some
}

/// The pending tasks of a session: those of the first of its task lists that
/// could be read, zero where there is none.
pub open spec fn todo_count_of(files: Seq<TodoFile>, sid: Seq<char>) -> int
    decreases files.len(),
{
    if files.len() == 0 {
        0
    } else if todo_file_of(files[0], sid) {
        files[0].pending.unwrap() as int
    } else {
        todo_count_of(files.drop_first(), sid)
    }
}

/// A session with activity in the last 24 hours.
#[derive(Debug)]
pub struct ActiveSession {
    /// The first 8 characters of the session id.
    pub session_id: String,
    pub project: String,
    pub directory: String,
    pub first_activity: String,
    pub last_activity: String,
    pub duration_minutes: u32,
    pub message_count: u32,
    pub total_tokens: u64,
    /// In picodollars.
    pub cost: u128,
    pub model: String,
    pub model_display_name: String,
    /// In hundredths of a percent.
    pub context_remaining: u64,
    pub todo_count: u32,
}

/// The row of session `sid` as the entries within the last day make it.
pub open spec fn session_row(
    r: ActiveSession,
    es: Seq<ParsedEntryView>,
    now: Instant,
    todos: Seq<TodoFile>,
    sid: Seq<char>,
) -> bool {
    let opening = session_opening(es, now, sid).unwrap();
    let latest = session_latest(es, now, sid).unwrap();
    &&& session_count(es, now, sid) > 0
    &&& r.session_id@ == take_chars(sid, 8)
    &&& r.directory@ == opening.cwd
    &&& r.project@ == last_segment(opening.cwd)
    &&& r.first_activity@ == session_first(es, now, sid)
    &&& r.last_activity@ == latest.timestamp
    &&& r.duration_minutes == minutes_between(r.first_activity@, r.last_activity@)
    &&& r.message_count == session_count(es, now, sid)
    &&& r.total_tokens == session_tokens(es, now, sid)
    &&& r.cost == session_cost(es, now, sid)
    &&& r.model@ == latest.model
    &&& r.model_display_name@ == display_name_of(latest.model)
    &&& r.context_remaining == context_remaining_of(latest.tokens.context())
    &&& r.todo_count == todo_count_of(todos, sid)
}

pub proof fn lemma_session_bounds(es: Seq<ParsedEntryView>, now: Instant, sid: Seq<char>)
    ensures
        0 <= session_count(es, now, sid) <= es.len(),
        0 <= session_tokens(es, now, sid) <= all_tokens(es),
        0 <= session_cost(es, now, sid) <= MAX_PRICE * session_tokens(es, now, sid),
        session_count(es, now, sid) > 0 <==> session_opening(es, now, sid) is Some,
        session_count(es, now, sid) > 0 <==> session_latest(es, now, sid) is Some,
        session_count(es, now, sid) == 0 ==> session_tokens(es, now, sid) == 0 && session_cost(
            es,
            now,
            sid,
        ) == 0,
    decreases es.len(),
{
    if es.len() > 0 {
        let pre = es.drop_last();
        let e = es.last();
        lemma_session_bounds(pre, now, sid);
        lemma_all_tokens_nonneg(pre);
        if of_session(e, now, sid) {
            lemma_cost_bound(pricing_of(e.model), e.tokens);
            assert(MAX_PRICE * session_tokens(es, now, sid) == MAX_PRICE * session_tokens(pre, now, sid)
                + MAX_PRICE * e.tokens.all()) by (nonlinear_arith)
                requires session_tokens(es, now, sid) == session_tokens(pre, now, sid) + e.tokens.all();
        }
    }
}

/// What the entries seen so far hold of one session.
struct SessionAcc {
    id: String,
    cwd: String,
    first: String,
    last: String,
    count: u32,
    tokens: u64,
    cost: u128,
    model: String,
    context: u64,
}

spec fn acc_matches(a: SessionAcc, es: Seq<ParsedEntryView>, now: Instant) -> bool {
    let sid = a.id@;
    &&& session_count(es, now, sid) > 0
    &&& a.count == session_count(es, now, sid)
    &&& a.tokens == session_tokens(es, now, sid)
    &&& a.cost == session_cost(es, now, sid)
    &&& a.first@ == session_first(es, now, sid)
    &&& a.last@ == session_latest(es, now, sid).unwrap().timestamp
    &&& a.model@ == session_latest(es, now, sid).unwrap().model
    &&& a.context == session_latest(es, now, sid).unwrap().tokens.context()
    &&& a.cwd@ == session_opening(es, now, sid).unwrap().cwd
}

/// Whether an entry counts towards the active sessions at `now`.
pub fn entry_in_day(e: &ParsedEntry, now: &Instant) -> (r: bool)
    ensures
        r == in_day(e@, *now),
{
    if e.session_id.as_str().unicode_len() == 0 {
        return false;
    }
    match parse_rfc3339(e.timestamp.as_str()) {
        Some(t) => is_within_hours(&t, now, 24),
        None => false,
    }
}

fn find_session(accs: &Vec<SessionAcc>, sid: &str) -> (r: usize)
    ensures
        r <= accs@.len(),
        r < accs@.len() ==> accs@[r as int].id@ == sid@,
        r == accs@.len() ==> forall|a: int| 0 <= a < accs@.len() ==> accs@[a].id@ != sid@,
{
    let mut j: usize = 0;
    while j < accs.len()
        invariant
            j <= accs@.len(),
            forall|a: int| 0 <= a < j ==> accs@[a].id@ != sid@,
        decreases accs@.len() - j,
    {
        if str_eq(accs[j].id.as_str(), sid) {
            return j;
        }
        j += 1;
    }
    j
}

fn fold_sessions(entries: &Vec<ParsedEntry>, now: &Instant) -> (r: Vec<SessionAcc>)
    requires
        sums_fit(views(entries@)),
    ensures
        forall|j: int| 0 <= j < r@.len() ==> acc_matches(#[trigger] r@[j], views(entries@), *now),
        forall|a: int, b: int| 0 <= a < b < r@.len() ==> r@[a].id@ != r@[b].id@,
        forall|sid: Seq<char>|
            (forall|j: int| 0 <= j < r@.len() ==> r@[j].id@ != sid) ==> #[trigger] session_count(
                views(entries@),
                *now,
                sid,
            ) == 0,
{
    let ghost es = views(entries@);
    let mut accs: Vec<SessionAcc> = Vec::new();
    let mut i: usize = 0;
    while i < entries.len()
        invariant
            es == views(entries@),
            sums_fit(es),
            i <= entries@.len(),
            forall|j: int| 0 <= j < accs@.len() ==> acc_matches(#[trigger] accs@[j], es.subrange(0, i as int), *now),
            forall|a: int, b: int| 0 <= a < b < accs@.len() ==> accs@[a].id@ != accs@[b].id@,
            forall|sid: Seq<char>|
                (forall|j: int| 0 <= j < accs@.len() ==> accs@[j].id@ != sid) ==> #[trigger] session_count(
                    es.subrange(0, i as int),
                    *now,
                    sid,
                ) == 0,
        decreases entries@.len() - i,
    {
        let ghost pre = es.subrange(0, i as int);
        let ghost next = es.subrange(0, i + 1);
        assert(next.drop_last() =~= pre);
        let e = &entries[i];
        assert(next.last() == e@);
        let ghost old_accs = accs@;
        let ghost mut at: int = -1;
        proof {
            lemma_all_tokens_prefix(es, i + 1);
            lemma_all_tokens_nonneg(pre);
            assert(e@.tokens.all() <= all_tokens(next));
        }
        if entry_in_day(e, now) {
            let all = e.tokens.input_tokens + e.tokens.output_tokens
                + e.tokens.cache_creation_input_tokens + e.tokens.cache_read_input_tokens;
            let ctx = e.tokens.cache_read_input_tokens + e.tokens.cache_creation_input_tokens
                + e.tokens.input_tokens;
            let cost = calculate_cost(e.model.as_str(), &e.tokens);
            let sid = e.session_id.as_str();
            proof {
                lemma_session_bounds(next, *now, e@.session_id);
                lemma_session_bounds(pre, *now, e@.session_id);
            }
            let j = find_session(&accs, sid);
            if j < accs.len() {
                let a = &accs[j];
                proof {
                    assert(acc_matches(old_accs[j as int], pre, *now));
                    assert(MAX_PRICE * session_tokens(next, *now, e@.session_id) <= MAX_PRICE * u64::MAX)
                        by (nonlinear_arith)
                        requires session_tokens(next, *now, e@.session_id) <= u64::MAX;
                }
                let first = if str_lt(e.timestamp.as_str(), a.first.as_str()) {
                    e.timestamp.clone()
                } else {
                    a.first.clone()
                };
                let later = str_lt(a.last.as_str(), e.timestamp.as_str());
                let upd = SessionAcc {
                    id: a.id.clone(),
                    cwd: a.cwd.clone(),
                    first,
                    last: if later { e.timestamp.clone() } else { a.last.clone() },
                    count: a.count + 1,
                    tokens: a.tokens + all,
                    cost: a.cost + cost,
                    model: if later { e.model.clone() } else { a.model.clone() },
                    context: if later { ctx } else { a.context },
                };
                accs.set(j, upd);
                proof {
                    at = j as int;
                    assert(accs@[at].id@ == e@.session_id);
                    assert(acc_matches(accs@[at], next, *now));
                }
            } else {
                let fresh = SessionAcc {
                    id: e.session_id.clone(),
                    cwd: e.cwd.clone(),
                    first: e.timestamp.clone(),
                    last: e.timestamp.clone(),
                    count: 1,
                    tokens: all,
                    cost,
                    model: e.model.clone(),
                    context: ctx,
                };
                proof {
                    assert(session_count(pre, *now, e@.session_id) == 0);
                }
                accs.push(fresh);
                proof {
                    at = accs@.len() - 1;
                    assert(accs@[at].id@ == e@.session_id);
                    assert(acc_matches(accs@[at], next, *now));
                }
            }
        }
        i += 1;
        proof {
            assert(es.subrange(0, i as int) == next);
            assert(in_day(e@, *now) ==> 0 <= at < accs@.len() && accs@[at].id@ == e@.session_id && acc_matches(accs@[at], next, *now));
            assert(!in_day(e@, *now) ==> accs@ == old_accs);
            assert forall|j: int| 0 <= j < accs@.len() implies acc_matches(#[trigger] accs@[j], next, *now) by {
                if j != at {
                    assert(accs@[j] == old_accs[j]);
                    assert(acc_matches(old_accs[j], pre, *now));
                }
            }
            assert forall|sid: Seq<char>|
                (forall|j: int| 0 <= j < accs@.len() ==> accs@[j].id@ != sid) implies #[trigger] session_count(
                    next,
                    *now,
                    sid,
                ) == 0 by {
                assert forall|j: int| 0 <= j < old_accs.len() implies old_accs[j].id@ != sid by {
                    assert(accs@[j].id@ == old_accs[j].id@);
                }
                assert(session_count(pre, *now, sid) == 0);
                if of_session(e@, *now, sid) {
                    assert(accs@[at].id@ == sid);
                }
            }
        }
    }
    assert(es.subrange(0, entries@.len() as int) =~= es);
    accs
}

/// The last-activity order: no row before another that is more recent.
spec fn sorted_by_last(s: Seq<SessionAcc>) -> bool {
    forall|a: int, b: int| 0 <= a < b < s.len() ==> !seq_lt(s[a].last@, s[b].last@)
}

fn insert_by_last(out: &mut Vec<SessionAcc>, x: SessionAcc) -> (p: usize)
    requires
        sorted_by_last(old(out)@),
    ensures
        p <= old(out)@.len(),
        final(out)@ == old(out)@.insert(p as int, x),
        sorted_by_last(final(out)@),
{
    let ghost old_out = out@;
    let mut p: usize = 0;
    while p < out.len() && !str_lt(out[p].last.as_str(), x.last.as_str())
        invariant
            p <= out@.len(),
            out@ == old_out,
            forall|a: int| 0 <= a < p ==> !seq_lt(out@[a].last@, x.last@),
        decreases out@.len() - p,
    {
        p += 1;
    }
    proof {
        if p < out@.len() {
            assert(seq_lt(out@[p as int].last@, x.last@));
            assert forall|b: int| p <= b < out@.len() implies !seq_lt(x.last@, out@[b].last@) by {
                let lp = out@[p as int].last@;
                let lb = out@[b].last@;
                if lb != lp {
                    lemma_seq_lt_total(lb, lp);
                    if seq_lt(lb, lp) {
                        lemma_seq_lt_transitive(lb, lp, x.last@);
                    }
                }
                lemma_seq_lt_asymmetric(lb, x.last@);
            }
        }
    }
    out.insert(p, x);
    proof {
        assert forall|a: int, b: int| 0 <= a < b < out@.len() implies !seq_lt(out@[a].last@, out@[b].last@) by {
            if b < p {
                assert(out@[a] == old_out[a] && out@[b] == old_out[b]);
            } else if b == p {
                assert(out@[a] == old_out[a]);
            } else if a < p {
                assert(out@[a] == old_out[a] && out@[b] == old_out[b - 1]);
            } else if a == p {
                assert(out@[b] == old_out[b - 1]);
            } else {
                assert(out@[a] == old_out[a - 1] && out@[b] == old_out[b - 1]);
            }
        }
    }
    p
}

fn sort_by_last(v: Vec<SessionAcc>) -> (r: Vec<SessionAcc>)
    ensures
        sorted_by_last(r@),
        r@.to_multiset() == v@.to_multiset(),
{
    let ghost orig = v@;
    let mut src = v;
    let mut out: Vec<SessionAcc> = Vec::new();
    assert(out@.to_multiset() =~= Multiset::empty());
    assert(src@.to_multiset().add(out@.to_multiset()) =~= orig.to_multiset());
    while src.len() > 0
        invariant
            sorted_by_last(out@),
            src@.to_multiset().add(out@.to_multiset()) == orig.to_multiset(),
        decreases src@.len(),
    {
        let ghost old_src = src@;
        let ghost old_out = out@;
        let x = src.pop().unwrap();
        assert(old_src =~= src@.push(x));
        let p = insert_by_last(&mut out, x);
        proof {
            vstd::seq_lib::to_multiset_build(src@, x);
            vstd::seq_lib::to_multiset_insert(old_out, p as int, x);
        }
        assert(old_src.to_multiset() == src@.to_multiset().insert(x));
        assert(out@.to_multiset() == old_out.to_multiset().insert(x));
        assert(src@.to_multiset().add(out@.to_multiset()) =~= old_src.to_multiset().add(
            old_out.to_multiset(),
        ));
    }
    assert(src@.to_multiset() =~= Multiset::empty());
    assert(out@.to_multiset() =~= orig.to_multiset());
    out
}

fn str_starts_with(s: &str, p: &str) -> (r: bool)
    ensures
        r == starts_with(s@, p@),
{
    let n = s.unicode_len();
    let m = p.unicode_len();
    if m > n {
        false
    } else {
        str_eq(s.substring_char(0, m), p)
    }
}

fn str_ends_with(s: &str, p: &str) -> (r: bool)
    ensures
        r == ends_with(s@, p@),
{
    let n = s.unicode_len();
    let m = p.unicode_len();
    if m > n {
        false
    } else {
        str_eq(s.substring_char(n - m, n), p)
    }
}

/// The pending tasks of session `sid`, from the first of its task lists that
/// could be read.
pub fn todo_count(todos: &Vec<TodoFile>, sid: &str) -> (r: u32)
    ensures
        r == todo_count_of(todos@, sid@),
{
    let mut i: usize = 0;
    assert(todos@.subrange(0, todos@.len() as int) =~= todos@);
    while i < todos.len()
        invariant
            i <= todos@.len(),
            todo_count_of(todos@, sid@) == todo_count_of(todos@.subrange(i as int, todos@.len() as int), sid@),
        decreases todos@.len() - i,
    {
        let ghost rest = todos@.subrange(i as int, todos@.len() as int);
        assert(rest[0] == todos@[i as int]);
        assert(rest.drop_first() =~= todos@.subrange(i + 1, todos@.len() as int));
        let f = &todos[i];
        if str_starts_with(f.name.as_str(), sid) && str_ends_with(f.name.as_str(), ".json") {
            match f.pending {
                Some(n) => {
                    return n;
                },
                None => {},
            }
        }
        i += 1;
    }
    0
}

/// Whole minutes from `first` to `last`, as `minutes_between` says.
pub fn minutes_from(first: &str, last: &str) -> (r: u32)
    ensures
        r == minutes_between(first@, last@),
{
    match (parse_rfc3339(first), parse_rfc3339(last)) {
        (Some(a), Some(b)) => {
            let x = a.as_nanos();
            let y = b.as_nanos();
            if y > x {
                let m = (y - x) / 60000000000;
                if m > u32::MAX as i128 {
                    u32::MAX
                } else {
                    m as u32
                }
            } else {
                0
            }
        },
        _ => 0,
    }
}

fn row_of(a: &SessionAcc, Ghost(es): Ghost<Seq<ParsedEntryView>>, now: &Instant, todos: &Vec<TodoFile>) -> (r: ActiveSession)
    requires
        acc_matches(*a, es, *now),
    ensures
        session_row(r, es, *now, todos@, a.id@),
        r.last_activity@ == a.last@,
{
    proof {
        lemma_session_bounds(es, *now, a.id@);
    }
    ActiveSession {
        session_id: first_chars(a.id.as_str(), 8),
        project: last_path_segment(a.cwd.as_str()),
        directory: a.cwd.clone(),
        first_activity: a.first.clone(),
        last_activity: a.last.clone(),
        duration_minutes: minutes_from(a.first.as_str(), a.last.as_str()),
        message_count: a.count,
        total_tokens: a.tokens,
        cost: a.cost,
        model: a.model.clone(),
        model_display_name: get_model_display_name(a.model.as_str()),
        context_remaining: calculate_context_remaining(a.context, a.model.as_str()),
        todo_count: todo_count(todos, a.id.as_str()),
    }
}

proof fn lemma_same_members(u: Seq<SessionAcc>, s: Seq<SessionAcc>)
    requires
        s.to_multiset() == u.to_multiset(),
    ensures
        forall|b: int| 0 <= b < u.len() ==> s.contains(#[trigger] u[b]),
        forall|a: int| 0 <= a < s.len() ==> u.contains(#[trigger] s[a]),
{
    assert forall|b: int| 0 <= b < u.len() implies s.contains(#[trigger] u[b]) by {
        assert(u.contains(u[b]));
        assert(s.to_multiset().count(u[b]) > 0);
    }
    assert forall|a: int| 0 <= a < s.len() implies u.contains(#[trigger] s[a]) by {
        assert(s.contains(s[a]));
        assert(u.to_multiset().count(s[a]) > 0);
    }
}

/// The row describes some session of the entries.
pub open spec fn is_session_row(r: ActiveSession, es: Seq<ParsedEntryView>, now: Instant, todos: Seq<TodoFile>) -> bool {
    exists|sid: Seq<char>| session_row(r, es, now, todos, sid)
}

/// Some row describes session `sid`.
pub open spec fn lists_session(
    rows: Seq<ActiveSession>,
    es: Seq<ParsedEntryView>,
    now: Instant,
    todos: Seq<TodoFile>,
    sid: Seq<char>,
) -> bool {
    exists|i: int| 0 <= i < rows.len() && session_row(rows[i], es, now, todos, sid)
}

spec fn has_session(s: Seq<SessionAcc>, sid: Seq<char>) -> bool {
    exists|a: int| 0 <= a < s.len() && s[a].id@ == sid
}

/// The sessions with activity in the 24 hours before `now`, one row per
/// session id, the most recently active first. `todos` lists the task-list
/// files found, in the order they are searched.
pub fn build_active_sessions(entries: &Vec<ParsedEntry>, now: &Instant, todos: &Vec<TodoFile>) -> (r: Vec<ActiveSession>)
    requires
        sums_fit(views(entries@)),
    ensures
        forall|i: int| 0 <= i < r@.len() ==> is_session_row(#[trigger] r@[i], views(entries@), *now, todos@),
        forall|a: int, b: int|
            0 <= a < b < r@.len() ==> !seq_lt(r@[a].last_activity@, r@[b].last_activity@),
        forall|sid: Seq<char>|
            session_count(views(entries@), *now, sid) > 0 ==> #[trigger] lists_session(r@, views(entries@), *now, todos@, sid),
{
    let ghost es = views(entries@);
    let accs = fold_sessions(entries, now);
    let ghost unsorted = accs@;
    let sorted = sort_by_last(accs);
    proof {
        lemma_same_members(unsorted, sorted@);
        assert forall|a: int| 0 <= a < sorted@.len() implies acc_matches(#[trigger] sorted@[a], es, *now) by {
            assert(unsorted.contains(sorted@[a]));
            let b = choose|b: int| 0 <= b < unsorted.len() && unsorted[b] == sorted@[a];
            assert(acc_matches(unsorted[b], es, *now));
        }
        assert forall|sid: Seq<char>| session_count(es, *now, sid) > 0 implies #[trigger] has_session(sorted@, sid) by {
            if forall|j: int| 0 <= j < unsorted.len() ==> unsorted[j].id@ != sid {
                assert(session_count(es, *now, sid) == 0);
            }
            let b = choose|b: int| 0 <= b < unsorted.len() && unsorted[b].id@ == sid;
            assert(sorted@.contains(unsorted[b]));
            let a = choose|a: int| 0 <= a < sorted@.len() && sorted@[a] == unsorted[b];
            assert(sorted@[a].id@ == sid);
        }
    }
    let mut rows: Vec<ActiveSession> = Vec::new();
    let mut i: usize = 0;
    while i < sorted.len()
        invariant
            i <= sorted@.len(),
            rows@.len() == i,
            forall|a: int| 0 <= a < sorted@.len() ==> acc_matches(#[trigger] sorted@[a], es, *now),
            forall|j: int| 0 <= j < i ==> #[trigger] session_row(rows@[j], es, *now, todos@, sorted@[j].id@),
            forall|j: int| 0 <= j < i ==> rows@[j].last_activity@ == (#[trigger] sorted@[j]).last@,
        decreases sorted@.len() - i,
    {
        let a = &sorted[i];
        let row = row_of(a, Ghost(es), now, todos);
        rows.push(row);
        i += 1;
    }
    proof {
        assert forall|i: int| 0 <= i < rows@.len() implies is_session_row(#[trigger] rows@[i], es, *now, todos@) by {
            assert(session_row(rows@[i], es, *now, todos@, sorted@[i].id@));
        }
        assert forall|a: int, b: int| 0 <= a < b < rows@.len() implies !seq_lt(rows@[a].last_activity@, rows@[b].last_activity@) by {
            assert(rows@[a].last_activity@ == sorted@[a].last@);
            assert(rows@[b].last_activity@ == sorted@[b].last@);
        }
        assert forall|sid: Seq<char>| session_count(es, *now, sid) > 0 implies #[trigger] lists_session(rows@, es, *now, todos@, sid) by {
            assert(has_session(sorted@, sid));
            let a = choose|a: int| 0 <= a < sorted@.len() && sorted@[a].id@ == sid;
            assert(session_row(rows@[a], es, *now, todos@, sorted@[a].id@));
        }
    }
    rows
}

/// A task entry that is not completed: its status is missing, null or other
/// than "completed".
pub open spec fn is_pending(v: JsonValue) -> bool {
    match opt_text(crate::json::field(v, "status"@)) {
        Some(Some(st)) => st@ != "completed"@,
        _ => true,
    }
}

/// A well-formed task entry: an object whose status, if any, is text.
pub open spec fn is_task(v: JsonValue) -> bool {
    v is Object && opt_text(crate::json::field(v, "status"@)) is Some
}

/// Number of pending task entries.
pub open spec fn pending_count(items: Seq<JsonValue>) -> int
    decreases items.len(),
{
    if items.len() == 0 {
        0
    } else {
        pending_count(items.drop_last()) + if is_pending(items.last()) {
            1int
        } else {
            0
        }
    }
}

/// The number of pending tasks that a task-list file holds, at most
/// `u32::MAX`; `None` where its text is no list of task entries.
pub open spec fn pending_todos_of(text: Seq<char>) -> Option<u32> {
    match json_of(text) {
        Some(JsonValue::Array(items)) => if forall|i: int| 0 <= i < items@.len() ==> is_task(#[trigger] items@[i]) {
            Some(
                if pending_count(items@) > u32::MAX {
                    u32::MAX
                } else {
                    pending_count(items@) as u32
                },
            )
        } else {
            None
        },
        _ => None,
    }
}

fn status_member(v: &JsonValue) -> (r: Option<Option<String>>)
    ensures
        r == opt_text(crate::json::field(*v, "status"@)),
{
    match crate::json::get_field(v, "status") {
        None => Some(None),
        Some(JsonValue::Null) => Some(None),
        Some(JsonValue::Str(s)) => Some(Some(s.clone())),
        Some(_) => None,
    }
}

/// Counts the pending tasks in the text of a task-list file.
pub fn count_pending_todos(text: &str) -> (r: Option<u32>)
    ensures
        r == pending_todos_of(text@),
{
    let v = parse_json(text);
    match &v {
        Some(JsonValue::Array(items)) => {
            let mut n: u64 = 0;
            let mut i: usize = 0;
            while i < items.len()
                invariant
                    i <= items@.len(),
                    n == pending_count(items@.subrange(0, i as int)),
                    n <= i,
                    json_of(text@) == Some(JsonValue::Array(*items)),
                    forall|k: int| 0 <= k < i ==> is_task(#[trigger] items@[k]),
                decreases items@.len() - i,
            {
                assert(items@.subrange(0, i + 1).drop_last() =~= items@.subrange(0, i as int));
                let item = &items[i];
                let is_obj = match item {
                    JsonValue::Object(_) => true,
                    _ => false,
                };
                let st = status_member(item);
                if !is_obj || st.is_none() {
                    assert(!is_task(items@[i as int]));
                    return None;
                }
                let pending = match &st {
                    Some(Some(s)) => !str_eq(s.as_str(), "completed"),
                    _ => true,
                };
                if pending {
                    n = n + 1;
                }
                i += 1;
            }
            assert(items@.subrange(0, items@.len() as int) =~= items@);
            if n > u32::MAX as u64 {
                Some(u32::MAX)
            } else {
                Some(n as u32)
            }
        },
        _ => None,
    }
}

} // verus!
