use vstd::multiset::Multiset;
use vstd::prelude::*;

use crate::model::{
    calculate_cost, cost_of, display_name_of, get_model_display_name, TokenUsage, MAX_PRICE,
};
use crate::parser::{views, ParsedEntry, ParsedEntryView};
use crate::text::{seq_lt, str_lt};
use crate::time::{parse_rfc3339, rfc3339_of, Instant};

verus! {

/// One of the four counters: 0 input, 1 output, 2 cache creation, 3 cache read.
pub open spec fn counter(t: TokenUsage, k: int) -> int {
    if k == 0 {
        t.input_tokens as int
    } else if k == 1 {
        t.output_tokens as int
    } else if k == 2 {
        t.cache_creation_input_tokens as int
    } else {
        t.cache_read_input_tokens as int
    }
}

/// An entry counts towards the period starting at `since`: there is no start,
/// its timestamp is no RFC 3339 time, or it is not before the start.
pub open spec fn in_period(e: ParsedEntryView, since: Option<Instant>) -> bool {
    match since {
        None => true,
        Some(s) => match rfc3339_of(e.timestamp) {
            None => true,
            Some(t) => t.total_nanos() >= s.total_nanos(),
        },
    }
}

/// An entry of the period, and of `model` where one is given.
pub open spec fn selected(e: ParsedEntryView, since: Option<Instant>, model: Option<Seq<char>>) -> bool {
    in_period(e, since) && (model is None || e.model == model.unwrap())
}

/// Counter `k` summed over the selected entries.
pub open spec fn period_sum(
    es: Seq<ParsedEntryView>,
    since: Option<Instant>,
    model: Option<Seq<char>>,
    k: int,
) -> int
    decreases es.len(),
{
    if es.len() == 0 {
        0
    } else {
        period_sum(es.drop_last(), since, model, k) + if selected(es.last(), since, model) {
            counter(es.last().tokens, k)
        } else {
            0
        }
    }
}

/// Number of entries of the period.
pub open spec fn period_count(es: Seq<ParsedEntryView>, since: Option<Instant>) -> int
    decreases es.len(),
{
    if es.len() == 0 {
        0
    } else {
        period_count(es.drop_last(), since) + if in_period(es.last(), since) {
            1int
        } else {
            0
        }
    }
}

/// The greatest timestamp among the entries of the period, empty if none.
pub open spec fn latest_of(es: Seq<ParsedEntryView>, since: Option<Instant>) -> Seq<char>
    decreases es.len(),
{
    if es.len() == 0 {
        Seq::empty()
    } else {
        let prev = latest_of(es.drop_last(), since);
        if in_period(es.last(), since) && seq_lt(prev, es.last().timestamp) {
            es.last().timestamp
        } else {
            prev
        }
    }
}

/// All counters of all entries, summed.
pub open spec fn all_tokens(es: Seq<ParsedEntryView>) -> int
    decreases es.len(),
{
    if es.len() == 0 {
        0
    } else {
        all_tokens(es.drop_last()) + es.last().tokens.all()
    }
}

/// The entries are few enough and their counters small enough that every
/// count fits in `u32` and every sum of counters in `u64`.
pub open spec fn sums_fit(es: Seq<ParsedEntryView>) -> bool {
    es.len() <= u32::MAX && all_tokens(es) <= u64::MAX
}

/// One model's share of the period.
#[derive(Debug)]
pub struct ModelUsage {
    pub model: String,
    pub display_name: String,
    pub tokens: TokenUsage,
    /// In picodollars.
    pub cost: u128,
}

/// Counter `k` summed over a list of per-model rows.
pub open spec fn usage_sum(ms: Seq<ModelUsage>, k: int) -> int
    decreases ms.len(),
{
    if ms.len() == 0 {
        0
    } else {
        usage_sum(ms.drop_last(), k) + counter(ms.last().tokens, k)
    }
}

/// The costs of a list of per-model rows, summed.
pub open spec fn cost_sum(ms: Seq<ModelUsage>) -> int
    decreases ms.len(),
{
    if ms.len() == 0 {
        0
    } else {
        cost_sum(ms.drop_last()) + ms.last().cost
    }
}

/// The ordering key of a per-model row: input plus output tokens.
pub open spec fn rank(m: ModelUsage) -> int {
    m.tokens.input_tokens + m.tokens.output_tokens
}

/// A row that holds what the period's entries of its model add up to.
pub open spec fn row_matches(m: ModelUsage, es: Seq<ParsedEntryView>, since: Option<Instant>) -> bool {
    &&& forall|k: int| 0 <= k < 4 ==> counter(m.tokens, k) == period_sum(es, since, Some(m.model@), k)
    &&& m.display_name@ == display_name_of(m.model@)
    &&& m.cost == cost_of(m.model@, m.tokens)
}

pub proof fn lemma_period_sum_bound(
    es: Seq<ParsedEntryView>,
    since: Option<Instant>,
    model: Option<Seq<char>>,
    k: int,
)
    requires
        0 <= k < 4,
    ensures
        0 <= period_sum(es, since, model, k) <= all_tokens(es),
    decreases es.len(),
{
    if es.len() > 0 {
        lemma_period_sum_bound(es.drop_last(), since, model, k);
    }
}

pub proof fn lemma_all_tokens_prefix(es: Seq<ParsedEntryView>, i: int)
    requires
        0 <= i <= es.len(),
    ensures
        0 <= all_tokens(es.subrange(0, i)) <= all_tokens(es),
    decreases es.len() - i,
{
    if i < es.len() {
        lemma_all_tokens_prefix(es, i + 1);
        assert(es.subrange(0, i + 1).drop_last() =~= es.subrange(0, i));
    } else {
        assert(es.subrange(0, i) =~= es);
    }
    lemma_all_tokens_nonneg(es.subrange(0, i));
}

pub proof fn lemma_all_tokens_nonneg(es: Seq<ParsedEntryView>)
    ensures
        all_tokens(es) >= 0,
    decreases es.len(),
{
    if es.len() > 0 {
        lemma_all_tokens_nonneg(es.drop_last());
    }
}

proof fn lemma_period_count_bound(es: Seq<ParsedEntryView>, since: Option<Instant>)
    ensures
        0 <= period_count(es, since) <= es.len(),
    decreases es.len(),
{
    if es.len() > 0 {
        lemma_period_count_bound(es.drop_last(), since);
    }
}

/// Counter `k` summed over a list of counter sets.
pub open spec fn tokens_sum(ts: Seq<TokenUsage>, k: int) -> int
    decreases ts.len(),
{
    if ts.len() == 0 {
        0
    } else {
        tokens_sum(ts.drop_last(), k) + counter(ts.last(), k)
    }
}

proof fn lemma_tokens_sum_update(ts: Seq<TokenUsage>, j: int, x: TokenUsage, k: int)
    requires
        0 <= j < ts.len(),
    ensures
        tokens_sum(ts.update(j, x), k) == tokens_sum(ts, k) - counter(ts[j], k) + counter(x, k),
    decreases ts.len(),
{
    if j < ts.len() - 1 {
        assert(ts.update(j, x).drop_last() =~= ts.drop_last().update(j, x));
        lemma_tokens_sum_update(ts.drop_last(), j, x, k);
    } else {
        assert(ts.update(j, x).drop_last() =~= ts.drop_last());
    }
}

proof fn lemma_usage_sum_insert(ms: Seq<ModelUsage>, p: int, x: ModelUsage, k: int)
    requires
        0 <= p <= ms.len(),
    ensures
        usage_sum(ms.insert(p, x), k) == usage_sum(ms, k) + counter(x.tokens, k),
        cost_sum(ms.insert(p, x)) == cost_sum(ms) + x.cost,
    decreases ms.len(),
{
    if p < ms.len() {
        assert(ms.insert(p, x).drop_last() =~= ms.drop_last().insert(p, x));
        lemma_usage_sum_insert(ms.drop_last(), p, x, k);
    } else {
        assert(ms.insert(p, x).drop_last() =~= ms);
    }
}

/// Some row is for `model`.
pub open spec fn has_model(ms: Seq<ModelUsage>, model: Seq<char>) -> bool {
    exists|j: int| 0 <= j < ms.len() && ms[j].model@ == model
}

spec fn has_name(names: Seq<String>, model: Seq<char>) -> bool {
    exists|j: int| 0 <= j < names.len() && names[j]@ == model
}

/// What one pass over the entries gathers for the period.
struct PeriodFold {
    names: Vec<String>,
    sums: Vec<TokenUsage>,
    total: TokenUsage,
    message_count: u32,
    latest: String,
}

/// Whether an entry belongs to the period starting at `since`.
pub fn entry_in_period(e: &ParsedEntry, since: &Option<Instant>) -> (r: bool)
    ensures
        r == in_period(e@, *since),
{
    match since {
        None => true,
        Some(s) => match parse_rfc3339(e.timestamp.as_str()) {
            None => true,
            Some(t) => t.as_nanos() >= s.as_nanos(),
        },
    }
}

fn add_tokens(a: &TokenUsage, b: &TokenUsage) -> (r: TokenUsage)
    requires
        forall|k: int| 0 <= k < 4 ==> counter(*a, k) + counter(*b, k) <= u64::MAX,
    ensures
        forall|k: int| 0 <= k < 4 ==> counter(r, k) == counter(*a, k) + counter(*b, k),
{
    assert(counter(*a, 0) + counter(*b, 0) <= u64::MAX);
    assert(counter(*a, 1) + counter(*b, 1) <= u64::MAX);
    assert(counter(*a, 2) + counter(*b, 2) <= u64::MAX);
    assert(counter(*a, 3) + counter(*b, 3) <= u64::MAX);
    TokenUsage {
        input_tokens: a.input_tokens + b.input_tokens,
        output_tokens: a.output_tokens + b.output_tokens,
        cache_creation_input_tokens: a.cache_creation_input_tokens + b.cache_creation_input_tokens,
        cache_read_input_tokens: a.cache_read_input_tokens + b.cache_read_input_tokens,
    }
}

fn find_name(names: &Vec<String>, model: &str) -> (r: usize)
    ensures
        r <= names@.len(),
        r < names@.len() ==> names@[r as int]@ == model@,
        r == names@.len() ==> forall|a: int| 0 <= a < names@.len() ==> names@[a]@ != model@,
{
    let mut j: usize = 0;
    while j < names.len()
        invariant
            j <= names@.len(),
            forall|a: int| 0 <= a < j ==> names@[a]@ != model@,
        decreases names@.len() - j,
    {
        if crate::text::str_eq(names[j].as_str(), model) {
            return j;
        }
        j += 1;
    }
    j
}

fn fold_period(entries: &Vec<ParsedEntry>, since: &Option<Instant>) -> (r: PeriodFold)
    requires
        sums_fit(views(entries@)),
    ensures
        r.names@.len() == r.sums@.len(),
        r.names@.len() <= entries@.len(),
        forall|a: int, b: int| 0 <= a < b < r.names@.len() ==> r.names@[a]@ != r.names@[b]@,
        forall|j: int, k: int|
            0 <= j < r.sums@.len() && 0 <= k < 4 ==> #[trigger] counter(r.sums@[j], k) == period_sum(
                    views(entries@),
                    *since,
                    Some(r.names@[j]@),
                    k,
                ),
        forall|k: int|
            0 <= k < 4 ==> counter(r.total, k) == period_sum(views(entries@), *since, None, k),
        forall|k: int| 0 <= k < 4 ==> tokens_sum(r.sums@, k) == counter(r.total, k),
        r.message_count == period_count(views(entries@), *since),
        r.latest@ == latest_of(views(entries@), *since),
        forall|t: int|
            0 <= t < entries@.len() && in_period(#[trigger] views(entries@)[t], *since) ==> has_name(
                r.names@,
                views(entries@)[t].model,
            ),
{
    let ghost es = views(entries@);
    let mut names: Vec<String> = Vec::new();
    let mut sums: Vec<TokenUsage> = Vec::new();
    let mut total = TokenUsage::default();
    let mut message_count: u32 = 0;
    let mut latest = String::new();
    let mut i: usize = 0;
    while i < entries.len()
        invariant
            es == views(entries@),
            sums_fit(es),
            i <= entries@.len(),
            names@.len() == sums@.len(),
            names@.len() <= i,
            forall|a: int, b: int| 0 <= a < b < names@.len() ==> names@[a]@ != names@[b]@,
            forall|j: int, k: int|
                0 <= j < sums@.len() && 0 <= k < 4 ==> #[trigger] counter(sums@[j], k) == period_sum(
                        es.subrange(0, i as int),
                        *since,
                        Some(names@[j]@),
                        k,
                    ),
            forall|m: Seq<char>, k: int|
                0 <= k < 4 && (forall|j: int| 0 <= j < names@.len() ==> names@[j]@ != m)
                    ==> #[trigger] period_sum(es.subrange(0, i as int), *since, Some(m), k) == 0,
            forall|k: int|
                0 <= k < 4 ==> counter(total, k) == period_sum(
                    es.subrange(0, i as int),
                    *since,
                    None,
                    k,
                ),
            forall|k: int| 0 <= k < 4 ==> tokens_sum(sums@, k) == counter(total, k),
            message_count == period_count(es.subrange(0, i as int), *since),
            latest@ == latest_of(es.subrange(0, i as int), *since),
            forall|t: int| 0 <= t < i && in_period(#[trigger] es[t], *since) ==> has_name(names@, es[t].model),
        decreases entries@.len() - i,
    {
        let ghost pre = es.subrange(0, i as int);
        let ghost next = es.subrange(0, i + 1);
        assert(next.drop_last() =~= pre);
        assert(next.last() == entries@[i as int]@);
        let e = &entries[i];
        let ghost old_names = names@;
        let ghost mut at: int = -1;
        proof {
            lemma_all_tokens_prefix(es, i + 1);
            lemma_period_count_bound(pre, *since);
            assert forall|m: Option<Seq<char>>, k: int| 0 <= k < 4 implies period_sum(
                next,
                *since,
                m,
                k,
            ) <= u64::MAX by {
                lemma_period_sum_bound(next, *since, m, k);
            }
        }
        if entry_in_period(e, since) {
            if str_lt(latest.as_str(), e.timestamp.as_str()) {
                latest = e.timestamp.clone();
            }
            message_count = message_count + 1;
            proof {
                assert forall|k: int| 0 <= k < 4 implies counter(total, k) + counter(e.tokens, k)
                    <= u64::MAX by {
                    assert(period_sum(next, *since, None, k) == period_sum(pre, *since, None, k)
                        + counter(e.tokens, k));
                }
            }
            total = add_tokens(&total, &e.tokens);
            let j = find_name(&names, e.model.as_str());
            proof {
                assert forall|k: int| 0 <= k < 4 implies period_sum(next, *since, None, k)
                    == period_sum(pre, *since, None, k) + counter(e.tokens, k) by {}
                assert forall|k: int| 0 <= k < 4 implies period_sum(next, *since, Some(e.model@), k)
                    == period_sum(pre, *since, Some(e.model@), k) + counter(e.tokens, k) by {}
            }
            if j < names.len() {
                let old = sums[j];
                proof {
                    assert forall|k: int| 0 <= k < 4 implies counter(old, k) + counter(
                        e.tokens,
                        k,
                    ) <= u64::MAX by {
                        assert(counter(old, k) + counter(e.tokens, k) == period_sum(
                            next,
                            *since,
                            Some(names@[j as int]@),
                            k,
                        ));
                    }
                }
                let upd = add_tokens(&old, &e.tokens);
                proof {
                    assert forall|k: int| 0 <= k < 4 implies tokens_sum(sums@.update(j as int, upd), k)
                        == counter(total, k) by {
                        lemma_tokens_sum_update(sums@, j as int, upd, k);
                    }
                }
                sums.set(j, upd);
                proof {
                    at = j as int;
                }
            } else {
                proof {
                    assert forall|k: int| 0 <= k < 4 implies counter(e.tokens, k) <= u64::MAX by {
                        assert(period_sum(pre, *since, Some(e.model@), k) == 0);
                    }
                }
                let first = add_tokens(&TokenUsage::default(), &e.tokens);
                assert(sums@.push(first).drop_last() =~= sums@);
                names.push(e.model.clone());
                sums.push(first);
                proof {
                    at = names@.len() - 1;
                }
            }
        }
        i += 1;
        proof {
            assert(es.subrange(0, i as int) == next);
            assert(in_period(next.last(), *since) ==> 0 <= at < names@.len() && names@[at]@
                == e.model@);
            assert forall|t: int| 0 <= t < i && in_period(#[trigger] es[t], *since) implies has_name(names@, es[t].model) by {
                if t < i - 1 {
                    assert(has_name(old_names, es[t].model));
                    let j = choose|j: int| 0 <= j < old_names.len() && old_names[j]@ == es[t].model;
                    assert(names@[j] == old_names[j]);
                } else {
                    assert(es[t] == e@);
                    assert(names@[at]@ == es[t].model);
                }
            }
            assert forall|m: Seq<char>, k: int|
                0 <= k < 4 && (forall|j: int| 0 <= j < names@.len() ==> names@[j]@ != m)
                    implies #[trigger] period_sum(es.subrange(0, i as int), *since, Some(m), k) == 0 by {
                assert forall|j: int| 0 <= j < old_names.len() implies old_names[j]@ != m by {
                    assert(names@[j] == old_names[j]);
                }
                assert(period_sum(pre, *since, Some(m), k) == 0);
                if in_period(next.last(), *since) && next.last().model == m {
                    assert(names@[at]@ == m);
                }
            }
        }
    }
    assert(es.subrange(0, entries@.len() as int) =~= es);
    PeriodFold { names, sums, total, message_count, latest }
}

/// All counters of a list of counter sets, summed.
pub open spec fn all_sum(ts: Seq<TokenUsage>) -> int
    decreases ts.len(),
{
    if ts.len() == 0 {
        0
    } else {
        all_sum(ts.drop_last()) + ts.last().all()
    }
}

proof fn lemma_all_sum_split(ts: Seq<TokenUsage>)
    ensures
        all_sum(ts) == tokens_sum(ts, 0) + tokens_sum(ts, 1) + tokens_sum(ts, 2) + tokens_sum(ts, 3),
    decreases ts.len(),
{
    if ts.len() > 0 {
        lemma_all_sum_split(ts.drop_last());
    }
}

fn model_rows(names: &Vec<String>, sums: &Vec<TokenUsage>, Ghost(es): Ghost<Seq<ParsedEntryView>>, Ghost(since): Ghost<Option<Instant>>) -> (r: (Vec<ModelUsage>, u128))
    requires
        names@.len() == sums@.len(),
        forall|j: int, k: int|
            0 <= j < sums@.len() && 0 <= k < 4 ==> #[trigger] counter(sums@[j], k) == period_sum(
                es,
                since,
                Some(names@[j]@),
                k,
            ),
        all_sum(sums@) <= 4 * u64::MAX,
    ensures
        r.0@.len() == names@.len(),
        forall|j: int| 0 <= j < r.0@.len() ==> (#[trigger] r.0@[j]).model@ == names@[j]@ && r.0@[j].tokens == sums@[j],
        forall|j: int| 0 <= j < r.0@.len() ==> row_matches(#[trigger] r.0@[j], es, since),
        forall|k: int| 0 <= k < 4 ==> usage_sum(r.0@, k) == tokens_sum(sums@, k),
        r.1 == cost_sum(r.0@),
{
    let mut rows: Vec<ModelUsage> = Vec::new();
    let mut cost_total: u128 = 0;
    let mut j: usize = 0;
    while j < names.len()
        invariant
            names@.len() == sums@.len(),
            j <= names@.len(),
            rows@.len() == j,
            forall|a: int, k: int|
                0 <= a < sums@.len() && 0 <= k < 4 ==> #[trigger] counter(sums@[a], k) == period_sum(
                    es,
                    since,
                    Some(names@[a]@),
                    k,
                ),
            all_sum(sums@) <= 4 * u64::MAX,
            forall|a: int| 0 <= a < j ==> (#[trigger] rows@[a]).model@ == names@[a]@ && rows@[a].tokens == sums@[a],
            forall|a: int| 0 <= a < j ==> row_matches(#[trigger] rows@[a], es, since),
            forall|k: int| 0 <= k < 4 ==> usage_sum(rows@, k) == tokens_sum(sums@.subrange(0, j as int), k),
            cost_total == cost_sum(rows@),
            cost_sum(rows@) <= MAX_PRICE * all_sum(sums@.subrange(0, j as int)),
        decreases names@.len() - j,
    {
        let ghost sub = sums@.subrange(0, j + 1);
        assert(sub.drop_last() =~= sums@.subrange(0, j as int));
        proof {
            lemma_all_sum_prefix(sums@, j + 1);
            lemma_all_sum_nonneg(sub.drop_last());
        }
        let t = sums[j];
        let cost = calculate_cost(names[j].as_str(), &t);
        let row = ModelUsage {
            model: names[j].clone(),
            display_name: get_model_display_name(names[j].as_str()),
            tokens: t,
            cost,
        };
        proof {
            assert(MAX_PRICE * all_sum(sub) == MAX_PRICE * all_sum(sub.drop_last()) + MAX_PRICE * t.all()) by (nonlinear_arith)
                requires all_sum(sub) == all_sum(sub.drop_last()) + t.all();
            assert(MAX_PRICE * all_sum(sub) <= MAX_PRICE * (4 * u64::MAX)) by (nonlinear_arith)
                requires all_sum(sub) <= 4 * u64::MAX;
        }
        cost_total = cost_total + cost;
        assert(rows@.push(row).drop_last() =~= rows@);
        let ghost old_rows = rows@;
        rows.push(row);
        assert(rows@[j as int] == row);
        assert(row.model@ == names@[j as int]@);
        assert(row.tokens == sums@[j as int]);
        assert(forall|a: int| 0 <= a < j ==> rows@[a] == old_rows[a]);
        assert(sub.last() == t);
        assert forall|k: int| 0 <= k < 4 implies usage_sum(rows@, k) == tokens_sum(sub, k) by {
            assert(rows@.drop_last() =~= old_rows);
            assert(sub.drop_last() =~= sums@.subrange(0, j as int));
            assert(usage_sum(old_rows, k) == tokens_sum(sub.drop_last(), k));
            assert(rows@.last() == row);
        }
        j += 1;
    }
    assert(sums@.subrange(0, j as int) =~= sums@);
    (rows, cost_total)
}

proof fn lemma_all_sum_nonneg(ts: Seq<TokenUsage>)
    ensures
        all_sum(ts) >= 0,
    decreases ts.len(),
{
    if ts.len() > 0 {
        lemma_all_sum_nonneg(ts.drop_last());
    }
}

proof fn lemma_all_sum_prefix(ts: Seq<TokenUsage>, i: int)
    requires
        0 <= i <= ts.len(),
    ensures
        all_sum(ts.subrange(0, i)) <= all_sum(ts),
    decreases ts.len() - i,
{
    if i < ts.len() {
        lemma_all_sum_prefix(ts, i + 1);
        assert(ts.subrange(0, i + 1).drop_last() =~= ts.subrange(0, i));
    } else {
        assert(ts.subrange(0, i) =~= ts);
    }
}

fn rank_of(m: &ModelUsage) -> (r: u128)
    ensures
        r == rank(*m),
{
    m.tokens.input_tokens as u128 + m.tokens.output_tokens as u128
}

/// Orders rows by input plus output tokens, highest first.
fn sort_by_rank(v: Vec<ModelUsage>) -> (r: Vec<ModelUsage>)
    ensures
        r@.len() == v@.len(),
        forall|k: int| usage_sum(r@, k) == usage_sum(v@, k),
        cost_sum(r@) == cost_sum(v@),
        forall|a: int, b: int| 0 <= a < b < r@.len() ==> rank(r@[a]) >= rank(r@[b]),
        forall|a: int|
            #![trigger r@[a]]
            0 <= a < r@.len() ==> exists|b: int| #![trigger v@[b]] 0 <= b < v@.len() && r@[a] == v@[b],
        r@.to_multiset() == v@.to_multiset(),
{
    let ghost orig = v@;
    let mut src = v;
    let mut out: Vec<ModelUsage> = Vec::new();
    proof {
        broadcast use vstd::multiset::group_multiset_axioms, vstd::seq_lib::group_to_multiset_ensures;

        assert(out@.to_multiset() =~= Multiset::empty());
        assert(src@.to_multiset().add(out@.to_multiset()) =~= orig.to_multiset());
    }
    while src.len() > 0
        invariant
            src@.to_multiset().add(out@.to_multiset()) == orig.to_multiset(),
            src@ == orig.subrange(0, src@.len() as int),
            src@.len() + out@.len() == orig.len(),
            forall|k: int| usage_sum(src@, k) + usage_sum(out@, k) == usage_sum(orig, k),
            cost_sum(src@) + cost_sum(out@) == cost_sum(orig),
            forall|a: int, b: int| 0 <= a < b < out@.len() ==> rank(out@[a]) >= rank(out@[b]),
            forall|a: int|
                #![trigger out@[a]]
                0 <= a < out@.len() ==> exists|b: int| #![trigger orig[b]] 0 <= b < orig.len() && out@[a] == orig[b],
        decreases src@.len(),
    {
        let ghost old_src = src@;
        let ghost old_out = out@;
        let x = src.pop().unwrap();
        assert(src@ =~= old_src.drop_last());
        assert(src@ == orig.subrange(0, src@.len() as int));
        assert(x == orig[src@.len() as int]);
        let key = rank_of(&x);
        let mut p: usize = 0;
        while p < out.len() && rank_of(&out[p]) >= key
            invariant
                p <= out@.len(),
                key == rank(x),
                forall|a: int| 0 <= a < p ==> rank(out@[a]) >= rank(x),
            decreases out@.len() - p,
        {
            p += 1;
        }
        proof {
            assert forall|k: int| usage_sum(old_out.insert(p as int, x), k) == usage_sum(old_out, k) + counter(x.tokens, k) by {
                lemma_usage_sum_insert(old_out, p as int, x, 0);
                lemma_usage_sum_insert(old_out, p as int, x, k);
            }
            lemma_usage_sum_insert(old_out, p as int, x, 0);
        }
        out.insert(p, x);
        proof {
            broadcast use vstd::multiset::group_multiset_axioms, vstd::seq_lib::group_to_multiset_ensures;

            assert(old_src =~= src@.push(x));
            vstd::seq_lib::to_multiset_build(src@, x);
            vstd::seq_lib::to_multiset_insert(old_out, p as int, x);
            assert(src@.to_multiset().add(out@.to_multiset()) =~= old_src.to_multiset().add(
                old_out.to_multiset(),
            ));
            assert forall|a: int| #![trigger out@[a]] 0 <= a < out@.len() implies exists|b: int| #![trigger orig[b]] 0 <= b < orig.len() && out@[a] == orig[b] by {
                if a < p {
                    assert(out@[a] == old_out[a]);
                } else if a == p {
                    assert(out@[a] == orig[src@.len() as int]);
                } else {
                    assert(out@[a] == old_out[a - 1]);
                }
            }
        }
    }
    proof {
        broadcast use vstd::multiset::group_multiset_axioms, vstd::seq_lib::group_to_multiset_ensures;

        assert(src@.len() == 0);
        assert(src@ =~= Seq::<ModelUsage>::empty());
        assert(out@.to_multiset() =~= orig.to_multiset());
    }
    out
}

/// What the entries of a period add up to.
pub struct PeriodUsage {
    pub by_model: Vec<ModelUsage>,
    pub total: TokenUsage,
    /// In picodollars.
    pub total_cost: u128,
    pub message_count: u32,
    pub last_updated: String,
}

/// Folds the entries of the period starting at `since` (all entries where
/// there is no start) into per-model rows, highest input plus output first,
/// and grand totals.
pub fn period_usage(entries: &Vec<ParsedEntry>, since: &Option<Instant>) -> (r: PeriodUsage)
    requires
        sums_fit(views(entries@)),
    ensures
        forall|k: int|
            0 <= k < 4 ==> counter(r.total, k) == period_sum(views(entries@), *since, None, k),
        forall|k: int| 0 <= k < 4 ==> usage_sum(r.by_model@, k) == counter(r.total, k),
        forall|j: int| 0 <= j < r.by_model@.len() ==> row_matches(#[trigger] r.by_model@[j], views(entries@), *since),
        forall|a: int, b: int| 0 <= a < b < r.by_model@.len() ==> rank(r.by_model@[a]) >= rank(r.by_model@[b]),
        r.total_cost == cost_sum(r.by_model@),
        r.message_count == period_count(views(entries@), *since),
        r.last_updated@ == latest_of(views(entries@), *since),
        r.by_model@.len() <= entries@.len(),
        forall|t: int|
            0 <= t < entries@.len() && in_period(#[trigger] views(entries@)[t], *since) ==> has_model(
                r.by_model@,
                views(entries@)[t].model,
            ),
        forall|a: int, b: int| 0 <= a < b < r.by_model@.len() ==> r.by_model@[a].model@ != r.by_model@[b].model@,
{
    let f = fold_period(entries, since);
    proof {
        lemma_all_sum_split(f.sums@);
        assert(tokens_sum(f.sums@, 0) == counter(f.total, 0));
        assert(tokens_sum(f.sums@, 1) == counter(f.total, 1));
        assert(tokens_sum(f.sums@, 2) == counter(f.total, 2));
        assert(tokens_sum(f.sums@, 3) == counter(f.total, 3));
    }
    let (rows, cost) = model_rows(&f.names, &f.sums, Ghost(views(entries@)), Ghost(*since));
    let sorted = sort_by_rank(rows);
    proof {
        assert forall|j: int| 0 <= j < sorted@.len() implies row_matches(#[trigger] sorted@[j], views(entries@), *since) by {
            let b = choose|b: int| 0 <= b < rows@.len() && sorted@[j] == rows@[b];
        }
        broadcast use vstd::seq_lib::group_to_multiset_ensures;

        assert forall|t: int|
            0 <= t < entries@.len() && in_period(#[trigger] views(entries@)[t], *since) implies has_model(
                sorted@,
                views(entries@)[t].model,
            ) by {
            let m = views(entries@)[t].model;
            assert(has_name(f.names@, m));
            let j = choose|j: int| 0 <= j < f.names@.len() && f.names@[j]@ == m;
            assert(rows@.contains(rows@[j]));
            assert(rows@.to_multiset().count(rows@[j]) > 0);
            assert(sorted@.contains(rows@[j]));
            let a = choose|a: int| 0 <= a < sorted@.len() && sorted@[a] == rows@[j];
            assert(sorted@[a].model@ == m);
        }
        assert(rows@.no_duplicates()) by {
            assert forall|i: int, j: int| 0 <= i < rows@.len() && 0 <= j < rows@.len() && i != j implies rows@[i] != rows@[j] by {
                if i < j {
                    assert(f.names@[i]@ != f.names@[j]@);
                } else {
                    assert(f.names@[j]@ != f.names@[i]@);
                }
            }
        }
        rows@.lemma_multiset_has_no_duplicates();
        sorted@.lemma_multiset_has_no_duplicates_conv();
        assert forall|a: int, b: int| 0 <= a < b < sorted@.len() implies sorted@[a].model@ != sorted@[b].model@ by {
            assert(sorted@.contains(sorted@[a]));
            assert(sorted@.to_multiset().count(sorted@[a]) > 0);
            assert(rows@.contains(sorted@[a]));
            assert(sorted@.contains(sorted@[b]));
            assert(sorted@.to_multiset().count(sorted@[b]) > 0);
            assert(rows@.contains(sorted@[b]));
            let i = choose|i: int| 0 <= i < rows@.len() && rows@[i] == sorted@[a];
            let j = choose|j: int| 0 <= j < rows@.len() && rows@[j] == sorted@[b];
            if i < j {
                assert(f.names@[i]@ != f.names@[j]@);
            } else if j < i {
                assert(f.names@[j]@ != f.names@[i]@);
            }
        }
    }
    PeriodUsage {
        by_model: sorted,
        total: f.total,
        total_cost: cost,
        message_count: f.message_count,
        last_updated: f.latest,
    }
}

} // verus!
