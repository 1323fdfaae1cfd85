use vstd::prelude::*;

use crate::text::{contains_seq, str_contains};

verus! {

/// A set of token counters.
#[derive(Debug, Clone, Copy, PartialEq, Eq, Structural)]
pub struct TokenUsage {
    pub input_tokens: u64,
    pub output_tokens: u64,
    pub cache_creation_input_tokens: u64,
    pub cache_read_input_tokens: u64,
}

impl Default for TokenUsage {
    fn default() -> (r: TokenUsage)
        ensures
            r == TokenUsage::zero(),
    {
        TokenUsage {
            input_tokens: 0,
            output_tokens: 0,
            cache_creation_input_tokens: 0,
            cache_read_input_tokens: 0,
        }
    }
}

impl TokenUsage {
    pub open spec fn zero() -> TokenUsage {
        TokenUsage {
            input_tokens: 0,
            output_tokens: 0,
            cache_creation_input_tokens: 0,
            cache_read_input_tokens: 0,
        }
    }

    /// All four counters together.
    pub open spec fn all(self) -> int {
        self.input_tokens + self.output_tokens + self.cache_creation_input_tokens
            + self.cache_read_input_tokens
    }

    /// The tokens that fill the context window at a turn: the new input and
    /// what was read from or written to the cache.
    pub open spec fn context(self) -> int {
        self.cache_read_input_tokens + self.cache_creation_input_tokens + self.input_tokens
    }
}

/// Prices of the four token kinds, in millionths of a dollar per million
/// tokens, which is the same as picodollars per token.
#[derive(Debug, Clone, Copy, PartialEq, Eq, Structural)]
pub struct ModelPricing {
    pub input: u64,
    pub output: u64,
    pub cache_write: u64,
    pub cache_read: u64,
}

pub const MAX_PRICE: u64 = 75000000;

pub open spec fn opus_pricing() -> ModelPricing {
    ModelPricing { input: 15000000, output: 75000000, cache_write: 18750000, cache_read: 1500000 }
}

pub open spec fn sonnet_pricing() -> ModelPricing {
    ModelPricing { input: 3000000, output: 15000000, cache_write: 3750000, cache_read: 300000 }
}

pub open spec fn haiku_pricing() -> ModelPricing {
    ModelPricing { input: 250000, output: 1250000, cache_write: 300000, cache_read: 30000 }
}

/// The price tier of a model: the first family named in it, in the order
/// opus, sonnet, haiku; sonnet's prices for any other model.
pub open spec fn pricing_of(model: Seq<char>) -> ModelPricing {
    if contains_seq(model, "opus"@) {
        opus_pricing()
    } else if contains_seq(model, "sonnet"@) {
        sonnet_pricing()
    } else if contains_seq(model, "haiku"@) {
        haiku_pricing()
    } else {
        sonnet_pricing()
    }
}

/// Cost in picodollars of the given tokens at the given prices.
pub open spec fn cost_at(p: ModelPricing, t: TokenUsage) -> int {
    t.input_tokens * p.input + t.output_tokens * p.output + t.cache_creation_input_tokens
        * p.cache_write + t.cache_read_input_tokens * p.cache_read
}

/// Cost in picodollars of tokens spent on a model.
pub open spec fn cost_of(model: Seq<char>, t: TokenUsage) -> int {
    cost_at(pricing_of(model), t)
}

/// Human name of a model identifier: its family and version where they are
/// recognised, else the identifier itself.
pub open spec fn display_name_of(m: Seq<char>) -> Seq<char> {
    if contains_seq(m, "opus-4-5"@) || contains_seq(m, "opus-4.5"@) {
        "Opus 4.5"@
    } else if contains_seq(m, "opus-4"@) {
        "Opus 4"@
    } else if contains_seq(m, "opus"@) {
        "Opus"@
    } else if contains_seq(m, "sonnet-4"@) {
        "Sonnet 4"@
    } else if contains_seq(m, "sonnet-3-5"@) || contains_seq(m, "sonnet-3.5"@) {
        "Sonnet 3.5"@
    } else if contains_seq(m, "sonnet"@) {
        "Sonnet"@
    } else if contains_seq(m, "haiku-3-5"@) || contains_seq(m, "haiku-3.5"@) {
        "Haiku 3.5"@
    } else if contains_seq(m, "haiku"@) {
        "Haiku"@
    } else {
        m
    }
}

/// Context window size of every model, in tokens.
pub const CONTEXT_LIMIT: u64 = 200000;

/// Share of the context window left, in hundredths of a percent, rounded down;
/// zero once the window is full.
pub open spec fn context_remaining_of(tokens: int) -> int {
    if tokens >= CONTEXT_LIMIT {
        0
    } else {
        (CONTEXT_LIMIT - tokens) * 10000 / (CONTEXT_LIMIT as int)
    }
}

pub fn get_model_display_name(model: &str) -> (r: String)
    ensures
        r@ == display_name_of(model@),
{
    let s = if str_contains(model, "opus-4-5") || str_contains(model, "opus-4.5") {
        "Opus 4.5"
    } else if str_contains(model, "opus-4") {
        "Opus 4"
    } else if str_contains(model, "opus") {
        "Opus"
    } else if str_contains(model, "sonnet-4") {
        "Sonnet 4"
    } else if str_contains(model, "sonnet-3-5") || str_contains(model, "sonnet-3.5") {
        "Sonnet 3.5"
    } else if str_contains(model, "sonnet") {
        "Sonnet"
    } else if str_contains(model, "haiku-3-5") || str_contains(model, "haiku-3.5") {
        "Haiku 3.5"
    } else if str_contains(model, "haiku") {
        "Haiku"
    } else {
        model
    };
    s.to_owned()
}

pub fn get_model_pricing(model: &str) -> (r: ModelPricing)
    ensures
        r == pricing_of(model@),
        r.input <= MAX_PRICE && r.output <= MAX_PRICE,
        r.cache_write <= MAX_PRICE && r.cache_read <= MAX_PRICE,
{
    if str_contains(model, "opus") {
        ModelPricing { input: 15000000, output: 75000000, cache_write: 18750000, cache_read: 1500000 }
    } else if str_contains(model, "sonnet") {
        ModelPricing { input: 3000000, output: 15000000, cache_write: 3750000, cache_read: 300000 }
    } else if str_contains(model, "haiku") {
        ModelPricing { input: 250000, output: 1250000, cache_write: 300000, cache_read: 30000 }
    } else {
        ModelPricing { input: 3000000, output: 15000000, cache_write: 3750000, cache_read: 300000 }
    }
}

pub proof fn lemma_cost_bound(p: ModelPricing, t: TokenUsage)
    requires
        p.input <= MAX_PRICE && p.output <= MAX_PRICE,
        p.cache_write <= MAX_PRICE && p.cache_read <= MAX_PRICE,
    ensures
        0 <= cost_at(p, t) <= MAX_PRICE * t.all(),
{
    assert(t.input_tokens * p.input <= t.input_tokens * MAX_PRICE) by (nonlinear_arith)
        requires p.input <= MAX_PRICE;
    assert(t.output_tokens * p.output <= t.output_tokens * MAX_PRICE) by (nonlinear_arith)
        requires p.output <= MAX_PRICE;
    assert(t.cache_creation_input_tokens * p.cache_write <= t.cache_creation_input_tokens
        * MAX_PRICE) by (nonlinear_arith)
        requires p.cache_write <= MAX_PRICE;
    assert(t.cache_read_input_tokens * p.cache_read <= t.cache_read_input_tokens * MAX_PRICE)
        by (nonlinear_arith)
        requires p.cache_read <= MAX_PRICE;
    assert(t.input_tokens * p.input >= 0) by (nonlinear_arith);
    assert(t.output_tokens * p.output >= 0) by (nonlinear_arith);
    assert(t.cache_creation_input_tokens * p.cache_write >= 0) by (nonlinear_arith);
    assert(t.cache_read_input_tokens * p.cache_read >= 0) by (nonlinear_arith);
    assert(MAX_PRICE * t.all() == t.input_tokens * MAX_PRICE + t.output_tokens * MAX_PRICE
        + t.cache_creation_input_tokens * MAX_PRICE + t.cache_read_input_tokens * MAX_PRICE)
        by (nonlinear_arith);
}

/// Cost in picodollars of `tokens` spent on `model`.
pub fn calculate_cost(model: &str, tokens: &TokenUsage) -> (r: u128)
    ensures
        r == cost_of(model@, *tokens),
        r <= MAX_PRICE * tokens.all(),
{
    let p = get_model_pricing(model);
    proof {
        lemma_cost_bound(p, *tokens);
    }
    let a = tokens.input_tokens as u128 * p.input as u128;
    let b = tokens.output_tokens as u128 * p.output as u128;
    let c = tokens.cache_creation_input_tokens as u128 * p.cache_write as u128;
    let d = tokens.cache_read_input_tokens as u128 * p.cache_read as u128;
    a + b + c + d
}

/// Size of the context window of a model, in tokens; the same for every model.
pub fn get_model_context_limit(model: &str) -> (r: u64)
    ensures
        r == CONTEXT_LIMIT,
{
    CONTEXT_LIMIT
}

/// Share of the context window left after `total_tokens` fill it, in
/// hundredths of a percent.
pub fn calculate_context_remaining(total_tokens: u64, model: &str) -> (r: u64)
    ensures
        r == context_remaining_of(total_tokens as int),
        r <= 10000,
{
    let limit = get_model_context_limit(model);
    if total_tokens >= limit {
        0
    } else {
        (limit - total_tokens) * 10000 / limit
    }
}

} // verus!
