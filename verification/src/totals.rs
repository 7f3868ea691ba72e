//! Token and cost totals, and their sums.
use vstd::prelude::*;

verus! {

/// Token counts and cost (in micro-dollars) of some usage.
#[derive(Debug, Clone, Copy, PartialEq, Eq, Default)]
pub struct TokenTotals {
    pub input_tokens: u64,
    pub output_tokens: u64,
    pub cache_creation_tokens: u64,
    pub cache_read_tokens: u64,
    pub reasoning_output_tokens: u64,
    pub total_tokens: u64,
    pub cost_micro_usd: Option<i64>,
}

/// Totals over the mathematical integers, so that sums never wrap.
pub ghost struct Tally {
    pub input: int,
    pub output: int,
    pub cache_creation: int,
    pub cache_read: int,
    pub reasoning: int,
    pub total: int,
    pub cost: Option<int>,
}

/// Sum of two optional costs: an absent cost adds nothing, and the sum is absent only
/// when both are.
pub open spec fn cost_sum(a: Option<int>, b: Option<int>) -> Option<int> {
    match (a, b) {
        (Some(x), Some(y)) => Some(x + y),
        (Some(x), None) => Some(x),
        (None, Some(y)) => Some(y),
        (None, None) => None,
    }
}

pub open spec fn tally_zero() -> Tally {
    Tally {
        input: 0,
        output: 0,
        cache_creation: 0,
        cache_read: 0,
        reasoning: 0,
        total: 0,
        cost: None,
    }
}

pub open spec fn tally_add(a: Tally, b: Tally) -> Tally {
    Tally {
        input: a.input + b.input,
        output: a.output + b.output,
        cache_creation: a.cache_creation + b.cache_creation,
        cache_read: a.cache_read + b.cache_read,
        reasoning: a.reasoning + b.reasoning,
        total: a.total + b.total,
        cost: cost_sum(a.cost, b.cost),
    }
}

/// Adding totals is commutative: the order in which usage is added up does not matter.
pub proof fn law_tally_add_commutative(a: Tally, b: Tally)
    ensures
        tally_add(a, b) == tally_add(b, a),
{
}

/// Adding totals is associative: how usage is grouped before adding does not matter.
pub proof fn law_tally_add_associative(a: Tally, b: Tally, c: Tally)
    ensures
        tally_add(tally_add(a, b), c) == tally_add(a, tally_add(b, c)),
{
}

/// No tokens and no cost add nothing.
pub proof fn law_tally_zero_neutral(a: Tally)
    ensures
        tally_add(tally_zero(), a) == a,
        tally_add(a, tally_zero()) == a,
{
}

pub open spec fn fits_u64(x: int) -> bool {
    0 <= x <= u64::MAX
}

/// Whether a tally can be held in a `TokenTotals`.
pub open spec fn tally_fits(t: Tally) -> bool {
    &&& fits_u64(t.input)
    &&& fits_u64(t.output)
    &&& fits_u64(t.cache_creation)
    &&& fits_u64(t.cache_read)
    &&& fits_u64(t.reasoning)
    &&& fits_u64(t.total)
    &&& match t.cost {
        Some(c) => i64::MIN <= c <= i64::MAX,
        None => true,
    }
}

pub open spec fn optional_cost_int(c: Option<i64>) -> Option<int> {
    match c {
        Some(x) => Some(x as int),
        None => None,
    }
}

impl TokenTotals {
    pub open spec fn tally(self) -> Tally {
        Tally {
            input: self.input_tokens as int,
            output: self.output_tokens as int,
            cache_creation: self.cache_creation_tokens as int,
            cache_read: self.cache_read_tokens as int,
            reasoning: self.reasoning_output_tokens as int,
            total: self.total_tokens as int,
            cost: optional_cost_int(self.cost_micro_usd),
        }
    }

    /// All counts zero and no cost.
    pub fn zero() -> (res: TokenTotals)
        ensures
            res.tally() == tally_zero(),
    {
        TokenTotals {
            input_tokens: 0,
            output_tokens: 0,
            cache_creation_tokens: 0,
            cache_read_tokens: 0,
            reasoning_output_tokens: 0,
            total_tokens: 0,
            cost_micro_usd: None,
        }
    }

    /// Adds `other` into `self`, field by field; costs add as `add_optional_cost` says.
    pub fn add(&mut self, other: &TokenTotals)
        requires
            tally_fits(tally_add(old(self).tally(), other.tally())),
        ensures
            final(self).tally() == tally_add(old(self).tally(), other.tally()),
            final(self).input_tokens == old(self).input_tokens + other.input_tokens,
            final(self).output_tokens == old(self).output_tokens + other.output_tokens,
            final(self).cache_creation_tokens == old(self).cache_creation_tokens
                + other.cache_creation_tokens,
            final(self).cache_read_tokens == old(self).cache_read_tokens + other.cache_read_tokens,
            final(self).reasoning_output_tokens == old(self).reasoning_output_tokens
                + other.reasoning_output_tokens,
            final(self).total_tokens == old(self).total_tokens + other.total_tokens,
            optional_cost_int(final(self).cost_micro_usd) == cost_sum(
                optional_cost_int(old(self).cost_micro_usd),
                optional_cost_int(other.cost_micro_usd),
            ),
    {
        self.input_tokens = self.input_tokens + other.input_tokens;
        self.output_tokens = self.output_tokens + other.output_tokens;
        self.cache_creation_tokens = self.cache_creation_tokens + other.cache_creation_tokens;
        self.cache_read_tokens = self.cache_read_tokens + other.cache_read_tokens;
        self.reasoning_output_tokens = self.reasoning_output_tokens
            + other.reasoning_output_tokens;
        self.total_tokens = self.total_tokens + other.total_tokens;
        self.cost_micro_usd = add_optional_cost(self.cost_micro_usd, other.cost_micro_usd);
    }

    /// The sum of `self` and `other` when it can be held, else `None` (where `add` would
    /// overflow).
    pub fn checked_sum(&self, other: &TokenTotals) -> (res: Option<TokenTotals>)
        ensures
            res is Some <==> tally_fits(tally_add(self.tally(), other.tally())),
            res matches Some(t) ==> t.tally() == tally_add(self.tally(), other.tally()),
    {
        let ghost sum = tally_add(self.tally(), other.tally());
        if self.input_tokens > u64::MAX - other.input_tokens || self.output_tokens > u64::MAX
            - other.output_tokens || self.cache_creation_tokens > u64::MAX
            - other.cache_creation_tokens || self.cache_read_tokens > u64::MAX
            - other.cache_read_tokens || self.reasoning_output_tokens > u64::MAX
            - other.reasoning_output_tokens || self.total_tokens > u64::MAX - other.total_tokens {
            return None;
        }
        match (self.cost_micro_usd, other.cost_micro_usd) {
            (Some(a), Some(b)) => {
                if (b > 0 && a > i64::MAX - b) || (b < 0 && a < i64::MIN - b) {
                    return None;
                }
            },
            _ => {},
        }
        let mut out = *self;
        out.add(other);
        Some(out)
    }
}

/// Adds two optional costs: `None` stands for "no cost reported" and adds nothing.
pub fn add_optional_cost(left: Option<i64>, right: Option<i64>) -> (res: Option<i64>)
    requires
        match (left, right) {
            (Some(a), Some(b)) => i64::MIN <= a + b <= i64::MAX,
            _ => true,
        },
    ensures
        optional_cost_int(res) == cost_sum(optional_cost_int(left), optional_cost_int(right)),
{
    match (left, right) {
        (Some(a), Some(b)) => Some(a + b),
        (Some(a), None) => Some(a),
        (None, Some(b)) => Some(b),
        (None, None) => None,
    }
}

} // verus!
