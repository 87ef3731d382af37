use vstd::prelude::*;
use vstd::std_specs::cmp::PartialEqSpec;

verus! {

/// `==` on `T` decides whether two values are the same.
pub open spec fn eq_is_identity<T: PartialEq>() -> bool {
    &&& T::obeys_eq_spec()
    &&& forall|a: T, b: T| #[trigger] a.eq_spec(&b) <==> (a == b)
}

/// The weight of `value` looked up from entry `from` on in the table made
/// of `values` and, beside each, its weight.
pub open spec fn weight_from<T>(values: Seq<T>, weights: Seq<u32>, value: T, from: int) -> nat
    decreases values.len() - from,
{
    if from < 0 || from >= values.len() || from >= weights.len() {
        0
    } else if values[from] == value {
        weights[from] as nat
    } else {
        weight_from(values, weights, value, from + 1)
    }
}

/// The selection weight of `value`: that of its first entry in the table,
/// and zero where it has none.
pub open spec fn weight_of<T>(values: Seq<T>, weights: Seq<u32>, value: T) -> nat {
    weight_from(values, weights, value, 0)
}

/// The weights of the first `n` values of `domain`, added up.
pub open spec fn weight_sum<T>(domain: Seq<T>, values: Seq<T>, weights: Seq<u32>, n: int) -> nat
    decreases n,
{
    if n <= 0 {
        0
    } else {
        weight_sum(domain, values, weights, n - 1) + weight_of(values, weights, domain[n - 1])
    }
}

/// Whether `at` is the place in `domain` that `draw` selects. The draw is
/// reduced modulo the total weight and falls on the value whose stretch of
/// the running total holds it, so a value is chosen in proportion to its
/// weight. Where the total is zero every value is as likely as another.
pub open spec fn is_choice<T>(
    domain: Seq<T>,
    values: Seq<T>,
    weights: Seq<u32>,
    draw: u64,
    at: int,
) -> bool {
    let total = weight_sum(domain, values, weights, domain.len() as int);
    &&& 0 <= at < domain.len()
    &&& total == 0 ==> at == (draw as int) % (domain.len() as int)
    &&& total > 0 ==> weight_sum(domain, values, weights, at) <= (draw as int) % (total as int)
        < weight_sum(domain, values, weights, at + 1)
}

/// The place in `domain` that `draw` selects.
pub open spec fn choice<T>(domain: Seq<T>, values: Seq<T>, weights: Seq<u32>, draw: u64) -> int {
    choose|at: int| is_choice(domain, values, weights, draw, at)
}

/// The running total never falls.
pub proof fn lemma_weight_sum_monotone<T>(
    domain: Seq<T>,
    values: Seq<T>,
    weights: Seq<u32>,
    m: int,
    n: int,
)
    requires
        m <= n,
    ensures
        weight_sum(domain, values, weights, m) <= weight_sum(domain, values, weights, n),
    decreases n - m,
{
    if m < n {
        lemma_weight_sum_monotone(domain, values, weights, m, n - 1);
    }
}

/// A draw selects one place only.
pub proof fn lemma_choice_unique<T>(
    domain: Seq<T>,
    values: Seq<T>,
    weights: Seq<u32>,
    draw: u64,
    a: int,
    b: int,
)
    requires
        is_choice(domain, values, weights, draw, a),
        is_choice(domain, values, weights, draw, b),
    ensures
        a == b,
{
    if a < b {
        lemma_weight_sum_monotone(domain, values, weights, a + 1, b);
    } else if b < a {
        lemma_weight_sum_monotone(domain, values, weights, b + 1, a);
    }
}

/// A value that is chosen while the total weight is positive has a
/// positive weight itself.
pub proof fn lemma_choice_has_weight<T>(
    domain: Seq<T>,
    values: Seq<T>,
    weights: Seq<u32>,
    draw: u64,
    at: int,
)
    requires
        is_choice(domain, values, weights, draw, at),
        weight_sum(domain, values, weights, domain.len() as int) > 0,
    ensures
        weight_of(values, weights, domain[at]) > 0,
{
}

/// A value with a positive weight has an entry in the table.
pub proof fn lemma_weighted_is_listed<T>(values: Seq<T>, weights: Seq<u32>, value: T, from: int)
    requires
        0 <= from,
        weight_from(values, weights, value, from) > 0,
    ensures
        values.contains(value),
    decreases values.len() - from,
{
    if values[from] != value {
        lemma_weighted_is_listed(values, weights, value, from + 1);
    }
}

/// A running total that has passed `target` passed it at some place.
proof fn lemma_target_is_reached<T>(
    domain: Seq<T>,
    values: Seq<T>,
    weights: Seq<u32>,
    target: int,
    n: int,
) -> (at: int)
    requires
        0 <= n,
        0 <= target < weight_sum(domain, values, weights, n),
    ensures
        0 <= at < n,
        weight_sum(domain, values, weights, at) <= target < weight_sum(
            domain,
            values,
            weights,
            at + 1,
        ),
    decreases n,
{
    if target < weight_sum(domain, values, weights, n - 1) {
        lemma_target_is_reached(domain, values, weights, target, n - 1)
    } else {
        n - 1
    }
}

/// Every draw selects a place in a domain that is not empty.
pub proof fn lemma_choice_exists<T>(domain: Seq<T>, values: Seq<T>, weights: Seq<u32>, draw: u64)
    requires
        domain.len() > 0,
    ensures
        is_choice(domain, values, weights, draw, choice(domain, values, weights, draw)),
{
    let total = weight_sum(domain, values, weights, domain.len() as int);
    if total == 0 {
        let at = (draw as int) % (domain.len() as int);
        assert(is_choice(domain, values, weights, draw, at));
    } else {
        let target = (draw as int) % (total as int);
        let at = lemma_target_is_reached(domain, values, weights, target, domain.len() as int);
        assert(is_choice(domain, values, weights, draw, at));
    }
}

/// The total weight of a domain is at least the weight of each of its
/// values.
pub proof fn lemma_weight_sum_covers<T>(
    domain: Seq<T>,
    values: Seq<T>,
    weights: Seq<u32>,
    at: int,
)
    requires
        0 <= at < domain.len(),
    ensures
        weight_sum(domain, values, weights, domain.len() as int) >= weight_of(
            values,
            weights,
            domain[at],
        ),
{
    lemma_weight_sum_monotone(domain, values, weights, at + 1, domain.len() as int);
}

/// The selection weight of `value` in `table`, a list of values and the
/// list of their weights.
pub fn weight<T: Copy + PartialEq>(table: (&Vec<T>, &Vec<u32>), value: T) -> (w: u32)
    requires
        eq_is_identity::<T>(),
    ensures
        w == weight_of(table.0@, table.1@, value),
{
    let mut i: usize = 0;
    while i < table.0.len() && i < table.1.len()
        invariant
            eq_is_identity::<T>(),
            weight_of(table.0@, table.1@, value) == weight_from(
                table.0@,
                table.1@,
                value,
                i as int,
            ),
        decreases table.0@.len() - i,
    {
        if table.0[i] == value {
            return table.1[i];
        }
        i += 1;
    }
    0
}

/// The place in `domain` that `draw` selects under the weights of `table`,
/// or `None` where `domain` is empty.
pub fn choose_weighted<T: Copy + PartialEq>(
    domain: &Vec<T>,
    table: (&Vec<T>, &Vec<u32>),
    draw: u64,
) -> (chosen: Option<usize>)
    requires
        eq_is_identity::<T>(),
    ensures
        chosen is None <==> domain@.len() == 0,
        chosen matches Some(at) ==> {
            &&& is_choice(domain@, table.0@, table.1@, draw, at as int)
            &&& at == choice(domain@, table.0@, table.1@, draw)
        },
{
    if domain.len() == 0 {
        return None;
    }
    let mut total: u128 = 0;
    let mut i: usize = 0;
    while i < domain.len()
        invariant
            eq_is_identity::<T>(),
            i <= domain@.len(),
            total == weight_sum(domain@, table.0@, table.1@, i as int),
            total <= i * 0xffff_ffff,
        decreases domain@.len() - i,
    {
        let w = weight(table, domain[i]);
        total = total + w as u128;
        i += 1;
    }
    if total == 0 {
        let at = (draw % domain.len() as u64) as usize;
        proof {
            assert(is_choice(domain@, table.0@, table.1@, draw, at as int));
            lemma_choice_unique(
                domain@,
                table.0@,
                table.1@,
                draw,
                at as int,
                choice(domain@, table.0@, table.1@, draw),
            );
        }
        return Some(at);
    }
    let target: u128 = draw as u128 % total;
    let mut below: u128 = 0;
    let mut at: usize = 0;
    loop
        invariant
            eq_is_identity::<T>(),
            at < domain@.len(),
            target == (draw as int) % (total as int),
            0 < total == weight_sum(domain@, table.0@, table.1@, domain@.len() as int),
            below == weight_sum(domain@, table.0@, table.1@, at as int),
            below <= target < total,
            domain@.len() <= usize::MAX,
        decreases domain@.len() - at,
    {
        let w = weight(table, domain[at]);
        proof {
            lemma_weight_sum_monotone(domain@, table.0@, table.1@, at + 1, domain@.len() as int);
            assert(weight_sum(domain@, table.0@, table.1@, at + 1) == below + w);
        }
        if target < below + w as u128 {
            proof {
                assert(is_choice(domain@, table.0@, table.1@, draw, at as int));
                lemma_choice_unique(
                    domain@,
                    table.0@,
                    table.1@,
                    draw,
                    at as int,
                    choice(domain@, table.0@, table.1@, draw),
                );
            }
            return Some(at);
        }
        below = below + w as u128;
        at += 1;
    }
}

} // verus!
