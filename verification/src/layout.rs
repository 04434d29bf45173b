//! Batches of vectors laid out one after another in a flat sequence.

use vstd::prelude::*;
use vstd::arithmetic::div_mod::lemma_fundamental_div_mod;
use vstd::arithmetic::div_mod::lemma_fundamental_div_mod_converse;
use vstd::arithmetic::div_mod::lemma_mod_bound;

verus! {

/// The number of whole vectors of dimension `d` among `len` components.
/// Components behind the last whole vector do not count.
pub open spec fn count(len: nat, d: nat) -> nat {
    len / d
}

/// The `i`-th vector of dimension `d` in `data`.
pub open spec fn row(data: Seq<i32>, d: nat, i: int) -> Seq<i32> {
    data.subrange(i * d, i * d + d)
}

/// The whole vectors of `data`, without what is left behind the last.
pub open spec fn whole(data: Seq<i32>, d: nat) -> Seq<i32> {
    data.take((count(data.len(), d) * d) as int)
}

/// Each of the `count` vectors lies inside the data.
pub proof fn lemma_row_bounds(len: nat, d: nat, i: nat)
    requires
        d > 0,
        i < count(len, d),
    ensures
        0 <= i * d,
        i * d + d <= count(len, d) * d <= len,
{
    let n = count(len, d);
    lemma_fundamental_div_mod(len as int, d as int);
    lemma_mod_bound(len as int, d as int);
    assert(d * n == n * d) by (nonlinear_arith);
    assert(i * d + d <= n * d) by (nonlinear_arith)
        requires
            i < n,
            d > 0,
    ;
    assert(0 <= i * d) by (nonlinear_arith);
}

/// The whole vectors take up no more than the data.
pub proof fn lemma_whole_bounds(len: nat, d: nat)
    requires
        d > 0,
    ensures
        count(len, d) * d <= len,
        len - count(len, d) * d < d,
{
    lemma_fundamental_div_mod(len as int, d as int);
    lemma_mod_bound(len as int, d as int);
    assert(d * count(len, d) == count(len, d) * d) by (nonlinear_arith);
}

/// `n` vectors of dimension `d` count as `n`.
pub proof fn lemma_count_exact(n: nat, d: nat)
    requires
        d > 0,
    ensures
        count(n * d, d) == n,
        (n * d) % d == 0,
{
    lemma_fundamental_div_mod_converse((n * d) as int, d as int, n as int, 0);
}

/// Appending `m` whole vectors to data without a remainder adds `m` to the count.
pub proof fn lemma_count_appended(len: nat, m: nat, d: nat)
    requires
        d > 0,
        len % d == 0,
    ensures
        count(len + m * d, d) == count(len, d) + m,
        (len + m * d) % d == 0,
{
    let n = count(len, d);
    lemma_fundamental_div_mod(len as int, d as int);
    assert(len + m * d == (n + m) * d) by (nonlinear_arith)
        requires
            len == d * n,
    ;
    lemma_count_exact(n + m, d);
}

/// The `i`-th vector of dimension `d` in `data`.
pub fn row_of(data: &[i32], d: usize, i: usize) -> (x: &[i32])
    requires
        d > 0,
        i < count(data@.len(), d as nat),
    ensures
        x@ == row(data@, d as nat, i as int),
        x@.len() == d,
{
    let len: usize = data.len();
    proof {
        lemma_row_bounds(len as nat, d as nat, i as nat);
    }
    &data[i * d..i * d + d]
}

} // verus!
