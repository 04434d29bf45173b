//! Squared Euclidean distance between integer vectors.

use vstd::prelude::*;

verus! {

/// The square of the difference of two components.
pub open spec fn sq_diff(x: i32, y: i32) -> nat {
    ((x - y) * (x - y)) as nat
}

/// The sum of the squared differences of the first `n` components.
pub open spec fn sq_dist_upto(a: Seq<i32>, b: Seq<i32>, n: nat) -> nat
    decreases n,
{
    if n == 0 {
        0
    } else {
        sq_dist_upto(a, b, (n - 1) as nat) + sq_diff(a[n - 1], b[n - 1])
    }
}

/// The squared Euclidean distance of two vectors of equal length.
pub open spec fn l2_sqr(a: Seq<i32>, b: Seq<i32>) -> nat {
    sq_dist_upto(a, b, a.len())
}

/// A squared difference of two `i32` fits in 64 bits.
pub proof fn lemma_sq_diff_bound(x: i32, y: i32)
    ensures
        sq_diff(x, y) == (x - y) * (x - y),
        sq_diff(x, y) <= 0xffff_ffff_ffff_ffff,
{
    let d: int = x - y;
    assert(-0x1_0000_0000 < d < 0x1_0000_0000);
    assert(0 <= d * d <= 0xffff_ffff_ffff_ffff) by (nonlinear_arith)
        requires
            -0x1_0000_0000 < d < 0x1_0000_0000,
    ;
}

/// A partial sum over `n` components is at most `n` times the largest square.
pub proof fn lemma_sq_dist_bound(a: Seq<i32>, b: Seq<i32>, n: nat)
    ensures
        sq_dist_upto(a, b, n) <= n * 0xffff_ffff_ffff_ffff,
    decreases n,
{
    if n > 0 {
        lemma_sq_dist_bound(a, b, (n - 1) as nat);
        lemma_sq_diff_bound(a[n - 1], b[n - 1]);
    }
}

/// Computes the squared Euclidean distance of two vectors of equal length.
pub fn l2_sqr_of(a: &[i32], b: &[i32]) -> (r: u128)
    requires
        a@.len() == b@.len(),
    ensures
        r == l2_sqr(a@, b@),
{
    let n: usize = a.len();
    let mut acc: u128 = 0;
    let mut j: usize = 0;
    while j < n
        invariant
            n == a@.len(),
            n == b@.len(),
            j <= n,
            acc == sq_dist_upto(a@, b@, j as nat),
        decreases n - j,
    {
        let x: i64 = a[j] as i64;
        let y: i64 = b[j] as i64;
        let d: i64 = x - y;
        proof {
            lemma_sq_diff_bound(a@[j as int], b@[j as int]);
            lemma_sq_dist_bound(a@, b@, j as nat);
            assert(j * 0xffff_ffff_ffff_ffff <= 0xffff_ffff_ffff_ffff * 0xffff_ffff_ffff_ffff)
                by (nonlinear_arith)
                requires
                    j <= 0xffff_ffff_ffff_ffff,
            ;
        }
        let w: i128 = d as i128;
        let sq: i128 = w * w;
        acc = acc + sq as u128;
        j = j + 1;
    }
    acc
}

} // verus!
