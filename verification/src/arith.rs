//! Facts about remainders and row-major positions that the proofs use.

use vstd::arithmetic::div_mod::{
    lemma_fundamental_div_mod, lemma_fundamental_div_mod_converse, lemma_mod_add_multiples_vanish,
    lemma_mod_bound,
};
use vstd::prelude::*;

verus! {

/// A row-major position gives its row and column back.
pub proof fn lemma_row_major(row: int, column: int, width: int)
    requires
        0 <= column < width,
    ensures
        (row * width + column) / width == row,
        (row * width + column) % width == column,
{
    lemma_fundamental_div_mod_converse(row * width + column, width, row, column);
}

/// Two cells with different coordinates have different row-major positions,
/// and each position lies inside the buffer.
pub proof fn lemma_positions_differ(r1: int, c1: int, r2: int, c2: int, width: int, height: int)
    requires
        0 <= r1 < height,
        0 <= r2 < height,
        0 <= c1 < width,
        0 <= c2 < width,
    ensures
        0 <= r1 * width + c1 < width * height,
        r1 * width + c1 == r2 * width + c2 ==> r1 == r2 && c1 == c2,
{
    lemma_row_major(r1, c1, width);
    lemma_row_major(r2, c2, width);
    assert(0 <= r1 * width + c1 < width * height) by (nonlinear_arith)
        requires
            0 <= r1 < height,
            0 <= c1 < width,
    ;
}

/// One step forward on a ring of `n` places.
pub proof fn lemma_mod_next(x: int, n: int)
    requires
        n >= 1,
    ensures
        0 <= x % n < n,
        (x + 1) % n == (if x % n + 1 == n {
            0
        } else {
            x % n + 1
        }),
{
    lemma_mod_bound(x, n);
    lemma_fundamental_div_mod(x, n);
    let q = x / n;
    let m = x % n;
    if m + 1 == n {
        assert(x + 1 == (q + 1) * n + 0) by (nonlinear_arith)
            requires
                x == n * q + m,
                m + 1 == n,
        ;
        lemma_fundamental_div_mod_converse(x + 1, n, q + 1, 0);
    } else {
        assert(x + 1 == q * n + (m + 1)) by (nonlinear_arith)
            requires
                x == n * q + m,
        ;
        lemma_fundamental_div_mod_converse(x + 1, n, q, m + 1);
    }
}

/// One step back on a ring of `n` places, which is `n - 1` steps forward.
pub proof fn lemma_mod_prev(x: int, n: int)
    requires
        n >= 1,
    ensures
        0 <= x % n < n,
        (x + n - 1) % n == (x - 1) % n,
        (x - 1) % n == (if x % n == 0 {
            n - 1
        } else {
            x % n - 1
        }),
{
    lemma_mod_add_multiples_vanish(x - 1, n);
    lemma_mod_next(x - 1, n);
    lemma_mod_bound(x, n);
}

} // verus!
