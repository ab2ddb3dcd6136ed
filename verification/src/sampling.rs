use vstd::prelude::*;

verus! {

/// The source coordinate that destination coordinate `c` reads when `dst`
/// cells are laid over `src` samples: `c * src / dst`, truncated.
pub open spec fn source_coordinate(c: int, src: int, dst: int) -> int {
    c * src / dst
}

/// The source coordinate for destination coordinate `c`, nearest
/// neighbour towards zero.
pub fn scale_coordinate(c: usize, src: usize, dst: usize) -> (s: usize)
    requires
        c < dst,
    ensures
        s == source_coordinate(c as int, src as int, dst as int),
        src > 0 ==> s < src,
{
    proof {
        lemma_source_coordinate_in_range(c as int, src as int, dst as int);
    }
    assert(c * src <= u128::MAX) by (nonlinear_arith)
        requires
            c <= u64::MAX,
            src <= u64::MAX,
    ;
    let product: u128 = (c as u128) * (src as u128);
    (product / (dst as u128)) as usize
}

/// A destination coordinate inside its grid reads a source coordinate
/// inside the source, and the first one reads the first.
pub proof fn lemma_source_coordinate_in_range(c: int, src: int, dst: int)
    requires
        0 <= c < dst,
        0 <= src,
    ensures
        0 <= source_coordinate(c, src, dst) <= src,
        src > 0 ==> source_coordinate(c, src, dst) < src,
        source_coordinate(0, src, dst) == 0,
{
    assert(0 <= c * src) by (nonlinear_arith)
        requires
            0 <= c,
            0 <= src,
    ;
    assert(c * src <= (dst - 1) * src) by (nonlinear_arith)
        requires
            c <= dst - 1,
            0 <= src,
    ;
    assert((dst - 1) * src == dst * src - src) by (nonlinear_arith);
    vstd::arithmetic::div_mod::lemma_div_is_ordered(c * src, dst * src - src, dst);
    vstd::arithmetic::div_mod::lemma_div_is_ordered(0, c * src, dst);
    if src > 0 {
        assert((dst * src - src) / dst < src) by (nonlinear_arith)
            requires
                dst > 0,
                src > 0,
        ;
    } else {
        assert(c * src == 0) by (nonlinear_arith)
            requires
                src == 0,
        ;
    }
    assert(0 * src == 0);
}

/// A later destination coordinate never reads an earlier source
/// coordinate.
pub proof fn lemma_source_coordinate_monotonic(c1: int, c2: int, src: int, dst: int)
    requires
        0 <= c1 <= c2,
        0 <= src,
        0 < dst,
    ensures
        source_coordinate(c1, src, dst) <= source_coordinate(c2, src, dst),
{
    assert(c1 * src <= c2 * src) by (nonlinear_arith)
        requires
            c1 <= c2,
            0 <= src,
    ;
    vstd::arithmetic::div_mod::lemma_div_is_ordered(c1 * src, c2 * src, dst);
}

/// Where source and destination have the same size, each coordinate reads
/// itself.
pub proof fn lemma_source_coordinate_identity(c: int, n: int)
    requires
        0 <= c,
        0 < n,
    ensures
        source_coordinate(c, n, n) == c,
{
    assert(c * n / n == c) by (nonlinear_arith)
        requires
            0 < n,
    ;
}

} // verus!
