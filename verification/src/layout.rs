//! Places in row-major arrays.

use vstd::arithmetic::div_mod;
use vstd::arithmetic::mul;
use vstd::prelude::*;

verus! {

/// The place of row `a` and column `b` where a row has `nb` columns.
pub open spec fn at2(a: int, b: int, nb: int) -> int {
    a * nb + b
}

/// The place of `(a, b, c)` in an array of two inner dimensions `nb` and `nc`.
pub open spec fn at3(a: int, b: int, c: int, nb: int, nc: int) -> int {
    at2(at2(a, b, nb), c, nc)
}

/// A place tells its row and its column.
pub proof fn lemma_at2(a: int, b: int, nb: int)
    requires
        0 <= a,
        0 <= b < nb,
    ensures
        at2(a, b, nb) >= 0,
        at2(a, b, nb) / nb == a,
        at2(a, b, nb) % nb == b,
{
    mul::lemma_mul_nonnegative(a, nb);
    div_mod::lemma_fundamental_div_mod_converse(a * nb + b, nb, a, b);
}

/// A place within `na` rows.
pub proof fn lemma_at2_bound(a: int, b: int, na: int, nb: int)
    requires
        0 <= a < na,
        0 <= b < nb,
    ensures
        0 <= at2(a, b, nb) < na * nb,
        at2(a, b, nb) + 1 <= (a + 1) * nb <= na * nb,
{
    assert(a * nb >= 0 && (a + 1) * nb <= na * nb && (a + 1) * nb == a * nb + nb) by (nonlinear_arith)
        requires
            0 <= a < na,
            0 <= b < nb,
    ;
}

/// A place is that of its row and its column.
pub proof fn lemma_place(q: int, na: int, nb: int)
    requires
        0 <= q < na * nb,
        0 < nb,
    ensures
        0 <= q / nb < na,
        0 <= q % nb < nb,
        at2(q / nb, q % nb, nb) == q,
{
    div_mod::lemma_fundamental_div_mod(q, nb);
    mul::lemma_mul_is_commutative(nb, q / nb);
    div_mod::lemma_div_pos_is_pos(q, nb);
    assert(q / nb < na) by (nonlinear_arith)
        requires
            q < na * nb,
            (q / nb) * nb <= q,
            0 < nb,
    ;
}

/// A place tells its three parts.
pub proof fn lemma_at3(a: int, b: int, c: int, nb: int, nc: int)
    requires
        0 <= a,
        0 <= b < nb,
        0 <= c < nc,
    ensures
        at3(a, b, c, nb, nc) >= 0,
        at3(a, b, c, nb, nc) % nc == c,
        (at3(a, b, c, nb, nc) / nc) % nb == b,
        (at3(a, b, c, nb, nc) / nc) / nb == a,
        at3(a, b, c, nb, nc) == a * (nb * nc) + b * nc + c,
{
    lemma_at2(a, b, nb);
    lemma_at2(at2(a, b, nb), c, nc);
    assert((a * nb + b) * nc == a * (nb * nc) + b * nc) by (nonlinear_arith);
}

/// A place within `na` outer rows.
pub proof fn lemma_at3_bound(a: int, b: int, c: int, na: int, nb: int, nc: int)
    requires
        0 <= a < na,
        0 <= b < nb,
        0 <= c < nc,
    ensures
        0 <= at3(a, b, c, nb, nc) < na * nb * nc,
{
    lemma_at2_bound(a, b, na, nb);
    lemma_at2_bound(at2(a, b, nb), c, na * nb, nc);
}

/// A place is that of its three parts.
pub proof fn lemma_place3(q: int, na: int, nb: int, nc: int)
    requires
        0 <= q < na * nb * nc,
        0 < nb,
        0 < nc,
    ensures
        0 <= (q / nc) / nb < na,
        0 <= (q / nc) % nb < nb,
        0 <= q % nc < nc,
        at3((q / nc) / nb, (q / nc) % nb, q % nc, nb, nc) == q,
{
    lemma_place(q, na * nb, nc);
    lemma_place(q / nc, na, nb);
}

/// The array with its first two dimensions, `na` and `nb`, exchanged.
pub open spec fn exchanged<T>(vals: Seq<T>, na: int, nb: int, nc: int) -> Seq<T> {
    Seq::new((na * nb * nc) as nat, |q: int| vals[at3((q / nc) % na, (q / nc) / na, q % nc, nb, nc)])
}

/// Exchanging the dimensions twice gives the array back.
pub proof fn law_exchange_twice<T>(vals: Seq<T>, na: int, nb: int, nc: int)
    requires
        0 <= na,
        0 <= nb,
        0 <= nc,
        vals.len() == na * nb * nc,
    ensures
        exchanged(exchanged(vals, na, nb, nc), nb, na, nc) == vals,
{
    let once = exchanged(vals, na, nb, nc);
    let twice = exchanged(once, nb, na, nc);
    assert(nb * na * nc == na * nb * nc) by (nonlinear_arith);
    assert forall|q: int| 0 <= q < vals.len() implies twice[q] == vals[q] by {
        assert(na > 0 && nb > 0 && nc > 0) by (nonlinear_arith)
            requires
                0 <= na,
                0 <= nb,
                0 <= nc,
                0 <= q < na * nb * nc,
        ;
        lemma_place3(q, na, nb, nc);
        let a = (q / nc) / nb;
        let b = (q / nc) % nb;
        let c = q % nc;
        lemma_at3_bound(b, a, c, nb, na, nc);
        let p = at3(b, a, c, na, nc);
        lemma_at3(b, a, c, na, nc);
        assert(twice[q] == once[p]);
        assert(once[p] == vals[at3(a, b, c, nb, nc)]);
    }
    assert(twice =~= vals);
}

/// The array with its first two dimensions, `na` and `nb`, exchanged.
pub fn exchange<T: Copy>(vals: &[T], na: usize, nb: usize, nc: usize) -> (r: Vec<T>)
    requires
        na * nb * nc <= vals@.len(),
    ensures
        r@ == exchanged(vals@, na as int, nb as int, nc as int),
{
    let total: usize = vals.len();
    let mut out: Vec<T> = Vec::new();
    let mut b: usize = 0;
    assert(0 * na * nc == 0) by (nonlinear_arith);
    while b < nb
        invariant
            b <= nb,
            na * nb * nc <= total == vals@.len(),
            out@.len() == b * na * nc,
            forall|q: int|
                0 <= q < out@.len() ==> #[trigger] out@[q] == exchanged(vals@, na as int, nb as int, nc as int)[q],
        decreases nb - b,
    {
        let mut a: usize = 0;
        while a < na
            invariant
                a <= na,
                b < nb,
                na * nb * nc <= total == vals@.len(),
                out@.len() == (b * na + a) * nc,
                forall|q: int|
                    0 <= q < out@.len() ==> #[trigger] out@[q] == exchanged(
                        vals@,
                        na as int,
                        nb as int,
                        nc as int,
                    )[q],
            decreases na - a,
        {
            let mut c: usize = 0;
            while c < nc
                invariant
                    a < na,
                    b < nb,
                    c <= nc,
                    na * nb * nc <= total == vals@.len(),
                    out@.len() == (b * na + a) * nc + c,
                    forall|q: int|
                        0 <= q < out@.len() ==> #[trigger] out@[q] == exchanged(
                            vals@,
                            na as int,
                            nb as int,
                            nc as int,
                        )[q],
                decreases nc - c,
            {
                let ghost q = out@.len() as int;
                proof {
                    lemma_at3_bound(a as int, b as int, c as int, na as int, nb as int, nc as int);
                    lemma_at3_bound(b as int, a as int, c as int, nb as int, na as int, nc as int);
                    lemma_at3(b as int, a as int, c as int, na as int, nc as int);
                    lemma_at2_bound(a as int, b as int, na as int, nb as int);
                    assert(a * nb >= 0 && (a * nb + b) * nc >= a * nb + b && (a * nb + b) >= a * nb) by (nonlinear_arith)
                        requires
                            nc >= 1,
                            a >= 0,
                            nb >= 0,
                            b >= 0,
                    ;
                    assert(nb * na * nc == na * nb * nc) by (nonlinear_arith);
                }
                let at: usize = (a * nb + b) * nc + c;
                out.push(vals[at]);
                c += 1;
            }
            a += 1;
            assert((b * na + a) * nc == (b * na + (a - 1)) * nc + nc) by (nonlinear_arith);
        }
        b += 1;
        assert(((b - 1) * na + na) * nc == b * na * nc) by (nonlinear_arith);
    }
    assert(nb * na * nc == na * nb * nc) by (nonlinear_arith);
    assert(out@ =~= exchanged(vals@, na as int, nb as int, nc as int));
    out
}

/// Exchanging the first two axes moves what stands at `a`, `b`, `c` to `b`, `a`, `c`.
pub proof fn law_exchange_moves<T>(vals: Seq<T>, na: int, nb: int, nc: int, a: int, b: int, c: int)
    requires
        0 <= a < na,
        0 <= b < nb,
        0 <= c < nc,
    ensures
        exchanged(vals, na, nb, nc).len() == na * nb * nc,
        exchanged(vals, na, nb, nc)[(b * na + a) * nc + c] == vals[(a * nb + b) * nc + c],
{
    lemma_at3(b, a, c, na, nc);
    lemma_at3_bound(b, a, c, nb, na, nc);
    assert(nb * na * nc == na * nb * nc) by (nonlinear_arith);
}

} // verus!
