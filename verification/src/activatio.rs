use crate::numerus::{
    arithmetica_certa, est_differentia, est_exponentialis, est_negatio, est_productum,
    est_quotiens, est_summa, est_unum, Numerus,
};
use vstd::prelude::*;

verus! {

/// `u`, `n`, `e` and `d` are the intermediate values of one evaluation of
/// `1 / (1 + e^-x)` that ends in `r`.
pub open spec fn gradus_sigmoidis<T: Numerus>(x: T, u: T, n: T, e: T, d: T, r: T) -> bool {
    &&& est_unum(u)
    &&& est_negatio(x, n)
    &&& est_exponentialis(n, e)
    &&& est_summa(u, e, d)
    &&& est_quotiens(u, d, r)
}

/// `r` is a value of the logistic function `1 / (1 + e^-x)` at `x`.
pub open spec fn est_sigmoide<T: Numerus>(x: T, r: T) -> bool {
    exists|u: T, n: T, e: T, d: T| gradus_sigmoidis(x, u, n, e, d, r)
}

/// `r` is a value of the logistic function at some point.
pub open spec fn est_valor_sigmoidis<T: Numerus>(r: T) -> bool {
    exists|x: T| est_sigmoide(x, r)
}

/// `s`, `u` and `c` are the intermediate values of one evaluation of
/// `s * (1 - s)`, with `s` the logistic function at `x`, that ends in `r`.
pub open spec fn gradus_derivatae<T: Numerus>(x: T, s: T, u: T, c: T, r: T) -> bool {
    &&& est_sigmoide(x, s)
    &&& est_unum(u)
    &&& est_differentia(u, s, c)
    &&& est_productum(s, c, r)
}

/// `r` is a value of the derivative of the logistic function at `x`:
/// `s * (1 - s)` with `s` the logistic function at `x`.
pub open spec fn est_derivata_sigmoidis<T: Numerus>(x: T, r: T) -> bool {
    exists|s: T, u: T, c: T| gradus_derivatae(x, s, u, c, r)
}

/// The logistic function `1 / (1 + e^-x)`.
pub fn sigmoide<T: Numerus>(x: T) -> (r: T)
    ensures
        est_sigmoide(x, r),
{
    let u = T::unum();
    let n = x.negatio();
    let e = n.exponentialis();
    let d = u.summa(e);
    let r = u.quotiens(d);
    assert(gradus_sigmoidis(x, u, n, e, d, r));
    r
}

/// The derivative of the logistic function at `x`: `s * (1 - s)` with `s`
/// the logistic function at `x`.
pub fn derivata_sigmoidis<T: Numerus>(x: T) -> (r: T)
    ensures
        est_derivata_sigmoidis(x, r),
{
    let s = sigmoide(x);
    let u = T::unum();
    let c = u.differentia(s);
    let r = s.productum(c);
    assert(gradus_derivatae(x, s, u, c, r));
    r
}

/// Where the operations of the scalar are functions, so is the logistic
/// function.
pub proof fn lex_sigmoide_certa<T: Numerus>(x: T, r: T, q: T)
    requires
        arithmetica_certa::<T>(),
        est_sigmoide(x, r),
        est_sigmoide(x, q),
    ensures
        r == q,
{
    let (u1, n1, e1, d1) = choose|u: T, n: T, e: T, d: T| gradus_sigmoidis(x, u, n, e, d, r);
    let (u2, n2, e2, d2) = choose|u: T, n: T, e: T, d: T| gradus_sigmoidis(x, u, n, e, d, q);
    assert(u1 == u2);
    assert(n1 == n2);
    assert(e1 == e2);
    assert(d1 == d2);
}

/// Where the operations of the scalar are functions, so is the derivative of
/// the logistic function.
pub proof fn lex_derivata_certa<T: Numerus>(x: T, r: T, q: T)
    requires
        arithmetica_certa::<T>(),
        est_derivata_sigmoidis(x, r),
        est_derivata_sigmoidis(x, q),
    ensures
        r == q,
{
    let (s1, u1, c1) = choose|s: T, u: T, c: T| gradus_derivatae(x, s, u, c, r);
    let (s2, u2, c2) = choose|s: T, u: T, c: T| gradus_derivatae(x, s, u, c, q);
    lex_sigmoide_certa(x, s1, s2);
    assert(u1 == u2);
    assert(c1 == c2);
}

} // verus!
