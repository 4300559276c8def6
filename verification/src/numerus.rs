use vstd::prelude::*;

verus! {

/// The scalar arithmetic the engine is built on.
///
/// The methods promise nothing: a scalar may round, saturate or carry special
/// values. The engine's contracts therefore never say what a sum *is*; they
/// say that a value is one that `summa` may return on given operands, through
/// the predicates below. The engine calls the methods on whatever operands
/// its input leads to, so each has to return on every operand.
pub trait Numerus: Copy {
    /// The additive neutral element.
    fn nullum() -> Self;

    /// The multiplicative neutral element.
    fn unum() -> Self;

    /// The scalar that stands for a count.
    fn ex_numero(n: usize) -> Self;

    /// `self + alter`.
    fn summa(self, alter: Self) -> Self;

    /// `self - alter`.
    fn differentia(self, alter: Self) -> Self;

    /// `self * alter`.
    fn productum(self, alter: Self) -> Self;

    /// `self / alter`.
    fn quotiens(self, alter: Self) -> Self;

    /// `-self`.
    fn negatio(self) -> Self;

    /// `e` raised to `self`.
    fn exponentialis(self) -> Self;
}

/// `r` is a value that `Numerus::nullum` may return.
pub open spec fn est_nullum<T: Numerus>(r: T) -> bool {
    call_ensures(T::nullum, (), r)
}

/// `r` is a value that `Numerus::unum` may return.
pub open spec fn est_unum<T: Numerus>(r: T) -> bool {
    call_ensures(T::unum, (), r)
}

/// `r` is a value that `Numerus::ex_numero` may return on `n`.
pub open spec fn est_ex_numero<T: Numerus>(n: usize, r: T) -> bool {
    call_ensures(T::ex_numero, (n,), r)
}

/// `r` is a value that `a.summa(b)` may return.
pub open spec fn est_summa<T: Numerus>(a: T, b: T, r: T) -> bool {
    call_ensures(T::summa, (a, b), r)
}

/// `r` is a value that `a.differentia(b)` may return.
pub open spec fn est_differentia<T: Numerus>(a: T, b: T, r: T) -> bool {
    call_ensures(T::differentia, (a, b), r)
}

/// `r` is a value that `a.productum(b)` may return.
pub open spec fn est_productum<T: Numerus>(a: T, b: T, r: T) -> bool {
    call_ensures(T::productum, (a, b), r)
}

/// `r` is a value that `a.quotiens(b)` may return.
pub open spec fn est_quotiens<T: Numerus>(a: T, b: T, r: T) -> bool {
    call_ensures(T::quotiens, (a, b), r)
}

/// `r` is a value that `a.negatio()` may return.
pub open spec fn est_negatio<T: Numerus>(a: T, r: T) -> bool {
    call_ensures(T::negatio, (a,), r)
}

/// `r` is a value that `a.exponentialis()` may return.
pub open spec fn est_exponentialis<T: Numerus>(a: T, r: T) -> bool {
    call_ensures(T::exponentialis, (a,), r)
}

/// `r` is a sum of the products of the first `n` pairs of `a` and `b`,
/// accumulated from the neutral element in the order of the indices.
pub open spec fn summa_productorum<T: Numerus>(a: Seq<T>, b: Seq<T>, n: nat, r: T) -> bool
    decreases n,
{
    if n == 0 {
        est_nullum(r)
    } else {
        exists|p: T, m: T|
            #![trigger est_summa(p, m, r)]
            summa_productorum(a, b, (n - 1) as nat, p) && est_productum(
                a[n - 1],
                b[n - 1],
                m,
            ) && est_summa(p, m, r)
    }
}

/// Every operation of the scalar is a function: on given operands it has
/// one value only.
pub open spec fn arithmetica_certa<T: Numerus>() -> bool {
    &&& forall|r: T, q: T|
        #![trigger est_nullum(r), est_nullum(q)]
        est_nullum(r) && est_nullum(q) ==> r == q
    &&& forall|r: T, q: T|
        #![trigger est_unum(r), est_unum(q)]
        est_unum(r) && est_unum(q) ==> r == q
    &&& forall|n: usize, r: T, q: T|
        #![trigger est_ex_numero(n, r), est_ex_numero(n, q)]
        est_ex_numero(n, r) && est_ex_numero(n, q) ==> r == q
    &&& forall|a: T, b: T, r: T, q: T|
        #![trigger est_summa(a, b, r), est_summa(a, b, q)]
        est_summa(a, b, r) && est_summa(a, b, q) ==> r == q
    &&& forall|a: T, b: T, r: T, q: T|
        #![trigger est_differentia(a, b, r), est_differentia(a, b, q)]
        est_differentia(a, b, r) && est_differentia(a, b, q) ==> r == q
    &&& forall|a: T, b: T, r: T, q: T|
        #![trigger est_productum(a, b, r), est_productum(a, b, q)]
        est_productum(a, b, r) && est_productum(a, b, q) ==> r == q
    &&& forall|a: T, b: T, r: T, q: T|
        #![trigger est_quotiens(a, b, r), est_quotiens(a, b, q)]
        est_quotiens(a, b, r) && est_quotiens(a, b, q) ==> r == q
    &&& forall|a: T, r: T, q: T|
        #![trigger est_negatio(a, r), est_negatio(a, q)]
        est_negatio(a, r) && est_negatio(a, q) ==> r == q
    &&& forall|a: T, r: T, q: T|
        #![trigger est_exponentialis(a, r), est_exponentialis(a, q)]
        est_exponentialis(a, r) && est_exponentialis(a, q) ==> r == q
}

/// Where the operations of the scalar are functions, a sum of products has
/// one value only.
pub proof fn lex_summa_productorum_certa<T: Numerus>(a: Seq<T>, b: Seq<T>, n: nat, r: T, q: T)
    requires
        arithmetica_certa::<T>(),
        summa_productorum(a, b, n, r),
        summa_productorum(a, b, n, q),
    ensures
        r == q,
    decreases n,
{
    if n > 0 {
        let (p1, m1) = choose|p: T, m: T|
            #![trigger est_summa(p, m, r)]
            summa_productorum(a, b, (n - 1) as nat, p) && est_productum(a[n - 1], b[n - 1], m)
                && est_summa(p, m, r);
        let (p2, m2) = choose|p: T, m: T|
            #![trigger est_summa(p, m, q)]
            summa_productorum(a, b, (n - 1) as nat, p) && est_productum(a[n - 1], b[n - 1], m)
                && est_summa(p, m, q);
        lex_summa_productorum_certa(a, b, (n - 1) as nat, p1, p2);
    }
}

} // verus!
