use rand::distributions::{Distribution, Standard};
use rand::Rng;
use vstd::prelude::*;

verus! {

/// One draw of `rand::Rng::gen` from the generator that `rand::thread_rng`
/// hands out, in the `Standard` distribution of `T`. Nothing is claimed of the
/// value: it differs from call to call. The generator takes its seed from the
/// operating system, when a thread first uses it and again after every 64 KiB
/// drawn and after a fork; it panics if the operating system gives no seed,
/// at the first use or at a later one, and if the handler that counts forks
/// cannot be registered.
#[verifier::external_body]
fn alea<T>() -> (r: T) where Standard: Distribution<T> {
    rand::thread_rng().gen()
}

/// `r` is a value that one random draw gave.
pub closed spec fn est_fortuitum<T>(r: T) -> bool where Standard: Distribution<T> {
    call_ensures(alea::<T>, (), r)
}

/// One random draw in the standard distribution of `T`.
pub(crate) fn fortuitum<T>() -> (r: T) where Standard: Distribution<T>
    ensures
        est_fortuitum(r),
{
    alea()
}

} // verus!
