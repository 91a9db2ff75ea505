//! Racing two futures: the first to be ready wins, the left one first.
use vstd::prelude::*;

verus! {

/// Which of two raced futures finished, with its output.
#[derive(Debug, Clone, Copy, PartialEq, Eq, Structural)]
pub enum Either<T, D> {
    Left(T),
    Right(D),
}

/// One poll of a race, given what polling each side gave (the right one is polled only if
/// the left one is not ready): the left output if there is one, else the right one, else
/// still pending.
pub fn race_poll<T, D>(left: Option<T>, right: Option<D>) -> (r: Option<Either<T, D>>)
    ensures
        left matches Some(l) ==> r == Some(Either::<T, D>::Left(l)),
        left is None ==> (right matches Some(d) ==> r == Some(Either::<T, D>::Right(d))),
        left is None && right is None ==> r is None,
{
    match left {
        Some(l) => Some(Either::Left(l)),
        None => match right {
            Some(d) => Some(Either::Right(d)),
            None => None,
        },
    }
}

} // verus!
