//! Provide utilities that represent either types which implement the same trait.
//!
//! [`Either`] and [`EitherMap`] differ in what they produce: operations on an [`Either`] give
//! the same output whichever side it holds, while those on an [`EitherMap`] give an
//! [`EitherMap`] of the outputs of each side.
use vstd::prelude::*;
use vstd::std_specs::convert::FromSpecImpl;

verus! {

/// Represent either type that implement the same trait.
#[derive(Debug, Clone, PartialEq, Eq, PartialOrd, Ord, Hash)]
pub enum Either<L, R> {
    /// The left value.
    Left(L),
    /// The right value.
    Right(R),
}

/// Represent either type, whose operations output another either type.
#[derive(Debug, Clone, PartialEq, Eq, PartialOrd, Ord, Hash)]
pub enum EitherMap<L, R> {
    /// The left value.
    Left(L),
    /// The right value.
    Right(R),
}

impl<L, R> From<EitherMap<L, R>> for Either<L, R> {
    /// Holds the same side.
    fn from(value: EitherMap<L, R>) -> (e: Self)
        ensures
            value matches EitherMap::Left(l) ==> e == Either::<L, R>::Left(l),
            value matches EitherMap::Right(r) ==> e == Either::<L, R>::Right(r),
    {
        match value {
            EitherMap::Left(l) => Either::Left(l),
            EitherMap::Right(r) => Either::Right(r),
        }
    }
}

impl<L, R> FromSpecImpl<EitherMap<L, R>> for Either<L, R> {
    open spec fn obeys_from_spec() -> bool {
        false
    }

    open spec fn from_spec(v: EitherMap<L, R>) -> Self {
        arbitrary()
    }
}

impl<L, R> From<Either<L, R>> for EitherMap<L, R> {
    /// Holds the same side.
    fn from(value: Either<L, R>) -> (m: Self)
        ensures
            value matches Either::Left(l) ==> m == EitherMap::<L, R>::Left(l),
            value matches Either::Right(r) ==> m == EitherMap::<L, R>::Right(r),
    {
        match value {
            Either::Left(l) => EitherMap::Left(l),
            Either::Right(r) => EitherMap::Right(r),
        }
    }
}

impl<L, R> FromSpecImpl<Either<L, R>> for EitherMap<L, R> {
    open spec fn obeys_from_spec() -> bool {
        false
    }

    open spec fn from_spec(v: Either<L, R>) -> Self {
        arbitrary()
    }
}

} // verus!
