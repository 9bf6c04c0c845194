//! Machinery to evaluate type-level `or` expressions over padding requests.
use vstd::prelude::*;
use core::marker::PhantomData;

verus! {

/// Truthiness of a type.
pub trait Truthiness {
    /// [`True`] or [`False`].
    type IsTruthy;
}

/// This type is truthy.
pub struct True;

/// This type is falsy.
pub struct False;

/// A typed expression.
pub trait Eval {
    /// The resulting type of evaluating this typed expression.
    type Output;
}

impl Eval for True {
    type Output = True;
}

impl Eval for False {
    type Output = False;
}

/// Evaluates an `or` between two truth types.
pub trait TypeOr<R> {
    /// The output of the `or`.
    type Output;
}

impl TypeOr<True> for True {
    type Output = <True as Eval>::Output;
}

impl TypeOr<False> for True {
    type Output = <True as Eval>::Output;
}

impl TypeOr<True> for False {
    type Output = <True as Eval>::Output;
}

impl TypeOr<False> for False {
    type Output = <False as Eval>::Output;
}

/// Forwards the evaluation of one of two types.
pub trait Select<A, B> {
    /// The output of this evaluation.
    type Output;
}

impl<A: Eval, B> Select<A, B> for True {
    type Output = <A as Eval>::Output;
}

impl<A, B: Eval> Select<A, B> for False {
    type Output = <B as Eval>::Output;
}

/// Evaluates to the truthy one of its two operands (the first one if both are).
pub struct Or<A, B>(PhantomData<(A, B)>);

impl<A, B> Truthiness for Or<A, B> where
    A: Truthiness,
    B: Truthiness,
    A::IsTruthy: TypeOr<B::IsTruthy>,
 {
    type IsTruthy = <A::IsTruthy as TypeOr<B::IsTruthy>>::Output;
}

impl<A, B> Eval for Or<A, B> where
    A: Truthiness,
    B: Truthiness,
    <A as Truthiness>::IsTruthy: Select<A, B>,
 {
    type Output = <<A as Truthiness>::IsTruthy as Select<A, B>>::Output;
}

} // verus!
