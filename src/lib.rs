use vstd::prelude::*;

/// Constant-time selection and comparison of machine words.
pub mod ct;
/// The prime field, its constants and its constant-time exponentiation.
pub mod field;
/// The algebraic laws the field and its constants satisfy.
pub mod laws;
/// Square roots: the Tonelli-Shanks exponent and the ratio square root.
pub mod sqrt;
/// The field, square-root and group interfaces that generic code is written against.
pub mod traits;

verus! {

/// A transparent wrapper around a field or group type.
pub struct Compat<T>(pub T);

} // verus!
