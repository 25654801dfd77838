//! How the effect of a generating function is described.

use vstd::prelude::*;

verus! {

/// Why a shader cannot be written.
#[derive(Debug, PartialEq, Eq)]
pub enum Error {
    /// The module needs a capability that it may not declare.
    MissingCapability(spirv::Capability),
    /// The shader uses something that the generator does not support.
    FeatureNotImplemented(&'static str),
    /// The shader is not valid.
    Validation(&'static str),
}

/// What a generating function does: the state that it leaves and the result
/// that it returns.
///
/// `None` stands for an input that a function does not answer: a handle that
/// is out of range, an operand whose value was never generated, an operator
/// that has no meaning for its operands, or a module that has run out of ids.
///
/// The spec functions that give a `Run` are named after what they emit. Most
/// are opaque, for the sake of the proofs that only pass them on: `reveal` the
/// ones whose meaning a proof is about.
pub type Run<S, T> = Option<(S, Result<T, Error>)>;

} // verus!
