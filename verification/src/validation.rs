//! The state that validating a module would carry, and its errors.
use vstd::prelude::*;

verus! {

/// The context of validation: the kinds of item in scope.
#[derive(Debug)]
pub struct Context {
    pub types: (),
    pub funcs: (),
    pub tables: (),
    pub mems: (),
    pub globals: (),
    pub locals: (),
    pub labels: (),
    pub ret: (),
}

/// Why a module is not valid. No check is made yet, so nothing returns it.
#[derive(Debug, Clone)]
pub enum ValidateError {
    Invalid,
}

} // verus!
