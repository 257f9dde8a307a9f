use vstd::prelude::*;

pub mod text;
pub mod numbers;
pub mod calendar;
pub mod errors;
pub mod ds;
pub mod mimo;
pub mod windows;
pub mod preferences;

verus! {
}
