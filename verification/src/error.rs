//! Errors of the scene and of the services it runs on.
use vstd::prelude::*;

verus! {

/// An error of the window service.  `Busy` is the only one the scene tells
/// apart; `Other` carries the code of any error that has no name here.
#[derive(Debug, Clone, Copy, PartialEq, Eq, Structural)]
pub enum Ui4Error {
    Busy,
    NotFound,
    InvalidState,
    Ui4,
    Other(i32),
}

/// Why the scene stopped: a broken contract, or the service call that failed
/// together with that service's error.
#[derive(Debug, Clone, Copy, PartialEq, Eq)]
pub enum GeometryProbeError {
    Contract,
    Ui4(&'static str, Ui4Error),
    Vgpu(&'static str, i32),
}

} // verus!
