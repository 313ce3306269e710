//! The messages exchanged between the host and the sandboxed runtime
//! worker pool.

use vstd::prelude::*;

verus! {

/// A worker's reply: the evaluation output, or the error text.
#[derive(Debug, PartialEq, Eq)]
pub enum ClientMessage {
    EvalResponse(Result<String, String>),
}

/// The optimization level requested of the sandboxed runtime.
#[derive(Debug, Clone, Copy, PartialEq, Eq, Structural)]
pub enum Opt {
    Off,
    Basic,
    Aggressive,
}

/// A request to the worker pool: evaluate code, or dump its intermediate
/// representation.
#[derive(Debug, PartialEq, Eq)]
pub enum HostMessage {
    Eval(String, Opt),
    DumpIr(String, Opt),
}

} // verus!
