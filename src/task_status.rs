use vstd::prelude::*;

verus! {

/// Lifecycle state of one task slot.
///
/// `Uninit -> Ready -> Running -> (Ready | Exit)`; `Exit` is terminal.
#[derive(Clone, Copy, Debug, PartialEq, Eq, Structural)]
pub enum TaskStatus {
    Uninit,
    Ready,
    Running,
    Exit,
}

} // verus!
