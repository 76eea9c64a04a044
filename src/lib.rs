use vstd::prelude::*;

mod kind;
pub mod laws;
pub mod registry;

pub use registry::{handlers_of, positions_of, HandlerRegistry};

verus! {

/// An event kind: a marker type bound to exactly one payload shape.
pub trait Event {
    type Data: Clone + Send + Sync + 'static;
}

} // verus!
