//! A block-segmented stack whose slots keep their address while the stack grows, and the
//! handles through which nested scopes push, look at and pop its elements.

pub mod context;
pub mod ext;
pub mod handle;
pub mod laws;
pub mod layout;
pub mod model;

pub use context::Context;
pub use ext::ContextExt;
pub use handle::{Item, StackGuard, StackPin};
pub use layout::Slot;
