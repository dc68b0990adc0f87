//! Reference-counted string slices.
//!
//! A `String` is adopted by an `Rc<String>` or an `Arc<String>`; slices of it
//! share that owner and address a byte range of its buffer, so that slicing
//! copies no character data and the buffer lives as long as any slice does.

pub mod arc_str;
pub mod error;
pub mod laws;
pub mod rc_str;
mod span;
pub mod traits;
pub mod window;

pub use arc_str::ArcStr;
pub use error::BoundaryViolation;
pub use rc_str::RcStr;
pub use traits::{IntoRc, RcStrExt, RcStringExt};
pub use window::Window;
