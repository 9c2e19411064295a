//! Why a scene or camera description is refused.

use vstd::prelude::*;

verus! {

/// A description that cannot be rendered.  Such a description is refused
/// when it is given, so that no pixel is ever computed from it.
#[derive(Clone, Copy, Debug, PartialEq, Eq, Structural)]
pub enum ConfigError {
    /// The image has no columns or no rows.
    ZeroDimension,
    /// The field of view is not strictly between zero and a half turn.
    InvalidFieldOfView,
    /// A sphere's radius is not a finite number above zero.
    InvalidRadius,
    /// A triangle's corners lie on one line, or are not finite.
    DegenerateTriangle,
}

} // verus!
