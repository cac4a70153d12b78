//! The node that the two-phase sweeps work on.

use crate::gaussian::variable::GaussianVariable;
use vstd::prelude::*;

verus! {

/// A named row of scalars with a `fixed` flag.
pub type Variable<S> = GaussianVariable<S>;

} // verus!
