//! The media player of the dashboard.
use vstd::prelude::*;

verus! {

/// A media player shown on the dashboard.
pub trait Player {
}

} // verus!
