//! A placeholder controller endpoint.

use vstd::prelude::*;

verus! {

/// A controller that stands in where a real HCI transport is not wired up,
/// for examples and tests that only exercise the engine's logic.
pub struct MockController {}

impl MockController {
    /// Create a placeholder controller.
    pub fn new() -> (r: MockController) {
        MockController {  }
    }
}

} // verus!
