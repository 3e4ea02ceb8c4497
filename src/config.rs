//! Settings of the window that presents a simulation.
use vstd::prelude::*;

verus! {

/// Size and title of the presentation window.
#[derive(Clone)]
pub struct FunctionalSDLConfig {
    pub width: u32,
    pub height: u32,
    pub title: String,
}

impl Default for FunctionalSDLConfig {
    /// An untitled window of 800 by 600 pixels.
    fn default() -> (r: Self)
        ensures
            r.width == 800,
            r.height == 600,
            r.title@ == Seq::<char>::empty(),
    {
        FunctionalSDLConfig { width: 800, height: 600, title: String::new() }
    }
}

} // verus!
