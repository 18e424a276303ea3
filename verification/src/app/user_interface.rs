use vstd::prelude::*;

verus! {

/// How a rectangle is drawn.
#[allow(dead_code)]
#[derive(Clone, Copy)]
pub enum Style {
    Fill,
    Stroke,
}

} // verus!
