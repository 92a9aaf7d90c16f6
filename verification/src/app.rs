use vstd::prelude::*;

verus! {

/// An input event delivered to the focused application.
#[derive(PartialEq, Eq, Structural, Clone, Copy, Debug)]
pub enum Event {
    KeyPress(char),
    KeyCode(u8),
    MouseClick { x: usize, y: usize },
    MouseScroll { delta: i32 },
    MouseLongPress { x: usize, y: usize },
}

/// A color as red, green and blue intensities.
pub type Rgb = (u8, u8, u8);

/// `a + b`, held to the range of `isize`.
pub open spec fn sat_isize(v: int) -> int {
    if v > isize::MAX { isize::MAX as int } else if v < isize::MIN { isize::MIN as int } else { v }
}

/// `isize::saturating_add`.
pub fn saturating_add_isize(a: isize, b: isize) -> (r: isize)
    ensures
        r == sat_isize(a + b),
{
    let s: i128 = (a as i128) + (b as i128);
    if s > (isize::MAX as i128) {
        isize::MAX
    } else if s < (isize::MIN as i128) {
        isize::MIN
    } else {
        s as isize
    }
}

} // verus!
