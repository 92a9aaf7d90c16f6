use vstd::prelude::*;

verus! {

/// How many frames the opening animation of a window lasts.
pub const OPENING_FRAMES: usize = 90;

/// A window is opening (on the given frame of its animation) or open.
#[derive(PartialEq, Eq, Structural, Clone, Copy, Debug)]
pub enum WindowAnimState {
    Opening(usize),
    Open,
}

/// The animation state one frame later.
pub open spec fn next_anim(s: WindowAnimState) -> WindowAnimState {
    match s {
        WindowAnimState::Opening(t) => if t + 1 >= OPENING_FRAMES {
            WindowAnimState::Open
        } else {
            WindowAnimState::Opening((t + 1) as usize)
        },
        WindowAnimState::Open => WindowAnimState::Open,
    }
}

/// A window on the desktop: where it stands, its size and where it stood
/// before it was maximized, and the application it shows.
pub struct Window<A> {
    pub x: usize,
    pub y: usize,
    pub width: usize,
    pub height: usize,
    pub app: A,
    pub is_maximized: bool,
    pub orig_x: usize,
    pub orig_y: usize,
    pub orig_w: usize,
    pub orig_h: usize,
    pub anim_state: WindowAnimState,
}

impl<A> Window<A> {
    /// A window that starts its opening animation.
    pub fn new(app: A, x: usize, y: usize, width: usize, height: usize) -> (w: Self)
        ensures
            w.app == app,
            w.x == x && w.y == y && w.width == width && w.height == height,
            !w.is_maximized,
            w.orig_x == x && w.orig_y == y && w.orig_w == width && w.orig_h == height,
            w.anim_state == WindowAnimState::Opening(0),
    {
        Window {
            x,
            y,
            width,
            height,
            app,
            is_maximized: false,
            orig_x: x,
            orig_y: y,
            orig_w: width,
            orig_h: height,
            anim_state: WindowAnimState::Opening(0),
        }
    }

    /// Advances the opening animation by one frame.
    pub fn tick_animation(&mut self)
        ensures
            final(self).anim_state == next_anim(old(self).anim_state),
            final(self).x == old(self).x && final(self).y == old(self).y,
            final(self).width == old(self).width && final(self).height == old(self).height,
            final(self).app == old(self).app,
            final(self).is_maximized == old(self).is_maximized,
            final(self).orig_x == old(self).orig_x && final(self).orig_y == old(self).orig_y,
            final(self).orig_w == old(self).orig_w && final(self).orig_h == old(self).orig_h,
    {
        if let WindowAnimState::Opening(tick) = self.anim_state {
            if tick >= OPENING_FRAMES - 1 {
                self.anim_state = WindowAnimState::Open;
            } else {
                self.anim_state = WindowAnimState::Opening(tick + 1);
            }
        }
    }
}

/// A new window is open after exactly `OPENING_FRAMES` frames and not before.
pub proof fn lemma_opening_takes_frames(k: nat)
    ensures
        anim_after(WindowAnimState::Opening(0), k) == (if k >= OPENING_FRAMES {
            WindowAnimState::Open
        } else {
            WindowAnimState::Opening(k as usize)
        }),
    decreases k,
{
    if k > 0 {
        lemma_opening_takes_frames((k - 1) as nat);
    }
}

/// The animation state after `k` frames.
pub open spec fn anim_after(s: WindowAnimState, k: nat) -> WindowAnimState
    decreases k,
{
    if k == 0 { s } else { next_anim(anim_after(s, (k - 1) as nat)) }
}

} // verus!
