use vstd::prelude::*;

verus! {

/// A digital input whose last two sampled states are kept, so that edges
/// (the moment it goes down or up) can be detected.
pub struct Button {
    pressed: bool,
    previous: bool,
}

impl Button {
    /// Whether the button is down at the latest sample.
    pub closed spec fn spec_pressed(&self) -> bool {
        self.pressed
    }

    /// Whether the button was down at the sample before the latest one.
    pub closed spec fn spec_previous(&self) -> bool {
        self.previous
    }

    /// A button that has never been pressed.
    pub fn new() -> (b: Self)
        ensures
            !b.spec_pressed(),
            !b.spec_previous(),
    {
        Self { pressed: false, previous: false }
    }

    /// Records a new sample: the current state becomes the previous one.
    pub fn update(&mut self, pressed: bool)
        ensures
            final(self).spec_previous() == old(self).spec_pressed(),
            final(self).spec_pressed() == pressed,
    {
        self.previous = self.pressed;
        self.pressed = pressed;
    }

    pub fn pressed(&self) -> (r: bool)
        ensures
            r == self.spec_pressed(),
    {
        self.pressed
    }

    /// True exactly when the button went from up to down at the latest sample.
    pub fn rising(&self) -> (r: bool)
        ensures
            r == (!self.spec_previous() && self.spec_pressed()),
    {
        !self.previous && self.pressed
    }

    /// True exactly when the button went from down to up at the latest sample.
    pub fn falling(&self) -> (r: bool)
        ensures
            r == (self.spec_previous() && !self.spec_pressed()),
    {
        self.previous && !self.pressed
    }
}

} // verus!
