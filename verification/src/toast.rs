//! Toast notifications: the toast's colour, animation and lifecycle phase,
//! and the builder that shapes one before it is shown.
//!
//! A toast's description is a renderable payload of any type `D`; the state
//! here never reads it.

use vstd::prelude::*;

verus! {

/// The background colour of a toast.
#[derive(Clone, Copy, PartialEq, Eq, Structural, Debug)]
pub enum ToastColor {
    Neutral,
    Primary,
    Secondary,
    Destructive,
    Success,
}

impl ToastColor {
    /// The colour's attribute label.
    pub fn as_str(&self) -> (r: &'static str)
        ensures
            *self is Neutral ==> r@ == "default"@,
            *self is Primary ==> r@ == "primary"@,
            *self is Secondary ==> r@ == "secondary"@,
            *self is Destructive ==> r@ == "destructive"@,
            *self is Success ==> r@ == "success"@,
    {
        match self {
            ToastColor::Neutral => "default",
            ToastColor::Primary => "primary",
            ToastColor::Secondary => "secondary",
            ToastColor::Destructive => "destructive",
            ToastColor::Success => "success",
        }
    }
}

impl Default for ToastColor {
    /// The default colour is the neutral one.
    fn default() -> (r: Self)
        ensures
            r is Neutral,
    {
        ToastColor::Neutral
    }
}

/// How much a toast animates as it appears and leaves.
#[derive(Clone, Copy, PartialEq, Eq, Structural, Debug)]
pub enum ToastAnimation {
    Off,
    Light,
    Full,
}

impl ToastAnimation {
    /// The animation's attribute label.
    pub fn as_str(&self) -> (r: &'static str)
        ensures
            *self is Off ==> r@ == "none"@,
            *self is Light ==> r@ == "light"@,
            *self is Full ==> r@ == "full"@,
    {
        match self {
            ToastAnimation::Off => "none",
            ToastAnimation::Light => "light",
            ToastAnimation::Full => "full",
        }
    }
}

impl Default for ToastAnimation {
    /// Toasts animate fully by default.
    fn default() -> (r: Self)
        ensures
            r is Full,
    {
        ToastAnimation::Full
    }
}

/// Where a toast stands in its life: appearing, shown, or leaving. A closed
/// toast no longer exists, so no phase stands for it.
#[derive(Clone, Copy, PartialEq, Eq, Structural, Debug)]
pub enum ToastState {
    Opening,
    Open,
    Closing,
}

impl ToastState {
    /// The phase's attribute label.
    pub fn as_str(&self) -> (r: &'static str)
        ensures
            *self is Opening ==> r@ == "opening"@,
            *self is Open ==> r@ == "open"@,
            *self is Closing ==> r@ == "closing"@,
    {
        match self {
            ToastState::Opening => "opening",
            ToastState::Open => "open",
            ToastState::Closing => "closing",
        }
    }
}

impl Default for ToastState {
    /// A toast starts in its opening phase.
    fn default() -> (r: Self)
        ensures
            r is Opening,
    {
        ToastState::Opening
    }
}

/// One toast: its identity, what it shows, how it looks, and how long it
/// stays. Shaped builder-style before being handed to the toaster.
pub struct Toast<D> {
    pub id: String,
    pub title: String,
    pub description: D,
    pub duration_in_ms: u32,
    pub is_closable: bool,
    pub color: ToastColor,
    pub animation: ToastAnimation,
    pub state: ToastState,
}

impl<D> Toast<D> {
    /// A fresh toast with the given id and description: untitled, neutral,
    /// fully animated, closable, shown for six seconds.
    pub fn new(id: String, description: D) -> (r: Self)
        ensures
            r.id == id,
            r.title@ == Seq::<char>::empty(),
            r.description == description,
            r.duration_in_ms == 6000,
            r.is_closable == true,
            r.color is Neutral,
            r.animation is Full,
            r.state is Opening,
    {
        Toast {
            id,
            title: String::new(),
            description,
            duration_in_ms: 6000,
            is_closable: true,
            color: ToastColor::Neutral,
            animation: ToastAnimation::Full,
            state: ToastState::Opening,
        }
    }

    /// Sets the title (builder style).
    pub fn title(self, title: String) -> (r: Self)
        ensures
            r == (Toast { title, ..self }),
    {
        Toast { title, ..self }
    }

    /// Sets the description (builder style).
    pub fn description(self, description: D) -> (r: Self)
        ensures
            r == (Toast { description, ..self }),
    {
        Toast { description, ..self }
    }

    /// Sets the background colour (builder style).
    pub fn color(self, color: ToastColor) -> (r: Self)
        ensures
            r == (Toast { color, ..self }),
    {
        Toast { color, ..self }
    }

    /// Sets the animation (builder style).
    pub fn animation(self, animation: ToastAnimation) -> (r: Self)
        ensures
            r == (Toast { animation, ..self }),
    {
        Toast { animation, ..self }
    }

    /// Sets how long the toast stays, in milliseconds (builder style).
    pub fn duration_in_ms(self, duration: u32) -> (r: Self)
        ensures
            r == (Toast { duration_in_ms: duration, ..self }),
    {
        Toast { duration_in_ms: duration, ..self }
    }

    /// Sets whether the toast carries a close button (builder style).
    pub fn is_closable(self, is_closable: bool) -> (r: Self)
        ensures
            r == (Toast { is_closable, ..self }),
    {
        Toast { is_closable, ..self }
    }

    /// How long an animated toast stays in its open phase: its total
    /// duration less the 150 ms the closing animation plays, never below
    /// zero.
    pub fn open_phase_ms(&self) -> (r: u32)
        ensures
            self.duration_in_ms >= 150 ==> r == self.duration_in_ms - 150,
            self.duration_in_ms < 150 ==> r == 0,
    {
        if self.duration_in_ms >= 150 {
            self.duration_in_ms - 150
        } else {
            0
        }
    }

    /// A success toast: titled "Success", on the success colour.
    pub fn success(id: String, description: D) -> (r: Self)
        ensures
            r.id == id,
            r.title@ == "Success"@,
            r.description == description,
            r.color is Success,
            r.duration_in_ms == 6000,
            r.is_closable == true,
            r.animation is Full,
            r.state is Opening,
    {
        let mut t = Self::new(id, description);
        t.title = "Success".to_owned();
        t.color = ToastColor::Success;
        t
    }

    /// An error toast: titled "Error", on the destructive colour.
    pub fn error(id: String, description: D) -> (r: Self)
        ensures
            r.id == id,
            r.title@ == "Error"@,
            r.description == description,
            r.color is Destructive,
            r.duration_in_ms == 6000,
            r.is_closable == true,
            r.animation is Full,
            r.state is Opening,
    {
        let mut t = Self::new(id, description);
        t.title = "Error".to_owned();
        t.color = ToastColor::Destructive;
        t
    }

    /// A loading toast: titled "Loading", on the primary colour.
    pub fn loading(id: String, description: D) -> (r: Self)
        ensures
            r.id == id,
            r.title@ == "Loading"@,
            r.description == description,
            r.color is Primary,
            r.duration_in_ms == 6000,
            r.is_closable == true,
            r.animation is Full,
            r.state is Opening,
    {
        let mut t = Self::new(id, description);
        t.title = "Loading".to_owned();
        t.color = ToastColor::Primary;
        t
    }
}

/// The toaster: at most one toast on screen, and the shape the next toast
/// is being built in.
pub struct ToasterState<D> {
    pub toast: Option<Toast<D>>,
    pub shape: Toast<D>,
}

impl<D> ToasterState<D> {
    /// A toaster showing nothing, ready to shape its first toast.
    pub fn new(shape: Toast<D>) -> (r: Self)
        ensures
            r.toast is None,
            r.shape == shape,
    {
        ToasterState { toast: None, shape }
    }

    /// Shows the shaped toast and starts over on a fresh shape.
    pub fn render(&mut self, fresh_shape: Toast<D>)
        ensures
            final(self).toast == Some(old(self).shape),
            final(self).shape == fresh_shape,
    {
        let mut prev = fresh_shape;
        core::mem::swap(&mut self.shape, &mut prev);
        self.toast = Some(prev);
    }

    /// Dismisses the toast on screen, keeping the shape in progress.
    pub fn dismiss(&mut self)
        ensures
            final(self).toast is None,
            final(self).shape == old(self).shape,
    {
        self.toast = None;
    }
}

} // verus!
