//! The application theme mode: dark or light, toggled by the theme switch.

use vstd::prelude::*;

verus! {

/// The two theme modes. Dark is the default.
#[derive(Clone, Copy, PartialEq, Eq, Structural, Debug)]
pub enum ThemeMode {
    Dark,
    Light,
}

impl ThemeMode {
    /// The theme mode's name, as used in the `data-theme` attribute.
    pub fn as_str(&self) -> (r: &'static str)
        ensures
            *self is Dark ==> r@ == "dark"@,
            *self is Light ==> r@ == "light"@,
    {
        match self {
            ThemeMode::Light => "light",
            ThemeMode::Dark => "dark",
        }
    }

    /// The other theme mode.
    pub fn toggle(self) -> (r: Self)
        ensures
            self is Dark ==> r is Light,
            self is Light ==> r is Dark,
    {
        match self {
            ThemeMode::Light => ThemeMode::Dark,
            ThemeMode::Dark => ThemeMode::Light,
        }
    }

    /// Whether this is the dark mode.
    pub fn is_dark(&self) -> (r: bool)
        ensures
            r == (*self is Dark),
    {
        matches!(self, ThemeMode::Dark)
    }

    /// Whether this is the light mode.
    pub fn is_light(&self) -> (r: bool)
        ensures
            r == (*self is Light),
    {
        matches!(self, ThemeMode::Light)
    }
}

impl Default for ThemeMode {
    /// The default theme is dark.
    fn default() -> (r: Self)
        ensures
            r is Dark,
    {
        ThemeMode::Dark
    }
}

} // verus!
