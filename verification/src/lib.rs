//! Verified core of a themable UI widget library.
//!
//! The heart of the crate is the sortable table engine in [`keytype`] and
//! [`sorttable`]: a heterogeneously-typed sort key, a total-preorder
//! comparator with reversed numeric ordering, a stable sort, and the
//! click-driven ascending/descending state machine. Around it sit the small
//! widget state machines (accordion, carousel, form list, modal-style
//! toggles, pagination, theme mode, toasts) whose decision logic is likewise
//! verified. Rendering and event plumbing are left to the host UI framework.

pub mod accordion;
pub mod carousel;
pub mod formlist;
pub mod keytype;
pub mod laws;
pub mod markdown;
pub mod pagination;
pub mod sorttable;
pub mod theme;
pub mod toast;
pub mod toggles;
