//! The carousel's state: which item is shown, how many there are, and the
//! translation applied to the content strip, advanced by the triggers or an
//! autoscroll timer.

use vstd::prelude::*;

verus! {

/// The carousel's state. `current_item_key` is the index of the item shown;
/// `current_translation` is the pixel offset the content strip is shifted
/// by.
#[derive(Clone, Copy, PartialEq, Eq, Structural, Debug)]
pub struct CarouselState {
    pub is_circular: bool,
    pub autoscroll_duration: usize,
    pub block_autoscroll: bool,
    pub carousel_size: u32,
    pub current_item_key: u32,
    pub content_width: i32,
    pub current_translation: i32,
}

impl CarouselState {
    /// A carousel starting at the given item; its size and width are filled
    /// in as items mount and the content is measured.
    pub fn new(current_item_key: u32, is_circular: bool, autoscroll_duration: usize) -> (r: Self)
        ensures
            r.current_item_key == current_item_key,
            r.autoscroll_duration == autoscroll_duration,
            r.block_autoscroll == false,
            r.is_circular == is_circular,
            r.carousel_size == 0,
            r.content_width == 0,
            r.current_translation == 0,
    {
        CarouselState {
            current_item_key,
            autoscroll_duration,
            block_autoscroll: false,
            is_circular,
            carousel_size: 0,
            content_width: 0,
            current_translation: 0,
        }
    }

    /// Counts one more mounted item.
    pub fn increment_carousel_size(&mut self)
        requires
            old(self).carousel_size < u32::MAX,
        ensures
            final(self).carousel_size == old(self).carousel_size + 1,
            *final(self) == (CarouselState { carousel_size: final(self).carousel_size, ..*old(self) }),
    {
        self.carousel_size = self.carousel_size + 1;
    }

    /// Records the measured width of the content strip.
    pub fn set_content_size(&mut self, scroll_width: i32)
        ensures
            final(self).content_width == scroll_width,
            *final(self) == (CarouselState { content_width: scroll_width, ..*old(self) }),
    {
        self.content_width = scroll_width;
    }

    /// Moves to the next item.
    pub fn go_to_next_item(&mut self)
        requires
            old(self).current_item_key < u32::MAX,
        ensures
            final(self).current_item_key == old(self).current_item_key + 1,
            *final(self) == (CarouselState {
                current_item_key: final(self).current_item_key,
                ..*old(self)
            }),
    {
        self.current_item_key = self.current_item_key + 1;
    }

    /// Moves to the previous item.
    pub fn go_to_prev_item(&mut self)
        requires
            old(self).current_item_key > 0,
        ensures
            final(self).current_item_key == old(self).current_item_key - 1,
            *final(self) == (CarouselState {
                current_item_key: final(self).current_item_key,
                ..*old(self)
            }),
    {
        self.current_item_key = self.current_item_key - 1;
    }

    /// Jumps to the given item.
    pub fn go_to_item(&mut self, item_key: u32)
        ensures
            final(self).current_item_key == item_key,
            *final(self) == (CarouselState { current_item_key: item_key, ..*old(self) }),
    {
        self.current_item_key = item_key;
    }

    /// Whether the item with this key is the one shown.
    pub fn is_active(&self, key: u32) -> (r: bool)
        ensures
            r == (self.current_item_key == key),
    {
        self.current_item_key == key
    }

    /// The attribute label for the item with this key.
    pub fn active_label(&self, key: u32) -> (r: &'static str)
        ensures
            self.current_item_key == key ==> r@ == "active"@,
            self.current_item_key != key ==> r@ == "inactive"@,
    {
        if self.current_item_key == key {
            "active"
        } else {
            "inactive"
        }
    }

    /// Recomputes the strip's translation: the shown item's index times the
    /// content width.
    pub fn translate(&mut self)
        requires
            old(self).current_item_key <= i32::MAX as u32,
            old(self).current_item_key as int * old(self).content_width as int <= i32::MAX as int,
            old(self).current_item_key as int * old(self).content_width as int >= i32::MIN as int,
        ensures
            final(self).current_translation as int == old(self).current_item_key as int * old(self).content_width as int,
            *final(self) == (CarouselState {
                current_translation: final(self).current_translation,
                ..*old(self)
            }),
    {
        self.current_translation = (self.current_item_key as i32) * self.content_width;
    }

    /// Sets the strip's translation directly.
    pub fn set_current_translation(&mut self, translation: i32)
        ensures
            final(self).current_translation == translation,
            *final(self) == (CarouselState { current_translation: translation, ..*old(self) }),
    {
        self.current_translation = translation;
    }

    /// The strip's current translation.
    pub fn get_current_translation(&self) -> (r: i32)
        ensures
            r == self.current_translation,
    {
        self.current_translation
    }

    /// One scroll step, from a trigger click or the autoscroll timer:
    /// forward moves to the next item, or wraps to the first when circular;
    /// backward moves to the previous item, or wraps to the last when
    /// circular. At either end of a non-circular carousel nothing moves.
    pub fn scroll(&mut self, next: bool)
        requires
            old(self).carousel_size > 0,
        ensures
            (next && old(self).current_item_key < old(self).carousel_size - 1) ==> final(self).current_item_key == old(self).current_item_key + 1,
            (next && old(self).current_item_key >= old(self).carousel_size - 1 && old(self).is_circular) ==> final(self).current_item_key == 0,
            (next && old(self).current_item_key >= old(self).carousel_size - 1 && !old(self).is_circular) ==> final(self).current_item_key == old(self).current_item_key,
            (!next && old(self).current_item_key > 0) ==> final(self).current_item_key == old(self).current_item_key - 1,
            (!next && old(self).current_item_key == 0 && old(self).is_circular) ==> final(self).current_item_key == old(self).carousel_size - 1,
            (!next && old(self).current_item_key == 0 && !old(self).is_circular) ==> final(self).current_item_key == 0,
            *final(self) == (CarouselState {
                current_item_key: final(self).current_item_key,
                ..*old(self)
            }),
    {
        if next {
            if self.current_item_key < self.carousel_size - 1 {
                self.go_to_next_item();
            } else if self.is_circular {
                self.go_to_item(0);
            }
        } else if self.current_item_key > 0 {
            self.go_to_prev_item();
        } else if self.is_circular {
            let last = self.carousel_size - 1;
            self.go_to_item(last);
        }
    }
}

} // verus!
