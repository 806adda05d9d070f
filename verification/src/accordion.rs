//! The accordion's state: which items are open, by id, with an optional
//! multi-open mode.

use vstd::prelude::*;

verus! {

/// The predicate that keeps an item id when another id is removed: every id
/// whose text differs.
pub open spec fn keeps_id(id: Seq<char>) -> spec_fn(String) -> bool {
    |x: String| x@ != id
}

/// The height an accordion panel renders with: zero while closed; while
/// open, the caller-supplied height, or the measured height when none was
/// given.
pub fn content_height(active: bool, height_prop: &String, measured: &String) -> (r: String)
    ensures
        !active ==> r@ == "0"@,
        (active && height_prop@.len() == 0) ==> r@ == measured@,
        (active && height_prop@.len() > 0) ==> r@ == height_prop@,
{
    if active {
        if height_prop.as_str().is_empty() {
            measured.clone()
        } else {
            height_prop.clone()
        }
    } else {
        "0".to_owned()
    }
}

/// Which accordion items are open. With `multi_open` unset, opening an item
/// closes every other one.
pub struct AccordionState {
    pub multi_open: bool,
    pub active_items: Vec<String>,
}

impl AccordionState {
    /// An accordion with no item open.
    pub fn new(multi_open: bool) -> (r: Self)
        ensures
            r.multi_open == multi_open,
            r.active_items@ =~= Seq::<String>::empty(),
    {
        AccordionState { multi_open, active_items: Vec::new() }
    }

    /// Whether the item with this id is open.
    pub open spec fn contains_id(self, id: Seq<char>) -> bool {
        exists|i: int| 0 <= i < self.active_items@.len() && (#[trigger] self.active_items@[i])@ == id
    }

    /// Opens the item with this id, leaving the others as they are.
    pub fn add_id(&mut self, id: String)
        ensures
            final(self).active_items@ == old(self).active_items@.push(id),
            final(self).multi_open == old(self).multi_open,
    {
        self.active_items.push(id);
    }

    /// Closes every item with this id, keeping the others in order.
    pub fn remove_id(&mut self, id: String)
        ensures
            final(self).active_items@ == old(self).active_items@.filter(keeps_id(id@)),
            final(self).multi_open == old(self).multi_open,
    {
        let ghost orig = self.active_items@;
        let mut kept: Vec<String> = Vec::new();
        let n = self.active_items.len();
        let mut j: usize = 0;
        proof {
            assert(orig.take(0) =~= Seq::<String>::empty());
            assert(Seq::<String>::empty().filter(keeps_id(id@)) =~= Seq::<String>::empty());
        }
        while j < n
            invariant
                j <= n,
                n == orig.len(),
                self.active_items@ == orig.skip(j as int),
                kept@ == orig.take(j as int).filter(keeps_id(id@)),
                self.multi_open == old(self).multi_open,
            decreases n - j,
        {
            let x = self.active_items.remove(0);
            proof {
                assert(orig.skip(j as int)[0] == orig[j as int]);
                assert(orig.skip(j as int).remove(0) =~= orig.skip(j as int + 1));
            }
            let keep = !(x == id);
            if keep {
                kept.push(x);
            }
            proof {
                broadcast use vstd::prelude::Seq::lemma_filter_push;

                let p = keeps_id(id@);
                assert(orig.take(j as int + 1) =~= orig.take(j as int).push(orig[j as int]));
                assert(orig.take(j as int).push(orig[j as int]).filter(p) == if p(
                    orig[j as int],
                ) {
                    orig.take(j as int).filter(p).push(orig[j as int])
                } else {
                    orig.take(j as int).filter(p)
                });
            }
            j = j + 1;
        }
        self.active_items = kept;
        proof {
            assert(orig.take(n as int) =~= orig);
        }
    }

    /// Opens the item with this id alone, closing every other one.
    pub fn set_id(&mut self, id: String)
        ensures
            final(self).active_items@ == seq![id],
            final(self).multi_open == old(self).multi_open,
    {
        self.active_items.clear();
        self.active_items.push(id);
        proof {
            assert(Seq::<String>::empty().push(id) =~= seq![id]);
        }
    }

    /// Whether the item with this id is open.
    pub fn is_active(&self, id: &str) -> (r: bool)
        ensures
            r == self.contains_id(id@),
    {
        let needle = id.to_owned();
        let n = self.active_items.len();
        let mut i: usize = 0;
        while i < n
            invariant
                i <= n,
                n == self.active_items@.len(),
                needle@ == id@,
                forall|j: int| 0 <= j < i ==> (#[trigger] self.active_items@[j])@ != id@,
            decreases n - i,
        {
            if self.active_items[i] == needle {
                return true;
            }
            i = i + 1;
        }
        false
    }

    /// The attribute label of the item with this id.
    pub fn active_label(&self, id: &str) -> (r: &'static str)
        ensures
            self.contains_id(id@) ==> r@ == "active"@,
            !self.contains_id(id@) ==> r@ == "inactive"@,
    {
        if self.is_active(id) {
            "active"
        } else {
            "inactive"
        }
    }

    /// A click on an item's trigger: an open item closes; a closed one
    /// opens — alone when `multi_open` is unset, alongside the others when
    /// it is set.
    pub fn on_trigger_click(&mut self, id: String)
        ensures
            final(self).multi_open == old(self).multi_open,
            old(self).contains_id(id@) ==> final(self).active_items@ == old(self).active_items@.filter(keeps_id(id@)),
            (!old(self).contains_id(id@) && !old(self).multi_open) ==> final(self).active_items@
                == seq![id],
            (!old(self).contains_id(id@) && old(self).multi_open) ==> final(self).active_items@
                == old(self).active_items@.push(id),
    {
        if self.is_active(id.as_str()) {
            self.remove_id(id);
        } else if !self.multi_open {
            self.set_id(id);
        } else {
            self.add_id(id);
        }
    }
}

} // verus!
