//! The sortable table engine: rows of cells with sort keys, a stable sort by
//! one column, and the click-driven sort state machine.
//!
//! A table is a sequence of [`SortableRow`]s, each an ordered sequence of
//! [`SortableCell`]s index-aligned with the header labels. Every cell pairs a
//! renderable payload (any type `C`; the engine never reads it) with a
//! [`KeyType`] used only for ordering. Sorting is a stable insertion sort
//! under the comparator of [`crate::keytype`], pinned exactly by the spec
//! function [`sort_rows`].

use vstd::prelude::*;
use core::cmp::Ordering;
use crate::keytype::KeyType;
use crate::keytype::key_le;
use crate::keytype::key_lt;
use crate::keytype::key_comparable;
use crate::keytype::lemma_key_lt_asymmetric;
use crate::keytype::lemma_key_le_transitive;

verus! {

/// One table cell: a renderable payload, a per-cell style tag, and the key
/// the cell's column is sorted by. The key never affects what is displayed.
pub struct SortableCell<C> {
    pub content: C,
    pub style: String,
    pub sort_by: KeyType,
}

impl<C> SortableCell<C> {
    /// A cell with the given payload, no style, and no sort key.
    pub fn new(content: C) -> (r: Self)
        ensures
            r.content == content,
            r.style@ == Seq::<char>::empty(),
            r.sort_by == KeyType::Absent,
    {
        SortableCell { content, style: String::new(), sort_by: KeyType::Absent }
    }

    /// Sets the cell's sort key (builder style).
    pub fn sort_by(self, sort_by: KeyType) -> (r: Self)
        ensures
            r.content == self.content,
            r.style == self.style,
            r.sort_by == sort_by,
    {
        SortableCell { sort_by, ..self }
    }

    /// Sets the cell's style tag (builder style).
    pub fn style(self, style: String) -> (r: Self)
        ensures
            r.content == self.content,
            r.style == style,
            r.sort_by == self.sort_by,
    {
        SortableCell { style, ..self }
    }
}

/// One table row: its cells, index-aligned with the table's headers.
pub struct SortableRow<C> {
    pub cells: Vec<SortableCell<C>>,
}

impl<C> SortableRow<C> {
    /// A row made of the given cells.
    pub fn new(cells: Vec<SortableCell<C>>) -> (r: Self)
        ensures
            r.cells == cells,
    {
        SortableRow { cells }
    }
}

/// The key a row is ordered by in the given column.
pub open spec fn row_key<C>(r: SortableRow<C>, col: int) -> KeyType {
    r.cells@[col].sort_by
}

/// A column is sortable when the first row has a cell there whose sort key
/// is present. Sortability is judged by the first row alone.
pub open spec fn col_sortable<C>(data: Seq<SortableRow<C>>, col: int) -> bool {
    &&& data.len() > 0
    &&& 0 <= col < data[0].cells@.len()
    &&& !(row_key(data[0], col) is Absent)
}

/// Inserts row `r` into `s` directly after every row whose key in column
/// `col` is at or before `r`'s: the insertion step of a stable sort.
pub open spec fn insert_sorted<C>(r: SortableRow<C>, s: Seq<SortableRow<C>>, col: int) -> Seq<
    SortableRow<C>,
>
    decreases s.len(),
{
    if s.len() == 0 {
        seq![r]
    } else if key_le(row_key(s[0], col), row_key(r, col)) {
        seq![s[0]] + insert_sorted(r, s.drop_first(), col)
    } else {
        seq![r] + s
    }
}

/// The stable sort of `s` by the keys of column `col`: rows are taken in
/// their original order and each is inserted after the rows that sort at or
/// before it.
pub open spec fn sort_rows<C>(s: Seq<SortableRow<C>>, col: int) -> Seq<SortableRow<C>>
    decreases s.len(),
{
    if s.len() == 0 {
        s
    } else {
        insert_sorted(s.last(), sort_rows(s.drop_last(), col), col)
    }
}

/// Inserting one row grows the sequence by one.
pub proof fn lemma_insert_sorted_len<C>(r: SortableRow<C>, s: Seq<SortableRow<C>>, col: int)
    ensures
        insert_sorted(r, s, col).len() == s.len() + 1,
    decreases s.len(),
{
    if s.len() > 0 && key_le(row_key(s[0], col), row_key(r, col)) {
        lemma_insert_sorted_len(r, s.drop_first(), col);
    }
}

/// Sorting does not change the number of rows.
pub proof fn lemma_sort_rows_len<C>(s: Seq<SortableRow<C>>, col: int)
    ensures
        sort_rows(s, col).len() == s.len(),
    decreases s.len(),
{
    if s.len() > 0 {
        lemma_sort_rows_len(s.drop_last(), col);
        lemma_insert_sorted_len(s.last(), sort_rows(s.drop_last(), col), col);
    }
}

/// Inserting a row adds exactly that row to the rows present.
pub proof fn lemma_insert_sorted_multiset<C>(r: SortableRow<C>, s: Seq<SortableRow<C>>, col: int)
    ensures
        insert_sorted(r, s, col).to_multiset() == s.to_multiset().insert(r),
    decreases s.len(),
{
    broadcast use vstd::seq_lib::group_to_multiset_ensures;
    broadcast use vstd::multiset::group_multiset_axioms;

    if s.len() == 0 {
        assert(insert_sorted(r, s, col) =~= Seq::<SortableRow<C>>::empty().push(r));
        assert(s =~= Seq::<SortableRow<C>>::empty());
        assert(Seq::<SortableRow<C>>::empty().push(r).to_multiset() =~= s.to_multiset().insert(r));
    } else if key_le(row_key(s[0], col), row_key(r, col)) {
        let sd = s.drop_first();
        lemma_insert_sorted_multiset(r, sd, col);
        let v = insert_sorted(r, sd, col);
        assert(insert_sorted(r, s, col) =~= v.insert(0, s[0]));
        vstd::seq_lib::to_multiset_insert(v, 0, s[0]);
        assert(s =~= sd.insert(0, s[0]));
        vstd::seq_lib::to_multiset_insert(sd, 0, s[0]);
        assert(sd.to_multiset().insert(r).insert(s[0]) =~= sd.to_multiset().insert(s[0]).insert(
            r,
        ));
    } else {
        assert(insert_sorted(r, s, col) =~= s.insert(0, r));
        vstd::seq_lib::to_multiset_insert(s, 0, r);
    }
}

/// Sorting permutes the rows: the same rows are present, with the same
/// multiplicities, before and after.
pub proof fn lemma_sort_rows_multiset<C>(s: Seq<SortableRow<C>>, col: int)
    ensures
        sort_rows(s, col).to_multiset() == s.to_multiset(),
    decreases s.len(),
{
    broadcast use vstd::seq_lib::group_to_multiset_ensures;
    broadcast use vstd::multiset::group_multiset_axioms;

    if s.len() > 0 {
        let sd = s.drop_last();
        lemma_sort_rows_multiset(sd, col);
        lemma_insert_sorted_multiset(s.last(), sort_rows(sd, col), col);
        assert(s =~= sd.push(s.last()));
        assert(sd.push(s.last()).to_multiset() =~= sd.to_multiset().insert(s.last()));
    }
}

/// Every row of an insertion result is the inserted row or one of the old
/// rows.
proof fn lemma_insert_sorted_elem<C>(r: SortableRow<C>, s: Seq<SortableRow<C>>, col: int, k: int)
    requires
        0 <= k < insert_sorted(r, s, col).len(),
    ensures
        insert_sorted(r, s, col)[k] == r || s.contains(insert_sorted(r, s, col)[k]),
    decreases s.len(),
{
    let u = insert_sorted(r, s, col);
    if s.len() == 0 {
        assert(u[k] == r);
    } else if key_le(row_key(s[0], col), row_key(r, col)) {
        let sd = s.drop_first();
        let v = insert_sorted(r, sd, col);
        assert(u == seq![s[0]] + v);
        if k == 0 {
            assert(u[0] == s[0]);
            assert(s.contains(s[0]));
        } else {
            assert(u[k] == v[k - 1]);
            lemma_insert_sorted_elem(r, sd, col, k - 1);
            if v[k - 1] != r {
                let j = choose|j: int| 0 <= j < sd.len() && sd[j] == v[k - 1];
                assert(s[j + 1] == v[k - 1]);
                assert(s.contains(s[j + 1]));
            }
        }
    } else {
        if k == 0 {
            assert(u[k] == r);
        } else {
            assert(u[k] == s[k - 1]);
            assert(s.contains(s[k - 1]));
        }
    }
}

/// Every row of a sorted sequence is one of the original rows.
pub proof fn lemma_sort_rows_elem<C>(s: Seq<SortableRow<C>>, col: int, k: int)
    requires
        0 <= k < sort_rows(s, col).len(),
    ensures
        s.contains(sort_rows(s, col)[k]),
    decreases s.len(),
{
    if s.len() > 0 {
        let sd = s.drop_last();
        let t = sort_rows(sd, col);
        let x = sort_rows(s, col)[k];
        lemma_insert_sorted_elem(s.last(), t, col, k);
        if x == s.last() {
            assert(s[s.len() - 1] == x);
            assert(s.contains(s[s.len() - 1]));
        } else {
            let j = choose|j: int| 0 <= j < t.len() && t[j] == x;
            lemma_sort_rows_elem(sd, col, j);
            let j2 = choose|j2: int| 0 <= j2 < sd.len() && sd[j2] == x;
            assert(s[j2] == x);
            assert(s.contains(s[j2]));
        }
    }
}

/// Every row's key in column `col` is at or before every later row's key:
/// the sequence is sorted by that column.
pub open spec fn sorted_by_col<C>(s: Seq<SortableRow<C>>, col: int) -> bool {
    forall|i: int, j: int|
        0 <= i < j < s.len() ==> key_le(row_key(#[trigger] s[i], col), row_key(
            #[trigger] s[j],
            col,
        ))
}

/// The keys of column `col` are pairwise of one variant, so the comparator
/// orders them all.
pub open spec fn keys_uniform<C>(s: Seq<SortableRow<C>>, col: int) -> bool {
    forall|i: int, j: int|
        0 <= i < s.len() && 0 <= j < s.len() ==> key_comparable(
            row_key(#[trigger] s[i], col),
            row_key(#[trigger] s[j], col),
        )
}

/// Inserting into a sorted sequence keeps it sorted, provided the keys
/// involved are pairwise comparable.
proof fn lemma_insert_sorted_sorted<C>(r: SortableRow<C>, s: Seq<SortableRow<C>>, col: int)
    requires
        sorted_by_col(s, col),
        keys_uniform(s, col),
        forall|j: int|
            0 <= j < s.len() ==> key_comparable(row_key(r, col), row_key(#[trigger] s[j], col)),
    ensures
        sorted_by_col(insert_sorted(r, s, col), col),
    decreases s.len(),
{
    let u = insert_sorted(r, s, col);
    if s.len() == 0 {
        assert(sorted_by_col(u, col));
    } else if key_le(row_key(s[0], col), row_key(r, col)) {
        let sd = s.drop_first();
        assert forall|i: int, j: int| 0 <= i < j < sd.len() implies key_le(
            row_key(#[trigger] sd[i], col),
            row_key(#[trigger] sd[j], col),
        ) by {
            assert(sd[i] == s[i + 1]);
            assert(sd[j] == s[j + 1]);
        }
        assert forall|i: int, j: int| 0 <= i < sd.len() && 0 <= j < sd.len() implies key_comparable(
            row_key(#[trigger] sd[i], col),
            row_key(#[trigger] sd[j], col),
        ) by {
            assert(sd[i] == s[i + 1]);
            assert(sd[j] == s[j + 1]);
        }
        assert forall|j: int| 0 <= j < sd.len() implies key_comparable(
            row_key(r, col),
            row_key(#[trigger] sd[j], col),
        ) by {
            assert(sd[j] == s[j + 1]);
        }
        lemma_insert_sorted_sorted(r, sd, col);
        let v = insert_sorted(r, sd, col);
        lemma_insert_sorted_len(r, sd, col);
        assert(u == seq![s[0]] + v);
        assert forall|i: int, j: int| 0 <= i < j < u.len() implies key_le(
            row_key(#[trigger] u[i], col),
            row_key(#[trigger] u[j], col),
        ) by {
            if i == 0 {
                assert(u[0] == s[0]);
                assert(u[j] == v[j - 1]);
                lemma_insert_sorted_elem(r, sd, col, j - 1);
                if v[j - 1] == r {
                    assert(key_le(row_key(s[0], col), row_key(r, col)));
                } else {
                    let jj = choose|jj: int| 0 <= jj < sd.len() && sd[jj] == v[j - 1];
                    assert(sd[jj] == s[jj + 1]);
                    assert(key_le(row_key(s[0], col), row_key(s[jj + 1], col)));
                }
            } else {
                assert(u[i] == v[i - 1]);
                assert(u[j] == v[j - 1]);
            }
        }
    } else {
        assert(key_lt(row_key(r, col), row_key(s[0], col)));
        lemma_key_lt_asymmetric(row_key(r, col), row_key(s[0], col));
        assert(u == seq![r] + s);
        assert forall|i: int, j: int| 0 <= i < j < u.len() implies key_le(
            row_key(#[trigger] u[i], col),
            row_key(#[trigger] u[j], col),
        ) by {
            if i == 0 {
                assert(u[0] == r);
                assert(u[j] == s[j - 1]);
                if j - 1 > 0 {
                    assert(key_le(row_key(s[0], col), row_key(s[j - 1], col)));
                    lemma_key_le_transitive(
                        row_key(r, col),
                        row_key(s[0], col),
                        row_key(s[j - 1], col),
                    );
                }
            } else {
                assert(u[i] == s[i - 1]);
                assert(u[j] == s[j - 1]);
            }
        }
    }
}

/// On a column whose keys are pairwise comparable, the sort leaves the rows
/// ordered by the comparator.
pub proof fn lemma_sort_rows_sorted<C>(s: Seq<SortableRow<C>>, col: int)
    requires
        keys_uniform(s, col),
    ensures
        sorted_by_col(sort_rows(s, col), col),
    decreases s.len(),
{
    if s.len() > 0 {
        let sd = s.drop_last();
        assert forall|i: int, j: int| 0 <= i < sd.len() && 0 <= j < sd.len() implies key_comparable(
            row_key(#[trigger] sd[i], col),
            row_key(#[trigger] sd[j], col),
        ) by {
            assert(sd[i] == s[i]);
            assert(sd[j] == s[j]);
        }
        lemma_sort_rows_sorted(sd, col);
        let t = sort_rows(sd, col);
        lemma_sort_rows_len(sd, col);
        assert forall|i: int, j: int| 0 <= i < t.len() && 0 <= j < t.len() implies key_comparable(
            row_key(#[trigger] t[i], col),
            row_key(#[trigger] t[j], col),
        ) by {
            lemma_sort_rows_elem(sd, col, i);
            lemma_sort_rows_elem(sd, col, j);
            let ii = choose|ii: int| 0 <= ii < sd.len() && sd[ii] == t[i];
            let jj = choose|jj: int| 0 <= jj < sd.len() && sd[jj] == t[j];
            assert(sd[ii] == s[ii]);
            assert(sd[jj] == s[jj]);
        }
        assert forall|j: int| 0 <= j < t.len() implies key_comparable(
            row_key(s.last(), col),
            row_key(#[trigger] t[j], col),
        ) by {
            lemma_sort_rows_elem(sd, col, j);
            let jj = choose|jj: int| 0 <= jj < sd.len() && sd[jj] == t[j];
            assert(sd[jj] == s[jj]);
            assert(s.last() == s[s.len() - 1]);
        }
        lemma_insert_sorted_sorted(s.last(), t, col);
    }
}

/// The predicate picking the rows whose key in column `col` equals `key`.
pub open spec fn has_key<C>(col: int, key: KeyType) -> spec_fn(SortableRow<C>) -> bool {
    |r: SortableRow<C>| crate::keytype::key_eq(row_key(r, col), key)
}

/// A sequence none of whose elements satisfy a predicate filters to empty.
proof fn lemma_filter_none<A>(s: Seq<A>, p: spec_fn(A) -> bool)
    requires
        forall|i: int| 0 <= i < s.len() ==> !p(#[trigger] s[i]),
    ensures
        s.filter(p).len() == 0,
    decreases s.len(),
{
    broadcast use vstd::prelude::Seq::lemma_filter_push;

    if s.len() > 0 {
        let sd = s.drop_last();
        assert forall|i: int| 0 <= i < sd.len() implies !p(#[trigger] sd[i]) by {
            assert(sd[i] == s[i]);
        }
        lemma_filter_none(sd, p);
        assert(s =~= sd.push(s.last()));
        assert(!p(s.last()));
    }
}

/// The hypotheses the insertion lemmas need of an already-sorted prefix:
/// dropping the last row keeps the keys uniform, its sort is sorted, and
/// the dropped row's key is comparable with every key of the sorted prefix.
proof fn lemma_sorted_prefix_hyps<C>(s: Seq<SortableRow<C>>, col: int)
    requires
        keys_uniform(s, col),
        s.len() > 0,
    ensures
        keys_uniform(s.drop_last(), col),
        sorted_by_col(sort_rows(s.drop_last(), col), col),
        keys_uniform(sort_rows(s.drop_last(), col), col),
        forall|j: int|
            0 <= j < sort_rows(s.drop_last(), col).len() ==> key_comparable(
                row_key(s.last(), col),
                row_key(#[trigger] sort_rows(s.drop_last(), col)[j], col),
            ),
{
    let sd = s.drop_last();
    let t = sort_rows(sd, col);
    assert forall|i: int, j: int| 0 <= i < sd.len() && 0 <= j < sd.len() implies key_comparable(
        row_key(#[trigger] sd[i], col),
        row_key(#[trigger] sd[j], col),
    ) by {
        assert(sd[i] == s[i]);
        assert(sd[j] == s[j]);
    }
    lemma_sort_rows_sorted(sd, col);
    lemma_sort_rows_len(sd, col);
    assert forall|i: int, j: int| 0 <= i < t.len() && 0 <= j < t.len() implies key_comparable(
        row_key(#[trigger] t[i], col),
        row_key(#[trigger] t[j], col),
    ) by {
        lemma_sort_rows_elem(sd, col, i);
        lemma_sort_rows_elem(sd, col, j);
        let ii = choose|ii: int| 0 <= ii < sd.len() && sd[ii] == t[i];
        let jj = choose|jj: int| 0 <= jj < sd.len() && sd[jj] == t[j];
        assert(sd[ii] == s[ii]);
        assert(sd[jj] == s[jj]);
    }
    assert forall|j: int| 0 <= j < t.len() implies key_comparable(
        row_key(s.last(), col),
        row_key(#[trigger] t[j], col),
    ) by {
        lemma_sort_rows_elem(sd, col, j);
        let jj = choose|jj: int| 0 <= jj < sd.len() && sd[jj] == t[j];
        assert(sd[jj] == s[jj]);
        assert(s.last() == s[s.len() - 1]);
    }
}

/// Inserting into a sorted sequence puts the inserted row after every row
/// carrying the same key: the rows with any one key, filtered out, show the
/// inserted row appended at the end.
proof fn lemma_insert_sorted_filter<C>(
    r: SortableRow<C>,
    s: Seq<SortableRow<C>>,
    col: int,
    key: KeyType,
)
    requires
        sorted_by_col(s, col),
        keys_uniform(s, col),
        forall|j: int|
            0 <= j < s.len() ==> key_comparable(row_key(r, col), row_key(#[trigger] s[j], col)),
    ensures
        insert_sorted(r, s, col).filter(has_key::<C>(col, key)) == if crate::keytype::key_eq(
            row_key(r, col),
            key,
        ) {
            s.filter(has_key::<C>(col, key)).push(r)
        } else {
            s.filter(has_key::<C>(col, key))
        },
    decreases s.len(),
{
    broadcast use vstd::prelude::Seq::lemma_filter_push;
    broadcast use vstd::prelude::Seq::filter_distributes_over_add;
    broadcast use vstd::prelude::Seq::lemma_filter_len;

    let p = has_key::<C>(col, key);
    let u = insert_sorted(r, s, col);
    if s.len() == 0 {
        assert(u =~= Seq::<SortableRow<C>>::empty().push(r));
        assert(Seq::<SortableRow<C>>::empty().filter(p).len() == 0);
        assert(Seq::<SortableRow<C>>::empty().filter(p) =~= Seq::<SortableRow<C>>::empty());
        if p(r) {
            assert(u.filter(p) == s.filter(p).push(r));
        } else {
            assert(u.filter(p) =~= s.filter(p));
        }
    } else if key_le(row_key(s[0], col), row_key(r, col)) {
        let sd = s.drop_first();
        assert forall|i: int, j: int| 0 <= i < j < sd.len() implies key_le(
            row_key(#[trigger] sd[i], col),
            row_key(#[trigger] sd[j], col),
        ) by {
            assert(sd[i] == s[i + 1]);
            assert(sd[j] == s[j + 1]);
        }
        assert forall|i: int, j: int| 0 <= i < sd.len() && 0 <= j < sd.len() implies key_comparable(
            row_key(#[trigger] sd[i], col),
            row_key(#[trigger] sd[j], col),
        ) by {
            assert(sd[i] == s[i + 1]);
            assert(sd[j] == s[j + 1]);
        }
        assert forall|j: int| 0 <= j < sd.len() implies key_comparable(
            row_key(r, col),
            row_key(#[trigger] sd[j], col),
        ) by {
            assert(sd[j] == s[j + 1]);
        }
        lemma_insert_sorted_filter(r, sd, col, key);
        let v = insert_sorted(r, sd, col);
        assert(u == seq![s[0]] + v);
        assert(s =~= seq![s[0]] + sd);
        assert((seq![s[0]] + v).filter(p) == seq![s[0]].filter(p) + v.filter(p));
        assert((seq![s[0]] + sd).filter(p) == seq![s[0]].filter(p) + sd.filter(p));
        if p(r) {
            assert(v.filter(p) == sd.filter(p).push(r));
            assert(seq![s[0]].filter(p) + sd.filter(p).push(r) =~= (seq![s[0]].filter(p)
                + sd.filter(p)).push(r));
        }
    } else {
        assert(key_lt(row_key(r, col), row_key(s[0], col)));
        assert(u == seq![r] + s);
        assert(seq![r] =~= Seq::<SortableRow<C>>::empty().push(r));
        assert(Seq::<SortableRow<C>>::empty().filter(p).len() == 0);
        assert(Seq::<SortableRow<C>>::empty().filter(p) =~= Seq::<SortableRow<C>>::empty());
        assert((seq![r] + s).filter(p) == seq![r].filter(p) + s.filter(p));
        if p(r) {
            assert forall|j: int| 0 <= j < s.len() implies !p(#[trigger] s[j]) by {
                if j == 0 {
                    assert(key_lt(row_key(r, col), row_key(s[0], col)));
                } else {
                    assert(key_le(row_key(s[0], col), row_key(s[j], col)));
                    crate::keytype::lemma_key_lt_le_transitive(
                        row_key(r, col),
                        row_key(s[0], col),
                        row_key(s[j], col),
                    );
                }
                if p(s[j]) {
                    crate::keytype::lemma_key_eq_lt_congruence(
                        row_key(s[j], col),
                        key,
                        row_key(r, col),
                    );
                    crate::keytype::lemma_key_eq_lt_congruence(row_key(r, col), key, key);
                    crate::keytype::lemma_key_lt_asymmetric(key, key);
                }
            }
            lemma_filter_none(s, p);
            assert(s.filter(p) =~= Seq::<SortableRow<C>>::empty());
            assert(seq![r].filter(p) =~= seq![r]);
            assert(u.filter(p) =~= s.filter(p).push(r));
        } else {
            assert(seq![r].filter(p).len() == 0);
            assert(seq![r].filter(p) =~= Seq::<SortableRow<C>>::empty());
            assert(u.filter(p) =~= s.filter(p));
        }
    }
}

/// The sort is stable: the rows carrying any one key stand in the same
/// relative order after the sort as before it.
pub proof fn lemma_sort_rows_stable<C>(s: Seq<SortableRow<C>>, col: int, key: KeyType)
    requires
        keys_uniform(s, col),
    ensures
        sort_rows(s, col).filter(has_key::<C>(col, key)) == s.filter(has_key::<C>(col, key)),
    decreases s.len(),
{
    broadcast use vstd::prelude::Seq::lemma_filter_push;

    let p = has_key::<C>(col, key);
    if s.len() > 0 {
        let sd = s.drop_last();
        lemma_sorted_prefix_hyps(s, col);
        lemma_sort_rows_stable(sd, col, key);
        let t = sort_rows(sd, col);
        lemma_insert_sorted_filter(s.last(), t, col, key);
        assert(s =~= sd.push(s.last()));
    }
}

/// Where the insertion lands: if the first `p` rows of `s` sort at or before
/// `r` and the row at `p` (if any) does not, `r` goes exactly at index `p`.
proof fn lemma_insert_sorted_at<C>(r: SortableRow<C>, s: Seq<SortableRow<C>>, col: int, p: int)
    requires
        0 <= p <= s.len(),
        forall|j: int| 0 <= j < p ==> key_le(row_key(#[trigger] s[j], col), row_key(r, col)),
        p < s.len() ==> !key_le(row_key(s[p], col), row_key(r, col)),
    ensures
        insert_sorted(r, s, col) == s.take(p) + seq![r] + s.skip(p),
    decreases p,
{
    if p == 0 {
        assert(insert_sorted(r, s, col) =~= s.take(0) + seq![r] + s.skip(0));
    } else {
        let t = s.drop_first();
        assert(key_le(row_key(s[0], col), row_key(r, col)));
        assert forall|j: int| 0 <= j < p - 1 implies key_le(
            row_key(#[trigger] t[j], col),
            row_key(r, col),
        ) by {
            assert(t[j] == s[j + 1]);
        }
        if p - 1 < t.len() {
            assert(t[p - 1] == s[p]);
        }
        lemma_insert_sorted_at(r, t, col, p - 1);
        assert(insert_sorted(r, s, col) == seq![s[0]] + (t.take(p - 1) + seq![r] + t.skip(p - 1)));
        assert(seq![s[0]] + (t.take(p - 1) + seq![r] + t.skip(p - 1)) =~= s.take(p) + seq![r]
            + s.skip(p));
    }
}

/// One step of the sort: sorting one more leading row inserts it into the
/// already-sorted prefix.
proof fn lemma_sort_rows_take_step<C>(s: Seq<SortableRow<C>>, col: int, i: int)
    requires
        0 <= i < s.len(),
    ensures
        sort_rows(s.take(i + 1), col) == insert_sorted(s[i], sort_rows(s.take(i), col), col),
{
    assert(s.take(i + 1).drop_last() =~= s.take(i));
    assert(s.take(i + 1).last() == s[i]);
}

/// The index in `0..i` where row `i` of `data` belongs when inserted into
/// the (sorted) prefix `data[..i]` by the keys of column `col`.
fn insertion_point<C>(data: &Vec<SortableRow<C>>, col: usize, i: usize) -> (p: usize)
    requires
        i < data@.len(),
        forall|k: int| 0 <= k < data@.len() ==> col < (#[trigger] data@[k]).cells@.len(),
    ensures
        p <= i,
        forall|j: int|
            0 <= j < p ==> key_le(row_key(#[trigger] data@[j], col as int), row_key(
                data@[i as int],
                col as int,
            )),
        p < i ==> !key_le(row_key(data@[p as int], col as int), row_key(data@[i as int], col as int)),
{
    let mut p: usize = 0;
    while p < i
        invariant
            p <= i,
            i < data@.len(),
            forall|k: int| 0 <= k < data@.len() ==> col < (#[trigger] data@[k]).cells@.len(),
            forall|j: int|
                0 <= j < p ==> key_le(row_key(#[trigger] data@[j], col as int), row_key(
                    data@[i as int],
                    col as int,
                )),
        decreases i - p,
    {
        let c = data[p].cells[col].sort_by.compare(&data[i].cells[col].sort_by);
        if matches!(c, Ordering::Greater) {
            return p;
        }
        p = p + 1;
    }
    p
}

/// Stable-sorts the rows in place by the keys of column `col`. The result is
/// exactly the stable sort [`sort_rows`] of the old contents.
pub fn sort_by_column<C>(data: &mut Vec<SortableRow<C>>, col: usize)
    requires
        forall|k: int| 0 <= k < old(data)@.len() ==> col < (#[trigger] old(data)@[k]).cells@.len(),
    ensures
        final(data)@ == sort_rows(old(data)@, col as int),
{
    let ghost orig = data@;
    let n = data.len();
    if n == 0 {
        return;
    }
    let mut i: usize = 1;
    proof {
        lemma_sort_rows_len(orig.take(1), col as int);
        assert(orig.take(1).drop_last() =~= orig.take(0));
        assert(orig.take(0) =~= Seq::<SortableRow<C>>::empty());
        assert(sort_rows(Seq::<SortableRow<C>>::empty(), col as int) == Seq::<
            SortableRow<C>,
        >::empty());
        assert(orig.take(1).last() == orig[0]);
        assert(insert_sorted(orig[0], Seq::<SortableRow<C>>::empty(), col as int) == seq![orig[0]]);
        assert(sort_rows(orig.take(1), col as int) =~= seq![orig[0]]);
        assert(data@ =~= sort_rows(orig.take(1), col as int) + orig.skip(1));
    }
    while i < n
        invariant
            1 <= i <= n,
            n == orig.len(),
            data@.len() == n,
            forall|k: int| 0 <= k < orig.len() ==> col < (#[trigger] orig[k]).cells@.len(),
            forall|k: int| 0 <= k < data@.len() ==> col < (#[trigger] data@[k]).cells@.len(),
            data@ == sort_rows(orig.take(i as int), col as int) + orig.skip(i as int),
        decreases n - i,
    {
        let ghost before = data@;
        let ghost t = sort_rows(orig.take(i as int), col as int);
        proof {
            lemma_sort_rows_len(orig.take(i as int), col as int);
            assert(t.len() == i);
            assert(before[i as int] == orig.skip(i as int)[0]);
            assert(before[i as int] == orig[i as int]);
        }
        let p = insertion_point(data, col, i);
        let row = data.remove(i);
        data.insert(p, row);
        proof {
            assert forall|j: int| 0 <= j < p implies key_le(
                row_key(#[trigger] t[j], col as int),
                row_key(orig[i as int], col as int),
            ) by {
                assert(t[j] == before[j]);
            }
            if p < i {
                assert(t[p as int] == before[p as int]);
            }
            lemma_insert_sorted_at(orig[i as int], t, col as int, p as int);
            lemma_sort_rows_take_step(orig, col as int, i as int);
            let mid = before.remove(i as int);
            assert(mid =~= t + orig.skip(i + 1));
            assert(data@ == mid.insert(p as int, row));
            assert(data@ =~= t.take(p as int) + seq![orig[i as int]] + t.skip(p as int) + orig.skip(
                i + 1,
            ));
            assert(insert_sorted(orig[i as int], t, col as int) == t.take(p as int) + seq![
                orig[i as int],
            ] + t.skip(p as int));
            assert(data@ =~= sort_rows(orig.take(i + 1), col as int) + orig.skip(i + 1));
            assert forall|k: int| 0 <= k < data@.len() implies col < (
            #[trigger] data@[k]).cells@.len() by {
                let u = t.take(p as int) + seq![orig[i as int]] + t.skip(p as int) + orig.skip(
                    i + 1,
                );
                assert(data@[k] == u[k]);
                if k < p {
                    assert(u[k] == t[k]);
                    assert(t[k] == before[k]);
                } else if k == p {
                    assert(u[k] == orig[i as int]);
                } else if k <= i {
                    assert(u[k] == t[k - 1]);
                    assert(t[k - 1] == before[k - 1]);
                } else {
                    assert(u[k] == orig[k]);
                }
            }
        }
        i = i + 1;
    }
    proof {
        assert(orig.take(n as int) =~= orig);
        assert(orig.skip(n as int) =~= Seq::<SortableRow<C>>::empty());
        assert(sort_rows(orig.take(n as int), col as int) + orig.skip(n as int) =~= sort_rows(
            orig,
            col as int,
        ));
    }
}

/// The index of the first header equal to `name`, or `headers.len()` when
/// no header matches.
pub open spec fn first_header_match(headers: Seq<String>, name: String) -> int
    decreases headers.len(),
{
    if headers.len() == 0 {
        0
    } else if headers[0]@ == name@ {
        0
    } else {
        1 + first_header_match(headers.drop_first(), name)
    }
}

/// `first_header_match` finds the first matching header, and only falls off
/// the end when no header matches.
pub proof fn lemma_first_header_match(headers: Seq<String>, name: String)
    ensures
        0 <= first_header_match(headers, name) <= headers.len(),
        first_header_match(headers, name) < headers.len() ==> headers[first_header_match(
            headers,
            name,
        )]@ == name@,
        (forall|j: int| 0 <= j < headers.len() ==> (#[trigger] headers[j])@ != name@)
            ==> first_header_match(headers, name) == headers.len(),
    decreases headers.len(),
{
    if headers.len() > 0 && headers[0]@ != name@ {
        let hd = headers.drop_first();
        lemma_first_header_match(hd, name);
        let m = first_header_match(hd, name);
        if m < hd.len() {
            assert(hd[m] == headers[m + 1]);
        }
        if forall|j: int| 0 <= j < headers.len() ==> (#[trigger] headers[j])@ != name@ {
            assert forall|j: int| 0 <= j < hd.len() implies (#[trigger] hd[j])@ != name@ by {
                assert(hd[j] == headers[j + 1]);
            }
        }
    }
}

/// The position of `name` among the headers, or the header count when it is
/// absent.
fn find_header(headers: &Vec<String>, name: &String) -> (p: usize)
    ensures
        p as int == first_header_match(headers@, *name),
{
    let n = headers.len();
    let mut p: usize = 0;
    proof {
        assert(headers@.skip(0) =~= headers@);
    }
    while p < n
        invariant
            p <= n,
            n == headers@.len(),
            first_header_match(headers@, *name) == p + first_header_match(
                headers@.skip(p as int),
                *name,
            ),
        decreases n - p,
    {
        proof {
            assert(headers@.skip(p as int)[0] == headers@[p as int]);
        }
        if headers[p] == *name {
            proof {
                assert(first_header_match(headers@.skip(p as int), *name) == 0);
            }
            return p;
        }
        proof {
            assert(headers@.skip(p as int).drop_first() =~= headers@.skip(p as int + 1));
        }
        p = p + 1;
    }
    proof {
        assert(headers@.skip(n as int).len() == 0);
    }
    p
}

/// The column index a default-sort directive resolves to: the named column
/// where it exists and is sortable, column 0 otherwise (also for no name at
/// all).
pub open spec fn resolve_default_col<C>(
    headers: Seq<String>,
    data: Seq<SortableRow<C>>,
    name: Option<String>,
) -> int {
    match name {
        Option::Some(n) => {
            let p = first_header_match(headers, n);
            if p < headers.len() && col_sortable(data, p) {
                p
            } else {
                0
            }
        },
        Option::None => 0,
    }
}

/// The sortable table's state: the header labels, the engine's own working
/// copy of the rows in their current order, the index of the column the rows
/// are sorted by, and the direction flag.
pub struct SortTableState<C> {
    pub headers: Vec<String>,
    pub data: Vec<SortableRow<C>>,
    pub sorted_col_index: usize,
    pub sort_ascending: bool,
}

impl<C> SortTableState<C> {
    /// Rows are index-aligned with the headers: every row has one cell per
    /// header.
    pub open spec fn wf(self) -> bool {
        forall|k: int|
            0 <= k < self.data@.len() ==> (#[trigger] self.data@[k]).cells@.len()
                == self.headers@.len()
    }

    /// Stores the inputs verbatim; the direction defaults to ascending.
    pub fn new(headers: Vec<String>, data: Vec<SortableRow<C>>, sorted_col_index: usize) -> (r:
        Self)
        ensures
            r.headers == headers,
            r.data == data,
            r.sorted_col_index == sorted_col_index,
            r.sort_ascending == true,
    {
        SortTableState { headers, data, sorted_col_index, sort_ascending: true }
    }

    /// Sets the active sorted-column index.
    pub fn set_sorted_col_index(&mut self, sorted_col_index: usize)
        ensures
            final(self).sorted_col_index == sorted_col_index,
            final(self).headers == old(self).headers,
            final(self).data == old(self).data,
            final(self).sort_ascending == old(self).sort_ascending,
    {
        self.sorted_col_index = sorted_col_index;
    }

    /// The active sorted-column index.
    pub fn get_sorted_col_index(&self) -> (r: usize)
        ensures
            r == self.sorted_col_index,
    {
        self.sorted_col_index
    }

    /// Reverses the current row order in place.
    pub fn reverse_data(&mut self)
        ensures
            final(self).data@ == old(self).data@.reverse(),
            final(self).headers == old(self).headers,
            final(self).sorted_col_index == old(self).sorted_col_index,
            final(self).sort_ascending == old(self).sort_ascending,
    {
        let ghost orig = self.data@;
        let n = self.data.len();
        let mut out: Vec<SortableRow<C>> = Vec::new();
        let mut j: usize = 0;
        proof {
            assert(orig.take(n as int) =~= orig);
            assert(orig.skip(n as int).reverse() =~= Seq::<SortableRow<C>>::empty());
        }
        while j < n
            invariant
                j <= n,
                n == orig.len(),
                self.data@ == orig.take((n - j) as int),
                out@ == orig.skip((n - j) as int).reverse(),
                self.headers == old(self).headers,
                self.sorted_col_index == old(self).sorted_col_index,
                self.sort_ascending == old(self).sort_ascending,
            decreases n - j,
        {
            let last = self.data.len() - 1;
            let x = self.data.remove(last);
            out.push(x);
            proof {
                assert(orig.take((n - j) as int).remove(last as int) =~= orig.take(
                    (n - j - 1) as int,
                ));
                assert(orig.skip((n - j - 1) as int).reverse() =~= orig.skip(
                    (n - j) as int,
                ).reverse().push(orig[(n - j - 1) as int]));
                assert(orig.take((n - j) as int)[last as int] == orig[(n - j - 1) as int]);
            }
            j = j + 1;
        }
        self.data = out;
        proof {
            assert(orig.skip(0).reverse() =~= orig.reverse());
        }
    }

    /// Flips the direction flag.
    pub fn toggle_sort_direction(&mut self)
        ensures
            final(self).sort_ascending == !old(self).sort_ascending,
            final(self).headers == old(self).headers,
            final(self).data == old(self).data,
            final(self).sorted_col_index == old(self).sorted_col_index,
    {
        self.sort_ascending = !self.sort_ascending;
    }

    /// Sets the direction flag.
    pub fn set_sort_direction(&mut self, ascending: bool)
        ensures
            final(self).sort_ascending == ascending,
            final(self).headers == old(self).headers,
            final(self).data == old(self).data,
            final(self).sorted_col_index == old(self).sorted_col_index,
    {
        self.sort_ascending = ascending;
    }

    /// The direction flag.
    pub fn is_sort_ascending(&self) -> (r: bool)
        ensures
            r == self.sort_ascending,
    {
        self.sort_ascending
    }

    /// Whether the column can be sorted, judged by the first row's key at
    /// that index.
    pub fn is_column_sortable(&self, column_index: usize) -> (r: bool)
        ensures
            r == col_sortable(self.data@, column_index as int),
    {
        if self.data.len() == 0 {
            return false;
        }
        if column_index >= self.data[0].cells.len() {
            return false;
        }
        !matches!(self.data[0].cells[column_index].sort_by, KeyType::Absent)
    }

    /// Whether column `index` carries the direction indicator: only the
    /// currently active, sortable column does.
    pub fn is_active_sort_column(&self, index: usize) -> (r: bool)
        ensures
            r == (col_sortable(self.data@, index as int) && index == self.sorted_col_index),
    {
        self.is_column_sortable(index) && self.get_sorted_col_index() == index
    }

    /// Resolves the default-sort column from its name — falling back to
    /// column 0 when the name is absent, unknown, or names an unsortable
    /// column — records it, and, if that column is sortable, stable-sorts
    /// the rows by it. Builder style: returns the updated state.
    pub fn set_default_sort(self, column_name: Option<String>) -> (r: Self)
        requires
            self.wf(),
        ensures
            r.wf(),
            r.headers == self.headers,
            r.sort_ascending == self.sort_ascending,
            r.sorted_col_index as int == resolve_default_col(
                self.headers@,
                self.data@,
                column_name,
            ),
            col_sortable(self.data@, resolve_default_col(self.headers@, self.data@, column_name))
                ==> r.data@ == sort_rows(
                self.data@,
                resolve_default_col(self.headers@, self.data@, column_name),
            ),
            !col_sortable(self.data@, resolve_default_col(self.headers@, self.data@, column_name))
                ==> r.data@ == self.data@,
    {
        let mut s = self;
        let ghost orig = s.data@;
        let column_index: usize = match &column_name {
            Some(col) => {
                let p = find_header(&s.headers, col);
                if p < s.headers.len() && s.is_column_sortable(p) {
                    p
                } else {
                    0
                }
            },
            None => 0,
        };
        s.sorted_col_index = column_index;
        if s.is_column_sortable(column_index) {
            sort_by_column(&mut s.data, column_index);
            proof {
                lemma_sort_rows_len(orig, column_index as int);
                assert forall|k: int| 0 <= k < s.data@.len() implies (
                #[trigger] s.data@[k]).cells@.len() == s.headers@.len() by {
                    lemma_sort_rows_elem(orig, column_index as int, k);
                    let j = choose|j: int| 0 <= j < orig.len() && orig[j] == s.data@[k];
                }
            }
        }
        s
    }

    /// A click on header column `index`: a non-sortable column is ignored; a
    /// re-click on the active column reverses the rows in place and flips
    /// the direction; a click on a different sortable column re-sorts by
    /// that column in the comparator's native order and always resets the
    /// direction to ascending.
    pub fn on_header_click(&mut self, index: usize)
        requires
            old(self).wf(),
        ensures
            final(self).wf(),
            final(self).headers == old(self).headers,
            !col_sortable(old(self).data@, index as int) ==> *final(self) == *old(self),
            (col_sortable(old(self).data@, index as int) && index == old(self).sorted_col_index)
                ==> final(self).data@ == old(self).data@.reverse(),
            (col_sortable(old(self).data@, index as int) && index == old(self).sorted_col_index)
                ==> final(self).sort_ascending == !old(self).sort_ascending,
            (col_sortable(old(self).data@, index as int) && index != old(self).sorted_col_index)
                ==> final(self).data@ == sort_rows(old(self).data@, index as int),
            (col_sortable(old(self).data@, index as int) && index != old(self).sorted_col_index)
                ==> final(self).sort_ascending == true,
            col_sortable(old(self).data@, index as int) ==> final(self).sorted_col_index == index,
    {
        let ghost orig = self.data@;
        if !self.is_column_sortable(index) {
            return;
        }
        let sorted_col_index = self.get_sorted_col_index();
        if sorted_col_index == index {
            self.reverse_data();
            self.toggle_sort_direction();
            proof {
                assert forall|k: int| 0 <= k < self.data@.len() implies (
                #[trigger] self.data@[k]).cells@.len() == self.headers@.len() by {
                    assert(self.data@[k] == orig[orig.len() - 1 - k]);
                }
            }
        } else {
            sort_by_column(&mut self.data, index);
            self.set_sort_direction(true);
            proof {
                lemma_sort_rows_len(orig, index as int);
                assert forall|k: int| 0 <= k < self.data@.len() implies (
                #[trigger] self.data@[k]).cells@.len() == self.headers@.len() by {
                    lemma_sort_rows_elem(orig, index as int, k);
                    let j = choose|j: int| 0 <= j < orig.len() && orig[j] == self.data@[k];
                }
            }
        }
        self.set_sorted_col_index(index);
    }
}

} // verus!
