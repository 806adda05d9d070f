use tw_components::keytype::KeyType;
use tw_components::sorttable::SortTableState;
use tw_components::sorttable::SortableCell;
use tw_components::sorttable::SortableRow;

fn person(name: &str, age: i128, tag: u32) -> SortableRow<u32> {
    let name_cell = SortableCell::new(tag).sort_by(KeyType::String(name.to_string()));
    let age_cell = SortableCell::new(tag).sort_by(KeyType::Integer(age));
    SortableRow::new(vec![name_cell, age_cell])
}

fn tags<C: Copy>(state: &SortTableState<C>) -> Vec<C> {
    let mut out = Vec::new();
    for row in &state.data {
        out.push(row.cells[0].content);
    }
    out
}

fn people_headers() -> Vec<String> {
    vec!["Name".to_string(), "Age".to_string()]
}

#[test]
fn default_sort_by_age_is_descending() {
    let data = vec![person("Bob", 30, 1), person("Amy", 25, 2)];
    let state = SortTableState::new(people_headers(), data, 0)
        .set_default_sort(Some("Age".to_string()));
    assert_eq!(state.sorted_col_index, 1);
    assert!(state.is_sort_ascending());
    assert_eq!(tags(&state), vec![1, 2]);
    assert!(matches!(state.data[0].cells[1].sort_by, KeyType::Integer(30)));
    assert!(matches!(state.data[1].cells[1].sort_by, KeyType::Integer(25)));
}

#[test]
fn default_sort_by_name_is_lexicographic() {
    let data = vec![person("Bob", 30, 1), person("Amy", 25, 2)];
    let state = SortTableState::new(people_headers(), data, 0)
        .set_default_sort(Some("Name".to_string()));
    assert_eq!(state.sorted_col_index, 0);
    assert_eq!(tags(&state), vec![2, 1]);
}

#[test]
fn string_sort_orders_many_rows() {
    let data = vec![
        person("Cara", 1, 1),
        person("Amy", 2, 2),
        person("Bob", 3, 3),
        person("Abe", 4, 4),
    ];
    let state = SortTableState::new(people_headers(), data, 0)
        .set_default_sort(Some("Name".to_string()));
    assert_eq!(tags(&state), vec![4, 2, 3, 1]);
}

#[test]
fn integer_sort_puts_larger_first() {
    let data = vec![
        person("a", 5, 1),
        person("b", 40, 2),
        person("c", -3, 3),
        person("d", 12, 4),
    ];
    let state = SortTableState::new(people_headers(), data, 0)
        .set_default_sort(Some("Age".to_string()));
    assert_eq!(tags(&state), vec![2, 4, 1, 3]);
}

#[test]
fn sort_is_stable_on_equal_keys() {
    let data = vec![
        person("dup", 7, 1),
        person("dup", 7, 2),
        person("aaa", 7, 3),
        person("dup", 7, 4),
    ];
    let state = SortTableState::new(people_headers(), data, 0)
        .set_default_sort(Some("Age".to_string()));
    assert_eq!(tags(&state), vec![1, 2, 3, 4]);
    let data = vec![
        person("dup", 1, 1),
        person("dup", 2, 2),
        person("aaa", 3, 3),
        person("dup", 4, 4),
    ];
    let state = SortTableState::new(people_headers(), data, 0)
        .set_default_sort(Some("Name".to_string()));
    assert_eq!(tags(&state), vec![3, 1, 2, 4]);
}

#[test]
fn reclick_twice_restores_order_and_direction() {
    let data = vec![person("Bob", 30, 1), person("Amy", 25, 2), person("Cara", 40, 3)];
    let mut state = SortTableState::new(people_headers(), data, 0)
        .set_default_sort(Some("Name".to_string()));
    let before = tags(&state);
    let dir_before = state.is_sort_ascending();
    state.on_header_click(0);
    assert_eq!(tags(&state), vec![3, 1, 2]);
    assert!(!state.is_sort_ascending());
    state.on_header_click(0);
    assert_eq!(tags(&state), before);
    assert_eq!(state.is_sort_ascending(), dir_before);
}

#[test]
fn clicking_other_column_resets_direction_and_resorts() {
    let data = vec![person("Bob", 30, 1), person("Amy", 25, 2), person("Cara", 40, 3)];
    let mut state = SortTableState::new(people_headers(), data, 0)
        .set_default_sort(Some("Name".to_string()));
    state.on_header_click(0);
    assert!(!state.is_sort_ascending());
    state.on_header_click(1);
    assert_eq!(state.get_sorted_col_index(), 1);
    assert!(state.is_sort_ascending());
    assert_eq!(tags(&state), vec![3, 1, 2]);
}

#[test]
fn clicking_non_sortable_column_changes_nothing() {
    let plain = SortableCell::new(9u32);
    let keyed = SortableCell::new(8u32).sort_by(KeyType::Integer(1));
    let row = SortableRow::new(vec![keyed, plain]);
    let keyed2 = SortableCell::new(6u32).sort_by(KeyType::Integer(2));
    let plain2 = SortableCell::new(7u32);
    let row2 = SortableRow::new(vec![keyed2, plain2]);
    let headers = vec!["Keyed".to_string(), "Plain".to_string()];
    let mut state = SortTableState::new(headers, vec![row, row2], 0)
        .set_default_sort(Some("Keyed".to_string()));
    let order_before = tags(&state);
    let col_before = state.get_sorted_col_index();
    let dir_before = state.is_sort_ascending();
    state.on_header_click(1);
    assert_eq!(tags(&state), order_before);
    assert_eq!(state.get_sorted_col_index(), col_before);
    assert_eq!(state.is_sort_ascending(), dir_before);
    state.on_header_click(17);
    assert_eq!(tags(&state), order_before);
    assert_eq!(state.get_sorted_col_index(), col_before);
    assert_eq!(state.is_sort_ascending(), dir_before);
}

#[test]
fn unknown_default_sort_behaves_like_none() {
    let data_a = vec![person("Bob", 30, 1), person("Amy", 25, 2)];
    let data_b = vec![person("Bob", 30, 1), person("Amy", 25, 2)];
    let with_unknown = SortTableState::new(people_headers(), data_a, 0)
        .set_default_sort(Some("Nonexistent".to_string()));
    let with_none = SortTableState::new(people_headers(), data_b, 0).set_default_sort(None);
    assert_eq!(with_unknown.sorted_col_index, 0);
    assert_eq!(with_none.sorted_col_index, 0);
    assert_eq!(tags(&with_unknown), tags(&with_none));
    assert_eq!(tags(&with_unknown), vec![2, 1]);
}

#[test]
fn default_sort_on_unsortable_named_column_falls_back() {
    let plain = SortableCell::new(1u32);
    let keyed = SortableCell::new(1u32).sort_by(KeyType::String("b".to_string()));
    let row = SortableRow::new(vec![keyed, plain]);
    let keyed2 = SortableCell::new(2u32).sort_by(KeyType::String("a".to_string()));
    let plain2 = SortableCell::new(2u32);
    let row2 = SortableRow::new(vec![keyed2, plain2]);
    let headers = vec!["Keyed".to_string(), "Plain".to_string()];
    let state = SortTableState::new(headers, vec![row, row2], 0)
        .set_default_sort(Some("Plain".to_string()));
    assert_eq!(state.sorted_col_index, 0);
    assert_eq!(tags(&state), vec![2, 1]);
}

#[test]
fn empty_table_default_sort_is_a_no_op() {
    let state: SortTableState<u32> = SortTableState::new(people_headers(), Vec::new(), 0)
        .set_default_sort(Some("Age".to_string()));
    assert_eq!(state.sorted_col_index, 0);
    assert!(state.data.is_empty());
    assert!(!state.is_column_sortable(0));
}

#[test]
fn new_stores_inputs_verbatim() {
    let data = vec![person("Bob", 30, 1)];
    let state = SortTableState::new(people_headers(), data, 1);
    assert_eq!(state.headers, people_headers());
    assert_eq!(state.get_sorted_col_index(), 1);
    assert!(state.is_sort_ascending());
    assert_eq!(tags(&state), vec![1]);
}

#[test]
fn accessors_and_mutators_work() {
    let data = vec![person("Bob", 30, 1), person("Amy", 25, 2)];
    let mut state = SortTableState::new(people_headers(), data, 0);
    state.set_sorted_col_index(1);
    assert_eq!(state.get_sorted_col_index(), 1);
    state.set_sort_direction(false);
    assert!(!state.is_sort_ascending());
    state.toggle_sort_direction();
    assert!(state.is_sort_ascending());
    state.reverse_data();
    assert_eq!(tags(&state), vec![2, 1]);
    state.reverse_data();
    assert_eq!(tags(&state), vec![1, 2]);
}

#[test]
fn sortability_judged_by_first_row() {
    let data = vec![person("Bob", 30, 1)];
    let state = SortTableState::new(people_headers(), data, 0);
    assert!(state.is_column_sortable(0));
    assert!(state.is_column_sortable(1));
    assert!(!state.is_column_sortable(2));
}

#[test]
fn active_sort_column_indicator() {
    let data = vec![person("Bob", 30, 1), person("Amy", 25, 2)];
    let state = SortTableState::new(people_headers(), data, 0)
        .set_default_sort(Some("Age".to_string()));
    assert!(!state.is_active_sort_column(0));
    assert!(state.is_active_sort_column(1));
    assert!(!state.is_active_sort_column(2));
}

#[test]
fn cell_builders_set_style_and_key() {
    let cell = SortableCell::new("payload")
        .style("text-bold".to_string())
        .sort_by(KeyType::UnsignedInteger(3));
    assert_eq!(cell.content, "payload");
    assert_eq!(cell.style, "text-bold");
    assert!(matches!(cell.sort_by, KeyType::UnsignedInteger(3)));
    let bare = SortableCell::new(0u8);
    assert_eq!(bare.style, "");
    assert!(matches!(bare.sort_by, KeyType::Absent));
}

#[test]
fn unsigned_column_sorts_descending() {
    let mk = |v: u128, tag: u32| {
        SortableRow::new(vec![SortableCell::new(tag).sort_by(KeyType::UnsignedInteger(v))])
    };
    let headers = vec!["N".to_string()];
    let state = SortTableState::new(headers, vec![mk(2, 1), mk(9, 2), mk(4, 3)], 0)
        .set_default_sort(Some("N".to_string()));
    assert_eq!(tags(&state), vec![2, 3, 1]);
}

#[test]
fn object_keys_sort_by_wrapped_key() {
    let mk = |s: &str, tag: u32| {
        SortableRow::new(vec![SortableCell::new(tag)
            .sort_by(KeyType::Object(Box::new(KeyType::String(s.to_string()))))])
    };
    let headers = vec!["O".to_string()];
    let state = SortTableState::new(headers, vec![mk("pear", 1), mk("apple", 2), mk("plum", 3)], 0)
        .set_default_sort(Some("O".to_string()));
    assert_eq!(tags(&state), vec![2, 1, 3]);
}
