use domius::web::data::table::{
    aria_sort, container_classes, empty_colspan, has_filter_row, table_classes, visible_rows,
    Column, ColumnAlign, DataTableProps, RowData, SortDirection, TableState,
};

fn row(cells: &[(&str, &str)]) -> RowData {
    RowData {
        cells: cells
            .iter()
            .map(|(f, v)| (f.to_string(), v.to_string()))
            .collect(),
    }
}

fn people() -> Vec<RowData> {
    vec![
        row(&[("name", "Carol"), ("city", "Oslo")]),
        row(&[("name", "alice"), ("city", "Bergen")]),
        row(&[("name", "Bob"), ("city", "oslo")]),
        row(&[("city", "Paris")]),
    ]
}

fn shown(state: &TableState) -> Vec<usize> {
    visible_rows(state).into_iter().map(|(i, _)| i).collect()
}

#[test]
fn unfiltered_unsorted_rows_keep_their_order() {
    let state = TableState::new(people());
    let rows = visible_rows(&state);
    assert_eq!(rows.iter().map(|(i, _)| *i).collect::<Vec<_>>(), vec![0, 1, 2, 3]);
    assert_eq!(rows[1].1.cells[0], ("name".to_string(), "alice".to_string()));
}

#[test]
fn filter_ignores_case_and_needs_the_cell() {
    let mut state = TableState::new(people());
    state.set_filter("city".to_string(), "OSL".to_string());
    assert_eq!(shown(&state), vec![0, 2]);
    state.set_filter("name".to_string(), "o".to_string());
    assert_eq!(shown(&state), vec![0, 2]);
    state.set_filter("name".to_string(), "bo".to_string());
    assert_eq!(shown(&state), vec![2]);
}

#[test]
fn empty_filter_text_removes_the_filter() {
    let mut state = TableState::new(people());
    state.set_filter("name".to_string(), "zzz".to_string());
    assert!(shown(&state).is_empty());
    state.set_filter("name".to_string(), String::new());
    assert_eq!(shown(&state), vec![0, 1, 2, 3]);
}

#[test]
fn filter_on_a_missing_field_hides_rows_without_it() {
    let mut state = TableState::new(people());
    state.set_filter("name".to_string(), "".to_string());
    assert_eq!(shown(&state).len(), 4);
    state.set_filter("name".to_string(), "a".to_string());
    assert_eq!(shown(&state), vec![0, 1]);
}

#[test]
fn sort_cycles_ascending_descending_unsorted() {
    let mut state = TableState::new(people());
    assert_eq!(state.cycle_sort("name".to_string()), SortDirection::Asc);
    // Missing value first, then case-insensitive order.
    assert_eq!(shown(&state), vec![3, 1, 2, 0]);
    assert_eq!(state.cycle_sort("name".to_string()), SortDirection::Desc);
    assert_eq!(shown(&state), vec![0, 2, 1, 3]);
    assert_eq!(state.cycle_sort("name".to_string()), SortDirection::Unsorted);
    assert_eq!(shown(&state), vec![0, 1, 2, 3]);
}

#[test]
fn sorting_another_column_starts_ascending() {
    let mut state = TableState::new(people());
    assert_eq!(state.cycle_sort("name".to_string()), SortDirection::Asc);
    assert_eq!(state.cycle_sort("city".to_string()), SortDirection::Asc);
    // "oslo" and "Oslo" tie after lowercasing and keep their order.
    assert_eq!(shown(&state), vec![1, 0, 2, 3]);
}

#[test]
fn ties_keep_row_order_when_descending() {
    let mut state = TableState::new(vec![
        row(&[("k", "b")]),
        row(&[("k", "A")]),
        row(&[("k", "B")]),
        row(&[("k", "a")]),
    ]);
    state.cycle_sort("k".to_string());
    assert_eq!(shown(&state), vec![1, 3, 0, 2]);
    state.cycle_sort("k".to_string());
    assert_eq!(shown(&state), vec![0, 2, 1, 3]);
}

#[test]
fn selection_toggles() {
    let mut state = TableState::new(people());
    assert!(!state.is_selected(2));
    assert!(state.toggle_selected(2));
    assert!(state.is_selected(2));
    assert!(!state.toggle_selected(2));
    assert!(!state.is_selected(2));
}

#[test]
fn row_lookup_takes_the_named_cell() {
    let r = row(&[("a", "1"), ("b", "2")]);
    assert_eq!(r.get(&"b".to_string()), Some(&"2".to_string()));
    assert_eq!(r.get(&"c".to_string()), None);
}

#[test]
fn table_tokens_and_classes() {
    assert_eq!(ColumnAlign::default(), ColumnAlign::Left);
    assert_eq!(ColumnAlign::Center.as_str(), "center");
    assert_eq!(ColumnAlign::Right.as_str(), "right");
    assert_eq!(container_classes(&None), "table-container");
    assert_eq!(container_classes(&Some("wide".to_string())), "table-container wide");
    assert_eq!(table_classes(true, true), "table table-striped table-hoverable");
    assert_eq!(table_classes(false, true), "table table-hoverable");
    assert_eq!(table_classes(false, false), "table");
    assert_eq!(empty_colspan(3, true), 4);
    assert_eq!(empty_colspan(3, false), 3);
}

#[test]
fn aria_sort_marks_only_the_sorted_column() {
    let name = "name".to_string();
    let city = "city".to_string();
    assert_eq!(aria_sort(&name, &name, SortDirection::Asc), "ascending");
    assert_eq!(aria_sort(&name, &name, SortDirection::Desc), "descending");
    assert_eq!(aria_sort(&name, &name, SortDirection::Unsorted), "none");
    assert_eq!(aria_sort(&city, &name, SortDirection::Asc), "none");
}

#[test]
fn filter_row_needs_a_filterable_column() {
    let column = |filterable| Column {
        field: "f".to_string(),
        header: "F".to_string(),
        sortable: true,
        filterable,
        width: None,
        align: ColumnAlign::Left,
    };
    assert!(has_filter_row(true, &vec![column(false), column(true)]));
    assert!(!has_filter_row(true, &vec![column(false)]));
    assert!(!has_filter_row(false, &vec![column(true)]));
}

#[test]
fn data_table_props_defaults() {
    let props = DataTableProps::default();
    assert!(props.columns.is_empty());
    assert!(props.sortable && props.striped && props.hoverable);
    assert!(!props.filterable && !props.selectable && !props.virtualized);
    assert!(props.row_height.is_none() && props.on_row_click.is_none() && props.on_sort.is_none());
}

#[test]
fn row_insert_replaces_the_cell_of_a_field() {
    let mut r = RowData::new();
    r.insert("name".to_string(), "Ada".to_string());
    r.insert("age".to_string(), "36".to_string());
    r.insert("name".to_string(), "Grace".to_string());
    assert_eq!(r.cells.len(), 2);
    assert_eq!(r.get(&"name".to_string()), Some(&"Grace".to_string()));
    assert_eq!(r.get(&"age".to_string()), Some(&"36".to_string()));
    assert_eq!(r.get(&"city".to_string()), None);
    assert_eq!(r.cells[0].0, "name");
}
