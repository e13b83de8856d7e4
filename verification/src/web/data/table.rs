//! DataTable: rows that can be filtered per column and sorted by a column.
use vstd::prelude::*;
use std::collections::HashSet;
use crate::text::{chars_of, contains_text, lemma_text_lt_irreflexive, lemma_text_lt_total, lemma_text_lt_trans, occurs_in, str_lowercase, text_less, text_lt, to_lowercase};
use crate::web::{class_names, push_extra, spaced, strs, with_extra, Handler};

verus! {

/// A column of the table.
#[derive(Clone)]
pub struct Column {
    pub field: String,
    pub header: String,
    pub sortable: bool,
    pub filterable: bool,
    pub width: Option<String>,
    pub align: ColumnAlign,
}

/// Horizontal alignment of a column's cells.
#[derive(Clone, Copy, PartialEq, Eq, Debug, Structural)]
pub enum ColumnAlign {
    Left,
    Center,
    Right,
}

impl Default for ColumnAlign {
    fn default() -> (r: Self)
        ensures
            r == ColumnAlign::Left,
    {
        ColumnAlign::Left
    }
}

impl ColumnAlign {
    /// The attribute token of the alignment.
    pub open spec fn token(self) -> Seq<char> {
        match self {
            ColumnAlign::Left => "left"@,
            ColumnAlign::Center => "center"@,
            ColumnAlign::Right => "right"@,
        }
    }

    /// The attribute token of the alignment.
    pub fn as_str(self) -> (r: &'static str)
        ensures
            r@ == self.token(),
    {
        match self {
            ColumnAlign::Left => "left",
            ColumnAlign::Center => "center",
            ColumnAlign::Right => "right",
        }
    }
}

/// Direction in which a column sorts.
#[derive(Clone, Copy, Debug, PartialEq, Eq, Structural)]
pub enum SortDirection {
    Asc,
    Desc,
    Unsorted,
}

/// The cells of one row: a field name and its value each; a field names
/// at most one cell.
pub struct RowData {
    pub cells: Vec<(String, String)>,
}

/// The value of the first cell named `field`.
pub open spec fn lookup(cells: Seq<(String, String)>, field: Seq<char>) -> Option<Seq<char>>
    decreases cells.len(),
{
    if cells.len() == 0 {
        None
    } else if cells[0].0@ == field {
        Some(cells[0].1@)
    } else {
        lookup(cells.drop_first(), field)
    }
}

/// The field names and values of some cells.
pub open spec fn cell_views(cells: Seq<(String, String)>) -> Seq<(Seq<char>, Seq<char>)> {
    Seq::new(cells.len(), |i: int| (cells[i].0@, cells[i].1@))
}

proof fn lemma_lookup_skip(cells: Seq<(String, String)>, field: Seq<char>, i: int)
    requires
        0 <= i < cells.len(),
    ensures
        lookup(cells.skip(i), field) == if cells[i].0@ == field {
            Some(cells[i].1@)
        } else {
            lookup(cells.skip(i + 1), field)
        },
{
    assert(cells.skip(i).drop_first() =~= cells.skip(i + 1));
}

proof fn lemma_lookup_views(a: Seq<(String, String)>, b: Seq<(String, String)>, field: Seq<char>)
    requires
        cell_views(a) == cell_views(b),
    ensures
        lookup(a, field) == lookup(b, field),
    decreases a.len(),
{
    assert(a.len() == cell_views(a).len() && b.len() == cell_views(b).len());
    if a.len() > 0 {
        assert(cell_views(a)[0] == cell_views(b)[0]);
        assert(cell_views(a.drop_first()) =~= cell_views(a).drop_first());
        assert(cell_views(b.drop_first()) =~= cell_views(b).drop_first());
        lemma_lookup_views(a.drop_first(), b.drop_first(), field);
    }
}

/// No two cells share a field name.
pub open spec fn fields_unique(cells: Seq<(String, String)>) -> bool {
    forall|a: int, b: int| 0 <= a < b < cells.len() ==> cells[a].0@ != cells[b].0@
}

/// `lookup` finds the first cell of a field, or nothing when no cell has it.
proof fn lemma_lookup_first(cells: Seq<(String, String)>, field: Seq<char>)
    ensures
        (forall|k: int| 0 <= k < cells.len() ==> cells[k].0@ != field) ==> lookup(cells, field) is None,
        forall|k: int|
            0 <= k < cells.len() && cells[k].0@ == field && (forall|j: int| 0 <= j < k ==> cells[j].0@ != field)
                ==> lookup(cells, field) == Some(cells[k].1@),
    decreases cells.len(),
{
    if cells.len() > 0 {
        let rest = cells.drop_first();
        lemma_lookup_first(rest, field);
        assert forall|k: int|
            0 <= k < cells.len() && cells[k].0@ == field && (forall|j: int| 0 <= j < k ==> cells[j].0@ != field)
                implies lookup(cells, field) == Some(cells[k].1@) by {
            if k > 0 {
                assert(cells[0].0@ != field);
                assert(rest[k - 1] == cells[k]);
                assert forall|j: int| 0 <= j < k - 1 implies rest[j].0@ != field by {
                    assert(rest[j] == cells[j + 1]);
                }
            }
        }
        if forall|k: int| 0 <= k < cells.len() ==> cells[k].0@ != field {
            assert forall|k: int| 0 <= k < rest.len() implies rest[k].0@ != field by {
                assert(rest[k] == cells[k + 1]);
            }
        }
    }
}

/// Two cell lists with the same field names in every place look up each
/// field alike, except for the value of the cell at place `i`.
proof fn lemma_lookup_same_fields(a: Seq<(String, String)>, b: Seq<(String, String)>, field: Seq<char>, i: int)
    requires
        a.len() == b.len(),
        0 <= i < a.len(),
        forall|k: int| 0 <= k < a.len() ==> a[k].0@ == b[k].0@,
        forall|k: int| 0 <= k < a.len() && k != i ==> a[k].1@ == b[k].1@,
        a[i].0@ != field,
    ensures
        lookup(a, field) == lookup(b, field),
{
    lemma_lookup_first(a, field);
    lemma_lookup_first(b, field);
    if exists|k: int| 0 <= k < a.len() && a[k].0@ == field {
        let k0 = choose|k: int| 0 <= k < a.len() && a[k].0@ == field;
        let first = first_with(a, field, k0);
        assert(b[first].0@ == field);
        assert forall|j: int| 0 <= j < first implies b[j].0@ != field by {
            assert(a[j].0@ != field);
        }
    } else {
        assert forall|k: int| 0 <= k < b.len() implies b[k].0@ != field by {
            assert(a[k].0@ == b[k].0@);
        }
    }
}

/// The first place at or before `k` whose cell has `field`.
proof fn first_with(cells: Seq<(String, String)>, field: Seq<char>, k: int) -> (f: int)
    requires
        0 <= k < cells.len(),
        cells[k].0@ == field,
    ensures
        0 <= f <= k,
        cells[f].0@ == field,
        forall|j: int| 0 <= j < f ==> cells[j].0@ != field,
    decreases k,
{
    if exists|j: int| 0 <= j < k && cells[j].0@ == field {
        let j = choose|j: int| 0 <= j < k && cells[j].0@ == field;
        first_with(cells, field, j)
    } else {
        k
    }
}

impl RowData {
    /// A row with no cells.
    pub fn new() -> (r: RowData)
        ensures
            r.cells@.len() == 0,
    {
        RowData { cells: Vec::new() }
    }

    /// Set the cell of `field` to `value`: the row's one cell of that field
    /// changes, or a new cell is added after the others.
    pub fn insert(&mut self, field: String, value: String)
        requires
            fields_unique(old(self).cells@),
        ensures
            fields_unique(final(self).cells@),
            forall|f: Seq<char>| #[trigger] lookup(final(self).cells@, f) == if f == field@ {
                Some(value@)
            } else {
                lookup(old(self).cells@, f)
            },
    {
        let mut i: usize = 0;
        while i < self.cells.len()
            invariant
                i <= self.cells.len(),
                self.cells@ == old(self).cells@,
                fields_unique(old(self).cells@),
                forall|j: int| 0 <= j < i ==> self.cells@[j].0@ != field@,
            decreases self.cells.len() - i,
        {
            if self.cells[i].0 == field {
                let ghost before = self.cells@;
                assert(before[i as int].0@ == field@);
                let cell = (field, value);
                self.cells.set(i, cell);
                proof {
                    let after = self.cells@;
                    assert forall|f: Seq<char>| #[trigger] lookup(after, f) == if f == cell.0@ {
                        Some(cell.1@)
                    } else {
                        lookup(before, f)
                    } by {
                        if f == cell.0@ {
                            lemma_lookup_first(after, f);
                            assert(after[i as int] == cell);
                            assert forall|j: int| 0 <= j < i implies after[j].0@ != f by {
                                assert(after[j] == before[j]);
                            }
                        } else {
                            lemma_lookup_same_fields(before, after, f, i as int);
                        }
                    }
                    assert forall|x: int, y: int| 0 <= x < y < after.len() implies after[x].0@ != after[y].0@ by {
                        assert(after[x].0@ == before[x].0@ && after[y].0@ == before[y].0@);
                        assert(before == old(self).cells@);
                        assert(before[x].0@ != before[y].0@);
                    }
                }
                return;
            }
            i = i + 1;
        }
        let ghost before = self.cells@;
        let ghost fv = field@;
        let ghost vv = value@;
        self.cells.push((field, value));
        proof {
            let after = self.cells@;
            let n = before.len() as int;
            assert forall|f: Seq<char>| #[trigger] lookup(after, f) == if f == fv {
                Some(vv)
            } else {
                lookup(before, f)
            } by {
                lemma_lookup_first(after, f);
                lemma_lookup_first(before, f);
                if f == fv {
                    assert(after[n].0@ == f);
                    assert forall|j: int| 0 <= j < n implies after[j].0@ != f by {
                        assert(after[j] == before[j]);
                    }
                } else if exists|k: int| 0 <= k < n && before[k].0@ == f {
                    let k0 = choose|k: int| 0 <= k < n && before[k].0@ == f;
                    let first = first_with(before, f, k0);
                    assert(after[first] == before[first]);
                    assert forall|j: int| 0 <= j < first implies after[j].0@ != f by {
                        assert(after[j] == before[j]);
                    }
                } else {
                    assert forall|k: int| 0 <= k < after.len() implies after[k].0@ != f by {
                        if k < n {
                            assert(after[k] == before[k]);
                        }
                    }
                }
            }
            assert forall|a: int, b: int| 0 <= a < b < after.len() implies after[a].0@ != after[b].0@ by {
                if b < n {
                    assert(after[a] == before[a] && after[b] == before[b]);
                } else {
                    assert(after[a] == before[a]);
                }
            }
        }
    }

    /// The row's cells as field names and values.
    pub open spec fn view(&self) -> Seq<(Seq<char>, Seq<char>)> {
        cell_views(self.cells@)
    }

    /// The value of the cell named `field`, if there is one.
    pub fn get(&self, field: &String) -> (r: Option<&String>)
        ensures
            match r {
                Some(v) => lookup(self.cells@, field@) == Some(v@),
                None => lookup(self.cells@, field@) is None,
            },
    {
        let mut i: usize = 0;
        assert(self.cells@.skip(0) =~= self.cells@);
        while i < self.cells.len()
            invariant
                i <= self.cells.len(),
                lookup(self.cells@, field@) == lookup(self.cells@.skip(i as int), field@),
            decreases self.cells.len() - i,
        {
            proof {
                lemma_lookup_skip(self.cells@, field@, i as int);
            }
            if self.cells[i].0 == *field {
                return Some(&self.cells[i].1);
            }
            i = i + 1;
        }
        None
    }

    /// A copy of the row.
    pub fn copy(&self) -> (r: RowData)
        ensures
            r@ == self@,
    {
        let mut cells: Vec<(String, String)> = Vec::new();
        let mut i: usize = 0;
        while i < self.cells.len()
            invariant
                i <= self.cells.len(),
                cells@.len() == i,
                cell_views(cells@) =~= cell_views(self.cells@.take(i as int)),
            decreases self.cells.len() - i,
        {
            let field = self.cells[i].0.clone();
            let value = self.cells[i].1.clone();
            assert(field@ == self.cells@[i as int].0@ && value@ == self.cells@[i as int].1@);
            let ghost before = cells@;
            cells.push((field, value));
            assert(cells@ == before.push((field, value)));
            assert forall|j: int| 0 <= j < i + 1 implies #[trigger] cell_views(cells@)[j] == cell_views(self.cells@.take(i + 1))[j] by {
                if j < i {
                    assert(cell_views(before)[j] == cell_views(self.cells@.take(i as int))[j]);
                }
            }
            assert(cell_views(cells@) =~= cell_views(self.cells@.take(i + 1)));
            i = i + 1;
        }
        assert(self.cells@.take(self.cells.len() as int) =~= self.cells@);
        RowData { cells }
    }
}

/// Props for the DataTable component.
pub struct DataTableProps {
    pub columns: Vec<Column>,
    pub data: Vec<RowData>,
    pub sortable: bool,
    pub filterable: bool,
    pub selectable: bool,
    pub striped: bool,
    pub hoverable: bool,
    pub virtualized: bool,
    pub row_height: Option<u32>,
    pub on_row_click: Option<Box<dyn Handler<usize>>>,
    pub on_sort: Option<Box<dyn Handler<(String, SortDirection)>>>,
    pub class: Option<String>,
}

impl Default for DataTableProps {
    fn default() -> (r: Self)
        ensures
            r.columns@.len() == 0,
            r.data@.len() == 0,
            r.sortable,
            !r.filterable,
            !r.selectable,
            r.striped,
            r.hoverable,
            !r.virtualized,
            r.row_height is None,
            r.on_row_click is None,
            r.on_sort is None,
            r.class is None,
    {
        DataTableProps {
            columns: Vec::new(),
            data: Vec::new(),
            sortable: true,
            filterable: false,
            selectable: false,
            striped: true,
            hoverable: true,
            virtualized: false,
            row_height: None,
            on_row_click: None,
            on_sort: None,
            class: None,
        }
    }
}

/// The DataTable component.
pub struct DataTable;

/// Class names of the element around the table.
pub fn container_classes(class: &Option<String>) -> (r: String)
    ensures
        r@ == spaced(with_extra(seq!["table-container"@], *class)),
{
    let mut parts: Vec<String> = Vec::new();
    parts.push("table-container".to_owned());
    assert(strs(parts@) =~= seq!["table-container"@]);
    push_extra(&mut parts, class);
    class_names(&parts)
}

/// The optional style classes of the table, in order.
pub open spec fn table_class_list(striped: bool, hoverable: bool) -> Seq<Seq<char>> {
    let base = seq!["table"@];
    let with_stripes = if striped { base.push("table-striped"@) } else { base };
    if hoverable { with_stripes.push("table-hoverable"@) } else { with_stripes }
}

/// Class names of the table element.
pub fn table_classes(striped: bool, hoverable: bool) -> (r: String)
    ensures
        r@ == spaced(table_class_list(striped, hoverable)),
{
    let mut parts: Vec<String> = Vec::new();
    parts.push("table".to_owned());
    if striped {
        parts.push("table-striped".to_owned());
    }
    if hoverable {
        parts.push("table-hoverable".to_owned());
    }
    assert(strs(parts@) =~= table_class_list(striped, hoverable));
    class_names(&parts)
}

/// Number of columns that the "no results" cell spans.
pub fn empty_colspan(columns: usize, selectable: bool) -> (r: usize)
    requires
        columns < usize::MAX,
    ensures
        r == columns + if selectable { 1int } else { 0int },
{
    if selectable {
        columns + 1
    } else {
        columns
    }
}

/// Whether the header gets a row of filter inputs.
pub fn has_filter_row(filterable: bool, columns: &Vec<Column>) -> (r: bool)
    ensures
        r == (filterable && exists|i: int| 0 <= i < columns@.len() && #[trigger] columns@[i].filterable),
{
    if !filterable {
        return false;
    }
    let mut i: usize = 0;
    while i < columns.len()
        invariant
            filterable,
            i <= columns.len(),
            forall|j: int| 0 <= j < i ==> !(#[trigger] columns@[j]).filterable,
        decreases columns.len() - i,
    {
        if columns[i].filterable {
            assert(columns@[i as int].filterable);
            return true;
        }
        i = i + 1;
    }
    false
}

/// The direction a column takes when its header is activated: ascending
/// first, then descending, then unsorted.
pub open spec fn next_direction(sort: Option<(Seq<char>, SortDirection)>, field: Seq<char>) -> SortDirection {
    match sort {
        Some((active, SortDirection::Asc)) if active == field => SortDirection::Desc,
        Some((active, SortDirection::Desc)) if active == field => SortDirection::Unsorted,
        _ => SortDirection::Asc,
    }
}

/// The `aria-sort` token of a header: the sorted column's direction, and
/// "none" for every other column.
pub open spec fn aria_sort_token(header_field: Seq<char>, sorted_field: Seq<char>, direction: SortDirection) -> Seq<char> {
    if header_field == sorted_field {
        match direction {
            SortDirection::Asc => "ascending"@,
            SortDirection::Desc => "descending"@,
            SortDirection::Unsorted => "none"@,
        }
    } else {
        "none"@
    }
}

/// The `aria-sort` token of a header after `sorted_field` took `direction`.
pub fn aria_sort(header_field: &String, sorted_field: &String, direction: SortDirection) -> (r: &'static str)
    ensures
        r@ == aria_sort_token(header_field@, sorted_field@, direction),
{
    if *header_field == *sorted_field {
        match direction {
            SortDirection::Asc => "ascending",
            SortDirection::Desc => "descending",
            SortDirection::Unsorted => "none",
        }
    } else {
        "none"
    }
}


/// No field is named twice.
pub open spec fn unique_fields(p: Seq<(String, String)>) -> bool {
    forall|i: int, j: int| 0 <= i < j < p.len() ==> #[trigger] p[i].0@ != #[trigger] p[j].0@
}

/// Filters given as field and text pairs, as a map from field to text.
pub open spec fn filter_map(p: Seq<(String, String)>) -> Map<Seq<char>, Seq<char>> {
    Map::new(
        |k: Seq<char>| exists|i: int| 0 <= i < p.len() && #[trigger] p[i].0@ == k,
        |k: Seq<char>| p[choose|i: int| 0 <= i < p.len() && #[trigger] p[i].0@ == k].1@,
    )
}

proof fn lemma_filter_map_at(p: Seq<(String, String)>, i: int)
    requires
        unique_fields(p),
        0 <= i < p.len(),
    ensures
        filter_map(p).dom().contains(p[i].0@),
        filter_map(p)[p[i].0@] == p[i].1@,
{
    let k = p[i].0@;
    assert(exists|j: int| 0 <= j < p.len() && #[trigger] p[j].0@ == k);
    let c = choose|j: int| 0 <= j < p.len() && #[trigger] p[j].0@ == k;
    if c != i {
        if c < i {
            assert(p[c].0@ != p[i].0@);
        } else {
            assert(p[i].0@ != p[c].0@);
        }
    }
}

/// Row `row` passes every filter: it has a cell for each filtered field,
/// and the filter's text occurs in that cell, both taken in lowercase.
pub open spec fn passes(row: RowData, filters: Map<Seq<char>, Seq<char>>) -> bool {
    forall|f: Seq<char>|
        #[trigger] filters.dom().contains(f) ==> match lookup(row.cells@, f) {
            Some(v) => occurs_in(str_lowercase(filters[f]), str_lowercase(v)),
            None => false,
        }
}

/// The key by which a row sorts on `field`: its cell, lowercased.
pub open spec fn sort_key(row: RowData, field: Seq<char>) -> Option<Seq<char>> {
    match lookup(row.cells@, field) {
        Some(v) => Some(str_lowercase(v)),
        None => None,
    }
}

/// Key `a` sorts strictly before key `b`; a row without the cell sorts
/// before every row that has it.
pub open spec fn key_lt(a: Option<Seq<char>>, b: Option<Seq<char>>) -> bool {
    match (a, b) {
        (None, Some(_)) => true,
        (Some(x), Some(y)) => text_lt(x, y),
        _ => false,
    }
}

/// Key `a` comes strictly before key `b` when sorting in `dir`; every
/// direction but descending sorts ascending.
pub open spec fn key_before(a: Option<Seq<char>>, b: Option<Seq<char>>, dir: SortDirection) -> bool {
    if dir == SortDirection::Desc {
        key_lt(b, a)
    } else {
        key_lt(a, b)
    }
}

/// Row `i` is shown before row `j`: by the sort key when a sort is active,
/// with ties (and everything when no sort is active) in the rows' order.
pub open spec fn listed_before(rows: Seq<RowData>, sort: Option<(Seq<char>, SortDirection)>, i: int, j: int) -> bool {
    match sort {
        None => i < j,
        Some((field, dir)) => {
            let a = sort_key(rows[i], field);
            let b = sort_key(rows[j], field);
            key_before(a, b, dir) || (a == b && i < j)
        },
    }
}

proof fn lemma_key_lt_irreflexive(a: Option<Seq<char>>)
    ensures
        !key_lt(a, a),
{
    if let Some(x) = a {
        lemma_text_lt_irreflexive(x);
    }
}

proof fn lemma_key_lt_total(a: Option<Seq<char>>, b: Option<Seq<char>>)
    ensures
        a == b || key_lt(a, b) || key_lt(b, a),
{
    if let (Some(x), Some(y)) = (a, b) {
        lemma_text_lt_total(x, y);
    }
}

proof fn lemma_key_lt_trans(a: Option<Seq<char>>, b: Option<Seq<char>>, c: Option<Seq<char>>)
    requires
        key_lt(a, b),
        key_lt(b, c),
    ensures
        key_lt(a, c),
{
    if let (Some(x), Some(y), Some(z)) = (a, b, c) {
        lemma_text_lt_trans(x, y, z);
    }
}

/// The sort key of an executable row key.
pub open spec fn key_view(k: Option<Vec<char>>) -> Option<Seq<char>> {
    match k {
        Some(v) => Some(v@),
        None => None,
    }
}

fn key_less(a: &Option<Vec<char>>, b: &Option<Vec<char>>) -> (r: bool)
    ensures
        r == key_lt(key_view(*a), key_view(*b)),
{
    match (a, b) {
        (None, Some(_)) => true,
        (Some(x), Some(y)) => text_less(x, y),
        _ => false,
    }
}

fn comes_before(a: &Option<Vec<char>>, b: &Option<Vec<char>>, dir: SortDirection) -> (r: bool)
    ensures
        r == key_before(key_view(*a), key_view(*b), dir),
{
    if dir == SortDirection::Desc {
        key_less(b, a)
    } else {
        key_less(a, b)
    }
}

/// What the table currently shows: its rows, the text each filtered field
/// is filtered by, the active sort and the selected rows.
pub struct TableState {
    data: Vec<RowData>,
    filters: Vec<(String, String)>,
    sort: Option<(String, SortDirection)>,
    selected: HashSet<usize>,
}

impl TableState {
    /// Each filtered field has one filter.
    pub closed spec fn wf(self) -> bool {
        unique_fields(self.filters@)
    }

    /// The table's rows, in the order they were given.
    pub closed spec fn rows(self) -> Seq<RowData> {
        self.data@
    }

    /// The filter text of each filtered field.
    pub closed spec fn filters(self) -> Map<Seq<char>, Seq<char>> {
        filter_map(self.filters@)
    }

    /// The sorted field and its direction, if a sort is active.
    pub closed spec fn sort(self) -> Option<(Seq<char>, SortDirection)> {
        match self.sort {
            Some((f, d)) => Some((f@, d)),
            None => None,
        }
    }

    /// The positions of the selected rows.
    pub closed spec fn selected(self) -> Set<usize> {
        self.selected@
    }

    /// The state of a table showing `data`, unfiltered, unsorted and with
    /// nothing selected.
    pub fn new(data: Vec<RowData>) -> (st: Self)
        ensures
            st.wf(),
            st.rows() == data@,
            st.filters() == Map::<Seq<char>, Seq<char>>::empty(),
            st.sort() is None,
            st.selected() == Set::<usize>::empty(),
    {
        broadcast use vstd::std_specs::hash::group_hash_axioms;
        let st = TableState { data, filters: Vec::new(), sort: None, selected: HashSet::new() };
        assert(st.filters() =~= Map::<Seq<char>, Seq<char>>::empty());
        assert(st.selected() =~= Set::<usize>::empty());
        st
    }

    /// The rows of the table.
    pub fn data(&self) -> (r: &Vec<RowData>)
        ensures
            r@ == self.rows(),
    {
        &self.data
    }

    /// Filter `field` by `value`; an empty value removes the field's filter.
    pub fn set_filter(&mut self, field: String, value: String)
        requires
            old(self).wf(),
        ensures
            final(self).wf(),
            final(self).filters() == if value@.len() == 0 {
                old(self).filters().remove(field@)
            } else {
                old(self).filters().insert(field@, value@)
            },
            final(self).rows() == old(self).rows(),
            final(self).sort() == old(self).sort(),
            final(self).selected() == old(self).selected(),
    {
        let ghost p = self.filters@;
        let mut i: usize = 0;
        while i < self.filters.len()
            invariant
                i <= self.filters.len(),
                self.filters@ == p,
                forall|j: int| 0 <= j < i ==> (#[trigger] p[j]).0@ != field@,
            ensures
                i <= self.filters.len(),
                self.filters@ == p,
                forall|j: int| 0 <= j < i ==> (#[trigger] p[j]).0@ != field@,
                i < self.filters.len() ==> p[i as int].0@ == field@,
            decreases self.filters.len() - i,
        {
            if self.filters[i].0 == field {
                break;
            }
            i = i + 1;
        }
        let found = i < self.filters.len();
        let clear = value.as_str().is_empty();
        let ghost fv = field@;
        let ghost vv = value@;
        if found {
            assert(p[i as int].0@ == fv);
            if clear {
                self.filters.remove(i);
            } else {
                self.filters.set(i, (field, value));
            }
        } else if !clear {
            self.filters.push((field, value));
        }
        let ghost q = self.filters@;
        let ghost expect = if vv.len() == 0 {
            filter_map(p).remove(fv)
        } else {
            filter_map(p).insert(fv, vv)
        };
        assert(unique_fields(q)) by {
            assert forall|a: int, b: int| 0 <= a < b < q.len() implies #[trigger] q[a].0@ != #[trigger] q[b].0@ by {
                if found && clear {
                    let a0 = if a < i { a } else { a + 1 };
                    let b0 = if b < i { b } else { b + 1 };
                    assert(q[a] == p[a0] && q[b] == p[b0]);
                } else if found {
                    if a != i && b != i {
                        assert(q[a] == p[a] && q[b] == p[b]);
                    } else if a == i {
                        assert(q[b] == p[b]);
                        assert(p[a].0@ != p[b].0@);
                    } else {
                        assert(q[a] == p[a]);
                        assert(p[a].0@ != p[b].0@);
                    }
                } else if !clear {
                    if b < p.len() {
                        assert(q[a] == p[a] && q[b] == p[b]);
                    } else {
                        assert(q[a] == p[a]);
                    }
                }
            }
        }
        assert(filter_map(q) =~= expect) by {
            assert forall|k: Seq<char>| #[trigger] filter_map(q).dom().contains(k) implies expect.dom().contains(k)
                && filter_map(q)[k] == expect[k] by {
                let c = choose|j: int| 0 <= j < q.len() && #[trigger] q[j].0@ == k;
                lemma_filter_map_at(q, c);
                if found && clear {
                    let c0 = if c < i { c } else { c + 1 };
                    assert(q[c] == p[c0]);
                    lemma_filter_map_at(p, c0);
                    if c0 < i {
                        assert(p[c0].0@ != p[i as int].0@);
                    } else {
                        assert(p[i as int].0@ != p[c0].0@);
                    }
                } else if found && c != i {
                    assert(q[c] == p[c]);
                    lemma_filter_map_at(p, c);
                    if c < i {
                        assert(p[c].0@ != p[i as int].0@);
                    } else {
                        assert(p[i as int].0@ != p[c].0@);
                    }
                } else if !found && c < p.len() {
                    assert(q[c] == p[c]);
                    lemma_filter_map_at(p, c);
                }
            }
            assert forall|k: Seq<char>| #[trigger] expect.dom().contains(k) implies filter_map(q).dom().contains(k) by {
                if k == fv {
                    if found {
                        lemma_filter_map_at(q, i as int);
                    } else {
                        lemma_filter_map_at(q, p.len() as int);
                    }
                } else {
                    let c = choose|j: int| 0 <= j < p.len() && #[trigger] p[j].0@ == k;
                    if found && clear {
                        let c1 = if c < i { c } else { c - 1 };
                        assert(q[c1] == p[c]);
                        lemma_filter_map_at(q, c1);
                    } else {
                        assert(q[c] == p[c]);
                        lemma_filter_map_at(q, c);
                    }
                }
            }
        }
    }

    /// Advance the sort of `field` (ascending, descending, unsorted) and
    /// return its new direction.
    pub fn cycle_sort(&mut self, field: String) -> (d: SortDirection)
        requires
            old(self).wf(),
        ensures
            final(self).wf(),
            d == next_direction(old(self).sort(), field@),
            final(self).sort() == if d == SortDirection::Unsorted {
                None
            } else {
                Some((field@, d))
            },
            final(self).rows() == old(self).rows(),
            final(self).filters() == old(self).filters(),
            final(self).selected() == old(self).selected(),
    {
        let next = match &self.sort {
            Some((active, SortDirection::Asc)) if *active == field => SortDirection::Desc,
            Some((active, SortDirection::Desc)) if *active == field => SortDirection::Unsorted,
            _ => SortDirection::Asc,
        };
        if next != SortDirection::Unsorted {
            self.sort = Some((field, next));
        } else {
            self.sort = None;
        }
        next
    }

    /// Whether row `index` is selected.
    pub fn is_selected(&self, index: usize) -> (r: bool)
        ensures
            r == self.selected().contains(index),
    {
        broadcast use vstd::std_specs::hash::group_hash_axioms;
        self.selected.contains(&index)
    }

    /// Select row `index` if it was not selected, else unselect it; return
    /// whether it is selected now.
    pub fn toggle_selected(&mut self, index: usize) -> (now: bool)
        requires
            old(self).wf(),
        ensures
            final(self).wf(),
            now == !old(self).selected().contains(index),
            final(self).selected() == if now {
                old(self).selected().insert(index)
            } else {
                old(self).selected().remove(index)
            },
            final(self).rows() == old(self).rows(),
            final(self).filters() == old(self).filters(),
            final(self).sort() == old(self).sort(),
    {
        broadcast use vstd::std_specs::hash::group_hash_axioms;
        if self.selected.contains(&index) {
            self.selected.remove(&index);
            false
        } else {
            self.selected.insert(index);
            true
        }
    }
}


/// The filter `pair` (field and text) accepts `row`.
pub open spec fn filter_accepts(row: RowData, pair: (String, String)) -> bool {
    match lookup(row.cells@, pair.0@) {
        Some(v) => occurs_in(str_lowercase(pair.1@), str_lowercase(v)),
        None => false,
    }
}

/// The lowercase characters of `s`.
fn lower_chars(s: &String) -> (r: Vec<char>)
    ensures
        r@ == str_lowercase(s@),
{
    let low = to_lowercase(s.as_str());
    chars_of(low.as_str())
}

fn row_passes(row: &RowData, filters: &Vec<(String, String)>) -> (r: bool)
    requires
        unique_fields(filters@),
    ensures
        r == passes(*row, filter_map(filters@)),
{
    let mut i: usize = 0;
    while i < filters.len()
        invariant
            unique_fields(filters@),
            i <= filters.len(),
            forall|j: int| 0 <= j < i ==> filter_accepts(*row, #[trigger] filters@[j]),
        decreases filters.len() - i,
    {
        let accepted = match row.get(&filters[i].0) {
            None => false,
            Some(v) => {
                let hay = lower_chars(v);
                let needle = lower_chars(&filters[i].1);
                contains_text(&hay, &needle)
            },
        };
        if !accepted {
            proof {
                lemma_filter_map_at(filters@, i as int);
                let f = filters@[i as int].0@;
                assert(filter_map(filters@).dom().contains(f));
            }
            return false;
        }
        i = i + 1;
    }
    proof {
        let m = filter_map(filters@);
        assert forall|f: Seq<char>| #[trigger] m.dom().contains(f) implies match lookup(row.cells@, f) {
            Some(v) => occurs_in(str_lowercase(m[f]), str_lowercase(v)),
            None => false,
        } by {
            let c = choose|j: int| 0 <= j < filters@.len() && #[trigger] filters@[j].0@ == f;
            lemma_filter_map_at(filters@, c);
            assert(filter_accepts(*row, filters@[c]));
        }
    }
    true
}

/// The sort key of `row` on `field`.
fn row_key(row: &RowData, field: &String) -> (r: Option<Vec<char>>)
    ensures
        key_view(r) == sort_key(*row, field@),
{
    match row.get(field) {
        Some(v) => Some(lower_chars(v)),
        None => None,
    }
}

proof fn lemma_key_before_trans(a: Option<Seq<char>>, b: Option<Seq<char>>, c: Option<Seq<char>>, dir: SortDirection)
    requires
        key_before(a, b, dir),
        key_before(b, c, dir) || b == c,
    ensures
        key_before(a, c, dir),
{
    if b != c {
        if dir == SortDirection::Desc {
            lemma_key_lt_trans(c, b, a);
        } else {
            lemma_key_lt_trans(a, b, c);
        }
    }
}

proof fn lemma_insert_sorted(rows: Seq<RowData>, field: Seq<char>, dir: SortDirection, o: Seq<usize>, p: int, x: usize)
    requires
        0 <= p <= o.len(),
        x < rows.len(),
        forall|q: int| 0 <= q < o.len() ==> o[q] < x,
        forall|a: int, b: int|
            0 <= a < b < o.len() ==> listed_before(rows, Some((field, dir)), #[trigger] o[a] as int, #[trigger] o[b] as int),
        forall|q: int|
            0 <= q < p ==> !key_before(sort_key(rows[x as int], field), sort_key(rows[#[trigger] o[q] as int], field), dir),
        p < o.len() ==> key_before(sort_key(rows[x as int], field), sort_key(rows[o[p] as int], field), dir),
    ensures
        forall|a: int, b: int|
            0 <= a < b < o.insert(p, x).len() ==> listed_before(
                rows,
                Some((field, dir)),
                #[trigger] o.insert(p, x)[a] as int,
                #[trigger] o.insert(p, x)[b] as int,
            ),
{
    let n = o.insert(p, x);
    let kx = sort_key(rows[x as int], field);
    assert forall|a: int, b: int| 0 <= a < b < n.len() implies listed_before(rows, Some((field, dir)), #[trigger] n[a] as int, #[trigger] n[b] as int) by {
        if b < p {
            assert(n[a] == o[a] && n[b] == o[b]);
        } else if a > p {
            assert(n[a] == o[a - 1] && n[b] == o[b - 1]);
        } else if b == p {
            let ka = sort_key(rows[o[a] as int], field);
            assert(n[a] == o[a] && n[b] == x);
            lemma_key_lt_total(ka, kx);
            assert(!key_before(kx, ka, dir));
        } else if a == p {
            assert(n[a] == x && n[b] == o[b - 1]);
            let kp = sort_key(rows[o[p] as int], field);
            let kb = sort_key(rows[o[b - 1] as int], field);
            if b - 1 > p {
                assert(listed_before(rows, Some((field, dir)), o[p] as int, o[b - 1] as int));
            }
            lemma_key_before_trans(kx, kp, kb, dir);
        } else {
            assert(n[a] == o[a] && n[b] == o[b - 1]);
        }
    }
}

/// The rows to show, each with its position in the table: those that pass
/// every filter, ordered by the active sort (ties and the unsorted table
/// keep the rows' order).
pub fn visible_rows(state: &TableState) -> (r: Vec<(usize, RowData)>)
    requires
        state.wf(),
    ensures
        forall|k: int|
            0 <= k < r@.len() ==> (#[trigger] r@[k]).0 < state.rows().len() && passes(state.rows()[r@[k].0 as int], state.filters())
                && r@[k].1@ == state.rows()[r@[k].0 as int]@,
        forall|i: int|
            0 <= i < state.rows().len() && passes(#[trigger] state.rows()[i], state.filters()) ==> exists|k: int|
                0 <= k < r@.len() && (#[trigger] r@[k]).0 == i,
        forall|k: int, l: int|
            0 <= k < l < r@.len() ==> listed_before(state.rows(), state.sort(), (#[trigger] r@[k]).0 as int, (#[trigger] r@[l]).0 as int),
{
    let ghost rows = state.data@;
    let ghost filters = filter_map(state.filters@);
    let ghost sort = state.sort();
    let mut order: Vec<usize> = Vec::new();
    let mut keys: Vec<Option<Vec<char>>> = Vec::new();
    let mut i: usize = 0;
    while i < state.data.len()
        invariant
            state.wf(),
            rows == state.data@,
            filters == filter_map(state.filters@),
            sort == state.sort(),
            i <= state.data.len(),
            keys@.len() == order@.len(),
            forall|k: int| 0 <= k < order@.len() ==> #[trigger] order@[k] < i && passes(rows[order@[k] as int], filters),
            forall|j: int| 0 <= j < i && passes(#[trigger] rows[j], filters) ==> exists|k: int| 0 <= k < order@.len() && #[trigger] order@[k] == j,
            forall|a: int, b: int| 0 <= a < b < order@.len() ==> listed_before(rows, sort, #[trigger] order@[a] as int, #[trigger] order@[b] as int),
            match sort {
                Some((field, _)) => forall|k: int| 0 <= k < keys@.len() ==> key_view(#[trigger] keys@[k]) == sort_key(rows[order@[k] as int], field),
                None => true,
            },
        decreases state.data.len() - i,
    {
        if row_passes(&state.data[i], &state.filters) {
            let ghost o = order@;
            let ghost ks = keys@;
            match &state.sort {
                None => {
                    order.push(i);
                    keys.push(None);
                    proof {
                        assert forall|j: int| 0 <= j < i + 1 && passes(#[trigger] rows[j], filters) implies exists|k: int|
                            0 <= k < order@.len() && #[trigger] order@[k] == j by {
                            if j == i {
                                assert(order@[o.len() as int] == j);
                            } else {
                                let k = choose|k: int| 0 <= k < o.len() && #[trigger] o[k] == j;
                                assert(order@[k] == j);
                            }
                        }
                    }
                },
                Some((field, dir)) => {
                    let key = row_key(&state.data[i], field);
                    let mut p: usize = 0;
                    while p < keys.len() && !comes_before(&key, &keys[p], *dir)
                        invariant
                            p <= keys@.len(),
                            keys@ == ks,
                            order@ == o,
                            ks.len() == o.len(),
                            forall|q: int| 0 <= q < p ==> !key_before(key_view(key), key_view(#[trigger] ks[q]), *dir),
                        decreases keys@.len() - p,
                    {
                        p = p + 1;
                    }
                    proof {
                        assert forall|q: int| 0 <= q < p implies !key_before(
                            sort_key(rows[i as int], field@),
                            sort_key(rows[#[trigger] o[q] as int], field@),
                            *dir,
                        ) by {
                            assert(key_view(ks[q]) == sort_key(rows[o[q] as int], field@));
                        }
                        if p < o.len() {
                            assert(key_view(ks[p as int]) == sort_key(rows[o[p as int] as int], field@));
                        }
                        lemma_insert_sorted(rows, field@, *dir, o, p as int, i);
                    }
                    order.insert(p, i);
                    keys.insert(p, key);
                    proof {
                        assert forall|k: int| 0 <= k < keys@.len() implies key_view(#[trigger] keys@[k]) == sort_key(rows[order@[k] as int], field@) by {
                            if k < p {
                                assert(keys@[k] == ks[k] && order@[k] == o[k]);
                            } else if k > p {
                                assert(keys@[k] == ks[k - 1] && order@[k] == o[k - 1]);
                            }
                        }
                        assert forall|k: int| 0 <= k < order@.len() implies #[trigger] order@[k] < i + 1 && passes(rows[order@[k] as int], filters) by {
                            if k < p {
                                assert(order@[k] == o[k]);
                            } else if k > p {
                                assert(order@[k] == o[k - 1]);
                            }
                        }
                        assert forall|j: int| 0 <= j < i + 1 && passes(#[trigger] rows[j], filters) implies exists|k: int|
                            0 <= k < order@.len() && #[trigger] order@[k] == j by {
                            if j == i {
                                assert(order@[p as int] == j);
                            } else {
                                let k = choose|k: int| 0 <= k < o.len() && #[trigger] o[k] == j;
                                if k < p {
                                    assert(order@[k] == j);
                                } else {
                                    assert(order@[k + 1] == j);
                                }
                            }
                        }
                    }
                },
            }
        }
        i = i + 1;
    }
    let mut r: Vec<(usize, RowData)> = Vec::new();
    let mut k: usize = 0;
    while k < order.len()
        invariant
            k <= order@.len(),
            r@.len() == k,
            rows == state.data@,
            forall|q: int| 0 <= q < order@.len() ==> #[trigger] order@[q] < rows.len(),
            forall|q: int| 0 <= q < k ==> (#[trigger] r@[q]).0 == order@[q] && r@[q].1@ == rows[order@[q] as int]@,
        decreases order@.len() - k,
    {
        let at = order[k];
        let copy = state.data[at].copy();
        r.push((at, copy));
        k = k + 1;
    }
    proof {
        assert forall|i: int| 0 <= i < rows.len() && passes(#[trigger] rows[i], filters) implies exists|k: int|
            0 <= k < r@.len() && (#[trigger] r@[k]).0 == i by {
            let k = choose|k: int| 0 <= k < order@.len() && #[trigger] order@[k] == i;
            assert(r@[k].0 == i);
        }
        assert forall|a: int, b: int| 0 <= a < b < r@.len() implies listed_before(rows, sort, (#[trigger] r@[a]).0 as int, (#[trigger] r@[b]).0 as int) by {
            assert(r@[a].0 == order@[a] && r@[b].0 == order@[b]);
        }
    }
    r
}


/// Activating one column's header three times from an unsorted table (or a
/// table sorted on another column) sorts it ascending, then descending,
/// then leaves the table unsorted.
pub proof fn lemma_sort_cycle(field: Seq<char>, other: Option<(Seq<char>, SortDirection)>)
    requires
        match other {
            Some((f, _)) => f != field,
            None => true,
        },
    ensures
        next_direction(other, field) == SortDirection::Asc,
        next_direction(Some((field, SortDirection::Asc)), field) == SortDirection::Desc,
        next_direction(Some((field, SortDirection::Desc)), field) == SortDirection::Unsorted,
{
}

/// Toggling the same row twice leaves the selection as it was.
pub proof fn lemma_toggle_twice(selected: Set<usize>, index: usize)
    ensures
        ({
            let once = if !selected.contains(index) { selected.insert(index) } else { selected.remove(index) };
            let twice = if !once.contains(index) { once.insert(index) } else { once.remove(index) };
            twice == selected
        }),
{
    let once = if !selected.contains(index) { selected.insert(index) } else { selected.remove(index) };
    let twice = if !once.contains(index) { once.insert(index) } else { once.remove(index) };
    assert(twice =~= selected);
}

/// Only rows of the table are shown, never one twice: the order of
/// `listed_before` is strict.
pub proof fn lemma_listed_before_strict(rows: Seq<RowData>, sort: Option<(Seq<char>, SortDirection)>, i: int, j: int)
    ensures
        listed_before(rows, sort, i, j) ==> !listed_before(rows, sort, j, i),
        !listed_before(rows, sort, i, i),
{
    if let Some((field, dir)) = sort {
        let a = sort_key(rows[i], field);
        let b = sort_key(rows[j], field);
        lemma_key_lt_irreflexive(a);
        if key_lt(a, b) && key_lt(b, a) {
            lemma_key_lt_trans(a, b, a);
        }
    }
}

} // verus!
