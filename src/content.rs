//! Generic tabular content: named columns and rows of single- or multi-line
//! cells, decoupled from any particular kind of record.

use vstd::prelude::*;
use vstd::multiset::Multiset;
use vstd::string::*;

use crate::order::{
    lemma_lex_irreflexive, lemma_lex_le_transitive, lemma_lex_total, lex_le, lex_lt, str_eq, str_lt,
};

verus! {

/// The value of one cell: a single line, or an ordered list of lines.
#[derive(Debug, Clone)]
pub enum CellItem {
    Line(String),
    Lines(Vec<String>),
}

/// What a cell holds, as text.
pub enum CellView {
    Line(Seq<char>),
    Lines(Seq<Seq<char>>),
}

/// The text of each string of a sequence.
pub open spec fn strings_view(v: Seq<String>) -> Seq<Seq<char>> {
    v.map_values(|s: String| s@)
}

impl View for CellItem {
    type V = CellView;

    open spec fn view(&self) -> CellView {
        match self {
            CellItem::Line(l) => CellView::Line(l@),
            CellItem::Lines(ls) => CellView::Lines(strings_view(ls@)),
        }
    }
}

/// The lines joined into one text, with `sep` between each two of them.
pub open spec fn join_lines(lines: Seq<Seq<char>>, sep: Seq<char>) -> Seq<char>
    decreases lines.len(),
{
    if lines.len() == 0 {
        Seq::empty()
    } else if lines.len() == 1 {
        lines[0]
    } else {
        join_lines(lines.drop_last(), sep) + sep + lines.last()
    }
}

/// What separates the lines of a cell: a line break in multi-line output,
/// a comma and a space otherwise.
pub open spec fn line_separator(multiline: bool) -> Seq<char> {
    if multiline {
        seq!['\n']
    } else {
        seq![',', ' ']
    }
}

/// The text that a cell renders as.
pub open spec fn cell_text(c: CellView, multiline: bool) -> Seq<char> {
    match c {
        CellView::Line(l) => l,
        CellView::Lines(ls) => join_lines(ls, line_separator(multiline)),
    }
}

/// The separator between the lines of a cell, as a string.
pub fn separator(multiline: bool) -> (r: &'static str)
    ensures
        r@ == line_separator(multiline),
{
    if multiline {
        proof {
            reveal_strlit("\n");
        }
        assert("\n"@ =~= line_separator(multiline));
        "\n"
    } else {
        proof {
            reveal_strlit(", ");
        }
        assert(", "@ =~= line_separator(multiline));
        ", "
    }
}

/// Joins `lines` with `sep` between each two of them.
pub fn join_strings(lines: &Vec<String>, sep: &str) -> (r: String)
    ensures
        r@ == join_lines(strings_view(lines@), sep@),
{
    let mut r = String::new();
    let mut i: usize = 0;
    while i < lines.len()
        invariant
            i <= lines@.len(),
            r@ == join_lines(strings_view(lines@.subrange(0, i as int)), sep@),
        decreases lines@.len() - i,
    {
        let ghost prev = strings_view(lines@.subrange(0, i as int));
        if i > 0 {
            r.append(sep);
        }
        r.append(lines[i].as_str());
        let ghost next = strings_view(lines@.subrange(0, i + 1));
        assert(next.drop_last() =~= prev);
        assert(next.last() == lines@[i as int]@);
        if i == 0 {
            assert(r@ =~= next[0]);
        }
        i = i + 1;
    }
    assert(lines@.subrange(0, lines@.len() as int) =~= lines@);
    r
}

impl CellItem {
    /// The text of the cell: a single line as it is, several lines joined by
    /// line breaks (`multiline`) or by commas.
    pub fn text(&self, multiline: bool) -> (r: String)
        ensures
            r@ == cell_text(self@, multiline),
    {
        match self {
            CellItem::Line(line) => line.clone(),
            CellItem::Lines(lines) => join_strings(lines, separator(multiline)),
        }
    }
}

/// A multi-line text was to be added to a cell that holds a single line.
#[derive(Debug, Clone, Copy, PartialEq, Eq)]
pub enum CellError {
    NotMultiline,
}

spec fn entry_has_key(cells: Seq<(String, CellItem)>, k: Seq<char>, i: int) -> bool {
    0 <= i < cells.len() && cells[i].0@ == k
}

spec fn entries_view(cells: Seq<(String, CellItem)>) -> Map<Seq<char>, CellView> {
    Map::new(
        |k: Seq<char>| exists|i: int| entry_has_key(cells, k, i),
        |k: Seq<char>| cells[choose|i: int| entry_has_key(cells, k, i)].1@,
    )
}

/// One row of content: a cell for each of some of the column names.
#[derive(Debug, Clone)]
pub struct RowItem {
    cells: Vec<(String, CellItem)>,
}

impl RowItem {
    /// No column name has two cells.
    pub closed spec fn wf(&self) -> bool {
        forall|i: int, j: int|
            0 <= i < j < self.cells@.len() ==> self.cells@[i].0@ != self.cells@[j].0@
    }

    /// The cells of the row, by column name.
    pub closed spec fn cells_view(&self) -> Map<Seq<char>, CellView> {
        entries_view(self.cells@)
    }

    proof fn lemma_cell_at(&self, i: int)
        requires
            self.wf(),
            0 <= i < self.cells@.len(),
        ensures
            self.cells_view().contains_key(self.cells@[i].0@),
            self.cells_view()[self.cells@[i].0@] == self.cells@[i].1@,
    {
        let k = self.cells@[i].0@;
        assert(entry_has_key(self.cells@, k, i));
        let j = choose|j: int| entry_has_key(self.cells@, k, j);
        assert(j == i);
    }

    /// An empty row.
    pub fn new() -> (r: RowItem)
        ensures
            r.wf(),
            r.cells_view() == Map::<Seq<char>, CellView>::empty(),
    {
        let r = RowItem { cells: Vec::new() };
        assert(r.cells_view() =~= Map::<Seq<char>, CellView>::empty());
        r
    }

    /// The position of the cell of column `field`, if the row has one.
    fn find(&self, field: &str) -> (r: Option<usize>)
        requires
            self.wf(),
        ensures
            r matches Some(i) ==> i < self.cells@.len() && self.cells@[i as int].0@ == field@,
            r is None ==> !self.cells_view().contains_key(field@),
    {
        let mut i: usize = 0;
        while i < self.cells.len()
            invariant
                i <= self.cells@.len(),
                forall|j: int| 0 <= j < i ==> self.cells@[j].0@ != field@,
            decreases self.cells@.len() - i,
        {
            if str_eq(self.cells[i].0.as_str(), field) {
                return Some(i);
            }
            i = i + 1;
        }
        None
    }

    /// The cell of column `field`, if the row has one.
    pub fn get(&self, field: &str) -> (r: Option<&CellItem>)
        requires
            self.wf(),
        ensures
            r matches Some(c) ==> self.cells_view().contains_key(field@)
                && self.cells_view()[field@] == c@,
            r is None ==> !self.cells_view().contains_key(field@),
    {
        match self.find(field) {
            Some(i) => {
                proof {
                    self.lemma_cell_at(i as int);
                }
                Some(&self.cells[i].1)
            },
            None => None,
        }
    }

    /// `b` is `a` with the cell at `i` replaced, or with one cell added at
    /// the end (`i` is then `a`'s length).
    proof fn lemma_put(a: &RowItem, b: &RowItem, i: int)
        requires
            a.wf(),
            b.wf(),
            0 <= i < b.cells@.len(),
            b.cells@.len() == a.cells@.len() || (b.cells@.len() == a.cells@.len() + 1 && i == a.cells@.len()),
            i < a.cells@.len() ==> a.cells@[i].0@ == b.cells@[i].0@,
            forall|j: int| 0 <= j < a.cells@.len() && j != i ==> b.cells@[j] == a.cells@[j],
        ensures
            b.cells_view() == a.cells_view().insert(b.cells@[i].0@, b.cells@[i].1@),
    {
        let k0 = b.cells@[i].0@;
        let target = a.cells_view().insert(k0, b.cells@[i].1@);
        b.lemma_cell_at(i);
        assert forall|k: Seq<char>| #[trigger] b.cells_view().contains_key(k) == target.contains_key(k) by {
            if exists|j: int| entry_has_key(b.cells@, k, j) {
                let j = choose|j: int| entry_has_key(b.cells@, k, j);
                if j != i {
                    assert(entry_has_key(a.cells@, k, j));
                }
            }
            if exists|j: int| entry_has_key(a.cells@, k, j) {
                let j = choose|j: int| entry_has_key(a.cells@, k, j);
                assert(entry_has_key(b.cells@, k, j));
            }
        }
        assert forall|k: Seq<char>| #[trigger] target.contains_key(k) implies b.cells_view()[k] == target[k] by {
            if k != k0 {
                let j = choose|j: int| entry_has_key(a.cells@, k, j);
                a.lemma_cell_at(j);
                assert(entry_has_key(b.cells@, k, j));
                b.lemma_cell_at(j);
            }
        }
        assert(b.cells_view() =~= target);
    }

    /// Puts `cell` under `field`, in place of any cell that was there.
    pub fn set_cell(&mut self, field: &str, cell: CellItem)
        requires
            old(self).wf(),
        ensures
            final(self).wf(),
            final(self).cells_view() == old(self).cells_view().insert(field@, cell@),
    {
        let key = field.to_owned();
        match self.find(field) {
            Some(i) => {
                let _ = self.cells.remove(i);
                self.cells.insert(i, (key, cell));
                proof {
                    RowItem::lemma_put(old(self), self, i as int);
                }
            },
            None => {
                self.cells.push((key, cell));
                proof {
                    let n = old(self).cells@.len() as int;
                    assert forall|i: int, j: int|
                        0 <= i < j < self.cells@.len() implies self.cells@[i].0@ != self.cells@[j].0@ by {
                        if j == n {
                            old(self).lemma_cell_at(i);
                        }
                    }
                    RowItem::lemma_put(old(self), self, n);
                }
            },
        }
    }
}

/// The key by which a row sorts on a column: the text of a single-line
/// cell, the first line of a multi-line one, and the empty text where the
/// row has no cell there (or the cell has no line).
pub open spec fn sort_key(cells: Map<Seq<char>, CellView>, field: Seq<char>) -> Seq<char> {
    if !cells.contains_key(field) {
        Seq::empty()
    } else {
        match cells[field] {
            CellView::Line(l) => l,
            CellView::Lines(ls) => if ls.len() > 0 {
                ls[0]
            } else {
                Seq::empty()
            },
        }
    }
}

impl RowItem {
    /// Puts a single-line cell under `field`.
    pub fn add_line(&mut self, field: &str, line: &str)
        requires
            old(self).wf(),
        ensures
            final(self).wf(),
            final(self).cells_view() == old(self).cells_view().insert(field@, CellView::Line(line@)),
    {
        self.set_cell(field, CellItem::Line(line.to_owned()));
    }

    /// Puts a multi-line cell with `lines` under `field`.
    pub fn add_lines(&mut self, field: &str, lines: Vec<String>)
        requires
            old(self).wf(),
        ensures
            final(self).wf(),
            final(self).cells_view() == old(self).cells_view().insert(
                field@,
                CellView::Lines(strings_view(lines@)),
            ),
    {
        self.set_cell(field, CellItem::Lines(lines));
    }

    /// Adds `line` at the end of the multi-line cell under `field`, which is
    /// made empty first where the row has no cell there. A single-line cell
    /// there is an error, and the row is left as it was.
    pub fn append_line(&mut self, field: &str, line: &str) -> (r: Result<(), CellError>)
        requires
            old(self).wf(),
        ensures
            final(self).wf(),
            !old(self).cells_view().contains_key(field@) ==> r is Ok && final(self).cells_view()
                == old(self).cells_view().insert(field@, CellView::Lines(seq![line@])),
            old(self).cells_view().contains_key(field@) ==> match old(self).cells_view()[field@] {
                CellView::Lines(ls) => r is Ok && final(self).cells_view()
                    == old(self).cells_view().insert(field@, CellView::Lines(ls.push(line@))),
                CellView::Line(_) => r == Err::<(), CellError>(CellError::NotMultiline)
                    && final(self).cells_view() == old(self).cells_view(),
            },
    {
        match self.find(field) {
            Some(i) => {
                proof {
                    old(self).lemma_cell_at(i as int);
                }
                let (key, cell) = self.cells.remove(i);
                match cell {
                    CellItem::Lines(mut lines) => {
                        let ghost before = lines@;
                        assert(old(self).cells_view()[field@] == CellView::Lines(strings_view(before)));
                        lines.push(line.to_owned());
                        assert(strings_view(lines@) =~= strings_view(before).push(line@));
                        self.cells.insert(i, (key, CellItem::Lines(lines)));
                        proof {
                            RowItem::lemma_put(old(self), self, i as int);
                        }
                        Ok(())
                    },
                    CellItem::Line(l) => {
                        self.cells.insert(i, (key, CellItem::Line(l)));
                        assert(self.cells@ =~= old(self).cells@);
                        assert(old(self).cells_view()[field@] == CellView::Line(l@));
                        assert(self.cells_view() =~= old(self).cells_view());
                        Err(CellError::NotMultiline)
                    },
                }
            },
            None => {
                let mut lines: Vec<String> = Vec::new();
                lines.push(line.to_owned());
                assert(strings_view(lines@) =~= seq![line@]);
                self.set_cell(field, CellItem::Lines(lines));
                Ok(())
            },
        }
    }

    /// The key by which this row sorts on column `field`.
    pub fn cmp_key(&self, field: &str) -> (r: String)
        requires
            self.wf(),
        ensures
            r@ == sort_key(self.cells_view(), field@),
    {
        match self.get(field) {
            None => String::new(),
            Some(CellItem::Line(line)) => line.clone(),
            Some(CellItem::Lines(lines)) => {
                if lines.len() > 0 {
                    lines[0].clone()
                } else {
                    String::new()
                }
            },
        }
    }
}

/// The key of a row on a column.
pub open spec fn row_key(row: RowItem, field: Seq<char>) -> Seq<char> {
    sort_key(row.cells_view(), field)
}

/// The rows come in non-decreasing order of their keys on `field`.
pub open spec fn sorted_on(rows: Seq<RowItem>, field: Seq<char>) -> bool {
    forall|i: int, j: int| 0 <= i < j < rows.len() ==> lex_le(row_key(rows[i], field), row_key(rows[j], field))
}

/// `after` is `before` reordered by `idx` (`after[k]` is `before[idx[k]]`),
/// and rows with equal keys on `field` keep the order they had.
pub open spec fn stable_reorder(after: Seq<RowItem>, before: Seq<RowItem>, field: Seq<char>, idx: Seq<int>) -> bool {
    &&& idx.len() == after.len() && after.len() == before.len()
    &&& forall|k: int| 0 <= k < after.len() ==> 0 <= #[trigger] idx[k] < before.len() && after[k] == before[idx[k]]
    &&& forall|k1: int, k2: int| 0 <= k1 < k2 < after.len() ==> idx[k1] != idx[k2]
    &&& forall|k1: int, k2: int|
        0 <= k1 < k2 < after.len() && row_key(after[k1], field) == row_key(after[k2], field) ==> idx[k1] < idx[k2]
}

/// Tabular content: the column names in display order, and the rows.
#[derive(Debug, Clone)]
pub struct Content {
    pub columns: Vec<String>,
    pub rows: Vec<RowItem>,
}

impl Content {
    /// Every row is well formed.
    pub open spec fn wf(&self) -> bool {
        forall|i: int| 0 <= i < self.rows@.len() ==> #[trigger] self.rows@[i].wf()
    }

    /// Orders the rows by their keys on column `field`, keeping the order of
    /// rows with equal keys; the columns and the rows themselves stay as they
    /// are.
    pub fn sort_on(&mut self, field: &str)
        requires
            old(self).wf(),
        ensures
            final(self).wf(),
            final(self).columns == old(self).columns,
            final(self).rows@.to_multiset() == old(self).rows@.to_multiset(),
            sorted_on(final(self).rows@, field@),
            exists|idx: Seq<int>| stable_reorder(final(self).rows@, old(self).rows@, field@, idx),
    {
        broadcast use
            vstd::seq_lib::to_multiset_build,
            vstd::seq_lib::to_multiset_insert,
            vstd::seq_lib::to_multiset_len,
            vstd::multiset::group_multiset_axioms,
            vstd::multiset::lemma_multiset_empty_len,
        ;

        let ghost n = old(self).rows@.len();
        let ghost mut idx: Seq<int> = Seq::empty();
        let mut sorted: Vec<RowItem> = Vec::new();
        assert(sorted@.to_multiset().len() == 0);
        assert(self.rows@ =~= old(self).rows@.subrange(0, n as int));
        assert(sorted@.to_multiset() =~= Multiset::empty());
        assert(self.rows@.to_multiset().add(sorted@.to_multiset()) =~= old(self).rows@.to_multiset());
        while self.rows.len() > 0
            invariant
                self.columns == old(self).columns,
                self.wf(),
                forall|i: int| 0 <= i < sorted@.len() ==> #[trigger] sorted@[i].wf(),
                sorted_on(sorted@, field@),
                self.rows@.to_multiset().add(sorted@.to_multiset()) == old(self).rows@.to_multiset(),
                n == old(self).rows@.len(),
                self.rows@ == old(self).rows@.subrange(0, self.rows@.len() as int),
                idx.len() == sorted@.len(),
                sorted@.len() + self.rows@.len() == n,
                forall|k: int|
                    0 <= k < sorted@.len() ==> self.rows@.len() <= #[trigger] idx[k] < n && sorted@[k]
                        == old(self).rows@[idx[k]],
                forall|k1: int, k2: int| 0 <= k1 < k2 < sorted@.len() ==> idx[k1] != idx[k2],
                forall|k1: int, k2: int|
                    0 <= k1 < k2 < sorted@.len() && row_key(sorted@[k1], field@) == row_key(sorted@[k2], field@)
                        ==> idx[k1] < idx[k2],
            decreases self.rows@.len(),
        {
            let ghost rows_before = self.rows@;
            let ghost sorted_before = sorted@;
            let ghost idx_before = idx;
            let x = self.rows.pop().unwrap();
            let ghost m = self.rows@.len() as int;
            assert(x == old(self).rows@[m]) by {
                assert(rows_before[m] == old(self).rows@.subrange(0, m + 1)[m]);
            }
            assert(self.rows@ =~= old(self).rows@.subrange(0, m));
            assert(rows_before =~= self.rows@.push(x));
            assert(x.wf()) by {
                assert(rows_before[rows_before.len() - 1] == x);
            }
            let kx = x.cmp_key(field);
            let mut p: usize = 0;
            while p < sorted.len() && str_lt(sorted[p].cmp_key(field).as_str(), kx.as_str())
                invariant
                    p <= sorted@.len(),
                    sorted@ == sorted_before,
                    forall|i: int| 0 <= i < sorted@.len() ==> #[trigger] sorted@[i].wf(),
                    forall|i: int| 0 <= i < p ==> lex_lt(#[trigger] row_key(sorted@[i], field@), kx@),
                decreases sorted@.len() - p,
            {
                p = p + 1;
            }
            sorted.insert(p, x);
            proof {
                idx = idx_before.insert(p as int, m);
                assert forall|k: int|
                    0 <= k < sorted@.len() implies m <= #[trigger] idx[k] < n && sorted@[k] == old(self).rows@[idx[k]] by {
                    if k > p {
                        assert(idx[k] == idx_before[k - 1]);
                    } else if k < p {
                        assert(idx[k] == idx_before[k]);
                    }
                }
                assert forall|k1: int, k2: int| 0 <= k1 < k2 < sorted@.len() implies idx[k1] != idx[k2] by {
                    if k1 != p && k2 != p {
                        let a = if k1 < p { k1 } else { k1 - 1 };
                        let b = if k2 < p { k2 } else { k2 - 1 };
                        assert(idx_before[a] != idx_before[b]);
                    } else if k1 == p {
                        assert(idx[k2] == idx_before[k2 - 1]);
                    } else {
                        assert(idx[k1] == idx_before[k1]);
                    }
                }
                assert forall|k1: int, k2: int|
                    0 <= k1 < k2 < sorted@.len() && row_key(sorted@[k1], field@) == row_key(sorted@[k2], field@)
                    implies idx[k1] < idx[k2] by {
                    if k1 != p && k2 != p {
                        let a = if k1 < p { k1 } else { k1 - 1 };
                        let b = if k2 < p { k2 } else { k2 - 1 };
                        assert(sorted@[k1] == sorted_before[a] && sorted@[k2] == sorted_before[b]);
                        assert(idx_before[a] < idx_before[b]);
                    } else if k1 == p {
                        assert(idx[k2] == idx_before[k2 - 1]);
                    } else {
                        assert(lex_lt(row_key(sorted_before[k1], field@), kx@));
                        lemma_lex_irreflexive(kx@);
                    }
                }
                assert(rows_before.to_multiset() == self.rows@.push(x).to_multiset());
                vstd::seq_lib::to_multiset_build(self.rows@, x);
                assert(sorted@ == sorted_before.insert(p as int, x));
                vstd::seq_lib::to_multiset_insert(sorted_before, p as int, x);
                assert(self.rows@.to_multiset().add(sorted@.to_multiset()) =~= rows_before.to_multiset().add(
                    sorted_before.to_multiset(),
                ));
                if p < sorted_before.len() {
                    lemma_lex_total(row_key(sorted_before[p as int], field@), kx@);
                }
                assert forall|i: int, j: int| 0 <= i < j < sorted@.len() implies lex_le(
                    row_key(sorted@[i], field@),
                    row_key(sorted@[j], field@),
                ) by {
                    if i < p && j == p {
                    } else if i == p && j > p {
                        lemma_lex_le_transitive(kx@, row_key(sorted_before[p as int], field@), row_key(sorted_before[j - 1], field@));
                    } else if i < p && j > p {
                        assert(lex_le(row_key(sorted_before[i], field@), row_key(sorted_before[j - 1], field@)));
                    }
                }
                assert forall|i: int| 0 <= i < sorted@.len() implies #[trigger] sorted@[i].wf() by {
                    if i > p {
                        assert(sorted_before[i - 1].wf());
                    }
                }
                assert forall|i: int| 0 <= i < self.rows@.len() implies #[trigger] self.rows@[i].wf() by {
                    assert(rows_before[i].wf());
                }
            }
        }
        assert(self.rows@.to_multiset().len() == 0);
        assert(self.rows@.to_multiset() =~= Multiset::empty());
        assert(sorted@.to_multiset() =~= old(self).rows@.to_multiset());
        assert(stable_reorder(sorted@, old(self).rows@, field@, idx));
        self.rows = sorted;
    }
}

/// The text of the row's cell under `field`; empty where it has none.
pub open spec fn field_text(cells: Map<Seq<char>, CellView>, field: Seq<char>, multiline: bool) -> Seq<char> {
    if cells.contains_key(field) {
        cell_text(cells[field], multiline)
    } else {
        Seq::empty()
    }
}

/// The texts of a row's cells under the given columns, in column order.
pub fn row_texts(columns: &Vec<String>, item: &RowItem, multiline: bool) -> (r: Vec<String>)
    requires
        item.wf(),
    ensures
        r@.len() == columns@.len(),
        forall|i: int| 0 <= i < columns@.len() ==> #[trigger] r@[i]@ == field_text(item.cells_view(), columns@[i]@, multiline),
{
    let mut texts: Vec<String> = Vec::new();
    let mut i: usize = 0;
    while i < columns.len()
        invariant
            i <= columns@.len(),
            item.wf(),
            texts@.len() == i,
            forall|j: int| 0 <= j < i ==> #[trigger] texts@[j]@ == field_text(item.cells_view(), columns@[j]@, multiline),
        decreases columns@.len() - i,
    {
        let text = match item.get(columns[i].as_str()) {
            None => String::new(),
            Some(cell) => cell.text(multiline),
        };
        texts.push(text);
        i = i + 1;
    }
    texts
}

} // verus!

