//! An aligned text table: named columns, per-column or global
//! alignment, column widths grown to the widest cell, and rendering of
//! all columns or of a selected, reordered subset.

use vstd::prelude::*;

use crate::strutil::{first_index_of, lemma_first_index_of, str_eq};

verus! {

/// How a cell is padded to its column width.
#[derive(Clone, Copy, Debug)]
pub enum FieldAlign {
    Left,
    Right,
    Center,
}

impl Default for FieldAlign {
    fn default() -> (r: FieldAlign)
        ensures
            r is Left,
    {
        FieldAlign::Left
    }
}

/// `n` space characters.
pub open spec fn spaces(n: nat) -> Seq<char> {
    Seq::new(n, |i: int| ' ')
}

/// A cell padded to `width` characters under an alignment; a cell at
/// least as wide as the column is left as it is.
pub open spec fn pad_spec(s: Seq<char>, width: nat, a: FieldAlign) -> Seq<char> {
    if width <= s.len() {
        s
    } else {
        let d = (width - s.len()) as nat;
        match a {
            FieldAlign::Left => s + spaces(d),
            FieldAlign::Right => spaces(d) + s,
            FieldAlign::Center => spaces(d / 2) + s + spaces((d - d / 2) as nat),
        }
    }
}

/// A text table. Column widths are kept at the width of the widest
/// cell of each column, header included.
pub struct Table {
    pub fields: Vec<String>,
    pub content: Vec<Vec<String>>,
    pub column_width: Vec<usize>,
    pub aligns: Vec<Option<FieldAlign>>,
    pub align: FieldAlign,
}

/// The alignment of column `i`: its own, or the table-wide default.
pub open spec fn eff_align(t: Table, i: int) -> FieldAlign {
    match t.aligns@[i] {
        Some(a) => a,
        None => t.align,
    }
}

/// A sequence of column positions, as mathematical integers.
pub open spec fn idx_view(idx: Seq<usize>) -> Seq<int> {
    Seq::new(idx.len(), |j: int| idx[j] as int)
}

/// The cells of one row at the selected column positions, each padded
/// to its column's width under its column's alignment.
pub open spec fn padded_row(t: Table, cells: Seq<Seq<char>>, idx: Seq<int>) -> Seq<Seq<char>> {
    Seq::new(idx.len(), |j: int| pad_spec(cells[idx[j]], t.column_width@[idx[j]] as nat, eff_align(t, idx[j])))
}

/// The pieces joined with a single separator character between them.
pub open spec fn join_with(pieces: Seq<Seq<char>>, sep: char) -> Seq<char>
    decreases pieces.len(),
{
    if pieces.len() == 0 {
        Seq::empty()
    } else if pieces.len() == 1 {
        pieces[0]
    } else {
        join_with(pieces.drop_last(), sep) + seq![sep] + pieces.last()
    }
}

/// The rendered lines of the table under the selected columns: the
/// header first, then one line per row, cells joined with one space.
pub open spec fn table_lines(t: Table, idx: Seq<int>) -> Seq<Seq<char>> {
    Seq::new(
        t.content@.len() + 1,
        |r: int|
            if r == 0 {
                join_with(padded_row(t, t.fields.deep_view(), idx), ' ')
            } else {
                join_with(padded_row(t, t.content@[r - 1].deep_view(), idx), ' ')
            },
    )
}

/// The rendered table under the selected columns, lines joined with
/// newlines.
pub open spec fn table_str_sel(t: Table, idx: Seq<int>) -> Seq<char> {
    join_with(table_lines(t, idx), '\n')
}

/// The column positions 0 to `n - 1` in order.
pub open spec fn identity_idx(n: int) -> Seq<int> {
    Seq::new(n as nat, |i: int| i)
}

/// The rendered table with every column in place.
pub open spec fn table_str(t: Table) -> Seq<char> {
    table_str_sel(t, identity_idx(t.fields@.len() as int))
}

/// The column positions that a list of header names selects: for each
/// name in order, the position of the first column with that header;
/// names that match no column are passed over.
pub open spec fn selected_indices(fields: Seq<Seq<char>>, names: Seq<Seq<char>>, k: int) -> Seq<
    int,
>
    decreases k,
{
    if k <= 0 {
        Seq::empty()
    } else {
        let rest = selected_indices(fields, names, k - 1);
        match first_index_of(fields, names[k - 1], 0) {
            Some(i) => rest.push(i),
            None => rest,
        }
    }
}

impl Table {
    /// The structural invariant: widths and alignments exist for every
    /// column, every row is as long as the header, and every column is
    /// at least as wide as each of its cells and its header.
    pub open spec fn wf(&self) -> bool {
        &&& self.column_width@.len() == self.fields@.len()
        &&& self.aligns@.len() == self.fields@.len()
        &&& forall|r: int|
            0 <= r < self.content@.len() ==> (#[trigger] self.content@[r])@.len()
                == self.fields@.len()
        &&& forall|i: int|
            0 <= i < self.fields@.len() ==> (#[trigger] self.fields@[i])@.len()
                <= self.column_width@[i]
        &&& forall|r: int, i: int|
            0 <= r < self.content@.len() && 0 <= i < self.fields@.len()
                ==> (#[trigger] self.content@[r]@[i])@.len() <= self.column_width@[i]
    }

    /// A table with the given column headers, no rows yet, every
    /// column as wide as its header, and left alignment throughout.
    pub fn new(fields: &Vec<&str>) -> (t: Table)
        ensures
            t.wf(),
            t.fields.deep_view() == fields.deep_view(),
            t.content@.len() == 0,
            forall|i: int|
                0 <= i < t.fields@.len() ==> t.column_width@[i] == fields.deep_view()[i].len(),
            forall|i: int| 0 <= i < t.fields@.len() ==> t.aligns@[i] is None,
            t.align is Left,
    {
        let n = fields.len();
        let mut owned: Vec<String> = Vec::new();
        let mut widths: Vec<usize> = Vec::new();
        let mut aligns: Vec<Option<FieldAlign>> = Vec::new();
        let mut i: usize = 0;
        while i < n
            invariant
                i <= n,
                n == fields@.len(),
                owned@.len() == i,
                widths@.len() == i,
                aligns@.len() == i,
                forall|j: int| 0 <= j < i ==> owned.deep_view()[j] == fields.deep_view()[j],
                forall|j: int|
                    0 <= j < i ==> widths@[j] == fields.deep_view()[j].len(),
                forall|j: int| 0 <= j < i ==> aligns@[j] is None,
            decreases n - i,
        {
            let f: &str = fields[i];
            owned.push(String::from_str(f));
            widths.push(f.unicode_len());
            aligns.push(None);
            i += 1;
        }
        let t = Table {
            fields: owned,
            content: Vec::new(),
            column_width: widths,
            aligns,
            align: FieldAlign::Left,
        };
        proof {
            assert(t.fields.deep_view() =~~= fields.deep_view());
        }
        t
    }

    /// Appends one row, widening any column whose new cell is wider
    /// than what the column has held so far. Everything else stays.
    pub fn add_row(&mut self, row: &Vec<&str>)
        requires
            old(self).wf(),
            row@.len() == old(self).fields@.len(),
        ensures
            final(self).wf(),
            final(self).fields == old(self).fields,
            final(self).aligns == old(self).aligns,
            final(self).align == old(self).align,
            final(self).content@.len() == old(self).content@.len() + 1,
            forall|r: int|
                0 <= r < old(self).content@.len() ==> final(self).content@[r] == old(
                    self,
                ).content@[r],
            final(self).content@[old(self).content@.len() as int].deep_view()
                == row.deep_view(),
            forall|i: int|
                0 <= i < old(self).fields@.len() ==> final(self).column_width@[i] as int == (
                if row.deep_view()[i].len() > old(self).column_width@[i] {
                    row.deep_view()[i].len() as int
                } else {
                    old(self).column_width@[i] as int
                }),
    {
        let n = row.len();
        let mut owned: Vec<String> = Vec::new();
        let mut i: usize = 0;
        while i < n
            invariant
                i <= n,
                n == row@.len(),
                n == self.fields@.len(),
                self.fields == old(self).fields,
                self.content == old(self).content,
                self.aligns == old(self).aligns,
                self.align == old(self).align,
                self.column_width@.len() == n,
                owned@.len() == i,
                forall|j: int| 0 <= j < i ==> owned.deep_view()[j] == row.deep_view()[j],
                forall|j: int|
                    0 <= j < i ==> self.column_width@[j] as int == (if row.deep_view()[j].len()
                        > old(self).column_width@[j] {
                        row.deep_view()[j].len() as int
                    } else {
                        old(self).column_width@[j] as int
                    }),
                forall|j: int| i <= j < n ==> self.column_width@[j] == old(self).column_width@[j],
            decreases n - i,
        {
            let cell: &str = row[i];
            let w = cell.unicode_len();
            if w > self.column_width[i] {
                self.column_width[i] = w;
            }
            owned.push(String::from_str(cell));
            i += 1;
        }
        let ghost old_content = self.content@;
        self.content.push(owned);
        proof {
            assert(self.content@[old_content.len() as int].deep_view() =~~= row.deep_view());
        }
    }

    /// Sets the alignment of the first column with the given header;
    /// a name that matches no column changes nothing.
    pub fn set_field_align(&mut self, field: &str, align: FieldAlign)
        requires
            old(self).wf(),
        ensures
            final(self).wf(),
            final(self).fields == old(self).fields,
            final(self).content == old(self).content,
            final(self).column_width == old(self).column_width,
            final(self).align == old(self).align,
            match first_index_of(old(self).fields.deep_view(), field@, 0) {
                Some(i) => final(self).aligns@ == old(self).aligns@.update(i, Some(align)),
                None => final(self).aligns@ == old(self).aligns@,
            },
    {
        let n = self.fields.len();
        let mut i: usize = 0;
        while i < n
            invariant
                i <= n,
                n == self.fields@.len(),
                *self == *old(self),
                forall|k: int| 0 <= k < i ==> self.fields.deep_view()[k] != field@,
            decreases n - i,
        {
            if str_eq(self.fields[i].as_str(), field) {
                proof {
                    lemma_first_index_of(self.fields.deep_view(), field@, 0, i as int);
                }
                self.aligns[i] = Some(align);
                return ;
            }
            i += 1;
        }
        proof {
            lemma_first_index_of(self.fields.deep_view(), field@, 0, n as int);
        }
    }

    /// Sets the alignment used by every column without one of its own.
    pub fn set_align(&mut self, align: FieldAlign)
        ensures
            final(self).fields == old(self).fields,
            final(self).content == old(self).content,
            final(self).column_width == old(self).column_width,
            final(self).aligns == old(self).aligns,
            final(self).align == align,
    {
        self.align = align;
    }

    /// Pads `s` to `width` characters as `pad_spec` describes.
    pub fn padding(s: &str, width: usize, align: &FieldAlign) -> (r: String)
        ensures
            r@ == pad_spec(s@, width as nat, *align),
    {
        let len = s.unicode_len();
        if width <= len {
            return String::from_str(s);
        }
        let delta = width - len;
        match align {
            FieldAlign::Left => {
                let mut r = String::from_str(s);
                let w = Self::whitespace(delta);
                r.append(w.as_str());
                r
            },
            FieldAlign::Right => {
                let mut r = Self::whitespace(delta);
                r.append(s);
                r
            },
            FieldAlign::Center => {
                let mut r = Self::whitespace(delta / 2);
                r.append(s);
                let w = Self::whitespace(delta - delta / 2);
                r.append(w.as_str());
                r
            },
        }
    }

    /// A string of `n` spaces.
    pub fn whitespace(n: usize) -> (r: String)
        ensures
            r@ == spaces(n as nat),
    {
        proof {
            reveal_strlit(" ");
        }
        let mut s = String::new();
        let mut i: usize = 0;
        while i < n
            invariant
                i <= n,
                s@ =~= spaces(i as nat),
            decreases n - i,
        {
            s.append(" ");
            i += 1;
            proof {
                assert(s@ =~= spaces(i as nat));
            }
        }
        proof {
            assert(s@ =~= spaces(n as nat));
        }
        s
    }

    /// True when the table holds no rows.
    pub fn is_empty(&self) -> (r: bool)
        ensures
            r == (self.content@.len() == 0),
    {
        self.content.len() == 0
    }

    /// Renders the whole table, every column in order.
    pub fn to_string(&self) -> (r: String)
        requires
            self.wf(),
        ensures
            r@ == table_str(*self),
    {
        let idx = identity_indices(self.fields.len());
        let r = to_string_sel(self, &idx);
        proof {
            assert(idx_view(idx@) =~= identity_idx(self.fields@.len() as int));
        }
        r
    }

    /// Renders only the columns the given header names select, in the
    /// order the names give; unknown names are passed over.
    pub fn to_string_partial(&self, fields: &Vec<String>) -> (r: String)
        requires
            self.wf(),
        ensures
            r@ == table_str_sel(
                *self,
                selected_indices(
                    self.fields.deep_view(),
                    fields.deep_view(),
                    fields@.len() as int,
                ),
            ),
    {
        let ghost fdv = self.fields.deep_view();
        let ghost ndv = fields.deep_view();
        let nf = self.fields.len();
        let mut idx: Vec<usize> = Vec::new();
        let mut m: usize = 0;
        proof {
            assert(idx_view(idx@) =~= selected_indices(fdv, ndv, 0));
        }
        while m < fields.len()
            invariant
                m <= fields@.len(),
                nf == self.fields@.len(),
                fdv == self.fields.deep_view(),
                ndv == fields.deep_view(),
                idx_view(idx@) == selected_indices(fdv, ndv, m as int),
                forall|j: int| 0 <= j < idx@.len() ==> idx@[j] < nf,
            decreases fields@.len() - m,
        {
            let name: &str = fields[m].as_str();
            let mut i: usize = 0;
            let mut found = false;
            while !found && i < nf
                invariant
                    i <= nf,
                    nf == self.fields@.len(),
                    fdv == self.fields.deep_view(),
                    forall|k: int| 0 <= k < i ==> fdv[k] != name@,
                    found ==> i < nf && fdv[i as int] == name@,
                decreases nf - i + (if found {
                    0int
                } else {
                    1
                }),
            {
                if str_eq(self.fields[i].as_str(), name) {
                    found = true;
                } else {
                    i += 1;
                }
            }
            if found {
                proof {
                    lemma_first_index_of(fdv, name@, 0, i as int);
                }
                idx.push(i);
                proof {
                    assert(idx_view(idx@) =~= selected_indices(fdv, ndv, m + 1));
                }
            } else {
                proof {
                    lemma_first_index_of(fdv, name@, 0, nf as int);
                    assert(idx_view(idx@) =~= selected_indices(fdv, ndv, m + 1));
                }
            }
            m += 1;
        }
        to_string_sel(self, &idx)
    }
}

/// The column positions 0 to `n - 1`, as an index list.
fn identity_indices(n: usize) -> (idx: Vec<usize>)
    ensures
        idx@.len() == n,
        forall|j: int| 0 <= j < n ==> idx@[j] == j,
{
    let mut idx: Vec<usize> = Vec::new();
    let mut i: usize = 0;
    while i < n
        invariant
            i <= n,
            idx@.len() == i,
            forall|j: int| 0 <= j < i ==> idx@[j] == j,
        decreases n - i,
    {
        idx.push(i);
        i += 1;
    }
    idx
}

/// Renders one row: the cells at the selected positions, padded and
/// joined with single spaces.
fn render_cells(t: &Table, cells: &Vec<String>, idx: &Vec<usize>) -> (r: String)
    requires
        t.wf(),
        cells@.len() == t.fields@.len(),
        forall|j: int| 0 <= j < idx@.len() ==> idx@[j] < t.fields@.len(),
    ensures
        r@ == join_with(padded_row(*t, cells.deep_view(), idx_view(idx@)), ' '),
{
    proof {
        reveal_strlit(" ");
    }
    let ghost pr = padded_row(*t, cells.deep_view(), idx_view(idx@));
    let mut s = String::new();
    let mut j: usize = 0;
    proof {
        assert(join_with(pr.subrange(0, 0), ' ') =~= Seq::<char>::empty());
    }
    while j < idx.len()
        invariant
            j <= idx@.len(),
            t.wf(),
            cells@.len() == t.fields@.len(),
            forall|k: int| 0 <= k < idx@.len() ==> idx@[k] < t.fields@.len(),
            pr == padded_row(*t, cells.deep_view(), idx_view(idx@)),
            s@ == join_with(pr.subrange(0, j as int), ' '),
        decreases idx@.len() - j,
    {
        if j > 0 {
            s.append(" ");
        }
        let ci: usize = idx[j];
        let a: FieldAlign = match t.aligns[ci] {
            Some(x) => x,
            None => t.align,
        };
        let p = Table::padding(cells[ci].as_str(), t.column_width[ci], &a);
        s.append(p.as_str());
        j += 1;
        proof {
            assert(pr.subrange(0, j as int).drop_last() =~= pr.subrange(0, j - 1));
            assert(pr.subrange(0, j as int).last() == pr[j - 1]);
            assert(s@ == join_with(pr.subrange(0, j as int), ' '));
        }
    }
    proof {
        assert(pr.subrange(0, idx@.len() as int) =~= pr);
    }
    s
}

/// Renders the table under a list of selected column positions.
fn to_string_sel(t: &Table, idx: &Vec<usize>) -> (r: String)
    requires
        t.wf(),
        forall|j: int| 0 <= j < idx@.len() ==> idx@[j] < t.fields@.len(),
    ensures
        r@ == table_str_sel(*t, idx_view(idx@)),
{
    proof {
        reveal_strlit("\n");
    }
    let ghost lines = table_lines(*t, idx_view(idx@));
    let mut s = render_cells(t, &t.fields, idx);
    let mut r: usize = 0;
    proof {
        assert(lines.subrange(0, 1).drop_last() =~= Seq::<Seq<char>>::empty());
        assert(join_with(lines.subrange(0, 1), '\n') == lines[0]);
        assert(s@ == join_with(lines.subrange(0, 1), '\n'));
    }
    while r < t.content.len()
        invariant
            r <= t.content@.len(),
            t.wf(),
            forall|j: int| 0 <= j < idx@.len() ==> idx@[j] < t.fields@.len(),
            lines == table_lines(*t, idx_view(idx@)),
            s@ == join_with(lines.subrange(0, r + 1), '\n'),
        decreases t.content@.len() - r,
    {
        s.append("\n");
        let line = render_cells(t, &t.content[r], idx);
        s.append(line.as_str());
        r += 1;
        proof {
            assert(lines.subrange(0, r + 1).drop_last() =~= lines.subrange(0, r as int));
            assert(lines.subrange(0, r + 1).last() == lines[r as int]);
            assert(s@ == join_with(lines.subrange(0, r + 1), '\n'));
        }
    }
    proof {
        assert(lines.subrange(0, t.content@.len() + 1 as int) =~= lines);
    }
    s
}

} // verus!
