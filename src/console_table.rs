//! Plain-text tables with a title row and padded, aligned columns.
use vstd::prelude::*;
use vstd::string::*;
use crate::text::{push_spaces, spaces};

verus! {

/// How text is aligned within its column.
#[derive(Clone, Copy, PartialEq, Eq, Debug)]
pub enum Alignment {
    Left,
    Right,
}

/// Options of one table column.
#[derive(Debug)]
pub struct ColumnOptions {
    title: String,
    alignment: Alignment,
    spacing: u32,
}

impl ColumnOptions {
    pub closed spec fn spec_title(&self) -> Seq<char> {
        self.title@
    }

    pub closed spec fn spec_alignment(&self) -> Alignment {
        self.alignment
    }

    pub closed spec fn spec_spacing(&self) -> nat {
        self.spacing as nat
    }

    /// A left-aligned column titled `title`, followed by one space.
    pub fn new(title: &str) -> (r: Self)
        ensures
            r.spec_title() == title@,
            r.spec_alignment() == Alignment::Left,
            r.spec_spacing() == 1,
    {
        ColumnOptions { title: title.to_owned(), alignment: Alignment::Left, spacing: 1 }
    }

    /// The same column with alignment `alignment`.
    pub fn alignment(self, alignment: Alignment) -> (r: Self)
        ensures
            r.spec_title() == self.spec_title(),
            r.spec_alignment() == alignment,
            r.spec_spacing() == self.spec_spacing(),
    {
        ColumnOptions { alignment, ..self }
    }

    /// The same column followed by `spacing` spaces.
    pub fn spacing(self, spacing: u32) -> (r: Self)
        ensures
            r.spec_title() == self.spec_title(),
            r.spec_alignment() == self.spec_alignment(),
            r.spec_spacing() == spacing,
    {
        ColumnOptions { spacing, ..self }
    }
}

/// The longest of `title` and the cells of `rows`, in characters.
pub open spec fn widest(title: Seq<char>, rows: Seq<Seq<char>>) -> nat
    decreases rows.len(),
{
    if rows.len() == 0 {
        title.len()
    } else {
        let w = widest(title, rows.drop_last());
        if rows.last().len() > w {
            rows.last().len()
        } else {
            w
        }
    }
}

/// `s` padded with spaces to `width` characters, on the right when
/// left-aligned and on the left when right-aligned.
pub open spec fn pad(s: Seq<char>, width: nat, alignment: Alignment) -> Seq<char> {
    if s.len() >= width {
        s
    } else if alignment == Alignment::Left {
        s + spaces((width - s.len()) as nat)
    } else {
        spaces((width - s.len()) as nat) + s
    }
}

/// A column as plain values: title, alignment, spacing and cells.
pub struct ColumnSpec {
    pub title: Seq<char>,
    pub alignment: Alignment,
    pub spacing: nat,
    pub rows: Seq<Seq<char>>,
}

/// The text of line `r` of column `c`: the title for line 0, else cell `r - 1`.
pub open spec fn cell(c: ColumnSpec, r: int) -> Seq<char> {
    if r == 0 {
        c.title
    } else {
        c.rows[r - 1]
    }
}

/// Column `idx` of line `r`: padded to the widest cell of its column and
/// followed by its spacing, except the last column, which is neither.
pub open spec fn piece(cols: Seq<ColumnSpec>, r: int, idx: int) -> Seq<char> {
    let c = cols[idx];
    if idx == cols.len() - 1 {
        cell(c, r)
    } else {
        pad(cell(c, r), widest(c.title, c.rows), c.alignment) + spaces(c.spacing)
    }
}

/// The first `n` columns of line `r`.
pub open spec fn line_prefix(cols: Seq<ColumnSpec>, r: int, n: nat) -> Seq<char>
    decreases n,
{
    if n == 0 {
        Seq::empty()
    } else {
        line_prefix(cols, r, (n - 1) as nat) + piece(cols, r, n - 1)
    }
}

/// The first `n` lines, separated by newlines.
pub open spec fn lines_prefix(cols: Seq<ColumnSpec>, n: nat) -> Seq<char>
    decreases n,
{
    if n == 0 {
        Seq::empty()
    } else if n == 1 {
        line_prefix(cols, 0, cols.len())
    } else {
        lines_prefix(cols, (n - 1) as nat) + seq!['\n'] + line_prefix(cols, n - 1, cols.len())
    }
}

/// The table of `cols`, which hold `rows` cells each: the title line, then
/// one line per row, separated by newlines; empty without columns.
pub open spec fn table_text(cols: Seq<ColumnSpec>, rows: nat) -> Seq<char> {
    if cols.len() == 0 {
        Seq::empty()
    } else {
        lines_prefix(cols, rows + 1)
    }
}

struct Column {
    options: ColumnOptions,
    max_width: usize,
    rows: Vec<String>,
}

/// The cells of `rows` as character sequences.
pub open spec fn cells(rows: Seq<String>) -> Seq<Seq<char>> {
    rows.map_values(|s: String| s@)
}

/// A table being built, column by column.
pub struct CoreBuilder {
    columns: Vec<Column>,
    row_count: usize,
}

impl CoreBuilder {
    /// The columns as plain values.
    pub closed spec fn spec_columns(&self) -> Seq<ColumnSpec> {
        self.columns@.map_values(
            |c: Column|
                ColumnSpec {
                    title: c.options.title@,
                    alignment: c.options.alignment,
                    spacing: c.options.spacing as nat,
                    rows: cells(c.rows@),
                },
        )
    }

    /// The number of rows pushed.
    pub closed spec fn spec_row_count(&self) -> nat {
        self.row_count as nat
    }

    pub closed spec fn wf(&self) -> bool {
        forall|i: int|
            0 <= i < self.columns@.len() ==> {
                &&& #[trigger] self.columns@[i].rows@.len() == self.row_count
                &&& self.columns@[i].max_width == widest(
                    self.columns@[i].options.title@,
                    cells(self.columns@[i].rows@),
                )
            }
    }

    /// A table with the columns `options`, in order, and no row.
    pub fn new(options: Vec<ColumnOptions>) -> (r: Self)
        ensures
            r.wf(),
            r.spec_row_count() == 0,
            r.spec_columns().len() == options@.len(),
            forall|i: int|
                0 <= i < options@.len() ==> #[trigger] r.spec_columns()[i] == (ColumnSpec {
                    title: options@[i].spec_title(),
                    alignment: options@[i].spec_alignment(),
                    spacing: options@[i].spec_spacing(),
                    rows: Seq::empty(),
                }),
    {
        let mut options = options;
        let ghost opts = options@;
        let mut columns: Vec<Column> = Vec::new();
        while options.len() > 0
            invariant
                columns@.len() + options@.len() == opts.len(),
                options@ == opts.subrange(columns@.len() as int, opts.len() as int),
                forall|i: int|
                    0 <= i < columns@.len() ==> {
                        &&& (#[trigger] columns@[i]).options == opts[i]
                        &&& columns@[i].rows@.len() == 0
                        &&& columns@[i].max_width == columns@[i].options.title@.len()
                    },
            decreases options@.len(),
        {
            let ghost k: int = columns@.len() as int;
            let o = options.remove(0);
            assert(o == opts[k]);
            assert(options@ =~= opts.subrange(k + 1, opts.len() as int));
            let w = o.title.as_str().unicode_len();
            columns.push(Column { options: o, max_width: w, rows: Vec::new() });
        }
        let r = CoreBuilder { columns, row_count: 0 };
        assert forall|i: int| 0 <= i < r.columns@.len() implies {
            &&& #[trigger] r.columns@[i].rows@.len() == r.row_count
            &&& r.columns@[i].max_width == widest(
                r.columns@[i].options.title@,
                cells(r.columns@[i].rows@),
            )
        } by {
            assert(cells(r.columns@[i].rows@).len() == 0);
        }
        assert forall|i: int| 0 <= i < opts.len() implies #[trigger] r.spec_columns()[i] == (ColumnSpec {
            title: opts[i].spec_title(),
            alignment: opts[i].spec_alignment(),
            spacing: opts[i].spec_spacing(),
            rows: Seq::empty(),
        }) by {
            assert(cells(r.columns@[i].rows@) =~= Seq::<Seq<char>>::empty());
        }
        r
    }

    /// Appends a row: one cell per column, in column order.
    pub fn push_row(&mut self, fields: Vec<String>)
        requires
            old(self).wf(),
            fields@.len() == old(self).spec_columns().len(),
            old(self).spec_row_count() < usize::MAX,
        ensures
            final(self).wf(),
            final(self).spec_row_count() == old(self).spec_row_count() + 1,
            final(self).spec_columns().len() == old(self).spec_columns().len(),
            forall|i: int|
                0 <= i < fields@.len() ==> #[trigger] final(self).spec_columns()[i] == (ColumnSpec {
                    rows: old(self).spec_columns()[i].rows.push(fields@[i]@),
                    ..old(self).spec_columns()[i]
                }),
    {
        let mut fields = fields;
        let ghost fs = fields@;
        let n = self.columns.len();
        let mut i: usize = 0;
        while i < n
            invariant
                n == self.columns@.len(),
                n == old(self).columns@.len(),
                fs.len() == n,
                i <= n,
                fields@ == fs.subrange(i as int, n as int),
                self.row_count == old(self).row_count,
                old(self).wf(),
                old(self).row_count < usize::MAX,
                forall|k: int|
                    0 <= k < i ==> {
                        &&& (#[trigger] self.columns@[k]).options == old(self).columns@[k].options
                        &&& self.columns@[k].rows@ == old(self).columns@[k].rows@.push(fs[k])
                        &&& self.columns@[k].max_width == widest(
                            self.columns@[k].options.title@,
                            cells(self.columns@[k].rows@),
                        )
                    },
                forall|k: int| i <= k < n ==> #[trigger] self.columns@[k] == old(self).columns@[k],
            decreases n - i,
        {
            let f = fields.remove(0);
            assert(f == fs[i as int]);
            assert(fields@ =~= fs.subrange(i + 1, n as int));
            let w = f.as_str().unicode_len();
            let ghost before = self.columns@;
            let mut col = self.columns.remove(i);
            let ghost old_rows = col.rows@;
            if w > col.max_width {
                col.max_width = w;
            }
            col.rows.push(f);
            proof {
                assert(cells(col.rows@).drop_last() =~= cells(old_rows));
                assert(cells(col.rows@).last() == fs[i as int]@);
            }
            self.columns.insert(i, col);
            assert forall|k: int| 0 <= k < n && k != i implies #[trigger] self.columns@[k]
                == before[k] by {}
            i = i + 1;
        }
        self.row_count = self.row_count + 1;
        assert forall|k: int| 0 <= k < n implies #[trigger] self.spec_columns()[k] == (ColumnSpec {
            rows: old(self).spec_columns()[k].rows.push(fs[k]@),
            ..old(self).spec_columns()[k]
        }) by {
            assert(cells(self.columns@[k].rows@) =~= cells(old(self).columns@[k].rows@).push(
                fs[k]@,
            ));
        }
    }

    /// The table text: the title line, then one line per row.
    pub fn build(&self) -> (r: String)
        requires
            self.wf(),
        ensures
            r@ == table_text(self.spec_columns(), self.spec_row_count()),
    {
        let mut s = String::new();
        if self.columns.len() == 0 {
            return s;
        }
        let ghost cols = self.spec_columns();
        let ncols = self.columns.len();
        let last = ncols - 1;
        let n = self.row_count;
        let mut r: usize = 0;
        loop
            invariant_except_break
                s@ == lines_prefix(cols, r as nat) + if r == 0 {
                    Seq::<char>::empty()
                } else {
                    seq!['\n']
                },
            invariant
                self.wf(),
                cols == self.spec_columns(),
                ncols == cols.len(),
                ncols > 0,
                last == ncols - 1,
                n == self.row_count,
                r <= n,
            ensures
                s@ == lines_prefix(cols, (n + 1) as nat),
            decreases n - r,
        {
            let ghost base = s@;
            let mut idx: usize = 0;
            while idx < ncols
                invariant
                    self.wf(),
                    cols == self.spec_columns(),
                    ncols == cols.len(),
                    last == ncols - 1,
                    n == self.row_count,
                    r <= n,
                    idx <= ncols,
                    s@ == base + line_prefix(cols, r as int, idx as nat),
                decreases ncols - idx,
            {
                let col = &self.columns[idx];
                assert(col.rows@.len() == n);
                let text: &str = if r == 0 {
                    col.options.title.as_str()
                } else {
                    col.rows[r - 1].as_str()
                };
                assert(text@ == cell(cols[idx as int], r as int));
                if idx != last {
                    push_padded(&mut s, text, col.max_width, col.options.alignment);
                    push_spaces(&mut s, col.options.spacing as usize);
                } else {
                    s.append(text);
                }
                idx = idx + 1;
                assert(s@ =~= base + line_prefix(cols, r as int, idx as nat));
            }
            assert(s@ =~= lines_prefix(cols, (r + 1) as nat));
            if r == n {
                break;
            }
            crate::text::push_char(&mut s, '\n');
            r = r + 1;
        }
        s
    }
}

/// Appends `text` padded to `width` characters as `alignment` says.
fn push_padded(s: &mut String, text: &str, width: usize, alignment: Alignment)
    ensures
        final(s)@ == old(s)@ + pad(text@, width as nat, alignment),
{
    let len = text.unicode_len();
    if len >= width {
        s.append(text);
    } else {
        match alignment {
            Alignment::Left => {
                s.append(text);
                push_spaces(s, width - len);
            },
            Alignment::Right => {
                push_spaces(s, width - len);
                s.append(text);
            },
        }
    }
    assert(final(s)@ =~= old(s)@ + pad(text@, width as nat, alignment));
}

/// A collection of column options that makes a table builder with exactly
/// those columns, so that each row has the right number of cells.
pub trait ColumnCollection {
    /// The builder made from the collection.
    type Builder;

    /// Makes an empty table builder with these columns, in order.
    fn into_table_builder(self) -> Self::Builder;
}

/// A table builder with 2 columns.
pub struct Builder2 {
    core: CoreBuilder,
}

impl Builder2 {
    /// The columns as plain values.
    pub closed spec fn spec_columns(&self) -> Seq<ColumnSpec> {
        self.core.spec_columns()
    }

    /// The number of rows pushed.
    pub closed spec fn spec_row_count(&self) -> nat {
        self.core.spec_row_count()
    }

    pub closed spec fn wf(&self) -> bool {
        self.core.wf() && self.core.spec_columns().len() == 2
    }

    /// Appends a row with one cell per column.
    pub fn push_row(&mut self, field_0: String, field_1: String)
        requires
            old(self).wf(),
            old(self).spec_row_count() < usize::MAX,
        ensures
            final(self).wf(),
            final(self).spec_row_count() == old(self).spec_row_count() + 1,
            final(self).spec_columns().len() == 2,
            forall|i: int|
                0 <= i < 2 ==> #[trigger] final(self).spec_columns()[i] == (ColumnSpec {
                    rows: old(self).spec_columns()[i].rows.push(seq![field_0@, field_1@][i]),
                    ..old(self).spec_columns()[i]
                }),
    {
        let ghost cs = seq![field_0@, field_1@];
        let mut fields: Vec<String> = Vec::new();
        fields.push(field_0);
        fields.push(field_1);
        assert(forall|i: int| 0 <= i < 2 ==> #[trigger] fields@[i]@ == cs[i]);
        self.core.push_row(fields);
    }

    /// The table text: the title line, then one line per row.
    pub fn build(&self) -> (r: String)
        requires
            self.wf(),
        ensures
            r@ == table_text(self.spec_columns(), self.spec_row_count()),
    {
        self.core.build()
    }
}

impl ColumnCollection for (ColumnOptions, ColumnOptions) {
    type Builder = Builder2;

    fn into_table_builder(self) -> (r: Builder2)
        ensures
            r.wf(),
            r.spec_row_count() == 0,
            r.spec_columns().len() == 2,
            r.spec_columns()[0] == (ColumnSpec {
                title: self.0.spec_title(),
                alignment: self.0.spec_alignment(),
                spacing: self.0.spec_spacing(),
                rows: Seq::empty(),
            }),
            r.spec_columns()[1] == (ColumnSpec {
                title: self.1.spec_title(),
                alignment: self.1.spec_alignment(),
                spacing: self.1.spec_spacing(),
                rows: Seq::empty(),
            }),
    {
        let mut options: Vec<ColumnOptions> = Vec::new();
        options.push(self.0);
        options.push(self.1);
        Builder2 { core: CoreBuilder::new(options) }
    }
}

/// A table builder with 3 columns.
pub struct Builder3 {
    core: CoreBuilder,
}

impl Builder3 {
    /// The columns as plain values.
    pub closed spec fn spec_columns(&self) -> Seq<ColumnSpec> {
        self.core.spec_columns()
    }

    /// The number of rows pushed.
    pub closed spec fn spec_row_count(&self) -> nat {
        self.core.spec_row_count()
    }

    pub closed spec fn wf(&self) -> bool {
        self.core.wf() && self.core.spec_columns().len() == 3
    }

    /// Appends a row with one cell per column.
    pub fn push_row(&mut self, field_0: String, field_1: String, field_2: String)
        requires
            old(self).wf(),
            old(self).spec_row_count() < usize::MAX,
        ensures
            final(self).wf(),
            final(self).spec_row_count() == old(self).spec_row_count() + 1,
            final(self).spec_columns().len() == 3,
            forall|i: int|
                0 <= i < 3 ==> #[trigger] final(self).spec_columns()[i] == (ColumnSpec {
                    rows: old(self).spec_columns()[i].rows.push(seq![field_0@, field_1@, field_2@][i]),
                    ..old(self).spec_columns()[i]
                }),
    {
        let ghost cs = seq![field_0@, field_1@, field_2@];
        let mut fields: Vec<String> = Vec::new();
        fields.push(field_0);
        fields.push(field_1);
        fields.push(field_2);
        assert(forall|i: int| 0 <= i < 3 ==> #[trigger] fields@[i]@ == cs[i]);
        self.core.push_row(fields);
    }

    /// The table text: the title line, then one line per row.
    pub fn build(&self) -> (r: String)
        requires
            self.wf(),
        ensures
            r@ == table_text(self.spec_columns(), self.spec_row_count()),
    {
        self.core.build()
    }
}

impl ColumnCollection for (ColumnOptions, ColumnOptions, ColumnOptions) {
    type Builder = Builder3;

    fn into_table_builder(self) -> (r: Builder3)
        ensures
            r.wf(),
            r.spec_row_count() == 0,
            r.spec_columns().len() == 3,
            r.spec_columns()[0] == (ColumnSpec {
                title: self.0.spec_title(),
                alignment: self.0.spec_alignment(),
                spacing: self.0.spec_spacing(),
                rows: Seq::empty(),
            }),
            r.spec_columns()[1] == (ColumnSpec {
                title: self.1.spec_title(),
                alignment: self.1.spec_alignment(),
                spacing: self.1.spec_spacing(),
                rows: Seq::empty(),
            }),
            r.spec_columns()[2] == (ColumnSpec {
                title: self.2.spec_title(),
                alignment: self.2.spec_alignment(),
                spacing: self.2.spec_spacing(),
                rows: Seq::empty(),
            }),
    {
        let mut options: Vec<ColumnOptions> = Vec::new();
        options.push(self.0);
        options.push(self.1);
        options.push(self.2);
        Builder3 { core: CoreBuilder::new(options) }
    }
}

/// A table builder with 4 columns.
pub struct Builder4 {
    core: CoreBuilder,
}

impl Builder4 {
    /// The columns as plain values.
    pub closed spec fn spec_columns(&self) -> Seq<ColumnSpec> {
        self.core.spec_columns()
    }

    /// The number of rows pushed.
    pub closed spec fn spec_row_count(&self) -> nat {
        self.core.spec_row_count()
    }

    pub closed spec fn wf(&self) -> bool {
        self.core.wf() && self.core.spec_columns().len() == 4
    }

    /// Appends a row with one cell per column.
    pub fn push_row(&mut self, field_0: String, field_1: String, field_2: String, field_3: String)
        requires
            old(self).wf(),
            old(self).spec_row_count() < usize::MAX,
        ensures
            final(self).wf(),
            final(self).spec_row_count() == old(self).spec_row_count() + 1,
            final(self).spec_columns().len() == 4,
            forall|i: int|
                0 <= i < 4 ==> #[trigger] final(self).spec_columns()[i] == (ColumnSpec {
                    rows: old(self).spec_columns()[i].rows.push(seq![field_0@, field_1@, field_2@, field_3@][i]),
                    ..old(self).spec_columns()[i]
                }),
    {
        let ghost cs = seq![field_0@, field_1@, field_2@, field_3@];
        let mut fields: Vec<String> = Vec::new();
        fields.push(field_0);
        fields.push(field_1);
        fields.push(field_2);
        fields.push(field_3);
        assert(forall|i: int| 0 <= i < 4 ==> #[trigger] fields@[i]@ == cs[i]);
        self.core.push_row(fields);
    }

    /// The table text: the title line, then one line per row.
    pub fn build(&self) -> (r: String)
        requires
            self.wf(),
        ensures
            r@ == table_text(self.spec_columns(), self.spec_row_count()),
    {
        self.core.build()
    }
}

impl ColumnCollection for (ColumnOptions, ColumnOptions, ColumnOptions, ColumnOptions) {
    type Builder = Builder4;

    fn into_table_builder(self) -> (r: Builder4)
        ensures
            r.wf(),
            r.spec_row_count() == 0,
            r.spec_columns().len() == 4,
            r.spec_columns()[0] == (ColumnSpec {
                title: self.0.spec_title(),
                alignment: self.0.spec_alignment(),
                spacing: self.0.spec_spacing(),
                rows: Seq::empty(),
            }),
            r.spec_columns()[1] == (ColumnSpec {
                title: self.1.spec_title(),
                alignment: self.1.spec_alignment(),
                spacing: self.1.spec_spacing(),
                rows: Seq::empty(),
            }),
            r.spec_columns()[2] == (ColumnSpec {
                title: self.2.spec_title(),
                alignment: self.2.spec_alignment(),
                spacing: self.2.spec_spacing(),
                rows: Seq::empty(),
            }),
            r.spec_columns()[3] == (ColumnSpec {
                title: self.3.spec_title(),
                alignment: self.3.spec_alignment(),
                spacing: self.3.spec_spacing(),
                rows: Seq::empty(),
            }),
    {
        let mut options: Vec<ColumnOptions> = Vec::new();
        options.push(self.0);
        options.push(self.1);
        options.push(self.2);
        options.push(self.3);
        Builder4 { core: CoreBuilder::new(options) }
    }
}

} // verus!
