//! The status table renderer: rows of (id, name, image, state, status)
//! rendered left-aligned, each column as wide as its longest cell plus a
//! fixed padding. Pure data to text; printing happens outside this crate.

use vstd::prelude::*;
use vstd::string::StrSliceExecFns;
use vstd::string::StringExecFns;

use crate::textutil::lemma_pad_len;
use crate::textutil::pad;
use crate::textutil::spec_pad;
use crate::textutil::to_upper;
use crate::textutil::upper_of;

verus! {

/// Fixed padding added to every column's longest cell.
pub const PADDING: usize = 2;

/// Width of the id column: ids are always shortened to twelve characters
/// before they become rows, so the column is fixed.
pub const ID_WIDTH: usize = 14;

/// One row of the status table.
#[derive(Debug)]
pub struct Container {
    pub id: String,
    pub name: String,
    pub image: String,
    pub state: String,
    pub status: String,
}

impl Container {
    /// A row from its five cells.
    pub fn new(id: &str, name: &str, image: &str, state: &str, status: &str) -> (r: Container)
        ensures
            r.id@ == id@,
            r.name@ == name@,
            r.image@ == image@,
            r.state@ == state@,
            r.status@ == status@,
    {
        Container {
            id: String::from_str(id),
            name: String::from_str(name),
            image: String::from_str(image),
            state: String::from_str(state),
            status: String::from_str(status),
        }
    }
}

/// The mathematical view of one row: its five cells as character sequences.
#[verifier::ext_equal]
pub struct RowView {
    pub id: Seq<char>,
    pub name: Seq<char>,
    pub image: Seq<char>,
    pub state: Seq<char>,
    pub status: Seq<char>,
}

impl View for Container {
    type V = RowView;

    open spec fn view(&self) -> RowView {
        RowView {
            id: self.id@,
            name: self.name@,
            image: self.image@,
            state: self.state@,
            status: self.status@,
        }
    }
}

/// The fixed header row.
pub open spec fn spec_header_row() -> RowView {
    RowView {
        id: "CONTAINER ID"@,
        name: "NAME"@,
        image: "IMAGE"@,
        state: "STATE"@,
        status: "STATUS"@,
    }
}

/// Whether `c` is the fixed header row.
pub open spec fn spec_is_header(c: Container) -> bool {
    c@ == spec_header_row()
}

/// The views of a row sequence.
pub open spec fn spec_row_views(rows: Seq<Container>) -> Seq<RowView> {
    rows.map_values(|c: Container| c@)
}

/// Appending a row appends its view.
pub proof fn lemma_row_views_push(rows: Seq<Container>, c: Container)
    ensures
        spec_row_views(rows.push(c)) == spec_row_views(rows).push(c@),
{
    assert(spec_row_views(rows.push(c)) =~= spec_row_views(rows).push(c@));
}

/// The names of a sequence of row views, in row order.
pub open spec fn spec_row_names(rows: Seq<RowView>) -> Seq<Seq<char>> {
    rows.map_values(|r: RowView| r.name)
}

/// Appending a row view appends its name.
pub proof fn lemma_row_names_push(rows: Seq<RowView>, r: RowView)
    ensures
        spec_row_names(rows.push(r)) == spec_row_names(rows).push(r.name),
{
    assert(spec_row_names(rows.push(r)) =~= spec_row_names(rows).push(r.name));
}

/// The status table: the header row followed by data rows, in the order they
/// were pushed.
#[derive(Debug)]
pub struct Containers {
    pub data: Vec<Container>,
}

/// The longest length among a sequence of cells.
pub open spec fn spec_max_len(ss: Seq<Seq<char>>) -> nat
    decreases ss.len(),
{
    if ss.len() == 0 {
        0
    } else {
        let rest = spec_max_len(ss.drop_last());
        if ss.last().len() >= rest {
            ss.last().len()
        } else {
            rest
        }
    }
}

/// No cell is longer than the longest.
pub proof fn lemma_max_len_ge(ss: Seq<Seq<char>>, k: int)
    requires
        0 <= k < ss.len(),
    ensures
        spec_max_len(ss) >= ss[k].len(),
    decreases ss.len(),
{
    if k < ss.len() - 1 {
        lemma_max_len_ge(ss.drop_last(), k);
    }
}

/// The name cells of a row set.
pub open spec fn spec_names(rows: Seq<Container>) -> Seq<Seq<char>> {
    rows.map_values(|c: Container| c.name@)
}

/// The image cells of a row set.
pub open spec fn spec_images(rows: Seq<Container>) -> Seq<Seq<char>> {
    rows.map_values(|c: Container| c.image@)
}

/// The state cells of a row set, as given (upper-casing happens at render
/// time and does not widen the column).
pub open spec fn spec_states(rows: Seq<Container>) -> Seq<Seq<char>> {
    rows.map_values(|c: Container| c.state@)
}

/// The status cells of a row set.
pub open spec fn spec_statuses(rows: Seq<Container>) -> Seq<Seq<char>> {
    rows.map_values(|c: Container| c.status@)
}

/// Width of the name column for a row set.
pub open spec fn spec_name_width(rows: Seq<Container>) -> int {
    spec_max_len(spec_names(rows)) + PADDING
}

/// Width of the image column for a row set.
pub open spec fn spec_image_width(rows: Seq<Container>) -> int {
    spec_max_len(spec_images(rows)) + PADDING
}

/// Width of the state column for a row set.
pub open spec fn spec_state_width(rows: Seq<Container>) -> int {
    spec_max_len(spec_states(rows)) + PADDING
}

/// Width of the status column for a row set.
pub open spec fn spec_status_width(rows: Seq<Container>) -> int {
    spec_max_len(spec_statuses(rows)) + PADDING
}

/// Each computed column width, plus its padding, still fits the machine's
/// length type.
pub open spec fn spec_rows_fit(rows: Seq<Container>) -> bool {
    forall|i: int|
        0 <= i < rows.len() ==> {
            &&& (#[trigger] rows[i]).name@.len() + PADDING <= usize::MAX
            &&& rows[i].image@.len() + PADDING <= usize::MAX
            &&& rows[i].state@.len() + PADDING <= usize::MAX
            &&& rows[i].status@.len() + PADDING <= usize::MAX
        }
}

/// One rendered line: the five cells left-aligned to the given widths, the
/// state upper-cased, then a line break.
pub open spec fn spec_render_row(c: Container, nw: int, iw: int, sw: int, stw: int) -> Seq<char> {
    spec_pad(c.id@, ID_WIDTH as int) + spec_pad(c.name@, nw) + spec_pad(c.image@, iw) + spec_pad(
        upper_of(c.state@),
        sw,
    ) + spec_pad(c.status@, stw) + "\n"@
}

/// The rendered lines of a row set, in row order, at the given widths.
pub open spec fn spec_render_rows(
    rows: Seq<Container>,
    nw: int,
    iw: int,
    sw: int,
    stw: int,
) -> Seq<char>
    decreases rows.len(),
{
    if rows.len() == 0 {
        Seq::empty()
    } else {
        spec_render_rows(rows.drop_last(), nw, iw, sw, stw) + spec_render_row(
            rows.last(),
            nw,
            iw,
            sw,
            stw,
        )
    }
}

/// The full rendered table: every row at the widths computed from the whole
/// row set. The output is a function of the rows alone, and row order is
/// preserved.
pub open spec fn spec_render(rows: Seq<Container>) -> Seq<char> {
    spec_render_rows(
        rows,
        spec_name_width(rows),
        spec_image_width(rows),
        spec_state_width(rows),
        spec_status_width(rows),
    )
}

impl Containers {
    /// An empty table: just the header row.
    pub fn new() -> (r: Containers)
        ensures
            r.data@.len() == 1,
            spec_is_header(r.data@[0]),
    {
        let mut data: Vec<Container> = Vec::new();
        data.push(Container::new("CONTAINER ID", "NAME", "IMAGE", "STATE", "STATUS"));
        proof {
            assert(data@[0]@ =~= spec_header_row());
        }
        Containers { data }
    }

    /// Appends one row.
    pub fn push(&mut self, c: Container)
        ensures
            final (self).data@ == old(self).data@.push(c),
    {
        self.data.push(c);
    }

    /// Whether every cell, padded, still fits the machine's length type:
    /// the bound rendering needs.
    pub fn fits(&self) -> (b: bool)
        ensures
            b == spec_rows_fit(self.data@),
    {
        let mut i: usize = 0;
        while i < self.data.len()
            invariant
                0 <= i <= self.data@.len(),
                forall|j: int|
                    0 <= j < i ==> {
                        &&& (#[trigger] self.data@[j]).name@.len() + PADDING <= usize::MAX
                        &&& self.data@[j].image@.len() + PADDING <= usize::MAX
                        &&& self.data@[j].state@.len() + PADDING <= usize::MAX
                        &&& self.data@[j].status@.len() + PADDING <= usize::MAX
                    },
            decreases self.data@.len() - i,
        {
            let row = &self.data[i];
            if row.name.as_str().unicode_len() > usize::MAX - PADDING
                || row.image.as_str().unicode_len() > usize::MAX - PADDING
                || row.state.as_str().unicode_len() > usize::MAX - PADDING
                || row.status.as_str().unicode_len() > usize::MAX - PADDING {
                return false;
            }
            i = i + 1;
        }
        true
    }

    /// The four data-driven column widths: longest name, image, state and
    /// status cell, each plus the fixed padding.
    fn find_lengths(&self) -> (r: (usize, usize, usize, usize))
        requires
            spec_rows_fit(self.data@),
        ensures
            r.0 == spec_name_width(self.data@),
            r.1 == spec_image_width(self.data@),
            r.2 == spec_state_width(self.data@),
            r.3 == spec_status_width(self.data@),
    {
        let rows = &self.data;
        let mut name: usize = 0;
        let mut image: usize = 0;
        let mut state: usize = 0;
        let mut status: usize = 0;
        let mut i: usize = 0;
        while i < rows.len()
            invariant
                0 <= i <= rows@.len(),
                spec_rows_fit(rows@),
                name == spec_max_len(spec_names(rows@.take(i as int))),
                image == spec_max_len(spec_images(rows@.take(i as int))),
                state == spec_max_len(spec_states(rows@.take(i as int))),
                status == spec_max_len(spec_statuses(rows@.take(i as int))),
                name + PADDING <= usize::MAX,
                image + PADDING <= usize::MAX,
                state + PADDING <= usize::MAX,
                status + PADDING <= usize::MAX,
            decreases rows@.len() - i,
        {
            let row = &rows[i];
            let l_name = row.name.as_str().unicode_len();
            if l_name > name {
                name = l_name;
            }
            let l_image = row.image.as_str().unicode_len();
            if l_image > image {
                image = l_image;
            }
            let l_state = row.state.as_str().unicode_len();
            if l_state > state {
                state = l_state;
            }
            let l_status = row.status.as_str().unicode_len();
            if l_status > status {
                status = l_status;
            }
            proof {
                assert(spec_names(rows@.take(i + 1)).drop_last() =~= spec_names(
                    rows@.take(i as int),
                ));
                assert(spec_images(rows@.take(i + 1)).drop_last() =~= spec_images(
                    rows@.take(i as int),
                ));
                assert(spec_states(rows@.take(i + 1)).drop_last() =~= spec_states(
                    rows@.take(i as int),
                ));
                assert(spec_statuses(rows@.take(i + 1)).drop_last() =~= spec_statuses(
                    rows@.take(i as int),
                ));
            }
            i = i + 1;
        }
        proof {
            assert(rows@.take(rows@.len() as int) =~= rows@);
        }
        (name + PADDING, image + PADDING, state + PADDING, status + PADDING)
    }

    /// Renders the whole table, header first, one line per row, each column
    /// left-aligned to the widths computed from the whole row set.
    pub fn render(&self) -> (r: String)
        requires
            spec_rows_fit(self.data@),
        ensures
            r@ == spec_render(self.data@),
    {
        let (nw, iw, sw, stw) = self.find_lengths();
        let mut out = String::new();
        let mut i: usize = 0;
        while i < self.data.len()
            invariant
                0 <= i <= self.data@.len(),
                nw == spec_name_width(self.data@),
                iw == spec_image_width(self.data@),
                sw == spec_state_width(self.data@),
                stw == spec_status_width(self.data@),
                out@ == spec_render_rows(
                    self.data@.take(i as int),
                    nw as int,
                    iw as int,
                    sw as int,
                    stw as int,
                ),
            decreases self.data@.len() - i,
        {
            let row = &self.data[i];
            out.append(pad(row.id.as_str(), ID_WIDTH).as_str());
            out.append(pad(row.name.as_str(), nw).as_str());
            out.append(pad(row.image.as_str(), iw).as_str());
            out.append(pad(to_upper(row.state.as_str()).as_str(), sw).as_str());
            out.append(pad(row.status.as_str(), stw).as_str());
            out.append("\n");
            proof {
                assert(self.data@.take(i + 1).drop_last() =~= self.data@.take(i as int));
                assert(out@ =~= spec_render_rows(
                    self.data@.take(i + 1),
                    nw as int,
                    iw as int,
                    sw as int,
                    stw as int,
                ));
            }
            i = i + 1;
        }
        proof {
            assert(self.data@.take(self.data@.len() as int) =~= self.data@);
        }
        out
    }
}

/// Renderer width invariant: in every rendered line, every column's field is
/// at least as wide as any row's cell in that column plus the fixed padding
/// (state cells measured as given; upper-casing happens at render time).
pub proof fn lemma_render_width_invariant(rows: Seq<Container>, i: int, j: int)
    requires
        0 <= i < rows.len(),
        0 <= j < rows.len(),
    ensures
        spec_pad(rows[i].name@, spec_name_width(rows)).len() >= rows[j].name@.len() + PADDING,
        spec_pad(rows[i].image@, spec_image_width(rows)).len() >= rows[j].image@.len() + PADDING,
        spec_pad(upper_of(rows[i].state@), spec_state_width(rows)).len() >= rows[j].state@.len()
            + PADDING,
        spec_pad(rows[i].status@, spec_status_width(rows)).len() >= rows[j].status@.len() + PADDING,
{
    lemma_max_len_ge(spec_names(rows), j);
    lemma_max_len_ge(spec_images(rows), j);
    lemma_max_len_ge(spec_states(rows), j);
    lemma_max_len_ge(spec_statuses(rows), j);
    lemma_pad_len(rows[i].name@, spec_name_width(rows));
    lemma_pad_len(rows[i].image@, spec_image_width(rows));
    lemma_pad_len(upper_of(rows[i].state@), spec_state_width(rows));
    lemma_pad_len(rows[i].status@, spec_status_width(rows));
}

/// The first rendered line is the first row's: rendering peels rows off the
/// front in order, so a table built by `Containers::new` always renders the
/// header as its first line.
pub proof fn lemma_render_first_row(rows: Seq<Container>)
    requires
        rows.len() > 0,
    ensures
        spec_render(rows) == spec_render_row(
            rows[0],
            spec_name_width(rows),
            spec_image_width(rows),
            spec_state_width(rows),
            spec_status_width(rows),
        ) + spec_render_rows(
            rows.drop_first(),
            spec_name_width(rows),
            spec_image_width(rows),
            spec_state_width(rows),
            spec_status_width(rows),
        ),
{
    lemma_render_rows_first(
        rows,
        spec_name_width(rows),
        spec_image_width(rows),
        spec_state_width(rows),
        spec_status_width(rows),
    );
}

/// Rendering from the back equals rendering from the front.
proof fn lemma_render_rows_first(rows: Seq<Container>, nw: int, iw: int, sw: int, stw: int)
    requires
        rows.len() > 0,
    ensures
        spec_render_rows(rows, nw, iw, sw, stw) == spec_render_row(rows[0], nw, iw, sw, stw)
            + spec_render_rows(rows.drop_first(), nw, iw, sw, stw),
    decreases rows.len(),
{
    if rows.len() == 1 {
        assert(rows.drop_last() =~= Seq::empty());
        assert(rows.drop_first() =~= Seq::empty());
        assert(spec_render_rows(rows, nw, iw, sw, stw) =~= spec_render_row(
            rows[0],
            nw,
            iw,
            sw,
            stw,
        ) + spec_render_rows(rows.drop_first(), nw, iw, sw, stw));
    } else {
        lemma_render_rows_first(rows.drop_last(), nw, iw, sw, stw);
        assert(rows.drop_last()[0] == rows[0]);
        assert(rows.drop_last().drop_first() =~= rows.drop_first().drop_last());
        assert(rows.drop_first().last() == rows.last());
        assert(spec_render_rows(rows, nw, iw, sw, stw) =~= spec_render_row(
            rows[0],
            nw,
            iw,
            sw,
            stw,
        ) + spec_render_rows(rows.drop_first(), nw, iw, sw, stw));
    }
}

} // verus!
