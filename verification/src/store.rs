//! The table store: an arena of typed records (headers, rows, cells)
//! addressed by integer handles, with parent back-references and the
//! transient `pressed` marker used while a gesture is in flight.

use vstd::prelude::*;

verus! {

/// A column header: its display text and its presentational highlight.
pub struct Header {
    pub text: String,
    pub selected: bool,
}

/// A table cell: display text, presentational highlight, the transient
/// pressed marker, and a back-reference to the owning row.
pub struct Cell {
    pub text: String,
    pub selected: bool,
    pub pressed: bool,
    pub row: usize,
}

/// A row: the ordered cell handles; a cell's position here is its column.
pub struct Row {
    pub cells: Vec<usize>,
}

/// A reference to a logical table element, as recorded by the hit-test
/// canvas. Handles index the arenas of `TableStore`.
#[derive(Clone, Copy, PartialEq, Eq, Structural, Debug)]
pub enum Element {
    Header(usize),
    Cell(usize),
}

/// Error signalled by `swap_cells_in_row` when an index is out of bounds.
#[derive(Clone, Copy, PartialEq, Eq, Structural, Debug)]
pub enum StoreError {
    InvalidIndex,
}

/// The table store owns every header, row and cell record.
pub struct TableStore {
    pub headers: Vec<Header>,
    pub rows: Vec<Row>,
    pub cells: Vec<Cell>,
}

impl TableStore {
    /// Well-formedness: every row is as wide as the header list, every
    /// cell handle held by a row is valid and points back to that row,
    /// no row holds a handle twice, and every cell is held by its row.
    pub open spec fn wf(self) -> bool {
        &&& forall|r: int|
            0 <= r < self.rows@.len() ==> (#[trigger] self.rows@[r]).cells@.len()
                == self.headers@.len()
        &&& forall|r: int, k: int|
            0 <= r < self.rows@.len() && 0 <= k < self.rows@[r].cells@.len()
                ==> (#[trigger] self.rows@[r].cells@[k]) < self.cells@.len()
        &&& forall|r: int, k: int|
            0 <= r < self.rows@.len() && 0 <= k < self.rows@[r].cells@.len()
                ==> self.cells@[#[trigger] self.rows@[r].cells@[k] as int].row == r
        &&& forall|r: int, k1: int, k2: int|
            0 <= r < self.rows@.len() && 0 <= k1 < self.rows@[r].cells@.len() && 0 <= k2
                < self.rows@[r].cells@.len() && k1 != k2
                ==> (#[trigger] self.rows@[r].cells@[k1]) != (#[trigger] self.rows@[r].cells@[k2])
        &&& forall|c: int|
            0 <= c < self.cells@.len() ==> (#[trigger] self.cells@[c]).row < self.rows@.len()
        &&& forall|c: int|
            0 <= c < self.cells@.len()
                ==> self.rows@[(#[trigger] self.cells@[c]).row as int].cells@.contains(c as usize)
    }

    /// The text of the cell standing at column `k` of row `r`.
    pub open spec fn spec_cell_text(self, r: int, k: int) -> Seq<char> {
        self.cells@[self.rows@[r].cells@[k] as int].text@
    }

    /// The texts of row `r`, in column order.
    pub open spec fn spec_row_texts(self, r: int) -> Seq<Seq<char>> {
        Seq::new(self.rows@[r].cells@.len(), |k: int| self.spec_cell_text(r, k))
    }

    /// No cell carries the pressed marker.
    pub open spec fn none_pressed(self) -> bool {
        forall|c: int| 0 <= c < self.cells@.len() ==> !(#[trigger] self.cells@[c]).pressed
    }

    /// Builds the store from the ingested data: headers in column order,
    /// rows in row order, cells in row-major order, every parent link
    /// wired. As a fixed demo highlight, the second header and the second
    /// cell of each row carry the `selected` marker.
    pub fn build(columns: &Vec<String>, rows: &Vec<Vec<String>>) -> (s: TableStore)
        requires
            forall|r: int|
                0 <= r < rows@.len() ==> (#[trigger] rows@[r])@.len() == columns@.len(),
        ensures
            s.wf(),
            s.none_pressed(),
            s.headers@.len() == columns@.len(),
            forall|j: int|
                0 <= j < columns@.len() ==> (#[trigger] s.headers@[j]).text@ == columns@[j]@
                    && s.headers@[j].selected == (j == 1),
            s.rows@.len() == rows@.len(),
            forall|r: int|
                0 <= r < rows@.len() ==> (#[trigger] s.rows@[r]).cells@.len() == columns@.len(),
            forall|r: int, k: int|
                0 <= r < rows@.len() && 0 <= k < columns@.len() ==> {
                    let c = #[trigger] s.rows@[r].cells@[k] as int;
                    &&& s.cells@[c].text@ == rows@[r]@[k]@
                    &&& s.cells@[c].selected == (k == 1)
                },
    {
        let mut headers: Vec<Header> = Vec::new();
        let mut j: usize = 0;
        while j < columns.len()
            invariant
                j <= columns@.len(),
                headers@.len() == j,
                forall|i: int|
                    0 <= i < j ==> (#[trigger] headers@[i]).text@ == columns@[i]@
                        && headers@[i].selected == (i == 1),
            decreases columns@.len() - j,
        {
            headers.push(Header { text: columns[j].clone(), selected: j == 1 });
            j += 1;
        }

        let mut store_rows: Vec<Row> = Vec::new();
        let mut cells: Vec<Cell> = Vec::new();
        let mut r: usize = 0;
        while r < rows.len()
            invariant
                r <= rows@.len(),
                store_rows@.len() == r,
                forall|rr: int|
                    0 <= rr < rows@.len() ==> (#[trigger] rows@[rr])@.len() == columns@.len(),
                forall|rr: int|
                    0 <= rr < r ==> (#[trigger] store_rows@[rr]).cells@.len() == columns@.len(),
                forall|rr: int, k: int|
                    0 <= rr < r && 0 <= k < store_rows@[rr].cells@.len()
                        ==> (#[trigger] store_rows@[rr].cells@[k]) < cells@.len(),
                forall|rr: int, k: int|
                    0 <= rr < r && 0 <= k < store_rows@[rr].cells@.len()
                        ==> cells@[#[trigger] store_rows@[rr].cells@[k] as int].row == rr,
                forall|rr: int, k1: int, k2: int|
                    0 <= rr < r && 0 <= k1 < store_rows@[rr].cells@.len() && 0 <= k2
                        < store_rows@[rr].cells@.len() && k1 != k2
                        ==> (#[trigger] store_rows@[rr].cells@[k1])
                            != (#[trigger] store_rows@[rr].cells@[k2]),
                forall|c: int|
                    0 <= c < cells@.len() ==> (#[trigger] cells@[c]).row < r,
                forall|c: int|
                    0 <= c < cells@.len()
                        ==> store_rows@[(#[trigger] cells@[c]).row as int].cells@.contains(
                            c as usize,
                        ),
                forall|c: int| 0 <= c < cells@.len() ==> !(#[trigger] cells@[c]).pressed,
                forall|rr: int, k: int|
                    0 <= rr < r && 0 <= k < columns@.len() ==> {
                        let c = #[trigger] store_rows@[rr].cells@[k] as int;
                        &&& cells@[c].text@ == rows@[rr]@[k]@
                        &&& cells@[c].selected == (k == 1)
                    },
            decreases rows@.len() - r,
        {
            let base: usize = cells.len();
            let ghost cells0 = cells@;
            let row_data: &Vec<String> = &rows[r];
            let mut row = Row { cells: Vec::new() };
            let mut k: usize = 0;
            while k < row_data.len()
                invariant
                    k <= row_data@.len(),
                    base == cells0.len(),
                    cells@.len() == base + k,
                    row.cells@.len() == k,
                    forall|i: int| 0 <= i < base ==> cells@[i] == cells0[i],
                    forall|i: int| 0 <= i < k ==> (#[trigger] row.cells@[i]) == base + i,
                    forall|i: int|
                        0 <= i < k ==> {
                            let c = #[trigger] cells@[base + i];
                            &&& c.row == r
                            &&& !c.pressed
                            &&& c.text@ == row_data@[i]@
                            &&& c.selected == (i == 1)
                        },
                decreases row_data@.len() - k,
            {
                let id: usize = cells.len();
                cells.push(
                    Cell { text: row_data[k].clone(), selected: k == 1, pressed: false, row: r },
                );
                row.cells.push(id);
                k += 1;
            }
            let ghost row_view = row.cells@;
            store_rows.push(row);
            proof {
                let rn = r as int;
                assert(store_rows@[rn].cells@ == row_view);
                assert forall|k: int| 0 <= k < columns@.len() implies #[trigger] store_rows@[
                rn].cells@[k] == base + k by {
                    assert(row_view[k] == base + k);
                }
                assert forall|c: int| 0 <= c < cells@.len() implies (#[trigger] cells@[c]).row
                    < rn + 1 && !cells@[c].pressed by {
                    if c < base {
                        assert(cells@[c] == cells0[c]);
                    } else {
                        assert(cells@[base + (c - base)].row == rn);
                        assert(!cells@[base + (c - base)].pressed);
                    }
                }
                assert forall|c: int| 0 <= c < cells@.len() implies store_rows@[(
                #[trigger] cells@[c]).row as int].cells@.contains(c as usize) by {
                    if c < base {
                        assert(cells@[c] == cells0[c]);
                        assert(store_rows@[cells0[c].row as int].cells@.contains(c as usize));
                    } else {
                        assert(cells@[base + (c - base)].row == rn);
                        assert(row_view[c - base] == base + (c - base));
                        assert(store_rows@[rn].cells@[c - base] == c as usize);
                        assert(store_rows@[rn].cells@.contains(c as usize));
                    }
                }
                assert forall|k: int| 0 <= k < columns@.len() implies {
                    let c = #[trigger] store_rows@[rn].cells@[k] as int;
                    &&& c < cells@.len()
                    &&& cells@[c].row == rn
                    &&& cells@[c].text@ == rows@[rn]@[k]@
                    &&& cells@[c].selected == (k == 1)
                } by {
                    assert(row_view[k] == base + k);
                    assert(cells@[base + k].text@ == row_data@[k]@);
                    assert(cells@[base + k].selected == (k == 1));
                    assert(cells@[base + k].row == rn);
                }
            }
            r += 1;
        }
        TableStore { headers, rows: store_rows, cells }
    }

    /// Exchanges the cells at columns `a` and `b` of row `row`; only that
    /// row's cell sequence changes. Fails with `InvalidIndex` exactly when
    /// `row`, `a` or `b` is out of bounds.
    pub fn swap_cells_in_row(&mut self, row: usize, a: usize, b: usize) -> (res: Result<
        (),
        StoreError,
    >)
        requires
            old(self).wf(),
        ensures
            final(self).wf(),
            res is Ok <==> row < old(self).rows@.len() && a < old(self).rows@[row as int].cells@.len()
                && b < old(self).rows@[row as int].cells@.len(),
            res is Err ==> *final(self) == *old(self),
            res is Ok ==> {
                &&& final(self).headers@ == old(self).headers@
                &&& final(self).cells@ == old(self).cells@
                &&& final(self).rows@.len() == old(self).rows@.len()
                &&& forall|rr: int|
                    0 <= rr < old(self).rows@.len() && rr != row
                        ==> #[trigger] final(self).rows@[rr] == old(self).rows@[rr]
                &&& final(self).rows@[row as int].cells@ == swap_seq(
                    old(self).rows@[row as int].cells@,
                    a as int,
                    b as int,
                )
            },
    {
        if row >= self.rows.len() {
            return Err(StoreError::InvalidIndex);
        }
        let width = self.rows[row].cells.len();
        if a >= width || b >= width {
            return Err(StoreError::InvalidIndex);
        }
        let va: usize = self.rows[row].cells[a];
        let vb: usize = self.rows[row].cells[b];
        let target: &mut Row = &mut self.rows[row];
        target.cells[a] = vb;
        target.cells[b] = va;
        proof {
            let s0 = old(self).rows@[row as int].cells@;
            let s1 = self.rows@[row as int].cells@;
            assert(s1 =~= swap_seq(s0, a as int, b as int));
            assert forall|c: int| 0 <= c < self.cells@.len() implies self.rows@[(
            #[trigger] self.cells@[c]).row as int].cells@.contains(c as usize) by {
                let rr = old(self).cells@[c].row as int;
                let old_row = old(self).rows@[rr].cells@;
                let k = choose|k: int| 0 <= k < old_row.len() && old_row[k] == c as usize;
                assert(old_row.contains(c as usize));
                if rr == row {
                    if k == a {
                        assert(self.rows@[rr].cells@[b as int] == c as usize);
                    } else if k == b {
                        assert(self.rows@[rr].cells@[a as int] == c as usize);
                    } else {
                        assert(self.rows@[rr].cells@[k] == c as usize);
                    }
                    assert(self.rows@[rr].cells@.contains(c as usize));
                }
            }
        }
        Ok(())
    }

    /// Number of columns.
    pub fn header_count(&self) -> (n: usize)
        ensures
            n == self.headers@.len(),
    {
        self.headers.len()
    }

    /// Number of rows.
    pub fn row_count(&self) -> (n: usize)
        ensures
            n == self.rows@.len(),
    {
        self.rows.len()
    }

    /// Number of cells of row `r`; equals `header_count` on a well-formed
    /// store.
    pub fn cell_count(&self, r: usize) -> (n: usize)
        requires
            r < self.rows@.len(),
        ensures
            n == self.rows@[r as int].cells@.len(),
    {
        self.rows[r].cells.len()
    }

    /// The handle of the cell standing at column `k` of row `r`.
    pub fn cell_id(&self, r: usize, k: usize) -> (c: usize)
        requires
            r < self.rows@.len(),
            k < self.rows@[r as int].cells@.len(),
        ensures
            c == self.rows@[r as int].cells@[k as int],
    {
        self.rows[r].cells[k]
    }

    /// The text of the cell standing at column `k` of row `r`.
    pub fn cell_text(&self, r: usize, k: usize) -> (t: &String)
        requires
            r < self.rows@.len(),
            k < self.rows@[r as int].cells@.len(),
            self.wf(),
        ensures
            t@ == self.spec_cell_text(r as int, k as int),
    {
        let id = self.rows[r].cells[k];
        &self.cells[id].text
    }

    /// The text of header `j`.
    pub fn header_text(&self, j: usize) -> (t: &String)
        requires
            j < self.headers@.len(),
        ensures
            t@ == self.headers@[j as int].text@,
    {
        &self.headers[j].text
    }
}

/// The sequence `s` with the entries at `a` and `b` exchanged.
pub open spec fn swap_seq(s: Seq<usize>, a: int, b: int) -> Seq<usize> {
    s.update(a, s[b]).update(b, s[a])
}

/// Every row of a well-formed store is exactly as wide as the header
/// list, and stays so for the life of the store: `build` establishes
/// `wf` and `swap_cells_in_row` preserves it.
pub proof fn lemma_row_width(s: TableStore, r: int)
    requires
        s.wf(),
        0 <= r < s.rows@.len(),
    ensures
        s.rows@[r].cells@.len() == s.headers@.len(),
{
}

/// Swap idempotence: exchanging the entries at `a` and `b` twice in a row
/// restores the original sequence.
pub proof fn lemma_swap_idempotent(s: Seq<usize>, a: int, b: int)
    requires
        0 <= a < s.len(),
        0 <= b < s.len(),
    ensures
        swap_seq(swap_seq(s, a, b), a, b) == s,
{
    assert(swap_seq(swap_seq(s, a, b), a, b) =~= s);
}

} // verus!
