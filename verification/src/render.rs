//! The renderer: one top-to-bottom, left-to-right pass over the table
//! store that produces the frame's text lines and records, span by span,
//! which element owns each painted screen position in the hit-test
//! canvas.
//!
//! Screen layout: a blank separator line, the header line, one line per
//! row, and a trailing blank line. Each span is the element's text,
//! wrapped in bracket markers when highlighted, followed by `", "`.

use vstd::prelude::*;

use crate::canvas::Canvas;
use crate::store::{Element, TableStore};

verus! {

/// The characters a span puts on screen: the text, bracket-wrapped when
/// marked, then a comma and a space.
pub open spec fn span_text(text: Seq<char>, marked: bool) -> Seq<char> {
    (if marked {
        seq!['['] + text + seq![']']
    } else {
        text
    }) + seq![',', ' ']
}

/// The on-screen length of a span.
pub open spec fn span_len(text: Seq<char>, marked: bool) -> int {
    span_text(text, marked).len() as int
}

/// The column at which span `j` of a line starts: the lengths of the
/// spans before it, summed.
pub open spec fn span_start(spans: Seq<(Seq<char>, bool, Element)>, j: int) -> int
    decreases j,
{
    if j <= 0 {
        0
    } else {
        span_start(spans, j - 1) + span_len(spans[j - 1].0, spans[j - 1].1)
    }
}

/// The text of the first `j` spans of a line, concatenated.
pub open spec fn line_text(spans: Seq<(Seq<char>, bool, Element)>, j: int) -> Seq<char>
    decreases j,
{
    if j <= 0 {
        Seq::empty()
    } else {
        line_text(spans, j - 1) + span_text(spans[j - 1].0, spans[j - 1].1)
    }
}

/// The element whose span covers column `col` of a line, if any.
pub open spec fn owner_at(spans: Seq<(Seq<char>, bool, Element)>, col: int) -> Option<Element>
    decreases spans.len(),
{
    if spans.len() == 0 || col < 0 {
        None
    } else if col < span_len(spans[0].0, spans[0].1) {
        Some(spans[0].2)
    } else {
        owner_at(spans.drop_first(), col - span_len(spans[0].0, spans[0].1))
    }
}

/// The header line's spans: each header's text, marked when selected.
pub open spec fn header_spans(s: TableStore) -> Seq<(Seq<char>, bool, Element)> {
    Seq::new(
        s.headers@.len(),
        |j: int|
            (s.headers@[j].text@, s.headers@[j].selected, Element::Header(j as usize)),
    )
}

/// Row `r`'s spans: each cell's text, marked when selected or pressed.
pub open spec fn row_spans(s: TableStore, r: int) -> Seq<(Seq<char>, bool, Element)> {
    Seq::new(
        s.rows@[r].cells@.len(),
        |k: int|
            {
                let c = s.rows@[r].cells@[k] as int;
                (
                    s.cells@[c].text@,
                    s.cells@[c].selected || s.cells@[c].pressed,
                    Element::Cell(s.rows@[r].cells@[k]),
                )
            },
    )
}

/// The element that a render pass leaves at screen position (col, row):
/// the owner of the covering span of the header line or of a row line,
/// and nothing everywhere else.
pub open spec fn expected_at(s: TableStore, col: int, row: int) -> Option<Element> {
    if row == 1 {
        owner_at(header_spans(s), col)
    } else if 2 <= row < 2 + s.rows@.len() {
        owner_at(row_spans(s, row - 2), col)
    } else {
        None
    }
}

/// The ghost view of an executable span list.
pub open spec fn spans_view(s: Seq<(String, bool, Element)>) -> Seq<(Seq<char>, bool, Element)> {
    s.map_values(|t: (String, bool, Element)| (t.0@, t.1, t.2))
}

/// Span starts never decrease: every span has nonnegative length.
proof fn lemma_span_start_mono(spans: Seq<(Seq<char>, bool, Element)>, j1: int, j2: int)
    requires
        0 <= j1 <= j2,
    ensures
        span_start(spans, j1) <= span_start(spans, j2),
    decreases j2 - j1,
{
    if j1 < j2 {
        lemma_span_start_mono(spans, j1, j2 - 1);
    }
}

/// Dropping the first span shifts every later start left by its length.
proof fn lemma_span_start_drop(spans: Seq<(Seq<char>, bool, Element)>, j: int)
    requires
        spans.len() > 0,
        0 <= j < spans.len(),
    ensures
        span_start(spans.drop_first(), j) == span_start(spans, j + 1) - span_len(
            spans[0].0,
            spans[0].1,
        ),
    decreases j,
{
    if j == 0 {
        assert(span_start(spans.drop_first(), 0) == 0);
        assert(span_start(spans, 1) == span_start(spans, 0) + span_len(spans[0].0, spans[0].1));
    } else {
        lemma_span_start_drop(spans, j - 1);
        assert(spans.drop_first()[j - 1] == spans[j]);
        assert(span_start(spans.drop_first(), j) == span_start(spans.drop_first(), j - 1)
            + span_len(spans.drop_first()[j - 1].0, spans.drop_first()[j - 1].1));
        assert(span_start(spans, j + 1) == span_start(spans, j) + span_len(
            spans[j].0,
            spans[j].1,
        ));
    }
}

/// A column inside span `j`'s extent is owned by span `j`'s element.
proof fn lemma_owner_in_span(spans: Seq<(Seq<char>, bool, Element)>, j: int, col: int)
    requires
        0 <= j < spans.len(),
        span_start(spans, j) <= col < span_start(spans, j) + span_len(spans[j].0, spans[j].1),
    ensures
        owner_at(spans, col) == Some(spans[j].2),
    decreases j,
{
    if j == 0 {
    } else {
        lemma_span_start_mono(spans, 1, j);
        lemma_span_start_drop(spans, j - 1);
        assert(spans.drop_first()[j - 1] == spans[j]);
        lemma_owner_in_span(spans.drop_first(), j - 1, col - span_len(spans[0].0, spans[0].1));
    }
}

/// A column at or past the end of the last span is owned by nothing.
proof fn lemma_owner_beyond(spans: Seq<(Seq<char>, bool, Element)>, col: int)
    requires
        col >= span_start(spans, spans.len() as int),
    ensures
        owner_at(spans, col) is None,
    decreases spans.len(),
{
    if spans.len() > 0 {
        lemma_span_start_mono(spans, 1, spans.len() as int);
        assert(span_start(spans, 1) == span_start(spans, 0) + span_len(spans[0].0, spans[0].1));
        assert(col >= span_len(spans[0].0, spans[0].1));
        lemma_span_start_drop(spans, spans.len() as int - 1);
        lemma_owner_beyond(spans.drop_first(), col - span_len(spans[0].0, spans[0].1));
        assert(owner_at(spans, col) == owner_at(
            spans.drop_first(),
            col - span_len(spans[0].0, spans[0].1),
        ));
    }
}

/// Renders one line of spans: returns the line's text, and paints each
/// span's extent in the canvas at `row`, truncated at the right edge.
/// Every covered in-bounds position ends up owned by its span's element;
/// the rest of the line's row stays empty; other rows are untouched.
fn emit_line(spans: &Vec<(String, bool, Element)>, row: usize, canvas: &mut Canvas) -> (line:
    String)
    requires
        old(canvas).wf(),
        forall|c: int| 0 <= c < old(canvas).width ==> old(canvas).at(c, row as int) is None,
    ensures
        final(canvas).wf(),
        final(canvas).width == old(canvas).width,
        final(canvas).height == old(canvas).height,
        line@ == line_text(spans_view(spans@), spans@.len() as int),
        forall|c: int|
            0 <= c < final(canvas).width && (row as int) < final(canvas).height
                ==> final(canvas).at(c, row as int) == owner_at(spans_view(spans@), c),
        forall|c: int, rr: int|
            rr != row ==> final(canvas).at(c, rr) == old(canvas).at(c, rr),
{
    let ghost gspans = spans_view(spans@);
    let width = canvas.width;
    let mut line = String::new();
    let mut col: usize = 0;
    let mut j: usize = 0;
    while j < spans.len()
        invariant
            canvas.wf(),
            canvas.width == old(canvas).width,
            canvas.height == old(canvas).height,
            width == canvas.width,
            gspans == spans_view(spans@),
            gspans.len() == spans@.len(),
            j <= spans@.len(),
            col <= width,
            col as int == if span_start(gspans, j as int) <= width {
                span_start(gspans, j as int)
            } else {
                width as int
            },
            line@ == line_text(gspans, j as int),
            forall|c: int|
                0 <= c < width && (row as int) < canvas.height ==> canvas.at(c, row as int)
                    == if c < col {
                    owner_at(gspans, c)
                } else {
                    None::<Element>
                },
            forall|c: int, rr: int|
                rr != row ==> canvas.at(c, rr) == old(canvas).at(c, rr),
        decreases spans@.len() - j,
    {
        let marked: bool = spans[j].1;
        let elem: Element = spans[j].2;
        let mut piece = String::new();
        if marked {
            piece.append("[");
        }
        piece.append(spans[j].0.as_str());
        if marked {
            piece.append("]");
        }
        piece.append(", ");
        proof {
            reveal_strlit("[");
            reveal_strlit("]");
            reveal_strlit(", ");
            assert(piece@ =~= span_text(gspans[j as int].0, gspans[j as int].1));
        }
        let plen = piece.as_str().unicode_len();
        let cap = width - col;
        let len = if plen < cap {
            plen
        } else {
            cap
        };
        let ghost col0 = col as int;
        canvas.paint(elem, col, row, len);
        line.append(piece.as_str());
        col = col + len;
        proof {
            let jn = j as int;
            assert(gspans[jn] == (spans@[jn].0@, spans@[jn].1, spans@[jn].2));
            assert(line@ =~= line_text(gspans, jn + 1));
            assert(plen as int == span_len(gspans[jn].0, gspans[jn].1));
            assert(span_start(gspans, jn + 1) == span_start(gspans, jn) + span_len(
                gspans[jn].0,
                gspans[jn].1,
            ));
            assert forall|c: int|
                0 <= c < width && (row as int) < canvas.height implies canvas.at(c, row as int)
                == (if c < col {
                owner_at(gspans, c)
            } else {
                None::<Element>
            }) by {
                if col0 <= c < col {
                    assert(col0 == span_start(gspans, jn));
                    lemma_owner_in_span(gspans, jn, c);
                }
            }
        }
        j += 1;
    }
    proof {
        assert forall|c: int|
            0 <= c < width && (row as int) < canvas.height implies canvas.at(c, row as int)
            == owner_at(gspans, c) by {
            if c >= col {
                lemma_owner_beyond(gspans, c);
            }
        }
    }
    line
}

/// The header line as executable spans.
fn header_spans_exec(store: &TableStore) -> (spans: Vec<(String, bool, Element)>)
    ensures
        spans_view(spans@) == header_spans(*store),
{
    let mut spans: Vec<(String, bool, Element)> = Vec::new();
    let mut j: usize = 0;
    while j < store.headers.len()
        invariant
            spans@.len() == j,
            j <= store.headers@.len(),
            forall|i: int|
                0 <= i < j ==> {
                    &&& (#[trigger] spans@[i]).0@ == store.headers@[i].text@
                    &&& spans@[i].1 == store.headers@[i].selected
                    &&& spans@[i].2 == Element::Header(i as usize)
                },
        decreases store.headers@.len() - j,
    {
        spans.push((store.headers[j].text.clone(), store.headers[j].selected, Element::Header(j)));
        j += 1;
    }
    proof {
        assert(spans_view(spans@) =~= header_spans(*store));
    }
    spans
}

/// Row `r` as executable spans.
fn row_spans_exec(store: &TableStore, r: usize) -> (spans: Vec<(String, bool, Element)>)
    requires
        store.wf(),
        r < store.rows@.len(),
    ensures
        spans_view(spans@) == row_spans(*store, r as int),
{
    let mut spans: Vec<(String, bool, Element)> = Vec::new();
    let mut k: usize = 0;
    let count = store.rows[r].cells.len();
    while k < count
        invariant
            store.wf(),
            r < store.rows@.len(),
            count == store.rows@[r as int].cells@.len(),
            spans@.len() == k,
            k <= count,
            forall|i: int|
                0 <= i < k ==> {
                    let c = store.rows@[r as int].cells@[i] as int;
                    &&& (#[trigger] spans@[i]).0@ == store.cells@[c].text@
                    &&& spans@[i].1 == (store.cells@[c].selected || store.cells@[c].pressed)
                    &&& spans@[i].2 == Element::Cell(store.rows@[r as int].cells@[i])
                },
        decreases count - k,
    {
        let c = store.rows[r].cells[k];
        let cell = &store.cells[c];
        spans.push((cell.text.clone(), cell.selected || cell.pressed, Element::Cell(c)));
        k += 1;
    }
    proof {
        assert(spans_view(spans@) =~= row_spans(*store, r as int));
    }
    spans
}

/// One full render pass. Returns the frame's text lines, one per screen
/// row: a blank line, the header line, one line per table row, and a
/// trailing blank line. The canvas is emptied and repainted in lockstep,
/// so that afterwards every in-bounds position covered by an emitted
/// span resolves to the element that produced it, and every position
/// never painted resolves to nothing.
pub fn render(store: &TableStore, canvas: &mut Canvas) -> (lines: Vec<String>)
    requires
        store.wf(),
        old(canvas).wf(),
        store.rows@.len() + 3 <= usize::MAX,
    ensures
        final(canvas).wf(),
        final(canvas).width == old(canvas).width,
        final(canvas).height == old(canvas).height,
        lines@.len() == store.rows@.len() + 3,
        lines@[0]@ == Seq::<char>::empty(),
        lines@[1]@ == line_text(header_spans(*store), store.headers@.len() as int),
        forall|r: int|
            0 <= r < store.rows@.len() ==> lines@[2 + r]@ == line_text(
                row_spans(*store, r),
                store.rows@[r].cells@.len() as int,
            ),
        lines@[store.rows@.len() as int + 2]@ == Seq::<char>::empty(),
        forall|col: int, row: int|
            0 <= col < final(canvas).width && 0 <= row < final(canvas).height
                ==> final(canvas).at(col, row) == expected_at(*store, col, row),
{
    canvas.clear();
    let mut lines: Vec<String> = Vec::new();
    lines.push(String::new());
    let hs = header_spans_exec(store);
    let hline = emit_line(&hs, 1, canvas);
    proof {
        assert(spans_view(hs@).len() == hs@.len());
        assert(hline@ == line_text(header_spans(*store), store.headers@.len() as int));
    }
    lines.push(hline);
    let mut r: usize = 0;
    while r < store.rows.len()
        invariant
            store.wf(),
            canvas.wf(),
            canvas.width == old(canvas).width,
            canvas.height == old(canvas).height,
            store.rows@.len() + 3 <= usize::MAX,
            r <= store.rows@.len(),
            lines@.len() == r + 2,
            lines@[0]@ == Seq::<char>::empty(),
            lines@[1]@ == line_text(header_spans(*store), store.headers@.len() as int),
            forall|rr: int|
                0 <= rr < r ==> lines@[2 + rr]@ == line_text(
                    row_spans(*store, rr),
                    store.rows@[rr].cells@.len() as int,
                ),
            forall|col: int, row: int|
                0 <= col < canvas.width && 0 <= row < canvas.height ==> canvas.at(col, row) == (
                if row == 1 {
                    owner_at(header_spans(*store), col)
                } else if 2 <= row < 2 + r {
                    owner_at(row_spans(*store, row - 2), col)
                } else {
                    None::<Element>
                }),
        decreases store.rows@.len() - r,
    {
        let rs = row_spans_exec(store, r);
        let line = emit_line(&rs, r + 2, canvas);
        proof {
            assert(spans_view(rs@).len() == rs@.len());
            assert(line@ == line_text(
                row_spans(*store, r as int),
                store.rows@[r as int].cells@.len() as int,
            ));
        }
        lines.push(line);
        r += 1;
    }
    lines.push(String::new());
    lines
}

/// Rendering is idempotent: the canvas a render pass leaves behind is a
/// function of the table store and the canvas dimensions alone, so two
/// passes over unchanged state leave identical canvases.
pub proof fn lemma_render_idempotent(s: TableStore, c1: Canvas, c2: Canvas)
    requires
        c1.width == c2.width,
        c1.height == c2.height,
        forall|col: int, row: int|
            0 <= col < c1.width && 0 <= row < c1.height ==> #[trigger] c1.at(col, row)
                == expected_at(s, col, row),
        forall|col: int, row: int|
            0 <= col < c2.width && 0 <= row < c2.height ==> #[trigger] c2.at(col, row)
                == expected_at(s, col, row),
    ensures
        forall|col: int, row: int| #[trigger] c1.at(col, row) == c2.at(col, row),
{
    assert forall|col: int, row: int| #[trigger] c1.at(col, row) == c2.at(col, row) by {
        if !(0 <= col < c1.width && 0 <= row < c1.height) {
            assert(c1.at(col, row) is None);
            assert(c2.at(col, row) is None);
        }
    }
}

/// The given texts joined as one line, each followed by `", "`.
pub open spec fn joined(texts: Seq<Seq<char>>, j: int) -> Seq<char>
    decreases j,
{
    if j <= 0 {
        Seq::empty()
    } else {
        joined(texts, j - 1) + texts[j - 1] + seq![',', ' ']
    }
}

/// The header texts, in column order.
pub open spec fn header_texts(s: TableStore) -> Seq<Seq<char>> {
    Seq::new(s.headers@.len(), |j: int| s.headers@[j].text@)
}

/// One line of `", "`-joined texts.
fn joined_line(texts: &Vec<String>) -> (line: String)
    ensures
        line@ == joined(texts@.map_values(|t: String| t@), texts@.len() as int),
{
    let ghost gtexts = texts@.map_values(|t: String| t@);
    let mut line = String::new();
    let mut k: usize = 0;
    while k < texts.len()
        invariant
            gtexts == texts@.map_values(|t: String| t@),
            k <= texts@.len(),
            line@ == joined(gtexts, k as int),
        decreases texts@.len() - k,
    {
        line.append(texts[k].as_str());
        line.append(", ");
        proof {
            reveal_strlit(", ");
            assert(gtexts[k as int] == texts@[k as int]@);
            assert(line@ =~= joined(gtexts, k as int + 1));
        }
        k += 1;
    }
    line
}

/// The table as plain text, without highlight markers and without
/// touching any canvas: a blank line, the header texts joined by `", "`,
/// each row's cell texts likewise, and a trailing blank line. The
/// diagnostic view of the table.
pub fn plain_lines(store: &TableStore) -> (lines: Vec<String>)
    requires
        store.wf(),
        store.rows@.len() + 3 <= usize::MAX,
    ensures
        lines@.len() == store.rows@.len() + 3,
        lines@[0]@ == Seq::<char>::empty(),
        lines@[1]@ == joined(header_texts(*store), store.headers@.len() as int),
        forall|r: int|
            0 <= r < store.rows@.len() ==> lines@[2 + r]@ == joined(
                store.spec_row_texts(r),
                store.rows@[r].cells@.len() as int,
            ),
        lines@[store.rows@.len() as int + 2]@ == Seq::<char>::empty(),
{
    let mut lines: Vec<String> = Vec::new();
    lines.push(String::new());
    let mut htexts: Vec<String> = Vec::new();
    let mut j: usize = 0;
    while j < store.headers.len()
        invariant
            htexts@.len() == j,
            j <= store.headers@.len(),
            forall|i: int| 0 <= i < j ==> (#[trigger] htexts@[i])@ == store.headers@[i].text@,
        decreases store.headers@.len() - j,
    {
        htexts.push(store.headers[j].text.clone());
        j += 1;
    }
    let hline = joined_line(&htexts);
    proof {
        assert(htexts@.map_values(|t: String| t@) =~= header_texts(*store));
    }
    lines.push(hline);
    let mut r: usize = 0;
    while r < store.rows.len()
        invariant
            store.wf(),
            store.rows@.len() + 3 <= usize::MAX,
            r <= store.rows@.len(),
            lines@.len() == r + 2,
            lines@[0]@ == Seq::<char>::empty(),
            lines@[1]@ == joined(header_texts(*store), store.headers@.len() as int),
            forall|rr: int|
                0 <= rr < r ==> lines@[2 + rr]@ == joined(
                    store.spec_row_texts(rr),
                    store.rows@[rr].cells@.len() as int,
                ),
        decreases store.rows@.len() - r,
    {
        let mut texts: Vec<String> = Vec::new();
        let mut k: usize = 0;
        let count = store.rows[r].cells.len();
        while k < count
            invariant
                store.wf(),
                r < store.rows@.len(),
                count == store.rows@[r as int].cells@.len(),
                texts@.len() == k,
                k <= count,
                forall|i: int|
                    0 <= i < k ==> (#[trigger] texts@[i])@ == store.spec_cell_text(r as int, i),
            decreases count - k,
        {
            let c = store.rows[r].cells[k];
            texts.push(store.cells[c].text.clone());
            k += 1;
        }
        let line = joined_line(&texts);
        proof {
            assert(texts@.map_values(|t: String| t@) =~= store.spec_row_texts(r as int));
        }
        lines.push(line);
        r += 1;
    }
    lines.push(String::new());
    lines
}

} // verus!
