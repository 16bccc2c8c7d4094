//! Painting a frame: the renderer builds the full stream of escape
//! sequences and text that one redraw writes to the terminal — a screen
//! clear, each visible line positioned on its row and clipped to the
//! window width, and a final cursor placement.

use vstd::prelude::*;
use vstd::math::min;
use crate::buffer::Document;

verus! {

/// The character for one decimal digit.
pub open spec fn digit_char(d: int) -> char
    recommends
        0 <= d <= 9,
{
    ((0x30 + d) as u8) as char
}

/// The decimal digits of a number, most significant first.
pub open spec fn dec_rep(n: int) -> Seq<char>
    recommends
        n >= 0,
    decreases n,
{
    if n < 10 {
        seq![digit_char(n)]
    } else {
        dec_rep(n / 10).push(digit_char(n % 10))
    }
}

/// Appends the decimal digits of `n`.
fn push_dec(out: &mut Vec<char>, n: usize)
    ensures
        final(out)@ == old(out)@ + dec_rep(n as int),
    decreases n,
{
    if n < 10 {
        let c = ((0x30 + n) as u8) as char;
        out.push(c);
        proof {
            assert(out@ =~= old(out)@ + dec_rep(n as int));
        }
    } else {
        push_dec(out, n / 10);
        let c = ((0x30 + n % 10) as u8) as char;
        out.push(c);
        proof {
            assert(out@ =~= old(out)@ + dec_rep(n as int));
        }
    }
}

/// The sequence that clears the whole screen and homes the cursor.
pub open spec fn clear_seq() -> Seq<char> {
    seq!['\u{1B}', 'c', '\u{1B}', '[', 'H']
}

/// The sequence that puts the terminal cursor on the given cell; the
/// terminal counts rows and columns from one, the editor from zero.
pub open spec fn cursor_pos_seq(row: int, col: int) -> Seq<char>
    recommends
        0 <= row,
        0 <= col,
{
    seq!['\u{1B}', '['] + dec_rep(row + 1) + seq![';'] + dec_rep(col + 1) + seq!['H']
}

/// The sequence that erases from the cursor to the end of the line.
pub open spec fn erase_line_seq() -> Seq<char> {
    seq!['\u{1B}', '[', 'K']
}

/// Builds the screen-clearing sequence.
pub fn clear_screen() -> (s: Vec<char>)
    ensures
        s@ == clear_seq(),
{
    let mut s: Vec<char> = Vec::new();
    s.push('\u{1B}');
    s.push('c');
    s.push('\u{1B}');
    s.push('[');
    s.push('H');
    proof {
        assert(s@ =~= clear_seq());
    }
    s
}

/// Builds the cursor-positioning sequence for a zero-based cell.
pub fn set_cursor_pos(row: usize, column: usize) -> (s: Vec<char>)
    requires
        row < usize::MAX,
        column < usize::MAX,
    ensures
        s@ == cursor_pos_seq(row as int, column as int),
{
    let mut s: Vec<char> = Vec::new();
    s.push('\u{1B}');
    s.push('[');
    push_dec(&mut s, row + 1);
    s.push(';');
    push_dec(&mut s, column + 1);
    s.push('H');
    proof {
        assert(s@ =~= cursor_pos_seq(row as int, column as int));
    }
    s
}

/// The part of a line one row shows: a line shorter than the window is
/// shown whole; a longer line shows its tail when the cursor is on it —
/// keeping the cursor's end visible — and its head otherwise.
pub open spec fn visible_line(l: Seq<char>, cursor_here: bool, width: int) -> Seq<char> {
    if l.len() < width {
        l
    } else if cursor_here {
        l.subrange(l.len() - width, l.len() as int)
    } else {
        l.subrange(0, width)
    }
}

/// One painted row: position, the line's visible part, erase the rest.
pub open spec fn row_seq(doc: Seq<Seq<char>>, start: int, cline: int, width: int, i: int) -> Seq<
    char,
>
    recommends
        0 <= i,
        0 <= start,
        start + i < doc.len(),
{
    cursor_pos_seq(i, 0) + visible_line(doc[start + i], start + i == cline, width)
        + erase_line_seq()
}

/// The first `k` painted rows, one under the other.
pub open spec fn rows_seq(doc: Seq<Seq<char>>, start: int, cline: int, width: int, k: int) -> Seq<
    char,
>
    recommends
        0 <= start,
        start + k <= doc.len(),
    decreases k,
{
    if k <= 0 {
        Seq::<char>::empty()
    } else {
        rows_seq(doc, start, cline, width, k - 1) + row_seq(doc, start, cline, width, k - 1)
    }
}

/// A whole frame: clear the screen, paint every visible row, then place
/// the terminal cursor on the editing cursor's cell, its column clipped
/// to the window width.
pub open spec fn frame_seq(
    doc: Seq<Seq<char>>,
    start: int,
    cline: int,
    ccol: int,
    width: int,
    height: int,
) -> Seq<char>
    recommends
        0 <= start <= cline < doc.len(),
{
    clear_seq() + rows_seq(doc, start, cline, width, min(height, doc.len() as int))
        + cursor_pos_seq(cline - start, min(ccol, width))
}

/// Appends the piece of `l` between the two indices.
fn append_range(out: &mut Vec<char>, l: &Vec<char>, from: usize, to: usize)
    requires
        from <= to <= l@.len(),
    ensures
        final(out)@ == old(out)@ + l@.subrange(from as int, to as int),
{
    let mut j: usize = from;
    while j < to
        invariant
            from <= j <= to <= l@.len(),
            out@ == old(out)@ + l@.subrange(from as int, j as int),
        decreases to - j,
    {
        out.push(l[j]);
        proof {
            assert(l@.subrange(from as int, j + 1) =~= l@.subrange(from as int, j as int).push(
                l@[j as int],
            ));
            assert(out@ =~= old(out)@ + l@.subrange(from as int, j + 1));
        }
        j = j + 1;
    }
}

/// Builds the frame a redraw writes: the visible slice of the document
/// for a window whose first line, size and cursor are given.
#[verifier::rlimit(50)]
pub fn draw_buffer(
    doc: &Document,
    start_line: usize,
    line: usize,
    column: usize,
    width: usize,
    height: usize,
) -> (frame: Vec<char>)
    requires
        doc.wf(),
        line < doc@.len(),
        start_line <= line,
        doc@.len() > height ==> start_line <= doc@.len() - height,
        doc@.len() <= height ==> start_line == 0,
        width < usize::MAX,
    ensures
        frame@ == frame_seq(
            doc@,
            start_line as int,
            line as int,
            column as int,
            width as int,
            height as int,
        ),
{
    let mut frame = clear_screen();
    let n = doc.line_count();
    let rows = if height < n {
        height
    } else {
        n
    };
    let mut i: usize = 0;
    while i < rows
        invariant
            doc.wf(),
            line < doc@.len(),
            start_line <= line,
            rows == min(height as int, doc@.len() as int),
            start_line + rows <= doc@.len(),
            doc@.len() <= usize::MAX,
            width < usize::MAX,
            i <= rows,
            frame@ == clear_seq() + rows_seq(
                doc@,
                start_line as int,
                line as int,
                width as int,
                i as int,
            ),
        decreases rows - i,
    {
        let ghost frame_pre = frame@;
        let mut pos = set_cursor_pos(i, 0);
        frame.append(&mut pos);
        let idx = start_line + i;
        let l_len = doc.line_len(idx);
        let l = &doc.lines[idx];
        if l_len < width {
            append_range(&mut frame, l, 0, l_len);
            proof {
                assert(l@.subrange(0, l@.len() as int) =~= l@);
            }
        } else if idx == line {
            append_range(&mut frame, l, l_len - width, l_len);
        } else {
            append_range(&mut frame, l, 0, width);
        }
        frame.push('\u{1B}');
        frame.push('[');
        frame.push('K');
        proof {
            let ghost st = start_line as int;
            let ghost cl = line as int;
            let ghost w = width as int;
            let ghost vis = visible_line(doc@[st + i], st + i == cl, w);
            assert(frame@ =~= frame_pre + cursor_pos_seq(i as int, 0) + vis + erase_line_seq());
            assert(frame@ =~= frame_pre + row_seq(doc@, st, cl, w, i as int));
            assert(rows_seq(doc@, st, cl, w, i + 1) == rows_seq(doc@, st, cl, w, i as int)
                + row_seq(doc@, st, cl, w, i as int));
            assert(frame@ =~= clear_seq() + rows_seq(doc@, st, cl, w, i + 1));
        }
        i = i + 1;
    }
    let ccol = if column < width {
        column
    } else {
        width
    };
    let mut endpos = set_cursor_pos(line - start_line, ccol);
    frame.append(&mut endpos);
    proof {
        assert(frame@ =~= frame_seq(
            doc@,
            start_line as int,
            line as int,
            column as int,
            width as int,
            height as int,
        ));
    }
    frame
}

} // verus!
