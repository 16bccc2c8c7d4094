//! The viewport rule: after every event the first visible line is
//! recomputed so that the cursor keeps a soft margin of lines between
//! itself and the window's top and bottom edge, and the window never
//! scrolls past the document's start or end.

use vstd::prelude::*;
use vstd::math::{max, min};

verus! {

/// The margin, in lines, kept between the cursor and the window edges
/// whenever the document and the window leave room for it.
pub const SCROLL_MARGIN: usize = 8;

/// The recomputed first visible line. The top rule pulls the window up
/// when the cursor comes within the margin of its top edge; the bottom
/// rule pushes it down when the cursor comes within the margin of its
/// bottom edge; the result is then clamped so the window stays inside
/// the document, and a document no taller than the window starts at its
/// first line.
pub open spec fn scroll_spec(start: int, line: int, len: int, height: int) -> int {
    let margin = SCROLL_MARGIN as int;
    let s1 = if line < start + margin {
        max(0, line - margin)
    } else {
        start
    };
    let s2 = if line >= s1 + height - margin {
        line - (height - margin) + 1
    } else {
        s1
    };
    let s3 = max(s2, 0);
    if len > height {
        min(s3, len - height)
    } else {
        0
    }
}

/// Recomputes the first visible line for the given cursor line, document
/// length and window height.
pub fn scroll(start: usize, line: usize, len: usize, height: usize) -> (r: usize)
    requires
        line < len,
        start <= len,
        len <= usize::MAX - 9,
    ensures
        r as int == scroll_spec(start as int, line as int, len as int, height as int),
        len > height ==> r <= len - height,
        len <= height ==> r == 0,
{
    let mut s: usize = start;
    if line < s + SCROLL_MARGIN {
        s = if line >= SCROLL_MARGIN {
            line - SCROLL_MARGIN
        } else {
            0
        };
    }
    if (line as u128) + (SCROLL_MARGIN as u128) >= (s as u128) + (height as u128) {
        s = if line + SCROLL_MARGIN + 1 > height {
            line + SCROLL_MARGIN + 1 - height
        } else {
            0
        };
    }
    if len > height {
        if s > len - height {
            s = len - height;
        }
    } else {
        s = 0;
    }
    s
}

/// The soft-margin law: when the window is tall enough to hold the
/// cursor with a full margin on each side, and the cursor sits at least
/// a margin away from both ends of the document, the recomputed window
/// keeps at least the margin between the cursor and each edge, whatever
/// the window showed before.
pub proof fn lemma_scroll_margin(start: int, line: int, len: int, height: int)
    requires
        17 <= height,
        height <= len,
        8 <= line,
        line + 8 <= len,
        0 <= start,
    ensures
        line - scroll_spec(start, line, len, height) >= 8,
        scroll_spec(start, line, len, height) + height - line >= 8,
{
}

} // verus!
