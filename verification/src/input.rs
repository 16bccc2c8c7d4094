//! Decoding the raw byte stream into input events: UTF-8 scalar values
//! interleaved with ANSI escape sequences. Decoding never fails — a
//! malformed UTF-8 sequence becomes the replacement character — and an
//! escape sequence is collected until its terminating byte arrives.

use vstd::prelude::*;
use vstd::utf8::*;

verus! {

/// The byte that opens an escape sequence.
pub const ESCAPE_BYTE: u8 = 0x1B;

/// The byte that introduces a CSI sequence after the escape byte.
pub const CSI_BYTE: u8 = 0x5B;

/// The arrow directions an escape sequence can name.
#[derive(Clone, Copy, PartialEq, Eq, Structural, Debug)]
pub enum Direction {
    Up,
    Down,
    Left,
    Right,
}

/// One decoded input event: a Unicode scalar value, one of the control
/// codes the editor reacts to, an arrow key, or an escape sequence the
/// editor does not recognize (carried raw, including the escape byte).
#[derive(Debug)]
pub enum InputEvent {
    Scalar(char),
    ControlKey(u8),
    Arrow(Direction),
    UnrecognizedEscape(Vec<u8>),
}

/// True of the scalar values the Unicode standard classes as control
/// characters; such a value is never inserted into the text.
pub open spec fn is_control_scalar(c: char) -> bool {
    (c as u32) < 0x20 || (0x7F <= (c as u32) && (c as u32) <= 0x9F)
}

/// True of the five scalar values the dispatcher treats as editor
/// commands: backspace, line feed, carriage return, ctrl+Q and ctrl+S.
pub open spec fn is_editor_control_code(c: char) -> bool {
    c == '\u{7F}' || c == '\n' || c == '\r' || c == '\u{11}' || c == '\u{13}'
}

/// The number of bytes a UTF-8 sequence takes, read from the leading
/// bits of its first byte; an invalid lead byte has no length.
pub open spec fn utf8_len_spec(lead: u8) -> Option<u8> {
    if is_leading_byte_width_1(lead) {
        Some(1u8)
    } else if is_leading_byte_width_2(lead) {
        Some(2u8)
    } else if is_leading_byte_width_3(lead) {
        Some(3u8)
    } else if is_leading_byte_width_4(lead) {
        Some(4u8)
    } else {
        None
    }
}

/// Reads the UTF-8 sequence length off a lead byte.
pub fn utf8_len(lead: u8) -> (r: Option<u8>)
    ensures
        r == utf8_len_spec(lead),
{
    if lead < 0x80 {
        Some(1)
    } else if 0xC0 <= lead && lead <= 0xDF {
        Some(2)
    } else if 0xE0 <= lead && lead <= 0xEF {
        Some(3)
    } else if 0xF0 <= lead && lead <= 0xF7 {
        Some(4)
    } else {
        None
    }
}

/// The scalar value a short byte sequence decodes to: the encoded scalar
/// when the bytes are exactly one well-formed UTF-8 encoding, and the
/// replacement character otherwise.
pub open spec fn decoded_scalar(b: Seq<u8>) -> char {
    if valid_first_scalar(b) && length_of_first_scalar(b) == b.len() {
        decode_first_scalar(b) as char
    } else {
        '\u{FFFD}'
    }
}

/// Relies on char::from_u32: it returns the character with the given
/// scalar value, and None exactly when the value is a surrogate or above
/// the Unicode range.
pub assume_specification[ char::from_u32 ](i: u32) -> (r: Option<char>)
    ensures
        is_scalar(i) ==> r == Some(i as char),
        !is_scalar(i) ==> r is None,
;

/// Decodes one UTF-8 sequence whose length was read off its lead byte;
/// a malformed sequence (bad continuation bytes, an overlong encoding or
/// a surrogate) yields the replacement character, never an error.
pub fn decode_scalar(bytes: &Vec<u8>) -> (c: char)
    requires
        1 <= bytes@.len() <= 4,
        utf8_len_spec(bytes@[0]) == Some(bytes@.len() as u8),
    ensures
        c == decoded_scalar(bytes@),
{
    let ghost b = bytes@;
    let n = bytes.len();
    let b0 = bytes[0];
    if n == 1 {
        proof {
            assert(b0 < 0x80);
            assert(valid_first_scalar(b));
            assert((b0 & 0x7F) == b0) by (bit_vector)
                requires
                    b0 < 0x80,
            ;
        }
        return match char::from_u32(b0 as u32) {
            Some(c) => c,
            None => '\u{FFFD}',
        };
    }
    let b1 = bytes[1];
    if !(0x80 <= b1 && b1 <= 0xBF) {
        proof {
            assert(!valid_first_scalar(b));
        }
        return '\u{FFFD}';
    }
    if n == 2 {
        let cp: u32 = (((b0 & 0x1F) as u32) << 6u32) | ((b1 & 0x3F) as u32);
        proof {
            assert(cp == codepoint_width_2(b0, b1));
            assert(cp <= 0x7FF) by (bit_vector)
                requires
                    cp == (((b0 & 0x1F) as u32) << 6u32) | ((b1 & 0x3F) as u32),
            ;
        }
        if cp < 0x80 {
            proof {
                assert(!valid_first_scalar(b));
            }
            return '\u{FFFD}';
        }
        return match char::from_u32(cp) {
            Some(c) => c,
            None => '\u{FFFD}',
        };
    }
    let b2 = bytes[2];
    if !(0x80 <= b2 && b2 <= 0xBF) {
        proof {
            assert(!valid_first_scalar(b));
        }
        return '\u{FFFD}';
    }
    if n == 3 {
        let cp: u32 = (((b0 & 0x0F) as u32) << 12u32) | (((b1 & 0x3F) as u32) << 6u32) | ((b2
            & 0x3F) as u32);
        proof {
            assert(cp == codepoint_width_3(b0, b1, b2));
            assert(cp <= 0xFFFF) by (bit_vector)
                requires
                    cp == (((b0 & 0x0F) as u32) << 12u32) | (((b1 & 0x3F) as u32) << 6u32) | ((
                    b2 & 0x3F) as u32),
            ;
        }
        if cp < 0x800 || (0xD800 <= cp && cp <= 0xDFFF) {
            proof {
                assert(!valid_first_scalar(b));
            }
            return '\u{FFFD}';
        }
        return match char::from_u32(cp) {
            Some(c) => c,
            None => '\u{FFFD}',
        };
    }
    let b3 = bytes[3];
    if !(0x80 <= b3 && b3 <= 0xBF) {
        proof {
            assert(!valid_first_scalar(b));
        }
        return '\u{FFFD}';
    }
    let cp: u32 = (((b0 & 0x07) as u32) << 18u32) | (((b1 & 0x3F) as u32) << 12u32) | (((b2
        & 0x3F) as u32) << 6u32) | ((b3 & 0x3F) as u32);
    proof {
        assert(cp == codepoint_width_4(b0, b1, b2, b3));
    }
    if cp < 0x10000 || cp > 0x10FFFF {
        proof {
            assert(!valid_first_scalar(b));
        }
        return '\u{FFFD}';
    }
    match char::from_u32(cp) {
        Some(c) => c,
        None => '\u{FFFD}',
    }
}

/// True of a byte that terminates a CSI-style escape sequence: it lies in
/// the final-byte range and is not the CSI introducer itself.
pub open spec fn is_escape_terminator(b: u8) -> bool {
    0x40 <= b && b < 0x7E && b != CSI_BYTE
}

/// Tests whether a byte terminates an escape sequence.
pub fn escape_terminates(b: u8) -> (r: bool)
    ensures
        r == is_escape_terminator(b),
{
    0x40 <= b && b < 0x7E && b != CSI_BYTE
}

/// The position of the first escape-sequence terminator at or after
/// index `i`, if any byte up to the end of the sequence terminates it.
pub open spec fn escape_end_from(b: Seq<u8>, i: int) -> Option<int>
    decreases b.len() - i,
{
    if i < 0 || i >= b.len() {
        None
    } else if is_escape_terminator(b[i]) {
        Some(i)
    } else {
        escape_end_from(b, i + 1)
    }
}

/// The arrow key a completed escape sequence names, if it is one of the
/// four recognized sequences `ESC [ A`, `ESC [ B`, `ESC [ C`, `ESC [ D`.
pub open spec fn escape_arrow(raw: Seq<u8>) -> Option<Direction> {
    if raw == seq![0x1Bu8, 0x5Bu8, 0x41u8] {
        Some(Direction::Up)
    } else if raw == seq![0x1Bu8, 0x5Bu8, 0x42u8] {
        Some(Direction::Down)
    } else if raw == seq![0x1Bu8, 0x5Bu8, 0x43u8] {
        Some(Direction::Right)
    } else if raw == seq![0x1Bu8, 0x5Bu8, 0x44u8] {
        Some(Direction::Left)
    } else {
        None
    }
}

/// Maps a completed escape sequence (escape byte included) to its event:
/// an arrow key for the four recognized sequences, and the raw sequence
/// itself otherwise.
pub fn classify_escape(raw: Vec<u8>) -> (e: InputEvent)
    ensures
        escape_arrow(raw@) matches Some(d) ==> e == InputEvent::Arrow(d),
        escape_arrow(raw@) is None ==> (e matches InputEvent::UnrecognizedEscape(s) && s@
            == raw@),
{
    if raw.len() == 3 && raw[0] == ESCAPE_BYTE && raw[1] == CSI_BYTE {
        let t = raw[2];
        if t == 0x41 {
            proof {
                assert(raw@ =~= seq![0x1Bu8, 0x5Bu8, 0x41u8]);
            }
            return InputEvent::Arrow(Direction::Up);
        }
        if t == 0x42 {
            proof {
                assert(raw@ =~= seq![0x1Bu8, 0x5Bu8, 0x42u8]);
            }
            return InputEvent::Arrow(Direction::Down);
        }
        if t == 0x43 {
            proof {
                assert(raw@ =~= seq![0x1Bu8, 0x5Bu8, 0x43u8]);
            }
            return InputEvent::Arrow(Direction::Right);
        }
        if t == 0x44 {
            proof {
                assert(raw@ =~= seq![0x1Bu8, 0x5Bu8, 0x44u8]);
            }
            return InputEvent::Arrow(Direction::Left);
        }
    }
    proof {
        assert(escape_arrow(raw@) is None) by {
            if raw@ == seq![0x1Bu8, 0x5Bu8, 0x41u8] {
                assert(raw@.len() == 3 && raw@[0] == 0x1B && raw@[1] == 0x5B && raw@[2] == 0x41);
            }
            if raw@ == seq![0x1Bu8, 0x5Bu8, 0x42u8] {
                assert(raw@.len() == 3 && raw@[0] == 0x1B && raw@[1] == 0x5B && raw@[2] == 0x42);
            }
            if raw@ == seq![0x1Bu8, 0x5Bu8, 0x43u8] {
                assert(raw@.len() == 3 && raw@[0] == 0x1B && raw@[1] == 0x5B && raw@[2] == 0x43);
            }
            if raw@ == seq![0x1Bu8, 0x5Bu8, 0x44u8] {
                assert(raw@.len() == 3 && raw@[0] == 0x1B && raw@[1] == 0x5B && raw@[2] == 0x44);
            }
        }
    }
    InputEvent::UnrecognizedEscape(raw)
}

/// True when the given prefix of the byte stream holds one whole event:
/// an escape sequence with its terminator, a UTF-8 sequence as long as
/// its lead byte promises, or a single byte no sequence can start with.
pub open spec fn event_complete(b: Seq<u8>) -> bool {
    if b.len() == 0 {
        false
    } else if b[0] == ESCAPE_BYTE {
        escape_end_from(b, 1) is Some
    } else {
        match utf8_len_spec(b[0]) {
            Some(n) => b.len() >= n,
            None => true,
        }
    }
}

/// How many bytes of the stream the first event consumes.
pub open spec fn consumed_len(b: Seq<u8>) -> int
    recommends
        event_complete(b),
{
    if b[0] == ESCAPE_BYTE {
        escape_end_from(b, 1)->Some_0 + 1
    } else {
        match utf8_len_spec(b[0]) {
            Some(n) => n as int,
            None => 1,
        }
    }
}

/// The event a decoded scalar value becomes: one of the five editor
/// control codes is reported as a control key, anything else as text.
pub open spec fn scalar_event_of(c: char, e: InputEvent) -> bool {
    if is_editor_control_code(c) {
        e == InputEvent::ControlKey(((c as u32) as u8))
    } else {
        e == InputEvent::Scalar(c)
    }
}

/// What event the first complete event of the stream is.
pub open spec fn event_of(b: Seq<u8>, e: InputEvent) -> bool
    recommends
        event_complete(b),
{
    if b[0] == ESCAPE_BYTE {
        let raw = b.take(consumed_len(b));
        match escape_arrow(raw) {
            Some(d) => e == InputEvent::Arrow(d),
            None => e matches InputEvent::UnrecognizedEscape(s) && s@ == raw,
        }
    } else {
        match utf8_len_spec(b[0]) {
            Some(n) => scalar_event_of(decoded_scalar(b.take(n as int)), e),
            None => scalar_event_of('\u{FFFD}', e),
        }
    }
}

/// Wraps a decoded scalar value as an event.
pub fn scalar_event(c: char) -> (e: InputEvent)
    ensures
        scalar_event_of(c, e),
{
    let v = c as u32;
    if v == 0x7F || v == 0x0A || v == 0x0D || v == 0x11 || v == 0x13 {
        proof {
            vstd::utf8::char_u32_cast(c, v);
        }
        InputEvent::ControlKey(v as u8)
    } else {
        proof {
            vstd::utf8::char_u32_cast(c, v);
        }
        InputEvent::Scalar(c)
    }
}

/// Decodes the first event held in a prefix of the byte stream. `None`
/// asks for more bytes: the decoder blocks until an event is complete.
/// A completed event reports the bytes it consumed; an invalid lead byte
/// consumes one byte and yields the replacement character.
pub fn decode_input(bytes: &Vec<u8>) -> (r: Option<(InputEvent, usize)>)
    ensures
        r is None <==> !event_complete(bytes@),
        r matches Some(p) ==> p.1 == consumed_len(bytes@) && event_of(bytes@, p.0),
{
    if bytes.len() == 0 {
        return None;
    }
    let b0 = bytes[0];
    if b0 == ESCAPE_BYTE {
        let mut i: usize = 1;
        while i < bytes.len()
            invariant
                1 <= i <= bytes@.len(),
                bytes@[0] == ESCAPE_BYTE,
                escape_end_from(bytes@, 1) == escape_end_from(bytes@, i as int),
            decreases bytes@.len() - i,
        {
            if escape_terminates(bytes[i]) {
                let mut raw: Vec<u8> = Vec::new();
                let mut k: usize = 0;
                while k <= i
                    invariant
                        k <= i + 1,
                        i < bytes@.len(),
                        bytes@.len() <= usize::MAX,
                        raw@ == bytes@.take(k as int),
                    decreases i + 1 - k,
                {
                    raw.push(bytes[k]);
                    proof {
                        assert(bytes@.take(k + 1) =~= bytes@.take(k as int).push(
                            bytes@[k as int],
                        ));
                    }
                    k = k + 1;
                }
                let e = classify_escape(raw);
                return Some((e, i + 1));
            }
            i = i + 1;
        }
        return None;
    }
    match utf8_len(b0) {
        None => {
            proof {
                assert(bytes@.take(1) =~= seq![b0]);
            }
            Some((scalar_event('\u{FFFD}'), 1))
        },
        Some(n) => {
            let need = n as usize;
            if bytes.len() < need {
                return None;
            }
            let mut sb: Vec<u8> = Vec::new();
            let mut k: usize = 0;
            while k < need
                invariant
                    k <= need,
                    need <= bytes@.len(),
                    sb@ == bytes@.take(k as int),
                decreases need - k,
            {
                sb.push(bytes[k]);
                proof {
                    assert(bytes@.take(k + 1) =~= bytes@.take(k as int).push(bytes@[k as int]));
                }
                k = k + 1;
            }
            let c = decode_scalar(&sb);
            Some((scalar_event(c), need))
        },
    }
}

} // verus!
