//! OSC 52: the clipboard as control strings.
use vstd::prelude::*;
use vstd::utf8::*;

use crate::codec::{base64_char, base64_text, carried_text, carrying, decode_text, encode_text};
use crate::text::{is_byte, views};

verus! {

/// Clipboard control strings.
#[derive(Debug, Clone, Copy, PartialEq, Eq)]
pub struct ClipboardManager;

/// The clipboard text that the parameters of a reply carry: the selection
/// (`c` clipboard, `p` primary), then base64 data, where `?` is a query.
pub open spec fn osc52_text(params: Seq<Seq<u8>>) -> Option<Seq<char>> {
    if params.len() >= 2 && (is_byte(params[0], 0x63) || is_byte(params[0], 0x70)) && !is_byte(
        params[1],
        0x3f,
    ) {
        carried_text(params[1])
    } else {
        None
    }
}

impl ClipboardManager {
    /// The control string that sets the clipboard. A terminal that reads its
    /// data gets the content back.
    pub fn osc52_set(content: &str) -> (r: String)
        requires
            encode_utf8(content@).len() <= usize::MAX / 4,
        ensures
            r@ == "\x1b]52;c;"@ + base64_text(encode_utf8(content@)) + "\x07"@,
            osc52_text(seq![seq![0x63u8], carrying(content@)]) == Some(content@),
    {
        let encoded = encode_text(content);
        let mut out = String::new();
        out.append("\x1b]52;c;");
        out.append(encoded.as_str());
        out.append("\x07");
        proof {
            assert(out@ =~= "\x1b]52;c;"@ + encoded@ + "\x07"@);
            assert(!is_byte(carrying(content@), 0x3f)) by {
                let data = carrying(content@);
                if is_byte(data, 0x3f) {
                    encode_utf8_decode_utf8(encoded@);
                    assert(is_ascii_chars(encoded@));
                    is_ascii_chars_encode_utf8(encoded@);
                    assert(base64_char(encoded@[0]));
                    assert(encoded@[0] as u8 == data[0]);
                }
            }
        }
        out
    }

    /// The control string that asks for the clipboard.
    pub fn osc52_query() -> (r: &'static str)
        ensures
            r@ == "\x1b]52;c;?\x07"@,
    {
        "\x1b]52;c;?\x07"
    }

    /// The clipboard text of a reply's parameters.
    pub fn parse_osc52_response(params: &Vec<Vec<u8>>) -> (r: Option<String>)
        ensures
            match r {
                Some(s) => osc52_text(views(params@)) == Some(s@),
                None => osc52_text(views(params@)) is None,
            },
    {
        if params.len() >= 2 {
            let board = &params[0];
            let data = &params[1];
            proof {
                assert(views(params@)[0] == board@ && views(params@)[1] == data@);
            }
            if board.len() == 1 && (board[0] == 0x63 || board[0] == 0x70) && !(data.len() == 1
                && data[0] == 0x3f) {
                return decode_text(data.as_slice());
            }
        }
        None
    }
}

} // verus!
