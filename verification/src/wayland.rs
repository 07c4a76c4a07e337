//! Reading the answers of the desktop portal and of the capture pipeline.

use vstd::prelude::*;
use vstd::string::*;
use crate::scan::{
    find, find_non_digit, lemma_non_digit_position, lemma_position_of, non_digit_position,
    number_at, parse_digits, position_of,
};

verus! {

/// The resolution that the capture falls back to.
pub const DEFAULT_WIDTH: u32 = 1920;

pub const DEFAULT_HEIGHT: u32 = 1080;

/// The session handle in the portal's answer: what stands between the first
/// `'/` (the slash included) and the next `'`.
pub open spec fn session_handle_of(s: Seq<char>) -> Option<Seq<char>> {
    match position_of(s, "'/"@, 0) {
        None => None,
        Some(i) => match position_of(s, "'"@, i + 1) {
            None => None,
            Some(e) => Some(s.subrange(i + 1, e)),
        },
    }
}

/// Extracts the session handle from the portal's answer to `CreateSession`.
pub fn extract_session_handle(response: &str) -> (r: Option<String>)
    ensures
        r is Some <==> session_handle_of(response@) is Some,
        r matches Some(h) ==> h@ == session_handle_of(response@)->0,
{
    proof {
        reveal_strlit("'/");
        reveal_strlit("'");
        lemma_position_of(response@, "'/"@, 0);
    }
    let n = response.unicode_len();
    let i = match find(response, "'/", 0) {
        Some(i) => i,
        None => {
            return None;
        },
    };
    assert(i + 2 <= n);
    let start: usize = i + 1;
    let end = match find(response, "'", start) {
        Some(e) => e,
        None => {
            return None;
        },
    };
    Some(String::from_str(response.substring_char(start, end)))
}

/// A number that fits 32 bits.
pub open spec fn as_u32(v: Option<u64>) -> Option<u32> {
    match v {
        Some(n) => if n <= u32::MAX {
            Some(n as u32)
        } else {
            None
        },
        None => None,
    }
}

/// The number behind the first `key` in `s`: digits that something else
/// follows.
pub open spec fn int_field(s: Seq<char>, key: Seq<char>) -> Option<u32> {
    match position_of(s, key, 0) {
        None => None,
        Some(i) => match non_digit_position(s, i + key.len()) {
            None => None,
            Some(e) => as_u32(number_at(s, i + key.len(), e)),
        },
    }
}

fn read_int_field(s: &str, key: &str) -> (r: Option<u32>)
    ensures
        r == int_field(s@, key@),
{
    proof {
        lemma_position_of(s@, key@, 0);
    }
    let n = s.unicode_len();
    let i = match find(s, key, 0) {
        Some(i) => i,
        None => {
            return None;
        },
    };
    assert(i + key@.len() <= n);
    let start: usize = i + key.unicode_len();
    let end = match find_non_digit(s, start) {
        Some(e) => e,
        None => {
            return None;
        },
    };
    match parse_digits(s, start, end) {
        Some(v) => {
            if v <= 0xFFFF_FFFF {
                Some(v as u32)
            } else {
                None
            }
        },
        None => None,
    }
}

/// The resolution in the pipeline's verbose output: the numbers behind
/// `width=(int)` and `height=(int)`.
pub open spec fn gst_resolution_of(s: Seq<char>) -> Option<(u32, u32)> {
    match (int_field(s, "width=(int)"@), int_field(s, "height=(int)"@)) {
        (Some(w), Some(h)) => Some((w, h)),
        _ => None,
    }
}

/// Parses the resolution from the pipeline's verbose output.
pub fn parse_gst_resolution(output: &str) -> (r: Option<(u32, u32)>)
    ensures
        r == gst_resolution_of(output@),
{
    let width = match read_int_field(output, "width=(int)") {
        Some(w) => w,
        None => {
            return None;
        },
    };
    let height = match read_int_field(output, "height=(int)") {
        Some(h) => h,
        None => {
            return None;
        },
    };
    Some((width, height))
}

/// The end of the part that starts at `a`: the next `uint32 `, or the end of
/// the text.
pub open spec fn part_end(s: Seq<char>, a: int) -> int {
    match position_of(s, "uint32 "@, a) {
        Some(i) => i,
        None => s.len() as int,
    }
}

/// The node id at the start of the part at `a`: digits within the part that
/// something else follows there, and that write a number above zero.
pub open spec fn node_at(s: Seq<char>, a: int) -> Option<u32> {
    match non_digit_position(s, a) {
        None => None,
        Some(p) => if p < part_end(s, a) {
            match as_u32(number_at(s, a, p)) {
                Some(v) => if v > 0 {
                    Some(v)
                } else {
                    None
                },
                None => None,
            }
        } else {
            None
        },
    }
}

/// The first node id among the parts of `s` from `a` on, where `uint32 `
/// parts the text.
pub open spec fn pipewire_node_from(s: Seq<char>, a: int) -> Option<u32>
    decreases s.len() - a,
{
    if a < 0 || a > s.len() {
        None
    } else if node_at(s, a) is Some {
        node_at(s, a)
    } else {
        match position_of(s, "uint32 "@, a) {
            Some(i) => if a <= i && i + 7 <= s.len() {
                pipewire_node_from(s, i + 7)
            } else {
                None
            },
            None => None,
        }
    }
}

/// Extracts the PipeWire node id from the portal's answer to `Start`.
pub fn extract_pipewire_node(response: &str) -> (r: Option<u32>)
    ensures
        r == pipewire_node_from(response@, 0),
{
    proof {
        reveal_strlit("uint32 ");
    }
    let n = response.unicode_len();
    let mut a: usize = 0;
    loop
        invariant
            a <= n,
            n == response@.len(),
            "uint32 "@.len() == 7,
            pipewire_node_from(response@, a as int) == pipewire_node_from(response@, 0),
        decreases n - a,
    {
        proof {
            lemma_position_of(response@, "uint32 "@, a as int);
            lemma_non_digit_position(response@, a as int);
        }
        let next = find(response, "uint32 ", a);
        let end = match next {
            Some(i) => i,
            None => n,
        };
        match find_non_digit(response, a) {
            Some(p) => {
                if p < end {
                    match parse_digits(response, a, p) {
                        Some(v) => {
                            if v <= 0xFFFF_FFFF && v > 0 {
                                return Some(v as u32);
                            }
                        },
                        None => {},
                    }
                }
            },
            None => {},
        }
        match next {
            Some(i) => {
                a = i + 7;
            },
            None => {
                return None;
            },
        }
    }
}

/// The number of bytes of one captured frame: four for each pixel, or
/// nothing where that number does not fit.
pub fn frame_size(width: u32, height: u32) -> (r: Option<usize>)
    ensures
        r matches Some(n) ==> n == width * height * 4,
        r is None ==> width * height * 4 > usize::MAX,
{
    assert(width as u128 * height as u128 <= 0xFFFF_FFFF * 0xFFFF_FFFF) by (nonlinear_arith)
        requires
            width as u128 <= 0xFFFF_FFFF,
            height as u128 <= 0xFFFF_FFFF,
    ;
    let n: u128 = width as u128 * height as u128 * 4;
    if n > usize::MAX as u128 {
        None
    } else {
        Some(n as usize)
    }
}

} // verus!
