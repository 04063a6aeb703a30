//! The events that `mat listen` reports (one JSON object per line), and the
//! framing of its output into lines.

use vstd::prelude::*;

use crate::adapter::views;
use crate::json::JsonValue;
use crate::text::{chars_of, spec_trim, split_char, split_on, trim};

verus! {

/// One attribute report.
#[derive(Debug)]
pub struct Event {
    pub node_id: u64,
    pub endpoint: u64,
    /// The cluster: a chip-tool name (e.g. "occupancysensing") or, for an
    /// unknown id, the number.
    pub cluster: JsonValue,
    /// The attribute: a chip-tool name (e.g. "occupancy") or the number.
    pub attribute: JsonValue,
    pub value: JsonValue,
    /// A redelivery of the current value when matd (re)subscribes; not a change.
    pub priming: bool,
    /// A change during a subscription gap that matd recovered from the priming
    /// difference; it arrives with `priming: false`.
    pub recovered: bool,
}

/// Names what `String::from_utf8_lossy` gives for some bytes: the text, with
/// each invalid sequence replaced by U+FFFD.
pub uninterp spec fn utf8_lossy(b: Seq<u8>) -> Seq<char>;

/// Calls `String::from_utf8_lossy`. Trusted: the result is `utf8_lossy` of the
/// bytes.
#[verifier::external_body]
fn decode_lossy(bytes: &[u8]) -> (r: String)
    ensures
        r@ == utf8_lossy(bytes@),
{
    String::from_utf8_lossy(bytes).into_owned()
}

/// A piece without one trailing carriage return.
pub open spec fn strip_cr(l: Seq<char>) -> Seq<char> {
    if l.len() > 0 && l.last() == '\r' {
        l.drop_last()
    } else {
        l
    }
}

/// The `i`-th line as `str::lines` gives it: a piece that a newline ended
/// loses one trailing carriage return; the last piece is kept as it is.
pub open spec fn line_text(pieces: Seq<Seq<char>>, i: int) -> Seq<char> {
    if i < pieces.len() - 1 {
        strip_cr(pieces[i])
    } else {
        pieces[i]
    }
}

/// The lines among the first `n` pieces that are not blank (empty once
/// trimmed), in order.
pub open spec fn kept_lines(pieces: Seq<Seq<char>>, n: int) -> Seq<Seq<char>>
    decreases n,
{
    if n <= 0 {
        Seq::empty()
    } else {
        let prev = kept_lines(pieces, n - 1);
        let l = line_text(pieces, n - 1);
        if spec_trim(l).len() > 0 {
            prev.push(l)
        } else {
            prev
        }
    }
}

/// The event lines of `mat listen`'s output: its text split into lines,
/// blank lines dropped.
pub open spec fn spec_event_lines(stdout: Seq<u8>) -> Seq<Seq<char>> {
    let pieces = split_on(utf8_lossy(stdout), '\n');
    kept_lines(pieces, pieces.len() as int)
}

/// Splits `mat listen`'s output into its event lines, in order; each is one
/// JSON object.
pub fn event_lines(stdout: &[u8]) -> (r: Vec<String>)
    ensures
        views(r@) == spec_event_lines(stdout@),
{
    let text = decode_lossy(stdout);
    let pieces = split_char(text.as_str(), '\n');
    let ghost ps = split_on(utf8_lossy(stdout@), '\n');
    assert(pieces.deep_view() == ps);
    let mut out: Vec<String> = Vec::new();
    let mut i: usize = 0;
    while i < pieces.len()
        invariant
            i <= pieces.len(),
            pieces.deep_view() == ps,
            views(out@) == kept_lines(ps, i as int),
        decreases pieces.len() - i,
    {
        let piece = pieces[i].as_str();
        assert(piece@ == ps[i as int]);
        let cs = chars_of(piece);
        let line = if i + 1 < pieces.len() && cs.len() > 0 && cs[cs.len() - 1] == '\r' {
            let l = piece.substring_char(0, cs.len() - 1);
            assert(l@ =~= piece@.drop_last());
            l
        } else {
            piece
        };
        assert(line@ == line_text(ps, i as int));
        if trim(line).unicode_len() > 0 {
            let ghost before = views(out@);
            out.push(line.to_owned());
            assert(views(out@) =~= before.push(line@));
        }
        i = i + 1;
    }
    out
}

} // verus!
