//! Framing of Postfix policy requests on a byte stream.
use vstd::prelude::*;

use super::request::{
    all_well_formed, attributes_of, holds_attributes, line_views, PolicyRequest, RequestParseError,
};
use super::response::{wire_text, Action};
use crate::text::split_once;
use vstd::utf8::{decode_utf8, encode_utf8, valid_utf8};

verus! {

#[verifier::external_type_specification]
#[verifier::external_body]
pub struct ExIoError(std::io::Error);

#[derive(Debug)]
pub enum ProtoError {
    Parse(RequestParseError),
    Io(std::io::Error),
}

/// Frames a byte stream on Postfix's policy-request terminator: a blank line
/// (i.e. two consecutive `\n`s) ends one request, which may itself be followed
/// immediately by further pipelined requests on the same connection.
#[derive(Debug, Default)]
pub struct PolicyRequestCodec;

/// Position of the first `\n\n` in `buf` at or after `i`.
pub open spec fn double_newline_from(buf: Seq<u8>, i: int) -> Option<int>
    decreases buf.len() - i,
{
    if i < 0 || i + 1 >= buf.len() {
        None
    } else if buf[i] == 10 && buf[i + 1] == 10 {
        Some(i)
    } else {
        double_newline_from(buf, i + 1)
    }
}

/// Position of the first `\n\n` in `buf`.
pub open spec fn double_newline(buf: Seq<u8>) -> Option<int> {
    double_newline_from(buf, 0)
}

/// The non-empty pieces of `b` between newlines, scanning from `i` with
/// the current piece starting at `start`.
pub open spec fn line_scan(b: Seq<u8>, start: int, i: int) -> Seq<Seq<u8>>
    decreases b.len() - i,
{
    if i < 0 || i >= b.len() {
        if 0 <= start < b.len() {
            seq![b.subrange(start, b.len() as int)]
        } else {
            seq![]
        }
    } else if b[i] == 10 {
        (if start < i {
            seq![b.subrange(start, i)]
        } else {
            seq![]
        }) + line_scan(b, i + 1, i + 1)
    } else {
        line_scan(b, start, i + 1)
    }
}

/// The non-empty lines of a block (the block split at each `\n`, empty
/// pieces dropped).
pub open spec fn block_lines(b: Seq<u8>) -> Seq<Seq<u8>> {
    line_scan(b, 0, 0)
}

/// What std's `String::from_utf8_lossy` makes of some bytes.
pub uninterp spec fn utf8_lossy(bytes: Seq<u8>) -> Seq<char>;

/// Each piece decoded as lossy UTF-8.
pub open spec fn lossy_texts(pieces: Seq<Seq<u8>>) -> Seq<Seq<char>> {
    pieces.map_values(|l: Seq<u8>| utf8_lossy(l))
}

/// The lines of a request block as text.
pub open spec fn block_text_lines(b: Seq<u8>) -> Seq<Seq<char>> {
    lossy_texts(block_lines(b))
}

proof fn lemma_lossy_push(out: Seq<String>, pieces: Seq<Seq<u8>>, text: String, piece: Seq<u8>)
    requires
        line_views(out) == lossy_texts(pieces),
        text@ == utf8_lossy(piece),
    ensures
        line_views(out.push(text)) == lossy_texts(pieces.push(piece)),
{
    assert(line_views(out).len() == pieces.len());
    assert forall|k: int| 0 <= k < out.len() + 1 implies #[trigger] line_views(out.push(text))[k]
        == lossy_texts(pieces.push(piece))[k] by {
        if k < out.len() {
            assert(line_views(out)[k] == lossy_texts(pieces)[k]);
        }
    }
    assert(line_views(out.push(text)) =~= lossy_texts(pieces.push(piece)));
}

/// The lines of the first request block in `buf`.
pub open spec fn first_block_lines(buf: Seq<u8>) -> Seq<Seq<char>> {
    match double_newline(buf) {
        Some(t) => block_text_lines(buf.take(t)),
        None => seq![],
    }
}

/// std's `String::from_utf8_lossy`, as an owned `String`. Claimed of std:
/// the result depends on the bytes alone, and valid UTF-8 is decoded as
/// it is (the documentation: invalid sequences are replaced, a valid
/// slice comes back unchanged).
#[verifier::external_body]
fn from_utf8_lossy(bytes: &[u8]) -> (s: String)
    ensures
        s@ == utf8_lossy(bytes@),
        valid_utf8(bytes@) ==> s@ == decode_utf8(bytes@),
{
    String::from_utf8_lossy(bytes).into_owned()
}

/// Returns the byte offset of the first `\n\n` in `buf`, if any.
pub fn find_double_newline(buf: &[u8]) -> (r: Option<usize>)
    ensures
        r matches Some(i) ==> double_newline(buf@) == Some(i as int) && i + 1 < buf@.len(),
        r is None ==> double_newline(buf@) is None,
{
    if buf.len() < 2 {
        return None;
    }
    let mut i: usize = 0;
    while i < buf.len() - 1
        invariant
            buf@.len() >= 2,
            double_newline(buf@) == double_newline_from(buf@, i as int),
        decreases buf.len() - i,
    {
        if buf[i] == 10 && buf[i + 1] == 10 {
            return Some(i);
        }
        i = i + 1;
    }
    None
}

fn sub_bytes(v: &[u8], from: usize, to: usize) -> (r: Vec<u8>)
    requires
        from <= to <= v.len(),
    ensures
        r@ == v@.subrange(from as int, to as int),
{
    let mut r: Vec<u8> = Vec::new();
    let mut i: usize = from;
    while i < to
        invariant
            from <= i <= to <= v.len(),
            r@ == v@.subrange(from as int, i as int),
        decreases to - i,
    {
        r.push(v[i]);
        i = i + 1;
    }
    r
}

/// The non-empty lines of `block`, each decoded as lossy UTF-8.
fn split_lines(block: &[u8]) -> (r: Vec<String>)
    ensures
        line_views(r@) == block_text_lines(block@),
{
    let ghost b = block@;
    let ghost mut pieces: Seq<Seq<u8>> = seq![];
    let mut out: Vec<String> = Vec::new();
    let mut start: usize = 0;
    let mut i: usize = 0;
    while i < block.len()
        invariant
            b == block@,
            start <= i <= block.len(),
            pieces + line_scan(b, start as int, i as int) == block_lines(b),
            line_views(out@) == lossy_texts(pieces),
        decreases block.len() - i,
    {
        if block[i] == 10 {
            if start < i {
                let piece = sub_bytes(block, start, i);
                let text = from_utf8_lossy(piece.as_slice());
                let ghost before = out@;
                out.push(text);
                proof {
                    lemma_lossy_push(before, pieces, text, piece@);
                    let p2 = pieces.push(b.subrange(start as int, i as int));
                    assert(p2 + line_scan(b, i + 1, i + 1) =~= pieces + line_scan(
                        b,
                        start as int,
                        i as int,
                    ));
                    pieces = p2;
                }
            } else {
                assert(pieces + line_scan(b, i + 1, i + 1) =~= pieces + line_scan(
                    b,
                    start as int,
                    i as int,
                ));
            }
            start = i + 1;
        }
        i = i + 1;
    }
    if start < block.len() {
        let piece = sub_bytes(block, start, block.len());
        let text = from_utf8_lossy(piece.as_slice());
        let ghost before = out@;
        out.push(text);
        proof {
            lemma_lossy_push(before, pieces, text, piece@);
            let p2 = pieces.push(b.subrange(start as int, b.len() as int));
            assert(p2 =~= pieces + line_scan(b, start as int, i as int));
        }
    } else {
        assert(pieces =~= pieces + line_scan(b, start as int, i as int));
    }
    out
}

impl PolicyRequestCodec {
    /// Takes the first complete request off the front of `src`: `None`
    /// (and `src` untouched) until `src` holds a `\n\n`; otherwise the
    /// block before the first `\n\n` is removed with its terminator and
    /// parsed from its non-empty lines.
    pub fn decode(&mut self, src: &mut Vec<u8>) -> (r: Result<Option<PolicyRequest>, ProtoError>)
        ensures
            double_newline(old(src)@) is None ==> (r matches Ok(None)) && final(src)@ == old(src)@,
            double_newline(old(src)@) matches Some(t) ==> final(src)@ == old(src)@.skip(t + 2) && (
            r is Ok <==> first_block_lines(old(src)@).len() > 0 && all_well_formed(
                first_block_lines(old(src)@),
            )) && (r is Ok ==> r matches Ok(Some(_))),
            r matches Ok(Some(req)) ==> double_newline(old(src)@) is Some && holds_attributes(
                req,
                attributes_of(first_block_lines(old(src)@)),
            ),
            r matches Err(e) ==> e is Parse,
            r matches Err(ProtoError::Parse(p)) ==> (p is EmptyRequest || p is MalformedLine),
            (r matches Err(ProtoError::Parse(RequestParseError::EmptyRequest))) <==> (double_newline(
                old(src)@,
            ) is Some && first_block_lines(old(src)@).len() == 0),
            r matches Err(ProtoError::Parse(RequestParseError::MalformedLine(l))) ==> exists|i: int|
                0 <= i < first_block_lines(old(src)@).len() && l@ == first_block_lines(old(src)@)[i]
                    && split_once(first_block_lines(old(src)@)[i], '=') is None && forall|j: int|
                    0 <= j < i ==> (#[trigger] split_once(first_block_lines(old(src)@)[j], '='))
                    is Some,
    {
        let found = find_double_newline(src.as_slice());
        match found {
            None => Ok(None),
            Some(t) => {
                assert(t + 1 < src.len());
                let block = sub_bytes(src.as_slice(), 0, t);
                let rest = sub_bytes(src.as_slice(), t + 2, src.len());
                *src = rest;
                assert(block@ =~= old(src)@.take(t as int));
                let lines = split_lines(block.as_slice());
                match PolicyRequest::from_lines(lines.as_slice()) {
                    Ok(req) => Ok(Some(req)),
                    Err(e) => {
                        proof {
                            let fb = first_block_lines(old(src)@);
                            assert(fb == line_views(lines@));
                            assert forall|j: int| 0 <= j < lines@.len() implies fb[j] == lines@[j]@ by {
                            }
                            match &e {
                                RequestParseError::MalformedLine(l) => {
                                    let i = choose|i: int|
                                        0 <= i < lines@.len() && l@ == lines@[i]@ && split_once(
                                            lines@[i]@,
                                            '=',
                                        ) is None && forall|j: int|
                                            0 <= j < i ==> (#[trigger] split_once(lines@[j]@, '='))
                                            is Some;
                                    assert(fb[i] == lines@[i]@);
                                    assert forall|j: int| 0 <= j < i implies (#[trigger] split_once(
                                        fb[j],
                                        '=',
                                    )) is Some by {
                                        assert(fb[j] == lines@[j]@);
                                    }
                                },
                                _ => {},
                            }
                        }
                        Err(ProtoError::Parse(e))
                    },
                }
            },
        }
    }

    /// Appends the wire form of `item` to `dst`.
    pub fn encode(&mut self, item: Action, dst: &mut Vec<u8>) -> (r: Result<(), ProtoError>)
        ensures
            r is Ok,
            final(dst)@ == old(dst)@ + encode_utf8(wire_text(item@)),
    {
        let wire = item.to_wire();
        let bytes = wire.as_str().as_bytes();
        let ghost start = dst@;
        let mut i: usize = 0;
        while i < bytes.len()
            invariant
                i <= bytes@.len(),
                dst@ == start + bytes@.subrange(0, i as int),
            decreases bytes.len() - i,
        {
            dst.push(bytes[i]);
            i = i + 1;
            assert(dst@ =~= start + bytes@.subrange(0, i as int));
        }
        assert(bytes@.subrange(0, bytes@.len() as int) =~= bytes@);
        Ok(())
    }
}

} // verus!
