use vstd::prelude::*;
use vstd::string::{StringSliceAdditionalSpecFns, StrSliceExecFns};
use vstd::utf8::valid_utf8;
use crate::scan::{
    ChunkView, TextChunk, spec_scan, spec_compact, spec_code_str, chunks_view, slurp_codetags,
    compact, code_str,
};
use crate::cascade::{spec_replace_bbcode, replace_bbcode};
use crate::writefmt::{ConversionError, WriteFmt, bytes_to_string};

verus! {

/// Markdown text of one chunk: the rewrite cascade on plain text, the code
/// rendering on a code span — whose body the cascade never touches.
pub open spec fn spec_chunk_markdown(c: ChunkView) -> Seq<u8> {
    match c {
        ChunkView::Chars(t) => spec_replace_bbcode(t),
        ChunkView::Code { kind, lang, body } => spec_code_str(kind, lang, body),
    }
}

pub open spec fn spec_render_chunks(cs: Seq<ChunkView>) -> Seq<u8>
    decreases cs.len(),
{
    if cs.len() == 0 {
        seq![]
    } else {
        spec_chunk_markdown(cs[0]) + spec_render_chunks(cs.skip(1))
    }
}

/// The whole BBCode-to-Markdown conversion: the source tokenized into plain
/// and code chunks, adjacent plain chunks merged, the cascade applied to
/// each plain chunk, code spans re-rendered with their bodies verbatim, and
/// everything concatenated in source order.
pub open spec fn spec_markdown_of(s: Seq<u8>) -> Seq<u8> {
    spec_render_chunks(spec_compact(spec_scan(s, 0), None))
}

/// Convert one BBCode text to Markdown bytes; total on any input.
pub fn convert_bbcode(content: &Vec<u8>) -> (r: Vec<u8>)
    ensures
        r@ == spec_markdown_of(content@),
{
    let chunks = compact(slurp_codetags(content));
    let mut out: Vec<u8> = Vec::new();
    let mut rem = chunks;
    while rem.len() > 0
        invariant
            spec_markdown_of(content@) =~= out@ + spec_render_chunks(chunks_view(rem@)),
        decreases rem.len(),
    {
        let ghost rv = chunks_view(rem@);
        let c = rem.remove(0);
        assert(chunks_view(rem@) =~= rv.skip(1));
        let piece = match c {
            TextChunk::Chars(t) => replace_bbcode(&t),
            TextChunk::Code { kind, lang, body } => code_str(kind, &lang, &body),
        };
        out.extend_from_slice(piece.as_slice());
    }
    out
}

/// BBCode to Markdown. Malformed markup never fails: unterminated code tags
/// and unparseable list heads pass through as literal text. The one error is
/// an output that cannot be read back as text.
pub fn to_markdown(content: &str) -> (r: Result<String, ConversionError>)
    ensures
        r matches Ok(s) ==> vstd::utf8::encode_utf8(s@) == spec_markdown_of(content.spec_bytes()),
        (r is Err) == !valid_utf8(spec_markdown_of(content.spec_bytes())),
        r is Err ==> r == Err::<String, ConversionError>(ConversionError::Encoding),
{
    let bytes = content.as_bytes_vec();
    let md = convert_bbcode(&bytes);
    match bytes_to_string(md) {
        Some(s) => Ok(s),
        None => Err(ConversionError::Encoding),
    }
}

/// Convert BBCode to Markdown and hand the whole result to the sink in one
/// write. The encoding error comes exactly when the output bytes are not
/// valid UTF-8; otherwise only the sink can refuse, and a failed conversion
/// leaves the sink's completed writes unchanged.
pub fn dump_markdown<W: WriteFmt>(writer: &mut W, content: &str) -> (r: Result<
    (),
    ConversionError,
>)
    ensures
        r is Ok ==> final(writer).sunk() == old(writer).sunk() + spec_markdown_of(
            content.spec_bytes(),
        ),
        r is Err ==> final(writer).sunk() == old(writer).sunk(),
        (r == Err::<(), ConversionError>(ConversionError::Encoding)) == !valid_utf8(
            spec_markdown_of(content.spec_bytes()),
        ),
{
    match to_markdown(content) {
        Ok(s) => writer.write_str(s.as_str()),
        Err(e) => Err(e),
    }
}

} // verus!
