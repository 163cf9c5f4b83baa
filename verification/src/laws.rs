use vstd::prelude::*;
use crate::scan::{CodeKind, spec_code_str};
use crate::cascade::{spec_apply_list, spec_list_at};
use crate::listhead::{ListHead, ListHeadElement, spec_list_head, spec_apply_token, ListType};
use crate::numbering::NumberingStyle;
use crate::write::{MdTag, spec_start_tag};

verus! {

/// What surrounds a code span's body in its Markdown rendering; it depends
/// on the kind and the language alone.
pub open spec fn spec_code_prefix(kind: CodeKind, lang: Option<Seq<u8>>) -> Seq<u8> {
    match kind {
        CodeKind::Inline => seq![96u8],
        CodeKind::Multiline => seq![96u8, 96u8, 96u8] + (match lang {
            Some(l) => l,
            None => Seq::<u8>::empty(),
        }) + seq![10u8],
    }
}

pub open spec fn spec_code_suffix(kind: CodeKind) -> Seq<u8> {
    match kind {
        CodeKind::Inline => seq![96u8],
        CodeKind::Multiline => seq![10u8, 96u8, 96u8, 96u8, 10u8],
    }
}

/// Code-span opacity: the Markdown rendering of a code span holds the span's
/// body verbatim — any reserved sequence inside it included — between a
/// prefix and a suffix that do not depend on the body. The rewrite cascade
/// runs only on plain-text chunks, so nothing else ever touches the body.
pub proof fn lemma_code_span_opaque(kind: CodeKind, lang: Option<Seq<u8>>, body: Seq<u8>)
    ensures
        spec_code_str(kind, lang, body) == spec_code_prefix(kind, lang) + body + spec_code_suffix(
            kind,
        ),
{
    assert(spec_code_str(kind, lang, body) =~= spec_code_prefix(kind, lang) + body
        + spec_code_suffix(kind));
}

/// Malformed list head passthrough: where a list block's attribute text does
/// not parse, the list rule emits the whole matched block verbatim, head and
/// body untouched, and goes on after it.
pub proof fn lemma_malformed_list_passthrough(
    s: Seq<u8>,
    i: int,
    end: int,
    attr: Seq<u8>,
    body: Seq<u8>,
)
    requires
        0 <= i < s.len(),
        spec_list_at(s, i) == Some((end, attr, body)),
        spec_list_head(attr) is None,
        i < end <= s.len(),
    ensures
        spec_apply_list(s, i) == s.subrange(i, end) + spec_apply_list(s, end),
{
}

/// Last write wins: of two `type` attributes the later one names the style
/// the list gets, whatever stood before.
pub proof fn lemma_type_last_write_wins(
    h: ListHead,
    first: NumberingStyle,
    second: NumberingStyle,
)
    ensures
        spec_apply_token(
            spec_apply_token(h, ListHeadElement::Type(first)),
            ListHeadElement::Type(second),
        ).ltype == ListType::Ordered(second),
{
}

/// Last write wins for `start` too: the later value stands.
pub proof fn lemma_start_last_write_wins(h: ListHead, first: i16, second: i16)
    ensures
        spec_apply_token(
            spec_apply_token(h, ListHeadElement::Start(first)),
            ListHeadElement::Start(second),
        ).start == second,
{
}

/// Numbering boundary: the alphabetic styles wrap around past the 26th
/// item instead of growing to two letters, and so never fail; the label of
/// item `n + 26` is the label of item `n`. This carries over a documented
/// boundary limitation; it is not silently extended.
pub proof fn lemma_alpha_wraps(style: NumberingStyle, n: int)
    requires
        style == NumberingStyle::LowerAlpha || style == NumberingStyle::UpperAlpha,
    ensures
        crate::numbering::spec_ordinal(style, n + 26) == crate::numbering::spec_ordinal(style, n),
{
    assert((n + 26) % 26 == n % 26);
}

/// One item start writes exactly one line break when the cursor sits
/// mid-line and none when it already sits at a line start, then the bullet
/// marker; the cursor then stands mid-line.
pub proof fn lemma_item_marker(out: Seq<u8>, at_nl: bool)
    ensures
        spec_start_tag((out, at_nl), MdTag::Item).0 == out + (if at_nl {
            Seq::<u8>::empty()
        } else {
            seq![10u8]
        }) + seq!['[' as u8, '*' as u8, ']' as u8],
        spec_start_tag((out, at_nl), MdTag::Item).1 == false,
{
    assert(spec_start_tag((out, at_nl), MdTag::Item).0 =~= out + (if at_nl {
        Seq::<u8>::empty()
    } else {
        seq![10u8]
    }) + seq!['[' as u8, '*' as u8, ']' as u8]);
}

/// Emitter line-state law: an item marker leaves the cursor mid-line, so a
/// second consecutive `Item` start first breaks the line — two bullet
/// markers never share an output line.
pub proof fn lemma_items_on_separate_lines(out: Seq<u8>, at_nl: bool)
    ensures
        spec_start_tag((out, at_nl), MdTag::Item).1 == false,
        spec_start_tag(spec_start_tag((out, at_nl), MdTag::Item), MdTag::Item).0 == spec_start_tag(
            (out, at_nl),
            MdTag::Item,
        ).0 + seq![10u8, '[' as u8, '*' as u8, ']' as u8],
{
    let st1 = spec_start_tag((out, at_nl), MdTag::Item);
    let st2 = spec_start_tag(st1, MdTag::Item);
    assert(st2.0 =~= st1.0 + seq![10u8, '[' as u8, '*' as u8, ']' as u8]);
}

} // verus!
