use vstd::prelude::*;
use crate::text::{
    spec_match_at, spec_find_byte, spec_trim, spec_is_ws, match_at, find_byte, subvec, trim_window,
    lemma_find_byte_props,
};

verus! {

/// The two flavours of code span the tokenizer recognises.
#[derive(Clone, Copy, PartialEq, Eq, Structural, Debug)]
pub enum CodeKind {
    Inline,
    Multiline,
}

/// Start delimiter of a code span: `[c=` or `[code=`.
pub open spec fn spec_start_seq(kind: CodeKind) -> Seq<u8> {
    match kind {
        CodeKind::Inline => seq!['[' as u8, 'c' as u8, '=' as u8],
        CodeKind::Multiline => seq![
            '[' as u8,
            'c' as u8,
            'o' as u8,
            'd' as u8,
            'e' as u8,
            '=' as u8,
        ],
    }
}

/// End delimiter of a code span: `[/c]` or `[/code]`.
pub open spec fn spec_end_seq(kind: CodeKind) -> Seq<u8> {
    match kind {
        CodeKind::Inline => seq!['[' as u8, '/' as u8, 'c' as u8, ']' as u8],
        CodeKind::Multiline => seq![
            '[' as u8,
            '/' as u8,
            'c' as u8,
            'o' as u8,
            'd' as u8,
            'e' as u8,
            ']' as u8,
        ],
    }
}

/// The language label that stands for "no explicit language" for each kind.
pub open spec fn spec_default_label(kind: CodeKind) -> Seq<u8> {
    match kind {
        CodeKind::Inline => seq!['i' as u8, 'n' as u8, 'l' as u8, 'i' as u8, 'n' as u8, 'e' as u8],
        CodeKind::Multiline => seq!['c' as u8, 'o' as u8, 'd' as u8, 'e' as u8],
    }
}

impl CodeKind {
    pub fn start_seq(self) -> (r: Vec<u8>)
        ensures
            r@ == spec_start_seq(self),
    {
        match self {
            CodeKind::Inline => vec!['[' as u8, 'c' as u8, '=' as u8],
            CodeKind::Multiline => vec![
                '[' as u8,
                'c' as u8,
                'o' as u8,
                'd' as u8,
                'e' as u8,
                '=' as u8,
            ],
        }
    }

    pub fn end_seq(self) -> (r: Vec<u8>)
        ensures
            r@ == spec_end_seq(self),
    {
        match self {
            CodeKind::Inline => vec!['[' as u8, '/' as u8, 'c' as u8, ']' as u8],
            CodeKind::Multiline => vec![
                '[' as u8,
                '/' as u8,
                'c' as u8,
                'o' as u8,
                'd' as u8,
                'e' as u8,
                ']' as u8,
            ],
        }
    }

    /// Whether `val` is the canonical default language token for this kind.
    pub fn is_default_value(self, val: &Vec<u8>) -> (r: bool)
        ensures
            r == (val@ == spec_default_label(self)),
    {
        let d: Vec<u8> = match self {
            CodeKind::Inline => vec![
                'i' as u8,
                'n' as u8,
                'l' as u8,
                'i' as u8,
                'n' as u8,
                'e' as u8,
            ],
            CodeKind::Multiline => vec!['c' as u8, 'o' as u8, 'd' as u8, 'e' as u8],
        };
        if val.len() != d.len() {
            assert(val@ != spec_default_label(self));
            return false;
        }
        let mut k: usize = 0;
        while k < d.len()
            invariant
                val@.len() == d@.len(),
                d@ == spec_default_label(self),
                0 <= k <= d@.len(),
                forall|j: int| 0 <= j < k ==> val@[j] == d@[j],
            decreases d@.len() - k,
        {
            if val[k] != d[k] {
                return false;
            }
            k += 1;
        }
        assert(val@ =~= d@);
        true
    }
}

/// One piece of the tokenized source: either plain text, to which the
/// rewrite cascade applies, or an opaque code span.
pub enum TextChunk {
    Chars(Vec<u8>),
    Code { kind: CodeKind, lang: Option<Vec<u8>>, body: Vec<u8> },
}

/// The mathematical shape of a chunk: the same structure over byte sequences.
pub enum ChunkView {
    Chars(Seq<u8>),
    Code { kind: CodeKind, lang: Option<Seq<u8>>, body: Seq<u8> },
}

pub open spec fn chunk_view(c: TextChunk) -> ChunkView {
    match c {
        TextChunk::Chars(v) => ChunkView::Chars(v@),
        TextChunk::Code { kind, lang, body } => ChunkView::Code {
            kind,
            lang: match lang {
                Some(l) => Some(l@),
                None => None,
            },
            body: body@,
        },
    }
}

pub open spec fn chunks_view(cs: Seq<TextChunk>) -> Seq<ChunkView> {
    cs.map_values(|c: TextChunk| chunk_view(c))
}

/// First position at or after `i` where a code-span start delimiter stands.
/// A `[c` that starts neither delimiter is skipped, never an error.
pub open spec fn spec_find_code_start(s: Seq<u8>, i: int) -> Option<(int, CodeKind)>
    decreases s.len() - i,
{
    if i < 0 || i >= s.len() {
        None
    } else if spec_match_at(s, i, spec_start_seq(CodeKind::Inline)) {
        Some((i, CodeKind::Inline))
    } else if spec_match_at(s, i, spec_start_seq(CodeKind::Multiline)) {
        Some((i, CodeKind::Multiline))
    } else {
        spec_find_code_start(s, i + 1)
    }
}

pub proof fn lemma_find_code_start_props(s: Seq<u8>, i: int)
    ensures
        match spec_find_code_start(s, i) {
            Some((at, kind)) => i <= at && spec_match_at(s, at, spec_start_seq(kind)) && at
                + spec_start_seq(kind).len() <= s.len(),
            None => true,
        },
    decreases s.len() - i,
{
    if i < 0 || i >= s.len() {
    } else if spec_match_at(s, i, spec_start_seq(CodeKind::Inline)) {
    } else if spec_match_at(s, i, spec_start_seq(CodeKind::Multiline)) {
    } else {
        lemma_find_code_start_props(s, i + 1);
    }
}

pub fn next_codestart(s: &Vec<u8>, i: usize) -> (r: Option<(usize, CodeKind)>)
    ensures
        match r {
            Some((at, kind)) => spec_find_code_start(s@, i as int) == Some((at as int, kind)),
            None => spec_find_code_start(s@, i as int) is None,
        },
{
    let inline_start = CodeKind::Inline.start_seq();
    let multi_start = CodeKind::Multiline.start_seq();
    let mut j: usize = i;
    while j < s.len()
        invariant
            i <= j,
            inline_start@ == spec_start_seq(CodeKind::Inline),
            multi_start@ == spec_start_seq(CodeKind::Multiline),
            spec_find_code_start(s@, i as int) == spec_find_code_start(s@, j as int),
        decreases s.len() - j,
    {
        if match_at(s, j, &inline_start) {
            return Some((j, CodeKind::Inline));
        }
        if match_at(s, j, &multi_start) {
            return Some((j, CodeKind::Multiline));
        }
        j += 1;
    }
    None
}

/// First end delimiter at or after `i`; the search gives up at a raw line
/// break when the span is inline, since an inline span may not cross a line.
/// A found result is the position just past the delimiter.
pub open spec fn spec_find_code_end(s: Seq<u8>, i: int, kind: CodeKind) -> Option<int>
    decreases s.len() - i,
{
    if i < 0 || i >= s.len() {
        None
    } else if spec_match_at(s, i, spec_end_seq(kind)) {
        Some(i + spec_end_seq(kind).len())
    } else if kind == CodeKind::Inline && (s[i] == 10 || s[i] == 13) {
        None
    } else {
        spec_find_code_end(s, i + 1, kind)
    }
}

pub proof fn lemma_find_code_end_props(s: Seq<u8>, i: int, kind: CodeKind)
    ensures
        match spec_find_code_end(s, i, kind) {
            Some(end) => i + spec_end_seq(kind).len() <= end <= s.len() && spec_match_at(
                s,
                end - spec_end_seq(kind).len(),
                spec_end_seq(kind),
            ),
            None => true,
        },
    decreases s.len() - i,
{
    if i < 0 || i >= s.len() {
    } else if spec_match_at(s, i, spec_end_seq(kind)) {
    } else if kind == CodeKind::Inline && (s[i] == 10 || s[i] == 13) {
    } else {
        lemma_find_code_end_props(s, i + 1, kind);
    }
}

pub fn next_codeend(s: &Vec<u8>, i: usize, kind: CodeKind) -> (r: Option<usize>)
    ensures
        match r {
            Some(end) => spec_find_code_end(s@, i as int, kind) == Some(end as int),
            None => spec_find_code_end(s@, i as int, kind) is None,
        },
{
    let probe = kind.end_seq();
    let mut j: usize = i;
    while j < s.len()
        invariant
            i <= j,
            probe@ == spec_end_seq(kind),
            spec_find_code_end(s@, i as int, kind) == spec_find_code_end(s@, j as int, kind),
        decreases s.len() - j,
    {
        if match_at(s, j, &probe) {
            assert(j + probe@.len() <= s@.len());
            return Some(j + probe.len());
        }
        if kind == CodeKind::Inline && (s[j] == 10 || s[j] == 13) {
            return None;
        }
        j += 1;
    }
    None
}

/// One surrounding quote removed from each end, where present.
pub open spec fn spec_strip_quotes(s: Seq<u8>) -> Seq<u8> {
    let a = if s.len() > 0 && s[0] == 34 {
        s.subrange(1, s.len() as int)
    } else {
        s
    };
    if a.len() > 0 && a[a.len() - 1] == 34 {
        a.subrange(0, a.len() - 1)
    } else {
        a
    }
}

pub open spec fn spec_has_quote(s: Seq<u8>) -> bool {
    exists|k: int| 0 <= k < s.len() && s[k] == 34
}

/// The language label read from the raw text between a start delimiter and
/// the next `]`: trimmed, de-quoted, and refused when empty or when a stray
/// quote remains.
pub open spec fn spec_parse_label(raw: Seq<u8>) -> Option<Seq<u8>> {
    let t = spec_strip_quotes(spec_trim(raw));
    if t.len() > 0 && !spec_has_quote(t) {
        Some(t)
    } else {
        None
    }
}

/// Parse the label standing in `s` between `lo` (inclusive) and `hi`
/// (exclusive).
pub fn parse_label(s: &Vec<u8>, lo: usize, hi: usize) -> (r: Option<Vec<u8>>)
    requires
        lo <= hi <= s.len(),
    ensures
        match r {
            Some(l) => spec_parse_label(s@.subrange(lo as int, hi as int)) == Some(l@),
            None => spec_parse_label(s@.subrange(lo as int, hi as int)) is None,
        },
{
    let (mut a, mut b) = trim_window(s, lo, hi);
    let ghost trimmed = spec_trim(s@.subrange(lo as int, hi as int));
    assert(s@.subrange(a as int, b as int) == trimmed);
    if a < b && s[a] == 34 {
        a += 1;
    }
    if b > a && s[b - 1] == 34 {
        b -= 1;
    }
    assert(s@.subrange(a as int, b as int) =~= spec_strip_quotes(trimmed));
    if a == b {
        return None;
    }
    let mut k: usize = a;
    while k < b
        invariant
            lo <= a <= k <= b <= hi <= s.len(),
            a < b,
            s@.subrange(a as int, b as int) == spec_strip_quotes(
                spec_trim(s@.subrange(lo as int, hi as int)),
            ),
            forall|j: int| a <= j < k ==> s@[j] != 34,
        decreases b - k,
    {
        if s[k] == 34 {
            assert(s@.subrange(a as int, b as int)[k - a] == 34);
            return None;
        }
        k += 1;
    }
    assert(!spec_has_quote(s@.subrange(a as int, b as int))) by {
        assert(forall|j: int| 0 <= j < b - a ==> s@.subrange(a as int, b as int)[j] == s@[a + j]);
    }
    Some(subvec(s, a, b))
}

pub open spec fn spec_opt_view(o: Option<Vec<u8>>) -> Option<Seq<u8>> {
    match o {
        Some(v) => Some(v@),
        None => None,
    }
}

/// What one code-tag attempt at position `at` yields: either a code chunk
/// reaching to just past the end delimiter, or — when the end delimiter or
/// the language label cannot be found — the start delimiter itself as plain
/// text, with scanning resuming right after it.
pub open spec fn spec_scan_step(s: Seq<u8>, at: int, kind: CodeKind) -> (ChunkView, int) {
    let sl = spec_start_seq(kind).len() as int;
    let elen = spec_end_seq(kind).len() as int;
    match spec_find_code_end(s, at, kind) {
        Some(end) => match spec_find_byte(s, at + sl, 93) {
            Some(j) => if j + 1 <= end - elen {
                match spec_parse_label(s.subrange(at + sl, j)) {
                    Some(lab) => (
                        ChunkView::Code {
                            kind,
                            lang: if lab == spec_default_label(kind) {
                                None
                            } else {
                                Some(lab)
                            },
                            body: s.subrange(j + 1, end - elen),
                        },
                        end,
                    ),
                    None => (ChunkView::Chars(spec_start_seq(kind)), at + sl),
                }
            } else {
                (ChunkView::Chars(spec_start_seq(kind)), at + sl)
            },
            None => (ChunkView::Chars(spec_start_seq(kind)), at + sl),
        },
        None => (ChunkView::Chars(spec_start_seq(kind)), at + sl),
    }
}

fn scan_step(s: &Vec<u8>, at: usize, kind: CodeKind) -> (r: (TextChunk, usize))
    requires
        spec_match_at(s@, at as int, spec_start_seq(kind)),
    ensures
        chunk_view(r.0) == spec_scan_step(s@, at as int, kind).0,
        r.1 as int == spec_scan_step(s@, at as int, kind).1,
        at < r.1 <= s.len(),
{
    let start = kind.start_seq();
    let sl = start.len();
    let elen = kind.end_seq().len();
    assert(at + sl <= s@.len());
    match next_codeend(s, at, kind) {
        Some(end) => {
            proof {
                lemma_find_code_end_props(s@, at as int, kind);
            }
            match find_byte(s, at + sl, 93) {
                Some(j) => {
                    proof {
                        lemma_find_byte_props(s@, at + sl, 93);
                    }
                    let n = s.len();
                    assert(j < n);
                    assert(elen <= end);
                    if j + 1 <= end - elen {
                        match parse_label(s, at + sl, j) {
                            Some(lab) => {
                                let body = subvec(s, j + 1, end - elen);
                                let lang = if kind.is_default_value(&lab) {
                                    None
                                } else {
                                    Some(lab)
                                };
                                (TextChunk::Code { kind, lang, body }, end)
                            },
                            None => (TextChunk::Chars(start), at + sl),
                        }
                    } else {
                        (TextChunk::Chars(start), at + sl)
                    }
                },
                None => (TextChunk::Chars(start), at + sl),
            }
        },
        None => (TextChunk::Chars(start), at + sl),
    }
}

/// The chunk sequence of the whole source from position `i` on: the scanner's
/// result before compaction.
pub open spec fn spec_scan(s: Seq<u8>, i: int) -> Seq<ChunkView>
    decreases s.len() - i,
{
    if i < 0 || i > s.len() {
        seq![]
    } else {
        match spec_find_code_start(s, i) {
            None => seq![ChunkView::Chars(s.subrange(i, s.len() as int))],
            Some((at, kind)) => {
                let step = spec_scan_step(s, at, kind);
                if i <= at && at < step.1 && step.1 <= s.len() {
                    seq![ChunkView::Chars(s.subrange(i, at)), step.0] + spec_scan(s, step.1)
                } else {
                    seq![]
                }
            },
        }
    }
}

proof fn lemma_chunks_view_push(cs: Seq<TextChunk>, c: TextChunk)
    ensures
        chunks_view(cs.push(c)) =~= chunks_view(cs).push(chunk_view(c)),
{
}

/// Split the source into plain-text and code-span chunks, in order; total on
/// any input, malformed tags fall back to plain text.
pub fn slurp_codetags(content: &Vec<u8>) -> (r: Vec<TextChunk>)
    ensures
        chunks_view(r@) == spec_scan(content@, 0),
{
    let mut chunks: Vec<TextChunk> = Vec::new();
    let mut i: usize = 0;
    loop
        invariant
            i <= content.len(),
            spec_scan(content@, 0) =~= chunks_view(chunks@) + spec_scan(content@, i as int),
        decreases content.len() - i,
    {
        match next_codestart(content, i) {
            None => {
                let tail = subvec(content, i, content.len());
                proof {
                    lemma_chunks_view_push(chunks@, TextChunk::Chars(tail));
                }
                chunks.push(TextChunk::Chars(tail));
                assert(chunks_view(chunks@) =~= spec_scan(content@, 0));
                return chunks;
            },
            Some((at, kind)) => {
                proof {
                    lemma_find_code_start_props(content@, i as int);
                }
                let before = subvec(content, i, at);
                let ghost chunks0 = chunks@;
                proof {
                    lemma_chunks_view_push(chunks@, TextChunk::Chars(before));
                }
                chunks.push(TextChunk::Chars(before));
                let (chunk, next) = scan_step(content, at, kind);
                proof {
                    lemma_chunks_view_push(chunks@, chunk);
                }
                let ghost cv = chunk_view(chunk);
                chunks.push(chunk);
                assert(chunks_view(chunks@) =~= chunks_view(chunks0) + seq![
                    ChunkView::Chars(content@.subrange(i as int, at as int)),
                    cv,
                ]);
                i = next;
            },
        }
    }
}

/// Adjacent plain-text chunks merged, so that the rewrite cascade never sees
/// a split plain-text run.
pub open spec fn spec_compact(cs: Seq<ChunkView>, pending: Option<Seq<u8>>) -> Seq<ChunkView>
    decreases cs.len(),
{
    if cs.len() == 0 {
        match pending {
            Some(t) => seq![ChunkView::Chars(t)],
            None => seq![],
        }
    } else {
        match cs[0] {
            ChunkView::Chars(u) => match pending {
                None => spec_compact(cs.skip(1), Some(u)),
                Some(t) => spec_compact(cs.skip(1), Some(t + u)),
            },
            ChunkView::Code { kind, lang, body } => match pending {
                None => seq![cs[0]] + spec_compact(cs.skip(1), None),
                Some(t) => seq![ChunkView::Chars(t), cs[0]] + spec_compact(cs.skip(1), None),
            },
        }
    }
}

pub fn compact(chunks: Vec<TextChunk>) -> (r: Vec<TextChunk>)
    ensures
        chunks_view(r@) == spec_compact(chunks_view(chunks@), None),
{
    let ghost orig = chunks_view(chunks@);
    let mut out: Vec<TextChunk> = Vec::new();
    let mut pending: Option<Vec<u8>> = None;
    let mut rem = chunks;
    while rem.len() > 0
        invariant
            spec_compact(orig, None) =~= chunks_view(out@) + spec_compact(
                chunks_view(rem@),
                spec_opt_view(pending),
            ),
        decreases rem.len(),
    {
        let ghost rem0 = chunks_view(rem@);
        let c = rem.remove(0);
        assert(chunks_view(rem@) =~= rem0.skip(1));
        match c {
            TextChunk::Chars(u) => {
                pending = match pending {
                    None => Some(u),
                    Some(t) => {
                        let mut t2 = t;
                        let mut u2 = u;
                        t2.append(&mut u2);
                        Some(t2)
                    },
                };
            },
            TextChunk::Code { kind, lang, body } => {
                let code = TextChunk::Code { kind, lang, body };
                let ghost out0 = chunks_view(out@);
                pending = match pending {
                    Some(t) => {
                        proof {
                            lemma_chunks_view_push(out@, TextChunk::Chars(t));
                        }
                        out.push(TextChunk::Chars(t));
                        None
                    },
                    None => None,
                };
                proof {
                    lemma_chunks_view_push(out@, code);
                }
                out.push(code);
            },
        }
    }
    match pending {
        Some(t) => {
            proof {
                lemma_chunks_view_push(out@, TextChunk::Chars(t));
            }
            out.push(TextChunk::Chars(t));
        },
        None => {},
    }
    out
}

/// Markdown rendering of one code span: back-ticks for an inline span, a
/// fenced block carrying the language for a multiline span. The body appears
/// verbatim in either form.
pub open spec fn spec_code_str(kind: CodeKind, lang: Option<Seq<u8>>, body: Seq<u8>) -> Seq<u8> {
    match kind {
        CodeKind::Inline => seq![96u8] + body + seq![96u8],
        CodeKind::Multiline => seq![96u8, 96u8, 96u8] + (match lang {
            Some(l) => l,
            None => Seq::<u8>::empty(),
        }) + seq![10u8] + body + seq![10u8, 96u8, 96u8, 96u8, 10u8],
    }
}

pub fn code_str(kind: CodeKind, lang: &Option<Vec<u8>>, body: &Vec<u8>) -> (r: Vec<u8>)
    ensures
        r@ == spec_code_str(
            kind,
            match lang {
                Some(l) => Some(l@),
                None => None,
            },
            body@,
        ),
{
    let mut r: Vec<u8> = Vec::new();
    match kind {
        CodeKind::Inline => {
            r.push(96u8);
            r.extend_from_slice(body.as_slice());
            r.push(96u8);
        },
        CodeKind::Multiline => {
            r.push(96u8);
            r.push(96u8);
            r.push(96u8);
            match lang {
                Some(l) => r.extend_from_slice(l.as_slice()),
                None => {},
            }
            r.push(10u8);
            r.extend_from_slice(body.as_slice());
            r.push(10u8);
            r.push(96u8);
            r.push(96u8);
            r.push(96u8);
            r.push(10u8);
        },
    }
    assert(r@ =~= spec_code_str(
        kind,
        match lang {
            Some(l) => Some(l@),
            None => None,
        },
        body@,
    ));
    r
}

} // verus!
