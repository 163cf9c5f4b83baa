use vstd::prelude::*;
use vstd::string::StringSliceAdditionalSpecFns;
use vstd::utf8::valid_utf8;
use crate::text::{spec_find_byte, find_byte, spec_udec, udec_u64, lemma_find_byte_props, subvec};
use crate::writefmt::{ConversionError, WriteFmt, bytes_to_string};

verus! {

/// A structural tag of the abstract event sequence an external Markdown
/// parser produces.
pub enum MdTag {
    Paragraph,
    Heading,
    BlockQuote,
    /// The fence info text of a fenced block; an indented block carries none.
    CodeBlock(Option<Vec<u8>>),
    /// The first number of an ordered list; a bullet list carries none.
    List(Option<u64>),
    Item,
    Emphasis,
    Strong,
    Strikethrough,
    Link(Vec<u8>),
    Image(Vec<u8>),
}

/// One abstract markup event.
pub enum MarkupEvent {
    Start(MdTag),
    End(MdTag),
    Text(Vec<u8>),
    Code(Vec<u8>),
    SoftBreak,
    HardBreak,
    Rule,
}

/// The emitter's state: everything written so far, and whether the cursor
/// sits at the start of a fresh line. The flag is set after every write from
/// the last byte of the written fragment; an empty fragment clears it.
pub open spec fn spec_write(out: Seq<u8>, at_nl: bool, w: Seq<u8>) -> (Seq<u8>, bool) {
    (out + w, if w.len() > 0 {
        w[w.len() - 1] == 10
    } else {
        false
    })
}

/// A line break first, unless the cursor already sits at a fresh line.
pub open spec fn spec_ensure_nl(out: Seq<u8>, at_nl: bool) -> (Seq<u8>, bool) {
    if at_nl {
        (out, at_nl)
    } else {
        spec_write(out, at_nl, seq![10u8])
    }
}

/// The language token of a code fence: the first blank-delimited word of the
/// info text, or the default token when the info text is empty or absent.
pub open spec fn spec_fence_lang(info: Option<Vec<u8>>) -> Seq<u8> {
    let fallback = seq!['c' as u8, 'o' as u8, 'd' as u8, 'e' as u8];
    match info {
        None => fallback,
        Some(inf) => {
            let tok = match spec_find_byte(inf@, 0, 32) {
                Some(j) => inf@.subrange(0, j),
                None => inf@,
            };
            if tok.len() == 0 {
                fallback
            } else {
                tok
            }
        },
    }
}

/// What the start of each tag writes: the table's left column.
pub open spec fn spec_start_tag(st: (Seq<u8>, bool), tag: MdTag) -> (Seq<u8>, bool) {
    match tag {
        MdTag::Paragraph => st,
        MdTag::Heading => spec_write(
            st.0,
            st.1,
            seq!['[' as u8, 'b' as u8, 'i' as u8, 'g' as u8, ']' as u8],
        ),
        MdTag::BlockQuote => spec_write(
            st.0,
            st.1,
            seq!['[' as u8, 'q' as u8, 'u' as u8, 'o' as u8, 't' as u8, 'e' as u8, ']' as u8, 10u8],
        ),
        MdTag::CodeBlock(info) => spec_write(
            st.0,
            st.1,
            seq!['[' as u8, 'c' as u8, 'o' as u8, 'd' as u8, 'e' as u8, '=' as u8]
                + spec_fence_lang(info) + seq![']' as u8, 10u8],
        ),
        MdTag::List(Some(start)) => if start == 1 {
            spec_write(
                st.0,
                st.1,
                seq![
                    '[' as u8,
                    'l' as u8,
                    'i' as u8,
                    's' as u8,
                    't' as u8,
                    ' ' as u8,
                    't' as u8,
                    'y' as u8,
                    'p' as u8,
                    'e' as u8,
                    '=' as u8,
                    '"' as u8,
                    '1' as u8,
                    '"' as u8,
                    ']' as u8,
                    10u8,
                ],
            )
        } else {
            spec_write(
                st.0,
                st.1,
                seq![
                    '[' as u8,
                    'l' as u8,
                    'i' as u8,
                    's' as u8,
                    't' as u8,
                    ' ' as u8,
                    's' as u8,
                    't' as u8,
                    'a' as u8,
                    'r' as u8,
                    't' as u8,
                    '=' as u8,
                    '"' as u8,
                ] + spec_udec(start as nat) + seq!['"' as u8, ']' as u8, 10u8],
            )
        },
        MdTag::List(None) => spec_write(
            st.0,
            st.1,
            seq!['[' as u8, 'l' as u8, 'i' as u8, 's' as u8, 't' as u8, ']' as u8, 10u8],
        ),
        MdTag::Item => {
            let st1 = spec_ensure_nl(st.0, st.1);
            spec_write(st1.0, st1.1, seq!['[' as u8, '*' as u8, ']' as u8])
        },
        MdTag::Emphasis => spec_write(
            st.0,
            st.1,
            seq!['[' as u8, 'c' as u8, 'u' as u8, 'r' as u8, ']' as u8],
        ),
        MdTag::Strong => spec_write(st.0, st.1, seq!['[' as u8, 'b' as u8, ']' as u8]),
        MdTag::Strikethrough => spec_write(
            st.0,
            st.1,
            seq!['[' as u8, 'd' as u8, 'e' as u8, 'l' as u8, ']' as u8],
        ),
        MdTag::Link(dest) => spec_write(
            st.0,
            st.1,
            seq!['[' as u8, 'u' as u8, 'r' as u8, 'l' as u8, '=' as u8] + dest@ + seq![']' as u8],
        ),
        MdTag::Image(dest) => spec_write(
            st.0,
            st.1,
            seq!['[' as u8, 'i' as u8, 'm' as u8, 'g' as u8, ']' as u8] + dest@ + seq![
                '[' as u8,
                '/' as u8,
                'i' as u8,
                'm' as u8,
                'g' as u8,
                ']' as u8,
            ],
        ),
    }
}

/// What the end of each tag writes: the table's right column. An image was
/// already closed by its start and writes nothing.
pub open spec fn spec_end_tag(st: (Seq<u8>, bool), tag: MdTag) -> (Seq<u8>, bool) {
    match tag {
        MdTag::Paragraph => spec_write(st.0, st.1, seq![10u8, 10u8]),
        MdTag::Heading => spec_write(
            st.0,
            st.1,
            seq!['[' as u8, '/' as u8, 'b' as u8, 'i' as u8, 'g' as u8, ']' as u8, 10u8, 10u8],
        ),
        MdTag::BlockQuote => spec_write(
            st.0,
            st.1,
            seq![
                '[' as u8,
                '/' as u8,
                'q' as u8,
                'u' as u8,
                'o' as u8,
                't' as u8,
                'e' as u8,
                ']' as u8,
                10u8,
            ],
        ),
        MdTag::CodeBlock(_) => {
            let st1 = spec_ensure_nl(st.0, st.1);
            spec_write(
                st1.0,
                st1.1,
                seq![
                    '[' as u8,
                    '/' as u8,
                    'c' as u8,
                    'o' as u8,
                    'd' as u8,
                    'e' as u8,
                    ']' as u8,
                    10u8,
                ],
            )
        },
        MdTag::List(_) => {
            let st1 = spec_ensure_nl(st.0, st.1);
            spec_write(
                st1.0,
                st1.1,
                seq![
                    '[' as u8,
                    '/' as u8,
                    'l' as u8,
                    'i' as u8,
                    's' as u8,
                    't' as u8,
                    ']' as u8,
                    10u8,
                ],
            )
        },
        MdTag::Item => st,
        MdTag::Emphasis => spec_write(
            st.0,
            st.1,
            seq!['[' as u8, '/' as u8, 'c' as u8, 'u' as u8, 'r' as u8, ']' as u8],
        ),
        MdTag::Strong => spec_write(
            st.0,
            st.1,
            seq!['[' as u8, '/' as u8, 'b' as u8, ']' as u8],
        ),
        MdTag::Strikethrough => spec_write(
            st.0,
            st.1,
            seq!['[' as u8, '/' as u8, 'd' as u8, 'e' as u8, 'l' as u8, ']' as u8],
        ),
        MdTag::Link(_) => spec_write(
            st.0,
            st.1,
            seq!['[' as u8, '/' as u8, 'u' as u8, 'r' as u8, 'l' as u8, ']' as u8],
        ),
        MdTag::Image(_) => st,
    }
}

/// What one event writes.
pub open spec fn spec_emit_event(st: (Seq<u8>, bool), ev: MarkupEvent) -> (Seq<u8>, bool) {
    match ev {
        MarkupEvent::Start(tag) => spec_start_tag(st, tag),
        MarkupEvent::End(tag) => spec_end_tag(st, tag),
        MarkupEvent::Text(t) => spec_write(st.0, st.1, t@),
        MarkupEvent::Code(t) => {
            let st1 = spec_write(
                st.0,
                st.1,
                seq![
                    '[' as u8,
                    'c' as u8,
                    '=' as u8,
                    'i' as u8,
                    'n' as u8,
                    'l' as u8,
                    'i' as u8,
                    'n' as u8,
                    'e' as u8,
                    ']' as u8,
                ],
            );
            let st2 = spec_write(st1.0, st1.1, t@);
            spec_write(st2.0, st2.1, seq!['[' as u8, '/' as u8, 'c' as u8, ']' as u8])
        },
        MarkupEvent::SoftBreak => spec_write(st.0, st.1, seq![10u8]),
        MarkupEvent::HardBreak => spec_write(st.0, st.1, seq![10u8, 10u8]),
        MarkupEvent::Rule => spec_write(
            st.0,
            st.1,
            seq!['[' as u8, 'h' as u8, 'r' as u8, ']' as u8, 10u8],
        ),
    }
}

/// The whole event sequence from index `i` on, folded over the state.
pub open spec fn spec_emit_events(evs: Seq<MarkupEvent>, i: int, st: (Seq<u8>, bool)) -> (
    Seq<u8>,
    bool,
)
    decreases evs.len() - i,
{
    if i < 0 || i >= evs.len() {
        st
    } else {
        spec_emit_events(evs, i + 1, spec_emit_event(st, evs[i]))
    }
}

/// The BBCode text of a whole event sequence, emitted from a fresh line.
pub open spec fn spec_bbcode_of(evs: Seq<MarkupEvent>) -> Seq<u8> {
    spec_emit_events(evs, 0, (Seq::empty(), true)).0
}

/// The incremental BBCode emitter: the output so far and the line-start
/// flag, which drives the two decisions that need it — a line break before
/// an item marker, and the closing line breaks of block constructs.
pub struct BBCode {
    pub out: Vec<u8>,
    pub at_newline: bool,
}

impl BBCode {
    /// The emitter's state as the specification's pair.
    pub open spec fn st(&self) -> (Seq<u8>, bool) {
        (self.out@, self.at_newline)
    }

    pub fn new() -> (r: Self)
        ensures
            r.st() == (Seq::<u8>::empty(), true),
    {
        let r = BBCode { out: Vec::new(), at_newline: true };
        proof {
            assert(r.out@ =~= Seq::<u8>::empty());
        }
        r
    }

    fn write(&mut self, w: &Vec<u8>)
        ensures
            final(self).st() == spec_write(old(self).st().0, old(self).st().1, w@),
    {
        self.out.extend_from_slice(w.as_slice());
        if w.len() > 0 {
            self.at_newline = w[w.len() - 1] == 10;
        } else {
            self.at_newline = false;
        }
    }

    fn ensure_newline(&mut self)
        ensures
            final(self).st() == spec_ensure_nl(old(self).st().0, old(self).st().1),
    {
        if !self.at_newline {
            let nl: Vec<u8> = vec![10u8];
            assert(nl@ =~= seq![10u8]);
            self.write(&nl);
        }
    }

    fn start_tag(&mut self, tag: &MdTag)
        ensures
            final(self).st() == spec_start_tag(old(self).st(), *tag),
    {
        match tag {
            MdTag::Paragraph => {},
            MdTag::Heading => {
                let w: Vec<u8> = vec!['[' as u8, 'b' as u8, 'i' as u8, 'g' as u8, ']' as u8];
                assert(w@ =~= seq!['[' as u8, 'b' as u8, 'i' as u8, 'g' as u8, ']' as u8]);
                self.write(&w);
            },
            MdTag::BlockQuote => {
                let w: Vec<u8> = vec![
                    '[' as u8,
                    'q' as u8,
                    'u' as u8,
                    'o' as u8,
                    't' as u8,
                    'e' as u8,
                    ']' as u8,
                    10u8,
                ];
                assert(w@ =~= seq![
                    '[' as u8,
                    'q' as u8,
                    'u' as u8,
                    'o' as u8,
                    't' as u8,
                    'e' as u8,
                    ']' as u8,
                    10u8,
                ]);
                self.write(&w);
            },
            MdTag::CodeBlock(info) => {
                let mut w: Vec<u8> = vec![
                    '[' as u8,
                    'c' as u8,
                    'o' as u8,
                    'd' as u8,
                    'e' as u8,
                    '=' as u8,
                ];
                let lang = fence_lang(info);
                w.extend_from_slice(lang.as_slice());
                w.push(']' as u8);
                w.push(10u8);
                assert(w@ =~= seq!['[' as u8, 'c' as u8, 'o' as u8, 'd' as u8, 'e' as u8, '=' as u8]
                    + spec_fence_lang(*info) + seq![']' as u8, 10u8]);
                self.write(&w);
            },
            MdTag::List(opt) => match opt {
                Some(start) => {
                    if *start == 1u64 {
                        let w: Vec<u8> = vec![
                            '[' as u8,
                            'l' as u8,
                            'i' as u8,
                            's' as u8,
                            't' as u8,
                            ' ' as u8,
                            't' as u8,
                            'y' as u8,
                            'p' as u8,
                            'e' as u8,
                            '=' as u8,
                            '"' as u8,
                            '1' as u8,
                            '"' as u8,
                            ']' as u8,
                            10u8,
                        ];
                        assert(w@ =~= seq![
                            '[' as u8,
                            'l' as u8,
                            'i' as u8,
                            's' as u8,
                            't' as u8,
                            ' ' as u8,
                            't' as u8,
                            'y' as u8,
                            'p' as u8,
                            'e' as u8,
                            '=' as u8,
                            '"' as u8,
                            '1' as u8,
                            '"' as u8,
                            ']' as u8,
                            10u8,
                        ]);
                        self.write(&w);
                    } else {
                        let mut w: Vec<u8> = vec![
                            '[' as u8,
                            'l' as u8,
                            'i' as u8,
                            's' as u8,
                            't' as u8,
                            ' ' as u8,
                            's' as u8,
                            't' as u8,
                            'a' as u8,
                            'r' as u8,
                            't' as u8,
                            '=' as u8,
                            '"' as u8,
                        ];
                        let digits = udec_u64(*start);
                        w.extend_from_slice(digits.as_slice());
                        w.push('"' as u8);
                        w.push(']' as u8);
                        w.push(10u8);
                        assert(w@ =~= seq![
                            '[' as u8,
                            'l' as u8,
                            'i' as u8,
                            's' as u8,
                            't' as u8,
                            ' ' as u8,
                            's' as u8,
                            't' as u8,
                            'a' as u8,
                            'r' as u8,
                            't' as u8,
                            '=' as u8,
                            '"' as u8,
                        ] + spec_udec(*start as nat) + seq!['"' as u8, ']' as u8, 10u8]);
                        self.write(&w);
                    }
                },
                None => {
                    let w: Vec<u8> = vec![
                        '[' as u8,
                        'l' as u8,
                        'i' as u8,
                        's' as u8,
                        't' as u8,
                        ']' as u8,
                        10u8,
                    ];
                    assert(w@ =~= seq![
                        '[' as u8,
                        'l' as u8,
                        'i' as u8,
                        's' as u8,
                        't' as u8,
                        ']' as u8,
                        10u8,
                    ]);
                    self.write(&w);
                },
            },
            MdTag::Item => {
                self.ensure_newline();
                let w: Vec<u8> = vec!['[' as u8, '*' as u8, ']' as u8];
                assert(w@ =~= seq!['[' as u8, '*' as u8, ']' as u8]);
                self.write(&w);
            },
            MdTag::Emphasis => {
                let w: Vec<u8> = vec!['[' as u8, 'c' as u8, 'u' as u8, 'r' as u8, ']' as u8];
                assert(w@ =~= seq!['[' as u8, 'c' as u8, 'u' as u8, 'r' as u8, ']' as u8]);
                self.write(&w);
            },
            MdTag::Strong => {
                let w: Vec<u8> = vec!['[' as u8, 'b' as u8, ']' as u8];
                assert(w@ =~= seq!['[' as u8, 'b' as u8, ']' as u8]);
                self.write(&w);
            },
            MdTag::Strikethrough => {
                let w: Vec<u8> = vec!['[' as u8, 'd' as u8, 'e' as u8, 'l' as u8, ']' as u8];
                assert(w@ =~= seq!['[' as u8, 'd' as u8, 'e' as u8, 'l' as u8, ']' as u8]);
                self.write(&w);
            },
            MdTag::Link(dest) => {
                let mut w: Vec<u8> = vec!['[' as u8, 'u' as u8, 'r' as u8, 'l' as u8, '=' as u8];
                w.extend_from_slice(dest.as_slice());
                w.push(']' as u8);
                assert(w@ =~= seq!['[' as u8, 'u' as u8, 'r' as u8, 'l' as u8, '=' as u8] + dest@
                    + seq![']' as u8]);
                self.write(&w);
            },
            MdTag::Image(dest) => {
                let mut w: Vec<u8> = vec!['[' as u8, 'i' as u8, 'm' as u8, 'g' as u8, ']' as u8];
                w.extend_from_slice(dest.as_slice());
                w.push('[' as u8);
                w.push('/' as u8);
                w.push('i' as u8);
                w.push('m' as u8);
                w.push('g' as u8);
                w.push(']' as u8);
                assert(w@ =~= seq!['[' as u8, 'i' as u8, 'm' as u8, 'g' as u8, ']' as u8] + dest@
                    + seq!['[' as u8, '/' as u8, 'i' as u8, 'm' as u8, 'g' as u8, ']' as u8]);
                self.write(&w);
            },
        }
    }

    fn end_tag(&mut self, tag: &MdTag)
        ensures
            final(self).st() == spec_end_tag(old(self).st(), *tag),
    {
        match tag {
            MdTag::Paragraph => {
                let w: Vec<u8> = vec![10u8, 10u8];
                assert(w@ =~= seq![10u8, 10u8]);
                self.write(&w);
            },
            MdTag::Heading => {
                let w: Vec<u8> = vec![
                    '[' as u8,
                    '/' as u8,
                    'b' as u8,
                    'i' as u8,
                    'g' as u8,
                    ']' as u8,
                    10u8,
                    10u8,
                ];
                assert(w@ =~= seq![
                    '[' as u8,
                    '/' as u8,
                    'b' as u8,
                    'i' as u8,
                    'g' as u8,
                    ']' as u8,
                    10u8,
                    10u8,
                ]);
                self.write(&w);
            },
            MdTag::BlockQuote => {
                let w: Vec<u8> = vec![
                    '[' as u8,
                    '/' as u8,
                    'q' as u8,
                    'u' as u8,
                    'o' as u8,
                    't' as u8,
                    'e' as u8,
                    ']' as u8,
                    10u8,
                ];
                assert(w@ =~= seq![
                    '[' as u8,
                    '/' as u8,
                    'q' as u8,
                    'u' as u8,
                    'o' as u8,
                    't' as u8,
                    'e' as u8,
                    ']' as u8,
                    10u8,
                ]);
                self.write(&w);
            },
            MdTag::CodeBlock(_) => {
                self.ensure_newline();
                let w: Vec<u8> = vec![
                    '[' as u8,
                    '/' as u8,
                    'c' as u8,
                    'o' as u8,
                    'd' as u8,
                    'e' as u8,
                    ']' as u8,
                    10u8,
                ];
                assert(w@ =~= seq![
                    '[' as u8,
                    '/' as u8,
                    'c' as u8,
                    'o' as u8,
                    'd' as u8,
                    'e' as u8,
                    ']' as u8,
                    10u8,
                ]);
                self.write(&w);
            },
            MdTag::List(_) => {
                self.ensure_newline();
                let w: Vec<u8> = vec![
                    '[' as u8,
                    '/' as u8,
                    'l' as u8,
                    'i' as u8,
                    's' as u8,
                    't' as u8,
                    ']' as u8,
                    10u8,
                ];
                assert(w@ =~= seq![
                    '[' as u8,
                    '/' as u8,
                    'l' as u8,
                    'i' as u8,
                    's' as u8,
                    't' as u8,
                    ']' as u8,
                    10u8,
                ]);
                self.write(&w);
            },
            MdTag::Item => {},
            MdTag::Emphasis => {
                let w: Vec<u8> = vec![
                    '[' as u8,
                    '/' as u8,
                    'c' as u8,
                    'u' as u8,
                    'r' as u8,
                    ']' as u8,
                ];
                assert(w@ =~= seq!['[' as u8, '/' as u8, 'c' as u8, 'u' as u8, 'r' as u8, ']' as u8]);
                self.write(&w);
            },
            MdTag::Strong => {
                let w: Vec<u8> = vec!['[' as u8, '/' as u8, 'b' as u8, ']' as u8];
                assert(w@ =~= seq!['[' as u8, '/' as u8, 'b' as u8, ']' as u8]);
                self.write(&w);
            },
            MdTag::Strikethrough => {
                let w: Vec<u8> = vec![
                    '[' as u8,
                    '/' as u8,
                    'd' as u8,
                    'e' as u8,
                    'l' as u8,
                    ']' as u8,
                ];
                assert(w@ =~= seq!['[' as u8, '/' as u8, 'd' as u8, 'e' as u8, 'l' as u8, ']' as u8]);
                self.write(&w);
            },
            MdTag::Link(_) => {
                let w: Vec<u8> = vec![
                    '[' as u8,
                    '/' as u8,
                    'u' as u8,
                    'r' as u8,
                    'l' as u8,
                    ']' as u8,
                ];
                assert(w@ =~= seq!['[' as u8, '/' as u8, 'u' as u8, 'r' as u8, 'l' as u8, ']' as u8]);
                self.write(&w);
            },
            MdTag::Image(_) => {},
        }
    }

    fn event(&mut self, ev: &MarkupEvent)
        ensures
            final(self).st() == spec_emit_event(old(self).st(), *ev),
    {
        match ev {
            MarkupEvent::Start(tag) => self.start_tag(tag),
            MarkupEvent::End(tag) => self.end_tag(tag),
            MarkupEvent::Text(t) => self.write(t),
            MarkupEvent::Code(t) => {
                let open: Vec<u8> = vec![
                    '[' as u8,
                    'c' as u8,
                    '=' as u8,
                    'i' as u8,
                    'n' as u8,
                    'l' as u8,
                    'i' as u8,
                    'n' as u8,
                    'e' as u8,
                    ']' as u8,
                ];
                assert(open@ =~= seq![
                    '[' as u8,
                    'c' as u8,
                    '=' as u8,
                    'i' as u8,
                    'n' as u8,
                    'l' as u8,
                    'i' as u8,
                    'n' as u8,
                    'e' as u8,
                    ']' as u8,
                ]);
                self.write(&open);
                self.write(t);
                let close: Vec<u8> = vec!['[' as u8, '/' as u8, 'c' as u8, ']' as u8];
                assert(close@ =~= seq!['[' as u8, '/' as u8, 'c' as u8, ']' as u8]);
                self.write(&close);
            },
            MarkupEvent::SoftBreak => {
                let w: Vec<u8> = vec![10u8];
                assert(w@ =~= seq![10u8]);
                self.write(&w);
            },
            MarkupEvent::HardBreak => {
                let w: Vec<u8> = vec![10u8, 10u8];
                assert(w@ =~= seq![10u8, 10u8]);
                self.write(&w);
            },
            MarkupEvent::Rule => {
                let w: Vec<u8> = vec!['[' as u8, 'h' as u8, 'r' as u8, ']' as u8, 10u8];
                assert(w@ =~= seq!['[' as u8, 'h' as u8, 'r' as u8, ']' as u8, 10u8]);
                self.write(&w);
            },
        }
    }

    /// Consume the whole event sequence once, in order, writing each
    /// fragment as it is produced.
    pub fn run(&mut self, events: &Vec<MarkupEvent>)
        ensures
            final(self).st() == spec_emit_events(events@, 0, old(self).st()),
    {
        let mut i: usize = 0;
        while i < events.len()
            invariant
                i <= events.len(),
                spec_emit_events(events@, 0, old(self).st()) == spec_emit_events(
                    events@,
                    i as int,
                    self.st(),
                ),
            decreases events.len() - i,
        {
            let ev = &events[i];
            self.event(ev);
            i += 1;
        }
    }

    /// The finished output.
    pub fn into_bytes(self) -> (r: Vec<u8>)
        ensures
            r@ == self.out@,
    {
        self.out
    }
}

/// The BBCode bytes of a whole event sequence.
pub fn bbcode_of_events(events: &Vec<MarkupEvent>) -> (r: Vec<u8>)
    ensures
        r@ == spec_bbcode_of(events@),
{
    let mut emitter = BBCode::new();
    emitter.run(events);
    emitter.into_bytes()
}

/// The language token an exec caller needs for a code fence.
fn fence_lang(info: &Option<Vec<u8>>) -> (r: Vec<u8>)
    ensures
        r@ == spec_fence_lang(*info),
{
    let fallback: Vec<u8> = vec!['c' as u8, 'o' as u8, 'd' as u8, 'e' as u8];
    assert(fallback@ =~= seq!['c' as u8, 'o' as u8, 'd' as u8, 'e' as u8]);
    match info {
        None => fallback,
        Some(inf) => {
            let tok = match find_byte(inf, 0, 32) {
                Some(j) => {
                    proof {
                        lemma_find_byte_props(inf@, 0, 32);
                    }
                    subvec(inf, 0, j)
                },
                None => subvec(inf, 0, inf.len()),
            };
            assert(inf@.subrange(0, inf@.len() as int) =~= inf@);
            if tok.len() == 0 {
                fallback
            } else {
                tok
            }
        },
    }
}


/// One event only appends: the output before the event is a prefix of the
/// output after it.
pub proof fn lemma_emit_event_prefix(st: (Seq<u8>, bool), ev: MarkupEvent)
    ensures
        spec_emit_event(st, ev).0.len() >= st.0.len(),
        spec_emit_event(st, ev).0.subrange(0, st.0.len() as int) == st.0,
{
    assert(spec_emit_event(st, ev).0.subrange(0, st.0.len() as int) =~= st.0);
}

/// The whole fold only appends: the output in any intermediate state is a
/// prefix of the finished output.
pub proof fn lemma_emit_events_prefix(evs: Seq<MarkupEvent>, i: int, st: (Seq<u8>, bool))
    ensures
        spec_emit_events(evs, i, st).0.len() >= st.0.len(),
        spec_emit_events(evs, i, st).0.subrange(0, st.0.len() as int) == st.0,
    decreases evs.len() - i,
{
    if i < 0 || i >= evs.len() {
        assert(spec_emit_events(evs, i, st).0.subrange(0, st.0.len() as int) =~= st.0);
    } else {
        let st1 = spec_emit_event(st, evs[i]);
        lemma_emit_event_prefix(st, evs[i]);
        lemma_emit_events_prefix(evs, i + 1, st1);
        assert(spec_emit_events(evs, i, st).0.subrange(0, st.0.len() as int) =~= st.0);
    }
}

/// Render a parsed Markdown document to BBCode, handing the sink each
/// event's fragment as it is produced: nothing is buffered beyond the
/// fragment being formatted, so a mid-stream failure leaves the sink with a
/// prefix of the rendering and aborts the rest. The encoding error names a
/// fragment that could not be read back as text.
pub fn stream_bbcode<W: WriteFmt>(writer: &mut W, events: &Vec<MarkupEvent>) -> (r: Result<
    (),
    ConversionError,
>)
    ensures
        r is Ok ==> final(writer).sunk() == old(writer).sunk() + spec_bbcode_of(events@),
        r is Err ==> exists|k: int|
            0 <= k <= spec_bbcode_of(events@).len() && final(writer).sunk() == old(writer).sunk()
                + #[trigger] spec_bbcode_of(events@).subrange(0, k),
{
    let ghost sunk0 = writer.sunk();
    let ghost full = spec_bbcode_of(events@);
    let mut em = BBCode::new();
    let mut i: usize = 0;
    while i < events.len()
        invariant
            i <= events.len(),
            spec_emit_events(events@, 0, (Seq::<u8>::empty(), true)) == spec_emit_events(
                events@,
                i as int,
                em.st(),
            ),
            full == spec_bbcode_of(events@),
            writer.sunk() == sunk0 + em.out@,
            sunk0 == old(writer).sunk(),
        decreases events.len() - i,
    {
        let ghost st0 = em.st();
        let sent = em.out.len();
        em.event(&events[i]);
        proof {
            lemma_emit_event_prefix(st0, events@[i as int]);
        }
        i += 1;
        proof {
            lemma_emit_events_prefix(events@, i as int, em.st());
            assert(em.out@.subrange(0, sent as int) =~= full.subrange(0, sent as int));
        }
        if sent < em.out.len() {
            let frag = subvec(&em.out, sent, em.out.len());
            match bytes_to_string(frag) {
                Some(sfrag) => {
                    match writer.write_str(sfrag.as_str()) {
                        Ok(()) => {
                            assert(writer.sunk() =~= sunk0 + em.out@);
                        },
                        Err(_) => {
                            assert(writer.sunk() == sunk0 + full.subrange(0, sent as int));
                            return Err(ConversionError::Sink);
                        },
                    }
                },
                None => {
                    assert(writer.sunk() == sunk0 + full.subrange(0, sent as int));
                    return Err(ConversionError::Encoding);
                },
            }
        }
    }
    proof {
        assert(em.out@ =~= full);
        assert(writer.sunk() =~= sunk0 + full);
    }
    Ok(())
}

/// Render a parsed Markdown document, given as its event sequence, to BBCode
/// and hand the whole text to the sink in one write. The encoding error
/// comes exactly when the rendering is not valid UTF-8; otherwise only the
/// sink can refuse, and a failed conversion leaves the sink's completed
/// writes unchanged. `stream_bbcode` is the fragment-wise delivery.
pub fn write_bbcode<W: WriteFmt>(writer: &mut W, events: &Vec<MarkupEvent>) -> (r: Result<
    (),
    ConversionError,
>)
    ensures
        r is Ok ==> final(writer).sunk() == old(writer).sunk() + spec_bbcode_of(events@),
        r is Err ==> final(writer).sunk() == old(writer).sunk(),
        (r == Err::<(), ConversionError>(ConversionError::Encoding)) == !valid_utf8(
            spec_bbcode_of(events@),
        ),
{
    let bytes = bbcode_of_events(events);
    match bytes_to_string(bytes) {
        Some(s) => writer.write_str(s.as_str()),
        None => Err(ConversionError::Encoding),
    }
}

} // verus!
