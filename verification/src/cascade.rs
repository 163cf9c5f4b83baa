use vstd::prelude::*;
use crate::text::{
    spec_match_ci_at, match_ci_at, spec_match_at, match_at, subvec, spec_skip_st, skip_st,
    spec_is_ws, is_ws, spec_find_byte, find_byte, lemma_find_byte_props,
};
use crate::listhead::{ListType, ListHead, spec_list_head, list_head};
use crate::numbering::{NumberingStyle, spec_label, spec_next_cursor};

verus! {

/// First position at or after `j` where one of the two close delimiters
/// stands (compared case-insensitively); the result carries the length of
/// the delimiter found. Outside dot-all mode the search gives up at a line
/// feed, since an inline pattern may not cross a line.
pub open spec fn spec_find_close(
    s: Seq<u8>,
    j: int,
    c1: Seq<u8>,
    c2: Seq<u8>,
    dotall: bool,
) -> Option<(int, int)>
    decreases s.len() - j,
{
    if j < 0 || j >= s.len() {
        None
    } else if spec_match_ci_at(s, j, c1) {
        Some((j, c1.len() as int))
    } else if spec_match_ci_at(s, j, c2) {
        Some((j, c2.len() as int))
    } else if !dotall && s[j] == 10 {
        None
    } else {
        spec_find_close(s, j + 1, c1, c2, dotall)
    }
}

pub proof fn lemma_find_close_props(s: Seq<u8>, j: int, c1: Seq<u8>, c2: Seq<u8>, dotall: bool)
    ensures
        match spec_find_close(s, j, c1, c2, dotall) {
            Some((p, cl)) => j <= p && p < s.len() && (cl == c1.len() || cl == c2.len()) && p + cl
                <= s.len(),
            None => true,
        },
    decreases s.len() - j,
{
    if j < 0 || j >= s.len() {
    } else if spec_match_ci_at(s, j, c1) {
    } else if spec_match_ci_at(s, j, c2) {
    } else if !dotall && s[j] == 10 {
    } else {
        lemma_find_close_props(s, j + 1, c1, c2, dotall);
    }
}

pub fn find_close(s: &Vec<u8>, j: usize, c1: &Vec<u8>, c2: &Vec<u8>, dotall: bool) -> (r: Option<
    (usize, usize),
>)
    ensures
        match r {
            Some((p, cl)) => spec_find_close(s@, j as int, c1@, c2@, dotall) == Some(
                (p as int, cl as int),
            ),
            None => spec_find_close(s@, j as int, c1@, c2@, dotall) is None,
        },
{
    let mut k: usize = j;
    while k < s.len()
        invariant
            j <= k,
            spec_find_close(s@, j as int, c1@, c2@, dotall) == spec_find_close(
                s@,
                k as int,
                c1@,
                c2@,
                dotall,
            ),
        decreases s.len() - k,
    {
        if match_ci_at(s, k, c1) {
            return Some((k, c1.len()));
        }
        if match_ci_at(s, k, c2) {
            return Some((k, c2.len()));
        }
        if !dotall && s[k] == 10 {
            return None;
        }
        k += 1;
    }
    None
}

/// A simple tag pair matched at position `i`: one of the open delimiters,
/// then a shortest non-empty enclosed run, then the earliest close
/// delimiter. The result is the position just past the close delimiter and
/// the enclosed run.
pub open spec fn spec_simple_at(
    s: Seq<u8>,
    i: int,
    o1: Seq<u8>,
    o2: Seq<u8>,
    c1: Seq<u8>,
    c2: Seq<u8>,
    dotall: bool,
) -> Option<(int, Seq<u8>)> {
    let ol = if spec_match_ci_at(s, i, o1) {
        o1.len() as int
    } else if spec_match_ci_at(s, i, o2) {
        o2.len() as int
    } else {
        -1
    };
    if ol < 0 {
        None
    } else {
        let st = i + ol;
        if !dotall && st < s.len() && s[st] == 10 {
            None
        } else {
            match spec_find_close(s, st + 1, c1, c2, dotall) {
                Some((p, cl)) => Some((p + cl, s.subrange(st, p))),
                None => None,
            }
        }
    }
}

/// Every simple tag pair in `s` from position `i` on rewritten to
/// `pre + enclosed + post`; all other bytes are kept as they stand.
/// Rewriting continues after each replacement, so produced text is never
/// matched again.
pub open spec fn spec_apply_simple(
    s: Seq<u8>,
    i: int,
    o1: Seq<u8>,
    o2: Seq<u8>,
    c1: Seq<u8>,
    c2: Seq<u8>,
    dotall: bool,
    pre: Seq<u8>,
    post: Seq<u8>,
) -> Seq<u8>
    decreases s.len() - i,
{
    if i < 0 || i >= s.len() {
        seq![]
    } else {
        match spec_simple_at(s, i, o1, o2, c1, c2, dotall) {
            Some((end, g)) => if i < end <= s.len() {
                pre + g + post + spec_apply_simple(s, end, o1, o2, c1, c2, dotall, pre, post)
            } else {
                seq![]
            },
            None => seq![s[i]] + spec_apply_simple(s, i + 1, o1, o2, c1, c2, dotall, pre, post),
        }
    }
}

fn simple_at(
    s: &Vec<u8>,
    i: usize,
    o1: &Vec<u8>,
    o2: &Vec<u8>,
    c1: &Vec<u8>,
    c2: &Vec<u8>,
    dotall: bool,
) -> (r: Option<(usize, Vec<u8>)>)
    requires
        i < s.len(),
    ensures
        match r {
            Some((end, g)) => spec_simple_at(s@, i as int, o1@, o2@, c1@, c2@, dotall) == Some(
                (end as int, g@),
            ) && i < end <= s.len(),
            None => spec_simple_at(s@, i as int, o1@, o2@, c1@, c2@, dotall) is None,
        },
{
    let ol: usize = if match_ci_at(s, i, o1) {
        o1.len()
    } else if match_ci_at(s, i, o2) {
        o2.len()
    } else {
        return None;
    };
    let st = i + ol;
    if !dotall && st < s.len() && s[st] == 10 {
        return None;
    }
    if st >= s.len() {
        return None;
    }
    match find_close(s, st + 1, c1, c2, dotall) {
        Some((p, cl)) => {
            proof {
                lemma_find_close_props(s@, st + 1, c1@, c2@, dotall);
            }
            let g = subvec(s, st, p);
            Some((p + cl, g))
        },
        None => None,
    }
}

pub fn apply_simple(
    s: &Vec<u8>,
    o1: &Vec<u8>,
    o2: &Vec<u8>,
    c1: &Vec<u8>,
    c2: &Vec<u8>,
    dotall: bool,
    pre: &Vec<u8>,
    post: &Vec<u8>,
) -> (r: Vec<u8>)
    ensures
        r@ == spec_apply_simple(s@, 0, o1@, o2@, c1@, c2@, dotall, pre@, post@),
{
    let mut out: Vec<u8> = Vec::new();
    let mut i: usize = 0;
    while i < s.len()
        invariant
            i <= s.len(),
            spec_apply_simple(s@, 0, o1@, o2@, c1@, c2@, dotall, pre@, post@) =~= out@
                + spec_apply_simple(s@, i as int, o1@, o2@, c1@, c2@, dotall, pre@, post@),
        decreases s.len() - i,
    {
        match simple_at(s, i, o1, o2, c1, c2, dotall) {
            Some((end, g)) => {
                out.extend_from_slice(pre.as_slice());
                out.extend_from_slice(g.as_slice());
                out.extend_from_slice(post.as_slice());
                i = end;
            },
            None => {
                out.push(s[i]);
                i += 1;
            },
        }
    }
    out
}

/// The lines of `s` from position `i` on: split at line feeds, a carriage
/// return before a line feed dropped, a final line ending optional.
pub open spec fn spec_lines_from(s: Seq<u8>, i: int) -> Seq<Seq<u8>>
    decreases s.len() - i,
{
    if i < 0 || i >= s.len() {
        seq![]
    } else {
        match crate::text::spec_find_byte(s, i, 10) {
            Some(j) => if i <= j < s.len() {
                let line = if j > i && s[j - 1] == 13 {
                    s.subrange(i, j - 1)
                } else {
                    s.subrange(i, j)
                };
                seq![line] + spec_lines_from(s, j + 1)
            } else {
                seq![]
            },
            None => seq![s.subrange(i, s.len() as int)],
        }
    }
}

/// The lines each prefixed with `> `, joined with line feeds.
pub open spec fn spec_join_quoted(ls: Seq<Seq<u8>>, not_first: bool) -> Seq<u8>
    decreases ls.len(),
{
    if ls.len() == 0 {
        seq![]
    } else {
        (if not_first {
            seq![10u8]
        } else {
            seq![]
        }) + seq![62u8, 32u8] + ls[0] + spec_join_quoted(ls.skip(1), true)
    }
}

/// Markdown form of a quote block's content.
pub open spec fn spec_quote_block(g: Seq<u8>) -> Seq<u8> {
    spec_join_quoted(spec_lines_from(g, 0), false)
}

pub fn quote_transform(g: &Vec<u8>) -> (r: Vec<u8>)
    ensures
        r@ == spec_quote_block(g@),
{
    let mut out: Vec<u8> = Vec::new();
    let mut i: usize = 0;
    let mut not_first = false;
    while i < g.len()
        invariant
            i <= g.len(),
            spec_quote_block(g@) =~= out@ + spec_join_quoted(
                spec_lines_from(g@, i as int),
                not_first,
            ),
        decreases g.len() - i,
    {
        proof {
            crate::text::lemma_find_byte_props(g@, i as int, 10);
        }
        if not_first {
            out.push(10u8);
        }
        out.push(62u8);
        out.push(32u8);
        match crate::text::find_byte(g, i, 10) {
            Some(j) => {
                let line_end = if j > i && g[j - 1] == 13 {
                    j - 1
                } else {
                    j
                };
                let line = subvec(g, i, line_end);
                out.extend_from_slice(line.as_slice());
                assert(spec_lines_from(g@, i as int).skip(1) =~= spec_lines_from(g@, j + 1));
                i = j + 1;
            },
            None => {
                let line = subvec(g, i, g.len());
                out.extend_from_slice(line.as_slice());
                assert(spec_lines_from(g@, i as int).skip(1) =~= Seq::<Seq<u8>>::empty());
                i = g.len();
            },
        }
        not_first = true;
    }
    out
}

/// Every `[quote]…[/quote]` block rewritten to its quoted Markdown form.
pub open spec fn spec_apply_quote(s: Seq<u8>, i: int) -> Seq<u8>
    decreases s.len() - i,
{
    let o = seq!['[' as u8, 'q' as u8, 'u' as u8, 'o' as u8, 't' as u8, 'e' as u8, ']' as u8];
    let c = seq![
        '[' as u8,
        '/' as u8,
        'q' as u8,
        'u' as u8,
        'o' as u8,
        't' as u8,
        'e' as u8,
        ']' as u8,
    ];
    if i < 0 || i >= s.len() {
        seq![]
    } else {
        match spec_simple_at(s, i, o, o, c, c, true) {
            Some((end, g)) => if i < end <= s.len() {
                spec_quote_block(g) + spec_apply_quote(s, end)
            } else {
                seq![]
            },
            None => seq![s[i]] + spec_apply_quote(s, i + 1),
        }
    }
}

pub fn apply_quote(s: &Vec<u8>) -> (r: Vec<u8>)
    ensures
        r@ == spec_apply_quote(s@, 0),
{
    let o: Vec<u8> = vec![
        '[' as u8,
        'q' as u8,
        'u' as u8,
        'o' as u8,
        't' as u8,
        'e' as u8,
        ']' as u8,
    ];
    let c: Vec<u8> = vec![
        '[' as u8,
        '/' as u8,
        'q' as u8,
        'u' as u8,
        'o' as u8,
        't' as u8,
        'e' as u8,
        ']' as u8,
    ];
    let mut out: Vec<u8> = Vec::new();
    let mut i: usize = 0;
    while i < s.len()
        invariant
            i <= s.len(),
            o@ == seq![
                '[' as u8,
                'q' as u8,
                'u' as u8,
                'o' as u8,
                't' as u8,
                'e' as u8,
                ']' as u8,
            ],
            c@ == seq![
                '[' as u8,
                '/' as u8,
                'q' as u8,
                'u' as u8,
                'o' as u8,
                't' as u8,
                'e' as u8,
                ']' as u8,
            ],
            spec_apply_quote(s@, 0) =~= out@ + spec_apply_quote(s@, i as int),
        decreases s.len() - i,
    {
        match simple_at(s, i, &o, &o, &c, &c, true) {
            Some((end, g)) => {
                let q = quote_transform(&g);
                out.extend_from_slice(q.as_slice());
                i = end;
            },
            None => {
                out.push(s[i]);
                i += 1;
            },
        }
    }
    out
}

/// End of a link destination: the earliest `"]` pair or lone `]`, with no
/// line feed before it. The second component tells how many bytes the
/// delimiter itself takes.
pub open spec fn spec_find_url_end(s: Seq<u8>, j: int) -> Option<(int, int)>
    decreases s.len() - j,
{
    if j < 0 || j >= s.len() {
        None
    } else if s[j] == 34 && j + 1 < s.len() && s[j + 1] == 93 {
        Some((j, 2))
    } else if s[j] == 93 {
        Some((j, 1))
    } else if s[j] == 10 {
        None
    } else {
        spec_find_url_end(s, j + 1)
    }
}

pub proof fn lemma_find_url_end_props(s: Seq<u8>, j: int)
    ensures
        match spec_find_url_end(s, j) {
            Some((p, cl)) => j <= p && p < s.len() && 1 <= cl <= 2 && p + cl <= s.len(),
            None => true,
        },
    decreases s.len() - j,
{
    if j < 0 || j >= s.len() {
    } else if s[j] == 34 && j + 1 < s.len() && s[j + 1] == 93 {
    } else if s[j] == 93 {
    } else if s[j] == 10 {
    } else {
        lemma_find_url_end_props(s, j + 1);
    }
}

pub fn find_url_end(s: &Vec<u8>, j: usize) -> (r: Option<(usize, usize)>)
    ensures
        match r {
            Some((p, cl)) => spec_find_url_end(s@, j as int) == Some((p as int, cl as int)),
            None => spec_find_url_end(s@, j as int) is None,
        },
{
    let mut k: usize = j;
    while k < s.len()
        invariant
            j <= k,
            spec_find_url_end(s@, j as int) == spec_find_url_end(s@, k as int),
        decreases s.len() - k,
    {
        if s[k] == 34 && k + 1 < s.len() && s[k + 1] == 93 {
            return Some((k, 2));
        }
        if s[k] == 93 {
            return Some((k, 1));
        }
        if s[k] == 10 {
            return None;
        }
        k += 1;
    }
    None
}

/// A labelled link matched at `i`: `[url=` with an optionally quoted
/// destination, then a non-empty label, then `[/url]`, all on one line.
/// The result carries the position past the match, the destination and the
/// label.
pub open spec fn spec_url_at(s: Seq<u8>, i: int) -> Option<(int, Seq<u8>, Seq<u8>)> {
    let open = seq!['[' as u8, 'u' as u8, 'r' as u8, 'l' as u8, '=' as u8];
    let close = seq!['[' as u8, '/' as u8, 'u' as u8, 'r' as u8, 'l' as u8, ']' as u8];
    if !spec_match_ci_at(s, i, open) {
        None
    } else {
        let st = i + 5;
        let d0 = if st < s.len() && s[st] == 34 {
            st + 1
        } else {
            st
        };
        if d0 >= s.len() || s[d0] == 10 {
            None
        } else {
            match spec_find_url_end(s, d0 + 1) {
                Some((e, cl)) => {
                    let l0 = e + cl;
                    if l0 >= s.len() || s[l0] == 10 {
                        None
                    } else {
                        match spec_find_close(s, l0 + 1, close, close, false) {
                            Some((p, pl)) => Some((p + pl, s.subrange(d0, e), s.subrange(l0, p))),
                            None => None,
                        }
                    }
                },
                None => None,
            }
        }
    }
}

fn url_at(s: &Vec<u8>, i: usize) -> (r: Option<(usize, Vec<u8>, Vec<u8>)>)
    requires
        i < s.len(),
    ensures
        match r {
            Some((end, d, l)) => spec_url_at(s@, i as int) == Some((end as int, d@, l@)) && i < end
                <= s.len(),
            None => spec_url_at(s@, i as int) is None,
        },
{
    let open: Vec<u8> = vec!['[' as u8, 'u' as u8, 'r' as u8, 'l' as u8, '=' as u8];
    let close: Vec<u8> = vec!['[' as u8, '/' as u8, 'u' as u8, 'r' as u8, 'l' as u8, ']' as u8];
    if !match_ci_at(s, i, &open) {
        return None;
    }
    let st = i + 5;
    let d0 = if st < s.len() && s[st] == 34 {
        st + 1
    } else {
        st
    };
    if d0 >= s.len() || s[d0] == 10 {
        return None;
    }
    match find_url_end(s, d0 + 1) {
        Some((e, cl)) => {
            proof {
                lemma_find_url_end_props(s@, d0 + 1);
            }
            let l0 = e + cl;
            if l0 >= s.len() || s[l0] == 10 {
                return None;
            }
            match find_close(s, l0 + 1, &close, &close, false) {
                Some((p, pl)) => {
                    proof {
                        lemma_find_close_props(s@, l0 + 1, close@, close@, false);
                    }
                    let d = subvec(s, d0, e);
                    let l = subvec(s, l0, p);
                    Some((p + pl, d, l))
                },
                None => None,
            }
        },
        None => None,
    }
}

/// Every labelled link rewritten to `[label](dest)`.
pub open spec fn spec_apply_url(s: Seq<u8>, i: int) -> Seq<u8>
    decreases s.len() - i,
{
    if i < 0 || i >= s.len() {
        seq![]
    } else {
        match spec_url_at(s, i) {
            Some((end, d, l)) => if i < end <= s.len() {
                seq!['[' as u8] + l + seq![']' as u8, '(' as u8] + d + seq![')' as u8]
                    + spec_apply_url(s, end)
            } else {
                seq![]
            },
            None => seq![s[i]] + spec_apply_url(s, i + 1),
        }
    }
}

pub fn apply_url(s: &Vec<u8>) -> (r: Vec<u8>)
    ensures
        r@ == spec_apply_url(s@, 0),
{
    let mut out: Vec<u8> = Vec::new();
    let mut i: usize = 0;
    while i < s.len()
        invariant
            i <= s.len(),
            spec_apply_url(s@, 0) =~= out@ + spec_apply_url(s@, i as int),
        decreases s.len() - i,
    {
        match url_at(s, i) {
            Some((end, d, l)) => {
                out.push('[' as u8);
                out.extend_from_slice(l.as_slice());
                out.push(']' as u8);
                out.push('(' as u8);
                out.extend_from_slice(d.as_slice());
                out.push(')' as u8);
                i = end;
            },
            None => {
                out.push(s[i]);
                i += 1;
            },
        }
    }
    out
}

/// After a heading's close delimiter only spaces and tabs may remain before
/// the end of the line.
pub open spec fn spec_tail_ok(s: Seq<u8>, m: int) -> bool {
    let e = spec_skip_st(s, m);
    e == s.len() || s[e] == 10
}

/// Earliest `[/big]` at or after `j` that is followed by a valid line tail;
/// one that is not is absorbed into the heading text. The search gives up at
/// a line feed.
pub open spec fn spec_find_big_close(s: Seq<u8>, j: int) -> Option<int>
    decreases s.len() - j,
{
    let close = seq!['[' as u8, '/' as u8, 'b' as u8, 'i' as u8, 'g' as u8, ']' as u8];
    if j < 0 || j >= s.len() {
        None
    } else if spec_match_ci_at(s, j, close) && spec_tail_ok(s, j + 6) {
        Some(j)
    } else if s[j] == 10 {
        None
    } else {
        spec_find_big_close(s, j + 1)
    }
}

pub proof fn lemma_find_big_close_props(s: Seq<u8>, j: int)
    ensures
        match spec_find_big_close(s, j) {
            Some(p) => j <= p && p + 6 <= s.len(),
            None => true,
        },
    decreases s.len() - j,
{
    let close = seq!['[' as u8, '/' as u8, 'b' as u8, 'i' as u8, 'g' as u8, ']' as u8];
    if j < 0 || j >= s.len() {
    } else if spec_match_ci_at(s, j, close) && spec_tail_ok(s, j + 6) {
    } else if s[j] == 10 {
    } else {
        lemma_find_big_close_props(s, j + 1);
    }
}

pub fn find_big_close(s: &Vec<u8>, j: usize) -> (r: Option<usize>)
    ensures
        match r {
            Some(p) => spec_find_big_close(s@, j as int) == Some(p as int) && j <= p && p + 6
                <= s.len(),
            None => spec_find_big_close(s@, j as int) is None,
        },
{
    let close: Vec<u8> = vec!['[' as u8, '/' as u8, 'b' as u8, 'i' as u8, 'g' as u8, ']' as u8];
    let mut k: usize = j;
    while k < s.len()
        invariant
            j <= k,
            close@ == seq!['[' as u8, '/' as u8, 'b' as u8, 'i' as u8, 'g' as u8, ']' as u8],
            spec_find_big_close(s@, j as int) == spec_find_big_close(s@, k as int),
        decreases s.len() - k,
    {
        if match_ci_at(s, k, &close) {
            let e = skip_st(s, k + 6);
            if e == s.len() || s[e] == 10 {
                return Some(k);
            }
        }
        if s[k] == 10 {
            return None;
        }
        k += 1;
    }
    None
}

/// A line-anchored heading matched at the line start `i`: optional blanks,
/// `[big]`, the heading text, `[/big]`, optional blanks, then the line end.
/// The result is the position of the line end and the heading text.
pub open spec fn spec_big_at(s: Seq<u8>, i: int) -> Option<(int, Seq<u8>)> {
    let open = seq!['[' as u8, 'b' as u8, 'i' as u8, 'g' as u8, ']' as u8];
    let k = spec_skip_st(s, i);
    if !spec_match_ci_at(s, k, open) {
        None
    } else {
        let st = k + 5;
        if st >= s.len() || s[st] == 10 {
            None
        } else {
            match spec_find_big_close(s, st + 1) {
                Some(p) => Some((spec_skip_st(s, p + 6), s.subrange(st, p))),
                None => None,
            }
        }
    }
}

fn big_at(s: &Vec<u8>, i: usize) -> (r: Option<(usize, Vec<u8>)>)
    requires
        i < s.len(),
    ensures
        match r {
            Some((end, g)) => spec_big_at(s@, i as int) == Some((end as int, g@)) && i < end
                <= s.len(),
            None => spec_big_at(s@, i as int) is None,
        },
{
    let open: Vec<u8> = vec!['[' as u8, 'b' as u8, 'i' as u8, 'g' as u8, ']' as u8];
    let k = skip_st(s, i);
    if !match_ci_at(s, k, &open) {
        return None;
    }
    let st = k + 5;
    if st >= s.len() || s[st] == 10 {
        return None;
    }
    match find_big_close(s, st + 1) {
        Some(p) => {
            let g = subvec(s, st, p);
            let e = skip_st(s, p + 6);
            Some((e, g))
        },
        None => None,
    }
}

/// Every heading line rewritten to `# text`; the flag says whether position
/// `i` is the start of a line.
pub open spec fn spec_apply_big(s: Seq<u8>, i: int, at_ls: bool) -> Seq<u8>
    decreases s.len() - i,
{
    if i < 0 || i >= s.len() {
        seq![]
    } else {
        match spec_big_at(s, i) {
            Some((end, g)) => if at_ls && i < end <= s.len() {
                seq!['#' as u8, ' ' as u8] + g + spec_apply_big(s, end, false)
            } else {
                seq![s[i]] + spec_apply_big(s, i + 1, s[i] == 10)
            },
            None => seq![s[i]] + spec_apply_big(s, i + 1, s[i] == 10),
        }
    }
}

pub fn apply_big(s: &Vec<u8>) -> (r: Vec<u8>)
    ensures
        r@ == spec_apply_big(s@, 0, true),
{
    let mut out: Vec<u8> = Vec::new();
    let mut i: usize = 0;
    let mut at_ls = true;
    while i < s.len()
        invariant
            i <= s.len(),
            spec_apply_big(s@, 0, true) =~= out@ + spec_apply_big(s@, i as int, at_ls),
        decreases s.len() - i,
    {
        let mut stepped = false;
        if at_ls {
            match big_at(s, i) {
                Some((end, g)) => {
                    out.push('#' as u8);
                    out.push(' ' as u8);
                    out.extend_from_slice(g.as_slice());
                    i = end;
                    at_ls = false;
                    stepped = true;
                },
                None => {},
            }
        }
        if !stepped {
            let b = s[i];
            out.push(b);
            at_ls = b == 10;
            i += 1;
        }
    }
    out
}


/// First position at or after `i` whose byte is not whitespace.
pub open spec fn spec_skip_ws(s: Seq<u8>, i: int) -> int
    decreases s.len() - i,
{
    if i < 0 {
        0
    } else if i >= s.len() {
        s.len() as int
    } else if spec_is_ws(s[i]) {
        spec_skip_ws(s, i + 1)
    } else {
        i
    }
}

pub proof fn lemma_skip_ws_props(s: Seq<u8>, i: int)
    requires
        0 <= i <= s.len(),
    ensures
        i <= spec_skip_ws(s, i) <= s.len(),
    decreases s.len() - i,
{
    if i >= s.len() {
    } else if spec_is_ws(s[i]) {
        lemma_skip_ws_props(s, i + 1);
    }
}

pub fn skip_ws(s: &Vec<u8>, i: usize) -> (r: usize)
    requires
        i <= s.len(),
    ensures
        r as int == spec_skip_ws(s@, i as int),
        i <= r <= s.len(),
{
    proof {
        lemma_skip_ws_props(s@, i as int);
    }
    let mut k: usize = i;
    while k < s.len() && is_ws(s[k])
        invariant
            i <= k <= s.len(),
            spec_skip_ws(s@, i as int) == spec_skip_ws(s@, k as int),
        decreases s.len() - k,
    {
        k += 1;
    }
    k
}

/// A list body with every bullet marker and its trailing whitespace
/// replaced by `- `.
pub open spec fn spec_unordered_body(s: Seq<u8>, i: int) -> Seq<u8>
    decreases s.len() - i,
{
    let bullet = seq!['[' as u8, '*' as u8, ']' as u8];
    if i < 0 || i >= s.len() {
        seq![]
    } else if spec_match_at(s, i, bullet) {
        let j = spec_skip_ws(s, i + 3);
        if i < j <= s.len() {
            seq!['-' as u8, ' ' as u8] + spec_unordered_body(s, j)
        } else {
            seq![]
        }
    } else {
        seq![s[i]] + spec_unordered_body(s, i + 1)
    }
}

/// A list body with the bullet markers replaced, in order, by the labels of
/// an ordinal generator pulled once per marker; markers beyond the body's
/// own count are never reached.
pub open spec fn spec_ordered_body(s: Seq<u8>, i: int, style: NumberingStyle, cur: int) -> Seq<u8>
    decreases s.len() - i,
{
    let bullet = seq!['[' as u8, '*' as u8, ']' as u8];
    if i < 0 || i >= s.len() {
        seq![]
    } else if spec_match_at(s, i, bullet) {
        let j = spec_skip_ws(s, i + 3);
        if i < j <= s.len() {
            spec_label(style, cur) + spec_ordered_body(s, j, style, spec_next_cursor(cur))
        } else {
            seq![]
        }
    } else {
        seq![s[i]] + spec_ordered_body(s, i + 1, style, cur)
    }
}

/// The Markdown form of a parsed list: dashes for an unordered head,
/// generated ordinal labels for an ordered one.
pub open spec fn spec_list_markdown(body: Seq<u8>, head: ListHead) -> Seq<u8> {
    match head.ltype {
        ListType::Unordered => spec_unordered_body(body, 0),
        ListType::Ordered(style) => spec_ordered_body(body, 0, style, head.start as int),
    }
}

pub fn list_markdown(body: &Vec<u8>, head: ListHead) -> (r: Vec<u8>)
    ensures
        r@ == spec_list_markdown(body@, head),
{
    let bullet: Vec<u8> = vec!['[' as u8, '*' as u8, ']' as u8];
    let mut out: Vec<u8> = Vec::new();
    let mut i: usize = 0;
    match head.ltype {
        ListType::Unordered => {
            while i < body.len()
                invariant
                    i <= body.len(),
                    bullet@ == seq!['[' as u8, '*' as u8, ']' as u8],
                    spec_unordered_body(body@, 0) =~= out@ + spec_unordered_body(
                        body@,
                        i as int,
                    ),
                decreases body.len() - i,
            {
                if match_at(body, i, &bullet) {
                    let j = skip_ws(body, i + 3);
                    out.push('-' as u8);
                    out.push(' ' as u8);
                    i = j;
                } else {
                    out.push(body[i]);
                    i += 1;
                }
            }
        },
        ListType::Ordered(style) => {
            let mut gen = style.iter_from(head.start);
            while i < body.len()
                invariant
                    i <= body.len(),
                    bullet@ == seq!['[' as u8, '*' as u8, ']' as u8],
                    gen.style == style,
                    spec_ordered_body(body@, 0, style, head.start as int) =~= out@
                        + spec_ordered_body(body@, i as int, style, gen.current as int),
                decreases body.len() - i,
            {
                if match_at(body, i, &bullet) {
                    let j = skip_ws(body, i + 3);
                    let label = gen.next_label();
                    out.extend_from_slice(label.as_slice());
                    i = j;
                } else {
                    out.push(body[i]);
                    i += 1;
                }
            }
        },
    }
    out
}

/// A list block matched at `i`: `[list`, attribute text up to the next `]`,
/// then a non-empty body up to the earliest `[/list]`. The result carries
/// the position past the match, the attribute text and the body.
pub open spec fn spec_list_at(s: Seq<u8>, i: int) -> Option<(int, Seq<u8>, Seq<u8>)> {
    let open = seq!['[' as u8, 'l' as u8, 'i' as u8, 's' as u8, 't' as u8];
    let close = seq![
        '[' as u8,
        '/' as u8,
        'l' as u8,
        'i' as u8,
        's' as u8,
        't' as u8,
        ']' as u8,
    ];
    if !spec_match_ci_at(s, i, open) {
        None
    } else {
        let a0 = i + 5;
        match spec_find_byte(s, a0, 93) {
            Some(ab) => match spec_find_close(s, ab + 2, close, close, true) {
                Some((p, cl)) => Some((p + cl, s.subrange(a0, ab), s.subrange(ab + 1, p))),
                None => None,
            },
            None => None,
        }
    }
}

fn list_at(s: &Vec<u8>, i: usize) -> (r: Option<(usize, Vec<u8>, Vec<u8>)>)
    requires
        i < s.len(),
    ensures
        match r {
            Some((end, attr, body)) => spec_list_at(s@, i as int) == Some(
                (end as int, attr@, body@),
            ) && i < end <= s.len(),
            None => spec_list_at(s@, i as int) is None,
        },
{
    let open: Vec<u8> = vec!['[' as u8, 'l' as u8, 'i' as u8, 's' as u8, 't' as u8];
    let close: Vec<u8> = vec![
        '[' as u8,
        '/' as u8,
        'l' as u8,
        'i' as u8,
        's' as u8,
        't' as u8,
        ']' as u8,
    ];
    if !match_ci_at(s, i, &open) {
        return None;
    }
    let a0 = i + 5;
    match find_byte(s, a0, 93) {
        Some(ab) => {
            proof {
                lemma_find_byte_props(s@, a0 as int, 93);
            }
            let n = s.len();
            assert(ab < n);
            if n - ab < 2 {
                return None;
            }
            match find_close(s, ab + 2, &close, &close, true) {
                Some((p, cl)) => {
                    proof {
                        lemma_find_close_props(s@, ab + 2, close@, close@, true);
                    }
                    let attr = subvec(s, a0, ab);
                    let body = subvec(s, ab + 1, p);
                    Some((p + cl, attr, body))
                },
                None => None,
            }
        },
        None => None,
    }
}

/// Every list block either converted — when its attribute text parses — or
/// left standing verbatim, head and body untouched.
pub open spec fn spec_apply_list(s: Seq<u8>, i: int) -> Seq<u8>
    decreases s.len() - i,
{
    if i < 0 || i >= s.len() {
        seq![]
    } else {
        match spec_list_at(s, i) {
            Some((end, attr, body)) => if i < end <= s.len() {
                (match spec_list_head(attr) {
                    Some(head) => spec_list_markdown(body, head),
                    None => s.subrange(i, end),
                }) + spec_apply_list(s, end)
            } else {
                seq![]
            },
            None => seq![s[i]] + spec_apply_list(s, i + 1),
        }
    }
}

pub fn apply_list(s: &Vec<u8>) -> (r: Vec<u8>)
    ensures
        r@ == spec_apply_list(s@, 0),
{
    let mut out: Vec<u8> = Vec::new();
    let mut i: usize = 0;
    while i < s.len()
        invariant
            i <= s.len(),
            spec_apply_list(s@, 0) =~= out@ + spec_apply_list(s@, i as int),
        decreases s.len() - i,
    {
        match list_at(s, i) {
            Some((end, attr, body)) => {
                match list_head(&attr) {
                    Some(head) => {
                        let md = list_markdown(&body, head);
                        out.extend_from_slice(md.as_slice());
                    },
                    None => {
                        let verbatim = subvec(s, i, end);
                        out.extend_from_slice(verbatim.as_slice());
                    },
                }
                i = end;
            },
            None => {
                out.push(s[i]);
                i += 1;
            },
        }
    }
    out
}


/// The ten rewrite rules in their fixed order: labelled link, bare link,
/// heading, `[cur]` emphasis, bold, remaining italic forms, strikethrough,
/// image, quote block, list block. Each rule's output is the next rule's
/// input; the order is part of the contract, since a later rule must not
/// re-match what an earlier one produced.
pub open spec fn spec_replace_bbcode(t: Seq<u8>) -> Seq<u8> {
    let url_o = seq!['[' as u8, 'u' as u8, 'r' as u8, 'l' as u8, ']' as u8];
    let url_c = seq!['[' as u8, '/' as u8, 'u' as u8, 'r' as u8, 'l' as u8, ']' as u8];
    let cur_o = seq!['[' as u8, 'c' as u8, 'u' as u8, 'r' as u8, ']' as u8];
    let cur_c = seq!['[' as u8, '/' as u8, 'c' as u8, 'u' as u8, 'r' as u8, ']' as u8];
    let b_o = seq!['[' as u8, 'b' as u8, ']' as u8];
    let b_c = seq!['[' as u8, '/' as u8, 'b' as u8, ']' as u8];
    let i_o = seq!['[' as u8, 'i' as u8, ']' as u8];
    let i_c = seq!['[' as u8, '/' as u8, 'i' as u8, ']' as u8];
    let del_o = seq!['[' as u8, 'd' as u8, 'e' as u8, 'l' as u8, ']' as u8];
    let del_c = seq!['[' as u8, '/' as u8, 'd' as u8, 'e' as u8, 'l' as u8, ']' as u8];
    let img_o = seq!['[' as u8, 'i' as u8, 'm' as u8, 'g' as u8, ']' as u8];
    let img_c = seq!['[' as u8, '/' as u8, 'i' as u8, 'm' as u8, 'g' as u8, ']' as u8];
    let star = seq!['*' as u8];
    let star2 = seq!['*' as u8, '*' as u8];
    let tilde2 = seq!['~' as u8, '~' as u8];
    let link_pre = seq!['[' as u8, ']' as u8, '(' as u8];
    let img_pre = seq!['!' as u8, '[' as u8, ']' as u8, '(' as u8];
    let paren = seq![')' as u8];
    let t1 = spec_apply_url(t, 0);
    let t2 = spec_apply_simple(t1, 0, url_o, url_o, url_c, url_c, false, link_pre, paren);
    let t3 = spec_apply_big(t2, 0, true);
    let t4 = spec_apply_simple(t3, 0, cur_o, cur_o, cur_c, cur_c, false, star, star);
    let t5 = spec_apply_simple(t4, 0, b_o, b_o, b_c, b_c, false, star2, star2);
    let t6 = spec_apply_simple(t5, 0, i_o, cur_o, i_c, cur_c, false, star, star);
    let t7 = spec_apply_simple(t6, 0, del_o, del_o, del_c, del_c, false, tilde2, tilde2);
    let t8 = spec_apply_simple(t7, 0, img_o, img_o, img_c, img_c, false, img_pre, paren);
    let t9 = spec_apply_quote(t8, 0);
    spec_apply_list(t9, 0)
}

/// Apply the whole ordered cascade to one plain-text chunk.
pub fn replace_bbcode(t: &Vec<u8>) -> (r: Vec<u8>)
    ensures
        r@ == spec_replace_bbcode(t@),
{
    let url_o: Vec<u8> = vec!['[' as u8, 'u' as u8, 'r' as u8, 'l' as u8, ']' as u8];
    let url_c: Vec<u8> = vec!['[' as u8, '/' as u8, 'u' as u8, 'r' as u8, 'l' as u8, ']' as u8];
    let cur_o: Vec<u8> = vec!['[' as u8, 'c' as u8, 'u' as u8, 'r' as u8, ']' as u8];
    let cur_c: Vec<u8> = vec!['[' as u8, '/' as u8, 'c' as u8, 'u' as u8, 'r' as u8, ']' as u8];
    let b_o: Vec<u8> = vec!['[' as u8, 'b' as u8, ']' as u8];
    let b_c: Vec<u8> = vec!['[' as u8, '/' as u8, 'b' as u8, ']' as u8];
    let i_o: Vec<u8> = vec!['[' as u8, 'i' as u8, ']' as u8];
    let i_c: Vec<u8> = vec!['[' as u8, '/' as u8, 'i' as u8, ']' as u8];
    let del_o: Vec<u8> = vec!['[' as u8, 'd' as u8, 'e' as u8, 'l' as u8, ']' as u8];
    let del_c: Vec<u8> = vec!['[' as u8, '/' as u8, 'd' as u8, 'e' as u8, 'l' as u8, ']' as u8];
    let img_o: Vec<u8> = vec!['[' as u8, 'i' as u8, 'm' as u8, 'g' as u8, ']' as u8];
    let img_c: Vec<u8> = vec!['[' as u8, '/' as u8, 'i' as u8, 'm' as u8, 'g' as u8, ']' as u8];
    let star: Vec<u8> = vec!['*' as u8];
    let star2: Vec<u8> = vec!['*' as u8, '*' as u8];
    let tilde2: Vec<u8> = vec!['~' as u8, '~' as u8];
    let link_pre: Vec<u8> = vec!['[' as u8, ']' as u8, '(' as u8];
    let img_pre: Vec<u8> = vec!['!' as u8, '[' as u8, ']' as u8, '(' as u8];
    let paren: Vec<u8> = vec![')' as u8];
    assert(url_o@ =~= seq!['[' as u8, 'u' as u8, 'r' as u8, 'l' as u8, ']' as u8]);
    assert(url_c@ =~= seq!['[' as u8, '/' as u8, 'u' as u8, 'r' as u8, 'l' as u8, ']' as u8]);
    assert(cur_o@ =~= seq!['[' as u8, 'c' as u8, 'u' as u8, 'r' as u8, ']' as u8]);
    assert(cur_c@ =~= seq!['[' as u8, '/' as u8, 'c' as u8, 'u' as u8, 'r' as u8, ']' as u8]);
    assert(b_o@ =~= seq!['[' as u8, 'b' as u8, ']' as u8]);
    assert(b_c@ =~= seq!['[' as u8, '/' as u8, 'b' as u8, ']' as u8]);
    assert(i_o@ =~= seq!['[' as u8, 'i' as u8, ']' as u8]);
    assert(i_c@ =~= seq!['[' as u8, '/' as u8, 'i' as u8, ']' as u8]);
    assert(del_o@ =~= seq!['[' as u8, 'd' as u8, 'e' as u8, 'l' as u8, ']' as u8]);
    assert(del_c@ =~= seq!['[' as u8, '/' as u8, 'd' as u8, 'e' as u8, 'l' as u8, ']' as u8]);
    assert(img_o@ =~= seq!['[' as u8, 'i' as u8, 'm' as u8, 'g' as u8, ']' as u8]);
    assert(img_c@ =~= seq!['[' as u8, '/' as u8, 'i' as u8, 'm' as u8, 'g' as u8, ']' as u8]);
    assert(star@ =~= seq!['*' as u8]);
    assert(star2@ =~= seq!['*' as u8, '*' as u8]);
    assert(tilde2@ =~= seq!['~' as u8, '~' as u8]);
    assert(link_pre@ =~= seq!['[' as u8, ']' as u8, '(' as u8]);
    assert(img_pre@ =~= seq!['!' as u8, '[' as u8, ']' as u8, '(' as u8]);
    assert(paren@ =~= seq![')' as u8]);
    let t1 = apply_url(t);
    let t2 = apply_simple(&t1, &url_o, &url_o, &url_c, &url_c, false, &link_pre, &paren);
    let t3 = apply_big(&t2);
    let t4 = apply_simple(&t3, &cur_o, &cur_o, &cur_c, &cur_c, false, &star, &star);
    let t5 = apply_simple(&t4, &b_o, &b_o, &b_c, &b_c, false, &star2, &star2);
    let t6 = apply_simple(&t5, &i_o, &cur_o, &i_c, &cur_c, false, &star, &star);
    let t7 = apply_simple(&t6, &del_o, &del_o, &del_c, &del_c, false, &tilde2, &tilde2);
    let t8 = apply_simple(&t7, &img_o, &img_o, &img_c, &img_c, false, &img_pre, &paren);
    let t9 = apply_quote(&t8);
    apply_list(&t9)
}

} // verus!
