use vstd::prelude::*;
use crate::numbering::NumberingStyle;
use crate::text::{
    spec_match_at, match_at, spec_is_ws, is_ws, spec_skip_st, skip_st, lemma_skip_st_props,
};

verus! {

/// Whether a list numbers its items, and in which style.
#[derive(Clone, Copy, PartialEq, Eq, Structural, Debug)]
pub enum ListType {
    Unordered,
    Ordered(NumberingStyle),
}

/// The descriptor read from a list tag's attribute text.
#[derive(Clone, Copy, PartialEq, Eq, Structural, Debug)]
pub struct ListHead {
    pub ltype: ListType,
    pub start: i16,
}

impl Default for ListHead {
    /// An attribute-less list: unordered, counting from zero.
    fn default() -> (r: Self)
        ensures
            r.ltype == ListType::Unordered,
            r.start == 0i16,
    {
        ListHead { ltype: ListType::Unordered, start: 0i16 }
    }
}

/// One recognised attribute token.
#[derive(Clone, Copy, PartialEq, Eq, Structural, Debug)]
pub enum ListHeadElement {
    Start(i16),
    Type(NumberingStyle),
}

/// First position at or after `i` whose byte is not a decimal digit.
pub open spec fn spec_digit_run_end(s: Seq<u8>, i: int) -> int
    decreases s.len() - i,
{
    if i < 0 {
        0
    } else if i >= s.len() {
        s.len() as int
    } else if 48 <= s[i] && s[i] <= 57 {
        spec_digit_run_end(s, i + 1)
    } else {
        i
    }
}

pub proof fn lemma_digit_run_end_props(s: Seq<u8>, i: int)
    requires
        0 <= i <= s.len(),
    ensures
        i <= spec_digit_run_end(s, i) <= s.len(),
        forall|j: int| i <= j < spec_digit_run_end(s, i) ==> 48 <= #[trigger] s[j] <= 57,
    decreases s.len() - i,
{
    if i >= s.len() {
    } else if 48 <= s[i] && s[i] <= 57 {
        lemma_digit_run_end_props(s, i + 1);
        assert forall|j: int| i <= j < spec_digit_run_end(s, i) implies 48 <= #[trigger] s[j]
            <= 57 by {
            if j != i {
                assert(48 <= s[j] <= 57);
            }
        }
    }
}

pub fn digit_run_end(s: &Vec<u8>, i: usize) -> (r: usize)
    requires
        i <= s.len(),
    ensures
        r as int == spec_digit_run_end(s@, i as int),
        i <= r <= s.len(),
{
    proof {
        lemma_digit_run_end_props(s@, i as int);
    }
    let mut k: usize = i;
    while k < s.len() && 48 <= s[k] && s[k] <= 57
        invariant
            i <= k <= s.len(),
            spec_digit_run_end(s@, i as int) == spec_digit_run_end(s@, k as int),
        decreases s.len() - k,
    {
        k += 1;
    }
    k
}

/// Value of the digit run `s[a..b]` read as a decimal number.
pub open spec fn spec_digits_val(s: Seq<u8>, a: int, b: int) -> int
    decreases b - a,
{
    if a >= b {
        0
    } else {
        spec_digits_val(s, a, b - 1) * 10 + (s[b - 1] - 48)
    }
}

proof fn lemma_digits_val_step_ge(s: Seq<u8>, a: int, k: int)
    requires
        0 <= a <= k,
        k + 1 <= s.len(),
        forall|j: int| a <= j < k + 1 ==> 48 <= #[trigger] s[j] <= 57,
    ensures
        spec_digits_val(s, a, k + 1) >= spec_digits_val(s, a, k),
        spec_digits_val(s, a, k) >= 0,
    decreases k - a,
{
    if a < k {
        lemma_digits_val_step_ge(s, a, k - 1);
    }
}

proof fn lemma_digits_val_monotone(s: Seq<u8>, a: int, k: int, b: int)
    requires
        0 <= a <= k <= b <= s.len(),
        forall|j: int| a <= j < b ==> 48 <= #[trigger] s[j] <= 57,
    ensures
        spec_digits_val(s, a, b) >= spec_digits_val(s, a, k),
    decreases b - k,
{
    if k < b {
        lemma_digits_val_step_ge(s, a, b - 1);
        lemma_digits_val_monotone(s, a, k, b - 1);
    }
}

/// Value of the digit run `s[a..b]`, or nothing when it does not fit the
/// list head's signed 16-bit start field.
pub fn digits_val(s: &Vec<u8>, a: usize, b: usize) -> (r: Option<i16>)
    requires
        a <= b <= s.len(),
        forall|j: int| a <= j < b ==> 48 <= #[trigger] s@[j] <= 57,
    ensures
        match r {
            Some(v) => v as int == spec_digits_val(s@, a as int, b as int) && v >= 0,
            None => spec_digits_val(s@, a as int, b as int) > 32767,
        },
{
    let mut acc: u32 = 0;
    let mut k: usize = a;
    while k < b
        invariant
            a <= k <= b <= s.len(),
            forall|j: int| a <= j < b ==> 48 <= #[trigger] s@[j] <= 57,
            acc as int == spec_digits_val(s@, a as int, k as int),
            acc <= 32767,
        decreases b - k,
    {
        let d = s[k];
        acc = acc * 10 + ((d - 48) as u32);
        k += 1;
        if acc > 32767 {
            proof {
                lemma_digits_val_monotone(s@, a as int, k as int, b as int);
            }
            return None;
        }
    }
    Some(acc as i16)
}

/// The attribute token standing at position `j`, if any: `start="<digits>"`
/// with a value that fits, or `type="<style letter>"`. The position just
/// past the token comes with it.
pub open spec fn spec_token_at(s: Seq<u8>, j: int) -> Option<(int, ListHeadElement)> {
    let start_pat = seq![
        's' as u8,
        't' as u8,
        'a' as u8,
        'r' as u8,
        't' as u8,
        '=' as u8,
        '"' as u8,
    ];
    let type_pat = seq!['t' as u8, 'y' as u8, 'p' as u8, 'e' as u8, '=' as u8, '"' as u8];
    if spec_match_at(s, j, start_pat) {
        let d0 = j + 7;
        let d1 = spec_digit_run_end(s, d0);
        if d1 > d0 && d1 < s.len() && s[d1] == 34 && spec_digits_val(s, d0, d1) <= 32767 {
            Some((d1 + 1, ListHeadElement::Start(spec_digits_val(s, d0, d1) as i16)))
        } else {
            None
        }
    } else if spec_match_at(s, j, type_pat) {
        let c0 = j + 6;
        if c0 + 1 < s.len() && s[c0 + 1] == 34 {
            if s[c0] == 49 {
                Some((c0 + 2, ListHeadElement::Type(NumberingStyle::Decimal)))
            } else if s[c0] == 97 {
                Some((c0 + 2, ListHeadElement::Type(NumberingStyle::LowerAlpha)))
            } else if s[c0] == 65 {
                Some((c0 + 2, ListHeadElement::Type(NumberingStyle::UpperAlpha)))
            } else if s[c0] == 105 {
                Some((c0 + 2, ListHeadElement::Type(NumberingStyle::LowerRoman)))
            } else if s[c0] == 73 {
                Some((c0 + 2, ListHeadElement::Type(NumberingStyle::UpperRoman)))
            } else {
                None
            }
        } else {
            None
        }
    } else {
        None
    }
}

fn token_at(s: &Vec<u8>, j: usize) -> (r: Option<(usize, ListHeadElement)>)
    requires
        j <= s.len(),
    ensures
        match r {
            Some((n, tok)) => spec_token_at(s@, j as int) == Some((n as int, tok)) && j < n
                <= s.len(),
            None => spec_token_at(s@, j as int) is None,
        },
{
    let start_pat: Vec<u8> = vec![
        's' as u8,
        't' as u8,
        'a' as u8,
        'r' as u8,
        't' as u8,
        '=' as u8,
        '"' as u8,
    ];
    let type_pat: Vec<u8> = vec!['t' as u8, 'y' as u8, 'p' as u8, 'e' as u8, '=' as u8, '"' as u8];
    if match_at(s, j, &start_pat) {
        let d0 = j + 7;
        let d1 = digit_run_end(s, d0);
        if d1 > d0 && d1 < s.len() && s[d1] == 34 {
            proof {
                lemma_digit_run_end_props(s@, d0 as int);
            }
            match digits_val(s, d0, d1) {
                Some(v) => Some((d1 + 1, ListHeadElement::Start(v))),
                None => None,
            }
        } else {
            None
        }
    } else if match_at(s, j, &type_pat) {
        let c0 = j + 6;
        if c0 < s.len() && c0 + 1 < s.len() && s[c0 + 1] == 34 {
            let c = s[c0];
            if c == 49 {
                Some((c0 + 2, ListHeadElement::Type(NumberingStyle::Decimal)))
            } else if c == 97 {
                Some((c0 + 2, ListHeadElement::Type(NumberingStyle::LowerAlpha)))
            } else if c == 65 {
                Some((c0 + 2, ListHeadElement::Type(NumberingStyle::UpperAlpha)))
            } else if c == 105 {
                Some((c0 + 2, ListHeadElement::Type(NumberingStyle::LowerRoman)))
            } else if c == 73 {
                Some((c0 + 2, ListHeadElement::Type(NumberingStyle::UpperRoman)))
            } else {
                None
            }
        } else {
            None
        }
    } else {
        None
    }
}

/// A token folded into the head so far: a later token for the same key
/// wins; a `start` on a still-unordered list makes it ordered decimal.
pub open spec fn spec_apply_token(h: ListHead, t: ListHeadElement) -> ListHead {
    match t {
        ListHeadElement::Start(n) => ListHead {
            start: n,
            ltype: if h.ltype == ListType::Unordered {
                ListType::Ordered(NumberingStyle::Decimal)
            } else {
                h.ltype
            },
        },
        ListHeadElement::Type(ty) => ListHead { ltype: ListType::Ordered(ty), start: h.start },
    }
}

/// Width in bytes of one whitespace character standing at `i`: an ASCII
/// blank, or one of Unicode's other White_Space characters in its UTF-8
/// form (next line, no-break space, ogham space mark, the en-quad family,
/// line and paragraph separators, narrow no-break space, medium
/// mathematical space, ideographic space). Nothing when the byte at `i`
/// starts no whitespace character.
pub open spec fn spec_ws_char_at(s: Seq<u8>, i: int) -> Option<int> {
    if i < 0 || i >= s.len() {
        None
    } else if spec_is_ws(s[i]) {
        Some(1)
    } else if i + 2 <= s.len() && s[i] == 0xC2 && (s[i + 1] == 0x85 || s[i + 1] == 0xA0) {
        Some(2)
    } else if i + 3 <= s.len() && s[i] == 0xE1 && s[i + 1] == 0x9A && s[i + 2] == 0x80 {
        Some(3)
    } else if i + 3 <= s.len() && s[i] == 0xE2 && s[i + 1] == 0x80 && ((0x80 <= s[i + 2] && s[i + 2]
        <= 0x8A) || s[i + 2] == 0xA8 || s[i + 2] == 0xA9 || s[i + 2] == 0xAF) {
        Some(3)
    } else if i + 3 <= s.len() && s[i] == 0xE2 && s[i + 1] == 0x81 && s[i + 2] == 0x9F {
        Some(3)
    } else if i + 3 <= s.len() && s[i] == 0xE3 && s[i + 1] == 0x80 && s[i + 2] == 0x80 {
        Some(3)
    } else {
        None
    }
}

/// Only whitespace characters stand at or after `i`.
pub open spec fn spec_ws_only(s: Seq<u8>, i: int) -> bool
    decreases s.len() - i,
{
    if i < 0 {
        false
    } else if i >= s.len() {
        true
    } else {
        match spec_ws_char_at(s, i) {
            Some(w) => if 1 <= w && i + w <= s.len() {
                spec_ws_only(s, i + w)
            } else {
                false
            },
            None => false,
        }
    }
}

/// The fold has stopped at `i`: the head parsed so far stands only when
/// nothing but whitespace remains.
pub open spec fn spec_finish(s: Seq<u8>, i: int, acc: ListHead) -> Option<ListHead> {
    if spec_ws_only(s, i) {
        Some(acc)
    } else {
        None
    }
}

/// The attribute grammar: any number of blank-separated `start="…"` and
/// `type="…"` tokens folded left to right, then nothing but whitespace may
/// remain; trailing unconsumed text fails the whole head.
pub open spec fn spec_head_loop(s: Seq<u8>, i: int, acc: ListHead) -> Option<ListHead>
    decreases s.len() - i,
{
    if i < 0 || i > s.len() {
        None
    } else {
        let j = spec_skip_st(s, i);
        if j == i {
            spec_finish(s, i, acc)
        } else {
            match spec_token_at(s, j) {
                Some((n, tok)) => if i < n <= s.len() {
                    spec_head_loop(s, n, spec_apply_token(acc, tok))
                } else {
                    None
                },
                None => spec_finish(s, i, acc),
            }
        }
    }
}

/// The list-head descriptor read from the attribute text, if the text
/// parses.
pub open spec fn spec_list_head(s: Seq<u8>) -> Option<ListHead> {
    spec_head_loop(s, 0, ListHead { ltype: ListType::Unordered, start: 0i16 })
}

fn ws_char_at(s: &Vec<u8>, i: usize) -> (r: Option<usize>)
    requires
        i <= s.len(),
    ensures
        match r {
            Some(w) => spec_ws_char_at(s@, i as int) == Some(w as int) && 1 <= w && i + w
                <= s.len(),
            None => spec_ws_char_at(s@, i as int) is None,
        },
{
    let n = s.len();
    if i >= n {
        return None;
    }
    if is_ws(s[i]) {
        return Some(1);
    }
    if n - i >= 2 && s[i] == 0xC2 && (s[i + 1] == 0x85 || s[i + 1] == 0xA0) {
        return Some(2);
    }
    if n - i >= 3 && s[i] == 0xE1 && s[i + 1] == 0x9A && s[i + 2] == 0x80 {
        return Some(3);
    }
    if n - i >= 3 && s[i] == 0xE2 && s[i + 1] == 0x80 && ((0x80 <= s[i + 2] && s[i + 2] <= 0x8A)
        || s[i + 2] == 0xA8 || s[i + 2] == 0xA9 || s[i + 2] == 0xAF) {
        return Some(3);
    }
    if n - i >= 3 && s[i] == 0xE2 && s[i + 1] == 0x81 && s[i + 2] == 0x9F {
        return Some(3);
    }
    if n - i >= 3 && s[i] == 0xE3 && s[i + 1] == 0x80 && s[i + 2] == 0x80 {
        return Some(3);
    }
    None
}

fn ws_only_from(s: &Vec<u8>, i: usize) -> (r: bool)
    requires
        i <= s.len(),
    ensures
        r == spec_ws_only(s@, i as int),
{
    let mut k: usize = i;
    while k < s.len()
        invariant
            i <= k <= s.len(),
            spec_ws_only(s@, i as int) == spec_ws_only(s@, k as int),
        decreases s.len() - k,
    {
        match ws_char_at(s, k) {
            Some(w) => {
                k += w;
            },
            None => {
                return false;
            },
        }
    }
    true
}

/// Parse a list tag's attribute text into its descriptor; a head that does
/// not parse is reported as such, never a panic.
pub fn list_head(s: &Vec<u8>) -> (r: Option<ListHead>)
    ensures
        match r {
            Some(h) => spec_list_head(s@) == Some(h),
            None => spec_list_head(s@) is None,
        },
{
    let mut acc = ListHead { ltype: ListType::Unordered, start: 0i16 };
    let mut i: usize = 0;
    loop
        invariant
            i <= s.len(),
            spec_list_head(s@) == spec_head_loop(s@, i as int, acc),
        decreases s.len() - i,
    {
        proof {
            lemma_skip_st_props(s@, i as int);
        }
        let j = skip_st(s, i);
        if j == i {
            if ws_only_from(s, i) {
                return Some(acc);
            } else {
                return None;
            }
        }
        match token_at(s, j) {
            Some((n, tok)) => {
                acc = match tok {
                    ListHeadElement::Start(st) => ListHead {
                        start: st,
                        ltype: match acc.ltype {
                            ListType::Unordered => ListType::Ordered(NumberingStyle::Decimal),
                            other => other,
                        },
                    },
                    ListHeadElement::Type(ty) => ListHead { ltype: ListType::Ordered(ty), start: acc.start },
                };
                i = n;
            },
            None => {
                if ws_only_from(s, i) {
                    return Some(acc);
                } else {
                    return None;
                }
            },
        }
    }
}

} // verus!
