use vstd::prelude::*;

verus! {

/// Whitespace bytes recognised by the rewrite rules: space, tab, line feed,
/// vertical tab, form feed, carriage return.
pub open spec fn spec_is_ws(b: u8) -> bool {
    b == 32 || b == 9 || b == 10 || b == 11 || b == 12 || b == 13
}

pub fn is_ws(b: u8) -> (r: bool)
    ensures
        r == spec_is_ws(b),
{
    b == 32 || b == 9 || b == 10 || b == 11 || b == 12 || b == 13
}

/// ASCII lower-casing of a single byte; other bytes are unchanged.
pub open spec fn spec_lower(b: u8) -> u8 {
    if 65 <= b && b <= 90 {
        (b + 32) as u8
    } else {
        b
    }
}

pub fn lower(b: u8) -> (r: u8)
    ensures
        r == spec_lower(b),
{
    if 65 <= b && b <= 90 {
        b + 32
    } else {
        b
    }
}

/// The pattern `t` occurs byte for byte at position `i` of `s`.
pub open spec fn spec_match_at(s: Seq<u8>, i: int, t: Seq<u8>) -> bool {
    &&& 0 <= i
    &&& i + t.len() <= s.len()
    &&& forall|k: int| 0 <= k < t.len() ==> s[i + k] == t[k]
}

/// The pattern `t` (given in lower case) occurs at position `i` of `s`,
/// compared ASCII case-insensitively.
pub open spec fn spec_match_ci_at(s: Seq<u8>, i: int, t: Seq<u8>) -> bool {
    &&& 0 <= i
    &&& i + t.len() <= s.len()
    &&& forall|k: int| 0 <= k < t.len() ==> spec_lower(s[i + k]) == t[k]
}

pub fn match_at(s: &Vec<u8>, i: usize, t: &Vec<u8>) -> (r: bool)
    ensures
        r == spec_match_at(s@, i as int, t@),
{
    if i > s.len() || s.len() - i < t.len() {
        return false;
    }
    let mut k: usize = 0;
    while k < t.len()
        invariant
            i + t.len() <= s.len(),
            0 <= k <= t.len(),
            forall|j: int| 0 <= j < k ==> s@[i + j] == t@[j],
        decreases t.len() - k,
    {
        if s[i + k] != t[k] {
            return false;
        }
        k += 1;
    }
    true
}

pub fn match_ci_at(s: &Vec<u8>, i: usize, t: &Vec<u8>) -> (r: bool)
    ensures
        r == spec_match_ci_at(s@, i as int, t@),
{
    if i > s.len() || s.len() - i < t.len() {
        return false;
    }
    let mut k: usize = 0;
    while k < t.len()
        invariant
            i + t.len() <= s.len(),
            0 <= k <= t.len(),
            forall|j: int| 0 <= j < k ==> spec_lower(s@[i + j]) == t@[j],
        decreases t.len() - k,
    {
        if lower(s[i + k]) != t[k] {
            return false;
        }
        k += 1;
    }
    true
}

/// Copy of the bytes of `s` between `i` (inclusive) and `j` (exclusive).
pub fn subvec(s: &Vec<u8>, i: usize, j: usize) -> (r: Vec<u8>)
    requires
        i <= j <= s.len(),
    ensures
        r@ == s@.subrange(i as int, j as int),
{
    let mut r: Vec<u8> = Vec::new();
    let mut k: usize = i;
    while k < j
        invariant
            i <= k <= j <= s.len(),
            r@ == s@.subrange(i as int, k as int),
        decreases j - k,
    {
        r.push(s[k]);
        assert(r@ =~= s@.subrange(i as int, k + 1));
        k += 1;
    }
    r
}

/// First position at or after `i` where the byte `b` stands in `s`.
pub open spec fn spec_find_byte(s: Seq<u8>, i: int, b: u8) -> Option<int>
    decreases s.len() - i,
{
    if i < 0 || i >= s.len() {
        None
    } else if s[i] == b {
        Some(i)
    } else {
        spec_find_byte(s, i + 1, b)
    }
}

pub proof fn lemma_find_byte_props(s: Seq<u8>, i: int, b: u8)
    ensures
        match spec_find_byte(s, i, b) {
            Some(p) => i <= p < s.len() && s[p] == b,
            None => true,
        },
    decreases s.len() - i,
{
    if i < 0 || i >= s.len() {
    } else if s[i] == b {
    } else {
        lemma_find_byte_props(s, i + 1, b);
    }
}

pub fn find_byte(s: &Vec<u8>, i: usize, b: u8) -> (r: Option<usize>)
    ensures
        match r {
            Some(p) => spec_find_byte(s@, i as int, b) == Some(p as int),
            None => spec_find_byte(s@, i as int, b) is None,
        },
{
    let mut j: usize = i;
    while j < s.len()
        invariant
            i <= j,
            spec_find_byte(s@, i as int, b) == spec_find_byte(s@, j as int, b),
        decreases s.len() - j,
    {
        if s[j] == b {
            return Some(j);
        }
        j += 1;
    }
    None
}

/// Decimal digits of `n`, most significant first.
pub open spec fn spec_udec(n: nat) -> Seq<u8>
    decreases n,
{
    if n < 10 {
        seq![(48 + n) as u8]
    } else {
        spec_udec(n / 10) + seq![(48 + n % 10) as u8]
    }
}

pub fn udec_u64(n: u64) -> (r: Vec<u8>)
    ensures
        r@ == spec_udec(n as nat),
    decreases n,
{
    if n < 10 {
        let d: u8 = 48 + (n as u8);
        let mut r: Vec<u8> = Vec::new();
        r.push(d);
        assert(r@ =~= spec_udec(n as nat));
        r
    } else {
        let mut r = udec_u64(n / 10);
        let d: u8 = 48 + ((n % 10) as u8);
        r.push(d);
        assert(r@ =~= spec_udec(n as nat));
        r
    }
}

/// Decimal notation of a signed number: a minus sign for negatives,
/// then the digits.
pub open spec fn spec_dec_int(n: int) -> Seq<u8> {
    if n < 0 {
        seq![45u8] + spec_udec((-n) as nat)
    } else {
        spec_udec(n as nat)
    }
}

pub fn dec_i16(n: i16) -> (r: Vec<u8>)
    ensures
        r@ == spec_dec_int(n as int),
{
    if n < 0 {
        let m: u64 = (-(n as i32)) as u64;
        let mut r: Vec<u8> = Vec::new();
        r.push(45u8);
        let digits = udec_u64(m);
        let mut k: usize = 0;
        while k < digits.len()
            invariant
                0 <= k <= digits.len(),
                r@ == seq![45u8] + digits@.subrange(0, k as int),
            decreases digits.len() - k,
        {
            r.push(digits[k]);
            assert(r@ =~= seq![45u8] + digits@.subrange(0, k + 1));
            k += 1;
        }
        assert(digits@.subrange(0, digits@.len() as int) =~= digits@);
        r
    } else {
        udec_u64(n as u64)
    }
}

/// `s` with whitespace removed from both ends.
pub open spec fn spec_trim(s: Seq<u8>) -> Seq<u8>
    decreases s.len(),
{
    if s.len() > 0 && spec_is_ws(s[0]) {
        spec_trim(s.subrange(1, s.len() as int))
    } else if s.len() > 0 && spec_is_ws(s[s.len() - 1]) {
        spec_trim(s.subrange(0, s.len() - 1))
    } else {
        s
    }
}

/// Narrow the window `[lo, hi)` of `s` so that it holds the trimmed text.
pub fn trim_window(s: &Vec<u8>, lo: usize, hi: usize) -> (r: (usize, usize))
    requires
        lo <= hi <= s.len(),
    ensures
        lo <= r.0 <= r.1 <= hi,
        s@.subrange(r.0 as int, r.1 as int) == spec_trim(s@.subrange(lo as int, hi as int)),
{
    let mut a: usize = lo;
    let mut b: usize = hi;
    while a < b && is_ws(s[a])
        invariant
            lo <= a <= b <= s.len(),
            b == hi,
            spec_trim(s@.subrange(lo as int, hi as int)) == spec_trim(
                s@.subrange(a as int, b as int),
            ),
        decreases b - a,
    {
        assert(s@.subrange(a as int, b as int).subrange(1, b - a) =~= s@.subrange(
            a + 1,
            b as int,
        ));
        a += 1;
    }
    while b > a && is_ws(s[b - 1])
        invariant
            lo <= a <= b <= hi <= s.len(),
            a < b ==> !spec_is_ws(s@[a as int]),
            spec_trim(s@.subrange(lo as int, hi as int)) == spec_trim(
                s@.subrange(a as int, b as int),
            ),
        decreases b - a,
    {
        assert(s@.subrange(a as int, b as int).subrange(0, b - a - 1) =~= s@.subrange(
            a as int,
            b - 1,
        ));
        b -= 1;
    }
    (a, b)
}

/// First position at or after `i` whose byte is neither a space nor a tab.
pub open spec fn spec_skip_st(s: Seq<u8>, i: int) -> int
    decreases s.len() - i,
{
    if i < 0 {
        0
    } else if i >= s.len() {
        s.len() as int
    } else if s[i] == 32 || s[i] == 9 {
        spec_skip_st(s, i + 1)
    } else {
        i
    }
}

pub proof fn lemma_skip_st_props(s: Seq<u8>, i: int)
    requires
        0 <= i <= s.len(),
    ensures
        i <= spec_skip_st(s, i) <= s.len(),
        spec_skip_st(s, i) < s.len() ==> !(s[spec_skip_st(s, i)] == 32 || s[spec_skip_st(s, i)]
            == 9),
    decreases s.len() - i,
{
    if i >= s.len() {
    } else if s[i] == 32 || s[i] == 9 {
        lemma_skip_st_props(s, i + 1);
    }
}

pub fn skip_st(s: &Vec<u8>, i: usize) -> (r: usize)
    requires
        i <= s.len(),
    ensures
        r as int == spec_skip_st(s@, i as int),
        i <= r <= s.len(),
{
    proof {
        lemma_skip_st_props(s@, i as int);
    }
    let mut k: usize = i;
    while k < s.len() && (s[k] == 32 || s[k] == 9)
        invariant
            i <= k <= s.len(),
            spec_skip_st(s@, i as int) == spec_skip_st(s@, k as int),
        decreases s.len() - k,
    {
        k += 1;
    }
    k
}

} // verus!
