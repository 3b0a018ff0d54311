//! Character-level text operations: searching, splitting, replacing and
//! decimal numbers, each specified over `Seq<char>`.
use vstd::prelude::*;

verus! {

// ---------------------------------------------------------------------------
// Specifications
// ---------------------------------------------------------------------------

/// `pat` occurs in `s` starting at index `i`.
pub open spec fn match_at(s: Seq<char>, pat: Seq<char>, i: int) -> bool {
    0 <= i && i + pat.len() <= s.len() && s.subrange(i, i + pat.len()) == pat
}

/// The first index `j >= i` at which `pat` occurs in `s`.
pub open spec fn first_match_from(s: Seq<char>, pat: Seq<char>, i: int) -> Option<int>
    decreases s.len() + 1 - i,
{
    if i < 0 || i + pat.len() > s.len() {
        None
    } else if match_at(s, pat, i) {
        Some(i)
    } else {
        first_match_from(s, pat, i + 1)
    }
}

/// `s` contains `pat`.
pub open spec fn contains_seq(s: Seq<char>, pat: Seq<char>) -> bool {
    first_match_from(s, pat, 0) is Some
}

/// `s` starts with `pat`.
pub open spec fn starts_with(s: Seq<char>, pat: Seq<char>) -> bool {
    pat.len() <= s.len() && s.take(pat.len() as int) == pat
}

/// The pieces of `s` from `start` on, cut at each non-overlapping occurrence of
/// `pat` found from left to right (the behaviour of `str::split`).
pub open spec fn split_from(s: Seq<char>, pat: Seq<char>, start: int) -> Seq<Seq<char>>
    decreases s.len() - start,
{
    if pat.len() == 0 || start < 0 || start > s.len() {
        seq![s.subrange(start, s.len() as int)]
    } else {
        match first_match_from(s, pat, start) {
            None => seq![s.subrange(start, s.len() as int)],
            Some(j) => {
                proof {
                    lemma_first_match(s, pat, start);
                }
                seq![s.subrange(start, j)] + split_from(s, pat, j + pat.len())
            },
        }
    }
}

/// `s` cut at each occurrence of `pat` (`str::split`).
pub open spec fn split_seq(s: Seq<char>, pat: Seq<char>) -> Seq<Seq<char>> {
    split_from(s, pat, 0)
}

/// `s` from `start` on, with each non-overlapping occurrence of `pat` replaced
/// by `rep` (the behaviour of `str::replace`).
pub open spec fn replace_from(s: Seq<char>, pat: Seq<char>, rep: Seq<char>, start: int) -> Seq<char>
    decreases s.len() - start,
{
    if pat.len() == 0 || start < 0 || start > s.len() {
        s.subrange(start, s.len() as int)
    } else {
        match first_match_from(s, pat, start) {
            None => s.subrange(start, s.len() as int),
            Some(j) => {
                proof {
                    lemma_first_match(s, pat, start);
                }
                s.subrange(start, j) + rep + replace_from(s, pat, rep, j + pat.len())
            },
        }
    }
}

/// `s` with every occurrence of `pat` replaced by `rep` (`str::replace`).
pub open spec fn replace_seq(s: Seq<char>, pat: Seq<char>, rep: Seq<char>) -> Seq<char> {
    replace_from(s, pat, rep, 0)
}

/// The decimal digit for `d < 10`.
pub open spec fn digit_char(d: nat) -> char {
    (d + 48) as char
}

/// The decimal notation of `n`, without leading zeros.
pub open spec fn decimal(n: nat) -> Seq<char>
    decreases n,
{
    if n < 10 {
        seq![digit_char(n)]
    } else {
        decimal(n / 10).push(digit_char(n % 10))
    }
}

pub open spec fn is_digit(c: char) -> bool {
    '0' <= c && c <= '9'
}

pub open spec fn all_digits(s: Seq<char>) -> bool {
    forall|i: int| 0 <= i < s.len() ==> is_digit(#[trigger] s[i])
}

/// The value of a string of decimal digits.
pub open spec fn digits_value(s: Seq<char>) -> nat
    decreases s.len(),
{
    if s.len() == 0 {
        0
    } else {
        digits_value(s.drop_last()) * 10 + (s.last() as nat - 48) as nat
    }
}

/// The magnitude written by `s`: one or more decimal digits.
pub open spec fn magnitude(s: Seq<char>) -> Option<nat> {
    if s.len() > 0 && all_digits(s) {
        Some(digits_value(s))
    } else {
        None
    }
}

/// What `str::parse::<usize>` returns: an optional `+`, then one or more
/// decimal digits whose value fits in `usize`.
pub open spec fn parse_usize_spec(s: Seq<char>) -> Option<usize> {
    let digits = if s.len() > 0 && s[0] == '+' { s.skip(1) } else { s };
    match magnitude(digits) {
        Some(v) => if v <= usize::MAX { Some(v as usize) } else { None },
        None => None,
    }
}

/// What `str::parse::<isize>` returns: an optional sign, then one or more
/// decimal digits whose signed value fits in `isize`.
pub open spec fn parse_isize_spec(s: Seq<char>) -> Option<isize> {
    if s.len() > 0 && s[0] == '-' {
        match magnitude(s.skip(1)) {
            Some(v) => if v <= isize::MAX + 1 { Some((0 - v) as isize) } else { None },
            None => None,
        }
    } else {
        let digits = if s.len() > 0 && s[0] == '+' { s.skip(1) } else { s };
        match magnitude(digits) {
            Some(v) => if v <= isize::MAX { Some(v as isize) } else { None },
            None => None,
        }
    }
}

/// Unicode `White_Space`, as `char::is_whitespace` defines it.
pub open spec fn is_whitespace(c: char) -> bool {
    let n = c as u32;
    (0x09 <= n && n <= 0x0d) || n == 0x20 || n == 0x85 || n == 0xa0 || n == 0x1680 || (0x2000
        <= n && n <= 0x200a) || n == 0x2028 || n == 0x2029 || n == 0x202f || n == 0x205f || n
        == 0x3000
}

/// `s` is empty once whitespace is trimmed from both ends.
pub open spec fn is_blank(s: Seq<char>) -> bool {
    forall|i: int| 0 <= i < s.len() ==> is_whitespace(#[trigger] s[i])
}

// ---------------------------------------------------------------------------
// Lemmas
// ---------------------------------------------------------------------------

/// What `first_match_from` finds: the least matching index at or after `i`.
pub proof fn lemma_first_match(s: Seq<char>, pat: Seq<char>, i: int)
    requires
        0 <= i,
    ensures
        match first_match_from(s, pat, i) {
            Some(j) => i <= j && match_at(s, pat, j) && j + pat.len() <= s.len() && forall|k: int|
                i <= k < j ==> !match_at(s, pat, k),
            None => forall|k: int| i <= k ==> !match_at(s, pat, k),
        },
    decreases s.len() + 1 - i,
{
    if i + pat.len() > s.len() {
    } else if match_at(s, pat, i) {
    } else {
        lemma_first_match(s, pat, i + 1);
    }
}

/// Skipping indices where `pat` does not occur leaves the first match unchanged.
pub proof fn lemma_first_match_skip(s: Seq<char>, pat: Seq<char>, start: int, i: int)
    requires
        0 <= start <= i,
        forall|k: int| start <= k < i ==> !match_at(s, pat, k),
    ensures
        first_match_from(s, pat, start) == first_match_from(s, pat, i),
    decreases i - start,
{
    if start < i {
        lemma_first_match_skip(s, pat, start + 1, i);
        if start + pat.len() > s.len() {
            lemma_first_match(s, pat, start);
            lemma_first_match(s, pat, i);
        }
    }
}

// ---------------------------------------------------------------------------
// Executable operations
// ---------------------------------------------------------------------------

/// The characters of `s`, in order.
pub fn chars_of(s: &str) -> (res: Vec<char>)
    ensures
        res@ == s@,
{
    let mut res: Vec<char> = Vec::new();
    for c in it: s.chars()
        invariant
            res@ == it.seq().take(it.index() as int),
            it.seq() == s@,
    {
        res.push(c);
    }
    res
}

/// `String::push`: appends `c` to `s`.
#[verifier::external_body]
fn push_char(s: &mut String, c: char)
    ensures
        final(s)@ == old(s)@.push(c),
{
    s.push(c)
}

/// The string made of the characters of `v`.
pub fn string_of(v: &[char]) -> (res: String)
    ensures
        res@ == v@,
{
    let mut res = String::new();
    let mut i: usize = 0;
    while i < v.len()
        invariant
            i <= v@.len(),
            res@ == v@.take(i as int),
        decreases v.len() - i,
    {
        push_char(&mut res, v[i]);
        assert(v@.take(i + 1) =~= v@.take(i as int).push(v@[i as int]));
        i += 1;
    }
    assert(v@.take(v@.len() as int) =~= v@);
    res
}

/// The characters `s[from..to]`.
pub fn copy_range(s: &[char], from: usize, to: usize) -> (res: Vec<char>)
    requires
        from <= to <= s@.len(),
    ensures
        res@ == s@.subrange(from as int, to as int),
{
    let mut res: Vec<char> = Vec::new();
    let mut i = from;
    while i < to
        invariant
            from <= i <= to <= s@.len(),
            res@ == s@.subrange(from as int, i as int),
        decreases to - i,
    {
        res.push(s[i]);
        i += 1;
        assert(res@ =~= s@.subrange(from as int, i as int));
    }
    res
}

/// Appends the characters of `t` to `v`.
pub fn append_chars(v: &mut Vec<char>, t: &[char])
    ensures
        final(v)@ == old(v)@ + t@,
{
    let mut i: usize = 0;
    while i < t.len()
        invariant
            i <= t@.len(),
            v@ == old(v)@ + t@.take(i as int),
        decreases t.len() - i,
    {
        v.push(t[i]);
        i += 1;
        assert(v@ =~= old(v)@ + t@.take(i as int));
    }
    assert(t@.take(t@.len() as int) =~= t@);
}

/// Whether `pat` occurs in `s` at index `i`.
pub fn matches_at(s: &[char], pat: &[char], i: usize) -> (res: bool)
    ensures
        res == match_at(s@, pat@, i as int),
{
    if i > s.len() || pat.len() > s.len() - i {
        return false;
    }
    let mut k: usize = 0;
    while k < pat.len()
        invariant
            k <= pat@.len(),
            s@.len() == s.len(),
            i + pat@.len() <= s@.len(),
            forall|m: int| 0 <= m < k ==> s@[i + m] == pat@[m],
        decreases pat.len() - k,
    {
        if s[i + k] != pat[k] {
            assert(s@.subrange(i as int, i + pat@.len())[k as int] != pat@[k as int]);
            return false;
        }
        k += 1;
    }
    assert(s@.subrange(i as int, i + pat@.len()) =~= pat@);
    true
}

/// The first index at which `pat` occurs in `s`.
pub fn find(s: &[char], pat: &[char]) -> (res: Option<usize>)
    ensures
        res matches Some(j) ==> first_match_from(s@, pat@, 0) == Some(j as int),
        res is None ==> first_match_from(s@, pat@, 0) is None,
{
    if pat.len() == 0 {
        assert(match_at(s@, pat@, 0)) by {
            assert(s@.subrange(0, 0) =~= pat@);
        }
        return Some(0);
    }
    let mut i: usize = 0;
    while i <= s.len() && pat.len() <= s.len() - i
        invariant
            i <= s@.len() + 1,
            pat@.len() > 0,
            forall|k: int| 0 <= k < i ==> !match_at(s@, pat@, k),
        decreases s.len() + 1 - i,
    {
        if matches_at(s, pat, i) {
            proof {
                lemma_first_match_skip(s@, pat@, 0, i as int);
            }
            return Some(i);
        }
        i += 1;
    }
    proof {
        lemma_first_match_skip(s@, pat@, 0, i as int);
    }
    None
}

/// Whether `pat` occurs in `s`.
pub fn contains(s: &[char], pat: &[char]) -> (res: bool)
    ensures
        res == contains_seq(s@, pat@),
{
    find(s, pat).is_some()
}

/// Whether `s` starts with `pat`.
pub fn has_prefix(s: &[char], pat: &[char]) -> (res: bool)
    ensures
        res == starts_with(s@, pat@),
{
    let r = matches_at(s, pat, 0);
    assert(s@.take(pat@.len() as int) =~= s@.subrange(0, pat@.len() as int));
    r
}

/// `s` cut at each occurrence of the non-empty `pat`.
pub fn split(s: &[char], pat: &[char]) -> (res: Vec<Vec<char>>)
    requires
        pat@.len() > 0,
    ensures
        res.deep_view() == split_seq(s@, pat@),
{
    let mut res: Vec<Vec<char>> = Vec::new();
    let mut start: usize = 0;
    let mut i: usize = 0;
    while i < s.len()
        invariant
            start <= i <= s@.len(),
            pat@.len() > 0,
            forall|k: int| start <= k < i ==> !match_at(s@, pat@, k),
            res.deep_view() + split_from(s@, pat@, start as int) == split_seq(s@, pat@),
        decreases s.len() - i,
    {
        if matches_at(s, pat, i) {
            proof {
                lemma_first_match_skip(s@, pat@, start as int, i as int);
            }
            let piece = copy_range(s, start, i);
            assert(piece.deep_view() =~= piece@);
            let ghost before = res.deep_view();
            res.push(piece);
            assert(res.deep_view() =~= before.push(s@.subrange(start as int, i as int)));
            i = i + pat.len();
            start = i;
        } else {
            i += 1;
        }
    }
    proof {
        lemma_first_match_skip(s@, pat@, start as int, i as int);
        lemma_first_match(s@, pat@, i as int);
    }
    let piece = copy_range(s, start, s.len());
    assert(piece.deep_view() =~= piece@);
    let ghost before = res.deep_view();
    res.push(piece);
    assert(res.deep_view() =~= before.push(s@.subrange(start as int, s@.len() as int)));
    res
}

/// `s` with every occurrence of the non-empty `pat` replaced by `rep`.
pub fn replace(s: &[char], pat: &[char], rep: &[char]) -> (res: Vec<char>)
    requires
        pat@.len() > 0,
    ensures
        res@ == replace_seq(s@, pat@, rep@),
{
    let mut res: Vec<char> = Vec::new();
    let mut start: usize = 0;
    let mut i: usize = 0;
    while i < s.len()
        invariant
            start <= i <= s@.len(),
            pat@.len() > 0,
            forall|k: int| start <= k < i ==> !match_at(s@, pat@, k),
            res@ + replace_from(s@, pat@, rep@, start as int) == replace_seq(s@, pat@, rep@),
        decreases s.len() - i,
    {
        if matches_at(s, pat, i) {
            proof {
                lemma_first_match_skip(s@, pat@, start as int, i as int);
            }
            let ghost before = res@;
            let piece = copy_range(s, start, i);
            append_chars(&mut res, &piece);
            append_chars(&mut res, rep);
            assert(res@ =~= before + s@.subrange(start as int, i as int) + rep@);
            i = i + pat.len();
            start = i;
        } else {
            i += 1;
        }
    }
    proof {
        lemma_first_match_skip(s@, pat@, start as int, i as int);
        lemma_first_match(s@, pat@, i as int);
    }
    let piece = copy_range(s, start, s.len());
    append_chars(&mut res, &piece);
    res
}

/// Replacing a pattern that does not occur leaves the text unchanged.
pub proof fn lemma_replace_absent(s: Seq<char>, pat: Seq<char>, rep: Seq<char>)
    requires
        !contains_seq(s, pat),
    ensures
        replace_seq(s, pat, rep) == s,
{
    assert(s.subrange(0, s.len() as int) =~= s);
}

/// The decimal notation of `n`.
pub fn decimal_chars(n: usize) -> (res: Vec<char>)
    ensures
        res@ == decimal(n as nat),
    decreases n,
{
    let d = (n % 10) as u8;
    let c = (d + 48) as char;
    if n < 10 {
        let mut v: Vec<char> = Vec::new();
        v.push(c);
        assert(v@ =~= seq![digit_char(n as nat)]);
        v
    } else {
        let mut v = decimal_chars(n / 10);
        v.push(c);
        v
    }
}

/// Appending a digit multiplies the value by ten and adds the digit.
proof fn lemma_digits_value_grows(s: Seq<char>, i: int)
    requires
        0 <= i <= s.len(),
        all_digits(s),
    ensures
        digits_value(s.take(i)) <= digits_value(s),
    decreases s.len() - i,
{
    if i < s.len() {
        lemma_digits_value_grows(s, i + 1);
        assert(s.take(i + 1).drop_last() =~= s.take(i));
    } else {
        assert(s.take(i) =~= s);
    }
}

/// The value of the decimal digits `s[from..]`, if they are one or more digits
/// and the value is at most `bound`.
fn digits_upto(s: &[char], from: usize, bound: usize) -> (res: Option<usize>)
    requires
        from <= s@.len(),
    ensures
        res == (match magnitude(s@.skip(from as int)) {
            Some(v) => if v <= bound { Some(v as usize) } else { None },
            None => None,
        }),
{
    let ghost d = s@.skip(from as int);
    if from == s.len() {
        return None;
    }
    let mut acc: usize = 0;
    let mut i: usize = from;
    while i < s.len()
        invariant
            from <= i <= s@.len(),
            d == s@.skip(from as int),
            all_digits(d.take(i - from)),
            acc as nat == digits_value(d.take(i - from)),
            acc <= bound,
        decreases s.len() - i,
    {
        let c = s[i];
        assert(c == d[i - from]);
        if !('0' <= c && c <= '9') {
            assert(!all_digits(d));
            return None;
        }
        let dv = (c as u32 - 48) as u128;
        let next: u128 = (acc as u128) * 10 + dv;
        assert(d.take(i - from + 1).drop_last() =~= d.take(i - from));
        assert(all_digits(d.take(i - from + 1)));
        if next > bound as u128 {
            proof {
                if all_digits(d) {
                    lemma_digits_value_grows(d, i - from + 1);
                }
            }
            return None;
        }
        acc = next as usize;
        i += 1;
    }
    assert(d.take(i - from) =~= d);
    Some(acc)
}

/// `str::parse::<usize>`.
pub fn parse_usize(s: &[char]) -> (res: Option<usize>)
    ensures
        res == parse_usize_spec(s@),
{
    if s.len() > 0 && s[0] == '+' {
        digits_upto(s, 1, usize::MAX)
    } else {
        assert(s@.skip(0) =~= s@);
        digits_upto(s, 0, usize::MAX)
    }
}

/// `str::parse::<isize>`.
pub fn parse_isize(s: &[char]) -> (res: Option<isize>)
    ensures
        res == parse_isize_spec(s@),
{
    if s.len() > 0 && s[0] == '-' {
        let bound: usize = isize::MAX as usize + 1;
        match digits_upto(s, 1, bound) {
            Some(v) => {
                let r = (0i128 - v as i128) as isize;
                Some(r)
            },
            None => None,
        }
    } else {
        let m = if s.len() > 0 && s[0] == '+' {
            digits_upto(s, 1, isize::MAX as usize)
        } else {
            assert(s@.skip(0) =~= s@);
            digits_upto(s, 0, isize::MAX as usize)
        };
        match m {
            Some(v) => Some(v as isize),
            None => None,
        }
    }
}

/// `char::is_whitespace`.
pub fn whitespace(c: char) -> (res: bool)
    ensures
        res == is_whitespace(c),
{
    let n = c as u32;
    (0x09 <= n && n <= 0x0d) || n == 0x20 || n == 0x85 || n == 0xa0 || n == 0x1680 || (0x2000
        <= n && n <= 0x200a) || n == 0x2028 || n == 0x2029 || n == 0x202f || n == 0x205f || n
        == 0x3000
}

/// Whether `s.trim().is_empty()`.
pub fn blank(s: &[char]) -> (res: bool)
    ensures
        res == is_blank(s@),
{
    let mut i: usize = 0;
    while i < s.len()
        invariant
            i <= s@.len(),
            forall|k: int| 0 <= k < i ==> is_whitespace(#[trigger] s@[k]),
        decreases s.len() - i,
    {
        if !whitespace(s[i]) {
            return false;
        }
        i += 1;
    }
    true
}

} // verus!
