//! Small building blocks for text: decimal rendering of integers and
//! appending to owned strings.

use vstd::prelude::*;
use vstd::string::*;

verus! {

/// The ASCII digit for a value below ten.
pub open spec fn digit_char(d: nat) -> char {
    if d == 0 { '0' }
    else if d == 1 { '1' }
    else if d == 2 { '2' }
    else if d == 3 { '3' }
    else if d == 4 { '4' }
    else if d == 5 { '5' }
    else if d == 6 { '6' }
    else if d == 7 { '7' }
    else if d == 8 { '8' }
    else { '9' }
}

/// The decimal representation of a natural number, without leading zeros.
pub open spec fn decimal(n: nat) -> Seq<char>
    decreases n,
{
    if n < 10 {
        seq![digit_char(n)]
    } else {
        decimal(n / 10).push(digit_char(n % 10))
    }
}

/// The decimal representation of `n`, left-padded with zeros to at least `width` digits.
pub open spec fn zero_padded(n: nat, width: nat) -> Seq<char>
    decreases width,
{
    if width <= decimal(n).len() {
        decimal(n)
    } else {
        seq!['0'] + zero_padded(n, (width - 1) as nat)
    }
}

pub fn digit_of(d: u8) -> (c: char)
    requires
        d < 10,
    ensures
        c == digit_char(d as nat),
{
    if d == 0 { '0' }
    else if d == 1 { '1' }
    else if d == 2 { '2' }
    else if d == 3 { '3' }
    else if d == 4 { '4' }
    else if d == 5 { '5' }
    else if d == 6 { '6' }
    else if d == 7 { '7' }
    else if d == 8 { '8' }
    else { '9' }
}

/// Appends one character to a string (`String::push`).
#[verifier::external_body]
pub(crate) fn push_char(s: &mut String, c: char)
    ensures
        final(s)@ == old(s)@.push(c),
{
    s.push(c);
}

/// Appends a string slice to a string.
pub fn push_str(s: &mut String, t: &str)
    ensures
        final(s)@ == old(s)@ + t@,
{
    s.append(t);
}

pub proof fn lemma_decimal_len_pos(n: nat)
    ensures
        decimal(n).len() >= 1,
    decreases n,
{
    if n >= 10 {
        lemma_decimal_len_pos(n / 10);
    }
}

/// Appends the decimal digits of `n` to `s`.
pub fn push_decimal(s: &mut String, n: u128)
    ensures
        final(s)@ == old(s)@ + decimal(n as nat),
{
    // Collect the digits from least to most significant.
    let mut rev: Vec<char> = Vec::new();
    let mut m: u128 = n;
    let ghost mut low: Seq<char> = Seq::empty();
    // decimal(n) == decimal(m) + low, where `rev` holds `low` reversed.
    loop
        invariant
            m <= n,
            decimal(n as nat) == decimal(m as nat) + low,
            rev@.len() == low.len(),
            forall|i: int| 0 <= i < low.len() ==> #[trigger] rev@[i] == low[low.len() - 1 - i],
        ensures
            m < 10,
            decimal(n as nat) == decimal(m as nat) + low,
            rev@.len() == low.len(),
            forall|i: int| 0 <= i < low.len() ==> #[trigger] rev@[i] == low[low.len() - 1 - i],
        decreases m,
    {
        if m < 10 {
            break;
        }
        let d = (m % 10) as u8;
        rev.push(digit_of(d));
        proof {
            let new_low = seq![digit_char((m % 10) as nat)] + low;
            assert(decimal(m as nat) == decimal((m / 10) as nat).push(digit_char((m % 10) as nat)));
            assert(decimal((m / 10) as nat) + new_low =~= decimal((m / 10) as nat).push(digit_char((m % 10) as nat)) + low);
            assert forall|i: int| 0 <= i < new_low.len() implies #[trigger] rev@[i] == new_low[new_low.len() - 1 - i] by {
                if i < low.len() {
                    assert(new_low[new_low.len() - 1 - i] == low[low.len() - 1 - i]);
                }
            }
            low = new_low;
        }
        m = m / 10;
    }
    let top = digit_of(m as u8);
    push_char(s, top);
    assert(decimal(m as nat) =~= seq![digit_char(m as nat)]);
    let ghost base = s@;
    let mut k: usize = rev.len();
    while k > 0
        invariant
            k <= rev@.len(),
            rev@.len() == low.len(),
            forall|i: int| 0 <= i < low.len() ==> #[trigger] rev@[i] == low[low.len() - 1 - i],
            s@ == base + low.subrange(0, low.len() - k),
        decreases k,
    {
        k = k - 1;
        let c = rev[k];
        push_char(s, c);
        proof {
            assert(low.subrange(0, low.len() - k) =~= low.subrange(0, low.len() - k - 1).push(low[low.len() - 1 - k]));
        }
    }
    assert(low.subrange(0, low.len() as int) =~= low);
    assert(base == old(s)@ + decimal(m as nat));
    assert(old(s)@ + decimal(n as nat) =~= base + low);
}

/// The decimal digits of `n`, as a new string.
pub fn decimal_string(n: u128) -> (s: String)
    ensures
        s@ == decimal(n as nat),
{
    let mut s = String::new();
    push_decimal(&mut s, n);
    assert(s@ =~= decimal(n as nat));
    s
}

/// The characters of a string slice.
pub fn chars_of(s: &str) -> (v: Vec<char>)
    ensures
        v@ == s@,
{
    broadcast use vstd::string::group_string_axioms;
    let mut v: Vec<char> = Vec::new();
    for c in it: s.chars()
        invariant
            v@.len() == it.index(),
            forall|i: int| 0 <= i < v@.len() ==> v@[i] == it.seq()[i],
            it.seq() == s@,
    {
        v.push(c);
    }
    assert(v@ =~= s@);
    v
}

/// Whether two character sequences are equal.
pub fn chars_equal(a: &Vec<char>, b: &Vec<char>) -> (r: bool)
    ensures
        r == (a@ == b@),
{
    if a.len() != b.len() {
        return false;
    }
    let mut i: usize = 0;
    while i < a.len()
        invariant
            a@.len() == b@.len(),
            i <= a@.len(),
            forall|j: int| 0 <= j < i ==> a@[j] == b@[j],
        decreases a@.len() - i,
    {
        if a[i] != b[i] {
            return false;
        }
        i = i + 1;
    }
    assert(a@ =~= b@);
    true
}

/// Whether two texts are equal.
pub fn text_equals(a: &str, b: &str) -> (r: bool)
    ensures
        r == (a@ == b@),
{
    let x = chars_of(a);
    let y = chars_of(b);
    chars_equal(&x, &y)
}

/// A string holding the given characters.
pub fn string_from_chars(v: &[char]) -> (s: String)
    ensures
        s@ == v@,
{
    let mut s = String::new();
    let mut i: usize = 0;
    while i < v.len()
        invariant
            i <= v@.len(),
            s@ == v@.subrange(0, i as int),
        decreases v@.len() - i,
    {
        push_char(&mut s, v[i]);
        assert(v@.subrange(0, i + 1) =~= v@.subrange(0, i as int).push(v@[i as int]));
        i = i + 1;
    }
    assert(v@.subrange(0, v@.len() as int) =~= v@);
    s
}

/// Whether a character is white space: the Unicode property White_Space,
/// which `char::is_whitespace` and `str::trim` go by.
pub open spec fn white_space(c: char) -> bool {
    ||| ('\u{9}' <= c && c <= '\u{d}')
    ||| c == ' '
    ||| c == '\u{85}'
    ||| c == '\u{a0}'
    ||| c == '\u{1680}'
    ||| ('\u{2000}' <= c && c <= '\u{200a}')
    ||| c == '\u{2028}'
    ||| c == '\u{2029}'
    ||| c == '\u{202f}'
    ||| c == '\u{205f}'
    ||| c == '\u{3000}'
}

pub fn is_white_space(c: char) -> (r: bool)
    ensures
        r == white_space(c),
{
    ('\u{9}' <= c && c <= '\u{d}') || c == ' ' || c == '\u{85}' || c == '\u{a0}' || c == '\u{1680}'
        || ('\u{2000}' <= c && c <= '\u{200a}') || c == '\u{2028}' || c == '\u{2029}' || c == '\u{202f}'
        || c == '\u{205f}' || c == '\u{3000}'
}

/// A text without white space at either end (`str::trim`): the part from
/// its first to its last character that is not white space.
pub open spec fn trimmed(s: Seq<char>, start: int, end: int) -> bool {
    &&& 0 <= start <= end <= s.len()
    &&& forall|i: int| 0 <= i < start ==> white_space(#[trigger] s[i])
    &&& forall|i: int| end <= i < s.len() ==> white_space(#[trigger] s[i])
    &&& start < end ==> !white_space(s[start]) && !white_space(s[end - 1])
}

/// `s` without white space at either end.
pub open spec fn trim_white_space(s: Seq<char>) -> Seq<char> {
    let (start, end) = choose|start: int, end: int| trimmed(s, start, end);
    s.subrange(start, end)
}

/// The bounds of the trimmed part are unique, so `trim_white_space` is the
/// part between any bounds that trim.
pub proof fn lemma_trimmed_unique(s: Seq<char>, start: int, end: int)
    requires
        trimmed(s, start, end),
    ensures
        trim_white_space(s) == s.subrange(start, end),
{
    let (a, b) = choose|a: int, b: int| trimmed(s, a, b);
    if start < end {
        if a < start {
            assert(!white_space(s[a]) || a == b);
            if a == b {
                assert(white_space(s[start]) || start >= b);
            }
        }
        if start < a {
            assert(white_space(s[start]));
        }
        if b < end {
            assert(white_space(s[end - 1]) || end - 1 < a);
        }
        if end < b {
            assert(white_space(s[b - 1]));
        }
        assert(a == start && b == end);
    } else {
        if a < b {
            assert(white_space(s[a]) || a >= end);
            assert(white_space(s[a]));
        }
        assert(s.subrange(a, b) =~= s.subrange(start, end));
    }
}

/// `str::trim`: the text without white space at either end.
pub fn trim_text(s: &str) -> (r: String)
    ensures
        r@ == trim_white_space(s@),
{
    let chars = chars_of(s);
    let mut start: usize = 0;
    while start < chars.len() && is_white_space(chars[start])
        invariant
            start <= chars@.len(),
            forall|i: int| 0 <= i < start ==> white_space(#[trigger] chars@[i]),
        decreases chars@.len() - start,
    {
        start = start + 1;
    }
    let mut end: usize = chars.len();
    while end > start && is_white_space(chars[end - 1])
        invariant
            start <= end <= chars@.len(),
            forall|i: int| end <= i < chars@.len() ==> white_space(#[trigger] chars@[i]),
        decreases end,
    {
        end = end - 1;
    }
    proof {
        assert(trimmed(s@, start as int, end as int));
        lemma_trimmed_unique(s@, start as int, end as int);
    }
    let r = string_from_chars(&chars.as_slice()[start..end]);
    assert(r@ =~= s@.subrange(start as int, end as int));
    r
}

} // verus!
