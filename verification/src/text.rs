//! Verified string utilities: lexicographic comparison, substring search,
//! prefix handling and decimal rendering, plus the one trusted wrapper
//! around Unicode lowercasing.
use vstd::prelude::*;
use vstd::string::StrSliceExecFns;
use vstd::string::StringExecFns;

verus! {

/// The sequence of characters that `str::to_lowercase` produces for `s`.
/// Unicode case mapping is a function of the characters alone, so the
/// result may be named even though it is far too large to write out.
pub uninterp spec fn lower_of(s: Seq<char>) -> Seq<char>;

/// Relies on `str::to_lowercase`: returns the lowercase equivalent of the
/// string, a pure function of its characters (no locale, no environment).
#[verifier::external_body]
pub(crate) fn to_lowercase(s: &str) -> (r: String)
    ensures
        r@ == lower_of(s@),
        s@.len() == 0 ==> r@.len() == 0,
{
    s.to_lowercase()
}

/// Lexicographic order on character sequences, by Unicode scalar value;
/// the order `str::cmp` uses.
pub open spec fn str_le(a: Seq<char>, b: Seq<char>) -> bool
    decreases a.len(),
{
    if a.len() == 0 {
        true
    } else if b.len() == 0 {
        false
    } else if a[0] == b[0] {
        str_le(a.skip(1), b.skip(1))
    } else {
        (a[0] as u32) < (b[0] as u32)
    }
}

/// `str_le` is total.
pub proof fn lemma_str_le_total(a: Seq<char>, b: Seq<char>)
    ensures
        str_le(a, b) || str_le(b, a),
    decreases a.len(),
{
    if a.len() == 0 {
    } else if b.len() == 0 {
    } else if a[0] == b[0] {
        lemma_str_le_total(a.skip(1), b.skip(1));
    } else {
        if (a[0] as u32) == (b[0] as u32) {
            vstd::utf8::char_u32_cast(a[0], a[0] as u32);
            vstd::utf8::char_u32_cast(b[0], b[0] as u32);
        }
    }
}

/// `str_le` is transitive.
pub proof fn lemma_str_le_trans(a: Seq<char>, b: Seq<char>, c: Seq<char>)
    requires
        str_le(a, b),
        str_le(b, c),
    ensures
        str_le(a, c),
    decreases a.len(),
{
    if a.len() == 0 {
    } else {
        // b and c must be nonempty, or a premise would be false.
        if a[0] == b[0] && b[0] == c[0] {
            lemma_str_le_trans(a.skip(1), b.skip(1), c.skip(1));
        } else {
            if (a[0] as u32) == (c[0] as u32) {
                vstd::utf8::char_u32_cast(a[0], a[0] as u32);
                vstd::utf8::char_u32_cast(c[0], c[0] as u32);
            }
        }
    }
}

/// Compares two strings in the order of `str_le`.
pub fn str_le_exec(a: &str, b: &str) -> (r: bool)
    ensures
        r == str_le(a@, b@),
    decreases a@.len(),
{
    let alen = a.unicode_len();
    let blen = b.unicode_len();
    if alen == 0 {
        true
    } else if blen == 0 {
        false
    } else {
        let ca = a.get_char(0);
        let cb = b.get_char(0);
        if ca == cb {
            let ra = a.substring_char(1, alen);
            let rb = b.substring_char(1, blen);
            proof {
                assert(ra@ =~= a@.skip(1));
                assert(rb@ =~= b@.skip(1));
            }
            str_le_exec(ra, rb)
        } else {
            (ca as u32) < (cb as u32)
        }
    }
}

/// `p` is a prefix of `s`.
pub open spec fn has_prefix(s: Seq<char>, p: Seq<char>) -> bool {
    p.len() <= s.len() && s.subrange(0, p.len() as int) == p
}

/// `needle` occurs contiguously somewhere in `hay`.
pub open spec fn has_sub(hay: Seq<char>, needle: Seq<char>) -> bool {
    exists|i: int|
        0 <= i && i + needle.len() <= hay.len() && #[trigger] hay.subrange(
            i,
            i + needle.len() as int,
        ) == needle
}

/// Whether `needle` matches `hay` starting at position `at`.
fn match_at(hay: &str, needle: &str, at: usize) -> (r: bool)
    requires
        at + needle@.len() <= hay@.len(),
    ensures
        r == (hay@.subrange(at as int, at + needle@.len()) == needle@),
{
    let hlen = hay.unicode_len();
    let nlen = needle.unicode_len();
    let ghost window = hay@.subrange(at as int, at + needle@.len());
    let mut j: usize = 0;
    while j < nlen
        invariant
            j <= nlen,
            at + nlen <= hlen,
            hlen == hay@.len(),
            nlen == needle@.len(),
            window == hay@.subrange(at as int, at + needle@.len()),
            forall|t: int| 0 <= t < j ==> window[t] == needle@[t],
        decreases nlen - j,
    {
        let ch = hay.get_char(at + j);
        let cn = needle.get_char(j);
        proof {
            assert(window[j as int] == hay@[at + j]);
        }
        if ch != cn {
            proof {
                assert(window != needle@);
            }
            return false;
        }
        j += 1;
    }
    proof {
        assert(window =~= needle@);
    }
    true
}

/// Substring search: whether `needle` occurs in `hay`.
pub fn contains_sub(hay: &str, needle: &str) -> (r: bool)
    ensures
        r == has_sub(hay@, needle@),
{
    let hlen = hay.unicode_len();
    let nlen = needle.unicode_len();
    if nlen > hlen {
        return false;
    }
    if nlen == 0 {
        proof {
            assert(hay@.subrange(0, 0 + needle@.len() as int) =~= needle@);
        }
        return true;
    }
    let mut i: usize = 0;
    while i <= hlen - nlen
        invariant
            0 < nlen <= hlen,
            hlen == hay@.len(),
            nlen == needle@.len(),
            i <= hlen - nlen + 1,
            forall|k: int|
                0 <= k < i ==> #[trigger] hay@.subrange(k, k + needle@.len()) != needle@,
        decreases hlen - i,
    {
        if match_at(hay, needle, i) {
            return true;
        }
        i += 1;
    }
    false
}

/// Prefix test: whether `s` begins with `p`.
pub fn starts_with_str(s: &str, p: &str) -> (r: bool)
    ensures
        r == has_prefix(s@, p@),
{
    let slen = s.unicode_len();
    let plen = p.unicode_len();
    if plen > slen {
        return false;
    }
    match_at(s, p, 0)
}

/// `p` is a suffix of `s`.
pub open spec fn has_suffix(s: Seq<char>, p: Seq<char>) -> bool {
    p.len() <= s.len() && s.subrange(s.len() - p.len(), s.len() as int) == p
}

/// Suffix test: whether `s` ends with `p`.
pub fn ends_with_str(s: &str, p: &str) -> (r: bool)
    ensures
        r == has_suffix(s@, p@),
{
    let slen = s.unicode_len();
    let plen = p.unicode_len();
    if plen > slen {
        return false;
    }
    let r = match_at(s, p, slen - plen);
    r
}

/// String equality on `&str`.
pub fn str_eq(a: &str, b: &str) -> (r: bool)
    ensures
        r == (a@ == b@),
{
    let alen = a.unicode_len();
    let blen = b.unicode_len();
    if alen != blen {
        return false;
    }
    let r = match_at(a, b, 0);
    proof {
        assert(a@.subrange(0, b@.len() as int) =~= a@);
    }
    r
}

/// The character for one decimal digit.
pub open spec fn digit_char(d: nat) -> char {
    if d == 0 {
        '0'
    } else if d == 1 {
        '1'
    } else if d == 2 {
        '2'
    } else if d == 3 {
        '3'
    } else if d == 4 {
        '4'
    } else if d == 5 {
        '5'
    } else if d == 6 {
        '6'
    } else if d == 7 {
        '7'
    } else if d == 8 {
        '8'
    } else {
        '9'
    }
}

/// The decimal rendering of a natural number, most significant digit first.
pub open spec fn dec_digits(n: nat) -> Seq<char>
    decreases n,
{
    if n < 10 {
        seq![digit_char(n)]
    } else {
        dec_digits(n / 10).push(digit_char(n % 10))
    }
}

/// One decimal digit as a string slice.
fn digit_str(d: u64) -> (r: &'static str)
    requires
        d < 10,
    ensures
        r@ == seq![digit_char(d as nat)],
{
    if d == 0 {
        proof {
            reveal_strlit("0");
            assert("0"@ =~= seq![digit_char(0)]);
        }
        "0"
    } else if d == 1 {
        proof {
            reveal_strlit("1");
            assert("1"@ =~= seq![digit_char(1)]);
        }
        "1"
    } else if d == 2 {
        proof {
            reveal_strlit("2");
            assert("2"@ =~= seq![digit_char(2)]);
        }
        "2"
    } else if d == 3 {
        proof {
            reveal_strlit("3");
            assert("3"@ =~= seq![digit_char(3)]);
        }
        "3"
    } else if d == 4 {
        proof {
            reveal_strlit("4");
            assert("4"@ =~= seq![digit_char(4)]);
        }
        "4"
    } else if d == 5 {
        proof {
            reveal_strlit("5");
            assert("5"@ =~= seq![digit_char(5)]);
        }
        "5"
    } else if d == 6 {
        proof {
            reveal_strlit("6");
            assert("6"@ =~= seq![digit_char(6)]);
        }
        "6"
    } else if d == 7 {
        proof {
            reveal_strlit("7");
            assert("7"@ =~= seq![digit_char(7)]);
        }
        "7"
    } else if d == 8 {
        proof {
            reveal_strlit("8");
            assert("8"@ =~= seq![digit_char(8)]);
        }
        "8"
    } else {
        proof {
            reveal_strlit("9");
            assert("9"@ =~= seq![digit_char(9)]);
        }
        "9"
    }
}

/// `num` out of `den` in tenths of a percent, rounded to the nearest
/// tenth (halves up); 0 when `den` is 0, so an empty denominator never
/// divides by zero.
pub open spec fn rate_tenths(num: nat, den: nat) -> nat {
    if den == 0 {
        0
    } else {
        (num * 1000 + den / 2) / den
    }
}

/// The rendering of a tenths-of-a-percent value with one decimal place.
pub open spec fn tenths_view(t: nat) -> Seq<char> {
    dec_digits(t / 10) + "."@ + dec_digits(t % 10)
}

/// Computes `num` out of `den` in tenths of a percent, rounded to the
/// nearest tenth.
pub fn ratio_tenths(num: usize, den: usize) -> (r: u64)
    requires
        num <= den,
    ensures
        r as nat == rate_tenths(num as nat, den as nat),
{
    if den == 0 {
        0
    } else {
        let wide = (num as u128) * 1000 + (den as u128) / 2;
        let q = wide / (den as u128);
        proof {
            let x = (num as int) * 1000 + (den as int) / 2;
            let d = den as int;
            vstd::arithmetic::mul::lemma_mul_inequality(num as int, den as int, 1000);
            assert(d / 2 <= d - 1);
            assert(x <= 1001 * d - 1);
            vstd::arithmetic::div_mod::lemma_fundamental_div_mod_converse(
                1001 * d - 1,
                d,
                1000,
                d - 1,
            );
            vstd::arithmetic::div_mod::lemma_div_is_ordered(x, 1001 * d - 1, d);
        }
        q as u64
    }
}

/// Renders a number in decimal.
pub fn u64_to_string(n: u64) -> (r: String)
    ensures
        r@ == dec_digits(n as nat),
    decreases n,
{
    if n < 10 {
        let mut s = String::new();
        s.append(digit_str(n));
        proof {
            assert(s@ =~= dec_digits(n as nat));
        }
        s
    } else {
        let mut s = u64_to_string(n / 10);
        s.append(digit_str(n % 10));
        proof {
            assert(s@ =~= dec_digits(n as nat));
        }
        s
    }
}

/// Relies on `String::push`: appends the character to the end of the
/// string.
#[verifier::external_body]
pub(crate) fn push_char(s: &mut String, c: char)
    ensures
        final(s)@ == old(s)@.push(c),
{
    s.push(c);
}

/// Relies on `String::pop`: removes and returns the last character, or
/// `None` when the string is empty.
#[verifier::external_body]
pub(crate) fn pop_char(s: &mut String) -> (r: Option<char>)
    ensures
        old(s)@.len() == 0 ==> r is None && final(s)@ == old(s)@,
        old(s)@.len() > 0 ==> r == Some(old(s)@.last()) && final(s)@ == old(s)@.drop_last(),
{
    s.pop()
}

/// Renders a tenths-of-a-percent value with one decimal place.
pub fn tenths_string(t: u64) -> (r: String)
    ensures
        r@ == tenths_view(t as nat),
{
    let mut s = u64_to_string(t / 10);
    s.append(".");
    let frac = u64_to_string(t % 10);
    s.append(frac.as_str());
    s
}


/// An ASCII whitespace character: what trims and tokenisation treat as a
/// space.
pub open spec fn is_space(c: char) -> bool {
    c == ' ' || c == '\t' || c == '\n' || c == '\r'
}

/// Whether `c` is an ASCII whitespace character.
pub fn is_space_exec(c: char) -> (r: bool)
    ensures
        r == is_space(c),
{
    c == ' ' || c == '\t' || c == '\n' || c == '\r'
}

/// `s` with its leading spaces dropped.
pub open spec fn trim_front(s: Seq<char>) -> Seq<char>
    decreases s.len(),
{
    if s.len() > 0 && is_space(s[0]) {
        trim_front(s.skip(1))
    } else {
        s
    }
}

/// `s` with its trailing spaces dropped.
pub open spec fn trim_back(s: Seq<char>) -> Seq<char>
    decreases s.len(),
{
    if s.len() > 0 && is_space(s.last()) {
        trim_back(s.drop_last())
    } else {
        s
    }
}

/// `s` with leading and trailing spaces dropped.
pub open spec fn trim_of(s: Seq<char>) -> Seq<char> {
    trim_back(trim_front(s))
}

fn trim_front_exec(s: &str) -> (r: &str)
    ensures
        r@ == trim_front(s@),
    decreases s@.len(),
{
    let n = s.unicode_len();
    if n > 0 && is_space_exec(s.get_char(0)) {
        let rest = s.substring_char(1, n);
        proof {
            assert(rest@ =~= s@.skip(1));
        }
        trim_front_exec(rest)
    } else {
        s
    }
}

fn trim_back_exec(s: &str) -> (r: &str)
    ensures
        r@ == trim_back(s@),
    decreases s@.len(),
{
    let n = s.unicode_len();
    if n > 0 && is_space_exec(s.get_char(n - 1)) {
        let rest = s.substring_char(0, n - 1);
        proof {
            assert(rest@ =~= s@.drop_last());
        }
        trim_back_exec(rest)
    } else {
        s
    }
}

/// Drops leading and trailing spaces.
pub fn trim_exec(s: &str) -> (r: &str)
    ensures
        r@ == trim_of(s@),
{
    trim_back_exec(trim_front_exec(s))
}

} // verus!
