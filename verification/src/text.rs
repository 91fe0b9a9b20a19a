//! Plain text helpers: whitespace trimming and decimal rendering of
//! integers, with exact specifications.

use vstd::prelude::*;
use vstd::string::StrSliceExecFns;
use vstd::string::StringExecFns;

verus! {

/// A character of the Unicode `White_Space` class, the class that
/// `str::trim` removes.
pub open spec fn is_wspace(c: char) -> bool {
    let u = c as u32;
    ||| u == 0x09
    ||| u == 0x0A
    ||| u == 0x0B
    ||| u == 0x0C
    ||| u == 0x0D
    ||| u == 0x20
    ||| u == 0x85
    ||| u == 0xA0
    ||| u == 0x1680
    ||| (0x2000 <= u && u <= 0x200A)
    ||| u == 0x2028
    ||| u == 0x2029
    ||| u == 0x202F
    ||| u == 0x205F
    ||| u == 0x3000
}

fn is_wspace_char(c: char) -> (r: bool)
    ensures
        r == is_wspace(c),
{
    let u = c as u32;
    u == 0x09 || u == 0x0A || u == 0x0B || u == 0x0C || u == 0x0D || u == 0x20 || u == 0x85
        || u == 0xA0 || u == 0x1680 || (0x2000 <= u && u <= 0x200A) || u == 0x2028 || u == 0x2029
        || u == 0x202F || u == 0x205F || u == 0x3000
}

/// The given text with every leading white-space character removed.
pub open spec fn ltrim_spec(s: Seq<char>) -> Seq<char>
    decreases s.len(),
{
    if s.len() > 0 && is_wspace(s[0]) {
        ltrim_spec(s.skip(1))
    } else {
        s
    }
}

/// The given text with every trailing white-space character removed.
pub open spec fn rtrim_spec(s: Seq<char>) -> Seq<char>
    decreases s.len(),
{
    if s.len() > 0 && is_wspace(s[s.len() - 1]) {
        rtrim_spec(s.take(s.len() - 1))
    } else {
        s
    }
}

/// The given text with leading and trailing white space removed.
pub open spec fn trim_spec(s: Seq<char>) -> Seq<char> {
    rtrim_spec(ltrim_spec(s))
}

proof fn lemma_ltrim_skip(s: Seq<char>, a: int)
    requires
        0 <= a < s.len(),
        is_wspace(s[a]),
        ltrim_spec(s) == ltrim_spec(s.skip(a)),
    ensures
        ltrim_spec(s) == ltrim_spec(s.skip(a + 1)),
{
    assert(s.skip(a).skip(1) =~= s.skip(a + 1));
}

proof fn lemma_rtrim_take(s: Seq<char>, a: int, b: int)
    requires
        0 <= a < b <= s.len(),
        is_wspace(s[b - 1]),
        rtrim_spec(s.skip(a)) == rtrim_spec(s.subrange(a, b)),
    ensures
        rtrim_spec(s.skip(a)) == rtrim_spec(s.subrange(a, b - 1)),
{
    let t = s.subrange(a, b);
    assert(t.len() == b - a);
    assert(t[t.len() - 1] == s[b - 1]);
    assert(t.take(t.len() - 1) =~= s.subrange(a, b - 1));
}

/// Removes leading and trailing white space, as `trim_spec` says.
pub fn trim_str<'a>(s: &'a str) -> (r: &'a str)
    ensures
        r@ == trim_spec(s@),
{
    let n = s.unicode_len();
    let mut a: usize = 0;
    proof {
        assert(s@.skip(0) =~= s@);
    }
    while a < n && is_wspace_char(s.get_char(a))
        invariant
            a <= n,
            n == s@.len(),
            ltrim_spec(s@) == ltrim_spec(s@.skip(a as int)),
        decreases n - a,
    {
        proof {
            lemma_ltrim_skip(s@, a as int);
        }
        a = a + 1;
    }
    if a == n {
        proof {
            assert(s@.skip(a as int) =~= Seq::<char>::empty());
            assert(s@.subrange(a as int, a as int) =~= Seq::<char>::empty());
        }
        let r = s.substring_char(a, a);
        return r;
    }
    assert(ltrim_spec(s@) == s@.skip(a as int));
    let mut b: usize = n;
    while b > a && is_wspace_char(s.get_char(b - 1))
        invariant
            a <= b <= n,
            a < n,
            n == s@.len(),
            ltrim_spec(s@) == s@.skip(a as int),
            rtrim_spec(s@.skip(a as int)) == rtrim_spec(s@.subrange(a as int, b as int)),
        decreases b,
    {
        proof {
            lemma_rtrim_take(s@, a as int, b as int);
        }
        b = b - 1;
    }
    proof {
        if b == a {
            assert(s@.subrange(a as int, a as int) =~= Seq::<char>::empty());
        }
    }
    s.substring_char(a, b)
}

/// Removes leading white space, as `ltrim_spec` says.
pub fn ltrim_str<'a>(s: &'a str) -> (r: &'a str)
    ensures
        r@ == ltrim_spec(s@),
{
    let n = s.unicode_len();
    let mut a: usize = 0;
    proof {
        assert(s@.skip(0) =~= s@);
    }
    while a < n && is_wspace_char(s.get_char(a))
        invariant
            a <= n,
            n == s@.len(),
            ltrim_spec(s@) == ltrim_spec(s@.skip(a as int)),
        decreases n - a,
    {
        proof {
            lemma_ltrim_skip(s@, a as int);
        }
        a = a + 1;
    }
    proof {
        if a == n {
            assert(s@.skip(a as int) =~= Seq::<char>::empty());
        }
        assert(s@.subrange(a as int, n as int) =~= s@.skip(a as int));
    }
    s.substring_char(a, n)
}

/// Relies on std's `String::push`: appends exactly the given character.
#[verifier::external_body]
pub(crate) fn push_char(s: &mut String, c: char)
    ensures
        final (s)@ == old(s)@.push(c),
{
    s.push(c);
}

/// The decimal digit character for a value below ten.
pub open spec fn dec_digit(d: int) -> char {
    if d == 0 {
        '0'
    } else if d == 1 {
        '1'
    } else if d == 2 {
        '2'
    } else if d == 3 {
        '3'
    } else if d == 4 {
        '4'
    } else if d == 5 {
        '5'
    } else if d == 6 {
        '6'
    } else if d == 7 {
        '7'
    } else if d == 8 {
        '8'
    } else {
        '9'
    }
}

/// The lower-case hexadecimal digit character for a value below sixteen.
pub open spec fn hex_digit(d: int) -> char {
    if d < 10 {
        dec_digit(d)
    } else if d == 10 {
        'a'
    } else if d == 11 {
        'b'
    } else if d == 12 {
        'c'
    } else if d == 13 {
        'd'
    } else if d == 14 {
        'e'
    } else {
        'f'
    }
}

/// The hexadecimal digit character for a value below sixteen.
pub fn hex_char(d: u32) -> (c: char)
    requires
        d < 16,
    ensures
        c == hex_digit(d as int),
{
    if d == 0 {
        '0'
    } else if d == 1 {
        '1'
    } else if d == 2 {
        '2'
    } else if d == 3 {
        '3'
    } else if d == 4 {
        '4'
    } else if d == 5 {
        '5'
    } else if d == 6 {
        '6'
    } else if d == 7 {
        '7'
    } else if d == 8 {
        '8'
    } else if d == 9 {
        '9'
    } else if d == 10 {
        'a'
    } else if d == 11 {
        'b'
    } else if d == 12 {
        'c'
    } else if d == 13 {
        'd'
    } else if d == 14 {
        'e'
    } else {
        'f'
    }
}

/// Compares two string slices character by character.
pub fn str_eq(a: &str, b: &str) -> (r: bool)
    ensures
        r == (a@ == b@),
{
    let na = a.unicode_len();
    let nb = b.unicode_len();
    if na != nb {
        proof {
            assert(a@.len() != b@.len());
        }
        return false;
    }
    let mut i: usize = 0;
    while i < na
        invariant
            i <= na,
            na == a@.len(),
            na == b@.len(),
            forall|j: int| 0 <= j < i ==> a@[j] == b@[j],
        decreases na - i,
    {
        if a.get_char(i) != b.get_char(i) {
            proof {
                assert(a@[i as int] != b@[i as int]);
            }
            return false;
        }
        i = i + 1;
    }
    proof {
        assert(a@ =~= b@);
    }
    true
}

/// The decimal digits of a non-negative integer, most significant first.
pub open spec fn dec_spec(n: int) -> Seq<char>
    decreases n,
{
    if n < 10 {
        seq![dec_digit(n)]
    } else {
        dec_spec(n / 10).push(dec_digit(n % 10))
    }
}

pub fn digit_char(d: u64) -> (c: char)
    requires
        d < 10,
    ensures
        c == dec_digit(d as int),
{
    if d == 0 {
        '0'
    } else if d == 1 {
        '1'
    } else if d == 2 {
        '2'
    } else if d == 3 {
        '3'
    } else if d == 4 {
        '4'
    } else if d == 5 {
        '5'
    } else if d == 6 {
        '6'
    } else if d == 7 {
        '7'
    } else if d == 8 {
        '8'
    } else {
        '9'
    }
}

/// Renders a non-negative integer in decimal.
pub fn u64_to_string(n: u64) -> (r: String)
    ensures
        r@ == dec_spec(n as int),
    decreases n,
{
    if n < 10 {
        let mut s = String::new();
        push_char(&mut s, digit_char(n));
        proof {
            assert(s@ =~= seq![dec_digit(n as int)]);
        }
        s
    } else {
        let mut s = u64_to_string(n / 10);
        push_char(&mut s, digit_char(n % 10));
        s
    }
}

/// The decimal digits of an integer, with a leading minus sign when it is
/// negative.
pub open spec fn int_dec_spec(n: int) -> Seq<char> {
    if n >= 0 {
        dec_spec(n)
    } else {
        seq!['-'] + dec_spec(-n)
    }
}

/// Renders a signed integer in decimal.
pub fn i64_to_string(n: i64) -> (r: String)
    ensures
        r@ == int_dec_spec(n as int),
{
    if n >= 0 {
        u64_to_string(n as u64)
    } else {
        let wide: i128 = n as i128;
        let neg: i128 = -wide;
        assert(0 <= neg <= u64::MAX);
        let mag: u64 = neg as u64;
        assert(mag == -(n as int));
        let mut s = String::new();
        push_char(&mut s, '-');
        let digits = u64_to_string(mag);
        s.append(digits.as_str());
        proof {
            assert(s@ =~= seq!['-'] + dec_spec(-(n as int)));
        }
        s
    }
}

} // verus!
