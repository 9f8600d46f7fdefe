//! Text helpers that the rest of the library builds on.

use vstd::prelude::*;
use vstd::std_specs::iter::IteratorSpec;
use vstd::string::StringSliceAdditionalSpecFns;
use vstd::utf8::{encode_utf8, encode_utf8_decode_utf8};

verus! {

broadcast use vstd::string::group_string_axioms;

/// Whether two pieces of text hold the same characters.
pub fn str_eq(a: &str, b: &str) -> (r: bool)
    ensures
        r == (a@ == b@),
{
    let x = a.as_bytes();
    let y = b.as_bytes();
    proof {
        encode_utf8_decode_utf8(a@);
        encode_utf8_decode_utf8(b@);
    }
    if x.len() != y.len() {
        return false;
    }
    let mut i: usize = 0;
    while i < x.len()
        invariant
            i <= x@.len(),
            x@.len() == y@.len(),
            x@ == encode_utf8(a@),
            y@ == encode_utf8(b@),
            forall|j: int| 0 <= j < i ==> x@[j] == y@[j],
        decreases x@.len() - i,
    {
        if x[i] != y[i] {
            return false;
        }
        i += 1;
    }
    assert(x@ =~= y@);
    true
}

/// The texts of a list of strings.
pub open spec fn views(items: Seq<String>) -> Seq<Seq<char>> {
    Seq::new(items.len(), |i: int| items[i]@)
}

/// The parts one after the other, with `sep` between each two.
pub open spec fn joined(parts: Seq<Seq<char>>, sep: Seq<char>) -> Seq<char>
    decreases parts.len(),
{
    if parts.len() == 0 {
        Seq::empty()
    } else if parts.len() == 1 {
        parts[0]
    } else {
        joined(parts.drop_last(), sep) + sep + parts.last()
    }
}

/// Joins the parts, with `sep` between each two.
pub fn join(parts: &Vec<String>, sep: &str) -> (r: String)
    ensures
        r@ == joined(views(parts@), sep@),
{
    let mut out = String::new();
    let mut i: usize = 0;
    assert(views(parts@).take(0) =~= Seq::<Seq<char>>::empty());
    while i < parts.len()
        invariant
            i <= parts@.len(),
            out@ == joined(views(parts@).take(i as int), sep@),
        decreases parts@.len() - i,
    {
        proof {
            let next = views(parts@).take(i as int + 1);
            assert(next.drop_last() =~= views(parts@).take(i as int));
            assert(next.last() == parts@[i as int]@);
        }
        if i > 0 {
            out.append(sep);
        }
        out.append(parts[i].as_str());
        proof {
            if i == 0 {
                assert(out@ =~= parts@[0]@);
            }
        }
        i += 1;
    }
    assert(views(parts@).take(parts@.len() as int) =~= views(parts@));
    out
}

/// Whether `needle` occurs in `haystack`.
pub open spec fn occurs_in(needle: Seq<char>, haystack: Seq<char>) -> bool {
    exists|i: int|
        0 <= i <= haystack.len() - needle.len() && #[trigger] haystack.subrange(
            i,
            i + needle.len(),
        ) == needle
}

/// Whether `needle` occurs in `haystack`.
pub fn contains_text(haystack: &Vec<char>, needle: &Vec<char>) -> (r: bool)
    ensures
        r == occurs_in(needle@, haystack@),
{
    let h = haystack.len();
    let n = needle.len();
    if n > h {
        return false;
    }
    let mut i: usize = 0;
    while i <= h - n
        invariant
            n <= h,
            h == haystack@.len(),
            n == needle@.len(),
            i <= h - n + 1,
            forall|x: int| 0 <= x < i ==> #[trigger] haystack@.subrange(x, x + n) != needle@,
        decreases h - n + 1 - i,
    {
        let mut j: usize = 0;
        while j < n && haystack[i + j] == needle[j]
            invariant
                j <= n,
                i + n <= h,
                h == haystack@.len(),
                n == needle@.len(),
                forall|y: int| 0 <= y < j ==> haystack@[i + y] == needle@[y],
            decreases n - j,
        {
            j += 1;
        }
        if j == n {
            assert(haystack@.subrange(i as int, i + n) =~= needle@);
            return true;
        }
        assert(haystack@.subrange(i as int, i + n)[j as int] != needle@[j as int]);
        i += 1;
    }
    false
}

/// The digit `d` as text.
pub open spec fn digit_of(d: int) -> Seq<char> {
    if d == 0 {
        "0"@
    } else if d == 1 {
        "1"@
    } else if d == 2 {
        "2"@
    } else if d == 3 {
        "3"@
    } else if d == 4 {
        "4"@
    } else if d == 5 {
        "5"@
    } else if d == 6 {
        "6"@
    } else if d == 7 {
        "7"@
    } else if d == 8 {
        "8"@
    } else {
        "9"@
    }
}

/// A natural number in decimal, without leading zeros.
pub open spec fn digits_of(n: nat) -> Seq<char>
    decreases n,
{
    if n < 10 {
        digit_of(n as int)
    } else {
        digits_of(n / 10) + digit_of((n % 10) as int)
    }
}

/// An integer in decimal, with a minus sign if it is negative.
pub open spec fn decimal_of(n: int) -> Seq<char> {
    if n < 0 {
        "-"@ + digits_of((-n) as nat)
    } else {
        digits_of(n as nat)
    }
}

fn digit(d: u64) -> (r: &'static str)
    requires
        d < 10,
    ensures
        r@ == digit_of(d as int),
{
    if d == 0 {
        "0"
    } else if d == 1 {
        "1"
    } else if d == 2 {
        "2"
    } else if d == 3 {
        "3"
    } else if d == 4 {
        "4"
    } else if d == 5 {
        "5"
    } else if d == 6 {
        "6"
    } else if d == 7 {
        "7"
    } else if d == 8 {
        "8"
    } else {
        "9"
    }
}

fn push_digits(out: &mut String, n: u64)
    ensures
        final(out)@ == old(out)@ + digits_of(n as nat),
    decreases n,
{
    if n >= 10 {
        push_digits(out, n / 10);
    }
    out.append(digit(n % 10));
    proof {
        if n >= 10 {
            assert(final(out)@ =~= old(out)@ + (digits_of((n / 10) as nat) + digit_of(
                (n % 10) as int,
            )));
        }
    }
}

/// An integer in decimal.
pub fn decimal(n: i64) -> (r: String)
    ensures
        r@ == decimal_of(n as int),
{
    let mut out = String::new();
    if n < 0 {
        out.append("-");
        let m: u64 = if n == i64::MIN {
            0x8000_0000_0000_0000u64
        } else {
            (-n) as u64
        };
        push_digits(&mut out, m);
    } else {
        push_digits(&mut out, n as u64);
        assert(out@ =~= digits_of(n as nat));
    }
    out
}

/// `s` with every letter replaced by its upper-case form, as Unicode defines
/// it.
pub uninterp spec fn uppercase(s: Seq<char>) -> Seq<char>;

/// `s` with every letter replaced by its lower-case form, as Unicode defines
/// it.
pub uninterp spec fn lowercase(s: Seq<char>) -> Seq<char>;

/// Calls `str::to_uppercase`.
///
/// Trusted: the result is that function's, which depends on the text alone.
#[verifier::external_body]
pub(crate) fn to_upper(s: &str) -> (r: String)
    ensures
        r@ == uppercase(s@),
{
    s.to_uppercase()
}

/// Calls `str::to_lowercase`.
///
/// Trusted: the result is that function's, which depends on the text alone.
#[verifier::external_body]
pub(crate) fn to_lower(s: &str) -> (r: String)
    ensures
        r@ == lowercase(s@),
{
    s.to_lowercase()
}

/// `s` with every single quote doubled, as a string literal of SQL needs it.
pub open spec fn escaped(s: Seq<char>) -> Seq<char>
    decreases s.len(),
{
    if s.len() == 0 {
        Seq::empty()
    } else if s.last() == '\'' {
        escaped(s.drop_last()) + seq!['\'', '\'']
    } else {
        escaped(s.drop_last()).push(s.last())
    }
}

/// A text with every single quote doubled.
pub fn double_quotes(s: &str) -> (r: String)
    ensures
        r@ == escaped(s@),
{
    let chars = chars_of(s);
    let mut out = String::from_str("");
    let mut start: usize = 0;
    let mut i: usize = 0;
    proof {
        reveal_strlit("");
        reveal_strlit("''");
        assert(out@ + s@.subrange(0, 0) =~= escaped(s@.take(0)));
    }
    while i < chars.len()
        invariant
            start <= i <= chars@.len(),
            chars@ == s@,
            "''"@ == seq!['\'', '\''],
            out@ + s@.subrange(start as int, i as int) == escaped(s@.take(i as int)),
        decreases chars@.len() - i,
    {
        let ghost upto = s@.take(i as int + 1);
        proof {
            assert(upto.drop_last() == s@.take(i as int));
            assert(upto.last() == s@[i as int]);
        }
        if chars[i] == '\'' {
            out.append(s.substring_char(start, i));
            out.append("''");
            start = i + 1;
            proof {
                assert(out@ + s@.subrange(start as int, i as int + 1) =~= escaped(upto));
            }
        } else {
            proof {
                assert(s@.subrange(start as int, i as int + 1) == s@.subrange(
                    start as int,
                    i as int,
                ).push(s@[i as int]));
                assert(out@ + s@.subrange(start as int, i as int + 1) =~= escaped(upto));
            }
        }
        i += 1;
    }
    out.append(s.substring_char(start, i));
    proof {
        assert(s@.take(i as int) == s@);
    }
    out
}

/// The integer that `str::parse` reads from a text, if it reads one that an
/// `i64` holds.
pub uninterp spec fn parsed_i64(s: Seq<char>) -> Option<i64>;

/// Calls `str::parse::<i64>`.
///
/// Trusted: the result is that function's, which depends on the text alone.
#[verifier::external_body]
pub(crate) fn parse_i64(s: &str) -> (r: Option<i64>)
    ensures
        r == parsed_i64(s@),
{
    s.parse::<i64>().ok()
}

/// Whether `c` is white space, as Unicode defines it.
pub open spec fn is_space(c: char) -> bool {
    let n = c as u32;
    (0x09 <= n && n <= 0x0d) || n == 0x20 || n == 0x85 || n == 0xa0 || n == 0x1680 || (0x2000 <= n
        && n <= 0x200a) || n == 0x2028 || n == 0x2029 || n == 0x202f || n == 0x205f || n == 0x3000
}

/// Where the white space at the front of `s` ends.
pub open spec fn trim_start(s: Seq<char>) -> int
    decreases s.len(),
{
    if s.len() > 0 && is_space(s[0]) {
        1 + trim_start(s.drop_first())
    } else {
        0
    }
}

/// Where the white space at the back of `s` begins.
pub open spec fn trim_end(s: Seq<char>) -> int
    decreases s.len(),
{
    if s.len() > 0 && is_space(s.last()) {
        trim_end(s.drop_last())
    } else {
        s.len() as int
    }
}

/// `s` without the white space at its front and back.
pub open spec fn trimmed(s: Seq<char>) -> Seq<char> {
    if trim_start(s) >= trim_end(s) {
        Seq::empty()
    } else {
        s.subrange(trim_start(s), trim_end(s))
    }
}

/// The characters of a text, one by one.
pub fn chars_of(s: &str) -> (r: Vec<char>)
    ensures
        r@ == s@,
{
    let mut out: Vec<char> = Vec::new();
    let mut it = s.chars();
    loop
        invariant
            out@ + it.remaining() == s@,
            it.decrease() is Some,
        decreases it.decrease()->0,
    {
        match it.next() {
            Some(c) => {
                out.push(c);
                assert(out@ + it.remaining() =~= s@);
            },
            None => {
                assert(out@ =~= s@);
                return out;
            },
        }
    }
}

fn space(c: char) -> (r: bool)
    ensures
        r == is_space(c),
{
    let n: u32 = c as u32;
    (0x09 <= n && n <= 0x0d) || n == 0x20 || n == 0x85 || n == 0xa0 || n == 0x1680 || (0x2000 <= n
        && n <= 0x200a) || n == 0x2028 || n == 0x2029 || n == 0x202f || n == 0x205f || n == 0x3000
}

proof fn lemma_trim_start_step(s: Seq<char>, i: int)
    requires
        0 <= i < s.len(),
        is_space(s[i]),
        forall|j: int| 0 <= j < i ==> is_space(s[j]),
    ensures
        trim_start(s.subrange(i, s.len() as int)) == 1 + trim_start(
            s.subrange(i + 1, s.len() as int),
        ),
{
    let t = s.subrange(i, s.len() as int);
    assert(t[0] == s[i]);
    assert(t.drop_first() =~= s.subrange(i + 1, s.len() as int));
}

/// Where the white space at the two ends of a text stops and starts.
fn trim_bounds(chars: &Vec<char>) -> (r: (usize, usize))
    ensures
        r.0 == trim_start(chars@),
        r.1 == trim_end(chars@),
        r.0 <= chars@.len(),
        r.1 <= chars@.len(),
{
    let n = chars.len();
    let mut lo: usize = 0;
    assert(chars@.subrange(0, n as int) =~= chars@);
    while lo < n && space(chars[lo])
        invariant
            lo <= n,
            n == chars@.len(),
            forall|j: int| 0 <= j < lo ==> is_space(chars@[j]),
            trim_start(chars@) == lo + trim_start(chars@.subrange(lo as int, n as int)),
        decreases n - lo,
    {
        proof {
            lemma_trim_start_step(chars@, lo as int);
        }
        lo += 1;
    }
    proof {
        let rest = chars@.subrange(lo as int, n as int);
        if lo < n {
            assert(rest[0] == chars@[lo as int]);
        }
        assert(trim_start(rest) == 0);
    }
    let mut hi: usize = n;
    assert(chars@.take(n as int) =~= chars@);
    while hi > 0 && space(chars[hi - 1])
        invariant
            hi <= n,
            n == chars@.len(),
            trim_end(chars@) == trim_end(chars@.take(hi as int)),
        decreases hi,
    {
        proof {
            let t = chars@.take(hi as int);
            assert(t.last() == chars@[hi - 1]);
            assert(t.drop_last() =~= chars@.take(hi - 1));
        }
        hi -= 1;
    }
    proof {
        let t = chars@.take(hi as int);
        if hi > 0 {
            assert(t.last() == chars@[hi - 1]);
        }
        assert(trim_end(t) == hi);
    }
    (lo, hi)
}

/// A text without the white space at its front and back.
pub fn trim_text(s: &str) -> (r: &str)
    ensures
        r@ == trimmed(s@),
{
    let all = chars_of(s);
    let (lo, hi) = trim_bounds(&all);
    if lo < hi {
        s.substring_char(lo, hi)
    } else {
        proof {
            reveal_strlit("");
        }
        assert(""@ =~= trimmed(s@));
        ""
    }
}

} // verus!
