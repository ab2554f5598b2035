//! Text as sequences of characters: searching, replacing, case folding and
//! decimal numerals.

use vstd::prelude::*;
use vstd::string::*;

verus! {

/// `needle` stands in `hay` at index `i`.
pub open spec fn occurs_at(hay: Seq<char>, needle: Seq<char>, i: int) -> bool {
    0 <= i && i + needle.len() <= hay.len() && hay.subrange(i, i + needle.len()) == needle
}

/// `needle` stands somewhere in `hay`; the empty needle stands everywhere.
pub open spec fn contains(hay: Seq<char>, needle: Seq<char>) -> bool {
    exists|i: int| occurs_at(hay, needle, i)
}

/// `hay` with every occurrence of `from` replaced by `to`, found from the left
/// and never overlapping.  An empty `from` replaces nothing.
pub open spec fn replaced(hay: Seq<char>, from: Seq<char>, to: Seq<char>) -> Seq<char>
    decreases hay.len(),
{
    if from.len() == 0 || hay.len() < from.len() {
        hay
    } else if hay.subrange(0, from.len() as int) == from {
        to + replaced(hay.subrange(from.len() as int, hay.len() as int), from, to)
    } else {
        seq![hay[0]] + replaced(hay.subrange(1, hay.len() as int), from, to)
    }
}

/// The ASCII lower-case form of one character.
pub open spec fn lower(c: char) -> char {
    if 'A' <= c && c <= 'Z' {
        ((c as u8) + 32) as char
    } else {
        c
    }
}

/// The ASCII lower-case form of a text.
pub open spec fn lowered(s: Seq<char>) -> Seq<char> {
    Seq::new(s.len(), |i: int| lower(s[i]))
}

/// Unicode white space.
pub open spec fn is_space(c: char) -> bool {
    ||| ('\u{9}' <= c && c <= '\u{d}')
    ||| c == ' '
    ||| c == '\u{85}'
    ||| c == '\u{a0}'
    ||| c == '\u{1680}'
    ||| ('\u{2000}' <= c && c <= '\u{200a}')
    ||| c == '\u{2028}'
    ||| c == '\u{2029}'
    ||| c == '\u{202f}'
    ||| c == '\u{205f}'
    ||| c == '\u{3000}'
}

/// Nothing but white space.
pub open spec fn blank(s: Seq<char>) -> bool {
    forall|i: int| 0 <= i < s.len() ==> is_space(#[trigger] s[i])
}

/// The character of a decimal digit.
pub open spec fn digit(d: nat) -> char
    recommends
        d < 10,
{
    if d == 0 {
        '0'
    } else if d == 1 {
        '1'
    } else if d == 2 {
        '2'
    } else if d == 3 {
        '3'
    } else if d == 4 {
        '4'
    } else if d == 5 {
        '5'
    } else if d == 6 {
        '6'
    } else if d == 7 {
        '7'
    } else if d == 8 {
        '8'
    } else {
        '9'
    }
}

/// The decimal numeral of `n`, without sign or leading zeros.
pub open spec fn decimal(n: nat) -> Seq<char>
    decreases n,
{
    if n < 10 {
        seq![digit(n)]
    } else {
        decimal(n / 10).push(digit(n % 10))
    }
}

/// How many bytes the UTF-8 form of `s` takes.
pub open spec fn byte_len(s: Seq<char>) -> nat {
    vstd::utf8::encode_utf8(s).len()
}

/// How many bytes `s` takes.
pub fn utf8_len(s: &str) -> (n: usize)
    ensures
        n == byte_len(s@),
{
    s.as_bytes().len()
}

/// The characters of `s`, one by one.
pub fn chars_of(s: &str) -> (v: Vec<char>)
    ensures
        v@ == s@,
{
    let mut v: Vec<char> = Vec::new();
    for c in it: s.chars()
        invariant
            it.seq() == s@,
            v@ == s@.take(it.index() as int),
    {
        v.push(c);
        assert(v@ =~= s@.take(it.index() + 1));
    }
    assert(s@.take(s@.len() as int) =~= s@);
    v
}

/// Lower-cases one character.
pub fn to_lower(c: char) -> (r: char)
    ensures
        r == lower(c),
{
    if 'A' <= c && c <= 'Z' {
        ((c as u8) + 32) as char
    } else {
        c
    }
}

/// Tells white space from the rest.
pub fn is_space_char(c: char) -> (b: bool)
    ensures
        b == is_space(c),
{
    ('\u{9}' <= c && c <= '\u{d}') || c == ' ' || c == '\u{85}' || c == '\u{a0}' || c
        == '\u{1680}' || ('\u{2000}' <= c && c <= '\u{200a}') || c == '\u{2028}' || c
        == '\u{2029}' || c == '\u{202f}' || c == '\u{205f}' || c == '\u{3000}'
}

/// Whether `needle` stands in `hay` at index `i`.
pub fn matches_at(hay: &Vec<char>, needle: &Vec<char>, i: usize) -> (b: bool)
    ensures
        b == occurs_at(hay@, needle@, i as int),
{
    if needle.len() > hay.len() || i > hay.len() - needle.len() {
        return false;
    }
    let mut k: usize = 0;
    while k < needle.len()
        invariant
            k <= needle.len(),
            i + needle.len() <= hay.len(),
            forall|j: int| 0 <= j < k ==> hay@[i + j] == needle@[j],
        decreases needle.len() - k,
    {
        if hay[i + k] != needle[k] {
            assert(hay@.subrange(i as int, i + needle.len())[k as int] != needle@[k as int]);
            return false;
        }
        k = k + 1;
    }
    assert(hay@.subrange(i as int, i + needle.len()) =~= needle@);
    true
}

/// The first index at or after `start` where `needle` stands in `hay`.
pub fn find_from(hay: &Vec<char>, needle: &Vec<char>, start: usize) -> (r: Option<usize>)
    ensures
        match r {
            Some(i) => start <= i && occurs_at(hay@, needle@, i as int) && forall|j: int|
                start <= j < i ==> !occurs_at(hay@, needle@, j),
            None => forall|j: int| start <= j ==> !occurs_at(hay@, needle@, j),
        },
{
    if needle.len() > hay.len() {
        return None;
    }
    let last: usize = hay.len() - needle.len();
    let mut i: usize = start;
    while i <= last
        invariant
            start <= i,
            last == hay.len() - needle.len(),
            forall|j: int| start <= j < i ==> !occurs_at(hay@, needle@, j),
        decreases last - i,
    {
        if matches_at(hay, needle, i) {
            return Some(i);
        }
        if i == last {
            return None;
        }
        i = i + 1;
    }
    None
}

/// Whether `needle` stands somewhere in `hay`.
pub fn contains_text(hay: &str, needle: &str) -> (b: bool)
    ensures
        b == contains(hay@, needle@),
{
    let h = chars_of(hay);
    let n = chars_of(needle);
    find_from(&h, &n, 0).is_some()
}

/// Whether `s` holds the character `c`.
pub fn contains_char(s: &str, c: char) -> (b: bool)
    ensures
        b == s@.contains(c),
{
    let v = chars_of(s);
    let mut i: usize = 0;
    while i < v.len()
        invariant
            i <= v.len(),
            v@ == s@,
            forall|j: int| 0 <= j < i ==> s@[j] != c,
        decreases v.len() - i,
    {
        if v[i] == c {
            return true;
        }
        i = i + 1;
    }
    false
}

/// Whether the last character of `s` is `c`.
pub fn ends_with_char(s: &str, c: char) -> (b: bool)
    ensures
        b == (s@.len() > 0 && s@.last() == c),
{
    let v = chars_of(s);
    v.len() > 0 && v[v.len() - 1] == c
}

/// Whether two texts are the same.
pub fn same_text(a: &str, b: &str) -> (r: bool)
    ensures
        r == (a@ == b@),
{
    let x = chars_of(a);
    let y = chars_of(b);
    if x.len() != y.len() {
        return false;
    }
    let mut i: usize = 0;
    while i < x.len()
        invariant
            i <= x.len(),
            x.len() == y.len(),
            x@ == a@,
            y@ == b@,
            forall|j: int| 0 <= j < i ==> x@[j] == y@[j],
        decreases x.len() - i,
    {
        if x[i] != y[i] {
            return false;
        }
        i = i + 1;
    }
    assert(x@ =~= y@);
    true
}

/// Whether `raw`, lower-cased, reads `folded`.
pub fn lowered_is(raw: &str, folded: &str) -> (r: bool)
    ensures
        r == (lowered(raw@) == folded@),
{
    let x = chars_of(raw);
    let y = chars_of(folded);
    if x.len() != y.len() {
        assert(lowered(raw@).len() != folded@.len());
        return false;
    }
    let mut i: usize = 0;
    while i < x.len()
        invariant
            i <= x.len(),
            x.len() == y.len(),
            x@ == raw@,
            y@ == folded@,
            forall|j: int| 0 <= j < i ==> lower(x@[j]) == y@[j],
        decreases x.len() - i,
    {
        if to_lower(x[i]) != y[i] {
            assert(lowered(x@)[i as int] != y@[i as int]);
            return false;
        }
        i = i + 1;
    }
    assert(lowered(x@) =~= y@);
    true
}

/// Whether two texts read the same once both are lower-cased.
pub fn same_lowered(a: &str, b: &str) -> (r: bool)
    ensures
        r == (lowered(a@) == lowered(b@)),
{
    let x = chars_of(a);
    let y = chars_of(b);
    if x.len() != y.len() {
        assert(lowered(a@).len() != lowered(b@).len());
        return false;
    }
    let mut i: usize = 0;
    while i < x.len()
        invariant
            i <= x.len(),
            x.len() == y.len(),
            x@ == a@,
            y@ == b@,
            forall|j: int| 0 <= j < i ==> lower(x@[j]) == lower(y@[j]),
        decreases x.len() - i,
    {
        if to_lower(x[i]) != to_lower(y[i]) {
            assert(lowered(x@)[i as int] != lowered(y@)[i as int]);
            return false;
        }
        i = i + 1;
    }
    assert(lowered(x@) =~= lowered(y@));
    true
}

/// Whether `s` is nothing but white space.
pub fn is_blank(s: &str) -> (b: bool)
    ensures
        b == blank(s@),
{
    let v = chars_of(s);
    let mut i: usize = 0;
    while i < v.len()
        invariant
            i <= v.len(),
            v@ == s@,
            forall|j: int| 0 <= j < i ==> is_space(#[trigger] s@[j]),
        decreases v.len() - i,
    {
        if !is_space_char(v[i]) {
            return false;
        }
        i = i + 1;
    }
    true
}

/// `a` followed by `b`.
pub fn appended(a: &str, b: &str) -> (r: String)
    ensures
        r@ == a@ + b@,
{
    let mut r = String::from_str(a);
    r.append(b);
    r
}

/// `hay` with every occurrence of `from` replaced by `to`.
pub fn replace(hay: &str, from: &str, to: &str) -> (r: String)
    ensures
        r@ == replaced(hay@, from@, to@),
{
    let h = chars_of(hay);
    let f = chars_of(from);
    if f.len() == 0 || f.len() > h.len() {
        return String::from_str(hay);
    }
    let ghost whole = replaced(h@, f@, to@);
    let n: usize = h.len();
    let mut out = String::new();
    let mut seg: usize = 0;
    let mut i: usize = 0;
    assert(h@.subrange(0, 0) =~= Seq::<char>::empty());
    assert(h@.subrange(0, n as int) =~= h@);
    assert(out@ + h@.subrange(0, 0) + whole =~= whole);
    while n - i >= f.len()
        invariant
            seg <= i <= n,
            n == h.len(),
            h@ == hay@,
            f@ == from@,
            0 < f.len() <= n,
            whole == out@ + h@.subrange(seg as int, i as int) + replaced(
                h@.subrange(i as int, n as int),
                f@,
                to@,
            ),
        decreases n - i,
    {
        let ghost rest = h@.subrange(i as int, n as int);
        if matches_at(&h, &f, i) {
            proof {
                assert(rest.subrange(0, f.len() as int) =~= h@.subrange(i as int, i + f.len()));
                assert(rest.subrange(f.len() as int, rest.len() as int) =~= h@.subrange(
                    i + f.len(),
                    n as int,
                ));
            }
            out.append(hay.substring_char(seg, i));
            out.append(to);
            i = i + f.len();
            seg = i;
            proof {
                assert(h@.subrange(seg as int, i as int) =~= Seq::<char>::empty());
                assert(whole =~= out@ + h@.subrange(seg as int, i as int) + replaced(
                    h@.subrange(i as int, n as int),
                    f@,
                    to@,
                ));
            }
        } else {
            proof {
                assert(rest.subrange(0, f.len() as int) =~= h@.subrange(i as int, i + f.len()));
                assert(rest.subrange(1, rest.len() as int) =~= h@.subrange(i + 1, n as int));
                assert(h@.subrange(seg as int, i as int) + seq![rest[0]] =~= h@.subrange(
                    seg as int,
                    i + 1,
                ));
                assert(whole =~= out@ + h@.subrange(seg as int, i + 1) + replaced(
                    h@.subrange(i + 1, n as int),
                    f@,
                    to@,
                ));
            }
            i = i + 1;
        }
    }
    proof {
        assert(h@.subrange(seg as int, i as int) + h@.subrange(i as int, n as int) =~= h@.subrange(
            seg as int,
            n as int,
        ));
        assert(whole =~= out@ + h@.subrange(seg as int, n as int));
    }
    out.append(hay.substring_char(seg, n));
    out
}

/// The numeral of one decimal digit.
fn digit_text(d: u32) -> (r: &'static str)
    requires
        d < 10,
    ensures
        r@ == seq![digit(d as nat)],
{
    proof {
        reveal_strlit("0");
        reveal_strlit("1");
        reveal_strlit("2");
        reveal_strlit("3");
        reveal_strlit("4");
        reveal_strlit("5");
        reveal_strlit("6");
        reveal_strlit("7");
        reveal_strlit("8");
        reveal_strlit("9");
    }
    let r = if d == 0 {
        "0"
    } else if d == 1 {
        "1"
    } else if d == 2 {
        "2"
    } else if d == 3 {
        "3"
    } else if d == 4 {
        "4"
    } else if d == 5 {
        "5"
    } else if d == 6 {
        "6"
    } else if d == 7 {
        "7"
    } else if d == 8 {
        "8"
    } else {
        "9"
    };
    assert(r@ =~= seq![digit(d as nat)]);
    r
}

/// The decimal numeral of `n`.
pub fn decimal_of(n: u32) -> (r: String)
    ensures
        r@ == decimal(n as nat),
    decreases n,
{
    if n < 10 {
        String::from_str(digit_text(n))
    } else {
        let mut r = decimal_of(n / 10);
        r.append(digit_text(n % 10));
        assert(r@ =~= decimal(n as nat));
        r
    }
}

} // verus!
