//! Text helpers: comparison, prefixes, splitting, joining and decimal numbers.
//!
//! A text is modelled by its sequence of characters. Byte offsets, where they
//! matter, are offsets into the UTF-8 encoding of that sequence.

use vstd::prelude::*;
use vstd::string::*;
use vstd::utf8::*;

verus! {

/// Position of the first `c` in `s`, or the length of `s` where there is none.
pub open spec fn first_index(s: Seq<char>, c: char) -> int
    decreases s.len(),
{
    if s.len() == 0 || s[0] == c {
        0
    } else {
        1 + first_index(s.drop_first(), c)
    }
}

/// The parts of `s` between the separators `c`, in order; a text without `c`
/// is its own only part.
pub open spec fn segments(s: Seq<char>, c: char) -> Seq<Seq<char>>
    decreases s.len(),
{
    let i = first_index(s, c);
    if i < s.len() {
        proof {
            lemma_first_index(s, c);
        }
        seq![s.take(i)] + segments(s.skip(i + 1), c)
    } else {
        seq![s]
    }
}

/// The parts put back together with the separator `c` between neighbours.
pub open spec fn joined(parts: Seq<Seq<char>>, c: char) -> Seq<char>
    decreases parts.len(),
{
    if parts.len() == 0 {
        Seq::empty()
    } else if parts.len() == 1 {
        parts[0]
    } else {
        parts[0] + seq![c] + joined(parts.drop_first(), c)
    }
}

/// What is left of `s` behind the first `n` bytes of its encoding.
pub open spec fn byte_suffix(s: Seq<char>, n: int) -> Seq<char> {
    decode_utf8(encode_utf8(s).subrange(n, encode_utf8(s).len() as int))
}

/// `n` bytes of the encoding of `s` end where a character ends.
pub open spec fn sliceable(s: Seq<char>, n: int) -> bool {
    is_char_boundary(encode_utf8(s), n)
}

/// Digit characters, least value first.
pub open spec fn digit(d: int) -> char {
    (('0' as int) + d) as char
}

/// The decimal notation of `n`.
pub open spec fn decimal(n: nat) -> Seq<char>
    decreases n,
{
    if n < 10 {
        seq![digit(n as int)]
    } else {
        decimal(n / 10).push(digit((n % 10) as int))
    }
}

pub proof fn lemma_first_index(s: Seq<char>, c: char)
    ensures
        0 <= first_index(s, c) <= s.len(),
        first_index(s, c) < s.len() ==> s[first_index(s, c)] == c,
        forall|i: int| 0 <= i < first_index(s, c) ==> s[i] != c,
    decreases s.len(),
{
    if s.len() == 0 || s[0] == c {
    } else {
        lemma_first_index(s.drop_first(), c);
        assert forall|i: int| 0 <= i < first_index(s, c) implies s[i] != c by {
            if i > 0 {
                assert(s[i] == s.drop_first()[i - 1]);
            }
        }
    }
}

/// The first position is the only one that has no `c` before it and either
/// holds `c` or is the end.
pub proof fn lemma_first_index_is(s: Seq<char>, c: char, i: int)
    requires
        0 <= i <= s.len(),
        i < s.len() ==> s[i] == c,
        forall|j: int| 0 <= j < i ==> s[j] != c,
    ensures
        first_index(s, c) == i,
{
    lemma_first_index(s, c);
}

pub proof fn lemma_segments_nonempty(s: Seq<char>, c: char)
    ensures
        segments(s, c).len() >= 1,
{
    lemma_first_index(s, c);
}

/// Splitting loses nothing: the parts joined again are the text.
pub proof fn lemma_joined_segments(s: Seq<char>, c: char)
    ensures
        joined(segments(s, c), c) == s,
    decreases s.len(),
{
    lemma_first_index(s, c);
    let i = first_index(s, c);
    if i < s.len() {
        let rest = s.skip(i + 1);
        lemma_joined_segments(rest, c);
        lemma_segments_nonempty(rest, c);
        assert(segments(s, c).drop_first() =~= segments(rest, c));
        assert(s =~= s.take(i) + seq![c] + rest);
    }
}

/// No part holds the separator.
pub proof fn lemma_segments_clean(s: Seq<char>, c: char, k: int, j: int)
    requires
        0 <= k < segments(s, c).len(),
        0 <= j < segments(s, c)[k].len(),
    ensures
        segments(s, c)[k][j] != c,
    decreases s.len(),
{
    lemma_first_index(s, c);
    let i = first_index(s, c);
    if i < s.len() {
        let rest = s.skip(i + 1);
        if k > 0 {
            assert(segments(s, c)[k] == segments(rest, c)[k - 1]);
            lemma_segments_clean(rest, c, k - 1, j);
        }
    }
}

/// A part, the separator and a remainder split into that part and the parts
/// of the remainder.
pub proof fn lemma_segments_of(head: Seq<char>, rest: Seq<char>, c: char)
    requires
        forall|j: int| 0 <= j < head.len() ==> head[j] != c,
    ensures
        segments(head + seq![c] + rest, c) == seq![head] + segments(rest, c),
{
    let s = head + seq![c] + rest;
    lemma_first_index_is(s, c, head.len() as int);
    assert(s.take(head.len() as int) =~= head);
    assert(s.skip(head.len() as int + 1) =~= rest);
}

pub proof fn lemma_encode_concat(a: Seq<char>, b: Seq<char>)
    ensures
        encode_utf8(a + b) == encode_utf8(a) + encode_utf8(b),
    decreases a.len(),
{
    if a.len() == 0 {
        assert(a + b =~= b);
        assert(encode_utf8(a) + encode_utf8(b) =~= encode_utf8(b));
    } else {
        lemma_encode_concat(a.drop_first(), b);
        assert((a + b).drop_first() =~= a.drop_first() + b);
        assert(encode_utf8(a + b) =~= encode_utf8(a) + encode_utf8(b));
    }
}

/// Cutting behind the encoding of a leading part gives the remaining part.
pub proof fn lemma_byte_suffix(a: Seq<char>, b: Seq<char>)
    ensures
        sliceable(a + b, encode_utf8(a).len() as int),
        byte_suffix(a + b, encode_utf8(a).len() as int) == b,
{
    lemma_encode_concat(a, b);
    lemma_boundary(a, b);
    let n = encode_utf8(a).len() as int;
    assert((encode_utf8(a) + encode_utf8(b)).subrange(n, n + encode_utf8(b).len()) =~= encode_utf8(
        b,
    ));
    encode_utf8_decode_utf8(b);
}

proof fn lemma_boundary(a: Seq<char>, b: Seq<char>)
    ensures
        is_char_boundary(encode_utf8(a + b), encode_utf8(a).len() as int),
    decreases a.len(),
{
    encode_utf8_valid_utf8(a + b);
    lemma_encode_concat(a, b);
    if a.len() == 0 {
        is_char_boundary_start_end_of_seq(encode_utf8(a + b));
    } else {
        let s = a + b;
        encode_utf8_first_scalar(s);
        assert(s.drop_first() =~= a.drop_first() + b);
        assert(pop_first_scalar(encode_utf8(s)) =~= encode_utf8(s.drop_first()));
        lemma_boundary(a.drop_first(), b);
        assert(encode_utf8(a).len() == encode_scalar(a[0] as u32).len() + encode_utf8(
            a.drop_first(),
        ).len());
    }
}

/// Different numbers have different decimal notations.
pub proof fn lemma_decimal_injective(a: nat, b: nat)
    requires
        decimal(a) == decimal(b),
    ensures
        a == b,
    decreases a,
{
    lemma_decimal_len(a);
    lemma_decimal_len(b);
    assert(decimal(a).last() == decimal(b).last());
    if a >= 10 && b >= 10 {
        assert(decimal(a).drop_last() =~= decimal(a / 10));
        assert(decimal(b).drop_last() =~= decimal(b / 10));
        lemma_decimal_injective(a / 10, b / 10);
    }
}

proof fn lemma_decimal_len(n: nat)
    ensures
        decimal(n).len() >= 1,
        n >= 10 ==> decimal(n).len() >= 2,
        decimal(n).last() == digit((n % 10) as int),
    decreases n,
{
    if n >= 10 {
        lemma_decimal_len(n / 10);
    }
}

/// Whether two texts are the same.
pub fn same(a: &str, b: &str) -> (r: bool)
    ensures
        r == (a@ == b@),
{
    a.to_owned() == b.to_owned()
}

/// The text behind the prefix `p`, where `s` begins with it.
pub fn strip_prefix<'a>(s: &'a str, p: &str) -> (r: Option<&'a str>)
    ensures
        r is Some <==> p@.is_prefix_of(s@),
        r matches Some(rest) ==> rest@ == s@.skip(p@.len() as int),
{
    let n: usize = s.unicode_len();
    let k: usize = p.unicode_len();
    if n < k {
        return None;
    }
    if same(s.substring_char(0, k), p) {
        Some(s.substring_char(k, n))
    } else {
        None
    }
}

/// The characters of `s`.
pub fn chars_of(s: &str) -> (r: Vec<char>)
    ensures
        r@ == s@,
{
    let mut out: Vec<char> = Vec::new();
    for c in it: s.chars()
        invariant
            it.seq() == s@,
            out@ == s@.take(it.index() as int),
    {
        assert(s@.take(it.index() as int).push(c) =~= s@.take(it.index() + 1));
        out.push(c);
    }
    assert(s@.take(s@.len() as int) =~= s@);
    out
}

/// The parts of `s` between the separators `c`.
pub fn split<'a>(s: &'a str, c: char) -> (r: Vec<&'a str>)
    ensures
        r@.len() == segments(s@, c).len(),
        forall|i: int| 0 <= i < r@.len() ==> (#[trigger] r@[i])@ == segments(s@, c)[i],
{
    let chars: Vec<char> = chars_of(s);
    let n: usize = chars.len();
    let mut out: Vec<&'a str> = Vec::new();
    let mut start: usize = 0;
    let mut i: usize = 0;
    assert(s@.skip(0) =~= s@);
    while i < n
        invariant
            start <= i <= n,
            n == chars@.len(),
            chars@ == s@,
            forall|j: int| start <= j < i ==> chars@[j] != c,
            out@.len() + segments(s@.skip(start as int), c).len() == segments(s@, c).len(),
            forall|k: int| 0 <= k < out@.len() ==> (#[trigger] out@[k])@ == segments(s@, c)[k],
            forall|k: int|
                0 <= k < segments(s@.skip(start as int), c).len() ==> #[trigger] segments(
                    s@.skip(start as int),
                    c,
                )[k] == segments(s@, c)[out@.len() + k],
        decreases n - i,
    {
        if chars[i] == c {
            let part: &'a str = s.substring_char(start, i);
            proof {
                let rest = s@.skip(start as int);
                lemma_first_index_is(rest, c, i - start);
                assert(rest.take(i - start) =~= part@);
                assert(rest.skip(i - start + 1) =~= s@.skip(i + 1));
                let tail = segments(s@.skip(i + 1), c);
                assert(segments(rest, c) == seq![part@] + tail);
                assert(segments(rest, c)[0] == segments(s@, c)[out@.len() as int]);
                assert forall|k: int| 0 <= k < tail.len() implies #[trigger] tail[k] == segments(
                    s@,
                    c,
                )[out@.len() + 1 + k] by {
                    assert(segments(rest, c)[k + 1] == tail[k]);
                }
            }
            out.push(part);
            start = i + 1;
        }
        i = i + 1;
    }
    let part: &'a str = s.substring_char(start, n);
    proof {
        let rest = s@.skip(start as int);
        lemma_first_index_is(rest, c, n - start);
        assert(rest =~= part@);
        assert(segments(rest, c) == seq![rest]);
        assert(segments(rest, c)[0] == segments(s@, c)[out@.len() as int]);
    }
    out.push(part);
    out
}

/// The texts before and behind the first `c`, where `s` holds one.
pub fn split_once<'a>(s: &'a str, c: char) -> (r: Option<(&'a str, &'a str)>)
    ensures
        r is Some <==> s@.contains(c),
        r matches Some((head, rest)) ==> {
            &&& head@ == s@.take(first_index(s@, c))
            &&& rest@ == s@.skip(first_index(s@, c) + 1)
        },
{
    let chars: Vec<char> = chars_of(s);
    let n: usize = chars.len();
    let mut i: usize = 0;
    while i < n
        invariant
            i <= n,
            n == chars@.len(),
            chars@ == s@,
            forall|j: int| 0 <= j < i ==> chars@[j] != c,
        decreases n - i,
    {
        if chars[i] == c {
            proof {
                lemma_first_index_is(s@, c, i as int);
                assert(s@[i as int] == c);
            }
            let head: &'a str = s.substring_char(0, i);
            let rest: &'a str = s.substring_char(i + 1, n);
            assert(head@ =~= s@.take(i as int));
            assert(rest@ =~= s@.skip(i + 1));
            return Some((head, rest));
        }
        i = i + 1;
    }
    None
}

/// `a` followed by `b`.
pub fn join2(a: &str, b: &str) -> (r: String)
    ensures
        r@ == a@ + b@,
{
    a.to_owned().concat(b)
}

/// `a`, `b` and `c` in a row.
pub fn join3(a: &str, b: &str, c: &str) -> (r: String)
    ensures
        r@ == a@ + b@ + c@,
{
    a.to_owned().concat(b).concat(c)
}

fn digit_text(d: u64) -> (r: &'static str)
    requires
        d < 10,
    ensures
        r@ == seq![digit(d as int)],
{
    proof {
        reveal_strlit("0");
        reveal_strlit("1");
        reveal_strlit("2");
        reveal_strlit("3");
        reveal_strlit("4");
        reveal_strlit("5");
        reveal_strlit("6");
        reveal_strlit("7");
        reveal_strlit("8");
        reveal_strlit("9");
    }
    let r: &'static str = match d {
        0 => "0",
        1 => "1",
        2 => "2",
        3 => "3",
        4 => "4",
        5 => "5",
        6 => "6",
        7 => "7",
        8 => "8",
        _ => "9",
    };
    assert(r@ =~= seq![digit(d as int)]);
    r
}

/// The decimal notation of `n`.
pub fn decimal_text(n: u64) -> (r: String)
    ensures
        r@ == decimal(n as nat),
    decreases n,
{
    if n < 10 {
        digit_text(n).to_owned()
    } else {
        let head: String = decimal_text(n / 10);
        let r: String = head.concat(digit_text(n % 10));
        assert(r@ =~= decimal(n as nat));
        r
    }
}

} // verus!
