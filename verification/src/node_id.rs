//! Node identities: twenty bytes, written as `0x` and forty hexadecimal digits.

use std::str::FromStr;

use vstd::prelude::*;
use vstd::utf8::*;

verus! {

/// Identity of a network node.
#[derive(Clone, Copy, Debug, PartialEq, Eq)]
pub struct NodeId {
    pub bytes: [u8; 20],
}

impl View for NodeId {
    type V = Seq<u8>;

    open spec fn view(&self) -> Seq<u8> {
        self.bytes@
    }
}

/// Value of a hexadecimal digit in either case.
pub open spec fn hex_value(b: u8) -> Option<int> {
    if 0x30 <= b <= 0x39 {
        Some(b - 0x30)
    } else if 0x41 <= b <= 0x46 {
        Some(b - 0x41 + 10)
    } else if 0x61 <= b <= 0x66 {
        Some(b - 0x61 + 10)
    } else {
        None
    }
}

/// Lower-case hexadecimal digit of a value below sixteen.
pub open spec fn hex_digit(d: int) -> char {
    if d < 10 {
        ('0' as int + d) as char
    } else {
        ('a' as int + d - 10) as char
    }
}

/// Text of the failure to read `s` as an identity.
pub open spec fn id_failure(s: Seq<char>, reason: Seq<char>) -> Seq<char> {
    "NodeId `"@ + s + "` parsing error: "@ + reason
}

/// `i` is the first place behind `0x` where `b` holds no hexadecimal digit.
pub open spec fn first_bad_digit(b: Seq<u8>, i: int) -> bool {
    &&& 2 <= i < 42
    &&& hex_value(b[i]) is None
    &&& forall|j: int| 2 <= j < i ==> hex_value(#[trigger] b[j]) is Some
}

/// The bytes that the identity written as `s` has, or the text of the failure.
pub open spec fn id_of_text(s: Seq<char>) -> Result<Seq<u8>, Seq<char>> {
    let b = encode_utf8(s);
    if b.len() != 42 {
        Err(id_failure(s, "expected length is 42 chars"@))
    } else if b[0] != 0x30 || b[1] != 0x78 {
        Err(id_failure(s, "expected 0x prefix"@))
    } else if exists|i: int| first_bad_digit(b, i) {
        let i = choose|i: int| first_bad_digit(b, i);
        Err(id_failure(s, "expected hex chars, but got: `"@ + seq![b[i] as char] + "`"@))
    } else {
        Ok(
            Seq::new(
                20,
                |k: int| (hex_value(b[2 + 2 * k])->0 * 16 + hex_value(b[3 + 2 * k])->0) as u8,
            ),
        )
    }
}

/// The identity `b` in writing.
pub open spec fn id_text(b: Seq<u8>) -> Seq<char> {
    Seq::new(
        42,
        |i: int|
            if i == 0 {
                '0'
            } else if i == 1 {
                'x'
            } else if i % 2 == 0 {
                hex_digit(b[(i - 2) / 2] as int / 16)
            } else {
                hex_digit(b[(i - 3) / 2] as int % 16)
            },
    )
}

/// The result of reading an identity, with the identity and the failure taken
/// by their views.
pub open spec fn id_result(r: Result<NodeId, String>) -> Result<Seq<u8>, Seq<char>> {
    match r {
        Ok(id) => Ok(id@),
        Err(e) => Err(e@),
    }
}

/// Reads a written identity.
///
/// Calls `<ya_client_model::NodeId as FromStr>::from_str`. That function takes
/// forty-two bytes that start with `0x` and go on with hexadecimal digits of
/// either case, two for each byte of the identity, the high half first. Any
/// other text fails, by its length, by its prefix or by the first byte that is
/// no digit, in that order, and the failure is displayed as `id_of_text` says.
#[verifier::external_body]
pub(crate) fn parse_node_id(s: &str) -> (r: Result<NodeId, String>)
    ensures
        id_result(r) == id_of_text(s@),
{
    match ya_client_model::NodeId::from_str(s) {
        Ok(id) => Ok(NodeId { bytes: id.into_array() }),
        Err(e) => Err(e.to_string()),
    }
}

/// Writes an identity.
///
/// Calls the `Display` of `ya_client_model::NodeId`, which prints `0x` and two
/// lower-case hexadecimal digits for each byte, the high half first. Its
/// `Debug` prints the same.
#[verifier::external_body]
pub(crate) fn node_id_text(id: &NodeId) -> (r: String)
    ensures
        r@ == id_text(id@),
{
    ya_client_model::NodeId::from(id.bytes).to_string()
}

impl NodeId {
    /// Whether two identities are the same.
    pub fn same(&self, other: &NodeId) -> (r: bool)
        ensures
            r == (self@ == other@),
    {
        let mut i: usize = 0;
        while i < 20
            invariant
                i <= 20,
                forall|j: int| 0 <= j < i ==> self@[j] == other@[j],
            decreases 20 - i,
        {
            if self.bytes[i] != other.bytes[i] {
                assert(self@[i as int] != other@[i as int]);
                return false;
            }
            i = i + 1;
        }
        assert(self@ =~= other@);
        true
    }
}

/// The identities of a list, as a set.
pub open spec fn id_set(ids: Seq<NodeId>) -> Set<Seq<u8>> {
    Set::new(|v: Seq<u8>| exists|i: int| 0 <= i < ids.len() && (#[trigger] ids[i])@ == v)
}

/// Whether `id` is on the list.
pub fn contains_id(ids: &Vec<NodeId>, id: &NodeId) -> (r: bool)
    ensures
        r == id_set(ids@).contains(id@),
{
    let mut i: usize = 0;
    while i < ids.len()
        invariant
            i <= ids@.len(),
            forall|j: int| 0 <= j < i ==> (#[trigger] ids@[j])@ != id@,
        decreases ids@.len() - i,
    {
        if ids[i].same(id) {
            assert(ids@[i as int]@ == id@);
            return true;
        }
        i = i + 1;
    }
    false
}

/// A written identity has forty-two characters, all of them ASCII.
pub proof fn lemma_id_text_ascii(b: Seq<u8>)
    requires
        b.len() == 20,
    ensures
        id_text(b).len() == 42,
        is_ascii_chars(id_text(b)),
        encode_utf8(id_text(b)) == Seq::new(42, |i: int| id_text(b)[i] as u8),
        forall|i: int| 0 <= i < 42 ==> id_text(b)[i] != '/',
{
    assert forall|i: int| 0 <= i < 42 implies {
        &&& (#[trigger] id_text(b)[i] as nat) < 128
        &&& id_text(b)[i] != '/'
    } by {
        if i >= 2 {
            lemma_nibbles(if i % 2 == 0 {
                b[(i - 2) / 2]
            } else {
                b[(i - 3) / 2]
            });
        }
    }
    is_ascii_chars_encode_utf8(id_text(b));
    assert(encode_utf8(id_text(b)) =~= Seq::new(42, |i: int| id_text(b)[i] as u8));
}

pub proof fn lemma_nibbles(x: u8)
    ensures
        0 <= x as int / 16 < 16,
        0 <= x as int % 16 < 16,
        (x as int / 16) * 16 + x as int % 16 == x,
{
}

proof fn lemma_hex_digit(d: int)
    requires
        0 <= d < 16,
    ensures
        (hex_digit(d) as nat) < 128,
        hex_value(hex_digit(d) as u8) == Some(d),
{
}

/// Reading what was written gives the identity back.
pub proof fn law_id_text_reads_back(b: Seq<u8>)
    requires
        b.len() == 20,
    ensures
        id_of_text(id_text(b)) == Ok::<Seq<u8>, Seq<char>>(b),
{
    lemma_id_text_ascii(b);
    let e = encode_utf8(id_text(b));
    assert(e.len() == 42 && e[0] == 0x30 && e[1] == 0x78);
    assert forall|i: int| 2 <= i < 42 implies hex_value(#[trigger] e[i]) == Some(
        if i % 2 == 0 {
            b[(i - 2) / 2] as int / 16
        } else {
            b[(i - 3) / 2] as int % 16
        },
    ) by {
        if i % 2 == 0 {
            lemma_hex_digit(b[(i - 2) / 2] as int / 16);
        } else {
            lemma_hex_digit(b[(i - 3) / 2] as int % 16);
        }
    }
    let got = id_of_text(id_text(b));
    assert(got is Ok);
    assert forall|k: int| 0 <= k < 20 implies got->Ok_0[k] == b[k] by {
        assert(hex_value(e[2 + 2 * k]) == Some(b[k] as int / 16));
        assert(hex_value(e[3 + 2 * k]) == Some(b[k] as int % 16));
        lemma_nibbles(b[k]);
    }
    assert(got->Ok_0 =~= b);
}

/// What reads as an identity, in either case of its digits, holds no `/`.
pub proof fn lemma_readable_has_no_slash(s: Seq<char>, j: int)
    requires
        id_of_text(s) is Ok,
        0 <= j < s.len(),
    ensures
        s[j] != '/',
{
    if s[j] == '/' {
        let b = encode_utf8(s);
        let head = s.take(j);
        let at = encode_utf8(head).len() as int;
        assert(s =~= head + (seq!['/'] + s.skip(j + 1)));
        crate::text::lemma_encode_concat(head, seq!['/'] + s.skip(j + 1));
        crate::text::lemma_encode_concat(seq!['/'], s.skip(j + 1));
        is_ascii_chars_encode_utf8(seq!['/']);
        assert(b[at] == 0x2f);
        lemma_readable_digits(b, at);
    }
}

/// Where there is no first bad digit, there is none.
pub proof fn lemma_readable_digits(b: Seq<u8>, i: int)
    requires
        forall|k: int| !first_bad_digit(b, k),
        2 <= i < 42,
    ensures
        hex_value(b[i]) is Some,
    decreases i,
{
    if hex_value(b[i]) is None {
        assert forall|j: int| 2 <= j < i implies hex_value(#[trigger] b[j]) is Some by {
            lemma_readable_digits(b, j);
        }
        assert(first_bad_digit(b, i));
    }
}

/// Different identities are written differently.
pub proof fn law_id_text_injective(a: Seq<u8>, b: Seq<u8>)
    requires
        a.len() == 20,
        b.len() == 20,
        id_text(a) == id_text(b),
    ensures
        a == b,
{
    law_id_text_reads_back(a);
    law_id_text_reads_back(b);
}

} // verus!
