//! Laws on texts, numbers and node identities.

use vstd::prelude::*;
use vstd::utf8::*;

use crate::node_id::NodeId;
use crate::state::RouteKey;
use crate::table::Key;

verus! {

/// The number that decimal digits stand for.
pub open spec fn number_in(digits: Seq<char>) -> int
    decreases digits.len(),
{
    if digits.len() == 0 {
        0
    } else {
        number_in(digits.drop_last()) * 10 + (digits.last() as int - 48)
    }
}

/// A number in writing reads back as that number, has digits only and starts
/// with zero only where it is zero.
pub proof fn law_number_reads_back(n: u64, r: String)
    requires
        call_ensures(crate::text::decimal_text, (n,), r),
    ensures
        number_in(r@) == n,
        forall|i: int| 0 <= i < r@.len() ==> 48 <= #[trigger] r@[i] as int <= 57,
        r@.len() > 0,
        r@[0] as int == 48 ==> n == 0,
{
    lemma_decimal(n as nat);
}

pub proof fn lemma_decimal(n: nat)
    ensures
        number_in(crate::text::decimal(n)) == n,
        forall|i: int|
            0 <= i < crate::text::decimal(n).len() ==> 48 <= #[trigger] crate::text::decimal(
                n,
            )[i] as int <= 57,
        crate::text::decimal(n).len() > 0,
        crate::text::decimal(n)[0] as int == 48 ==> n == 0,
    decreases n,
{
    let d = crate::text::decimal(n);
    if n < 10 {
        assert(d.drop_last() =~= Seq::<char>::empty());
        assert(number_in(d.drop_last()) == 0);
    } else {
        lemma_decimal(n / 10);
        assert(d.drop_last() =~= crate::text::decimal(n / 10));
        assert(d[0] == crate::text::decimal(n / 10)[0]);
    }
}

/// A text that is split falls into parts without the separator, and the parts
/// put together with it are the text.
pub proof fn law_split_parts(s: &str, c: char, r: Vec<&str>, k: int, j: int)
    requires
        call_ensures(crate::text::split, (s, c), r),
    ensures
        r@.len() >= 1,
        0 <= k < r@.len() && 0 <= j < r@[k]@.len() ==> r@[k]@[j] != c,
        crate::text::joined(r@.map_values(|p: &str| p@), c) == s@,
{
    crate::text::lemma_segments_nonempty(s@, c);
    crate::text::lemma_joined_segments(s@, c);
    if 0 <= k < r@.len() && 0 <= j < r@[k]@.len() {
        crate::text::lemma_segments_clean(s@, c, k, j);
    }
    assert(r@.map_values(|p: &str| p@) =~= crate::text::segments(s@, c));
}

/// Two parts with a separator between them are longer than both by one, and
/// start with the first.
pub proof fn law_joined_parts(a: Seq<char>, b: Seq<char>, rest: Seq<Seq<char>>, c: char)
    ensures
        crate::text::joined(seq![a], c) == a,
        crate::text::joined(seq![a, b] + rest, c) == a + seq![c] + crate::text::joined(
            seq![b] + rest,
            c,
        ),
{
    assert((seq![a, b] + rest).drop_first() =~= seq![b] + rest);
}

/// A text is cut at the first separator, which is lost; it is not cut where it
/// holds none.
pub proof fn law_split_at_first(s: &str, c: char, r: Option<(&str, &str)>)
    requires
        call_ensures(crate::text::split_once, (s, c), r),
    ensures
        r matches Some((head, rest)) ==> s@ == head@ + seq![c] + rest@ && !head@.contains(c),
        r is None ==> !s@.contains(c),
{
    if let Some((head, rest)) = r {
        crate::text::lemma_first_index(s@, c);
        let i = crate::text::first_index(s@, c);
        let k = choose|k: int| 0 <= k < s@.len() && s@[k] == c;
        assert(s@ =~= head@ + seq![c] + rest@);
        if head@.contains(c) {
            let k = choose|k: int| 0 <= k < head@.len() && head@[k] == c;
            assert(s@[k] == c);
        }
    }
}

/// A prefix is taken off exactly where the text begins with it.
pub proof fn law_prefix_is_taken_off(s: &str, p: &str, r: Option<&str>, rest: Seq<char>)
    requires
        call_ensures(crate::text::strip_prefix, (s, p), r),
    ensures
        r matches Some(t) ==> s@ == p@ + t@,
        r is None ==> s@ != p@ + rest,
{
    if let Some(t) = r {
        assert(s@ =~= p@ + t@);
    }
    if s@ == p@ + rest {
        assert(p@ =~= s@.subrange(0, p@.len() as int));
    }
}

/// Value of a hexadecimal digit in either case.
pub open spec fn digit_value(b: u8) -> int {
    if b <= 57 {
        b - 48
    } else if b <= 70 {
        b - 55
    } else {
        b - 87
    }
}

/// `b` is one of `0` to `9`, `A` to `F` and `a` to `f`.
pub open spec fn is_hex_digit(b: u8) -> bool {
    48 <= b <= 57 || 65 <= b <= 70 || 97 <= b <= 102
}

/// A text reads as an identity if and only if it is `0x` and forty hexadecimal
/// digits. Each byte of the identity is written in two of them.
pub proof fn law_identity_in_writing(s: Seq<char>)
    ensures
        ({
            let b = encode_utf8(s);
            let id = crate::node_id::id_of_text(s);
            &&& id is Ok <==> b.len() == 42 && b[0] == 48 && b[1] == 120 && forall|i: int|
                2 <= i < 42 ==> is_hex_digit(#[trigger] b[i])
            &&& id is Ok ==> id->Ok_0.len() == 20
            &&& id is Ok ==> forall|k: int|
                0 <= k < 20 ==> #[trigger] id->Ok_0[k] == 16 * digit_value(b[2 + 2 * k])
                    + digit_value(b[3 + 2 * k])
        }),
{
    let b = encode_utf8(s);
    let id = crate::node_id::id_of_text(s);
    if b.len() == 42 && b[0] == 48 && b[1] == 120 {
        if id is Ok {
            assert forall|i: int| 2 <= i < 42 implies is_hex_digit(#[trigger] b[i]) by {
                crate::node_id::lemma_readable_digits(b, i);
            }
        } else {
            let i = choose|i: int| crate::node_id::first_bad_digit(b, i);
            assert(!is_hex_digit(b[i]));
        }
    }
    if id is Ok {
        assert forall|k: int| 0 <= k < 20 implies #[trigger] id->Ok_0[k] == 16 * digit_value(
            b[2 + 2 * k],
        ) + digit_value(b[3 + 2 * k]) by {
            assert(is_hex_digit(b[2 + 2 * k]));
            assert(is_hex_digit(b[3 + 2 * k]));
        }
    }
}

/// Why a text does not read as an identity: its length before its start, and
/// that before its digits.
pub proof fn law_unreadable_identity(s: Seq<char>)
    ensures
        ({
            let b = encode_utf8(s);
            let id = crate::node_id::id_of_text(s);
            let why = "NodeId `"@ + s + "` parsing error: "@;
            &&& b.len() != 42 ==> id == Err::<Seq<u8>, Seq<char>>(
                why + "expected length is 42 chars"@,
            )
            &&& b.len() == 42 && !(b[0] == 48 && b[1] == 120) ==> id == Err::<Seq<u8>, Seq<char>>(
                why + "expected 0x prefix"@,
            )
            &&& b.len() == 42 && b[0] == 48 && b[1] == 120 ==> forall|i: int|
                2 <= i < 42 && !is_hex_digit(#[trigger] b[i]) && (forall|j: int|
                    2 <= j < i ==> is_hex_digit(#[trigger] b[j])) ==> id == Err::<
                    Seq<u8>,
                    Seq<char>,
                >(why + ("expected hex chars, but got: `"@ + seq![b[i] as char] + "`"@))
        }),
{
    let b = encode_utf8(s);
    let id = crate::node_id::id_of_text(s);
    let why = "NodeId `"@ + s + "` parsing error: "@;
    if b.len() == 42 && b[0] == 48 && b[1] == 120 {
        assert forall|i: int|
            2 <= i < 42 && !is_hex_digit(#[trigger] b[i]) && (forall|j: int|
                2 <= j < i ==> is_hex_digit(#[trigger] b[j])) implies id == Err::<
            Seq<u8>,
            Seq<char>,
        >(why + ("expected hex chars, but got: `"@ + seq![b[i] as char] + "`"@)) by {
            assert(crate::node_id::first_bad_digit(b, i));
            let k = choose|k: int| crate::node_id::first_bad_digit(b, k);
            assert(!is_hex_digit(b[k]));
            if k < i {
                assert(is_hex_digit(b[k]));
            }
            if i < k {
                assert(crate::node_id::hex_value(b[i]) is Some);
            }
        }
    }
}

/// A written identity is in lower case, and reads back as the identity.
pub proof fn law_written_identity(b: Seq<u8>)
    requires
        b.len() == 20,
    ensures
        crate::node_id::id_text(b).len() == 42,
        crate::node_id::id_text(b)[0] == '0',
        crate::node_id::id_text(b)[1] == 'x',
        forall|i: int|
            2 <= i < 42 ==> {
                ||| '0' <= #[trigger] crate::node_id::id_text(b)[i] <= '9'
                ||| 'a' <= crate::node_id::id_text(b)[i] <= 'f'
            },
        crate::node_id::id_of_text(crate::node_id::id_text(b)) == Ok::<Seq<u8>, Seq<char>>(b),
{
    crate::node_id::law_id_text_reads_back(b);
    let t = crate::node_id::id_text(b);
    assert forall|i: int| 2 <= i < 42 implies ({
        ||| '0' <= #[trigger] crate::node_id::id_text(b)[i] <= '9'
        ||| 'a' <= crate::node_id::id_text(b)[i] <= 'f'
    }) by {
        if i % 2 == 0 {
            crate::node_id::lemma_nibbles(b[(i - 2) / 2]);
        } else {
            crate::node_id::lemma_nibbles(b[(i - 3) / 2]);
        }
    }
}

/// The view of an identity is its twenty bytes.
pub proof fn law_identity_is_its_bytes(id: NodeId)
    ensures
        id@.len() == 20,
        forall|i: int| 0 <= i < 20 ==> #[trigger] id@[i] == id.bytes[i],
{
}

/// Two identities are the same if and only if all their bytes are.
pub proof fn law_same_identity(a: NodeId, b: NodeId, r: bool)
    requires
        call_ensures(NodeId::same, (&a, &b), r),
    ensures
        r <==> forall|i: int| 0 <= i < 20 ==> a.bytes[i] == #[trigger] b.bytes[i],
{
    if r {
        assert forall|i: int| 0 <= i < 20 implies a.bytes[i] == #[trigger] b.bytes[i] by {
            assert(a@[i] == b@[i]);
        }
    }
    if forall|i: int| 0 <= i < 20 ==> a.bytes[i] == #[trigger] b.bytes[i] {
        assert(a@ =~= b@);
    }
}

/// An identity is on a list if and only if an entry has just its bytes.
pub proof fn law_identity_on_list(ids: Vec<NodeId>, id: NodeId, r: bool)
    requires
        call_ensures(crate::node_id::contains_id, (&ids, &id), r),
    ensures
        r <==> exists|k: int| 0 <= k < ids@.len() && (#[trigger] ids@[k]).bytes@ == id.bytes@,
{
    if r {
        let k = choose|k: int| 0 <= k < ids@.len() && (#[trigger] ids@[k])@ == id@;
        assert(ids@[k].bytes@ == id.bytes@);
    }
    if exists|k: int| 0 <= k < ids@.len() && (#[trigger] ids@[k]).bytes@ == id.bytes@ {
        let k = choose|k: int| 0 <= k < ids@.len() && (#[trigger] ids@[k]).bytes@ == id.bytes@;
        assert(ids@[k]@ == id@);
    }
}

/// Two packets belong to the same route if and only if all bytes of their nodes
/// are the same and their transport is. Two requests have the same name if and
/// only if all characters of it are the same.
pub proof fn law_keys_are_whole(
    a: RouteKey,
    b: RouteKey,
    r: bool,
    x: String,
    y: String,
    q: bool,
)
    requires
        call_ensures(<RouteKey as Key>::same_key, (&a, &b), r),
        call_ensures(<String as Key>::same_key, (&x, &y), q),
    ensures
        r <==> (forall|i: int| 0 <= i < 20 ==> a.node_id.bytes[i] == #[trigger] b.node_id.bytes[i])
            && a.reliable == b.reliable,
        q <==> x@ == y@,
        x.key() == y.key() <==> x@ == y@,
{
    crate::state::law_route_is_node_and_transport(a, b);
}

/// Texts are the same if and only if all their characters are, and are put
/// together without loss.
pub proof fn law_texts(
    a: &str,
    b: &str,
    c: &str,
    same: bool,
    two: String,
    three: String,
    chars: Vec<char>,
)
    requires
        call_ensures(crate::text::same, (a, b), same),
        call_ensures(crate::text::join2, (a, b), two),
        call_ensures(crate::text::join3, (a, b, c), three),
        call_ensures(crate::text::chars_of, (a,), chars),
    ensures
        same <==> a@ == b@,
        two@.len() == a@.len() + b@.len(),
        two@.take(a@.len() as int) == a@ && two@.skip(a@.len() as int) == b@,
        three@ == two@ + c@,
        chars@ == a@,
{
    assert(two@.take(a@.len() as int) =~= a@);
    assert(two@.skip(a@.len() as int) =~= b@);
}

} // verus!
