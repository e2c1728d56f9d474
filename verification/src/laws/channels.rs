//! Laws on packets and messages of a route.

use vstd::prelude::*;

use crate::channel::Channel;
use crate::ingress::Framing;

verus! {

/// The packet of a message on the reliable transport: four bytes that say how
/// long the message is, the highest first, and the message. On the other one
/// it is the message.
pub proof fn law_packet_of_message(framing: Framing, message: Vec<u8>, packet: Vec<u8>)
    requires
        call_ensures(crate::channel::packet_of, (framing, message), packet),
        message@.len() < 0x1_0000_0000,
    ensures
        framing == Framing::Plain ==> packet@ == message@,
        framing == Framing::Prefixed ==> {
            &&& packet@.len() == 4 + message@.len()
            &&& packet@.skip(4) == message@
            &&& packet@[0] * 16777216 + packet@[1] * 65536 + packet@[2] * 256 + packet@[3]
                == message@.len()
        },
{
    if framing == Framing::Prefixed {
        assert(packet@.skip(4) =~= message@);
    }
}

/// A message that is sent in one packet comes out of a fresh channel at once,
/// alone and unchanged, and leaves nothing behind, on either transport.
pub proof fn law_sent_message_comes_out(
    framing: Framing,
    message: Vec<u8>,
    packet: Vec<u8>,
    fresh: Channel,
    c: &mut Channel,
    out: Vec<Vec<u8>>,
)
    requires
        message@.len() < 0x1_0000_0000,
        call_ensures(crate::channel::packet_of, (framing, message), packet),
        call_ensures(Channel::new, (framing,), fresh),
        *old(c) == fresh,
        call_ensures(Channel::on_packet, (c, packet), out),
    ensures
        out@.len() == 1,
        out@[0]@ == message@,
        final(c)@ == fresh@,
{
    assert(crate::channel::contents(out@).len() == out@.len());
    if framing == Framing::Prefixed {
        let none = Seq::<u8>::empty();
        crate::channel::law_frame_is_cut_out(message@, none);
        assert(none + packet@ =~= packet@);
        assert(crate::channel::frame_of(message@) + none =~= packet@);
        assert(crate::channel::messages_in(none) =~= Seq::<Seq<u8>>::empty());
        assert(seq![message@] + crate::channel::messages_in(none) =~= seq![message@]);
    }
    assert(crate::channel::contents(out@) == seq![message@]);
    assert(crate::channel::contents(out@)[0] == out@[0]@);
}

/// A message that is cut into two packets on the way comes out with the second
/// one, unchanged; the first gives nothing.
pub proof fn law_cut_message_comes_out(
    message: Vec<u8>,
    packet: Vec<u8>,
    a: Vec<u8>,
    b: Vec<u8>,
    fresh: Channel,
    c: &mut Channel,
    d: &mut Channel,
    first: Vec<Vec<u8>>,
    second: Vec<Vec<u8>>,
)
    requires
        message@.len() < 0x1_0000_0000,
        call_ensures(crate::channel::packet_of, (Framing::Prefixed, message), packet),
        a@.len() > 0,
        b@.len() > 0,
        packet@ == a@ + b@,
        call_ensures(Channel::new, (Framing::Prefixed,), fresh),
        *old(c) == fresh,
        call_ensures(Channel::on_packet, (c, a), first),
        *old(d) == *final(c),
        call_ensures(Channel::on_packet, (d, b), second),
    ensures
        first@.len() == 0,
        second@.len() == 1,
        second@[0]@ == message@,
{
    let none = Seq::<u8>::empty();
    law_packet_of_message(Framing::Prefixed, message, packet);
    assert(none + a@ =~= a@);
    if a@.len() >= 4 {
        assert(forall|i: int| 0 <= i < 4 ==> a@[i] == #[trigger] packet@[i]);
    }
    assert(crate::channel::first_message(a@) is None);
    assert(crate::channel::contents(first@).len() == first@.len());
    assert(crate::channel::contents(second@).len() == second@.len());
    crate::channel::law_frame_is_cut_out(message@, none);
    assert(crate::channel::frame_of(message@) + none =~= packet@);
    assert(crate::channel::messages_in(none) =~= Seq::<Seq<u8>>::empty());
    assert(seq![message@] + crate::channel::messages_in(none) =~= seq![message@]);
    assert(crate::channel::contents(second@) == seq![message@]);
    assert(crate::channel::contents(second@)[0] == second@[0]@);
}

/// On the unreliable transport every packet, an empty one too, comes out as it
/// is, and the channel never ends. On the reliable one an empty packet gives
/// nothing and ends the channel, and nothing comes out of one that has ended.
pub proof fn law_empty_packet_ends_the_reliable_channel(
    c: &mut Channel,
    packet: Vec<u8>,
    out: Vec<Vec<u8>>,
    before: bool,
    after: bool,
)
    requires
        call_ensures(Channel::on_packet, (c, packet), out),
        call_ensures(Channel::is_ended, (&*old(c),), before),
        call_ensures(Channel::is_ended, (&*final(c),), after),
    ensures
        old(c)@.framing == Framing::Plain ==> out@.len() == 1 && out@[0]@ == packet@ && after
            == before,
        old(c)@.framing == Framing::Prefixed ==> (after <==> before || packet@.len() == 0),
        old(c)@.framing == Framing::Prefixed && after ==> out@.len() == 0,
        final(c)@.framing == old(c)@.framing,
{
    assert(crate::channel::contents(out@).len() == out@.len());
    if old(c)@.framing == Framing::Plain {
        assert(crate::channel::contents(out@) == seq![packet@]);
        assert(crate::channel::contents(out@)[0] == out@[0]@);
    }
}

/// A channel starts open, with nothing pending.
pub proof fn law_fresh_channel_is_open(framing: Framing, fresh: Channel, ended: bool)
    requires
        call_ensures(Channel::new, (framing,), fresh),
        call_ensures(Channel::is_ended, (&fresh,), ended),
    ensures
        !ended,
        fresh@.framing == framing,
        fresh@.pending.len() == 0,
{
}

/// Bytes that hold no whole message give none and are all kept: fewer than
/// four, or fewer than the first four announce.
pub proof fn law_incomplete_message_is_kept(b: Seq<u8>)
    requires
        b.len() < 4 || b.len() < 4 + b[0] * 16777216 + b[1] * 65536 + b[2] * 256 + b[3],
    ensures
        crate::channel::messages_in(b) == Seq::<Seq<u8>>::empty(),
        crate::channel::left_of(b) == b,
{
}

/// Bytes that hold a whole message at their start give that message first, and
/// then what the bytes behind it give.
pub proof fn law_complete_message_is_cut_out(b: Seq<u8>, message: Seq<u8>, rest: Seq<u8>)
    requires
        b.len() >= 4,
        b[0] * 16777216 + b[1] * 65536 + b[2] * 256 + b[3] == message.len(),
        b == b.take(4) + message + rest,
    ensures
        crate::channel::messages_in(b) == seq![message] + crate::channel::messages_in(rest),
        crate::channel::left_of(b) == crate::channel::left_of(rest),
{
    assert(b.subrange(4, 4int + message.len()) =~= message);
    assert(b.skip(4int + message.len()) =~= rest);
}

/// On the reliable transport a packet completes what was pending: the messages
/// that are all there come out in order, and the rest is pending.
pub proof fn law_packet_completes_what_was_pending(
    c: &mut Channel,
    packet: Vec<u8>,
    out: Vec<Vec<u8>>,
)
    requires
        call_ensures(Channel::on_packet, (c, packet), out),
        old(c)@.framing == Framing::Prefixed,
        !old(c)@.ended,
        packet@.len() > 0,
    ensures
        ({
            let all = crate::channel::messages_in(old(c)@.pending + packet@);
            &&& out@.len() == all.len()
            &&& forall|i: int| 0 <= i < all.len() ==> (#[trigger] out@[i])@ == all[i]
        }),
        final(c)@.pending == crate::channel::left_of(old(c)@.pending + packet@),
        !final(c)@.ended,
{
    assert(crate::channel::contents(out@).len() == out@.len());
    assert forall|i: int| 0 <= i < out@.len() implies (#[trigger] out@[i])@
        == crate::channel::contents(out@)[i] by {}
}

} // verus!
