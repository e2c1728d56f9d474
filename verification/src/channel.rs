//! Packets and messages of a route.
//!
//! On the unreliable transport each packet is a message. On the reliable one
//! packets are pieces of a byte stream, in which each message goes behind its
//! length. The sending side makes packets of messages, the receiving side
//! messages of packets.

use futures::{FutureExt, SinkExt, StreamExt};
use vstd::prelude::*;
use ya_relay_client::codec::forward::{PrefixedSink, PrefixedStream};

use crate::ingress::{prefixed_message, Framing};

verus! {

/// The number written in the first four bytes, the highest first.
pub open spec fn length_in(b: Seq<u8>) -> nat {
    (b[0] * 0x100_0000 + b[1] * 0x1_0000 + b[2] * 0x100 + b[3]) as nat
}

/// The lowest thirty-two bits of a number in four bytes, the highest first.
pub open spec fn length_bytes(n: nat) -> Seq<u8> {
    seq![
        (n / 0x100_0000 % 0x100) as u8,
        (n / 0x1_0000 % 0x100) as u8,
        (n / 0x100 % 0x100) as u8,
        (n % 0x100) as u8,
    ]
}

/// A message behind its length.
pub open spec fn frame_of(message: Seq<u8>) -> Seq<u8> {
    length_bytes(message.len()) + message
}

/// The message that stands at the start of `b`, if it is all there.
pub open spec fn first_message(b: Seq<u8>) -> Option<Seq<u8>> {
    if b.len() >= 4 && b.len() >= 4 + length_in(b) {
        Some(b.subrange(4, 4int + length_in(b)))
    } else {
        None
    }
}

/// The messages that are all there in `b`, in order.
pub open spec fn messages_in(b: Seq<u8>) -> Seq<Seq<u8>>
    decreases b.len(),
{
    match first_message(b) {
        Some(m) => seq![m] + messages_in(b.skip(4int + m.len())),
        None => Seq::empty(),
    }
}

/// What is left of `b` behind the messages that are all there.
pub open spec fn left_of(b: Seq<u8>) -> Seq<u8>
    decreases b.len(),
{
    match first_message(b) {
        Some(m) => left_of(b.skip(4int + m.len())),
        None => b,
    }
}

/// The packet that carries a message.
pub open spec fn packet_for(framing: Framing, message: Seq<u8>) -> Seq<u8> {
    match framing {
        Framing::Prefixed => frame_of(message),
        Framing::Plain => message,
    }
}

/// The bytes of each entry.
pub open spec fn contents(list: Seq<Vec<u8>>) -> Seq<Seq<u8>> {
    list.map_values(|v: Vec<u8>| v@)
}

/// Puts a message behind its length.
///
/// Sends the message through `ya_relay_client::codec::forward::PrefixedSink`
/// into a list of packets. That sink hands on one packet for a message: the
/// low thirty-two bits of its length, the highest byte first, and the message.
#[verifier::external_body]
fn frame(message: Vec<u8>) -> (r: Vec<u8>)
    requires
        message@.len() + 4 <= isize::MAX,
    ensures
        r@ == frame_of(message@),
{
    let mut packets: Vec<Vec<u8>> = Vec::new();
    let _ = PrefixedSink::new(&mut packets).send(message).now_or_never();
    packets.concat()
}

/// Cuts the first message out of a byte stream.
///
/// Takes the first item of `ya_relay_client::codec::forward::PrefixedStream`
/// over a stream that gives `bytes` and ends. That item is the message behind
/// the length in the first four bytes, where all of it is there. Otherwise the
/// stream ends without an item. It never gives an error. Four is added to the
/// length on the way, so the sum has to fit.
#[verifier::external_body]
fn cut_first(bytes: Vec<u8>) -> (r: Option<Result<Vec<u8>, String>>)
    requires
        bytes@.len() >= 4 ==> length_in(bytes@) + 4 <= usize::MAX,
    ensures
        match r {
            Some(Ok(message)) => first_message(bytes@) == Some(message@),
            Some(Err(_)) => false,
            None => first_message(bytes@) is None,
        },
{
    let mut stream = PrefixedStream::new(futures::stream::iter(vec![bytes]));
    match stream.next().now_or_never().flatten() {
        Some(Ok(message)) => Some(Ok(message.to_vec())),
        Some(Err(e)) => Some(Err(e.to_string())),
        None => None,
    }
}

/// The packet that carries a message.
pub fn packet_of(framing: Framing, message: Vec<u8>) -> (r: Vec<u8>)
    requires
        message@.len() + 4 <= isize::MAX,
    ensures
        r@ == packet_for(framing, message@),
{
    match framing {
        Framing::Prefixed => frame(message),
        Framing::Plain => message,
    }
}

/// Whether the length at the start of `bytes` is one that a message in memory
/// can have.
fn length_fits(bytes: &Vec<u8>) -> (r: bool)
    ensures
        r == (bytes@.len() >= 4 ==> length_in(bytes@) + 4 <= usize::MAX),
        !r ==> first_message(bytes@) is None,
{
    let len: usize = bytes.len();
    if len < 4 {
        return true;
    }
    let n: u64 = bytes[0] as u64 * 0x100_0000 + bytes[1] as u64 * 0x1_0000 + bytes[2] as u64 * 0x100
        + bytes[3] as u64;
    n <= (usize::MAX - 4) as u64
}

/// Model of `Channel`.
pub struct ChannelModel {
    pub framing: Framing,
    /// Bytes that came in and belong to a message that is not all there yet.
    pub pending: Seq<u8>,
    pub ended: bool,
}

impl ChannelModel {
    /// The receiving side at its start.
    pub open spec fn start(framing: Framing) -> Self {
        ChannelModel { framing, pending: Seq::empty(), ended: false }
    }

    /// The receiving side after one more packet. An empty packet ends a byte
    /// stream.
    pub open spec fn after(self, packet: Seq<u8>) -> Self {
        match self.framing {
            Framing::Plain => self,
            Framing::Prefixed => if self.ended || packet.len() == 0 {
                ChannelModel { ended: true, ..self }
            } else {
                ChannelModel { pending: left_of(self.pending + packet), ..self }
            },
        }
    }

    /// The messages that come out for a packet.
    pub open spec fn output(self, packet: Seq<u8>) -> Seq<Seq<u8>> {
        match self.framing {
            Framing::Plain => seq![packet],
            Framing::Prefixed => if self.ended || packet.len() == 0 {
                Seq::empty()
            } else {
                messages_in(self.pending + packet)
            },
        }
    }

    /// The messages that come out for the packets `packets`, taken one by one.
    pub open spec fn run(self, packets: Seq<Seq<u8>>) -> Seq<Seq<u8>>
        decreases packets.len(),
    {
        if packets.len() == 0 {
            Seq::empty()
        } else {
            self.output(packets[0]) + self.after(packets[0]).run(packets.drop_first())
        }
    }
}

/// The receiving side of a route.
pub struct Channel {
    framing: Framing,
    pending: Vec<u8>,
    ended: bool,
}

impl View for Channel {
    type V = ChannelModel;

    closed spec fn view(&self) -> ChannelModel {
        ChannelModel { framing: self.framing, pending: self.pending@, ended: self.ended }
    }
}

impl Channel {
    /// The receiving side of a route with the given framing.
    pub fn new(framing: Framing) -> (r: Self)
        ensures
            r@ == ChannelModel::start(framing),
    {
        let pending: Vec<u8> = Vec::new();
        assert(pending@ =~= Seq::<u8>::empty());
        Channel { framing, pending, ended: false }
    }

    /// Whether nothing more comes out.
    pub fn is_ended(&self) -> (r: bool)
        ensures
            r == self@.ended,
    {
        self.ended
    }

    /// Takes the next packet and hands out the messages that it completes.
    pub fn on_packet(&mut self, packet: Vec<u8>) -> (r: Vec<Vec<u8>>)
        ensures
            final(self)@ == old(self)@.after(packet@),
            contents(r@) == old(self)@.output(packet@),
    {
        let mut out: Vec<Vec<u8>> = Vec::new();
        match self.framing {
            Framing::Plain => {
                out.push(packet);
                assert(contents(out@) =~= self@.output(packet@));
                return out;
            },
            Framing::Prefixed => {},
        }
        if self.ended || packet.len() == 0 {
            self.ended = true;
            assert(contents(out@) =~= Seq::<Seq<u8>>::empty());
            return out;
        }
        let mut packet: Vec<u8> = packet;
        self.pending.append(&mut packet);
        let ghost all = self.pending@;
        assert(contents(out@) + messages_in(all) =~= messages_in(all));
        let mut go: bool = true;
        while go
            invariant
                self.framing == old(self)@.framing,
                self.ended == old(self)@.ended,
                contents(out@) + messages_in(self.pending@) == messages_in(all),
                left_of(self.pending@) == left_of(all),
                !go ==> first_message(self.pending@) is None,
            decreases self.pending@.len() + (if go { 1int } else { 0int }),
        {
            go = false;
            if length_fits(&self.pending) {
                if let Some(cut) = cut_first(self.pending.clone()) {
                    if let Some(message) = prefixed_message(cut) {
                        let ghost before = self.pending@;
                        let ghost done = out@;
                        let rest: Vec<u8> = self.pending.split_off(4 + message.len());
                        self.pending = rest;
                        out.push(message);
                        go = true;
                        proof {
                            assert(self.pending@ =~= before.skip(4int + message@.len()));
                            assert(contents(out@) =~= contents(done).push(message@));
                            assert(contents(out@) + messages_in(self.pending@) =~= contents(done)
                                + messages_in(before));
                        }
                    }
                }
            }
        }
        assert(contents(out@) + messages_in(self.pending@) =~= contents(out@));
        out
    }
}

/// A length in four bytes reads back.
proof fn lemma_length_reads_back(n: nat)
    requires
        n < 0x1_0000_0000,
    ensures
        length_in(length_bytes(n)) == n,
{
}

/// What comes in behind `a` completes the messages that `a` leaves open, and
/// changes none of those that are all there.
proof fn lemma_messages_append(a: Seq<u8>, b: Seq<u8>)
    ensures
        messages_in(a + b) == messages_in(a) + messages_in(left_of(a) + b),
        left_of(a + b) == left_of(left_of(a) + b),
    decreases a.len(),
{
    match first_message(a) {
        Some(m) => {
            let rest = a.skip(4int + m.len());
            lemma_messages_append(rest, b);
            assert((a + b).subrange(4, 4int + m.len()) =~= m);
            assert(first_message(a + b) == Some(m));
            assert((a + b).skip(4int + m.len()) =~= rest + b);
            assert(messages_in(a + b) =~= messages_in(a) + messages_in(left_of(a) + b));
        },
        None => {
            assert(messages_in(a) + messages_in(a + b) =~= messages_in(a + b));
        },
    }
}

/// What is left open holds no message that is all there.
proof fn lemma_left_is_open(b: Seq<u8>)
    ensures
        first_message(left_of(b)) is None,
    decreases b.len(),
{
    if let Some(m) = first_message(b) {
        lemma_left_is_open(b.skip(4int + m.len()));
    }
}

/// A message behind its length is cut out again, whatever follows it.
pub proof fn law_frame_is_cut_out(message: Seq<u8>, rest: Seq<u8>)
    requires
        message.len() < 0x1_0000_0000,
    ensures
        messages_in(frame_of(message) + rest) == seq![message] + messages_in(rest),
        left_of(frame_of(message) + rest) == left_of(rest),
{
    let b = frame_of(message) + rest;
    lemma_length_reads_back(message.len());
    assert(length_in(b) == length_in(length_bytes(message.len())));
    assert(b.subrange(4, 4int + message.len()) =~= message);
    assert(b.skip(4int + message.len()) =~= rest);
}

/// Messages behind their lengths, put in a row, are the messages in that row,
/// and nothing is left over.
pub proof fn law_frames_are_cut_out(messages: Seq<Seq<u8>>)
    requires
        forall|i: int| 0 <= i < messages.len() ==> (#[trigger] messages[i]).len() < 0x1_0000_0000,
    ensures
        messages_in(messages.map_values(|m: Seq<u8>| frame_of(m)).flatten()) == messages,
        left_of(messages.map_values(|m: Seq<u8>| frame_of(m)).flatten()) == Seq::<u8>::empty(),
    decreases messages.len(),
{
    let f = |m: Seq<u8>| frame_of(m);
    let row = messages.map_values(f).flatten();
    if messages.len() == 0 {
        assert(messages_in(row) =~= messages);
    } else {
        let more = messages.drop_first();
        assert forall|i: int| 0 <= i < more.len() implies (#[trigger] more[i]).len()
            < 0x1_0000_0000 by {
            assert(more[i] == messages[i + 1]);
        }
        law_frames_are_cut_out(more);
        assert(messages.map_values(f).drop_first() =~= more.map_values(f));
        law_frame_is_cut_out(messages[0], more.map_values(f).flatten());
        assert(row == frame_of(messages[0]) + more.map_values(f).flatten());
        assert(messages_in(row) =~= messages);
    }
}

/// What comes out of a byte stream does not depend on how it is cut into
/// packets: it is the messages that are all there in the packets put together,
/// up to the first empty one, and nothing comes out after that. On the
/// unreliable transport every packet comes out unchanged.
pub proof fn law_channel_run(reliable: bool, packets: Seq<Seq<u8>>, n: int)
    requires
        0 <= n <= packets.len(),
        forall|i: int| 0 <= i < n ==> (#[trigger] packets[i]).len() > 0,
        n < packets.len() ==> packets[n].len() == 0,
    ensures
        ChannelModel::start(crate::ingress::framing_of(reliable)).run(packets) == (if reliable {
            messages_in(packets.take(n).flatten())
        } else {
            packets
        }),
{
    let s = ChannelModel::start(crate::ingress::framing_of(reliable));
    if reliable {
        lemma_prefixed_run(s, packets, n);
        assert(Seq::<u8>::empty() + packets.take(n).flatten() =~= packets.take(n).flatten());
    } else {
        lemma_plain_run(s, packets);
    }
}

proof fn lemma_plain_run(s: ChannelModel, packets: Seq<Seq<u8>>)
    requires
        s.framing == Framing::Plain,
    ensures
        s.run(packets) == packets,
    decreases packets.len(),
{
    if packets.len() > 0 {
        lemma_plain_run(s, packets.drop_first());
    }
    assert(s.run(packets) =~= packets);
}

proof fn lemma_ended_run(s: ChannelModel, packets: Seq<Seq<u8>>)
    requires
        s.framing == Framing::Prefixed,
        s.ended,
    ensures
        s.run(packets) == Seq::<Seq<u8>>::empty(),
    decreases packets.len(),
{
    if packets.len() > 0 {
        lemma_ended_run(s, packets.drop_first());
    }
    assert(s.run(packets) =~= Seq::<Seq<u8>>::empty());
}

proof fn lemma_prefixed_run(s: ChannelModel, packets: Seq<Seq<u8>>, n: int)
    requires
        s.framing == Framing::Prefixed,
        !s.ended,
        first_message(s.pending) is None,
        0 <= n <= packets.len(),
        forall|i: int| 0 <= i < n ==> (#[trigger] packets[i]).len() > 0,
        n < packets.len() ==> packets[n].len() == 0,
    ensures
        s.run(packets) == messages_in(s.pending + packets.take(n).flatten()),
    decreases packets.len(),
{
    if n == 0 {
        assert(packets.take(0).flatten() =~= Seq::<u8>::empty());
        assert(s.pending + packets.take(0).flatten() =~= s.pending);
        if packets.len() > 0 {
            lemma_ended_run(s.after(packets[0]), packets.drop_first());
        }
        assert(s.run(packets) =~= Seq::<Seq<u8>>::empty());
    } else {
        let t = s.after(packets[0]);
        let more = packets.drop_first();
        let row = more.take(n - 1).flatten();
        lemma_left_is_open(s.pending + packets[0]);
        assert forall|i: int| 0 <= i < n - 1 implies (#[trigger] more[i]).len() > 0 by {
            assert(more[i] == packets[i + 1]);
        }
        lemma_prefixed_run(t, more, n - 1);
        lemma_messages_append(s.pending + packets[0], row);
        assert(packets.take(n).drop_first() =~= more.take(n - 1));
        assert(packets.take(n).first() == packets[0]);
        assert(s.pending + packets.take(n).flatten() =~= s.pending + packets[0] + row);
    }
}

/// Messages that are sent one by one come out of the receiving side exactly as
/// they went in, in order, on either transport.
pub proof fn law_sent_messages_come_out(reliable: bool, messages: Seq<Seq<u8>>)
    requires
        reliable ==> forall|i: int|
            0 <= i < messages.len() ==> (#[trigger] messages[i]).len() < 0x1_0000_0000,
    ensures
        ChannelModel::start(crate::ingress::framing_of(reliable)).run(
            messages.map_values(
                |m: Seq<u8>| packet_for(crate::ingress::framing_of(reliable), m),
            ),
        ) == messages,
{
    let packets = messages.map_values(
        |m: Seq<u8>| packet_for(crate::ingress::framing_of(reliable), m),
    );
    if reliable {
        assert(packets =~= messages.map_values(|m: Seq<u8>| frame_of(m)));
        law_repacked_messages_come_out(messages, packets);
    } else {
        assert(packets =~= messages);
        lemma_plain_run(ChannelModel::start(crate::ingress::framing_of(reliable)), packets);
    }
}

/// Messages that are sent on the reliable transport come out exactly as they
/// went in, in order, however their bytes were cut into packets on the way.
pub proof fn law_repacked_messages_come_out(messages: Seq<Seq<u8>>, packets: Seq<Seq<u8>>)
    requires
        forall|i: int| 0 <= i < messages.len() ==> (#[trigger] messages[i]).len() < 0x1_0000_0000,
        forall|i: int| 0 <= i < packets.len() ==> (#[trigger] packets[i]).len() > 0,
        packets.flatten() == messages.map_values(|m: Seq<u8>| frame_of(m)).flatten(),
    ensures
        ChannelModel::start(Framing::Prefixed).run(packets) == messages,
{
    law_channel_run(true, packets, packets.len() as int);
    assert(packets.take(packets.len() as int) =~= packets);
    law_frames_are_cut_out(messages);
}

} // verus!
