use futures::{FutureExt, SinkExt, StreamExt};
use hybrid_net::channel::{packet_of, Channel};
use hybrid_net::ingress::{forward_channel, Framing};
use ya_relay_client::codec::forward::{PrefixedSink, PrefixedStream};

fn messages() -> Vec<Vec<u8>> {
    vec![vec![1, 2, 3], vec![], vec![7; 300], vec![255]]
}

/// What comes out of a channel for `packets`, until it ends.
fn received(reliable: bool, packets: Vec<Vec<u8>>) -> Vec<Vec<u8>> {
    let mut channel = Channel::new(forward_channel(reliable));
    let mut out = Vec::new();
    for packet in packets {
        out.extend(channel.on_packet(packet));
    }
    out
}

/// `bytes` in packets of the given size.
fn pieces(bytes: &[u8], size: usize) -> Vec<Vec<u8>> {
    bytes.chunks(size).map(|p| p.to_vec()).collect()
}

fn framed(messages: Vec<Vec<u8>>) -> Vec<Vec<u8>> {
    messages.into_iter().map(|m| packet_of(Framing::Prefixed, m)).collect()
}

#[test]
fn packets_carry_the_length_on_the_reliable_transport() {
    assert_eq!(packet_of(Framing::Prefixed, vec![9, 8]), vec![0, 0, 0, 2, 9, 8]);
    assert_eq!(packet_of(Framing::Prefixed, vec![]), vec![0, 0, 0, 0]);
    assert_eq!(packet_of(Framing::Prefixed, vec![5; 0x1_0203])[..5], [0, 1, 2, 3, 5]);
    assert_eq!(packet_of(Framing::Plain, vec![9, 8]), vec![9, 8]);
}

#[test]
fn sent_messages_come_out_on_either_transport() {
    assert_eq!(received(true, framed(messages())), messages());
    let plain = messages().into_iter().map(|m| packet_of(Framing::Plain, m)).collect();
    assert_eq!(received(false, plain), messages());
}

#[test]
fn cuts_into_packets_do_not_matter() {
    let bytes = framed(messages()).concat();
    for size in [1, 2, 3, 4, 5, 7, 64, 1000] {
        assert_eq!(received(true, pieces(&bytes, size)), messages());
    }
}

#[test]
fn incomplete_message_waits() {
    let mut channel = Channel::new(Framing::Prefixed);
    assert!(channel.on_packet(vec![0, 0]).is_empty());
    assert!(channel.on_packet(vec![0, 2, 1]).is_empty());
    assert_eq!(channel.on_packet(vec![2, 0, 0, 0, 1, 3, 0]), vec![vec![1, 2], vec![3]]);
    assert!(channel.on_packet(vec![0, 0, 9, 1]).is_empty());
    assert!(channel.on_packet(vec![255; 4]).is_empty());
    assert!(!channel.is_ended());
}

#[test]
fn huge_length_is_never_complete() {
    assert!(received(true, vec![vec![255; 20], vec![255; 20]]).is_empty());
}

#[test]
fn empty_packet_ends_a_byte_stream_only() {
    let mut channel = Channel::new(Framing::Prefixed);
    assert_eq!(channel.on_packet(vec![0, 0, 0, 1, 4]), vec![vec![4]]);
    assert!(channel.on_packet(vec![]).is_empty());
    assert!(channel.is_ended());
    assert!(channel.on_packet(vec![0, 0, 0, 1, 4]).is_empty());

    let mut channel = Channel::new(Framing::Plain);
    assert_eq!(channel.on_packet(vec![]), vec![Vec::<u8>::new()]);
    assert_eq!(channel.on_packet(vec![0]), vec![vec![0]]);
    assert!(!channel.is_ended());
}

#[test]
fn channel_gives_what_the_stream_of_the_relay_client_gives() {
    let bytes = [framed(messages()).concat(), vec![0, 0, 1]].concat();
    for size in [1, 3, 6, 100] {
        let mut packets = pieces(&bytes, size);
        packets.insert(packets.len() / 2, Vec::new());
        let stream = PrefixedStream::new(futures::stream::iter(packets.clone()));
        let expected: Vec<Vec<u8>> = stream
            .map(|cut| cut.expect("no failure to cut").to_vec())
            .collect::<Vec<Vec<u8>>>()
            .now_or_never()
            .expect("the stream is ready");
        assert_eq!(received(true, packets), expected);
    }
}

#[test]
fn packets_are_those_of_the_sink_of_the_relay_client() {
    let (tx, rx) = futures::channel::mpsc::unbounded::<Vec<u8>>();
    let mut sink = PrefixedSink::new(tx);
    for message in messages() {
        sink.send(message).now_or_never().expect("the sink is ready").expect("the sink is open");
    }
    drop(sink);
    let packets: Vec<Vec<u8>> = rx.collect::<Vec<Vec<u8>>>().now_or_never().expect("closed");
    assert_eq!(framed(messages()), packets);
}
