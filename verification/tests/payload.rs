use quicbench::payload::{
    ack_datagram, chunk_buffers, packet_payload, uniform_datagram, uniform_payload,
    usable_chunks, ACK_FILL, CHUNK_SLOTS, DATAGRAM_BUFFER_SIZE, PACKET_FILL, PACKET_SIZE,
};

#[test]
fn constants_have_their_values() {
    assert_eq!(PACKET_SIZE, 1000);
    assert_eq!(DATAGRAM_BUFFER_SIZE, 1000 * 1024 * 1024);
    assert_eq!(CHUNK_SLOTS, 4);
    assert_eq!(PACKET_FILL, 0);
    assert_eq!(ACK_FILL, b'a');
}

#[test]
fn packet_is_a_thousand_zero_bytes() {
    let p = packet_payload();
    assert_eq!(p.len(), 1000);
    assert!(p.iter().all(|b| *b == 0));
}

#[test]
fn acknowledgment_is_a_thousand_letters() {
    let d = ack_datagram();
    assert_eq!(d.len(), 1000);
    assert_eq!(&d[..], &vec![b'a'; 1000][..]);
}

#[test]
fn uniform_payload_has_size_and_fill() {
    assert_eq!(uniform_payload(7, 0), Vec::<u8>::new());
    assert_eq!(uniform_payload(7, 3), vec![7, 7, 7]);
    assert_eq!(uniform_payload(0, 16), vec![0u8; 16]);
}

#[test]
fn uniform_datagram_holds_the_payload() {
    let d = uniform_datagram(b'a', 16);
    assert_eq!(&d[..], b"aaaaaaaaaaaaaaaa");
    let e = uniform_datagram(1, 0);
    assert!(e.is_empty());
}

#[test]
fn chunk_buffers_are_four_and_empty() {
    let bufs = chunk_buffers();
    assert_eq!(bufs.len(), 4);
    for b in bufs.iter() {
        assert!(b.is_empty());
        assert_eq!(b.len(), 0);
    }
}

#[test]
fn usable_chunks_never_exceed_the_buffers() {
    assert_eq!(usable_chunks(0), 0);
    assert_eq!(usable_chunks(1), 1);
    assert_eq!(usable_chunks(4), 4);
    assert_eq!(usable_chunks(5), 4);
    assert_eq!(usable_chunks(usize::MAX), 4);
}
