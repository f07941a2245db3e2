use cyberbeast::descriptor::{DescriptorTransfer, JsonDescCache, TransferStep};
use cyberbeast::ErrorKind;

fn meta(total_len: u32, version_crc: u16) -> [u8; 8] {
    let mut data = [0u8; 8];
    data[2..6].copy_from_slice(&total_len.to_le_bytes());
    data[6..8].copy_from_slice(&version_crc.to_le_bytes());
    data
}

fn chunk(offset: u16, bytes: &[u8]) -> Vec<u8> {
    let mut data = offset.to_le_bytes().to_vec();
    data.extend_from_slice(bytes);
    data
}

fn descriptor() -> Vec<u8> {
    (0..100u8).map(|i| b'a' + i % 26).collect()
}

#[test]
fn only_contiguous_bytes_are_kept() {
    let mut cache = JsonDescCache::default();
    assert!(cache.record(&meta(100, 1)));
    let text = descriptor();
    assert!(cache.record(&chunk(0, &text[0..6])));
    // A frame past a gap and a repeated frame are dropped.
    assert!(!cache.record(&chunk(12, &text[12..18])));
    assert!(!cache.record(&chunk(0, &text[0..6])));
    assert_eq!(cache.bytes(), &text[0..6]);
    assert!(cache.record(&chunk(6, &text[6..12])));
    assert_eq!(cache.bytes(), &text[0..12]);
    // Too short to be anything.
    assert!(!cache.record(&[12, 0]));
    assert!(!cache.record(&[]));
    cache.reset();
    assert_eq!(cache.total_len(), None);
    assert!(cache.bytes().is_empty());
}

#[test]
fn padding_behind_the_end_is_cut_off() {
    let mut cache = JsonDescCache::default();
    let text: Vec<u8> = descriptor()[..64].to_vec();
    // The metadata frame arrives last.
    for start in (0..64).step_by(6) {
        let mut bytes = [0u8; 6];
        let end = (start + 6).min(64);
        bytes[..end - start].copy_from_slice(&text[start..end]);
        assert!(cache.record(&chunk(start as u16, &bytes)));
    }
    assert_eq!(cache.bytes().len(), 66);
    assert!(cache.record(&meta(64, 1)));
    // What was recorded stays; the end is cut off when the descriptor is handed out.
    assert_eq!(cache.bytes().len(), 66);
    assert!(!cache.record(&chunk(64, b"xxxxxx")));
    assert_eq!(cache.bytes()[..64], text[..]);
    match DescriptorTransfer::start(1, 500, 0).step(&mut cache, 1) {
        TransferStep::Done(total_len, version_crc, bytes) => {
            assert_eq!((total_len, version_crc), (64, 1));
            assert_eq!(bytes, text);
        }
        other => panic!("{other:?}"),
    }
}

#[test]
fn the_longest_descriptor_can_be_transferred() {
    let mut cache = JsonDescCache::default();
    assert!(cache.record(&meta(65535, 1)));
    for start in (0..65535u32).step_by(6) {
        assert!(cache.record(&chunk(start as u16, b"abcdef")));
    }
    assert_eq!(cache.bytes().len(), 65538);
    assert_eq!(cache.total_len(), Some(65535));
    assert_eq!(cache.version_crc(), Some(1));
    match DescriptorTransfer::start(1, 500, 0).step(&mut cache, 1) {
        TransferStep::Done(_, _, bytes) => assert_eq!(bytes.len(), 65535),
        other => panic!("{other:?}"),
    }
    // More than data frames can fill is dropped as a whole.
    let mut cache = JsonDescCache::default();
    assert!(!cache.record(&chunk(0, &[b'x'; 65542])));
    assert!(cache.bytes().is_empty());
    assert!(cache.record(&chunk(0, &[b'x'; 65541])));
}

#[test]
fn text_is_not_taken_for_metadata() {
    let mut cache = JsonDescCache::default();
    assert!(cache.record(&[0, 0, b'[', b'{', b'"', b'n', b'a', b'm']));
    assert_eq!(cache.total_len(), None);
    assert_eq!(cache.bytes(), b"[{\"nam");
    // A length below the minimum is no metadata either.
    let mut cache = JsonDescCache::default();
    cache.record(&meta(63, 1));
    assert_eq!(cache.total_len(), None);
    let mut cache = JsonDescCache::default();
    cache.record(&meta(64, 1));
    assert_eq!(cache.total_len(), Some(64));
}

#[test]
fn complete_transfers_hand_out_the_descriptor() {
    let text = descriptor();
    let mut cache = JsonDescCache::default();
    let mut transfer = DescriptorTransfer::start(1, 500, 0);
    cache.record(&meta(100, 0xBEEF));
    for start in (0..100).step_by(6) {
        assert!(matches!(transfer.step(&mut cache, 1), TransferStep::Wait));
        cache.record(&chunk(start as u16, &text[start..(start + 6).min(100)]));
    }
    match transfer.step(&mut cache, 2) {
        TransferStep::Done(total_len, version_crc, bytes) => {
            assert_eq!((total_len, version_crc), (100, 0xBEEF));
            assert_eq!(bytes, text);
        }
        other => panic!("{other:?}"),
    }
    assert_eq!(transfer.requests, 1);
}

#[test]
fn quiet_windows_lead_to_requests_for_the_first_missing_byte() {
    let text = descriptor();
    let mut cache = JsonDescCache::default();
    let mut transfer = DescriptorTransfer::start(1, 500, 0);
    cache.record(&meta(100, 1));
    cache.record(&chunk(0, &text[0..6]));
    cache.record(&chunk(12, &text[12..18]));
    assert!(matches!(transfer.step(&mut cache, 10), TransferStep::Wait));
    assert!(matches!(transfer.step(&mut cache, 510), TransferStep::Wait));
    assert!(matches!(
        transfer.step(&mut cache, 511),
        TransferStep::Request(6)
    ));
    assert!(matches!(transfer.step(&mut cache, 512), TransferStep::Wait));
    assert!(matches!(
        transfer.step(&mut cache, 1012),
        TransferStep::Request(6)
    ));
    cache.record(&chunk(0, &text[0..6]));
    assert!(matches!(
        transfer.step(&mut cache, 2000),
        TransferStep::Request(6)
    ));
    match transfer.step(&mut cache, 3000) {
        TransferStep::Failed(err) => {
            assert_eq!(err.kind(), ErrorKind::Timeout);
            assert_eq!(
                err.message(),
                "endpoint descriptor transfer stopped at byte 6 of 100: 3 requests brought no new \
                 byte (1 frame(s) past the gap, 1 stale frame(s) dropped)"
            );
        }
        other => panic!("{other:?}"),
    }
}

#[test]
fn mixed_up_transfers_start_again_twice() {
    let mut cache = JsonDescCache::default();
    let mut transfer = DescriptorTransfer::start(0x1F, 500, 0);
    for _ in 0..2 {
        cache.record(&meta(100, 1));
        cache.record(&meta(100, 2));
        assert!(matches!(
            transfer.step(&mut cache, 1),
            TransferStep::Request(0)
        ));
        assert_eq!(cache.total_len(), None);
    }
    cache.record(&meta(100, 1));
    cache.record(&meta(101, 1));
    match transfer.step(&mut cache, 1) {
        TransferStep::Failed(err) => {
            assert_eq!(err.kind(), ErrorKind::Protocol);
            assert_eq!(
                err.message(),
                "node 0x1F keeps sending metadata of two different endpoint descriptors"
            );
        }
        other => panic!("{other:?}"),
    }
}

#[test]
fn oversized_descriptors_are_refused() {
    let mut cache = JsonDescCache::default();
    let mut transfer = DescriptorTransfer::start(1, 500, 0);
    cache.record(&meta(65536, 1));
    match transfer.step(&mut cache, 1) {
        TransferStep::Failed(err) => assert_eq!(
            err.message(),
            "endpoint descriptor declares 65536 bytes; a transfer carries at most 65535"
        ),
        other => panic!("{other:?}"),
    }
    let mut cache = JsonDescCache::default();
    cache.record(&meta(65535, 1));
    assert!(matches!(transfer.step(&mut cache, 1), TransferStep::Wait));
    // The length is metadata whatever its highest byte is.
    let mut cache = JsonDescCache::default();
    cache.record(&[0x00, 0x00, 0x00, 0x00, 0x00, 0x01, 0x82, 0x3F]);
    assert!(cache.bytes().is_empty());
    match transfer.step(&mut cache, 1) {
        TransferStep::Failed(err) => assert_eq!(
            err.message(),
            "endpoint descriptor declares 16777216 bytes; a transfer carries at most 65535"
        ),
        other => panic!("{other:?}"),
    }
}

#[test]
fn slow_transfers_give_up_after_64_requests() {
    let mut cache = JsonDescCache::default();
    let mut transfer = DescriptorTransfer::start(1, 10, 0);
    cache.record(&meta(1000, 1));
    let mut now = 0;
    let mut offset = 0u16;
    let mut requests = 1;
    let message = loop {
        now += 100;
        match transfer.step(&mut cache, now) {
            TransferStep::Wait => {}
            TransferStep::Request(at) => {
                assert_eq!(at, u32::from(offset));
                requests += 1;
                cache.record(&chunk(offset, b"x"));
                offset += 1;
            }
            TransferStep::Done(..) => panic!("not complete"),
            TransferStep::Failed(err) => break err.message().to_string(),
        }
    };
    assert_eq!(requests, 64);
    assert_eq!(
        message,
        "endpoint descriptor transfer gave up after 64 requests (63 of 1000 bytes)"
    );
}

#[test]
fn silent_nodes_fail_after_short_windows() {
    let mut cache = JsonDescCache::default();
    let mut transfer = DescriptorTransfer::start(0xFF, 75, 0);
    let mut now = 0;
    let mut requests = 1;
    let message = loop {
        match transfer.step(&mut cache, now) {
            TransferStep::Wait => now += 1,
            TransferStep::Request(offset) => {
                assert_eq!(offset, 0);
                requests += 1;
            }
            TransferStep::Done(..) => panic!("silent"),
            TransferStep::Failed(err) => break err.message().to_string(),
        }
    };
    assert_eq!(requests, 5);
    assert_eq!(now, 5 * 76);
    assert!(message.starts_with("no JSON descriptor metadata from node 0xFF within 375ms ("));
}
