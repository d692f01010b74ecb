use remcp::rate::RateController;
use remcp::transfer::{
    apply_payload, client_put_payload, server_get_payload, GetTransfer, PutTransfer,
};

#[test]
fn round_trip_preserves_content() {
    let rc = RateController::new(4);
    let original: Vec<u8> = b"The quick brown fox jumps over the lazy dog".to_vec();

    // PUT: the client streams the file, the server stores what arrives
    let uploaded = client_put_payload(&original, 0, &rc, 3);
    let remote = apply_payload(&Vec::new(), 0, &uploaded);
    assert_eq!(remote, original);

    // GET: the server streams the stored file back
    let downloaded = server_get_payload(&remote, 0, &rc, 3);
    assert_eq!(downloaded, original);
}

#[test]
fn round_trip_empty_file() {
    let rc = RateController::new(16);
    let original: Vec<u8> = Vec::new();
    let uploaded = client_put_payload(&original, 0, &rc, 1);
    assert_eq!(uploaded.len(), 0);
    let remote = apply_payload(&Vec::new(), 0, &uploaded);
    let downloaded = server_get_payload(&remote, 0, &rc, 1);
    assert_eq!(downloaded, original);
}

#[test]
fn resumed_put_completes_the_file() {
    let rc = RateController::new(8);
    let original: Vec<u8> = b"0123456789abcdef".to_vec();
    let k: usize = 7;

    // the interrupted attempt left k bytes on the remote side and a marker
    // of length k on the local side
    let remote_partial: Vec<u8> = original[..k].to_vec();

    // the retry resumes at offset k and sends exactly totalSize - k bytes
    let payload = client_put_payload(&original, k as u64, &rc, 1);
    assert_eq!(payload.len(), original.len() - k);

    let remote = apply_payload(&remote_partial, k as u64, &payload);
    assert_eq!(remote, original);
}

#[test]
fn marker_tracks_every_interruption_point() {
    // an upload resumed at k and interrupted after m mirrored bytes leaves
    // a marker holding exactly the first k + m bytes
    let f: Vec<u8> = b"0123456789".to_vec();
    let k: usize = 4;
    let marker: Vec<u8> = f[..k].to_vec();
    let m: usize = 3;
    let partial_payload: Vec<u8> = f[k..k + m].to_vec();
    let marker_after = apply_payload(&marker, k as u64, &partial_payload);
    assert_eq!(marker_after.len(), k + m);
    assert_eq!(marker_after, f[..k + m].to_vec());
}

#[test]
fn get_resumes_at_offset() {
    let rc = RateController::new(3);
    let content: Vec<u8> = b"abcdefgh".to_vec();
    assert_eq!(server_get_payload(&content, 5, &rc, 2), b"fgh".to_vec());
    // offset at or past the end: zero payload bytes, never an error
    assert_eq!(server_get_payload(&content, 8, &rc, 2).len(), 0);
    assert_eq!(server_get_payload(&content, 200, &rc, 2).len(), 0);
}

#[test]
fn get_transfer_bookkeeping() {
    let mut t = GetTransfer::new(100, 40);
    assert!(!t.done());
    // a chunk larger than the remainder is capped
    assert_eq!(t.next_read(256), 60);
    assert_eq!(t.next_read(32), 32);
    t.advance(32);
    assert_eq!(t.next_read(32), 28);
    t.advance(28);
    assert!(t.done());
}

#[test]
fn put_transfer_bookkeeping() {
    let mut t = PutTransfer::new(10, 16);
    assert!(!t.done());
    // a short socket read is taken as it is; an over-long one is capped
    assert_eq!(t.next_write(4), 4);
    assert_eq!(t.next_write(100), 6);
    t.advance(6);
    assert!(t.done());
}
