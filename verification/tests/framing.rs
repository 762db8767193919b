use pool_state_arena::framing::take_frames;

fn framed(payload: &[u8]) -> Vec<u8> {
    let mut out = (payload.len() as u32).to_le_bytes().to_vec();
    out.extend_from_slice(payload);
    out
}

#[test]
fn take_frames_peels_complete_frames() {
    let mut buf = Vec::new();
    buf.extend(framed(b"abc"));
    buf.extend(framed(b""));
    buf.extend(framed(b"hello world"));
    let frames = take_frames(&mut buf);
    assert_eq!(frames, vec![b"abc".to_vec(), b"".to_vec(), b"hello world".to_vec()]);
    assert!(buf.is_empty());
}

#[test]
fn take_frames_keeps_partial_frame() {
    let mut buf = framed(b"abc");
    let second = framed(b"defgh");
    buf.extend_from_slice(&second[..6]);
    let frames = take_frames(&mut buf);
    assert_eq!(frames, vec![b"abc".to_vec()]);
    assert_eq!(buf, second[..6].to_vec());
    buf.extend_from_slice(&second[6..]);
    let frames = take_frames(&mut buf);
    assert_eq!(frames, vec![b"defgh".to_vec()]);
    assert!(buf.is_empty());
}

#[test]
fn take_frames_waits_for_the_length_prefix() {
    let mut buf = vec![3u8, 0, 0];
    assert!(take_frames(&mut buf).is_empty());
    assert_eq!(buf, vec![3u8, 0, 0]);
    let mut empty: Vec<u8> = Vec::new();
    assert!(take_frames(&mut empty).is_empty());
}

#[test]
fn take_frames_reads_the_length_little_endian() {
    let payload = vec![9u8; 0x0102];
    let mut buf = vec![0x02u8, 0x01, 0, 0];
    buf.extend_from_slice(&payload);
    buf.push(0xff);
    let frames = take_frames(&mut buf);
    assert_eq!(frames, vec![payload]);
    assert_eq!(buf, vec![0xffu8]);
}

#[test]
fn framing_is_independent_of_chunk_boundaries() {
    let payloads: Vec<Vec<u8>> = vec![
        b"first".to_vec(),
        Vec::new(),
        vec![0u8, 1, 2, 3, 4, 5, 6, 7, 8, 9],
        b"x".to_vec(),
    ];
    let mut wire = Vec::new();
    for p in &payloads {
        wire.extend(framed(p));
    }
    // one byte at a time
    let mut buf = Vec::new();
    let mut seen = Vec::new();
    for byte in &wire {
        buf.push(*byte);
        seen.extend(take_frames(&mut buf));
    }
    assert_eq!(seen, payloads);
    assert!(buf.is_empty());
    // in chunks of three
    let mut buf = Vec::new();
    let mut seen = Vec::new();
    for chunk in wire.chunks(3) {
        buf.extend_from_slice(chunk);
        seen.extend(take_frames(&mut buf));
    }
    assert_eq!(seen, payloads);
    assert!(buf.is_empty());
}
