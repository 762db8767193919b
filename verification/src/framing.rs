//! Length-prefixed framing: every message on the wire is a 32-bit
//! little-endian length followed by that many payload bytes.

use vstd::prelude::*;

verus! {

/// The number that four bytes hold, least significant byte first.
pub open spec fn le_u32(b0: u8, b1: u8, b2: u8, b3: u8) -> int {
    b0 as int + b1 as int * 0x100 + b2 as int * 0x1_0000 + b3 as int * 0x100_0000
}

/// The payload length announced by the first four bytes of `buf`.
pub open spec fn announced_length(buf: Seq<u8>) -> int
    recommends
        buf.len() >= 4,
{
    le_u32(buf[0], buf[1], buf[2], buf[3])
}

/// Whether `buf` starts with a complete frame.
pub open spec fn has_frame(buf: Seq<u8>) -> bool {
    buf.len() >= 4 && buf.len() - 4 >= announced_length(buf)
}

/// The payload of the frame that `buf` starts with.
pub open spec fn first_payload(buf: Seq<u8>) -> Seq<u8>
    recommends
        has_frame(buf),
{
    buf.subrange(4, 4 + announced_length(buf))
}

/// What follows the frame that `buf` starts with.
pub open spec fn after_first(buf: Seq<u8>) -> Seq<u8>
    recommends
        has_frame(buf),
{
    buf.subrange(4 + announced_length(buf), buf.len() as int)
}

/// The payloads of all complete frames at the start of `buf`, in order.
pub open spec fn payloads(buf: Seq<u8>) -> Seq<Seq<u8>>
    decreases buf.len(),
{
    if has_frame(buf) {
        seq![first_payload(buf)] + payloads(after_first(buf))
    } else {
        Seq::empty()
    }
}

/// What is left of `buf` once its complete frames are taken off: nothing, or
/// the beginning of a frame that has not arrived in full.
pub open spec fn residue(buf: Seq<u8>) -> Seq<u8>
    decreases buf.len(),
{
    if has_frame(buf) {
        residue(after_first(buf))
    } else {
        buf
    }
}

/// The four bytes that announce a payload of `len` bytes.
pub open spec fn length_prefix(len: int) -> Seq<u8> {
    seq![
        (len % 0x100) as u8,
        ((len / 0x100) % 0x100) as u8,
        ((len / 0x1_0000) % 0x100) as u8,
        ((len / 0x100_0000) % 0x100) as u8,
    ]
}

/// One payload as it stands on the wire.
pub open spec fn framed(payload: Seq<u8>) -> Seq<u8> {
    length_prefix(payload.len() as int) + payload
}

/// A sequence of payloads as it stands on the wire.
pub open spec fn wire_of(messages: Seq<Seq<u8>>) -> Seq<u8>
    decreases messages.len(),
{
    if messages.len() == 0 {
        Seq::empty()
    } else {
        framed(messages[0]) + wire_of(messages.drop_first())
    }
}

/// Whether every payload is short enough for a 32-bit length.
pub open spec fn frameable(messages: Seq<Seq<u8>>) -> bool {
    forall|i: int| 0 <= i < messages.len() ==> (#[trigger] messages[i]).len() <= 0xffff_ffff
}

/// The byte sequences that a list of buffers holds.
pub open spec fn contents(frames: Seq<Vec<u8>>) -> Seq<Seq<u8>> {
    Seq::new(frames.len(), |i: int| frames[i]@)
}

/// The chunks of a stream put end to end.
pub open spec fn joined(chunks: Seq<Seq<u8>>) -> Seq<u8>
    decreases chunks.len(),
{
    if chunks.len() == 0 {
        Seq::empty()
    } else {
        chunks[0] + joined(chunks.drop_first())
    }
}

/// The payloads handed out, and the bytes left waiting, when a receiver that
/// holds `buf` is given `chunks` one after the other and takes off the complete
/// frames after each.
pub open spec fn received(buf: Seq<u8>, chunks: Seq<Seq<u8>>) -> (Seq<Seq<u8>>, Seq<u8>)
    decreases chunks.len(),
{
    if chunks.len() == 0 {
        (Seq::empty(), buf)
    } else {
        let grown = buf + chunks[0];
        let later = received(residue(grown), chunks.drop_first());
        (payloads(grown) + later.0, later.1)
    }
}

/// A complete frame at the start of a buffer is not changed by bytes that
/// arrive after it.
pub proof fn lemma_frame_stable(buf: Seq<u8>, more: Seq<u8>)
    requires
        has_frame(buf),
    ensures
        has_frame(buf + more),
        first_payload(buf + more) == first_payload(buf),
        after_first(buf + more) == after_first(buf) + more,
{
    let all = buf + more;
    assert(all[0] == buf[0] && all[1] == buf[1] && all[2] == buf[2] && all[3] == buf[3]);
    assert(first_payload(all) =~= first_payload(buf));
    assert(after_first(all) =~= after_first(buf) + more);
}

/// What is left after the complete frames holds no complete frame, and taking
/// frames off it changes nothing.
pub proof fn lemma_residue_idle(buf: Seq<u8>)
    ensures
        !has_frame(residue(buf)),
        payloads(residue(buf)) == Seq::<Seq<u8>>::empty(),
        residue(residue(buf)) == residue(buf),
    decreases buf.len(),
{
    if has_frame(buf) {
        lemma_residue_idle(after_first(buf));
    }
}

/// Taking the frames off a buffer and then giving it more bytes yields, all in
/// all, the frames of the two put together.
pub proof fn lemma_payloads_split(buf: Seq<u8>, more: Seq<u8>)
    ensures
        payloads(buf + more) == payloads(buf) + payloads(residue(buf) + more),
        residue(buf + more) == residue(residue(buf) + more),
    decreases buf.len(),
{
    if has_frame(buf) {
        lemma_frame_stable(buf, more);
        lemma_payloads_split(after_first(buf), more);
        assert(payloads(buf + more) =~= payloads(buf) + payloads(residue(buf) + more));
    } else {
        assert(payloads(buf) + payloads(buf + more) =~= payloads(buf + more));
    }
}

/// The length announced by a prefix is the length it was made for.
pub proof fn lemma_length_prefix(len: int)
    requires
        0 <= len <= 0xffff_ffff,
    ensures
        length_prefix(len).len() == 4,
        announced_length(length_prefix(len)) == len,
{
    let p = length_prefix(len);
    let d0 = len % 0x100;
    let d1 = (len / 0x100) % 0x100;
    let d2 = (len / 0x1_0000) % 0x100;
    let d3 = (len / 0x100_0000) % 0x100;
    assert(len / 0x100_0000 < 0x100);
    assert(len == d0 + d1 * 0x100 + d2 * 0x1_0000 + d3 * 0x100_0000);
    assert(p[0] == d0 as u8 && p[1] == d1 as u8 && p[2] == d2 as u8 && p[3] == d3 as u8);
}

/// Reading back what was written: the frames of a wire image are the payloads
/// it was made of, and nothing is left over.
pub proof fn lemma_wire_round_trip(messages: Seq<Seq<u8>>)
    requires
        frameable(messages),
    ensures
        payloads(wire_of(messages)) == messages,
        residue(wire_of(messages)) == Seq::<u8>::empty(),
    decreases messages.len(),
{
    if messages.len() == 0 {
        assert(payloads(wire_of(messages)) =~= messages);
    } else {
        let head = messages[0];
        let tail = messages.drop_first();
        let rest = wire_of(tail);
        let image = framed(head) + rest;
        assert(frameable(tail)) by {
            assert forall|i: int| 0 <= i < tail.len() implies (#[trigger] tail[i]).len()
                <= 0xffff_ffff by {
                assert(tail[i] == messages[i + 1]);
            }
        }
        lemma_wire_round_trip(tail);
        lemma_length_prefix(head.len() as int);
        let prefix = length_prefix(head.len() as int);
        assert(image[0] == prefix[0] && image[1] == prefix[1] && image[2] == prefix[2] && image[3]
            == prefix[3]);
        assert(announced_length(image) == head.len());
        assert(has_frame(image));
        assert(first_payload(image) =~= head);
        assert(after_first(image) =~= rest);
        assert(payloads(image) =~= messages);
    }
}

/// Framing does not depend on where the stream is cut: however a stream is
/// chopped into chunks, a receiver that takes the complete frames off after
/// each chunk hands out the frames of the whole stream, in order, and is left
/// with what the whole stream leaves over.
pub proof fn lemma_chunking_irrelevant(buf: Seq<u8>, chunks: Seq<Seq<u8>>)
    requires
        !has_frame(buf),
    ensures
        received(buf, chunks).0 == payloads(buf + joined(chunks)),
        received(buf, chunks).1 == residue(buf + joined(chunks)),
    decreases chunks.len(),
{
    if chunks.len() == 0 {
        assert(buf + joined(chunks) =~= buf);
    } else {
        let grown = buf + chunks[0];
        let tail = chunks.drop_first();
        lemma_residue_idle(grown);
        lemma_chunking_irrelevant(residue(grown), tail);
        lemma_payloads_split(grown, joined(tail));
        assert(grown + joined(tail) =~= buf + joined(chunks));
    }
}

/// A stream of `messages.len()` frames that arrives in any chunks, be it one
/// byte at a time, is handed out as exactly those payloads, in order, with
/// nothing left waiting.
pub proof fn lemma_frames_survive_chunking(messages: Seq<Seq<u8>>, chunks: Seq<Seq<u8>>)
    requires
        frameable(messages),
        joined(chunks) == wire_of(messages),
    ensures
        received(Seq::empty(), chunks).0 == messages,
        received(Seq::empty(), chunks).1 == Seq::<u8>::empty(),
{
    lemma_chunking_irrelevant(Seq::empty(), chunks);
    lemma_wire_round_trip(messages);
    assert(Seq::<u8>::empty() + joined(chunks) =~= joined(chunks));
}

/// The chunks of `bytes` taken one byte at a time.
pub open spec fn bytewise(bytes: Seq<u8>) -> Seq<Seq<u8>> {
    Seq::new(bytes.len(), |i: int| seq![bytes[i]])
}

/// Cutting a stream into single bytes loses nothing.
pub proof fn lemma_bytewise_joined(bytes: Seq<u8>)
    ensures
        joined(bytewise(bytes)) == bytes,
    decreases bytes.len(),
{
    if bytes.len() == 0 {
        assert(joined(bytewise(bytes)) =~= bytes);
    } else {
        let tail = bytes.drop_first();
        lemma_bytewise_joined(tail);
        assert(bytewise(bytes).drop_first() =~= bytewise(tail));
        assert(joined(bytewise(bytes)) =~= bytes);
    }
}

/// A stream of frames that arrives one byte at a time is handed out as
/// exactly the payloads it was made of, in order, with nothing left waiting.
pub proof fn lemma_frames_survive_bytewise_feed(messages: Seq<Seq<u8>>)
    requires
        frameable(messages),
    ensures
        received(Seq::empty(), bytewise(wire_of(messages))).0 == messages,
        received(Seq::empty(), bytewise(wire_of(messages))).1 == Seq::<u8>::empty(),
{
    lemma_bytewise_joined(wire_of(messages));
    lemma_frames_survive_chunking(messages, bytewise(wire_of(messages)));
}

/// The payload length announced at `pos`, where a complete frame starts there.
fn frame_at(buf: &Vec<u8>, pos: usize) -> (len: Option<usize>)
    requires
        pos <= buf.len(),
    ensures
        len is Some <==> has_frame(buf@.subrange(pos as int, buf.len() as int)),
        len is Some ==> len.unwrap() == announced_length(
            buf@.subrange(pos as int, buf.len() as int),
        ),
{
    let ghost rest = buf@.subrange(pos as int, buf.len() as int);
    let available: usize = buf.len() - pos;
    if available < 4 {
        return None;
    }
    assert(rest[0] == buf[pos as int] && rest[1] == buf[pos + 1] && rest[2] == buf[pos + 2]
        && rest[3] == buf[pos + 3]);
    let announced: u64 = buf[pos] as u64 + buf[pos + 1] as u64 * 0x100 + buf[pos + 2] as u64
        * 0x1_0000 + buf[pos + 3] as u64 * 0x100_0000;
    if (available - 4) as u64 >= announced {
        Some(announced as usize)
    } else {
        None
    }
}

/// Takes every complete frame off the front of `buf` and returns the payloads
/// in order; an incomplete frame stays in `buf` for the bytes to come.
pub fn take_frames(buf: &mut Vec<u8>) -> (frames: Vec<Vec<u8>>)
    ensures
        contents(frames@) == payloads(old(buf)@),
        final(buf)@ == residue(old(buf)@),
{
    let mut frames: Vec<Vec<u8>> = Vec::new();
    let mut pos: usize = 0;
    let ghost whole = buf@;
    assert(buf@.subrange(0, buf.len() as int) =~= buf@);
    assert(contents(frames@) =~= Seq::<Seq<u8>>::empty());
    loop
        invariant
            buf@ == whole,
            pos <= buf.len(),
            payloads(whole) == contents(frames@) + payloads(
                whole.subrange(pos as int, whole.len() as int),
            ),
            residue(whole) == residue(whole.subrange(pos as int, whole.len() as int)),
        ensures
            !has_frame(whole.subrange(pos as int, whole.len() as int)),
        decreases buf.len() - pos,
    {
        let ghost rest = whole.subrange(pos as int, whole.len() as int);
        match frame_at(buf, pos) {
            None => {
                break ;
            },
            Some(len) => {
                let start: usize = pos + 4;
                let end: usize = start + len;
                let mut payload: Vec<u8> = Vec::new();
                let mut i: usize = start;
                while i < end
                    invariant
                        buf@ == whole,
                        start <= i <= end <= buf.len(),
                        payload@ == whole.subrange(start as int, i as int),
                    decreases end - i,
                {
                    payload.push(buf[i]);
                    assert(payload@ =~= whole.subrange(start as int, i + 1));
                    i += 1;
                }
                assert(first_payload(rest) =~= payload@);
                assert(after_first(rest) =~= whole.subrange(end as int, whole.len() as int));
                let ghost before = contents(frames@);
                frames.push(payload);
                assert(contents(frames@) =~= before + seq![first_payload(rest)]);
                assert(payloads(whole) =~= contents(frames@) + payloads(after_first(rest)));
                pos = end;
            },
        }
    }
    let tail = buf.split_off(pos);
    *buf = tail;
    proof {
        let rest = whole.subrange(pos as int, whole.len() as int);
        assert(payloads(rest) =~= Seq::<Seq<u8>>::empty());
        assert(contents(frames@) + payloads(rest) =~= contents(frames@));
    }
    frames
}

} // verus!
