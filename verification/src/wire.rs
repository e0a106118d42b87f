//! Framing on the socket: four bytes of length, most significant first, then
//! that many bytes.

use vstd::prelude::*;

verus! {

/// The number that four bytes spell, most significant first.
pub open spec fn length_of(b: Seq<u8>) -> int
    recommends
        b.len() == 4,
{
    b[0] * 0x100_0000 + b[1] * 0x1_0000 + b[2] * 0x100 + b[3]
}

/// `bytes` is the frame around `payload`.
pub open spec fn framed(payload: Seq<u8>, bytes: Seq<u8>) -> bool {
    &&& bytes.len() == payload.len() + 4
    &&& length_of(bytes.take(4)) == payload.len()
    &&& bytes.skip(4) == payload
}

/// Which way a frame goes.
#[derive(Debug, Clone, Copy, PartialEq, Eq, Structural)]
pub enum Side {
    Client,
    Daemon,
}

/// What is said of a payload that no length can tell.
pub open spec fn too_large(side: Side) -> Seq<char> {
    match side {
        Side::Client => "command too large"@,
        Side::Daemon => "response too large"@,
    }
}

/// Writes a length as four bytes, most significant first.
pub fn length_bytes(n: u32) -> (r: [u8; 4])
    ensures
        length_of(r@) == n,
{
    let b: [u8; 4] = [
        (n / 0x100_0000) as u8,
        ((n / 0x1_0000) % 0x100) as u8,
        ((n / 0x100) % 0x100) as u8,
        (n % 0x100) as u8,
    ];
    b
}

/// Reads a length from four bytes.
pub fn payload_length(b: [u8; 4]) -> (r: u32)
    ensures
        r == length_of(b@),
{
    (b[0] as u32) * 0x100_0000 + (b[1] as u32) * 0x1_0000 + (b[2] as u32) * 0x100 + (b[3] as u32)
}

/// Frames a payload. It is refused where its length takes more than four
/// bytes.
pub fn encode_frame(payload: &Vec<u8>, side: Side) -> (r: Result<Vec<u8>, String>)
    ensures
        enframed(payload@, side, r),
{
    if payload.len() > u32::MAX as usize {
        return Err(
            match side {
                Side::Client => "command too large".to_owned(),
                Side::Daemon => "response too large".to_owned(),
            },
        );
    }
    let head: [u8; 4] = length_bytes(payload.len() as u32);
    let mut out: Vec<u8> = Vec::new();
    out.push(head[0]);
    out.push(head[1]);
    out.push(head[2]);
    out.push(head[3]);
    let mut i: usize = 0;
    while i < payload.len()
        invariant
            i <= payload.len(),
            out@ == head@ + payload@.take(i as int),
        decreases payload.len() - i,
    {
        out.push(payload[i]);
        assert(out@ =~= head@ + payload@.take(i + 1));
        i = i + 1;
    }
    assert(out@.take(4) =~= head@);
    assert(out@.skip(4) =~= payload@);
    Ok(out)
}

/// The payload of the frame that some bytes start with, `None` where they hold
/// no whole frame.
pub fn decode_frame(bytes: &Vec<u8>) -> (r: Option<Vec<u8>>)
    ensures
        unframed(bytes@, r),
{
    if bytes.len() < 4 {
        return None;
    }
    let head: [u8; 4] = [bytes[0], bytes[1], bytes[2], bytes[3]];
    assert(head@ =~= bytes@.take(4));
    let n: usize = payload_length(head) as usize;
    if bytes.len() - 4 < n {
        return None;
    }
    let mut out: Vec<u8> = Vec::new();
    let mut i: usize = 0;
    while i < n
        invariant
            i <= n,
            4 + n <= bytes.len(),
            out@ == bytes@.subrange(4, 4 + i),
        decreases n - i,
    {
        out.push(bytes[4 + i]);
        assert(out@ =~= bytes@.subrange(4, 4 + i + 1));
        i = i + 1;
    }
    Some(out)
}

/// A frame is read back as the payload that it was made of, whatever follows
/// it.
pub proof fn law_frame_round_trip(payload: Seq<u8>, bytes: Seq<u8>, rest: Seq<u8>)
    requires
        framed(payload, bytes),
    ensures
        ({
            let stream = bytes + rest;
            &&& stream.len() >= 4 + length_of(stream.take(4))
            &&& stream.subrange(4, 4 + length_of(stream.take(4))) == payload
        }),
{
    let stream = bytes + rest;
    assert(stream.take(4) =~= bytes.take(4));
    assert(stream.subrange(4, 4 + payload.len() as int) =~= bytes.skip(4));
}

/// `r` is the payload of the frame that some bytes begin with.
pub open spec fn unframed(bytes: Seq<u8>, r: Option<Vec<u8>>) -> bool {
    match r {
        Some(payload) => {
            &&& bytes.len() >= 4
            &&& payload@.len() == length_of(bytes.take(4))
            &&& bytes.len() >= 4 + payload@.len()
            &&& payload@ == bytes.subrange(4, 4 + payload@.len() as int)
        },
        None => bytes.len() < 4 || bytes.len() < 4 + length_of(bytes.take(4)),
    }
}

/// `r` is the frame around a payload, if its length can be told.
pub open spec fn enframed(payload: Seq<u8>, side: Side, r: Result<Vec<u8>, String>) -> bool {
    match r {
        Ok(bytes) => payload.len() <= u32::MAX && framed(payload, bytes@),
        Err(e) => payload.len() > u32::MAX && e@ == too_large(side),
    }
}

/// What was put into a frame comes out of it, whatever follows. As long as a
/// part of the frame is missing, nothing comes out.
pub proof fn law_frames_carry_their_payload(
    payload: Seq<u8>,
    side: Side,
    frame: Result<Vec<u8>, String>,
    rest: Seq<u8>,
    part: int,
    whole: Option<Vec<u8>>,
    early: Option<Vec<u8>>,
)
    requires
        payload.len() <= u32::MAX,
        enframed(payload, side, frame),
        frame is Ok ==> unframed(frame->Ok_0@ + rest, whole),
        frame is Ok ==> 0 <= part < frame->Ok_0@.len() && unframed(frame->Ok_0@.take(part), early),
    ensures
        frame is Ok,
        whole is Some && whole->0@ == payload,
        early is None,
{
    let f = frame->Ok_0@;
    let all = f + rest;
    assert(all.take(4) =~= f.take(4));
    assert(all.subrange(4, 4 + payload.len() as int) =~= f.skip(4));
    let head = f.take(part);
    if part >= 4 {
        assert(head.take(4) =~= f.take(4));
    }
}

/// Of two lengths, the one whose first differing byte is greater is greater: the
/// first byte counts most.
pub proof fn law_first_byte_counts_most(b: Seq<u8>, c: Seq<u8>, i: int)
    requires
        b.len() == 4 && c.len() == 4,
        0 <= i < 4,
        forall|j: int| 0 <= j < i ==> b[j] == #[trigger] c[j],
        b[i] < c[i],
    ensures
        length_of(b) < length_of(c),
{
    assert(i > 0 ==> b[0] == c[0]);
    assert(i > 1 ==> b[1] == c[1]);
    assert(i > 2 ==> b[2] == c[2]);
}

}
