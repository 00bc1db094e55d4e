//! Control frames: `[ESC, OPEN, len] ++ [cmd] ++ payload ++ [checksum, TERM]`.
use vstd::prelude::*;

verus! {

/// First byte of every frame.
pub const ESCAPE: u8 = 0x1b;

/// Second byte of a control frame.
pub const OPEN: u8 = 0x7b;

/// Last byte of a control frame.
pub const TERMINATOR: u8 = 0x7d;

/// Largest payload that still lets the length byte count the frame's tail.
pub const MAX_PAYLOAD: usize = 252;

/// Why a control frame could not be produced or read back.
#[derive(Debug, Clone, Copy, PartialEq, Eq, Structural)]
pub enum FrameError {
    /// The tail of the frame would not fit in the one-byte length field.
    FrameTooLarge,
    /// The checksum byte disagrees with the sum of command and payload.
    ChecksumMismatch,
    /// Escape, open, length or terminator byte is not where it belongs.
    MalformedFrame,
}

/// Sum of all bytes, as an unbounded integer.
pub open spec fn byte_sum(s: Seq<u8>) -> nat
    decreases s.len(),
{
    if s.len() == 0 {
        0
    } else {
        byte_sum(s.drop_last()) + s.last() as nat
    }
}

/// The 8-bit wraparound sum of all bytes.
pub open spec fn checksum_of(s: Seq<u8>) -> u8 {
    (byte_sum(s) % 256) as u8
}

/// The body of a frame: command byte followed by the payload.
pub open spec fn body_of(cmd: u8, payload: Seq<u8>) -> Seq<u8> {
    seq![cmd] + payload
}

/// The complete control frame for a command and its payload.
pub open spec fn frame_of(cmd: u8, payload: Seq<u8>) -> Seq<u8> {
    let body = body_of(cmd, payload);
    seq![ESCAPE, OPEN, (body.len() + 2) as u8] + body + seq![checksum_of(body), TERMINATOR]
}

/// Escape, open, length and terminator bytes are in place.
pub open spec fn frame_shape_ok(f: Seq<u8>) -> bool {
    &&& f.len() >= 6
    &&& f[0] == ESCAPE
    &&& f[1] == OPEN
    &&& f[2] as int == f.len() - 3
    &&& f[f.len() - 1] == TERMINATOR
}

/// Command byte of a well-shaped frame.
pub open spec fn frame_command(f: Seq<u8>) -> u8 {
    f[3]
}

/// Payload of a well-shaped frame.
pub open spec fn frame_payload(f: Seq<u8>) -> Seq<u8> {
    f.subrange(4, f.len() - 2)
}

/// The checksum byte of a well-shaped frame matches its body.
pub open spec fn frame_checksum_ok(f: Seq<u8>) -> bool {
    f[f.len() - 2] == checksum_of(f.subrange(3, f.len() - 2))
}

/// Computes the 8-bit wraparound sum of `bytes`.
pub fn checksum(bytes: &[u8]) -> (r: u8)
    ensures
        r == checksum_of(bytes@),
{
    let mut acc: u8 = 0;
    let mut i: usize = 0;
    while i < bytes.len()
        invariant
            i <= bytes.len(),
            acc as nat == byte_sum(bytes@.take(i as int)) % 256,
        decreases bytes.len() - i,
    {
        proof {
            assert(bytes@.take(i as int + 1).drop_last() =~= bytes@.take(i as int));
        }
        acc = acc.wrapping_add(bytes[i]);
        i = i + 1;
    }
    assert(bytes@.take(i as int) =~= bytes@);
    acc
}

/// Wraps a command byte and its payload into a control frame.
pub fn encode_frame(cmd: u8, payload: &[u8]) -> (r: Result<Vec<u8>, FrameError>)
    ensures
        payload@.len() <= MAX_PAYLOAD <==> r is Ok,
        r matches Ok(f) ==> f@ == frame_of(cmd, payload@),
        r matches Err(e) ==> e == FrameError::FrameTooLarge,
{
    if payload.len() > MAX_PAYLOAD {
        return Err(FrameError::FrameTooLarge);
    }
    let mut body: Vec<u8> = Vec::new();
    body.push(cmd);
    body.extend_from_slice(payload);
    assert(body@ =~= body_of(cmd, payload@));
    let sum = checksum(body.as_slice());
    let mut f: Vec<u8> = Vec::new();
    f.push(ESCAPE);
    f.push(OPEN);
    f.push((body.len() + 2) as u8);
    f.append(&mut body);
    f.push(sum);
    f.push(TERMINATOR);
    assert(f@ =~= frame_of(cmd, payload@));
    Ok(f)
}

/// Reads a control frame back into its command byte and payload.
pub fn decode_frame(f: &[u8]) -> (r: Result<(u8, Vec<u8>), FrameError>)
    ensures
        !frame_shape_ok(f@) ==> r == Err::<(u8, Vec<u8>), FrameError>(FrameError::MalformedFrame),
        frame_shape_ok(f@) && !frame_checksum_ok(f@) ==> r == Err::<(u8, Vec<u8>), FrameError>(
            FrameError::ChecksumMismatch,
        ),
        frame_shape_ok(f@) && frame_checksum_ok(f@) ==> r is Ok,
        r matches Ok((c, p)) ==> c == frame_command(f@) && p@ == frame_payload(f@),
{
    let n = f.len();
    if n < 6 || f[0] != ESCAPE || f[1] != OPEN || f[2] as usize != n - 3 || f[n - 1] != TERMINATOR {
        return Err(FrameError::MalformedFrame);
    }
    let body = copy_range(f, 3, n - 2);
    if checksum(body.as_slice()) != f[n - 2] {
        return Err(FrameError::ChecksumMismatch);
    }
    let payload = copy_range(f, 4, n - 2);
    Ok((f[3], payload))
}

/// Copies the bytes of `s` from `lo` up to, not including, `hi`.
pub fn copy_range(s: &[u8], lo: usize, hi: usize) -> (r: Vec<u8>)
    requires
        lo <= hi <= s@.len(),
    ensures
        r@ == s@.subrange(lo as int, hi as int),
{
    let mut r: Vec<u8> = Vec::new();
    let mut i: usize = lo;
    while i < hi
        invariant
            lo <= i <= hi <= s@.len(),
            r@ == s@.subrange(lo as int, i as int),
        decreases hi - i,
    {
        r.push(s[i]);
        i = i + 1;
        assert(r@ =~= s@.subrange(lo as int, i as int));
    }
    r
}

/// Decoding the frame built from a command and a payload gives back that
/// command and payload, and its checksum byte is the wraparound sum of the body.
pub proof fn lemma_frame_round_trip(cmd: u8, payload: Seq<u8>)
    requires
        payload.len() <= MAX_PAYLOAD,
    ensures
        frame_shape_ok(frame_of(cmd, payload)),
        frame_checksum_ok(frame_of(cmd, payload)),
        frame_command(frame_of(cmd, payload)) == cmd,
        frame_payload(frame_of(cmd, payload)) == payload,
        frame_of(cmd, payload)[frame_of(cmd, payload).len() - 2] == checksum_of(seq![cmd] + payload),
{
    let f = frame_of(cmd, payload);
    assert(f.subrange(3, f.len() - 2) =~= body_of(cmd, payload));
    assert(frame_payload(f) =~= payload);
}

/// A frame that passes every check is exactly the frame of its command and payload.
pub proof fn lemma_valid_frame_is_encoded(f: Seq<u8>)
    requires
        frame_shape_ok(f),
        frame_checksum_ok(f),
    ensures
        f == frame_of(frame_command(f), frame_payload(f)),
{
    assert(f.subrange(3, f.len() - 2) =~= body_of(frame_command(f), frame_payload(f)));
    assert(f =~= frame_of(frame_command(f), frame_payload(f)));
}

/// The length byte of an encoded frame counts command, payload, checksum and
/// terminator.
pub proof fn lemma_length_byte(cmd: u8, payload: Seq<u8>)
    requires
        payload.len() + 3 <= 255,
    ensures
        frame_of(cmd, payload)[2] as int == (seq![cmd] + payload).len() + 2,
{
}

} // verus!
