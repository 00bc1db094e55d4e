//! Structural check of a print job's byte stream, for dry runs: the stream
//! must be a sequence of well-formed control frames, raster frames and
//! data-end bytes.
use vstd::prelude::*;
use crate::frame::{
    copy_range,
    decode_frame,
    frame_checksum_ok,
    frame_of,
    frame_shape_ok,
    lemma_frame_round_trip,
    FrameError,
    ESCAPE,
    MAX_PAYLOAD,
    OPEN,
};
use crate::display::TapeDisplay;
use crate::raster::{
    epilogue,
    le32,
    prologue,
    raster,
    row_bytes,
    swath,
    swath_header,
    tcp_data_of,
    CMD_RESET,
    CMD_TAPE_LENGTH,
    DATA_END,
    SAFETY_MARGIN_PX,
};

verus! {

/// Second byte of a raster frame.
pub const RASTER: u8 = 0x2e;

/// Whether `s` starts with a raster frame's escape pair.
pub open spec fn starts_raster(s: Seq<u8>) -> bool {
    s.len() >= 2 && s[0] == ESCAPE && s[1] == RASTER
}

/// Column height given in a raster frame's header.
pub open spec fn raster_height(s: Seq<u8>) -> nat {
    s[6] as nat + 256 * s[7] as nat
}

/// Length of the item at the start of a non-empty `s`, or why it is not one.
pub open spec fn item_len(s: Seq<u8>) -> Result<nat, FrameError> {
    if s.len() >= 2 && s[0] == ESCAPE && s[1] == OPEN {
        if s.len() < 3 || s.len() < s[2] + 3 {
            Err(FrameError::MalformedFrame)
        } else {
            let f = s.take(s[2] + 3);
            if !frame_shape_ok(f) {
                Err(FrameError::MalformedFrame)
            } else if !frame_checksum_ok(f) {
                Err(FrameError::ChecksumMismatch)
            } else {
                Ok(f.len())
            }
        }
    } else if starts_raster(s) {
        if s.len() < 8 || s[2] != 0 || s[3] != 0 || s[4] != 0 || s[5] != 1 || s.len() < 8
            + row_bytes(raster_height(s)) {
            Err(FrameError::MalformedFrame)
        } else {
            Ok(8 + row_bytes(raster_height(s)))
        }
    } else if s.len() >= 1 && s[0] == DATA_END {
        Ok(1)
    } else {
        Err(FrameError::MalformedFrame)
    }
}

/// Adds `k` to a count, passing an error on.
pub open spec fn add_count(k: nat, r: Result<nat, FrameError>) -> Result<nat, FrameError> {
    match r {
        Ok(c) => Ok(c + k),
        Err(e) => Err(e),
    }
}

/// The number of raster frames in a well-formed stream, or the first fault.
pub open spec fn stream_check(s: Seq<u8>) -> Result<nat, FrameError>
    decreases s.len(),
{
    if s.len() == 0 {
        Ok(0)
    } else {
        match item_len(s) {
            Err(e) => Err(e),
            Ok(n) => if 0 < n <= s.len() {
                add_count(if starts_raster(s) { 1 } else { 0 }, stream_check(s.skip(n as int)))
            } else {
                Err(FrameError::MalformedFrame)
            },
        }
    }
}

/// Checks that `data` is a sequence of well-formed control frames, raster
/// frames and data-end bytes, and counts its raster frames.
pub fn analyze_tcp_data(data: &[u8]) -> (r: Result<usize, FrameError>)
    ensures
        r is Ok <==> stream_check(data@) is Ok,
        r matches Ok(n) ==> stream_check(data@) == Ok::<nat, FrameError>(n as nat),
        r matches Err(e) ==> stream_check(data@) == Err::<nat, FrameError>(e),
{
    let len = data.len();
    let mut i: usize = 0;
    let mut count: usize = 0;
    assert(data@.skip(0) =~= data@);
    while i < len
        invariant
            len == data@.len(),
            count <= i <= len,
            stream_check(data@) == add_count(count as nat, stream_check(data@.skip(i as int))),
        decreases len - i,
    {
        let ghost s = data@.skip(i as int);
        let n: usize;
        let raster: bool;
        if len - i >= 2 && data[i] == ESCAPE && data[i + 1] == OPEN {
            if len - i < 3 || len - i < data[i + 2] as usize + 3 {
                return Err(FrameError::MalformedFrame);
            }
            n = data[i + 2] as usize + 3;
            let f = copy_range(data, i, i + n);
            assert(f@ =~= s.take(n as int));
            match decode_frame(f.as_slice()) {
                Ok(_) => {},
                Err(e) => return Err(e),
            }
            raster = false;
        } else if len - i >= 2 && data[i] == ESCAPE && data[i + 1] == RASTER {
            if len - i < 8 || data[i + 2] != 0 || data[i + 3] != 0 || data[i + 4] != 0 || data[i + 5]
                != 1 {
                return Err(FrameError::MalformedFrame);
            }
            let height = data[i + 6] as usize + 256 * data[i + 7] as usize;
            n = 8 + (height + 7) / 8;
            if len - i < n {
                return Err(FrameError::MalformedFrame);
            }
            raster = true;
        } else if data[i] == DATA_END {
            n = 1;
            raster = false;
        } else {
            return Err(FrameError::MalformedFrame);
        }
        assert(item_len(s) == Ok::<nat, FrameError>(n as nat));
        assert(data@.skip(i as int).skip(n as int) =~= data@.skip((i + n) as int));
        if raster {
            count = count + 1;
        }
        i = i + n;
    }
    assert(data@.skip(i as int) =~= Seq::<u8>::empty());
    Ok(count)
}

proof fn lemma_item_prefix(x: Seq<u8>, rest: Seq<u8>)
    requires
        x.len() > 0,
        item_len(x) == Ok::<nat, FrameError>(x.len()),
    ensures
        stream_check(x + rest) == add_count(
            if starts_raster(x) {
                1
            } else {
                0
            },
            stream_check(rest),
        ),
{
    let s = x + rest;
    if x.len() >= 2 && x[0] == ESCAPE && x[1] == OPEN {
        assert(s.take(s[2] + 3) =~= x.take(x[2] + 3));
    }
    assert(item_len(s) == item_len(x));
    assert(s.skip(x.len() as int) =~= rest);
}

proof fn lemma_frame_item(cmd: u8, payload: Seq<u8>)
    requires
        payload.len() <= MAX_PAYLOAD,
    ensures
        frame_of(cmd, payload).len() > 0,
        item_len(frame_of(cmd, payload)) == Ok::<nat, FrameError>(frame_of(cmd, payload).len()),
        !starts_raster(frame_of(cmd, payload)),
{
    let f = frame_of(cmd, payload);
    lemma_frame_round_trip(cmd, payload);
    assert(f.take(f[2] + 3) =~= f);
}

proof fn lemma_swath_item(td: TapeDisplay, y: int)
    requires
        td.height <= 0xffff,
    ensures
        swath(td, y).len() > 0,
        item_len(swath(td, y)) == Ok::<nat, FrameError>(swath(td, y).len()),
        starts_raster(swath(td, y)),
{
    let s = swath(td, y);
    let h = td.height as nat;
    assert(s[6] == (h % 256) as u8);
    assert(s[7] == (h / 256 % 256) as u8);
    assert(raster_height(s) == h);
}

proof fn lemma_raster_items(td: TapeDisplay, n: nat, rest: Seq<u8>)
    requires
        td.height <= 0xffff,
    ensures
        stream_check(raster(td, n) + rest) == add_count(n, stream_check(rest)),
    decreases n,
{
    if n == 0 {
        assert(raster(td, n) + rest =~= rest);
        assert(add_count(0, stream_check(rest)) == stream_check(rest));
    } else {
        let last = swath(td, n - 1);
        assert(raster(td, n) + rest =~= raster(td, (n - 1) as nat) + (last + rest));
        lemma_raster_items(td, (n - 1) as nat, last + rest);
        lemma_swath_item(td, n - 1);
        lemma_item_prefix(last, rest);
    }
}

/// Chains a control frame in front of `rest`: it adds no raster frame.
proof fn lemma_frame_then(cmd: u8, payload: Seq<u8>, rest: Seq<u8>)
    requires
        payload.len() <= MAX_PAYLOAD,
    ensures
        stream_check(frame_of(cmd, payload) + rest) == stream_check(rest),
{
    lemma_frame_item(cmd, payload);
    lemma_item_prefix(frame_of(cmd, payload), rest);
    assert(add_count(0, stream_check(rest)) == stream_check(rest));
}

/// The byte stream encoded from any framebuffer passes the structural check,
/// with one raster frame for each column.
#[verifier::rlimit(50)]
pub proof fn lemma_encoded_stream_valid(td: TapeDisplay)
    requires
        td.width + SAFETY_MARGIN_PX <= u32::MAX,
        td.height <= 0xffff,
    ensures
        stream_check(tcp_data_of(td)) == Ok::<nat, FrameError>(td.width as nat),
{
    let reset = frame_of(CMD_RESET, seq![]);
    let f2 = frame_of(0x7b, seq![0, 0, 0x53, 0x54]);
    let f3 = frame_of(0x43, seq![2, 2, 1, 1]);
    let f4 = frame_of(0x44, seq![5]);
    let f5 = frame_of(0x47, seq![]);
    let f6 = frame_of(CMD_TAPE_LENGTH, le32((td.width + SAFETY_MARGIN_PX) as nat));
    let f7 = frame_of(0x54, seq![0x2a, 0]);
    let f8 = frame_of(0x48, seq![5]);
    let f9 = frame_of(0x73, seq![0]);
    let body = raster(td, td.width as nat);
    let end = seq![DATA_END];

    lemma_frame_then(CMD_RESET, seq![], Seq::<u8>::empty());
    assert(reset + Seq::<u8>::empty() =~= reset);
    assert(stream_check(Seq::<u8>::empty()) == Ok::<nat, FrameError>(0));
    let tail = end + reset;
    assert(item_len(end) == Ok::<nat, FrameError>(1));
    lemma_item_prefix(end, reset);
    assert(stream_check(tail) == Ok::<nat, FrameError>(0));
    lemma_raster_items(td, td.width as nat, tail);
    let r9 = body + tail;
    lemma_frame_then(0x73, seq![0], r9);
    let r8 = f9 + r9;
    lemma_frame_then(0x48, seq![5], r8);
    let r7 = f8 + r8;
    lemma_frame_then(0x54, seq![0x2a, 0], r7);
    let r6 = f7 + r7;
    lemma_frame_then(CMD_TAPE_LENGTH, le32((td.width + SAFETY_MARGIN_PX) as nat), r6);
    let r5 = f6 + r6;
    lemma_frame_then(0x47, seq![], r5);
    let r4 = f5 + r5;
    lemma_frame_then(0x44, seq![5], r4);
    let r3 = f4 + r4;
    lemma_frame_then(0x43, seq![2, 2, 1, 1], r3);
    let r2 = f3 + r3;
    lemma_frame_then(0x7b, seq![0, 0, 0x53, 0x54], r2);
    let r1 = f2 + r2;
    lemma_frame_then(CMD_RESET, seq![], r1);
    assert(stream_check(reset + r1) == Ok::<nat, FrameError>(td.width as nat));
    let p = prologue(td.width as nat);
    assert(p == reset + f2 + f3 + f4 + f5 + f6 + f7 + f8 + f9);
    assert(epilogue() == tail);
    assert(tcp_data_of(td) == p + body + tail);
    assert(p + body + tail =~= reset + r1);
}

} // verus!
