//! The byte stream of a print job: set-up control frames, one raster frame per
//! column of the framebuffer (last column first), the data-end mark and a
//! closing reset.
use vstd::prelude::*;
use crate::display::TapeDisplay;
use crate::frame::{encode_frame, frame_of, MAX_PAYLOAD};

verus! {

/// Pixels added to the image width in the tape-length command.
pub const SAFETY_MARGIN_PX: u32 = 4;

/// Byte that ends the raster data.
pub const DATA_END: u8 = 0x0c;

/// Command that resets the printer.
pub const CMD_RESET: u8 = 0x40;

/// Command that announces the length of the image, in pixels.
pub const CMD_TAPE_LENGTH: u8 = 0x4c;

/// The four little-endian bytes of `v`.
pub open spec fn le32(v: nat) -> Seq<u8> {
    seq![(v % 256) as u8, (v / 256 % 256) as u8, (v / 65536 % 256) as u8, (v / 16777216 % 256) as u8]
}

/// The two little-endian bytes of `v`.
pub open spec fn le16(v: nat) -> Seq<u8> {
    seq![(v % 256) as u8, (v / 256 % 256) as u8]
}

/// The control frames sent before the raster data of an image `width` pixels long.
pub open spec fn prologue(width: nat) -> Seq<u8> {
    frame_of(CMD_RESET, seq![]) + frame_of(0x7b, seq![0, 0, 0x53, 0x54]) + frame_of(
        0x43,
        seq![2, 2, 1, 1],
    ) + frame_of(0x44, seq![5]) + frame_of(0x47, seq![]) + frame_of(
        CMD_TAPE_LENGTH,
        le32(width + SAFETY_MARGIN_PX as nat),
    ) + frame_of(0x54, seq![0x2a, 0]) + frame_of(0x48, seq![5]) + frame_of(0x73, seq![0])
}

/// What is sent after the raster data.
pub open spec fn epilogue() -> Seq<u8> {
    seq![DATA_END] + frame_of(CMD_RESET, seq![])
}

/// Bytes that hold one column of `height` pixels.
pub open spec fn row_bytes(height: nat) -> nat {
    (height + 7) / 8
}

/// The fixed start of a raster frame for a column of `height` pixels.
pub open spec fn swath_header(height: nat) -> Seq<u8> {
    seq![0x1b, 0x2e, 0, 0, 0, 1] + le16(height)
}

/// Byte `xb` of column `col`, with bits `0..n` filled: bit `dx` is set iff the
/// pixel at row `xb * 8 + 7 - dx` is set.
pub open spec fn pack_bits(td: TapeDisplay, col: int, xb: int, n: nat) -> u8
    decreases n,
{
    if n == 0 {
        0
    } else {
        let prev = pack_bits(td, col, xb, (n - 1) as nat);
        if td.pixel(col, xb * 8 + 7 - (n - 1)) {
            prev | (1u8 << ((n - 1) as u8))
        } else {
            prev
        }
    }
}

/// Byte `xb` of column `col`: eight pixels, the topmost in the highest bit.
pub open spec fn column_byte(td: TapeDisplay, col: int, xb: int) -> u8 {
    pack_bits(td, col, xb, 8)
}

/// Raster frame number `y`, which carries column `width - 1 - y`.
pub open spec fn swath(td: TapeDisplay, y: int) -> Seq<u8> {
    swath_header(td.height as nat) + Seq::new(
        row_bytes(td.height as nat),
        |xb: int| column_byte(td, td.width - 1 - y, xb),
    )
}

/// The first `n` raster frames.
pub open spec fn raster(td: TapeDisplay, n: nat) -> Seq<u8>
    decreases n,
{
    if n == 0 {
        seq![]
    } else {
        raster(td, (n - 1) as nat) + swath(td, n - 1)
    }
}

/// The whole byte stream for a framebuffer.
pub open spec fn tcp_data_of(td: TapeDisplay) -> Seq<u8> {
    prologue(td.width as nat) + raster(td, td.width as nat) + epilogue()
}

/// Appends the control frame of `cmd` and `payload` to `out`.
fn push_frame(out: &mut Vec<u8>, cmd: u8, payload: &[u8])
    requires
        payload@.len() <= MAX_PAYLOAD,
    ensures
        final(out)@ == old(out)@ + frame_of(cmd, payload@),
{
    match encode_frame(cmd, payload) {
        Ok(mut f) => out.append(&mut f),
        Err(_) => {},
    }
}

/// Packs byte `xb` of column `col`.
fn pack_column_byte(td: &TapeDisplay, col: usize, xb: usize) -> (r: u8)
    requires
        td.wf(),
        td.height <= 0xffff,
        xb < row_bytes(td.height as nat),
    ensures
        r == column_byte(*td, col as int, xb as int),
{
    assert(xb * 8 + 7 < 0x10000 + 14) by (nonlinear_arith)
        requires
            xb < (td.height + 7) / 8,
            td.height <= 0xffff,
    ;
    let mut chunk: u8 = 0;
    let mut dx: u8 = 0;
    while dx < 8
        invariant
            dx <= 8,
            xb * 8 + 7 < 0x10000 + 14,
            td.wf(),
            chunk == pack_bits(*td, col as int, xb as int, dx as nat),
        decreases 8 - dx,
    {
        let x = xb * 8 + (7 - dx as usize);
        if td.get_pixel(col, x) {
            chunk = chunk | (1u8 << dx);
        }
        dx = dx + 1;
    }
    chunk
}

/// Encodes a framebuffer into the byte stream that the printer takes: the
/// set-up frames, one raster frame per column from the last to the first, the
/// data-end byte and a reset.
pub fn gen_tcp_data(td: &TapeDisplay) -> (r: Vec<u8>)
    requires
        td.wf(),
        td.width + SAFETY_MARGIN_PX <= u32::MAX,
        td.height <= 0xffff,
    ensures
        r@ == tcp_data_of(*td),
{
    let mut out: Vec<u8> = Vec::new();
    let empty: Vec<u8> = Vec::new();
    let mode: Vec<u8> = vec![0u8, 0, 0x53, 0x54];
    let cut: Vec<u8> = vec![2u8, 2, 1, 1];
    let five: Vec<u8> = vec![5u8];
    let margin: Vec<u8> = vec![0x2au8, 0];
    let zero: Vec<u8> = vec![0u8];
    let len = td.width as u32 + SAFETY_MARGIN_PX;
    let len_bytes: Vec<u8> = vec![
        (len % 256) as u8,
        (len / 256 % 256) as u8,
        (len / 65536 % 256) as u8,
        (len / 16777216 % 256) as u8,
    ];
    assert(empty@ =~= seq![]);
    assert(mode@ =~= seq![0u8, 0, 0x53, 0x54]);
    assert(cut@ =~= seq![2u8, 2, 1, 1]);
    assert(five@ =~= seq![5u8]);
    assert(margin@ =~= seq![0x2au8, 0]);
    assert(zero@ =~= seq![0u8]);
    assert(len_bytes@ =~= le32((td.width + SAFETY_MARGIN_PX) as nat));
    push_frame(&mut out, CMD_RESET, empty.as_slice());
    push_frame(&mut out, 0x7b, mode.as_slice());
    push_frame(&mut out, 0x43, cut.as_slice());
    push_frame(&mut out, 0x44, five.as_slice());
    push_frame(&mut out, 0x47, empty.as_slice());
    push_frame(&mut out, CMD_TAPE_LENGTH, len_bytes.as_slice());
    push_frame(&mut out, 0x54, margin.as_slice());
    push_frame(&mut out, 0x48, five.as_slice());
    push_frame(&mut out, 0x73, zero.as_slice());
    assert(out@ =~= prologue(td.width as nat));
    let ghost start = out@;

    let height = td.height;
    let row_count = (height + 7) / 8;
    let mut y: usize = 0;
    while y < td.width
        invariant
            td.wf(),
            td.height == height <= 0xffff,
            row_count == row_bytes(height as nat),
            y <= td.width,
            out@ == start + raster(*td, y as nat),
        decreases td.width - y,
    {
        let ghost base = out@;
        out.push(0x1b);
        out.push(0x2e);
        out.push(0);
        out.push(0);
        out.push(0);
        out.push(1);
        out.push((height % 256) as u8);
        out.push((height / 256 % 256) as u8);
        assert(out@ =~= base + swath_header(height as nat));
        let col = td.width - 1 - y;
        let mut xb: usize = 0;
        while xb < row_count
            invariant
                td.wf(),
                td.height == height <= 0xffff,
                row_count == row_bytes(height as nat),
                y < td.width,
                col == td.width - 1 - y,
                xb <= row_count,
                out@ == base + swath_header(height as nat) + Seq::new(
                    xb as nat,
                    |k: int| column_byte(*td, col as int, k),
                ),
            decreases row_count - xb,
        {
            let b = pack_column_byte(td, col, xb);
            out.push(b);
            xb = xb + 1;
            assert(out@ =~= base + swath_header(height as nat) + Seq::new(
                xb as nat,
                |k: int| column_byte(*td, col as int, k),
            ));
        }
        assert(out@ =~= base + swath(*td, y as int));
        y = y + 1;
        assert(out@ =~= start + raster(*td, y as nat));
    }
    out.push(DATA_END);
    push_frame(&mut out, CMD_RESET, empty.as_slice());
    assert(out@ =~= tcp_data_of(*td));
    out
}

/// The pixel at column `col`, row `row` as read back from the raster frames
/// of a `width` by `height` image that start at index `start` of `data`.
pub open spec fn raster_pixel(data: Seq<u8>, start: int, width: int, height: int, col: int, row: int) -> bool {
    let stride = 8 + row_bytes(height as nat);
    let b = data[start + (width - 1 - col) * stride + 8 + row / 8];
    (b >> ((7 - row % 8) as u8)) & 1 == 1
}

proof fn lemma_bit_or(p: u8, k: u8, j: u8)
    requires
        k < 8,
        j < 8,
    ensures
        ((p | (1u8 << k)) >> j) & 1 == 1 <==> ((p >> j) & 1 == 1 || j == k),
        (0u8 >> j) & 1 == 0,
{
    assert(((p | (1u8 << k)) >> j) & 1 == 1 <==> ((p >> j) & 1 == 1 || j == k)) by (bit_vector)
        requires
            k < 8,
            j < 8,
    ;
    assert((0u8 >> j) & 1 == 0) by (bit_vector);
}

proof fn lemma_pack_bits(td: TapeDisplay, col: int, xb: int, n: nat, j: u8)
    requires
        n <= 8,
        j < 8,
    ensures
        (pack_bits(td, col, xb, n) >> j) & 1 == 1 <==> (j < n && td.pixel(col, xb * 8 + 7 - j)),
    decreases n,
{
    if n == 0 {
        lemma_bit_or(0, 0, j);
    } else {
        lemma_pack_bits(td, col, xb, (n - 1) as nat, j);
        lemma_bit_or(pack_bits(td, col, xb, (n - 1) as nat), (n - 1) as u8, j);
    }
}

proof fn lemma_raster_index(td: TapeDisplay, n: nat)
    ensures
        raster(td, n).len() == n * (8 + row_bytes(td.height as nat)),
        forall|y: int, k: int|
            0 <= y < n && 0 <= k < 8 + row_bytes(td.height as nat) ==> raster(td, n)[y * (8
                + row_bytes(td.height as nat)) + k] == #[trigger] swath(td, y)[k],
    decreases n,
{
    let stride = 8 + row_bytes(td.height as nat);
    if n > 0 {
        lemma_raster_index(td, (n - 1) as nat);
        assert(n * stride == (n - 1) * stride + stride) by (nonlinear_arith);
        assert forall|y: int, k: int| 0 <= y < n && 0 <= k < stride implies raster(td, n)[y
            * stride + k] == #[trigger] swath(td, y)[k] by {
            if y < n - 1 {
                assert(y * stride + k < (n - 1) * stride) by (nonlinear_arith)
                    requires
                        0 <= y < n - 1,
                        0 <= k < stride,
                ;
            } else {
                assert(y * stride == (n - 1) * stride);
            }
        }
    }
}

/// Reading the raster frames of the byte stream back into a grid gives the
/// framebuffer's pixels, and the padding bits past its last row read as unset.
pub proof fn lemma_raster_round_trip(td: TapeDisplay)
    requires
        td.wf(),
    ensures
        forall|col: int, row: int|
            0 <= col < td.width && 0 <= row < 8 * row_bytes(td.height as nat) ==> #[trigger] raster_pixel(
                tcp_data_of(td),
                prologue(td.width as nat).len() as int,
                td.width as int,
                td.height as int,
                col,
                row,
            ) == td.pixel(col, row),
        forall|col: int, row: int|
            0 <= col < td.width && td.height <= row ==> !td.pixel(col, row),
{
    let stride = 8 + row_bytes(td.height as nat);
    let w = td.width as nat;
    lemma_raster_index(td, w);
    assert forall|col: int, row: int|
        0 <= col < td.width && 0 <= row < 8 * row_bytes(td.height as nat) implies #[trigger] raster_pixel(
        tcp_data_of(td),
        prologue(td.width as nat).len() as int,
        td.width as int,
        td.height as int,
        col,
        row,
    ) == td.pixel(col, row) by {
        let y = w - 1 - col;
        let xb = row / 8;
        let k = 8 + xb;
        assert(0 <= xb < row_bytes(td.height as nat));
        assert(y * stride + k < w * stride) by (nonlinear_arith)
            requires
                0 <= y < w,
                0 <= k < stride,
        ;
        assert(0 <= y * stride + k) by (nonlinear_arith)
            requires
                0 <= y,
                0 <= k,
        ;
        let data = tcp_data_of(td);
        let p = prologue(w).len() as int;
        assert(data[p + y * stride + k] == raster(td, w)[y * stride + k]);
        assert(swath(td, y)[k] == column_byte(td, col, xb));
        let j = (7 - row % 8) as u8;
        lemma_pack_bits(td, col, xb, 8, j);
        assert(xb * 8 + 7 - j == row);
    }
}

} // verus!
