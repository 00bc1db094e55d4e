//! A QR-code label print job: choose the tape, render the code onto a
//! framebuffer as wide as the tape, and encode it for the printer.
use vstd::prelude::*;
use image::Luma;
use qrcode::types::QrError;
use qrcode::QrCode;
use crate::analyzer::{analyze_tcp_data, lemma_encoded_stream_valid};
use crate::display::TapeDisplay;
use crate::error::PrintError;
use crate::raster::{gen_tcp_data, tcp_data_of};
use crate::tape::{determine_tape, px_of_mm, tape_choice_of, PrinterStatus, TapeChoice};

verus! {

#[verifier::external_type_specification]
#[verifier::external_body]
pub struct ExQrError(QrError);

/// Options of a print job.
pub struct PrintArgs {
    /// A MAC address to print a label for.
    pub mac_addr: Option<String>,
    /// Text to print as a QR code.
    pub qr_text: Option<String>,
    /// Tape width in millimetres; detected from the printer when absent.
    pub width: Option<usize>,
    /// Prepare and check the job without sending it.
    pub dry_run: bool,
    /// A raw dump of a print job's byte stream.
    pub tcp_data: Option<String>,
    /// Network address of the printer.
    pub printer: Option<String>,
}

/// A greyscale image, one byte per pixel, row after row; `0` is a dark module.
pub struct QrImage {
    pub width: u32,
    pub height: u32,
    pub luma: Vec<u8>,
}

/// Whether the text can be encoded as a QR code.
pub uninterp spec fn qr_encodable(text: Seq<char>) -> bool;

/// Width, height and pixels of the QR code of the text, rendered with the
/// largest whole module size that fits a square of the given side.
pub uninterp spec fn qr_render_of(text: Seq<char>, max_side: u32) -> (u32, u32, Seq<u8>);

/// Relies on `qrcode::QrCode::new`, which encodes the text's bytes and fails
/// where it cannot, and on its renderer into an `image::ImageBuffer` of
/// `Luma<u8>` (dark modules 0, light 255) with `max_dimensions`, whose raw
/// buffer `into_raw` holds one byte per pixel.
#[verifier::external_body]
fn render_qr(text: &str, max_side: u32) -> (r: Result<QrImage, QrError>)
    ensures
        r is Ok <==> qr_encodable(text@),
        r matches Ok(img) ==> (img.width, img.height, img.luma@) == qr_render_of(text@, max_side)
            && img.luma@.len() == img.width * img.height,
{
    let code = QrCode::new(text)?;
    let image = code.render::<Luma<u8>>().max_dimensions(max_side, max_side).build();
    Ok(QrImage { width: image.width(), height: image.height(), luma: image.into_raw() })
}

/// The pixel at column `x`, row `y` of an image `w` pixels wide: set iff dark.
pub open spec fn luma_pixel(w: int, h: int, luma: Seq<u8>, x: int, y: int) -> bool {
    0 <= x < w && 0 <= y < h && luma[y * w + x] == 0
}

/// The pixel at column `x`, row `y` of a `side` by `side` label with the
/// image centred on it.
pub open spec fn label_pixel(side: int, w: int, h: int, luma: Seq<u8>, x: int, y: int) -> bool {
    let ox = (side - w) / 2;
    let oy = (side - h) / 2;
    0 <= x < side && 0 <= y < side && x >= ox && y >= oy && luma_pixel(w, h, luma, x - ox, y - oy)
}

/// A framebuffer of the image, a pixel set where the image is dark.
pub fn luma_display(img: &QrImage) -> (r: TapeDisplay)
    requires
        img.luma@.len() == img.width * img.height,
    ensures
        r.wf(),
        r.width == img.width,
        r.height == img.height,
        forall|x: int, y: int|
            #[trigger] r.pixel(x, y) == luma_pixel(
                img.width as int,
                img.height as int,
                img.luma@,
                x,
                y,
            ),
{
    let w = img.width as usize;
    let h = img.height as usize;
    let total = img.luma.len();
    let mut framebuffer: Vec<Vec<bool>> = Vec::new();
    let mut y: usize = 0;
    while y < h
        invariant
            w == img.width,
            h == img.height,
            img.luma@.len() == w * h,
            total == w * h,
            y <= h,
            framebuffer@.len() == y,
            forall|j: int| 0 <= j < y ==> #[trigger] framebuffer@[j]@.len() == w,
            forall|j: int, i: int|
                0 <= j < y && 0 <= i < w ==> #[trigger] framebuffer@[j]@[i] == (img.luma@[j * w + i]
                    == 0),
        decreases h - y,
    {
        let mut row: Vec<bool> = Vec::new();
        let mut x: usize = 0;
        while x < w
            invariant
                w == img.width,
                h == img.height,
                img.luma@.len() == w * h,
                total == w * h,
                y < h,
                x <= w,
                row@.len() == x,
                forall|i: int| 0 <= i < x ==> #[trigger] row@[i] == (img.luma@[y * w + i] == 0),
            decreases w - x,
        {
            assert(y * w <= y * w + x < w * h) by (nonlinear_arith)
                requires
                    y < h,
                    x < w,
            ;
            row.push(img.luma[y * w + x] == 0);
            x = x + 1;
        }
        framebuffer.push(row);
        y = y + 1;
    }
    TapeDisplay { width: w, height: h, framebuffer }
}

/// A `side` by `side` framebuffer with the image centred on it, or
/// `QrTooLarge` where the image does not fit.
pub fn qr_display(side: usize, img: &QrImage) -> (r: Result<TapeDisplay, PrintError>)
    requires
        img.luma@.len() == img.width * img.height,
    ensures
        r is Err <==> img.width > side || img.height > side,
        r matches Err(e) ==> e == PrintError::QrTooLarge,
        r matches Ok(td) ==> td.wf() && td.width == side && td.height == side && forall|x: int, y: int|
            #[trigger] td.pixel(x, y) == label_pixel(
                side as int,
                img.width as int,
                img.height as int,
                img.luma@,
                x,
                y,
            ),
{
    if img.width as usize > side || img.height as usize > side {
        return Err(PrintError::QrTooLarge);
    }
    let image = luma_display(img);
    let mut td = TapeDisplay::new(side, side);
    td.overlay_or(&image, (side - image.width) / 2, (side - image.height) / 2);
    Ok(td)
}

/// What a print job sends: the tape chosen, the QR image, the label and its
/// encoded byte stream, and the printer to send it to (none on a dry run).
pub struct PrintJob {
    pub tape: TapeChoice,
    pub qr: QrImage,
    pub label: TapeDisplay,
    pub tcp_data: Vec<u8>,
    pub printer: Option<String>,
}

/// Prepares a QR-code print job from its options and, where a printer was
/// asked, its status report: the tape is chosen, the code is rendered as large
/// as the tape allows and centred on a square label, and the label is encoded.
/// On a dry run the encoded stream is also put through the structural check.
pub fn do_print(args: &PrintArgs, status: Option<PrinterStatus>) -> (r: Result<PrintJob, PrintError>)
    ensures
        args.qr_text is None ==> r == Err::<PrintJob, PrintError>(PrintError::MissingQrText),
        args.qr_text matches Some(text) ==> match tape_choice_of(args.width, status) {
            Err(e) => r == Err::<PrintJob, PrintError>(e),
            Ok(c) => {
                let side = px_of_mm(c.tape.mm());
                let (w, h, luma) = qr_render_of(text@, side as u32);
                if !qr_encodable(text@) {
                    r == Err::<PrintJob, PrintError>(PrintError::QrEncoding)
                } else if w > side || h > side {
                    r == Err::<PrintJob, PrintError>(PrintError::QrTooLarge)
                } else if !args.dry_run && args.printer is None {
                    r == Err::<PrintJob, PrintError>(PrintError::MissingConfiguration)
                } else {
                    r matches Ok(job) && job.tape == c && job.qr.width == w && job.qr.height == h
                        && job.qr.luma@ == luma && job.label.wf() && job.label.width == side
                        && job.label.height == side && (forall|x: int, y: int|
                        #[trigger] job.label.pixel(x, y) == label_pixel(
                            side as int,
                            w as int,
                            h as int,
                            luma,
                            x,
                            y,
                        )) && job.tcp_data@ == tcp_data_of(job.label) && job.printer == if args.dry_run {
                        None::<String>
                    } else {
                        args.printer
                    }
                }
            },
        },
{
    let text = match &args.qr_text {
        Some(t) => t,
        None => return Err(PrintError::MissingQrText),
    };
    let tape = determine_tape(args.width, status)?;
    let px = tape.tape.width_px();
    let qr = match render_qr(text.as_str(), px) {
        Ok(img) => img,
        Err(_) => return Err(PrintError::QrEncoding),
    };
    let qr_td = qr_display(px as usize, &qr)?;
    let mut label = TapeDisplay::new(qr_td.width, px as usize);
    label.overlay_or(&qr_td, 0, (label.height - qr_td.height) / 2);
    assert forall|x: int, y: int| #[trigger] label.pixel(x, y) == qr_td.pixel(x, y) by {}
    let printer = if args.dry_run {
        None
    } else {
        match &args.printer {
            Some(p) => Some(p.clone()),
            None => return Err(PrintError::MissingConfiguration),
        }
    };
    let tcp_data = gen_tcp_data(&label);
    if args.dry_run {
        proof {
            lemma_encoded_stream_valid(label);
        }
        if let Err(e) = analyze_tcp_data(tcp_data.as_slice()) {
            return Err(PrintError::from_frame_error(e));
        }
    }
    Ok(PrintJob { tape, qr, label, tcp_data, printer })
}

} // verus!
