use ptouch_print::analyzer::analyze_tcp_data;
use ptouch_print::display::TapeDisplay;
use ptouch_print::error::PrintError;
use ptouch_print::frame::{checksum, decode_frame, encode_frame, FrameError};
use ptouch_print::print::{do_print, PrintArgs};
use ptouch_print::raster::gen_tcp_data;
use ptouch_print::session::{Command, Phase, Reply, Session, Step, SETTLE_DELAY_MS};
use ptouch_print::tape::{determine_tape, PrinterStatus, Tape, TapeChoice};

const PROLOGUE_LEN: usize = 71;

fn pattern(x: usize, y: usize) -> bool {
    (x * 7 + y * 3) % 4 == 0
}

fn patterned(width: usize, height: usize) -> TapeDisplay {
    let mut td = TapeDisplay::new(width, height);
    for y in 0..height {
        for x in 0..width {
            td.set_pixel(x, y, pattern(x, y));
        }
    }
    td
}

fn raster_bit(data: &[u8], width: usize, height: usize, col: usize, row: usize) -> bool {
    let stride = 8 + (height + 7) / 8;
    let b = data[PROLOGUE_LEN + (width - 1 - col) * stride + 8 + row / 8];
    (b >> (7 - row % 8)) & 1 == 1
}

fn args(qr_text: Option<&str>, width: Option<usize>, dry_run: bool, printer: Option<&str>) -> PrintArgs {
    PrintArgs {
        mac_addr: None,
        qr_text: qr_text.map(|s| s.to_string()),
        width,
        dry_run,
        tcp_data: None,
        printer: printer.map(|s| s.to_string()),
    }
}

#[test]
fn reset_frame_bytes() {
    assert_eq!(encode_frame(64, &[]).unwrap(), vec![27, 123, 3, 64, 64, 125]);
}

#[test]
fn frame_round_trip_and_checksum() {
    let payload = [200u8, 100, 7];
    let f = encode_frame(250, &payload).unwrap();
    // 250 + 200 + 100 + 7 = 557, which wraps to 45.
    assert_eq!(f, vec![27, 123, 6, 250, 200, 100, 7, 45, 125]);
    assert_eq!(decode_frame(&f), Ok((250, payload.to_vec())));
    assert_eq!(checksum(&[250, 200, 100, 7]), 45);
}

#[test]
fn frame_length_byte() {
    let payload = vec![1u8; 10];
    let f = encode_frame(9, &payload).unwrap();
    assert_eq!(f[2], 13);
    assert_eq!(f.len(), 16);
}

#[test]
fn frame_size_limit() {
    let largest = vec![0u8; 252];
    let f = encode_frame(1, &largest).unwrap();
    assert_eq!(f[2], 255);
    assert_eq!(decode_frame(&f), Ok((1, largest)));
    assert_eq!(encode_frame(1, &vec![0u8; 253]), Err(FrameError::FrameTooLarge));
}

#[test]
fn frame_decode_errors() {
    assert_eq!(decode_frame(&[27, 123, 3, 64, 65, 125]), Err(FrameError::ChecksumMismatch));
    assert_eq!(decode_frame(&[27, 124, 3, 64, 64, 125]), Err(FrameError::MalformedFrame));
    assert_eq!(decode_frame(&[27, 123, 3, 64, 64, 126]), Err(FrameError::MalformedFrame));
    assert_eq!(decode_frame(&[27, 123, 4, 64, 64, 125]), Err(FrameError::MalformedFrame));
    assert_eq!(decode_frame(&[27, 123, 2, 64, 125]), Err(FrameError::MalformedFrame));
    assert_eq!(decode_frame(&[]), Err(FrameError::MalformedFrame));
}

#[test]
fn tcp_data_of_single_dot() {
    let mut td = TapeDisplay::new(1, 1);
    td.set_pixel(0, 0, true);
    let mut expected: Vec<u8> = vec![27, 123, 3, 64, 64, 125];
    expected.extend([27, 123, 7, 123, 0, 0, 83, 84, 34, 125]);
    expected.extend([27, 123, 7, 67, 2, 2, 1, 1, 73, 125]);
    expected.extend([27, 123, 4, 68, 5, 73, 125]);
    expected.extend([27, 123, 3, 71, 71, 125]);
    expected.extend([27, 123, 7, 76, 5, 0, 0, 0, 81, 125]);
    expected.extend([27, 123, 5, 84, 42, 0, 126, 125]);
    expected.extend([27, 123, 4, 72, 5, 77, 125]);
    expected.extend([27, 123, 4, 115, 0, 115, 125]);
    assert_eq!(expected.len(), PROLOGUE_LEN);
    expected.extend([0x1b, 0x2e, 0, 0, 0, 1, 1, 0, 0x80]);
    expected.push(0x0c);
    expected.extend([27, 123, 3, 64, 64, 125]);
    assert_eq!(gen_tcp_data(&td), expected);
}

#[test]
fn tcp_data_of_empty_framebuffer() {
    let td = TapeDisplay::new(0, 0);
    let data = gen_tcp_data(&td);
    assert_eq!(data.len(), PROLOGUE_LEN + 1 + 6);
    assert_eq!(data[PROLOGUE_LEN], 0x0c);
    // The tape-length command carries the margin alone.
    assert_eq!(&data[39..49], &[27, 123, 7, 76, 4, 0, 0, 0, 80, 125]);
}

#[test]
fn raster_round_trip() {
    let (width, height) = (3usize, 10usize);
    let td = patterned(width, height);
    let data = gen_tcp_data(&td);
    let stride = 8 + 2;
    assert_eq!(data.len(), PROLOGUE_LEN + width * stride + 1 + 6);
    for col in 0..width {
        for row in 0..16 {
            let expected = row < height && pattern(col, row);
            assert_eq!(raster_bit(&data, width, height, col, row), expected, "col {col} row {row}");
        }
    }
    // The first raster frame carries the last column.
    assert_eq!(&data[PROLOGUE_LEN..PROLOGUE_LEN + 8], &[0x1b, 0x2e, 0, 0, 0, 1, 10, 0]);
}

#[test]
fn raster_column_order_and_bits() {
    let mut td = TapeDisplay::new(2, 9);
    td.set_pixel(1, 0, true);
    td.set_pixel(0, 8, true);
    let data = gen_tcp_data(&td);
    let swaths = &data[PROLOGUE_LEN..PROLOGUE_LEN + 20];
    assert_eq!(swaths, &[0x1b, 0x2e, 0, 0, 0, 1, 9, 0, 0x80, 0x00, 0x1b, 0x2e, 0, 0, 0, 1, 9, 0, 0x00, 0x80]);
}

#[test]
fn overlay_keeps_set_pixels() {
    let mut base = TapeDisplay::new(4, 4);
    base.set_pixel(0, 0, true);
    base.set_pixel(3, 3, true);
    let mut top = TapeDisplay::new(2, 2);
    top.set_pixel(1, 1, true);
    base.overlay_or(&top, 2, 2);
    assert!(base.get_pixel(0, 0));
    assert!(base.get_pixel(3, 3));
    assert!(!base.get_pixel(2, 2));
    assert!(!base.get_pixel(1, 1));
    let set: usize = (0..4).map(|y| (0..4).filter(|&x| base.get_pixel(x, y)).count()).sum();
    assert_eq!(set, 2);
}

#[test]
fn overlay_places_and_clips() {
    let mut base = TapeDisplay::new(3, 3);
    let mut top = TapeDisplay::new(2, 2);
    top.set_pixel(0, 0, true);
    top.set_pixel(1, 1, true);
    base.overlay_or(&top, 2, 1);
    assert!(base.get_pixel(2, 1));
    let set: usize = (0..3).map(|y| (0..3).filter(|&x| base.get_pixel(x, y)).count()).sum();
    assert_eq!(set, 1);
}

#[test]
fn overlay_blank_is_no_op() {
    let mut base = patterned(5, 4);
    let before = base.framebuffer.clone();
    base.overlay_or(&TapeDisplay::new(5, 4), 0, 0);
    base.overlay_or(&TapeDisplay::new(2, 2), 1, 1);
    assert_eq!(base.framebuffer, before);
}

#[test]
fn preview_colours() {
    let mut td = TapeDisplay::new(2, 1);
    td.set_pixel(1, 0, true);
    assert_eq!(td.preview_rgba(), vec![255, 255, 255, 255, 0, 0, 0, 255]);
}

#[test]
fn tape_widths() {
    let px: Vec<u32> = [6, 9, 12, 18, 24, 36].iter().map(|&mm| Tape::from_mm(mm).unwrap().width_px()).collect();
    assert_eq!(px, vec![85, 127, 170, 255, 340, 510]);
    assert_eq!(Tape::from_mm(7), Err(PrintError::UnsupportedWidth));
    assert_eq!(Tape::from_status_code(24), Some(Tape::W24));
    assert_eq!(Tape::from_status_code(0), None);
}

#[test]
fn tape_resolution() {
    let tape12 = Some(PrinterStatus::SomeTape(Tape::W12));
    let agreed = determine_tape(Some(12), tape12).unwrap();
    assert_eq!(agreed, TapeChoice { tape: Tape::W12, overridden: None });
    assert_eq!(agreed.tape.width_px(), 170);
    let given_wins = determine_tape(Some(24), tape12).unwrap();
    assert_eq!(given_wins, TapeChoice { tape: Tape::W24, overridden: Some(Tape::W12) });
    assert_eq!(determine_tape(None, tape12).unwrap().tape, Tape::W12);
    assert_eq!(determine_tape(Some(9), None).unwrap().tape, Tape::W9);
    assert_eq!(determine_tape(None, None), Err(PrintError::MissingConfiguration));
    assert_eq!(determine_tape(None, Some(PrinterStatus::Printing)), Err(PrintError::MissingConfiguration));
    assert_eq!(determine_tape(Some(5), tape12), Err(PrintError::UnsupportedWidth));
}

#[test]
fn session_linear() {
    let polls = 3;
    let mut session = Session::new();
    let mut log: Vec<(Command, u64)> = Vec::new();
    let mut queries = 0;
    let mut step = session.start();
    loop {
        let reply = match step {
            Step::Run { command, delay_ms } => {
                log.push((command, delay_ms));
                match command {
                    Command::QueryStatus => {
                        queries += 1;
                        if queries == 1 || queries > polls + 1 {
                            Reply::Status(PrinterStatus::SomeTape(Tape::W12))
                        } else {
                            Reply::Status(PrinterStatus::Printing)
                        }
                    }
                    _ => Reply::Done,
                }
            }
            Step::Finished => break,
            Step::Aborted => panic!("session aborted"),
        };
        step = session.advance(reply);
    }
    let mut expected = vec![
        (Command::QueryStatus, 0),
        (Command::SendStart, 0),
        (Command::ConnectData, SETTLE_DELAY_MS),
        (Command::NotifyData, SETTLE_DELAY_MS),
        (Command::WriteData, SETTLE_DELAY_MS),
    ];
    for _ in 0..polls + 1 {
        expected.push((Command::QueryStatus, SETTLE_DELAY_MS));
    }
    expected.push((Command::SendStop, 0));
    assert_eq!(log, expected);
    assert_eq!(session.phase, Phase::Stopped);
}

#[test]
fn session_aborts_without_tape() {
    let mut session = Session::new();
    session.start();
    assert_eq!(session.advance(Reply::Status(PrinterStatus::NoTape)), Step::Aborted);
    assert_eq!(session.phase, Phase::Failed);
}

#[test]
fn session_stops_on_any_other_poll_reply() {
    let mut session = Session { phase: Phase::Polling };
    assert_eq!(
        session.advance(Reply::Status(PrinterStatus::Unknown(7))),
        Step::Run { command: Command::SendStop, delay_ms: 0 }
    );
}

#[test]
fn qr_job_on_twelve_mm_tape() {
    let job = do_print(&args(Some("hello"), Some(12), true, None), None).unwrap();
    assert_eq!(job.tape.tape, Tape::W12);
    assert_eq!(job.printer, None);
    // Version 1 code: 21 modules plus a 4-module quiet zone on each side, 5 px each.
    assert_eq!((job.qr.width, job.qr.height), (145, 145));
    assert_eq!((job.label.width, job.label.height), (170, 170));
    let ofs = (170 - 145) / 2;
    assert!(!job.label.get_pixel(ofs, ofs));
    assert!(!job.label.get_pixel(ofs + 19, ofs + 19));
    assert!(job.label.get_pixel(ofs + 20, ofs + 20));
    assert!(!job.label.get_pixel(ofs - 1, 100));
    assert_eq!(job.tcp_data, gen_tcp_data(&job.label));
}

#[test]
fn qr_job_errors() {
    assert_eq!(do_print(&args(None, Some(12), true, None), None).err(), Some(PrintError::MissingQrText));
    assert_eq!(do_print(&args(Some("x"), None, true, None), None).err(), Some(PrintError::MissingConfiguration));
    assert_eq!(do_print(&args(Some("x"), Some(12), false, None), None).err(), Some(PrintError::MissingConfiguration));
    let long = "x".repeat(3000);
    assert_eq!(do_print(&args(Some(&long), Some(12), true, None), None).err(), Some(PrintError::QrEncoding));
    let dense = "x".repeat(600);
    assert_eq!(do_print(&args(Some(&dense), Some(6), true, None), None).err(), Some(PrintError::QrTooLarge));
    let job = do_print(&args(Some("x"), None, false, Some("10.0.0.2")), Some(PrinterStatus::SomeTape(Tape::W24))).unwrap();
    assert_eq!(job.printer, Some("10.0.0.2".to_string()));
    assert_eq!(job.label.width, 340);
}

#[test]
fn analyzer_accepts_encoded_stream() {
    let td = patterned(7, 20);
    assert_eq!(analyze_tcp_data(&gen_tcp_data(&td)), Ok(7));
    assert_eq!(analyze_tcp_data(&gen_tcp_data(&TapeDisplay::new(0, 0))), Ok(0));
    assert_eq!(analyze_tcp_data(&[]), Ok(0));
}

#[test]
fn analyzer_errors() {
    let mut data = gen_tcp_data(&patterned(2, 9));
    data[4] = 65;
    assert_eq!(analyze_tcp_data(&data), Err(FrameError::ChecksumMismatch));
    let mut data = gen_tcp_data(&patterned(2, 9));
    data.truncate(PROLOGUE_LEN + 5);
    assert_eq!(analyze_tcp_data(&data), Err(FrameError::MalformedFrame));
    let mut data = gen_tcp_data(&patterned(2, 9));
    data.push(0x99);
    assert_eq!(analyze_tcp_data(&data), Err(FrameError::MalformedFrame));
    let mut data = gen_tcp_data(&patterned(2, 9));
    data[PROLOGUE_LEN + 5] = 2;
    assert_eq!(analyze_tcp_data(&data), Err(FrameError::MalformedFrame));
}
