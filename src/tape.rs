//! Tape widths and the printer's status report.
use vstd::prelude::*;
use crate::error::PrintError;

verus! {

/// Print resolution of the device, in dots per inch.
pub const DOTS_PER_INCH: u32 = 360;

/// Tenths of a millimetre in one inch.
pub const TENTHS_MM_PER_INCH: u32 = 254;

/// A supported tape, named by its width in millimetres.
#[derive(Debug, Clone, Copy, PartialEq, Eq, Structural)]
pub enum Tape {
    W6,
    W9,
    W12,
    W18,
    W24,
    W36,
}

/// What the printer reports about its state.
#[derive(Debug, Clone, Copy, PartialEq, Eq, Structural)]
pub enum PrinterStatus {
    /// Idle, with a tape of known width loaded.
    SomeTape(Tape),
    /// A print is in progress.
    Printing,
    /// Idle, with no tape loaded.
    NoTape,
    /// Any other report, with the raw status code.
    Unknown(u8),
}

/// Pixels across `mm` millimetres at the device resolution, rounded down.
pub open spec fn px_of_mm(mm: nat) -> nat {
    mm * 10 * DOTS_PER_INCH as nat / TENTHS_MM_PER_INCH as nat
}

/// The widths, in millimetres, of the supported tapes.
pub open spec fn supported_mm(mm: int) -> bool {
    mm == 6 || mm == 9 || mm == 12 || mm == 18 || mm == 24 || mm == 36
}

impl Tape {
    /// Width of the tape in millimetres.
    pub open spec fn mm(self) -> nat {
        match self {
            Tape::W6 => 6,
            Tape::W9 => 9,
            Tape::W12 => 12,
            Tape::W18 => 18,
            Tape::W24 => 24,
            Tape::W36 => 36,
        }
    }

    /// The tape of the given width in millimetres, if it is supported.
    pub fn from_mm(mm: usize) -> (r: Result<Tape, PrintError>)
        ensures
            supported_mm(mm as int) <==> r is Ok,
            r matches Ok(t) ==> t.mm() == mm,
            r matches Err(e) ==> e == PrintError::UnsupportedWidth,
    {
        match mm {
            6 => Ok(Tape::W6),
            9 => Ok(Tape::W9),
            12 => Ok(Tape::W12),
            18 => Ok(Tape::W18),
            24 => Ok(Tape::W24),
            36 => Ok(Tape::W36),
            _ => Err(PrintError::UnsupportedWidth),
        }
    }

    /// The tape named by a width code in a status report (its width in
    /// millimetres), if it is supported.
    pub fn from_status_code(code: u8) -> (r: Option<Tape>)
        ensures
            supported_mm(code as int) <==> r is Some,
            r matches Some(t) ==> t.mm() == code,
    {
        match Tape::from_mm(code as usize) {
            Ok(t) => Some(t),
            Err(_) => None,
        }
    }

    /// Width of the tape in millimetres.
    pub fn width_mm(&self) -> (r: u32)
        ensures
            r == self.mm(),
    {
        match self {
            Tape::W6 => 6,
            Tape::W9 => 9,
            Tape::W12 => 12,
            Tape::W18 => 18,
            Tape::W24 => 24,
            Tape::W36 => 36,
        }
    }

    /// Printable width of the tape in pixels.
    pub fn width_px(&self) -> (r: u32)
        ensures
            r == px_of_mm(self.mm()),
            r <= 510,
    {
        let mm = self.width_mm();
        mm * 10 * DOTS_PER_INCH / TENTHS_MM_PER_INCH
    }
}

/// The tape that a status report shows loaded, if any.
pub open spec fn reported_tape(status: Option<PrinterStatus>) -> Option<Tape> {
    match status {
        Some(PrinterStatus::SomeTape(t)) => Some(t),
        _ => None,
    }
}

/// The tape to print for, and the detected tape that it overrode, if they
/// disagreed.
#[derive(Debug, Clone, Copy, PartialEq, Eq, Structural)]
pub struct TapeChoice {
    pub tape: Tape,
    pub overridden: Option<Tape>,
}

/// The tape chosen from a width given in millimetres and a status report.
pub open spec fn tape_choice_of(given_mm: Option<usize>, status: Option<PrinterStatus>) -> Result<
    TapeChoice,
    PrintError,
> {
    match (given_mm, reported_tape(status)) {
        (Some(mm), _) if !supported_mm(mm as int) => Err(PrintError::UnsupportedWidth),
        (Some(mm), Some(d)) => if d.mm() == mm {
            Ok(TapeChoice { tape: d, overridden: None })
        } else {
            Ok(TapeChoice { tape: tape_of_mm(mm as nat), overridden: Some(d) })
        },
        (Some(mm), None) => Ok(TapeChoice { tape: tape_of_mm(mm as nat), overridden: None }),
        (None, Some(d)) => Ok(TapeChoice { tape: d, overridden: None }),
        (None, None) => Err(PrintError::MissingConfiguration),
    }
}

/// The supported tape of the given width.
pub open spec fn tape_of_mm(mm: nat) -> Tape
    recommends
        supported_mm(mm as int),
{
    if mm == 6 {
        Tape::W6
    } else if mm == 9 {
        Tape::W9
    } else if mm == 12 {
        Tape::W12
    } else if mm == 18 {
        Tape::W18
    } else if mm == 24 {
        Tape::W24
    } else {
        Tape::W36
    }
}

/// Chooses the tape from a width given in millimetres and the printer's status
/// report. A given width wins; a detected tape that disagrees with it is
/// returned in `overridden` so that the caller can warn.
pub fn determine_tape(given_mm: Option<usize>, status: Option<PrinterStatus>) -> (r: Result<
    TapeChoice,
    PrintError,
>)
    ensures
        r == tape_choice_of(given_mm, status),
{
    let detected = match status {
        Some(PrinterStatus::SomeTape(t)) => Some(t),
        _ => None,
    };
    let given = match given_mm {
        Some(mm) => Some(Tape::from_mm(mm)?),
        None => None,
    };
    match (given, detected) {
        (Some(g), Some(d)) => {
            let overridden = if g != d {
                Some(d)
            } else {
                None
            };
            Ok(TapeChoice { tape: g, overridden })
        },
        (Some(g), None) => Ok(TapeChoice { tape: g, overridden: None }),
        (None, Some(d)) => Ok(TapeChoice { tape: d, overridden: None }),
        (None, None) => Err(PrintError::MissingConfiguration),
    }
}

/// Pixel widths of the supported tapes.
pub open spec fn catalogue_px(mm: nat) -> nat {
    if mm == 6 {
        85
    } else if mm == 9 {
        127
    } else if mm == 12 {
        170
    } else if mm == 18 {
        255
    } else if mm == 24 {
        340
    } else {
        510
    }
}

/// Where the given and the detected tape agree, the choice is that tape, its
/// pixel width is the catalogue's, and there is nothing to warn about; where
/// they disagree, the given width wins and the detected tape is reported;
/// with neither, the choice fails for want of configuration.
pub proof fn lemma_tape_resolution(mm: usize, detected: Tape)
    requires
        supported_mm(mm as int),
    ensures
        detected.mm() == mm ==> tape_choice_of(Some(mm), Some(PrinterStatus::SomeTape(detected)))
            == Ok::<TapeChoice, PrintError>(TapeChoice { tape: detected, overridden: None }),
        detected.mm() == mm ==> px_of_mm(detected.mm()) == catalogue_px(mm as nat),
        detected.mm() != mm ==> tape_choice_of(Some(mm), Some(PrinterStatus::SomeTape(detected)))
            == Ok::<TapeChoice, PrintError>(
            TapeChoice { tape: tape_of_mm(mm as nat), overridden: Some(detected) },
        ),
        tape_of_mm(mm as nat).mm() == mm,
        px_of_mm(tape_of_mm(mm as nat).mm()) == catalogue_px(mm as nat),
        tape_choice_of(None, None) == Err::<TapeChoice, PrintError>(PrintError::MissingConfiguration),
{
}

} // verus!
