//! Core data model: event kinds, calendar timestamps, classified lines and
//! reconstructed documents.

use vstd::prelude::*;

verus! {

/// The kind of a recognized log event: a document open, a document close
/// (with a success flag; a failed close records a lost printer connection),
/// or a transient connection freeze inside a document.
#[derive(Debug, Clone, Copy, PartialEq, Eq, Structural)]
pub enum LineType {
    Open,
    Close(bool),
    Freeze,
}

/// A calendar date-time with millisecond precision, as parsed from the
/// leading timestamp of a log line.
#[derive(Debug, Clone, Copy, PartialEq, Eq, Structural)]
pub struct Timestamp {
    pub year: u16,
    pub month: u8,
    pub day: u8,
    pub hour: u8,
    pub minute: u8,
    pub second: u8,
    pub millisecond: u16,
}

pub open spec fn is_leap_year(y: int) -> bool {
    (y % 4 == 0 && y % 100 != 0) || y % 400 == 0
}

pub open spec fn days_in_month(y: int, m: int) -> int {
    if m == 2 {
        if is_leap_year(y) {
            29
        } else {
            28
        }
    } else if m == 4 || m == 6 || m == 9 || m == 11 {
        30
    } else {
        31
    }
}

/// A valid proleptic-Gregorian calendar date within the four-digit years
/// that the log's timestamp format can express.
pub open spec fn valid_ymd(y: int, m: int, d: int) -> bool {
    0 <= y <= 9999 && 1 <= m <= 12 && 1 <= d <= days_in_month(y, m)
}

impl Timestamp {
    /// The timestamp denotes a real calendar instant.
    pub open spec fn wf(self) -> bool {
        &&& valid_ymd(self.year as int, self.month as int, self.day as int)
        &&& self.hour < 24
        &&& self.minute < 60
        &&& self.second < 60
        &&& self.millisecond < 1000
    }

    /// Milliseconds elapsed since the midnight that begins this day.
    pub open spec fn ms_of_day(self) -> int {
        ((self.hour as int * 60 + self.minute as int) * 60 + self.second as int) * 1000
            + self.millisecond as int
    }
}

/// One classified log line: its 1-based position in the file, the event kind
/// it encodes, and its timestamp.
#[derive(Debug, Clone, Copy, PartialEq, Eq, Structural)]
pub struct Line {
    pub index: usize,
    pub line_type: LineType,
    pub dt: Timestamp,
}

impl Line {
    pub open spec fn wf(self) -> bool {
        self.dt.wf()
    }
}

/// One reconstructed print operation: the event that opened it, the optional
/// event that closed it, and the freeze events observed in between (absent
/// when none occurred, in file order otherwise).
pub struct Document {
    pub open: Line,
    pub close: Option<Line>,
    pub freeze: Option<Vec<Line>>,
}

/// The mathematical shape of a [`Document`]: an absent freeze list and an
/// empty one mean the same thing — no freezes.
#[verifier::ext_equal]
pub struct DocModel {
    pub open: Line,
    pub close: Option<Line>,
    pub freezes: Seq<Line>,
}

impl DocModel {
    pub open spec fn wf(self) -> bool {
        &&& self.open.wf()
        &&& match self.close {
            Some(c) => c.wf(),
            None => true,
        }
    }

    /// Whether the document's printing time is defined: exactly when it has
    /// a close event.
    pub open spec fn pt_defined(self) -> bool {
        self.close is Some
    }

    /// The document's printing time in milliseconds (meaningful only when
    /// defined): close instant minus open instant.
    pub open spec fn pt_ms(self) -> int {
        match self.close {
            Some(c) => c.dt.epoch_ms() - self.open.dt.epoch_ms(),
            None => 0,
        }
    }
}

impl View for Document {
    type V = DocModel;

    open spec fn view(&self) -> DocModel {
        DocModel {
            open: self.open,
            close: self.close,
            freezes: match self.freeze {
                Some(v) => v@,
                None => Seq::empty(),
            },
        }
    }
}

/// Any printing time of well-formed timestamps fits well below this bound
/// (twice the epoch-millisecond bound of `crate::time`).
pub const PT_MS_BOUND: i64 = 691_200_172_800_000;

impl Document {
    pub open spec fn wf(self) -> bool {
        self@.wf()
    }

    /// The elapsed milliseconds between the open and the close event, or
    /// `None` when the document was never closed.
    pub fn get_printing_time(&self) -> (r: Option<i64>)
        requires
            self.wf(),
        ensures
            r is Some <==> self@.pt_defined(),
            r matches Some(v) ==> v == self@.pt_ms() && -PT_MS_BOUND < v < PT_MS_BOUND,
    {
        match &self.close {
            Some(c) => {
                let close_ms = c.dt.to_epoch_ms();
                let open_ms = self.open.dt.to_epoch_ms();
                Some(close_ms - open_ms)
            },
            None => None,
        }
    }
}

} // verus!
