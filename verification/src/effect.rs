//! Rendering effects.
//!
//! Handlers never touch a terminal: they emit these instructions, and the
//! thin shell around the library carries them out on its live display. A
//! slot is a position on that display, owned by the handler that allocated
//! it and referenced only by number.

use vstd::prelude::*;

verus! {

/// Which visual template a bar uses; the terminal width it was computed
/// for travels along so the shell can rebuild the template on resize.
#[derive(Clone, Copy, Debug, PartialEq, Eq, Structural)]
pub enum StyleTemplate {
    BuildsGroup,
    Download,
    DownloadsGroup,
    UnknownSpinner,
    DebugGauge,
    /// One line of a shared log window; the last line draws the closing
    /// corner of the tree prefix.
    LogLine { last: bool },
}

/// A bar's style: its template and the terminal width it is laid out for.
#[derive(Clone, Copy, Debug, PartialEq, Eq, Structural)]
pub struct BarStyle {
    pub template: StyleTemplate,
    pub width: u16,
}

/// One finished line printed above the live display. The shell decorates
/// these with colors and with wall-clock data (durations, byte units) that
/// the engine does not measure.
#[derive(Debug, PartialEq, Eq)]
pub enum SummaryLine {
    /// One build finished.
    Built { target: String },
    /// A whole build group finished.
    BuiltGroup { count: u64 },
    /// One download finished.
    Downloaded { target: String, bytes: u64 },
    /// A whole download group finished.
    DownloadedGroup { count: u64, bytes_down: u64, bytes_unpacked: u64 },
    /// One retained log line, flushed when its unit of work stopped.
    Log { last: bool, text: String },
    /// A free-standing message from the wrapped process.
    Message { level: u8, text: String },
    /// A line passed through untouched.
    Raw { text: String },
}

/// One instruction to the live display.
#[derive(Debug, PartialEq, Eq)]
pub enum Effect {
    /// Put the separator line up, above everything else.
    CreateSeparator,
    /// Redraw the separator.
    TickSeparator,
    /// Drop the separator line.
    RemoveSeparator,
    /// Allocate a new display line under the given slot number.
    CreateBar { slot: u64, style: BarStyle },
    /// Restyle a bar, typically after a resize.
    SetStyle { slot: u64, style: BarStyle },
    SetMessage { slot: u64, text: String },
    SetPrefix { slot: u64, text: String },
    SetLength { slot: u64, value: u64 },
    SetPosition { slot: u64, value: u64 },
    /// Update the debug gauge: how many protocol lines were handled and how
    /// long the handler list was after the previous pass.
    SetGauge { slot: u64, lines_parsed: u64, handlers: u64 },
    /// Redraw a bar.
    Tick { slot: u64 },
    /// Close a bar and release its display line.
    FinishAndClear { slot: u64 },
    /// Print one finished line above the live display.
    Println { line: SummaryLine },
}

impl Effect {
    /// The effect prints a finished line.
    pub open spec fn is_println(&self) -> bool {
        self matches Effect::Println { .. }
    }
}

/// No effect of the sequence prints a line.
pub open spec fn spec_no_printlns(s: Seq<Effect>) -> bool {
    spec_no_printlns_from(s, 0)
}

/// No effect from position `n` on prints a line.
pub open spec fn spec_no_printlns_from(s: Seq<Effect>, n: int) -> bool {
    forall|i: int| n <= i < s.len() ==> !(#[trigger] s[i]).is_println()
}

/// A sequence is a prefix of any element-wise extension of itself.
pub proof fn lemma_prefix<T>(a: Seq<T>, b: Seq<T>)
    requires
        a.len() <= b.len(),
        forall|i: int| 0 <= i < a.len() ==> a[i] == b[i],
    ensures
        a.is_prefix_of(b),
{
    assert(b.take(a.len() as int) =~= a);
}

/// A println-free prefix followed by a println-free extension is println
/// free as a whole.
pub proof fn lemma_no_printlns_join(a: Seq<Effect>, b: Seq<Effect>)
    requires
        a.is_prefix_of(b),
        spec_no_printlns(a),
        spec_no_printlns_from(b, a.len() as int),
    ensures
        spec_no_printlns(b),
{
    assert forall|i: int| 0 <= i < b.len() implies !(#[trigger] b[i]).is_println() by {
        if i < a.len() {
            assert(a =~= b.subrange(0, a.len() as int));
            assert(b[i] == a[i]);
        }
    }
}

} // verus!
