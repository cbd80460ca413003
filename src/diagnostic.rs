//! Compiler diagnostics with their positions resolved to one-based lines
//! and columns.

use vstd::prelude::*;
use vstd::utf8::encode_utf8;

use crate::position::{
    chars_starting_before, lemma_len_le_utf8_len, lemma_utf8_len_is_encoding_len, utf8_len,
};

verus! {

/// Where a diagnostic stands: one-based lines and columns, or all zero when
/// the file it belongs to could not be read.
#[derive(Clone, Copy, Debug, PartialEq, Eq, Structural)]
pub struct DiagnosticPosition {
    pub line: usize,
    pub column: usize,
    pub end_line: usize,
    pub end_column: usize,
}

impl Default for DiagnosticPosition {
    fn default() -> (r: Self)
        ensures
            r == zero_position(),
    {
        DiagnosticPosition { line: 0, column: 0, end_line: 0, end_column: 0 }
    }
}

/// The position given to a diagnostic whose file could not be read.
pub open spec fn zero_position() -> DiagnosticPosition {
    DiagnosticPosition { line: 0, column: 0, end_line: 0, end_column: 0 }
}

/// How severe a diagnostic is.
#[derive(Clone, Copy, Debug, PartialEq, Eq, Structural)]
pub enum TypstSeverity {
    Error,
    Warning,
}

/// A diagnostic as the editor receives it.
#[derive(Clone, Debug)]
pub struct TypstSourceDiagnostic {
    pub location: DiagnosticPosition,
    pub severity: TypstSeverity,
    pub message: String,
    pub hints: Vec<String>,
}

/// The diagnostics of a failed compilation: the warnings first, then the
/// errors.
#[derive(Debug)]
pub struct CompilationError(pub Vec<TypstSourceDiagnostic>);

/// A diagnostic of the compiler before its position is resolved.
pub struct RawDiagnostic {
    pub severity: TypstSeverity,
    pub message: String,
    pub hints: Vec<String>,
    /// The text of the file the diagnostic belongs to, or `None` when that
    /// file could not be read.
    pub source: Option<String>,
    /// Byte range of the diagnostic within that file (empty at 0 when the
    /// diagnostic has no span).
    pub start: usize,
    pub end: usize,
}

/// Whether `c` ends a line: line feed, vertical tab, form feed, carriage
/// return, next line, line separator or paragraph separator.
pub open spec fn is_newline(c: char) -> bool {
    c == '\n' || c == '\x0B' || c == '\x0C' || c == '\r' || c == '\u{0085}' || c == '\u{2028}'
        || c == '\u{2029}'
}

/// Whether a new line starts after character `k` of `t`; a carriage return
/// followed by a line feed is one line break, ending at the line feed.
pub open spec fn break_after(t: Seq<char>, k: int) -> bool {
    is_newline(t[k]) && !(t[k] == '\r' && k + 1 < t.len() && t[k + 1] == '\n')
}

/// Number of line breaks among the first `k` characters of `t` whose next
/// line starts at or before byte `b`.
pub open spec fn breaks_before(t: Seq<char>, k: nat, b: int) -> nat
    decreases k,
{
    if k == 0 {
        0
    } else {
        breaks_before(t, (k - 1) as nat, b) + if break_after(t, k - 1) && utf8_len(t.take(k as int))
            <= b {
            1nat
        } else {
            0nat
        }
    }
}

/// Zero-based index of the line that holds byte `byte` of `text`, for a
/// byte index up to the text's length.
pub open spec fn line_of_byte(text: Seq<char>, byte: nat) -> Option<nat> {
    if byte <= utf8_len(text) {
        Some(breaks_before(text, text.len(), byte as int))
    } else {
        None
    }
}

proof fn lemma_breaks_before_bounded(t: Seq<char>, k: nat, b: int)
    ensures
        breaks_before(t, k, b) <= k,
    decreases k,
{
    if k > 0 {
        lemma_breaks_before_bounded(t, (k - 1) as nat, b);
    }
}

proof fn lemma_breaks_before_monotone(t: Seq<char>, k: nat, b1: int, b2: int)
    requires
        b1 <= b2,
    ensures
        breaks_before(t, k, b1) <= breaks_before(t, k, b2),
    decreases k,
{
    if k > 0 {
        lemma_breaks_before_monotone(t, (k - 1) as nat, b1, b2);
    }
}

/// A later byte is never on an earlier line.
pub proof fn lemma_line_of_byte_monotone(text: Seq<char>, b1: nat, b2: nat)
    requires
        b1 <= b2 <= utf8_len(text),
    ensures
        line_of_byte(text, b1)->0 <= line_of_byte(text, b2)->0,
{
    lemma_breaks_before_monotone(text, text.len(), b1 as int, b2 as int);
}

/// Index of the first character of the line that holds byte `b`, looking
/// at the line breaks among the first `k` characters of `t`.
pub open spec fn line_start_char(t: Seq<char>, k: nat, b: int) -> nat
    decreases k,
{
    if k == 0 {
        0
    } else if break_after(t, k - 1) && utf8_len(t.take(k as int)) <= b {
        k
    } else {
        line_start_char(t, (k - 1) as nat, b)
    }
}

/// Whether byte `b` of `t` is where a character starts (or the end).
pub open spec fn is_char_start(t: Seq<char>, b: int) -> bool {
    exists|c: int| 0 <= c <= t.len() && utf8_len(t.take(c)) == b
}

/// Zero-based index, counted in characters, of byte `byte` of `text` within
/// its line, when a character starts there.
pub open spec fn column_of_byte(text: Seq<char>, byte: nat) -> Option<nat> {
    if byte <= utf8_len(text) && is_char_start(text, byte as int) {
        let before = chars_starting_before(text, byte as int);
        let line_start = line_start_char(text, text.len(), byte as int);
        Some(
            if before >= line_start {
                (before - line_start) as nat
            } else {
                0
            },
        )
    } else {
        None
    }
}

proof fn lemma_chars_starting_before_bounded(t: Seq<char>, b: int)
    ensures
        chars_starting_before(t, b) <= t.len(),
    decreases t.len(),
{
    if t.len() > 0 {
        lemma_chars_starting_before_bounded(t.drop_last(), b);
    }
}

/// Relies on typst_syntax::Source::byte_to_line, on a source holding
/// `text`: the source keeps the start of every line (0, then the byte after
/// each line break, with `\r\n` as one break, over typst's newline
/// characters), and for a byte index up to the text's length gives the
/// index of the last line start at or before it; past the end it gives
/// none.
#[verifier::external_body]
fn byte_to_line(text: &str, byte: usize) -> (r: Option<usize>)
    ensures
        r is None <==> line_of_byte(text@, byte as nat) is None,
        r matches Some(l) ==> line_of_byte(text@, byte as nat) == Some(l as nat),
{
    typst_syntax::Source::detached(text).byte_to_line(byte)
}

/// Relies on typst_syntax::Source::byte_to_column, on a source holding
/// `text`: for a byte index up to the text's length, the number of
/// characters from the start of its line (as `byte_to_line` finds it) up to
/// the byte; none when no character starts at that byte.
#[verifier::external_body]
fn byte_to_column(text: &str, byte: usize) -> (r: Option<usize>)
    ensures
        r is None <==> column_of_byte(text@, byte as nat) is None,
        r matches Some(c) ==> column_of_byte(text@, byte as nat) == Some(c as nat),
{
    typst_syntax::Source::detached(text).byte_to_column(byte)
}

/// A zero-based index made one-based; a missing index gives 1 (it counts
/// as index 0).
pub open spec fn one_based(i: Option<nat>) -> nat {
    match i {
        Some(v) => v + 1,
        None => 1,
    }
}

/// The position of bytes `start..end` of `source`.
pub open spec fn position_in(source: Option<Seq<char>>, start: nat, end: nat) -> DiagnosticPosition {
    match source {
        Some(t) => DiagnosticPosition {
            line: one_based(line_of_byte(t, start)) as usize,
            column: one_based(column_of_byte(t, start)) as usize,
            end_line: one_based(line_of_byte(t, end)) as usize,
            end_column: one_based(column_of_byte(t, end)) as usize,
        },
        None => zero_position(),
    }
}

/// The view of an optional source text.
pub open spec fn source_view(source: Option<String>) -> Option<Seq<char>> {
    match source {
        Some(t) => Some(t@),
        None => None,
    }
}

/// Source texts short enough that a one-based line or column fits in
/// `usize`.
pub open spec fn fits(source: Option<String>) -> bool {
    source matches Some(t) ==> encode_utf8(t@).len() < usize::MAX
}

/// A zero-based index made one-based; a missing index gives 1 (it counts
/// as index 0).
pub fn one_based_or_zero(i: Option<usize>) -> (r: usize)
    requires
        i matches Some(v) ==> v < usize::MAX,
    ensures
        r == one_based(
            match i {
                Some(v) => Some(v as nat),
                None => None,
            },
        ),
{
    match i {
        Some(v) => v + 1,
        None => 1,
    }
}

/// Resolves bytes `start..end` of `source` to one-based lines and columns;
/// when the source could not be read the position is all zero.
pub fn diagnostic_position_from_source(source: &Option<String>, start: usize, end: usize) -> (r:
    DiagnosticPosition)
    requires
        fits(*source),
    ensures
        r == position_in(source_view(*source), start as nat, end as nat),
        source is Some ==> r.line >= 1 && r.column >= 1 && r.end_line >= 1 && r.end_column >= 1,
        source matches Some(t) && start <= end <= encode_utf8(t@).len() ==> r.line <= r.end_line,
        source is None ==> r == zero_position(),
{
    match source {
        Some(text) => {
            let t = text.as_str();
            proof {
                lemma_utf8_len_is_encoding_len(t@);
                lemma_breaks_before_bounded(t@, t@.len(), start as int);
                lemma_breaks_before_bounded(t@, t@.len(), end as int);
                lemma_len_le_utf8_len(t@);
                lemma_chars_starting_before_bounded(t@, start as int);
                lemma_chars_starting_before_bounded(t@, end as int);
                if start <= end <= utf8_len(t@) {
                    lemma_line_of_byte_monotone(t@, start as nat, end as nat);
                }
            }
            let line = byte_to_line(t, start);
            let column = byte_to_column(t, start);
            let end_line = byte_to_line(t, end);
            let end_column = byte_to_column(t, end);
            DiagnosticPosition {
                line: one_based_or_zero(line),
                column: one_based_or_zero(column),
                end_line: one_based_or_zero(end_line),
                end_column: one_based_or_zero(end_column),
            }
        },
        None => DiagnosticPosition { line: 0, column: 0, end_line: 0, end_column: 0 },
    }
}

/// `d` is `raw` with its position resolved.
pub open spec fn resolved(raw: RawDiagnostic, d: TypstSourceDiagnostic) -> bool {
    &&& d.location == position_in(source_view(raw.source), raw.start as nat, raw.end as nat)
    &&& d.severity == raw.severity
    &&& d.message@ == raw.message@
    &&& d.hints@ == raw.hints@
}

/// A diagnostic with its position resolved.
pub fn process_diagnostic(raw: RawDiagnostic) -> (d: TypstSourceDiagnostic)
    requires
        fits(raw.source),
    ensures
        resolved(raw, d),
{
    let location = diagnostic_position_from_source(&raw.source, raw.start, raw.end);
    TypstSourceDiagnostic {
        location,
        severity: raw.severity,
        message: raw.message,
        hints: raw.hints,
    }
}

/// Every diagnostic of `raw`, in order, resolved.
pub open spec fn all_resolved(raw: Seq<RawDiagnostic>, out: Seq<TypstSourceDiagnostic>) -> bool {
    &&& out.len() == raw.len()
    &&& forall|i: int| 0 <= i < raw.len() ==> resolved(#[trigger] raw[i], out[i])
}

/// All source texts of `raw` are short enough for one-based positions.
pub open spec fn all_fit(raw: Seq<RawDiagnostic>) -> bool {
    forall|i: int| 0 <= i < raw.len() ==> fits(#[trigger] raw[i].source)
}

/// Resolves each diagnostic of `raw`, keeping their order; none is dropped.
pub fn process_diagnostics(raw: Vec<RawDiagnostic>) -> (out: Vec<TypstSourceDiagnostic>)
    requires
        all_fit(raw@),
    ensures
        all_resolved(raw@, out@),
{
    let ghost whole = raw@;
    let mut out: Vec<TypstSourceDiagnostic> = Vec::new();
    let mut rest = raw;
    let n = rest.len();
    while rest.len() > 0
        invariant
            out.len() + rest.len() == n,
            n == whole.len(),
            rest@ =~= whole.subrange(out.len() as int, n as int),
            all_fit(whole),
            forall|i: int| 0 <= i < out.len() ==> resolved(#[trigger] whole[i], out@[i]),
        decreases rest.len(),
    {
        let r = rest.remove(0);
        assert(r == whole[out.len() as int]);
        let d = process_diagnostic(r);
        out.push(d);
        assert(rest@ =~= whole.subrange(out.len() as int, n as int));
    }
    out
}

/// No diagnostic is dropped when its position cannot be resolved: each
/// one is reported, in order, and one whose file could not be read has the
/// all-zero position.
pub proof fn lemma_diagnostics_never_dropped(raw: Seq<RawDiagnostic>, out: Seq<TypstSourceDiagnostic>)
    requires
        all_resolved(raw, out),
    ensures
        out.len() == raw.len(),
        forall|i: int|
            0 <= i < raw.len() && (#[trigger] raw[i]).source is None ==> out[i].location
                == zero_position() && out[i].message@ == raw[i].message@,
{
    assert forall|i: int| 0 <= i < raw.len() && (#[trigger] raw[i]).source is None implies out[i].location
        == zero_position() && out[i].message@ == raw[i].message@ by {
        assert(resolved(raw[i], out[i]));
    }
}

} // verus!
