//! Diagnostics as text: a line that says what is wrong and where, the
//! lines of the source around it, and carets beneath what it points at.

use vstd::prelude::*;
use vstd::string::*;
use vstd::utf8::is_continuation_byte;
use crate::ast::Span;
use crate::error::{CodeError, Diagnostic, ErrorKind, Problem, SymbolError};
use crate::file::FileRef;
use crate::lexer::{ErrorLocation, ParseError, ParseProblem, Rule};
use crate::text::{
    column_at,
    decimal,
    find_line_end,
    line_at,
    line_end,
    position_line_col,
    push_decimal,
    push_repeat,
    push_right_aligned,
    push_slice,
    push_str,
    repeat,
    right_aligned,
};

verus! {

impl ErrorLocation {
    /// The position that the location starts at.
    pub open spec fn first(self) -> usize {
        match self {
            ErrorLocation::Single(pos) => pos,
            ErrorLocation::Span(start, _) => start,
        }
    }

    /// The position that the location ends at, where it is a range.
    pub open spec fn last(self) -> Option<usize> {
        match self {
            ErrorLocation::Single(_) => None,
            ErrorLocation::Span(_, end) => Some(end),
        }
    }

    /// The position that the location starts at, and the one that it ends
    /// at where it is a range.
    pub fn split(&self) -> (res: (usize, Option<usize>))
        ensures
            res == (self.first(), self.last()),
    {
        match self {
            ErrorLocation::Single(pos) => (*pos, None),
            ErrorLocation::Span(start, end) => (*start, Some(*end)),
        }
    }
}

impl ErrorKind {
    /// How the kind is written.
    pub open spec fn text(self) -> Seq<u8> {
        match self {
            ErrorKind::Error => "[ERR]".spec_bytes(),
            ErrorKind::Warning => "[WARN]".spec_bytes(),
        }
    }

    /// Appends the kind as it is written.
    pub fn push_text(&self, out: &mut Vec<u8>)
        ensures
            final(out)@ == old(out)@ + self.text(),
    {
        match self {
            ErrorKind::Error => push_str(out, "[ERR]"),
            ErrorKind::Warning => push_str(out, "[WARN]"),
        }
    }
}

impl Rule {
    /// The name of the rule.
    pub open spec fn name(self) -> Seq<u8> {
        match self {
            Rule::Character => "character".spec_bytes(),
            Rule::Digit => "digit".spec_bytes(),
            Rule::Quote => "closing quote".spec_bytes(),
            Rule::Statement => "instruction or directive".spec_bytes(),
            Rule::Expression => "expression".spec_bytes(),
            Rule::Size => "size".spec_bytes(),
            Rule::ClosingParenthesis => "closing parenthesis".spec_bytes(),
            Rule::EndOfLine => "end of line".spec_bytes(),
            Rule::Path => "path".spec_bytes(),
        }
    }

    /// Appends the name of the rule.
    pub fn push_name(&self, out: &mut Vec<u8>)
        ensures
            final(out)@ == old(out)@ + self.name(),
    {
        match self {
            Rule::Character => push_str(out, "character"),
            Rule::Digit => push_str(out, "digit"),
            Rule::Quote => push_str(out, "closing quote"),
            Rule::Statement => push_str(out, "instruction or directive"),
            Rule::Expression => push_str(out, "expression"),
            Rule::Size => push_str(out, "size"),
            Rule::ClosingParenthesis => push_str(out, "closing parenthesis"),
            Rule::EndOfLine => push_str(out, "end of line"),
            Rule::Path => push_str(out, "path"),
        }
    }
}

/// A way to write the rules of the grammar in a message.
pub trait RuleDisplay {
    /// How the rule `r` is written.
    spec fn shown(&self, r: Rule) -> Seq<u8>;

    /// Appends the rule `r` as it is written.
    fn rule_as_display(&self, r: &Rule, out: &mut Vec<u8>)
        ensures
            final(out)@ == old(out)@ + self.shown(*r),
    ;
}

/// Writes every rule by its name.
pub struct NoChange;

impl RuleDisplay for NoChange {
    open spec fn shown(&self, r: Rule) -> Seq<u8> {
        r.name()
    }

    fn rule_as_display(&self, r: &Rule, out: &mut Vec<u8>) {
        r.push_name(out);
    }
}

/// A diagnostic that is ready to be written out.
pub struct SpanErrorDisplay<'a> {
    pub position: ErrorLocation,
    pub file: FileRef<'a>,
    pub kind: ErrorKind,
    pub message: Vec<u8>,
    pub note: Option<&'a str>,
}

/// What is written at `span` in the text; nothing where the span does not
/// lie in it.
pub open spec fn written_at(bytes: Seq<u8>, span: Span) -> Seq<u8> {
    if span.start <= span.end <= bytes.len() {
        bytes.subrange(span.start as int, span.end as int)
    } else {
        Seq::empty()
    }
}

/// The message for a problem with what is written as `subject`.
pub open spec fn problem_message(problem: Problem, subject: Seq<u8>) -> Seq<u8> {
    match problem {
        Problem::UndefinedSymbol => "symbol `".spec_bytes() + subject + "` is undefined".spec_bytes(),
        Problem::DuplicateLabel => "symbol `".spec_bytes() + subject
            + "` is already defined".spec_bytes(),
        Problem::Truncation => "expression is bigger than expected, truncating".spec_bytes(),
        Problem::DivisionByZero => "division by zero".spec_bytes(),
        Problem::InvalidOperands => "the operation does not take these operands".spec_bytes(),
        Problem::InvalidSize => "the operation does not take this size".spec_bytes(),
        Problem::InvalidCount => "a negative number of values cannot be reserved".spec_bytes(),
        Problem::AddressOverflow => "the code does not fit in the address space".spec_bytes(),
        Problem::MissingInclude => "the included file was not handed in".spec_bytes(),
    }
}

/// The note that goes with a problem, where one does.
pub open spec fn problem_note(problem: Problem) -> Option<&'static str> {
    match problem {
        Problem::UndefinedSymbol => Some(
            "Maybe it is on an expression for ORG, in which case the symbol has to be defined before this line",
        ),
        _ => None,
    }
}

/// The message for a text that does not parse.
pub open spec fn parse_message<RD: RuleDisplay>(problem: ParseProblem, rd: &RD) -> Seq<u8> {
    match problem {
        ParseProblem::Expected(rule) => "expected ".spec_bytes() + rd.shown(rule),
        ParseProblem::Unexpected(rule) => "unexpected ".spec_bytes() + rd.shown(rule),
        ParseProblem::LiteralOverflow => "number does not fit in 32 bits".spec_bytes(),
    }
}

/// Appends what is written at `span` in the text.
fn push_written(out: &mut Vec<u8>, text: &str, span: Span)
    ensures
        final(out)@ == old(out)@ + written_at(text.spec_bytes(), span),
{
    let bytes = text.as_bytes();
    if span.start <= span.end && span.end <= bytes.len() {
        push_slice(out, bytes, span.start, span.end);
    } else {
        assert(out@ =~= old(out)@ + Seq::<u8>::empty());
    }
}

impl<'a> SpanErrorDisplay<'a> {
    /// Whether this is the diagnostic `d`, which points into `file`, ready
    /// to be written out: it points at what `d` points at, and its message
    /// and its note are those of the problem of `d`.
    pub open spec fn shows(self, d: Diagnostic, file: FileRef<'a>) -> bool {
        &&& self.position == ErrorLocation::Span(d.span.start, d.span.end)
        &&& self.file == file
        &&& self.kind == d.kind
        &&& self.message@ == problem_message(d.problem, written_at(file.str.spec_bytes(), d.span))
        &&& self.note == problem_note(d.problem)
    }

    /// The diagnostic for `d`, which points into `file`.
    pub fn from_diagnostic(d: &Diagnostic, file: FileRef<'a>) -> (res: Self)
        ensures
            res.shows(*d, file),
    {
        let mut message: Vec<u8> = Vec::new();
        let mut note: Option<&'a str> = None;
        match d.problem {
            Problem::UndefinedSymbol => {
                push_str(&mut message, "symbol `");
                push_written(&mut message, file.str, d.span);
                push_str(&mut message, "` is undefined");
                note = Some(
                    "Maybe it is on an expression for ORG, in which case the symbol has to be defined before this line",
                );
            },
            Problem::DuplicateLabel => {
                push_str(&mut message, "symbol `");
                push_written(&mut message, file.str, d.span);
                push_str(&mut message, "` is already defined");
            },
            Problem::Truncation => push_str(
                &mut message,
                "expression is bigger than expected, truncating",
            ),
            Problem::DivisionByZero => push_str(&mut message, "division by zero"),
            Problem::InvalidOperands => push_str(
                &mut message,
                "the operation does not take these operands",
            ),
            Problem::InvalidSize => push_str(&mut message, "the operation does not take this size"),
            Problem::InvalidCount => push_str(
                &mut message,
                "a negative number of values cannot be reserved",
            ),
            Problem::AddressOverflow => push_str(
                &mut message,
                "the code does not fit in the address space",
            ),
            Problem::MissingInclude => push_str(&mut message, "the included file was not handed in"),
        }
        assert(message@ =~= problem_message(d.problem, written_at(file.str.spec_bytes(), d.span)));
        SpanErrorDisplay {
            position: ErrorLocation::Span(d.span.start, d.span.end),
            file,
            kind: d.kind,
            message,
            note,
        }
    }

    /// The diagnostic for the undefined symbol `e`, which is written in
    /// `file`.
    pub fn from_symbol_error(e: &SymbolError, file: FileRef<'a>) -> (res: Self)
        ensures
            res.shows(
                Diagnostic {
                    kind: ErrorKind::Error,
                    file: e.file,
                    span: e.symbol_loc,
                    problem: Problem::UndefinedSymbol,
                },
                file,
            ),
    {
        Self::from_diagnostic(
            &Diagnostic {
                kind: ErrorKind::Error,
                file: e.file,
                span: e.symbol_loc,
                problem: Problem::UndefinedSymbol,
            },
            file,
        )
    }

    /// The diagnostic for the text of `file`, which does not parse; the
    /// rules are written as `rd` writes them.
    pub fn from_parse_error<RD: RuleDisplay>(e: &ParseError, file: FileRef<'a>, rd: &RD) -> (res:
        Self)
        ensures
            res.position == e.location,
            res.file == file,
            res.kind == ErrorKind::Error,
            res.message@ == parse_message(e.problem, rd),
            res.note is None,
    {
        let mut message: Vec<u8> = Vec::new();
        match e.problem {
            ParseProblem::Expected(rule) => {
                push_str(&mut message, "expected ");
                rd.rule_as_display(&rule, &mut message);
            },
            ParseProblem::Unexpected(rule) => {
                push_str(&mut message, "unexpected ");
                rd.rule_as_display(&rule, &mut message);
            },
            ParseProblem::LiteralOverflow => push_str(&mut message, "number does not fit in 32 bits"),
        }
        assert(message@ =~= parse_message(e.problem, rd));
        SpanErrorDisplay { position: e.location, file, kind: ErrorKind::Error, message, note: None }
    }
}

impl CodeError {
    /// The diagnostics for this error of the statement that is written at
    /// `span` in `file`, ready to be written out: one for each undefined
    /// symbol, else one for the statement.
    pub fn as_display<'a>(&self, span: Span, file: FileRef<'a>) -> (res: Vec<SpanErrorDisplay<'a>>)
        ensures
            res@.len() == self@.reports(span, 0).len(),
            forall|i: int|
                0 <= i < res@.len() ==> (#[trigger] res@[i]).shows(self@.reports(span, 0)[i], file),
    {
        let mut found: Vec<Diagnostic> = Vec::new();
        self.report(&mut found, span, 0);
        assert(found@ =~= self@.reports(span, 0));
        let mut res: Vec<SpanErrorDisplay<'a>> = Vec::new();
        let mut i: usize = 0;
        while i < found.len()
            invariant
                i <= found.len(),
                res@.len() == i,
                forall|j: int| 0 <= j < i ==> (#[trigger] res@[j]).shows(found@[j], file),
            decreases found.len() - i,
        {
            res.push(SpanErrorDisplay::from_diagnostic(&found[i], file));
            i += 1;
        }
        res
    }
}

/// Whether the character in the column `p.1` of the line `p.0` lies from
/// the line and the column `start` up to, not including, those of `end`;
/// where there is no end, whether it lies at `start`.
pub open spec fn is_in_range(
    start: (usize, usize),
    end: Option<(usize, usize)>,
    p: (usize, usize),
) -> bool {
    match end {
        Some(e) => !((p.0 < start.0 || p.0 > e.0) || (start.0 == p.0 && p.1 < start.1) || (e.0
            == p.0 && p.1 >= e.1)),
        None => start.0 == p.0 && start.1 == p.1,
    }
}

/// Whether the character in the column `p.1` of the line `p.0` lies in
/// the range from `start` up to `end`.
pub fn in_range(start: (usize, usize), end: Option<(usize, usize)>, p: (usize, usize)) -> (res:
    bool)
    ensures
        res == is_in_range(start, end, p),
{
    match end {
        Some(e) => !((p.0 < start.0 || p.0 > e.0) || (start.0 == p.0 && p.1 < start.1) || (e.0
            == p.0 && p.1 >= e.1)),
        None => start.0 == p.0 && start.1 == p.1,
    }
}

/// The mark beneath the byte `b`: four times where `b` is a tab, which is
/// written as four spaces.
pub open spec fn tab_wide(b: u8, mark: u8) -> Seq<u8> {
    if b == 0x09 {
        repeat(mark, 4)
    } else {
        seq![mark]
    }
}

/// Appends the mark beneath the byte `b`: four times where `b` is a tab.
pub fn multiply_if_tab(out: &mut Vec<u8>, b: u8, mark: u8)
    ensures
        final(out)@ == old(out)@ + tab_wide(b, mark),
{
    if b == 0x09 {
        push_repeat(out, mark, 4);
    } else {
        out.push(mark);
        assert(out@ =~= old(out)@ + tab_wide(b, mark));
    }
}

/// The line with every tab as four spaces.
pub open spec fn expanded(line: Seq<u8>) -> Seq<u8>
    decreases line.len(),
{
    if line.len() == 0 {
        Seq::empty()
    } else {
        expanded(line.drop_last()) + if line.last() == 0x09 {
            repeat(0x20, 4)
        } else {
            seq![line.last()]
        }
    }
}

/// The marks beneath the bytes of `line` from the `k`-th on, of which the
/// next character is the `column`-th of the line `n`: a caret beneath each
/// character in the range, a space beneath each other one.
pub open spec fn marks(
    line: Seq<u8>,
    k: int,
    n: usize,
    column: usize,
    start: (usize, usize),
    end: Option<(usize, usize)>,
) -> Seq<u8>
    decreases line.len() - k,
{
    if k < 0 || k >= line.len() {
        Seq::empty()
    } else if is_continuation_byte(line[k]) {
        marks(line, k + 1, n, column, start, end)
    } else {
        tab_wide(line[k], if is_in_range(start, end, (n, column)) { 0x5eu8 } else { 0x20u8 })
            + marks(line, k + 1, n, (column + 1) as usize, start, end)
    }
}

/// Where the line that starts at `from` and is ended at `end` stops: before
/// a carriage return that a line feed follows.
pub open spec fn content_end(bytes: Seq<u8>, from: int, end: int) -> int {
    if from < end < bytes.len() && bytes[end - 1] == 0x0d {
        end - 1
    } else {
        end
    }
}

/// What is shown of the line `n`, which reads `line`: where it lies from
/// the line before the range to the line behind it, its number and the
/// line; and where it is a line of the range, the marks beneath it.
pub open spec fn shown_line(
    line: Seq<u8>,
    n: usize,
    start: (usize, usize),
    end: Option<(usize, usize)>,
) -> Seq<u8> {
    let last = match end {
        Some(e) => e.0,
        None => start.0,
    };
    if start.0 <= n + 1 && n <= last + 1 {
        right_aligned(decimal(n as nat), 5) + " | ".spec_bytes() + expanded(line) + seq![0x0au8]
            + if start.0 <= n && n <= last {
            repeat(0x20, 5) + " | ".spec_bytes() + marks(line, 0, n, 1, start, end) + seq![0x0au8]
        } else {
            Seq::empty()
        }
    } else {
        Seq::empty()
    }
}

/// What is shown of the lines of the text from the position `from` on,
/// which is where the line `n` starts.
pub open spec fn excerpt(
    bytes: Seq<u8>,
    from: int,
    n: usize,
    start: (usize, usize),
    end: Option<(usize, usize)>,
) -> Seq<u8>
    decreases bytes.len() - from,
{
    if from < 0 || from >= bytes.len() {
        Seq::empty()
    } else {
        let stop = line_end(bytes, from);
        shown_line(bytes.subrange(from, content_end(bytes, from, stop)), n, start, end) + if stop
            < bytes.len() {
            excerpt(bytes, stop + 1, (n + 1) as usize, start, end)
        } else {
            Seq::empty()
        }
    }
}

/// The line and the column of the position `pos`; the first of both where
/// the position does not lie at a character of the text.
pub open spec fn line_col(bytes: Seq<u8>, pos: usize) -> (usize, usize) {
    if vstd::utf8::is_char_boundary(bytes, pos as int) {
        (line_at(bytes, pos as int) as usize, column_at(bytes, pos as int) as usize)
    } else {
        (1, 1)
    }
}

/// The line and the column of the end of a location, where it has one that
/// lies at a character of the text.
pub open spec fn end_line_col(bytes: Seq<u8>, last: Option<usize>) -> Option<(usize, usize)> {
    match last {
        Some(pos) => if vstd::utf8::is_char_boundary(bytes, pos as int) {
            Some((line_at(bytes, pos as int) as usize, column_at(bytes, pos as int) as usize))
        } else {
            None
        },
        None => None,
    }
}

/// The text of a diagnostic: its kind, its message and the path, the line
/// and the column that it points at; the lines of the source around them;
/// and its note.
pub open spec fn diagnostic_text(
    kind: ErrorKind,
    message: Seq<u8>,
    note: Option<&str>,
    position: ErrorLocation,
    path: &str,
    text: &str,
) -> Seq<u8> {
    let bytes = text.spec_bytes();
    let start = line_col(bytes, position.first());
    let end = end_line_col(bytes, position.last());
    kind.text() + seq![0x20u8] + message + " -> ".spec_bytes() + path.spec_bytes() + seq![0x3au8]
        + decimal(start.0 as nat) + seq![0x3au8] + decimal(start.1 as nat) + seq![0x0au8] + (
    if bytes.len() < usize::MAX {
        excerpt(bytes, 0, 1, start, end)
    } else {
        Seq::empty()
    }) + match note {
        Some(n) => "note: ".spec_bytes() + n.spec_bytes() + seq![0x0au8],
        None => Seq::empty(),
    }
}

/// Appends the bytes from `from` up to `to`, every tab as four spaces.
fn push_expanded(out: &mut Vec<u8>, bytes: &[u8], from: usize, to: usize)
    requires
        from <= to <= bytes@.len(),
    ensures
        final(out)@ == old(out)@ + expanded(bytes@.subrange(from as int, to as int)),
{
    let mut i: usize = from;
    assert(bytes@.subrange(from as int, from as int) =~= Seq::<u8>::empty());
    assert(out@ =~= old(out)@ + expanded(bytes@.subrange(from as int, from as int)));
    while i < to
        invariant
            from <= i <= to <= bytes@.len(),
            out@ == old(out)@ + expanded(bytes@.subrange(from as int, i as int)),
        decreases to - i,
    {
        assert(bytes@.subrange(from as int, i + 1).drop_last() =~= bytes@.subrange(
            from as int,
            i as int,
        ));
        if bytes[i] == 0x09 {
            push_repeat(out, 0x20, 4);
        } else {
            out.push(bytes[i]);
        }
        i += 1;
        assert(out@ =~= old(out)@ + expanded(bytes@.subrange(from as int, i as int)));
    }
}

/// Appends the marks beneath the bytes from `from` up to `to`, which are
/// the line `n`.
fn push_marks(
    out: &mut Vec<u8>,
    bytes: &[u8],
    from: usize,
    to: usize,
    n: usize,
    start: (usize, usize),
    end: Option<(usize, usize)>,
)
    requires
        from <= to <= bytes@.len(),
        bytes@.len() < usize::MAX,
    ensures
        final(out)@ == old(out)@ + marks(
            bytes@.subrange(from as int, to as int),
            0,
            n,
            1,
            start,
            end,
        ),
{
    let ghost line = bytes@.subrange(from as int, to as int);
    let ghost mut done: Seq<u8> = Seq::empty();
    let mut column: usize = 1;
    let mut k: usize = from;
    assert(out@ =~= old(out)@ + done);
    while k < to
        invariant
            from <= k <= to <= bytes@.len(),
            bytes@.len() < usize::MAX,
            line == bytes@.subrange(from as int, to as int),
            column <= k - from + 1,
            out@ == old(out)@ + done,
            done + marks(line, k - from, n, column, start, end) == marks(line, 0, n, 1, start, end),
        decreases to - k,
    {
        let b: u8 = bytes[k];
        assert(line[k - from] == b);
        if 0x80 <= b && b <= 0xbf {
            k += 1;
        } else {
            let mark: u8 = if in_range(start, end, (n, column)) { 0x5e } else { 0x20 };
            multiply_if_tab(out, b, mark);
            proof {
                assert((done + tab_wide(b, mark)) + marks(
                    line,
                    k - from + 1,
                    n,
                    (column + 1) as usize,
                    start,
                    end,
                ) =~= done + marks(line, k - from, n, column, start, end));
                done = done + tab_wide(b, mark);
                assert(out@ =~= old(out)@ + done);
            }
            column += 1;
            k += 1;
        }
    }
    assert(done =~= done + marks(line, k - from, n, column, start, end));
}

/// Appends what is shown of the line `n`, which lies from `from` up to
/// `to`.
fn push_shown_line(
    out: &mut Vec<u8>,
    bytes: &[u8],
    from: usize,
    to: usize,
    n: usize,
    start: (usize, usize),
    end: Option<(usize, usize)>,
)
    requires
        from <= to <= bytes@.len(),
        bytes@.len() < usize::MAX,
        n < usize::MAX,
    ensures
        final(out)@ == old(out)@ + shown_line(
            bytes@.subrange(from as int, to as int),
            n,
            start,
            end,
        ),
{
    let last: usize = match end {
        Some(e) => e.0,
        None => start.0,
    };
    let ghost line = bytes@.subrange(from as int, to as int);
    if start.0 <= n + 1 && (last == usize::MAX || n <= last + 1) {
        let mut number: Vec<u8> = Vec::new();
        push_decimal(&mut number, n);
        assert(number@ =~= decimal(n as nat));
        push_right_aligned(out, &number, 5);
        push_str(out, " | ");
        push_expanded(out, bytes, from, to);
        out.push(0x0a);
        let ghost first = right_aligned(decimal(n as nat), 5) + " | ".spec_bytes() + expanded(line)
            + seq![0x0au8];
        assert(out@ =~= old(out)@ + first);
        if start.0 <= n && n <= last {
            push_repeat(out, 0x20, 5);
            push_str(out, " | ");
            push_marks(out, bytes, from, to, n, start, end);
            out.push(0x0a);
            assert(out@ =~= old(out)@ + (first + (repeat(0x20, 5) + " | ".spec_bytes() + marks(
                line,
                0,
                n,
                1,
                start,
                end,
            ) + seq![0x0au8])));
        } else {
            assert(out@ =~= old(out)@ + (first + Seq::<u8>::empty()));
        }
    } else {
        assert(out@ =~= old(out)@ + Seq::<u8>::empty());
    }
}

impl<'a> SpanErrorDisplay<'a> {
    /// The line and the column of the start of the location, and those of
    /// its end.
    fn corners(&self) -> (res: ((usize, usize), Option<(usize, usize)>))
        ensures
            res.0 == line_col(self.file.str.spec_bytes(), self.position.first()),
            res.1 == end_line_col(self.file.str.spec_bytes(), self.position.last()),
    {
        let (first, last) = self.position.split();
        let start: (usize, usize) = match position_line_col(self.file.str, first) {
            Some(found) => found,
            None => (1, 1),
        };
        let end: Option<(usize, usize)> = match last {
            Some(pos) => position_line_col(self.file.str, pos),
            None => None,
        };
        (start, end)
    }

    /// The text of the diagnostic.
    pub fn render(&self) -> (out: Vec<u8>)
        ensures
            out@ == diagnostic_text(
                self.kind,
                self.message@,
                self.note,
                self.position,
                self.file.path,
                self.file.str,
            ),
    {
        let (start, end) = self.corners();
        let bytes = self.file.str.as_bytes();
        let mut out: Vec<u8> = Vec::new();
        self.kind.push_text(&mut out);
        out.push(0x20);
        push_slice(&mut out, self.message.as_slice(), 0, self.message.len());
        assert(self.message@.subrange(0, self.message@.len() as int) =~= self.message@);
        push_str(&mut out, " -> ");
        push_str(&mut out, self.file.path);
        out.push(0x3a);
        push_decimal(&mut out, start.0);
        out.push(0x3a);
        push_decimal(&mut out, start.1);
        out.push(0x0a);
        let ghost head = self.kind.text() + seq![0x20u8] + self.message@ + " -> ".spec_bytes()
            + self.file.path.spec_bytes() + seq![0x3au8] + decimal(start.0 as nat) + seq![0x3au8]
            + decimal(start.1 as nat) + seq![0x0au8];
        assert(out@ =~= head);
        let ghost mut done: Seq<u8> = Seq::empty();
        if bytes.len() < usize::MAX {
            let mut from: usize = 0;
            let mut n: usize = 1;
            assert(out@ =~= head + done);
            while from < bytes.len()
                invariant
                    bytes@ == self.file.str.spec_bytes(),
                    bytes@.len() < usize::MAX,
                    from <= bytes@.len() + 1,
                    n <= from + 1,
                    out@ == head + done,
                    done + excerpt(bytes@, from as int, n, start, end) == excerpt(
                        bytes@,
                        0,
                        1,
                        start,
                        end,
                    ),
                decreases bytes@.len() + 1 - from,
            {
                let stop: usize = find_line_end(bytes, from);
                let content: usize = if from < stop && stop < bytes.len() && bytes[stop - 1]
                    == 0x0d {
                    stop - 1
                } else {
                    stop
                };
                let ghost line = bytes@.subrange(from as int, content as int);
                let ghost before = out@;
                push_shown_line(&mut out, bytes, from, content, n, start, end);
                let ghost this = shown_line(line, n, start, end);
                assert(out@ == before + this);
                let ghost rest = if stop < bytes@.len() {
                    excerpt(bytes@, stop + 1, (n + 1) as usize, start, end)
                } else {
                    Seq::empty()
                };
                assert(excerpt(bytes@, from as int, n, start, end) == this + rest);
                proof {
                    assert((done + this) + rest =~= done + (this + rest));
                    done = done + this;
                    assert(out@ =~= head + done);
                }
                n = n + 1;
                from = stop + 1;
            }
            assert(done =~= done + excerpt(bytes@, from as int, n, start, end));
        }
        let ghost body = if bytes@.len() < usize::MAX {
            excerpt(bytes@, 0, 1, start, end)
        } else {
            Seq::empty()
        };
        assert(out@ =~= head + body);
        match self.note {
            Some(note) => {
                push_str(&mut out, "note: ");
                push_str(&mut out, note);
                out.push(0x0a);
                assert(out@ =~= head + body + ("note: ".spec_bytes() + note.spec_bytes() + seq![
                    0x0au8,
                ]));
            },
            None => {
                assert(out@ =~= head + body + Seq::<u8>::empty());
            },
        }
        out
    }
}

} // verus!
