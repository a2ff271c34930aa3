//! The listing: which line of which file a fragment of the code object
//! belongs to, and the table that shows the source beside its code.

use vstd::prelude::*;
use vstd::string::*;
use crate::ast::Span;
use crate::hex::hex_digits;
use crate::srec::{fragment_views, Fragment};
use crate::text::{
    ascii,
    blank,
    decimal,
    find_line_end,
    is_blank,
    left_aligned,
    line_at,
    line_end,
    position_line_col,
    push_decimal,
    push_hex_number,
    push_left_aligned,
    push_repeat,
    push_right_aligned,
    push_slice,
    push_str,
    repeat,
    right_aligned,
    trim_end,
    trimmed_end,
};

verus! {

/// What a line of a listing shows beside the source.
#[derive(Debug, Clone, Copy, PartialEq, Eq, Structural)]
pub enum CodeRef {
    /// The address and the bytes of the fragment with this index.
    Ref(usize),
    /// The address of the fragment with this index, and no bytes.
    NoCodeFor(usize),
}

/// The index that a list of entries stands for: a later entry for a line
/// replaces an earlier one.
pub open spec fn index_of(entries: Seq<(usize, usize, CodeRef)>) -> Map<(usize, usize), CodeRef>
    decreases entries.len(),
{
    if entries.len() == 0 {
        Map::empty()
    } else {
        index_of(entries.drop_last()).insert(
            (entries.last().0, entries.last().1),
            entries.last().2,
        )
    }
}

/// For a file and a line of it, the fragment of the code object that the
/// line belongs to.
#[derive(Debug, Default, Clone)]
pub struct Listing {
    entries: Vec<(usize, usize, CodeRef)>,
}

impl View for Listing {
    type V = Map<(usize, usize), CodeRef>;

    closed spec fn view(&self) -> Map<(usize, usize), CodeRef> {
        index_of(self.entries@)
    }
}

/// The lines from `line` on that have a byte other than a blank between
/// `from` and `to`, when `from` lies in the line `line` and `seen` says
/// whether that line had such a byte before `from`.
pub open spec fn marked_lines(bytes: Seq<u8>, from: int, to: int, line: usize, seen: bool) -> Seq<
    usize,
>
    decreases to - from,
{
    if from >= to {
        if seen {
            seq![line]
        } else {
            Seq::empty()
        }
    } else if bytes[from] == 0x0a {
        (if seen {
            seq![line]
        } else {
            Seq::empty()
        }) + marked_lines(bytes, from + 1, to, (line + 1) as usize, false)
    } else {
        marked_lines(bytes, from + 1, to, line, seen || !is_blank(bytes[from]))
    }
}

/// The index with an entry `NoCodeFor(idx)` for each of `lines`.
pub open spec fn with_addresses(
    index: Map<(usize, usize), CodeRef>,
    file: usize,
    lines: Seq<usize>,
    idx: usize,
) -> Map<(usize, usize), CodeRef>
    decreases lines.len(),
{
    if lines.len() == 0 {
        index
    } else {
        with_addresses(index, file, lines.drop_last(), idx).insert(
            (file, lines.last()),
            CodeRef::NoCodeFor(idx),
        )
    }
}

/// The index with the fragment `idx` on `lines`: the last of them shows its
/// bytes, the others its address alone.
pub open spec fn with_fragment(
    index: Map<(usize, usize), CodeRef>,
    file: usize,
    lines: Seq<usize>,
    idx: usize,
) -> Map<(usize, usize), CodeRef> {
    if lines.len() == 0 {
        index
    } else {
        with_addresses(index, file, lines.drop_last(), idx).insert(
            (file, lines.last()),
            CodeRef::Ref(idx),
        )
    }
}

/// The lines of the statement that is written at `span` that are not
/// blank. There are none where the span does not lie in the text, or does
/// not start at a character.
pub open spec fn statement_lines(bytes: Seq<u8>, span: Span) -> Seq<usize> {
    if span.start <= span.end <= bytes.len() && bytes.len() < usize::MAX
        && vstd::utf8::is_char_boundary(bytes, span.start as int) {
        marked_lines(
            bytes,
            span.start as int,
            span.end as int,
            line_at(bytes, span.start as int) as usize,
            false,
        )
    } else {
        Seq::empty()
    }
}

/// A line number is at most one more than the position.
pub proof fn lemma_line_at_bound(bytes: Seq<u8>, pos: int)
    ensures
        1 <= line_at(bytes, pos) <= pos + 1 || (pos < 0 && line_at(bytes, pos) == 1),
    decreases pos,
{
    if !(pos <= 0 || pos > bytes.len()) {
        lemma_line_at_bound(bytes, pos - 1);
    }
}

/// The lines of the statement that is written at `span` that are not blank.
pub fn lines_of_statement(text: &str, span: Span) -> (res: Vec<usize>)
    ensures
        res@ == statement_lines(text.spec_bytes(), span),
{
    let bytes = text.as_bytes();
    let mut res: Vec<usize> = Vec::new();
    if !(span.start <= span.end && span.end <= bytes.len() && bytes.len() < usize::MAX) {
        return res;
    }
    let first: usize = match position_line_col(text, span.start) {
        Some((line, _)) => line,
        None => {
            return res;
        },
    };
    proof {
        lemma_line_at_bound(bytes@, span.start as int);
    }
    let mut line: usize = first;
    let mut seen: bool = false;
    let mut p: usize = span.start;
    assert(res@ + marked_lines(bytes@, p as int, span.end as int, line, seen) =~= marked_lines(
        bytes@,
        span.start as int,
        span.end as int,
        first,
        false,
    ));
    while p < span.end
        invariant
            span.start <= p <= span.end <= bytes@.len(),
            bytes@.len() < usize::MAX,
            line <= p + 1,
            res@ + marked_lines(bytes@, p as int, span.end as int, line, seen) == marked_lines(
                bytes@,
                span.start as int,
                span.end as int,
                first,
                false,
            ),
        decreases span.end - p,
    {
        let ghost before = res@;
        if bytes[p] == 0x0a {
            if seen {
                res.push(line);
            }
            assert(res@ + marked_lines(
                bytes@,
                p + 1,
                span.end as int,
                (line + 1) as usize,
                false,
            ) =~= before + marked_lines(bytes@, p as int, span.end as int, line, seen));
            line = line + 1;
            seen = false;
        } else {
            if !blank(bytes[p]) {
                seen = true;
            }
        }
        p += 1;
    }
    if seen {
        res.push(line);
    }
    assert(res@ =~= marked_lines(bytes@, span.start as int, span.end as int, first, false));
    res
}

impl Listing {
    /// The listing without any line.
    pub fn new() -> (res: Self)
        ensures
            res@ == Map::<(usize, usize), CodeRef>::empty(),
    {
        Listing { entries: Vec::new() }
    }

    /// Lets the line `line` of the file `file` show the address and the
    /// bytes of the fragment `code_idx`.
    pub fn add(&mut self, file: usize, line: usize, code_idx: usize)
        ensures
            final(self)@ == old(self)@.insert((file, line), CodeRef::Ref(code_idx)),
    {
        self.entries.push((file, line, CodeRef::Ref(code_idx)));
        assert(self.entries@.drop_last() =~= old(self).entries@);
    }

    /// Lets the line `line` of the file `file` show the address of the
    /// fragment `addr_idx`, and no bytes.
    pub fn add_no_code(&mut self, file: usize, line: usize, addr_idx: usize)
        ensures
            final(self)@ == old(self)@.insert((file, line), CodeRef::NoCodeFor(addr_idx)),
    {
        self.entries.push((file, line, CodeRef::NoCodeFor(addr_idx)));
        assert(self.entries@.drop_last() =~= old(self).entries@);
    }

    /// What the line `line` of the file `file` shows.
    pub fn get(&self, file: usize, line: usize) -> (res: Option<CodeRef>)
        ensures
            res == if self@.contains_key((file, line)) {
                Some(self@[(file, line)])
            } else {
                None
            },
    {
        let mut i: usize = self.entries.len();
        assert(self.entries@.take(i as int) =~= self.entries@);
        while i > 0
            invariant
                i <= self.entries.len(),
                self@.contains_key((file, line)) == index_of(
                    self.entries@.take(i as int),
                ).contains_key((file, line)),
                self@.contains_key((file, line)) ==> self@[(file, line)] == index_of(
                    self.entries@.take(i as int),
                )[(file, line)],
            decreases i,
        {
            assert(self.entries@.take(i as int).drop_last() =~= self.entries@.take(i - 1));
            i -= 1;
            if self.entries[i].0 == file && self.entries[i].1 == line {
                return Some(self.entries[i].2);
            }
        }
        None
    }

    /// Puts the fragment `idx` on the lines of the statement that is
    /// written at `span` in the text `text` of the file `file`: the last
    /// line that is not blank shows its bytes, the ones before it its
    /// address alone.
    pub fn add_statement(&mut self, file: usize, text: &str, span: Span, idx: usize)
        ensures
            final(self)@ == with_fragment(
                old(self)@,
                file,
                statement_lines(text.spec_bytes(), span),
                idx,
            ),
    {
        let lines = lines_of_statement(text, span);
        if lines.len() == 0 {
            return ;
        }
        let mut i: usize = 0;
        let last: usize = lines.len() - 1;
        assert(lines@.drop_last().take(0) =~= Seq::<usize>::empty());
        while i < last
            invariant
                i <= last,
                last == lines.len() - 1,
                self@ == with_addresses(old(self)@, file, lines@.drop_last().take(i as int), idx),
            decreases last - i,
        {
            assert(lines@.drop_last().take(i + 1).drop_last() =~= lines@.drop_last().take(i as int));
            self.add_no_code(file, lines[i], idx);
            i += 1;
        }
        assert(lines@.drop_last().take(i as int) =~= lines@.drop_last());
        self.add(file, lines[last], idx);
    }

    /// The listing of the file `file`, whose path is `path` and whose text
    /// is `file_str`, against the code object `code_object`.
    pub fn printable<'b>(
        &'b self,
        code_object: &'b Vec<Fragment>,
        file: usize,
        path: &'b str,
        file_str: &'b str,
    ) -> (res: PrintableListing<'b>)
        ensures
            res.listing == self,
            res.code_object == code_object,
            res.file == file,
            res.path == path,
            res.file_str == file_str,
    {
        PrintableListing { listing: self, code_object, file, path, file_str }
    }
}

/// The listing of one file.
pub struct PrintableListing<'a> {
    pub listing: &'a Listing,
    pub code_object: &'a Vec<Fragment>,
    pub file: usize,
    pub path: &'a str,
    pub file_str: &'a str,
}

/// Each byte as two hexadecimal digits, with a space behind every second
/// byte.
pub open spec fn pairs(data: Seq<u8>) -> Seq<u8>
    decreases data.len(),
{
    if data.len() == 0 {
        Seq::empty()
    } else {
        pairs(data.drop_last()) + ascii(hex_digits(data.last() as nat, 2)) + if data.len() % 2
            == 0 {
            seq![0x20u8]
        } else {
            Seq::empty()
        }
    }
}

/// The banner of a file: its path between two spaces, in the middle of a
/// line of 130 `=`. `chars` is the number of characters of the path.
pub open spec fn banner(path: Seq<u8>, chars: int) -> Seq<u8> {
    let fill = 130 - (chars + 2);
    repeat(0x3d, fill / 2) + seq![0x20u8] + path + seq![0x20u8] + repeat(0x3d, fill - fill / 2)
}

/// A row: the address in eight hexadecimal digits, the bytes in a column of
/// 30, the number of the line in a column of five, and the source without
/// the blanks at its end.
pub open spec fn row(pc: u32, data: Seq<u8>, line_no: usize, source: Seq<u8>) -> Seq<u8> {
    ascii(hex_digits(pc as nat, 8)) + seq![0x20u8, 0x20u8] + left_aligned(pairs(data), 30)
        + seq![0x20u8] + right_aligned(decimal(line_no as nat), 5) + seq![0x20u8, 0x20u8] + source
        + seq![0x0au8]
}

/// The address and the bytes that a line shows, where `pc` is the address
/// that the line before it ended at.
pub open spec fn shown(
    entry: Option<CodeRef>,
    code: Seq<(u32, Seq<u8>)>,
    pc: u32,
) -> (u32, Seq<u8>) {
    match entry {
        Some(CodeRef::Ref(idx)) => if idx < code.len() {
            code[idx as int]
        } else {
            (pc, Seq::empty())
        },
        Some(CodeRef::NoCodeFor(idx)) => if idx < code.len() {
            (code[idx as int].0, Seq::empty())
        } else {
            (pc, Seq::empty())
        },
        None => (pc, Seq::empty()),
    }
}

/// The rows of the lines of `bytes` from the position `from` on, which is
/// where the line `line_no` starts.
pub open spec fn rows(
    bytes: Seq<u8>,
    from: int,
    line_no: usize,
    pc: u32,
    index: Map<(usize, usize), CodeRef>,
    file: usize,
    code: Seq<(u32, Seq<u8>)>,
) -> Seq<u8>
    decreases bytes.len() - from,
{
    if from >= bytes.len() || from < 0 {
        Seq::empty()
    } else {
        let end = line_end(bytes, from);
        let entry = if index.contains_key((file, line_no)) {
            Some(index[(file, line_no)])
        } else {
            None
        };
        let (at, data) = shown(entry, code, pc);
        row(at, data, line_no, bytes.subrange(from, trimmed_end(bytes, from, end))) + if end
            < bytes.len() {
            rows(
                bytes,
                end + 1,
                (line_no + 1) as usize,
                ((at + data.len()) % 0x1_0000_0000) as u32,
                index,
                file,
                code,
            )
        } else {
            Seq::empty()
        }
    }
}

/// The listing of a file: an empty line, the banner, an empty line, and a
/// row for each line of the file.
pub open spec fn listing_text(
    path: &str,
    text: &str,
    index: Map<(usize, usize), CodeRef>,
    file: usize,
    code: Seq<(u32, Seq<u8>)>,
) -> Seq<u8> {
    seq![0x0au8] + banner(path.spec_bytes(), path@.len() as int) + seq![0x0au8, 0x0au8] + (if text.spec_bytes().len()
        < usize::MAX {
        rows(text.spec_bytes(), 0, 1, 0, index, file, code)
    } else {
        Seq::empty()
    })
}

/// Appends each byte as two hexadecimal digits, with a space behind every
/// second byte.
fn push_pairs(out: &mut Vec<u8>, data: &Vec<u8>)
    ensures
        final(out)@ == old(out)@ + pairs(data@),
{
    let mut i: usize = 0;
    assert(data@.take(0) =~= Seq::<u8>::empty());
    assert(out@ =~= old(out)@ + pairs(data@.take(0)));
    while i < data.len()
        invariant
            i <= data.len(),
            out@ == old(out)@ + pairs(data@.take(i as int)),
        decreases data.len() - i,
    {
        assert(data@.take(i + 1).drop_last() =~= data@.take(i as int));
        push_hex_number(out, data[i] as u64, 2);
        if i % 2 == 1 {
            out.push(0x20);
        }
        i += 1;
        assert(out@ =~= old(out)@ + pairs(data@.take(i as int)));
    }
    assert(data@.take(i as int) =~= data@);
}

/// Appends a row.
fn push_row(out: &mut Vec<u8>, pc: u32, data: &Vec<u8>, line_no: usize, bytes: &[u8], from: usize, to: usize)
    requires
        from <= to <= bytes@.len(),
    ensures
        final(out)@ == old(out)@ + row(pc, data@, line_no, bytes@.subrange(from as int, to as int)),
{
    push_hex_number(out, pc as u64, 8);
    out.push(0x20);
    out.push(0x20);
    let mut column: Vec<u8> = Vec::new();
    push_pairs(&mut column, data);
    assert(column@ =~= pairs(data@));
    push_left_aligned(out, &column, 30);
    out.push(0x20);
    let mut number: Vec<u8> = Vec::new();
    push_decimal(&mut number, line_no);
    assert(number@ =~= decimal(line_no as nat));
    push_right_aligned(out, &number, 5);
    out.push(0x20);
    out.push(0x20);
    push_slice(out, bytes, from, to);
    out.push(0x0a);
    assert(out@ =~= old(out)@ + row(
        pc,
        data@,
        line_no,
        bytes@.subrange(from as int, to as int),
    ));
}

impl<'a> PrintableListing<'a> {
    /// The address and the bytes that the line `line_no` shows, where `pc`
    /// is the address that the line before it ended at.
    fn shown_at<'b>(&'b self, line_no: usize, pc: u32, empty: &'b Vec<u8>) -> (res: (u32, &'b Vec<u8>))
        requires
            empty@ == Seq::<u8>::empty(),
        ensures
            (res.0, res.1@) == shown(
                if self.listing@.contains_key((self.file, line_no)) {
                    Some(self.listing@[(self.file, line_no)])
                } else {
                    None
                },
                fragment_views(self.code_object@),
                pc,
            ),
    {
        match self.listing.get(self.file, line_no) {
            Some(CodeRef::Ref(idx)) => if idx < self.code_object.len() {
                (self.code_object[idx].0, &self.code_object[idx].1)
            } else {
                (pc, empty)
            },
            Some(CodeRef::NoCodeFor(idx)) => if idx < self.code_object.len() {
                (self.code_object[idx].0, empty)
            } else {
                (pc, empty)
            },
            None => (pc, empty),
        }
    }

    /// The text of the listing.
    pub fn render(&self) -> (out: Vec<u8>)
        ensures
            out@ == listing_text(
                self.path,
                self.file_str,
                self.listing@,
                self.file,
                fragment_views(self.code_object@),
            ),
    {
        let ghost code = fragment_views(self.code_object@);
        let mut out: Vec<u8> = Vec::new();
        out.push(0x0a);
        let chars: usize = self.path.unicode_len();
        let fill: usize = if chars < 128 { 130 - (chars + 2) } else { 0 };
        push_repeat(&mut out, 0x3d, fill / 2);
        out.push(0x20);
        push_str(&mut out, self.path);
        out.push(0x20);
        push_repeat(&mut out, 0x3d, fill - fill / 2);
        out.push(0x0a);
        out.push(0x0a);
        assert(out@ =~= seq![0x0au8] + banner(self.path.spec_bytes(), self.path@.len() as int)
            + seq![0x0au8, 0x0au8]);
        let bytes = self.file_str.as_bytes();
        if bytes.len() == usize::MAX {
            assert(out@ =~= listing_text(self.path, self.file_str, self.listing@, self.file, code));
            return out;
        }
        let ghost head = out@;
        let ghost mut done: Seq<u8> = Seq::empty();
        let empty: Vec<u8> = Vec::new();
        let mut pc: u32 = 0;
        let mut line_no: usize = 1;
        let mut from: usize = 0;
        assert(out@ =~= head + Seq::<u8>::empty());
        while from < bytes.len()
            invariant
                bytes@ == self.file_str.spec_bytes(),
                bytes@.len() < usize::MAX,
                code == fragment_views(self.code_object@),
                from <= bytes@.len() + 1,
                line_no <= from + 1,
                empty@ == Seq::<u8>::empty(),
                out@ == head + done,
                done + rows(bytes@, from as int, line_no, pc, self.listing@, self.file, code)
                    == rows(bytes@, 0, 1, 0, self.listing@, self.file, code),
            decreases bytes@.len() + 1 - from,
        {
            let end: usize = find_line_end(bytes, from);
            let stop: usize = trim_end(bytes, from, end);
            let (at, data): (u32, &Vec<u8>) = self.shown_at(line_no, pc, &empty);
            push_row(&mut out, at, data, line_no, bytes, from, stop);
            let ghost this = row(at, data@, line_no, bytes@.subrange(from as int, stop as int));
            let next_pc: u32 = ((at as u64 + data.len() as u64 % 0x1_0000_0000) % 0x1_0000_0000) as u32;
            assert(next_pc == ((at + data@.len()) % 0x1_0000_0000) as u32);
            assert(out@ =~= head + (done + this));
            let ghost rest = if end < bytes@.len() {
                rows(bytes@, end + 1, (line_no + 1) as usize, next_pc, self.listing@, self.file, code)
            } else {
                Seq::empty()
            };
            assert(rows(bytes@, from as int, line_no, pc, self.listing@, self.file, code) == this
                + rest);
            assert(rest == rows(
                bytes@,
                end + 1,
                (line_no + 1) as usize,
                next_pc,
                self.listing@,
                self.file,
                code,
            ));
            assert((done + this) + rest =~= done + (this + rest));
            proof {
                done = done + this;
            }
            pc = next_pc;
            line_no = line_no + 1;
            from = end + 1;
        }
        assert(done =~= rows(bytes@, 0, 1, 0, self.listing@, self.file, code));
        assert(out@ =~= listing_text(self.path, self.file_str, self.listing@, self.file, code));
        out
    }
}

/// Whether the line `line` has a byte other than a blank between `from`
/// and `to`.
pub open spec fn has_text(bytes: Seq<u8>, from: int, to: int, line: int) -> bool {
    exists|p: int| from <= p < to && !is_blank(#[trigger] bytes[p]) && line_at(bytes, p) == line
}

/// The marked lines are the lines that have text: the line that is being
/// read where it had text before, and the lines that have text from here
/// on.
pub proof fn lemma_marked_lines(
    bytes: Seq<u8>,
    from: int,
    to: int,
    line: usize,
    seen: bool,
    wanted: usize,
)
    requires
        0 <= from <= to <= bytes.len(),
        bytes.len() < usize::MAX,
        line == line_at(bytes, from),
    ensures
        marked_lines(bytes, from, to, line, seen).contains(wanted) <==> (seen && wanted == line)
            || has_text(bytes, from, to, wanted as int),
    decreases to - from,
{
    let all = marked_lines(bytes, from, to, line, seen);
    if from >= to {
        if seen {
            assert(all[0] == line);
        }
    } else {
        lemma_line_at_bound(bytes, from);
        let here = !is_blank(bytes[from]) && line_at(bytes, from) == wanted;
        assert(has_text(bytes, from, to, wanted as int) <==> here || has_text(
            bytes,
            from + 1,
            to,
            wanted as int,
        )) by {
            if has_text(bytes, from, to, wanted as int) {
                let p = choose|p: int|
                    from <= p < to && !is_blank(#[trigger] bytes[p]) && line_at(bytes, p)
                        == wanted;
                if p != from {
                    assert(from + 1 <= p < to && !is_blank(bytes[p]));
                }
            }
            if has_text(bytes, from + 1, to, wanted as int) {
                let p = choose|p: int|
                    from + 1 <= p < to && !is_blank(#[trigger] bytes[p]) && line_at(bytes, p)
                        == wanted;
                assert(from <= p < to && !is_blank(bytes[p]));
            }
            if here {
                assert(from <= from < to && !is_blank(bytes[from]));
            }
        }
        if bytes[from] == 0x0a {
            let rest = marked_lines(bytes, from + 1, to, (line + 1) as usize, false);
            lemma_marked_lines(bytes, from + 1, to, (line + 1) as usize, false, wanted);
            let first: Seq<usize> = if seen {
                seq![line]
            } else {
                Seq::empty()
            };
            assert(all == first + rest);
            if all.contains(wanted) {
                let k = choose|k: int| 0 <= k < all.len() && all[k] == wanted;
                if k >= first.len() {
                    assert(rest[k - first.len()] == wanted);
                }
            }
            if seen && wanted == line {
                assert(all[0] == wanted);
            }
            if rest.contains(wanted) {
                let k = choose|k: int| 0 <= k < rest.len() && rest[k] == wanted;
                assert(all[first.len() + k] == wanted);
            }
        } else {
            lemma_marked_lines(bytes, from + 1, to, line, seen || !is_blank(bytes[from]), wanted);
        }
    }
}

/// The lines of a statement are the lines in which it has text: a line
/// belongs to the lines of the statement that is written at `span` if and
/// only if a byte of the span other than a blank lies in it.
pub proof fn lemma_statement_lines(bytes: Seq<u8>, span: Span, wanted: usize)
    requires
        span.start <= span.end <= bytes.len(),
        bytes.len() < usize::MAX,
        vstd::utf8::is_char_boundary(bytes, span.start as int),
    ensures
        statement_lines(bytes, span).contains(wanted) <==> has_text(
            bytes,
            span.start as int,
            span.end as int,
            wanted as int,
        ),
{
    lemma_line_at_bound(bytes, span.start as int);
    lemma_marked_lines(
        bytes,
        span.start as int,
        span.end as int,
        line_at(bytes, span.start as int) as usize,
        false,
        wanted,
    );
}

} // verus!
