//! Motorola S-records: a code object is cut into records that hold a
//! bounded number of bytes each, and every record is written as a line of
//! hexadecimal digits that ends in a checksum.

use vstd::prelude::*;
use crate::bytes::push_all;
use crate::hex::{hex_bytes, hex_digits, push_hex, push_hex_bytes};

verus! {

/// A range of indices: from `start` up to, not including, `end`.
#[derive(Debug, Clone, Copy, PartialEq, Eq)]
pub struct SliceRange {
    start: usize,
    end: usize,
}

impl SliceRange {
    #[verifier::type_invariant]
    spec fn ordered(self) -> bool {
        self.start <= self.end
    }

    pub closed spec fn first(self) -> usize {
        self.start
    }

    pub closed spec fn limit(self) -> usize {
        self.end
    }

    /// The range from `start` up to `end`, which is empty where `end` is
    /// below `start`.
    pub fn new(start: usize, end: usize) -> (res: Self)
        ensures
            res.first() == start,
            res.limit() == if end < start { start } else { end },
            res.first() <= res.limit(),
    {
        if end < start {
            SliceRange { start, end: start }
        } else {
            SliceRange { start, end }
        }
    }

    /// The index that lies `idx` behind the start of the range.
    pub fn offset_start(&self, idx: usize) -> (res: usize)
        requires
            self.first() + idx <= usize::MAX,
        ensures
            res == self.first() + idx,
    {
        self.start + idx
    }

    /// Whether `idx` lies in the range.
    pub fn contains(&self, idx: usize) -> (res: bool)
        ensures
            res == (self.first() <= idx < self.limit()),
    {
        self.start <= idx && idx < self.end
    }

    /// The first index of the range.
    pub fn start(&self) -> (res: usize)
        ensures
            res == self.first(),
            res <= self.limit(),
    {
        proof {
            use_type_invariant(self);
        }
        self.start
    }

    /// The index behind the last of the range.
    pub fn end(&self) -> (res: usize)
        ensures
            res == self.limit(),
            self.first() <= res,
    {
        proof {
            use_type_invariant(self);
        }
        self.end
    }
}

/// Bytes that are either borrowed or owned.
#[derive(Debug)]
pub enum Buffer<'a> {
    Borrowed(&'a [u8]),
    Owned(Vec<u8>),
}

impl<'a> View for Buffer<'a> {
    type V = Seq<u8>;

    open spec fn view(&self) -> Seq<u8> {
        match self {
            Buffer::Borrowed(bytes) => bytes@,
            Buffer::Owned(bytes) => bytes@,
        }
    }
}

impl<'a> Buffer<'a> {
    /// The bytes.
    pub fn as_slice(&self) -> (res: &[u8])
        ensures
            res@ == self@,
    {
        match self {
            Buffer::Borrowed(bytes) => bytes,
            Buffer::Owned(bytes) => bytes.as_slice(),
        }
    }

    /// The same bytes once more: a borrowed buffer is borrowed again, an
    /// owned one is copied.
    pub fn duplicate(&self) -> (res: Buffer<'a>)
        ensures
            res@ == self@,
    {
        match self {
            Buffer::Borrowed(bytes) => Buffer::Borrowed(bytes),
            Buffer::Owned(bytes) => {
                let mut copy: Vec<u8> = Vec::new();
                let mut i: usize = 0;
                while i < bytes.len()
                    invariant
                        i <= bytes.len(),
                        copy@ == bytes@.subrange(0, i as int),
                    decreases bytes.len() - i,
                {
                    copy.push(bytes[i]);
                    i += 1;
                    assert(copy@ =~= bytes@.subrange(0, i as int));
                }
                assert(bytes@.subrange(0, bytes.len() as int) =~= bytes@);
                Buffer::Owned(copy)
            },
        }
    }
}

/// A part of a buffer of bytes.
#[derive(Debug)]
pub struct SliceMaybeOwned<'a> {
    slice: SliceRange,
    data: Buffer<'a>,
}

impl<'a> View for SliceMaybeOwned<'a> {
    type V = Seq<u8>;

    closed spec fn view(&self) -> Seq<u8> {
        self.data@.subrange(self.slice.first() as int, self.slice.limit() as int)
    }
}

impl<'a> SliceMaybeOwned<'a> {
    #[verifier::type_invariant]
    spec fn within(self) -> bool {
        self.slice.first() <= self.slice.limit() <= self.data@.len()
    }

    /// The whole of `bytes`, borrowed.
    pub fn borrowed(bytes: &'a [u8]) -> (res: Self)
        ensures
            res@ == bytes@,
    {
        let res = SliceMaybeOwned { slice: SliceRange::new(0, bytes.len()), data: Buffer::Borrowed(bytes) };
        assert(res@ =~= bytes@);
        res
    }

    /// The whole of `bytes`, owned.
    pub fn owned(bytes: Vec<u8>) -> (res: SliceMaybeOwned<'a>)
        ensures
            res@ == bytes@,
    {
        let res = SliceMaybeOwned { slice: SliceRange::new(0, bytes.len()), data: Buffer::Owned(bytes) };
        assert(res@ =~= bytes@);
        res
    }

    /// The number of bytes.
    pub fn len(&self) -> (n: usize)
        ensures
            n == self@.len(),
    {
        proof {
            use_type_invariant(self);
        }
        self.slice.end() - self.slice.start()
    }

    /// A copy of the bytes.
    pub fn to_vec(&self) -> (res: Vec<u8>)
        ensures
            res@ == self@,
    {
        proof {
            use_type_invariant(self);
        }
        let bytes = self.data.as_slice();
        let from: usize = self.slice.start();
        let to: usize = self.slice.end();
        let mut res: Vec<u8> = Vec::new();
        let mut i: usize = from;
        assert(res@ =~= bytes@.subrange(from as int, from as int));
        while i < to
            invariant
                from <= i <= to <= bytes@.len(),
                res@ == bytes@.subrange(from as int, i as int),
            decreases to - i,
        {
            res.push(bytes[i]);
            i += 1;
            assert(res@ =~= bytes@.subrange(from as int, i as int));
        }
        res
    }

    /// The bytes before `idx` and the bytes from `idx` on.
    pub fn split(self, idx: usize) -> (res: (SliceMaybeOwned<'a>, SliceMaybeOwned<'a>))
        requires
            idx <= self@.len(),
        ensures
            res.0@ == self@.take(idx as int),
            res.1@ == self@.skip(idx as int),
    {
        proof {
            use_type_invariant(&self);
        }
        let mid: usize = self.slice.offset_start(idx);
        let b = SliceMaybeOwned { slice: SliceRange::new(mid, self.slice.end()), data: self.data.duplicate() };
        let a = SliceMaybeOwned { slice: SliceRange::new(self.slice.start(), mid), data: self.data };
        assert(a@ =~= self@.take(idx as int));
        assert(b@ =~= self@.skip(idx as int));
        (a, b)
    }

    /// Appends each byte to `out` as two hexadecimal digits.
    pub fn push_hex(&self, out: &mut String)
        ensures
            final(out)@ == old(out)@ + hex_bytes(self@),
    {
        proof {
            use_type_invariant(self);
        }
        push_hex_bytes(out, self.data.as_slice(), self.slice.start(), self.slice.end());
    }

    /// The sum of the bytes, modulo 256.
    pub fn sum_mod_256(&self) -> (res: u8)
        ensures
            res == sum(self@) % 256,
    {
        proof {
            use_type_invariant(self);
        }
        let bytes = self.data.as_slice();
        let from: usize = self.slice.start();
        let to: usize = self.slice.end();
        let mut acc: u8 = 0;
        let mut i: usize = from;
        assert(bytes@.subrange(from as int, from as int) =~= Seq::<u8>::empty());
        while i < to
            invariant
                from <= i <= to <= bytes@.len(),
                acc == sum(bytes@.subrange(from as int, i as int)) % 256,
            decreases to - i,
        {
            assert(bytes@.subrange(from as int, i + 1).drop_last() =~= bytes@.subrange(
                from as int,
                i as int,
            ));
            acc = ((acc as u16 + bytes[i] as u16) % 256) as u8;
            i += 1;
        }
        acc
    }
}

/// The sum of the bytes.
pub open spec fn sum(bytes: Seq<u8>) -> nat
    decreases bytes.len(),
{
    if bytes.len() == 0 {
        0
    } else {
        sum(bytes.drop_last()) + bytes.last() as nat
    }
}

/// The kind of a record.
#[derive(Debug, Clone, Copy, PartialEq, Eq, Structural)]
pub enum RecordKind {
    S0,
    S1,
    S2,
    S3,
    S9,
}

impl RecordKind {
    /// The digit that names the kind.
    pub open spec fn digit(self) -> char {
        match self {
            RecordKind::S0 => '0',
            RecordKind::S1 => '1',
            RecordKind::S2 => '2',
            RecordKind::S3 => '3',
            RecordKind::S9 => '9',
        }
    }

    /// The number of bytes of the address.
    pub open spec fn address_len(self) -> nat {
        match self {
            RecordKind::S2 => 3,
            RecordKind::S3 => 4,
            _ => 2,
        }
    }

    /// The most data bytes that a record of the kind holds, so that its
    /// line keeps within the 80 columns of the budget: 80 less the two
    /// characters of the kind, the two of the count, those of the address
    /// and the two of the checksum.
    pub open spec fn max_data(self) -> nat {
        (80 - (2 + 2 + 2 * self.address_len() + 2)) as nat
    }

    /// Whether the address of a record of the kind holds `addr`.
    pub open spec fn holds(self, addr: u32) -> bool {
        match self {
            RecordKind::S2 => addr <= 0xff_ffff,
            RecordKind::S3 => true,
            _ => addr <= 0xffff,
        }
    }

    /// The kind itself where it holds `addr`, else the kind with the
    /// shortest address that does.
    pub open spec fn widened(self, addr: u32) -> RecordKind {
        if self.holds(addr) {
            self
        } else {
            RecordKind::for_address(addr)
        }
    }

    /// The kind of data record for a record that starts at `addr`: the one
    /// with the shortest address that holds `addr`.
    pub open spec fn for_address(addr: u32) -> RecordKind {
        if addr <= 0xffff {
            RecordKind::S1
        } else if addr <= 0xff_ffff {
            RecordKind::S2
        } else {
            RecordKind::S3
        }
    }
}

/// A record.
#[derive(Debug)]
pub enum Record<'a> {
    /// The header.
    S0,
    /// Data at a 16-bit address.
    S1(u16, SliceMaybeOwned<'a>),
    /// Data at a 24-bit address.
    S2(u32, SliceMaybeOwned<'a>),
    /// Data at a 32-bit address.
    S3(u32, SliceMaybeOwned<'a>),
    /// The terminator.
    S9,
}

/// What a record holds.
pub struct RecordView {
    pub kind: RecordKind,
    pub address: u32,
    pub data: Seq<u8>,
}

impl RecordView {
    /// The data record for `data` at `addr`.
    pub open spec fn data_record(addr: u32, data: Seq<u8>) -> RecordView {
        RecordView { kind: RecordKind::for_address(addr), address: addr, data }
    }

    /// The bytes of the address, most significant first.
    pub open spec fn address_bytes(self) -> Seq<u8> {
        match self.kind {
            RecordKind::S2 => seq![
                (self.address / 0x1_0000 % 0x100) as u8,
                (self.address / 0x100 % 0x100) as u8,
                (self.address % 0x100) as u8,
            ],
            RecordKind::S3 => seq![
                (self.address / 0x100_0000 % 0x100) as u8,
                (self.address / 0x1_0000 % 0x100) as u8,
                (self.address / 0x100 % 0x100) as u8,
                (self.address % 0x100) as u8,
            ],
            _ => seq![(self.address / 0x100 % 0x100) as u8, (self.address % 0x100) as u8],
        }
    }

    /// The count that the record states: the bytes of the address, of the
    /// data and of the checksum.
    pub open spec fn byte_count(self) -> nat {
        self.data.len() + self.kind.address_len() + 1
    }

    /// The checksum: what the low byte of the sum of the count and of the
    /// bytes of the address and of the data lacks to `0xFF`.
    pub open spec fn checksum(self) -> u8 {
        (0xff - (self.byte_count() + sum(self.address_bytes()) + sum(self.data)) % 256) as u8
    }

    /// The line of the record: `S`, the digit of the kind, the count, the
    /// address, the data and the checksum, in hexadecimal.
    pub open spec fn text(self) -> Seq<char> {
        seq!['S', self.kind.digit()] + hex_digits(self.byte_count(), 2) + hex_digits(
            self.address as nat,
            2 * self.kind.address_len(),
        ) + hex_bytes(self.data) + hex_digits(self.checksum() as nat, 2)
    }

    /// The header record, whose one data byte is `0x20`.
    pub open spec fn header() -> RecordView {
        RecordView { kind: RecordKind::S0, address: 0, data: seq![0x20u8] }
    }

    /// The terminator record.
    pub open spec fn terminator() -> RecordView {
        RecordView { kind: RecordKind::S9, address: 0, data: Seq::empty() }
    }
}

impl<'a> View for Record<'a> {
    type V = RecordView;

    open spec fn view(&self) -> RecordView {
        match self {
            Record::S0 => RecordView::header(),
            Record::S1(addr, data) => RecordView {
                kind: RecordKind::S1,
                address: *addr as u32,
                data: data@,
            },
            Record::S2(addr, data) => RecordView {
                kind: RecordKind::S2,
                address: (*addr % 0x100_0000) as u32,
                data: data@,
            },
            Record::S3(addr, data) => RecordView { kind: RecordKind::S3, address: *addr, data: data@ },
            Record::S9 => RecordView::terminator(),
        }
    }
}

/// The records that a data record of the kind `kind` with `data` at `addr`
/// is cut into. Each but the last holds as many bytes as its kind allows,
/// and each starts where the one before it ends. Each has the kind of the
/// one before it, or the kind with the shortest address that holds its
/// own where that kind does not hold it.
pub open spec fn split_from(kind: RecordKind, addr: u32, data: Seq<u8>) -> Seq<RecordView>
    decreases data.len(),
{
    let kind = kind.widened(addr);
    let max = kind.max_data();
    if data.len() > max {
        seq![RecordView { kind, address: addr, data: data.take(max as int) }] + split_from(
            kind,
            (addr + max) as u32,
            data.skip(max as int),
        )
    } else {
        seq![RecordView { kind, address: addr, data }]
    }
}

/// The records that `data` at `addr` is cut into, the first of the kind
/// with the shortest address that holds `addr`.
pub open spec fn split_records(addr: u32, data: Seq<u8>) -> Seq<RecordView> {
    split_from(RecordKind::for_address(addr), addr, data)
}

/// The views of the records of a list.
pub open spec fn views(records: Seq<Record>) -> Seq<RecordView> {
    Seq::new(records.len(), |i: int| records[i]@)
}

/// The sum of the bytes of the address of a record is the sum of the
/// base-256 digits of the address.
pub proof fn lemma_address_sum(r: RecordView)
    requires
        r.kind.address_len() == 2 ==> r.address <= 0xffff,
        r.kind.address_len() == 3 ==> r.address <= 0xff_ffff,
    ensures
        sum(r.address_bytes()) == r.address % 0x100 + r.address / 0x100 % 0x100 + r.address
            / 0x1_0000 % 0x100 + r.address / 0x100_0000 % 0x100,
{
    reveal_with_fuel(sum, 5);
    let bytes = r.address_bytes();
    if r.kind.address_len() == 2 {
        assert(bytes.drop_last() =~= seq![bytes[0]]);
        assert(bytes.drop_last().drop_last() =~= Seq::<u8>::empty());
    } else if r.kind.address_len() == 3 {
        assert(bytes.drop_last() =~= seq![bytes[0], bytes[1]]);
        assert(bytes.drop_last().drop_last() =~= seq![bytes[0]]);
        assert(bytes.drop_last().drop_last().drop_last() =~= Seq::<u8>::empty());
    } else {
        assert(bytes.drop_last() =~= seq![bytes[0], bytes[1], bytes[2]]);
        assert(bytes.drop_last().drop_last() =~= seq![bytes[0], bytes[1]]);
        assert(bytes.drop_last().drop_last().drop_last() =~= seq![bytes[0]]);
        assert(bytes.drop_last().drop_last().drop_last().drop_last() =~= Seq::<u8>::empty());
    }
}

/// The checksum of a record that holds `code`, whose address `addr` is
/// written in `addr_size` bytes.
pub fn checksum(code: &SliceMaybeOwned, addr_size: usize, addr: u32) -> (res: u8)
    requires
        addr_size == 2 || addr_size == 3 || addr_size == 4,
        addr_size == 2 ==> addr <= 0xffff,
        addr_size == 3 ==> addr <= 0xff_ffff,
    ensures
        res == 0xff - (code@.len() + (1 + addr_size + addr % 0x100 + addr / 0x100 % 0x100 + addr
            / 0x1_0000 % 0x100 + addr / 0x100_0000 % 0x100) + sum(code@)) % 256,
{
    let a0: u32 = addr % 0x100;
    let a1: u32 = addr / 0x100 % 0x100;
    let a2: u32 = addr / 0x1_0000 % 0x100;
    let a3: u32 = addr / 0x100_0000 % 0x100;
    let fixed: u32 = 1 + addr_size as u32 + a0 + a1 + a2 + a3;
    let len_low: u32 = (code.len() % 256) as u32;
    let sum_low: u32 = code.sum_mod_256() as u32;
    let total: u32 = len_low + fixed + sum_low;
    proof {
        lemma_low_byte(code@.len(), fixed as nat, sum(code@));
    }
    (0xff - total % 256) as u8
}

/// The low byte of a sum is that of the sum of the low bytes.
proof fn lemma_low_byte(a: nat, b: nat, c: nat)
    ensures
        (a % 256 + b + c % 256) % 256 == (a + b + c) % 256,
{
}

/// The most data bytes that a record of the given kind holds.
fn max_len(kind: RecordKind) -> (max: usize)
    ensures
        max == kind.max_data(),
        66 <= max <= 70,
{
    match kind {
        RecordKind::S2 => 80 - (2 + 2 + 6 + 2),
        RecordKind::S3 => 80 - (2 + 2 + 8 + 2),
        _ => 80 - (2 + 2 + 4 + 2),
    }
}

/// The kind itself where it holds `addr`, else the kind with the shortest
/// address that does.
fn widen(kind: RecordKind, addr: u32) -> (res: RecordKind)
    requires
        kind == RecordKind::S1 || kind == RecordKind::S2 || kind == RecordKind::S3,
    ensures
        res == kind.widened(addr),
        res == RecordKind::S1 || res == RecordKind::S2 || res == RecordKind::S3,
        res.holds(addr),
{
    let fits = match kind {
        RecordKind::S2 => addr <= 0xff_ffff,
        RecordKind::S3 => true,
        _ => addr <= 0xffff,
    };
    if fits {
        kind
    } else if addr <= 0xffff {
        RecordKind::S1
    } else if addr <= 0xff_ffff {
        RecordKind::S2
    } else {
        RecordKind::S3
    }
}

impl<'a> Record<'a> {
    /// The data record for `code` at `addr`.
    pub fn new(addr: u32, code: SliceMaybeOwned<'a>) -> (res: Record<'a>)
        ensures
            res@ == RecordView::data_record(addr, code@),
    {
        if addr <= 0xffff {
            Record::S1(addr as u16, code)
        } else if addr <= 0xff_ffff {
            Record::S2(addr, code)
        } else {
            Record::S3(addr, code)
        }
    }

    /// The data record of the given kind for `code` at `addr`.
    fn of_kind(kind: RecordKind, addr: u32, code: SliceMaybeOwned<'a>) -> (res: Record<'a>)
        requires
            kind == RecordKind::S1 || kind == RecordKind::S2 || kind == RecordKind::S3,
            kind == RecordKind::S1 ==> addr <= 0xffff,
            kind == RecordKind::S2 ==> addr <= 0xff_ffff,
        ensures
            res@ == (RecordView { kind, address: addr, data: code@ }),
    {
        match kind {
            RecordKind::S1 => Record::S1(addr as u16, code),
            RecordKind::S2 => Record::S2(addr, code),
            _ => Record::S3(addr, code),
        }
    }

    /// Cuts a data record into records that hold no more bytes than their
    /// kind allows; a header or a terminator is handed back as it is.
    pub fn split_max_len(self) -> (res: Vec<Record<'a>>)
        requires
            self@.address + self@.data.len() <= 0x1_0000_0000,
        ensures
            self@.kind == RecordKind::S0 || self@.kind == RecordKind::S9 ==> views(res@) == seq![
                self@,
            ],
            self@.kind != RecordKind::S0 && self@.kind != RecordKind::S9 ==> views(res@)
                == split_from(self@.kind, self@.address, self@.data),
            forall|i: int|
                0 <= i < res@.len() ==> self@.kind != RecordKind::S0 && self@.kind
                    != RecordKind::S9 ==> (#[trigger] res@[i])@.data.len() <= (
                res@[i])@.kind.max_data(),
    {
        let ghost whole = self@;
        let mut res: Vec<Record<'a>> = Vec::new();
        let (first, addr, code): (RecordKind, u32, SliceMaybeOwned<'a>) = match self {
            Record::S0 => {
                res.push(Record::S0);
                assert(views(res@) =~= seq![whole]);
                return res;
            },
            Record::S9 => {
                res.push(Record::S9);
                assert(views(res@) =~= seq![whole]);
                return res;
            },
            Record::S1(addr, code) => (RecordKind::S1, addr as u32, code),
            Record::S2(addr, code) => (RecordKind::S2, addr % 0x100_0000, code),
            Record::S3(addr, code) => (RecordKind::S3, addr, code),
        };
        assert(whole == RecordView { kind: first, address: addr, data: code@ });
        let mut kind: RecordKind = first;
        let mut addr: u32 = addr;
        let mut rest: SliceMaybeOwned<'a> = code;
        assert(views(res@) + split_from(kind, addr, rest@) =~= split_from(
            whole.kind,
            whole.address,
            whole.data,
        ));
        loop
            invariant
                whole == self@,
                whole.kind != RecordKind::S0 && whole.kind != RecordKind::S9,
                kind == RecordKind::S1 || kind == RecordKind::S2 || kind == RecordKind::S3,
                addr + rest@.len() <= 0x1_0000_0000,
                forall|i: int|
                    0 <= i < res@.len() ==> (#[trigger] res@[i])@.data.len() <= (
                    res@[i])@.kind.max_data(),
                views(res@) + split_from(kind, addr, rest@) == split_from(
                    whole.kind,
                    whole.address,
                    whole.data,
                ),
            decreases rest@.len(),
        {
            let here: RecordKind = widen(kind, addr);
            let max: usize = max_len(here);
            let ghost before = views(res@);
            let ghost tail = rest@;
            if rest.len() > max {
                let (a, b) = rest.split(max);
                res.push(Record::of_kind(here, addr, a));
                assert(views(res@) =~= before + seq![
                    RecordView { kind: here, address: addr, data: tail.take(max as int) },
                ]);
                assert((before + seq![
                    RecordView { kind: here, address: addr, data: tail.take(max as int) },
                ]) + split_from(here, (addr + max) as u32, tail.skip(max as int)) =~= before
                    + split_from(kind, addr, tail));
                kind = here;
                addr = addr + max as u32;
                rest = b;
            } else {
                res.push(Record::of_kind(here, addr, rest));
                assert(views(res@) =~= before + seq![
                    RecordView { kind: here, address: addr, data: tail },
                ]);
                return res;
            }
        }
    }

    /// The line of the record.
    pub fn to_string(&self) -> (res: String)
        ensures
            res@ == self@.text(),
    {
        let mut out = String::new();
        self.push_text(&mut out);
        out
    }

    /// Appends the line of the record to `out`.
    pub fn push_text(&self, out: &mut String)
        ensures
            final(out)@ == old(out)@ + self@.text(),
    {
        out.push('S');
        match self {
            Record::S0 => {
                out.push('0');
                let data: [u8; 1] = [0x20u8];
                let code = SliceMaybeOwned::borrowed(data.as_slice());
                assert(code@ =~= seq![0x20u8]);
                push_hex(out, code.len() as u128 + 3, 2);
                push_hex(out, 0, 4);
                code.push_hex(out);
                let check = checksum(&code, 2, 0);
                proof {
                    lemma_address_sum(self@);
                }
                push_hex(out, check as u128, 2);
            },
            Record::S1(addr, code) => {
                out.push('1');
                push_hex(out, code.len() as u128 + 3, 2);
                push_hex(out, *addr as u128, 4);
                code.push_hex(out);
                let check = checksum(code, 2, *addr as u32);
                proof {
                    lemma_address_sum(self@);
                }
                push_hex(out, check as u128, 2);
            },
            Record::S2(addr, code) => {
                out.push('2');
                let addr: u32 = *addr % 0x100_0000;
                push_hex(out, code.len() as u128 + 4, 2);
                push_hex(out, addr as u128, 6);
                code.push_hex(out);
                let check = checksum(code, 3, addr);
                proof {
                    lemma_address_sum(self@);
                }
                push_hex(out, check as u128, 2);
            },
            Record::S3(addr, code) => {
                out.push('3');
                push_hex(out, code.len() as u128 + 5, 2);
                push_hex(out, *addr as u128, 8);
                code.push_hex(out);
                let check = checksum(code, 4, *addr);
                proof {
                    lemma_address_sum(self@);
                }
                push_hex(out, check as u128, 2);
            },
            Record::S9 => {
                out.push('9');
                let code = SliceMaybeOwned::owned(Vec::new());
                assert(code@ =~= Seq::<u8>::empty());
                push_hex(out, 3, 2);
                push_hex(out, 0, 4);
                code.push_hex(out);
                let check = checksum(&code, 2, 0);
                proof {
                    lemma_address_sum(self@);
                }
                push_hex(out, check as u128, 2);
            },
        }
        assert(out@ =~= old(out)@ + self@.text());
    }
}

/// The checksum of a record and the sum of its count and of the bytes of
/// its address and of its data come to `0xFF` modulo 256.
pub proof fn lemma_checksum_complements(r: RecordView)
    ensures
        (r.checksum() + (r.byte_count() + sum(r.address_bytes()) + sum(r.data))) % 256 == 0xff,
{
}

/// A fragment of a code object: an address, and the bytes placed there.
pub type Fragment = (u32, Vec<u8>);

/// What the fragments of a code object hold.
pub open spec fn fragment_views(code: Seq<Fragment>) -> Seq<(u32, Seq<u8>)> {
    Seq::new(code.len(), |i: int| (code[i].0, code[i].1@))
}

/// The fragments with each run of fragments joined, in which every
/// fragment starts where the one before it ends.
pub open spec fn groups(fragments: Seq<(u32, Seq<u8>)>) -> Seq<(u32, Seq<u8>)>
    decreases fragments.len(),
{
    if fragments.len() == 0 {
        Seq::empty()
    } else {
        let before = groups(fragments.drop_last());
        let next = fragments.last();
        if before.len() > 0 && before.last().0 + before.last().1.len() == next.0 {
            before.drop_last().push((before.last().0, before.last().1 + next.1))
        } else {
            before.push(next)
        }
    }
}

/// The data records of the groups, in order.
pub open spec fn group_records(groups: Seq<(u32, Seq<u8>)>) -> Seq<RecordView>
    decreases groups.len(),
{
    if groups.len() == 0 {
        Seq::empty()
    } else {
        group_records(groups.drop_last()) + split_records(groups.last().0, groups.last().1)
    }
}

/// The records of a code object: the header, the data records of its
/// groups, the terminator.
pub open spec fn object_records(fragments: Seq<(u32, Seq<u8>)>) -> Seq<RecordView> {
    seq![RecordView::header()] + group_records(groups(fragments)) + seq![RecordView::terminator()]
}

/// The lines of the records, each ended by a line feed.
pub open spec fn lines(records: Seq<RecordView>) -> Seq<char>
    decreases records.len(),
{
    if records.len() == 0 {
        Seq::empty()
    } else {
        lines(records.drop_last()) + records.last().text() + seq!['\n']
    }
}

/// The S-records of a code object.
#[derive(Debug)]
pub struct SRec<'a>(pub Vec<Record<'a>>);

impl<'a> View for SRec<'a> {
    type V = Seq<RecordView>;

    open spec fn view(&self) -> Seq<RecordView> {
        views(self.0@)
    }
}

/// Appends the records that `buffer` at `start` is cut into.
fn flush<'a>(res: &mut Vec<Record<'a>>, start: u32, buffer: Vec<u8>)
    requires
        start + buffer@.len() <= 0x1_0000_0000,
    ensures
        views(final(res)@) == views(old(res)@) + split_records(start, buffer@),
{
    let mut part = Record::new(start, SliceMaybeOwned::owned(buffer)).split_max_len();
    let ghost added = views(part@);
    res.append(&mut part);
    assert(views(res@) =~= views(old(res)@) + added);
}

impl<'a> SRec<'a> {
    /// The records of the code object `code`.
    pub fn new(code: &Vec<Fragment>) -> (res: SRec<'a>)
        requires
            forall|i: int| 0 <= i < code@.len() ==> (#[trigger] code@[i]).0 + code@[i].1@.len() <= 0x1_0000_0000,
        ensures
            res@ == object_records(fragment_views(code@)),
    {
        let ghost fragments = fragment_views(code@);
        let mut res: Vec<Record<'a>> = Vec::new();
        res.push(Record::S0);
        let mut current: Option<Fragment> = None;
        let ghost mut done: Seq<(u32, Seq<u8>)> = Seq::empty();
        let mut i: usize = 0;
        assert(fragments.take(0) =~= Seq::empty());
        assert(views(res@) =~= seq![RecordView::header()] + group_records(done));
        while i < code.len()
            invariant
                i <= code.len(),
                fragments == fragment_views(code@),
                forall|j: int| 0 <= j < code@.len() ==> (#[trigger] code@[j]).0 + code@[j].1@.len() <= 0x1_0000_0000,
                groups(fragments.take(i as int)) == done + (match current {
                    Some(f) => seq![(f.0, f.1@)],
                    None => Seq::empty(),
                }),
                current is None ==> i == 0,
                current matches Some(f) ==> f.0 + f.1@.len() <= 0x1_0000_0000,
                views(res@) == seq![RecordView::header()] + group_records(done),
            decreases code.len() - i,
        {
            let addr: u32 = code[i].0;
            let ghost next = (addr, code@[i as int].1@);
            assert(fragments.take(i + 1).drop_last() =~= fragments.take(i as int));
            assert(fragments.take(i + 1).last() == next);
            let ghost before = groups(fragments.take(i as int));
            match current {
                Some((start, mut buffer)) => {
                    assert(before.last() == (start, buffer@));
                    assert(before.drop_last() =~= done);
                    if start as u64 + buffer.len() as u64 == addr as u64 {
                        push_all(&mut buffer, &code[i].1);
                        current = Some((start, buffer));
                    } else {
                        flush(&mut res, start, buffer);
                        proof {
                            assert(done.push(before.last()).drop_last() =~= done);
                            done = done.push(before.last());
                            assert(views(res@) =~= seq![RecordView::header()] + group_records(done));
                        }
                        let mut buffer: Vec<u8> = Vec::new();
                        push_all(&mut buffer, &code[i].1);
                        assert(buffer@ =~= next.1);
                        current = Some((addr, buffer));
                        assert(before.push(next) =~= done + seq![next]);
                    }
                },
                None => {
                    let mut buffer: Vec<u8> = Vec::new();
                    push_all(&mut buffer, &code[i].1);
                    assert(buffer@ =~= next.1);
                    current = Some((addr, buffer));
                    assert(before.push(next) =~= done + seq![next]);
                },
            }
            i += 1;
        }
        assert(fragments.take(i as int) =~= fragments);
        match current {
            Some((start, buffer)) => {
                flush(&mut res, start, buffer);
                proof {
                    assert(done.push((start, buffer@)).drop_last() =~= done);
                    assert(groups(fragments) =~= done.push((start, buffer@)));
                }
            },
            None => {
                assert(groups(fragments) =~= done);
            },
        }
        assert(views(res@) =~= seq![RecordView::header()] + group_records(groups(fragments)));
        let ghost data = views(res@);
        res.push(Record::S9);
        assert(views(res@) =~= data + seq![RecordView::terminator()]);
        SRec(res)
    }

    /// The lines of the records, each ended by a line feed.
    pub fn to_string(&self) -> (res: String)
        ensures
            res@ == lines(self@),
    {
        let mut out = String::new();
        let mut i: usize = 0;
        assert(self@.take(0) =~= Seq::empty());
        while i < self.0.len()
            invariant
                i <= self.0.len(),
                out@ == lines(self@.take(i as int)),
            decreases self.0.len() - i,
        {
            assert(self@.take(i + 1).drop_last() =~= self@.take(i as int));
            self.0[i].push_text(&mut out);
            out.push('\n');
            i += 1;
            assert(out@ =~= lines(self@.take(i as int)));
        }
        assert(self@.take(i as int) =~= self@);
        out
    }
}

/// Every record that data is cut into holds no more bytes than its kind
/// allows: 70 with a 16-bit address, 68 with a 24-bit one, 66 with a
/// 32-bit one.
pub proof fn lemma_records_are_bounded(kind: RecordKind, addr: u32, data: Seq<u8>)
    ensures
        forall|i: int|
            0 <= i < split_from(kind, addr, data).len() ==> (#[trigger] split_from(
                kind,
                addr,
                data,
            )[i]).data.len() <= split_from(kind, addr, data)[i].kind.max_data(),
    decreases data.len(),
{
    let here = kind.widened(addr);
    let max = here.max_data();
    if data.len() > max {
        lemma_records_are_bounded(here, (addr + max) as u32, data.skip(max as int));
    }
}

/// The number of data bytes of a short record: 32 with a 16-bit address,
/// 31 with a 24-bit one, 30 with a 32-bit one.
pub open spec fn short_data(kind: RecordKind) -> nat {
    match kind {
        RecordKind::S2 => 31,
        RecordKind::S3 => 30,
        _ => 32,
    }
}

/// Data that is no longer than a short record of its address makes one
/// record, which is that short.
pub proof fn lemma_short_data_is_one_short_record(addr: u32, data: Seq<u8>)
    requires
        data.len() <= short_data(RecordKind::for_address(addr)),
    ensures
        split_records(addr, data).len() == 1,
        split_records(addr, data)[0].data.len() <= short_data(split_records(addr, data)[0].kind),
{
}

/// The header is written `S004000020DB`, and the terminator `S9030000FC`.
pub proof fn lemma_header_and_terminator()
    ensures
        RecordView::header().text() == "S004000020DB"@,
        RecordView::terminator().text() == "S9030000FC"@,
{
    reveal_strlit("S004000020DB");
    reveal_strlit("S9030000FC");
    reveal_with_fuel(hex_digits, 5);
    reveal_with_fuel(hex_bytes, 2);
    let header = RecordView::header();
    let terminator = RecordView::terminator();
    lemma_address_sum(header);
    lemma_address_sum(terminator);
    assert(sum(header.data) == 0x20) by {
        reveal_with_fuel(sum, 2);
        assert(header.data.drop_last() =~= Seq::<u8>::empty());
    }
    assert(sum(terminator.data) == 0);
    assert(header.checksum() == 0xdb);
    assert(terminator.checksum() == 0xfc);
    assert(hex_digits(4, 2) =~= seq!['0', '4']);
    assert(hex_digits(3, 2) =~= seq!['0', '3']);
    assert(hex_digits(0, 4) =~= seq!['0', '0', '0', '0']);
    assert(hex_digits(0x20, 2) =~= seq!['2', '0']);
    assert(hex_digits(0xdb, 2) =~= seq!['D', 'B']);
    assert(hex_digits(0xfc, 2) =~= seq!['F', 'C']);
    assert(hex_bytes(header.data) =~= seq!['2', '0']) by {
        assert(header.data.drop_last() =~= Seq::<u8>::empty());
    }
    assert(hex_bytes(terminator.data) =~= Seq::<char>::empty());
    assert(header.text() =~= "S004000020DB"@);
    assert(terminator.text() =~= "S9030000FC"@);
}

} // verus!
