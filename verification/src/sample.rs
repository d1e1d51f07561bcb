//! Sample encodings: the integer types that a channel's samples can be
//! read as, and the layout of their values in buffer memory.
//!
//! Buffer memory holds samples in host order, which this library takes to
//! be little-endian.

use vstd::prelude::*;

verus! {

/// The host integer type that holds one sample of a channel.
#[derive(Debug, Clone, Copy, PartialEq, Eq, Structural)]
pub enum SampleType {
    /// Signed, 8 bits
    I8,
    /// Signed, 16 bits
    I16,
    /// Signed, 32 bits
    I32,
    /// Signed, 64 bits
    I64,
    /// Unsigned, 8 bits
    U8,
    /// Unsigned, 16 bits
    U16,
    /// Unsigned, 32 bits
    U32,
    /// Unsigned, 64 bits
    U64,
}

impl SampleType {
    /// The number of bytes of one value of the type.
    pub open spec fn spec_size(self) -> nat {
        match self {
            SampleType::I8 | SampleType::U8 => 1,
            SampleType::I16 | SampleType::U16 => 2,
            SampleType::I32 | SampleType::U32 => 4,
            SampleType::I64 | SampleType::U64 => 8,
        }
    }

    /// Whether the type is signed.
    pub open spec fn spec_is_signed(self) -> bool {
        match self {
            SampleType::I8 | SampleType::I16 | SampleType::I32 | SampleType::I64 => true,
            _ => false,
        }
    }

    /// The type with the given sign and size in bytes, if there is one.
    pub open spec fn spec_of(signed: bool, nbytes: nat) -> Option<SampleType> {
        if signed {
            if nbytes == 1 {
                Some(SampleType::I8)
            } else if nbytes == 2 {
                Some(SampleType::I16)
            } else if nbytes == 4 {
                Some(SampleType::I32)
            } else if nbytes == 8 {
                Some(SampleType::I64)
            } else {
                None
            }
        } else {
            if nbytes == 1 {
                Some(SampleType::U8)
            } else if nbytes == 2 {
                Some(SampleType::U16)
            } else if nbytes == 4 {
                Some(SampleType::U32)
            } else if nbytes == 8 {
                Some(SampleType::U64)
            } else {
                None
            }
        }
    }

    /// Gets the number of bytes of one value of the type.
    pub fn size(self) -> (n: usize)
        ensures
            n == self.spec_size(),
            1 <= n <= 8,
    {
        match self {
            SampleType::I8 | SampleType::U8 => 1,
            SampleType::I16 | SampleType::U16 => 2,
            SampleType::I32 | SampleType::U32 => 4,
            SampleType::I64 | SampleType::U64 => 8,
        }
    }

    /// Determines if the type is signed.
    pub fn is_signed(self) -> (b: bool)
        ensures
            b == self.spec_is_signed(),
    {
        match self {
            SampleType::I8 | SampleType::I16 | SampleType::I32 | SampleType::I64 => true,
            _ => false,
        }
    }

    /// Finds the type with the given sign and size in bytes.
    pub fn of(signed: bool, nbytes: usize) -> (r: Option<SampleType>)
        ensures
            r == Self::spec_of(signed, nbytes as nat),
            r matches Some(t) ==> t.spec_size() == nbytes && t.spec_is_signed() == signed,
    {
        if signed {
            if nbytes == 1 {
                Some(SampleType::I8)
            } else if nbytes == 2 {
                Some(SampleType::I16)
            } else if nbytes == 4 {
                Some(SampleType::I32)
            } else if nbytes == 8 {
                Some(SampleType::I64)
            } else {
                None
            }
        } else {
            if nbytes == 1 {
                Some(SampleType::U8)
            } else if nbytes == 2 {
                Some(SampleType::U16)
            } else if nbytes == 4 {
                Some(SampleType::U32)
            } else if nbytes == 8 {
                Some(SampleType::U64)
            } else {
                None
            }
        }
    }
}

/// The number of bit patterns of `n` bytes.
pub open spec fn pow256(n: nat) -> nat
    decreases n,
{
    if n == 0 {
        1
    } else {
        256 * pow256((n - 1) as nat)
    }
}

/// The number that the bytes hold, least significant byte first.
pub open spec fn le_value(bytes: Seq<u8>) -> nat
    decreases bytes.len(),
{
    if bytes.len() == 0 {
        0
    } else {
        bytes[0] as nat + 256 * le_value(bytes.drop_first())
    }
}

/// The number that the bytes hold, most significant byte first.
pub open spec fn be_value(bytes: Seq<u8>) -> nat
    decreases bytes.len(),
{
    if bytes.len() == 0 {
        0
    } else {
        be_value(bytes.drop_last()) * 256 + bytes.last() as nat
    }
}

/// The `n` bytes that hold the low part of a number, least significant
/// byte first.
pub open spec fn le_bytes(v: nat, n: nat) -> Seq<u8>
    decreases n,
{
    if n == 0 {
        Seq::<u8>::empty()
    } else {
        seq![(v % 256) as u8] + le_bytes(v / 256, (n - 1) as nat)
    }
}

/// The `n` bytes that hold the low part of a number, most significant
/// byte first.
pub open spec fn be_bytes(v: nat, n: nat) -> Seq<u8>
    decreases n,
{
    if n == 0 {
        Seq::<u8>::empty()
    } else {
        be_bytes(v / 256, (n - 1) as nat).push((v % 256) as u8)
    }
}

/// The values of the powers that the sample sizes use.
pub proof fn lemma_pow256_values()
    ensures
        pow256(0) == 1,
        pow256(1) == 0x100,
        pow256(2) == 0x1_0000,
        pow256(3) == 0x100_0000,
        pow256(4) == 0x1_0000_0000,
        pow256(5) == 0x100_0000_0000,
        pow256(6) == 0x1_0000_0000_0000,
        pow256(7) == 0x100_0000_0000_0000,
        pow256(8) == 0x1_0000_0000_0000_0000,
{
    reveal_with_fuel(pow256, 10);
}

/// A number read from `n` bytes is below the number of their bit patterns.
pub proof fn lemma_le_value_bound(bytes: Seq<u8>)
    ensures
        le_value(bytes) < pow256(bytes.len()),
    decreases bytes.len(),
{
    if bytes.len() > 0 {
        lemma_le_value_bound(bytes.drop_first());
    }
}

/// A number read from `n` bytes is below the number of their bit patterns.
pub proof fn lemma_be_value_bound(bytes: Seq<u8>)
    ensures
        be_value(bytes) < pow256(bytes.len()),
    decreases bytes.len(),
{
    if bytes.len() > 0 {
        lemma_be_value_bound(bytes.drop_last());
    }
}

/// The bytes of a number have the length asked for.
pub proof fn lemma_le_bytes_len(v: nat, n: nat)
    ensures
        le_bytes(v, n).len() == n,
    decreases n,
{
    if n > 0 {
        lemma_le_bytes_len(v / 256, (n - 1) as nat);
    }
}

/// Every power of 256 is positive.
pub proof fn lemma_pow256_positive(n: nat)
    ensures
        pow256(n) > 0,
    decreases n,
{
    if n > 0 {
        lemma_pow256_positive((n - 1) as nat);
    }
}

/// Reading back the bytes of a number gives the number, as far as the
/// bytes can hold it.
pub proof fn lemma_le_round_trip(v: nat, n: nat)
    ensures
        le_bytes(v, n).len() == n,
        le_value(le_bytes(v, n)) == v % pow256(n),
    decreases n,
{
    lemma_le_bytes_len(v, n);
    if n > 0 {
        let rest = le_bytes(v / 256, (n - 1) as nat);
        let all = le_bytes(v, n);
        lemma_le_round_trip(v / 256, (n - 1) as nat);
        assert(all.drop_first() =~= rest);
        assert(all[0] == (v % 256) as u8);
        let p = pow256((n - 1) as nat);
        lemma_pow256_positive((n - 1) as nat);
        vstd::arithmetic::div_mod::lemma_mod_breakdown(v as int, 256, p as int);
    }
}

/// Reads the number that `size` bytes of `data` hold from `at` on, least
/// significant byte first.
pub fn read_le(data: &[u8], at: usize, size: usize) -> (v: u64)
    requires
        size <= 8,
        at + size <= data@.len(),
    ensures
        v == le_value(data@.subrange(at as int, at + size)),
        v < pow256(size as nat),
{
    let mut acc: u64 = 0;
    let mut i: usize = size;
    let total: usize = data.len();
    proof {
        lemma_pow256_values();
        assert(data@.subrange(at + size, at + size).len() == 0);
    }
    while i > 0
        invariant
            i <= size <= 8,
            at + size <= data@.len() <= usize::MAX,
            acc == le_value(data@.subrange(at + i, at + size)),
            acc < pow256((size - i) as nat),
        decreases i,
    {
        let b: u8 = data[at + i - 1];
        proof {
            let cur = data@.subrange(at + i - 1, at + size);
            assert(cur.drop_first() =~= data@.subrange(at + i, at + size));
            assert(cur[0] == b);
            lemma_pow256_values();
            lemma_le_value_bound(cur);
            assert(pow256((size - i + 1) as nat) <= pow256(8)) by {
                lemma_pow256_monotone((size - i + 1) as nat, 8);
            }
        }
        acc = acc * 256 + b as u64;
        i = i - 1;
    }
    acc
}

/// Reads the number that `size` bytes of `data` hold from `at` on, most
/// significant byte first.
pub fn read_be(data: &[u8], at: usize, size: usize) -> (v: u64)
    requires
        size <= 8,
        at + size <= data@.len(),
    ensures
        v == be_value(data@.subrange(at as int, at + size)),
        v < pow256(size as nat),
{
    let mut acc: u64 = 0;
    let mut i: usize = 0;
    let total: usize = data.len();
    proof {
        lemma_pow256_values();
        assert(data@.subrange(at as int, at as int).len() == 0);
    }
    while i < size
        invariant
            i <= size <= 8,
            at + size <= data@.len() <= usize::MAX,
            acc == be_value(data@.subrange(at as int, at + i)),
            acc < pow256(i as nat),
        decreases size - i,
    {
        let b: u8 = data[at + i];
        proof {
            let cur = data@.subrange(at as int, at + i + 1);
            assert(cur.drop_last() =~= data@.subrange(at as int, at + i));
            assert(cur.last() == b);
            lemma_pow256_values();
            lemma_be_value_bound(cur);
            assert(pow256((i + 1) as nat) <= pow256(8)) by {
                lemma_pow256_monotone((i + 1) as nat, 8);
            }
        }
        acc = acc * 256 + b as u64;
        i = i + 1;
    }
    proof {
        assert(data@.subrange(at as int, at + i) == data@.subrange(at as int, at + size));
    }
    acc
}

/// A larger exponent gives a larger or equal power.
pub proof fn lemma_pow256_monotone(a: nat, b: nat)
    requires
        a <= b,
    ensures
        pow256(a) <= pow256(b),
    decreases b,
{
    if a < b {
        lemma_pow256_monotone(a, (b - 1) as nat);
    }
}

/// Writes the low `size` bytes of a number into `data` from `at` on, least
/// significant byte first.
pub fn write_le(data: &mut Vec<u8>, at: usize, size: usize, v: u64)
    requires
        size <= 8,
        at + size <= old(data)@.len(),
    ensures
        final(data)@.len() == old(data)@.len(),
        final(data)@ == old(data)@.subrange(0, at as int) + le_bytes(v as nat, size as nat) + old(
            data,
        )@.subrange(at + size, old(data)@.len() as int),
{
    let mut rest: u64 = v;
    let mut i: usize = 0;
    let total: usize = data.len();
    let ghost before = data@;
    proof {
        let all = le_bytes(v as nat, size as nat);
        lemma_le_bytes_len(v as nat, size as nat);
        assert(all.subrange(0, 0) =~= Seq::<u8>::empty());
        assert(all.subrange(0, size as int) =~= all);
        assert(data@ =~= before.subrange(0, at as int) + all.subrange(0, 0) + before.subrange(
            at as int,
            before.len() as int,
        ));
    }
    while i < size
        invariant
            i <= size <= 8,
            at + size <= before.len() <= usize::MAX,
            data@.len() == before.len(),
            data@ == before.subrange(0, at as int) + le_bytes(v as nat, size as nat).subrange(
                0,
                i as int,
            ) + before.subrange(at + i, before.len() as int),
            le_bytes(rest as nat, (size - i) as nat) == le_bytes(v as nat, size as nat).subrange(
                i as int,
                size as int,
            ),
            le_bytes(v as nat, size as nat).len() == size,
        decreases size - i,
    {
        let b: u8 = (rest % 256) as u8;
        let ghost prev = data@;
        data.set(at + i, b);
        proof {
            let all = le_bytes(v as nat, size as nat);
            let tail = le_bytes(rest as nat, (size - i) as nat);
            assert(tail[0] == b);
            assert(all[i as int] == b);
            assert(le_bytes((rest / 256) as nat, (size - i - 1) as nat) =~= tail.drop_first());
            assert(tail.drop_first() =~= all.subrange(i + 1, size as int));
            assert(data@ =~= before.subrange(0, at as int) + all.subrange(0, i + 1)
                + before.subrange(at + i + 1, before.len() as int));
        }
        rest = rest / 256;
        i = i + 1;
    }
    proof {
        let all = le_bytes(v as nat, size as nat);
        assert(all.subrange(0, size as int) =~= all);
    }
}

/// Writes the low `size` bytes of a number into `data` from `at` on, most
/// significant byte first.
pub fn write_be(data: &mut Vec<u8>, at: usize, size: usize, v: u64)
    requires
        size <= 8,
        at + size <= old(data)@.len(),
    ensures
        final(data)@.len() == old(data)@.len(),
        final(data)@ == old(data)@.subrange(0, at as int) + be_bytes(v as nat, size as nat) + old(
            data,
        )@.subrange(at + size, old(data)@.len() as int),
{
    let mut rest: u64 = v;
    let mut i: usize = size;
    let total: usize = data.len();
    let ghost before = data@;
    proof {
        assert(be_bytes(rest as nat, 0) =~= Seq::<u8>::empty());
        assert(data@ =~= before.subrange(0, at + size) + before.subrange(
            at + size,
            before.len() as int,
        ));
    }
    while i > 0
        invariant
            i <= size <= 8,
            at + size <= before.len() <= usize::MAX,
            data@.len() == before.len(),
            data@ =~= before.subrange(0, at + i) + data@.subrange(at + i, at + size)
                + before.subrange(at + size, before.len() as int),
            be_bytes(v as nat, size as nat) == be_bytes(rest as nat, i as nat) + data@.subrange(
                at + i,
                at + size,
            ),
        decreases i,
    {
        let b: u8 = (rest % 256) as u8;
        let ghost prev = data@;
        data.set(at + i - 1, b);
        proof {
            let head = be_bytes(rest as nat, i as nat);
            assert(head == be_bytes((rest / 256) as nat, (i - 1) as nat).push(b));
            assert(data@.subrange(at + i - 1, at + size) =~= seq![b] + prev.subrange(
                at + i,
                at + size,
            ));
            assert(be_bytes(v as nat, size as nat) =~= be_bytes(
                (rest / 256) as nat,
                (i - 1) as nat,
            ) + data@.subrange(at + i - 1, at + size));
        }
        rest = rest / 256;
        i = i - 1;
    }
    proof {
        assert(be_bytes(rest as nat, 0) =~= Seq::<u8>::empty());
        assert(before.subrange(0, at + 0) == before.subrange(0, at as int));
        assert(be_bytes(v as nat, size as nat) =~= data@.subrange(at as int, at + size));
    }
}

/// An integer type that one sample can be read as.
pub trait Sample: Copy {
    /// The encoding of the type.
    spec fn spec_kind() -> SampleType;

    /// The bit pattern of a value, as an unsigned number.
    spec fn bits_of(self) -> nat;

    /// The value with the given bit pattern, of which the low bytes count.
    spec fn of_bits(raw: nat) -> Self;

    /// Gets the encoding of the type.
    fn kind() -> (k: SampleType)
        ensures
            k == Self::spec_kind(),
    ;

    /// Gets the bit pattern of the value.
    fn to_raw(self) -> (raw: u64)
        ensures
            raw == self.bits_of(),
            raw < pow256(Self::spec_kind().spec_size()),
    ;

    /// Makes the value with the given bit pattern.
    fn from_raw(raw: u64) -> (v: Self)
        requires
            raw < pow256(Self::spec_kind().spec_size()),
        ensures
            v == Self::of_bits(raw as nat),
            v.bits_of() == raw,
    ;

    /// The bit pattern of a value fits in the bytes of the type, and is the
    /// pattern of that value alone.
    proof fn lemma_bits(v: Self)
        ensures
            v.bits_of() < pow256(Self::spec_kind().spec_size()),
            Self::of_bits(v.bits_of()) == v,
    ;
}

impl Sample for u8 {
    open spec fn spec_kind() -> SampleType {
        SampleType::U8
    }

    open spec fn bits_of(self) -> nat {
        self as nat
    }

    open spec fn of_bits(raw: nat) -> u8 {
        (raw % 0x100) as u8
    }

    fn kind() -> (k: SampleType) {
        SampleType::U8
    }

    fn to_raw(self) -> (raw: u64) {
        proof {
            lemma_pow256_values();
        }
        self as u64
    }

    fn from_raw(raw: u64) -> (v: u8) {
        proof {
            lemma_pow256_values();
        }
        raw as u8
    }

    proof fn lemma_bits(v: u8) {
        lemma_pow256_values();
    }
}

impl Sample for u16 {
    open spec fn spec_kind() -> SampleType {
        SampleType::U16
    }

    open spec fn bits_of(self) -> nat {
        self as nat
    }

    open spec fn of_bits(raw: nat) -> u16 {
        (raw % 0x1_0000) as u16
    }

    fn kind() -> (k: SampleType) {
        SampleType::U16
    }

    fn to_raw(self) -> (raw: u64) {
        proof {
            lemma_pow256_values();
        }
        self as u64
    }

    fn from_raw(raw: u64) -> (v: u16) {
        proof {
            lemma_pow256_values();
        }
        raw as u16
    }

    proof fn lemma_bits(v: u16) {
        lemma_pow256_values();
    }
}

impl Sample for u32 {
    open spec fn spec_kind() -> SampleType {
        SampleType::U32
    }

    open spec fn bits_of(self) -> nat {
        self as nat
    }

    open spec fn of_bits(raw: nat) -> u32 {
        (raw % 0x1_0000_0000) as u32
    }

    fn kind() -> (k: SampleType) {
        SampleType::U32
    }

    fn to_raw(self) -> (raw: u64) {
        proof {
            lemma_pow256_values();
        }
        self as u64
    }

    fn from_raw(raw: u64) -> (v: u32) {
        proof {
            lemma_pow256_values();
        }
        raw as u32
    }

    proof fn lemma_bits(v: u32) {
        lemma_pow256_values();
    }
}

impl Sample for u64 {
    open spec fn spec_kind() -> SampleType {
        SampleType::U64
    }

    open spec fn bits_of(self) -> nat {
        self as nat
    }

    open spec fn of_bits(raw: nat) -> u64 {
        (raw % 0x1_0000_0000_0000_0000) as u64
    }

    fn kind() -> (k: SampleType) {
        SampleType::U64
    }

    fn to_raw(self) -> (raw: u64) {
        proof {
            lemma_pow256_values();
        }
        self as u64
    }

    fn from_raw(raw: u64) -> (v: u64) {
        proof {
            lemma_pow256_values();
        }
        raw as u64
    }

    proof fn lemma_bits(v: u64) {
        lemma_pow256_values();
    }
}

impl Sample for i8 {
    open spec fn spec_kind() -> SampleType {
        SampleType::I8
    }

    open spec fn bits_of(self) -> nat {
        if self >= 0 {
            self as nat
        } else {
            (self + 0x100) as nat
        }
    }

    open spec fn of_bits(raw: nat) -> i8 {
        if raw % 0x100 < 0x80 {
            (raw % 0x100) as i8
        } else {
            (raw % 0x100 - 0x100) as i8
        }
    }

    fn kind() -> (k: SampleType) {
        SampleType::I8
    }

    fn to_raw(self) -> (raw: u64) {
        proof {
            lemma_pow256_values();
        }
        if self >= 0 {
            self as u64
        } else {
            (self as i128 + 0x100) as u64
        }
    }

    fn from_raw(raw: u64) -> (v: i8) {
        proof {
            lemma_pow256_values();
        }
        if raw < 0x80 {
            raw as i8
        } else {
            (raw as i128 - 0x100) as i8
        }
    }

    proof fn lemma_bits(v: i8) {
        lemma_pow256_values();
    }
}

impl Sample for i16 {
    open spec fn spec_kind() -> SampleType {
        SampleType::I16
    }

    open spec fn bits_of(self) -> nat {
        if self >= 0 {
            self as nat
        } else {
            (self + 0x1_0000) as nat
        }
    }

    open spec fn of_bits(raw: nat) -> i16 {
        if raw % 0x1_0000 < 0x8000 {
            (raw % 0x1_0000) as i16
        } else {
            (raw % 0x1_0000 - 0x1_0000) as i16
        }
    }

    fn kind() -> (k: SampleType) {
        SampleType::I16
    }

    fn to_raw(self) -> (raw: u64) {
        proof {
            lemma_pow256_values();
        }
        if self >= 0 {
            self as u64
        } else {
            (self as i128 + 0x1_0000) as u64
        }
    }

    fn from_raw(raw: u64) -> (v: i16) {
        proof {
            lemma_pow256_values();
        }
        if raw < 0x8000 {
            raw as i16
        } else {
            (raw as i128 - 0x1_0000) as i16
        }
    }

    proof fn lemma_bits(v: i16) {
        lemma_pow256_values();
    }
}

impl Sample for i32 {
    open spec fn spec_kind() -> SampleType {
        SampleType::I32
    }

    open spec fn bits_of(self) -> nat {
        if self >= 0 {
            self as nat
        } else {
            (self + 0x1_0000_0000) as nat
        }
    }

    open spec fn of_bits(raw: nat) -> i32 {
        if raw % 0x1_0000_0000 < 0x8000_0000 {
            (raw % 0x1_0000_0000) as i32
        } else {
            (raw % 0x1_0000_0000 - 0x1_0000_0000) as i32
        }
    }

    fn kind() -> (k: SampleType) {
        SampleType::I32
    }

    fn to_raw(self) -> (raw: u64) {
        proof {
            lemma_pow256_values();
        }
        if self >= 0 {
            self as u64
        } else {
            (self as i128 + 0x1_0000_0000) as u64
        }
    }

    fn from_raw(raw: u64) -> (v: i32) {
        proof {
            lemma_pow256_values();
        }
        if raw < 0x8000_0000 {
            raw as i32
        } else {
            (raw as i128 - 0x1_0000_0000) as i32
        }
    }

    proof fn lemma_bits(v: i32) {
        lemma_pow256_values();
    }
}

impl Sample for i64 {
    open spec fn spec_kind() -> SampleType {
        SampleType::I64
    }

    open spec fn bits_of(self) -> nat {
        if self >= 0 {
            self as nat
        } else {
            (self + 0x1_0000_0000_0000_0000) as nat
        }
    }

    open spec fn of_bits(raw: nat) -> i64 {
        if raw % 0x1_0000_0000_0000_0000 < 0x8000_0000_0000_0000 {
            (raw % 0x1_0000_0000_0000_0000) as i64
        } else {
            (raw % 0x1_0000_0000_0000_0000 - 0x1_0000_0000_0000_0000) as i64
        }
    }

    fn kind() -> (k: SampleType) {
        SampleType::I64
    }

    fn to_raw(self) -> (raw: u64) {
        proof {
            lemma_pow256_values();
        }
        if self >= 0 {
            self as u64
        } else {
            (self as i128 + 0x1_0000_0000_0000_0000) as u64
        }
    }

    fn from_raw(raw: u64) -> (v: i64) {
        proof {
            lemma_pow256_values();
        }
        if raw < 0x8000_0000_0000_0000 {
            raw as i64
        } else {
            (raw as i128 - 0x1_0000_0000_0000_0000) as i64
        }
    }

    proof fn lemma_bits(v: i64) {
        lemma_pow256_values();
    }
}

} // verus!
