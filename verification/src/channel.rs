//! Industrial I/O Channels
//!
//! A channel is one data lane of a device. This module holds the kinds of
//! channel, the format of a channel's samples with the conversion between
//! the hardware's and the host's form of a sample, and the channel itself.

use vstd::prelude::*;
use crate::attr::{FromAttribute, ToAttribute};
use crate::attrs::{
    attr_enter, attr_entered, attrs_distinct, attr_find, attr_get, attr_get_typed, attr_known, attr_read_spec,
    attr_read_typed_spec, attr_set, attr_set_typed, attr_write_spec, attr_written, attrs_copy,
    attrs_pairs, attrs_view, Attr, AttrSeq,
};
use crate::buffer::{placed, scattered, Buffer, BufferView};
use crate::context::Context;
use crate::device::{ctx_copy, opt_handle};
use crate::errors::{code_of_return, errno_of, sys_result, Error, Result};
use crate::sample::{
    be_bytes, be_value, le_bytes, le_value, lemma_le_bytes_len, read_be, read_le,
    write_be, write_le, Sample, SampleType,
};
use crate::text::{find_nul, has_nul};

verus! {

/// The type of data associated with a channel.
#[allow(missing_docs)]
#[derive(Debug, Clone, Copy, PartialEq, Eq, Structural)]
pub enum ChannelType {
    Voltage,
    Current,
    Power,
    Accel,
    AnglVel,
    Magn,
    Ligtht,
    Intensity,
    Proximity,
    Temp,
    Incli,
    Rot,
    Angl,
    Timestamp,
    Capacitance,
    AltVoltage,
    Cct,
    Pressure,
    HumidityRelative,
    Activity,
    Steps,
    Energy,
    Distance,
    Velocity,
    Concentration,
    Resistance,
    Ph,
    UvIndex,
    ElectricalConductivity,
    Count,
    Index,
    Gravity,
    Unknown,
}

/// The code of the unknown channel type.
pub const CHAN_TYPE_UNKNOWN: u32 = 0x7fff_ffff;

impl ChannelType {
    /// The code that the native layer uses for the type.
    pub open spec fn spec_code(self) -> u32 {
        match self {
            ChannelType::Voltage => 0,
            ChannelType::Current => 1,
            ChannelType::Power => 2,
            ChannelType::Accel => 3,
            ChannelType::AnglVel => 4,
            ChannelType::Magn => 5,
            ChannelType::Ligtht => 6,
            ChannelType::Intensity => 7,
            ChannelType::Proximity => 8,
            ChannelType::Temp => 9,
            ChannelType::Incli => 10,
            ChannelType::Rot => 11,
            ChannelType::Angl => 12,
            ChannelType::Timestamp => 13,
            ChannelType::Capacitance => 14,
            ChannelType::AltVoltage => 15,
            ChannelType::Cct => 16,
            ChannelType::Pressure => 17,
            ChannelType::HumidityRelative => 18,
            ChannelType::Activity => 19,
            ChannelType::Steps => 20,
            ChannelType::Energy => 21,
            ChannelType::Distance => 22,
            ChannelType::Velocity => 23,
            ChannelType::Concentration => 24,
            ChannelType::Resistance => 25,
            ChannelType::Ph => 26,
            ChannelType::UvIndex => 27,
            ChannelType::ElectricalConductivity => 28,
            ChannelType::Count => 29,
            ChannelType::Index => 30,
            ChannelType::Gravity => 31,
            ChannelType::Unknown => CHAN_TYPE_UNKNOWN,
        }
    }

    /// The type that a code of the native layer stands for; a code that
    /// stands for none is unknown.
    pub open spec fn spec_from_code(code: u32) -> ChannelType {
        match code {
            0 => ChannelType::Voltage,
            1 => ChannelType::Current,
            2 => ChannelType::Power,
            3 => ChannelType::Accel,
            4 => ChannelType::AnglVel,
            5 => ChannelType::Magn,
            6 => ChannelType::Ligtht,
            7 => ChannelType::Intensity,
            8 => ChannelType::Proximity,
            9 => ChannelType::Temp,
            10 => ChannelType::Incli,
            11 => ChannelType::Rot,
            12 => ChannelType::Angl,
            13 => ChannelType::Timestamp,
            14 => ChannelType::Capacitance,
            15 => ChannelType::AltVoltage,
            16 => ChannelType::Cct,
            17 => ChannelType::Pressure,
            18 => ChannelType::HumidityRelative,
            19 => ChannelType::Activity,
            20 => ChannelType::Steps,
            21 => ChannelType::Energy,
            22 => ChannelType::Distance,
            23 => ChannelType::Velocity,
            24 => ChannelType::Concentration,
            25 => ChannelType::Resistance,
            26 => ChannelType::Ph,
            27 => ChannelType::UvIndex,
            28 => ChannelType::ElectricalConductivity,
            29 => ChannelType::Count,
            30 => ChannelType::Index,
            31 => ChannelType::Gravity,
            _ => ChannelType::Unknown,
        }
    }

    /// Gets the code that the native layer uses for the type.
    pub fn code(self) -> (c: u32)
        ensures
            c == self.spec_code(),
            ChannelType::spec_from_code(c) == self,
    {
        match self {
            ChannelType::Voltage => 0,
            ChannelType::Current => 1,
            ChannelType::Power => 2,
            ChannelType::Accel => 3,
            ChannelType::AnglVel => 4,
            ChannelType::Magn => 5,
            ChannelType::Ligtht => 6,
            ChannelType::Intensity => 7,
            ChannelType::Proximity => 8,
            ChannelType::Temp => 9,
            ChannelType::Incli => 10,
            ChannelType::Rot => 11,
            ChannelType::Angl => 12,
            ChannelType::Timestamp => 13,
            ChannelType::Capacitance => 14,
            ChannelType::AltVoltage => 15,
            ChannelType::Cct => 16,
            ChannelType::Pressure => 17,
            ChannelType::HumidityRelative => 18,
            ChannelType::Activity => 19,
            ChannelType::Steps => 20,
            ChannelType::Energy => 21,
            ChannelType::Distance => 22,
            ChannelType::Velocity => 23,
            ChannelType::Concentration => 24,
            ChannelType::Resistance => 25,
            ChannelType::Ph => 26,
            ChannelType::UvIndex => 27,
            ChannelType::ElectricalConductivity => 28,
            ChannelType::Count => 29,
            ChannelType::Index => 30,
            ChannelType::Gravity => 31,
            ChannelType::Unknown => CHAN_TYPE_UNKNOWN,
        }
    }

    /// Gets the type that a code of the native layer stands for.
    pub fn from_code(code: u32) -> (t: ChannelType)
        ensures
            t == ChannelType::spec_from_code(code),
    {
        match code {
            0 => ChannelType::Voltage,
            1 => ChannelType::Current,
            2 => ChannelType::Power,
            3 => ChannelType::Accel,
            4 => ChannelType::AnglVel,
            5 => ChannelType::Magn,
            6 => ChannelType::Ligtht,
            7 => ChannelType::Intensity,
            8 => ChannelType::Proximity,
            9 => ChannelType::Temp,
            10 => ChannelType::Incli,
            11 => ChannelType::Rot,
            12 => ChannelType::Angl,
            13 => ChannelType::Timestamp,
            14 => ChannelType::Capacitance,
            15 => ChannelType::AltVoltage,
            16 => ChannelType::Cct,
            17 => ChannelType::Pressure,
            18 => ChannelType::HumidityRelative,
            19 => ChannelType::Activity,
            20 => ChannelType::Steps,
            21 => ChannelType::Energy,
            22 => ChannelType::Distance,
            23 => ChannelType::Velocity,
            24 => ChannelType::Concentration,
            25 => ChannelType::Resistance,
            26 => ChannelType::Ph,
            27 => ChannelType::UvIndex,
            28 => ChannelType::ElectricalConductivity,
            29 => ChannelType::Count,
            30 => ChannelType::Index,
            31 => ChannelType::Gravity,
            _ => ChannelType::Unknown,
        }
    }
}

/// The direction of a channel, as seen from the host.
#[derive(Debug, Clone, Copy, PartialEq, Eq, Structural)]
pub enum Direction {
    /// Samples come from the hardware
    Input,
    /// Samples go to the hardware
    Output,
}

/// The format of a data sample.
#[derive(Debug, Clone, Copy, PartialEq, Eq, Structural)]
pub struct DataFormat {
    /// Total length of the sample, in bits
    pub length: u32,
    /// Length of valid data in the sample, in bits
    pub bits: u32,
    /// Right-shift to apply when converting sample
    pub shift: u32,
    /// Whether the sample is signed
    pub is_signed: bool,
    /// Whether the sample is fully defined, sign extended, etc.
    pub is_fully_defined: bool,
    /// Whether the sample is in big-endian format
    pub is_be: bool,
    /// Whether the sample should be scaled when converted
    pub with_scale: bool,
    /// The bit pattern of the scale to apply if `with_scale` is set, a
    /// double-precision number
    pub scale_bits: u64,
    /// Number of times length repeats
    pub repeat: u32,
}

/// The number with the low `bits` bits set.
pub open spec fn low_mask(bits: u32) -> u64 {
    if bits >= 64 {
        u64::MAX
    } else {
        ((1u64 << bits) - 1) as u64
    }
}

/// The number shifted right by `shift` bits; nothing is left of it after
/// 64 bits or more.
pub open spec fn shifted_right(v: u64, shift: u32) -> u64 {
    if shift >= 64 {
        0
    } else {
        v >> shift
    }
}

/// The number shifted left by `shift` bits, as far as 64 bits hold it.
pub open spec fn shifted_left(v: u64, shift: u32) -> u64 {
    if shift >= 64 {
        0
    } else {
        v << shift
    }
}

/// Computes the number with the low `bits` bits set.
pub fn mask_of(bits: u32) -> (m: u64)
    ensures
        m == low_mask(bits),
{
    if bits >= 64 {
        u64::MAX
    } else {
        let one: u64 = 1u64 << bits;
        proof {
            assert(1u64 << bits >= 1) by (bit_vector)
                requires
                    bits < 64,
            ;
        }
        one - 1
    }
}

impl DataFormat {
    /// Creates a new data format from the values of the native descriptor.
    pub fn new(
        length: u32,
        bits: u32,
        shift: u32,
        is_signed: bool,
        is_fully_defined: bool,
        is_be: bool,
        with_scale: bool,
        scale_bits: u64,
        repeat: u32,
    ) -> (f: DataFormat)
        ensures
            f == (DataFormat {
                length,
                bits,
                shift,
                is_signed,
                is_fully_defined,
                is_be,
                with_scale,
                scale_bits,
                repeat,
            }),
    {
        DataFormat {
            length,
            bits,
            shift,
            is_signed,
            is_fully_defined,
            is_be,
            with_scale,
            scale_bits,
            repeat,
        }
    }

    /// Gets total length of the sample, in bits.
    pub fn length(&self) -> (r: u32)
        ensures
            r == self.length,
    {
        self.length
    }

    /// Gets the length of valid data in the sample, in bits.
    pub fn bits(&self) -> (r: u32)
        ensures
            r == self.bits,
    {
        self.bits
    }

    /// Right-shift to apply when converting sample.
    pub fn shift(&self) -> (r: u32)
        ensures
            r == self.shift,
    {
        self.shift
    }

    /// Determines if the sample is signed
    pub fn is_signed(&self) -> (r: bool)
        ensures
            r == self.is_signed,
    {
        self.is_signed
    }

    /// Determines if the sample is fully defined, sign extended, etc.
    pub fn is_fully_defined(&self) -> (r: bool)
        ensures
            r == self.is_fully_defined,
    {
        self.is_fully_defined
    }

    /// Determines if the sample is in big-endian format
    pub fn is_big_endian(&self) -> (r: bool)
        ensures
            r == self.is_be,
    {
        self.is_be
    }

    /// Determines if the sample should be scaled when converted
    pub fn with_scale(&self) -> (r: bool)
        ensures
            r == self.with_scale,
    {
        self.with_scale
    }

    /// Gets the bit pattern of the scale to apply if `with_scale` is set.
    pub fn scale_bits(&self) -> (r: u64)
        ensures
            r == self.scale_bits,
    {
        self.scale_bits
    }

    /// Number of times length repeats
    pub fn repeat(&self) -> (r: u32)
        ensures
            r == self.repeat,
    {
        self.repeat
    }

    /// The number of bytes of one repetition of the sample.
    pub open spec fn spec_unit_length(&self) -> nat {
        (self.length / 8) as nat
    }

    /// The number of bytes required to hold a single sample from the
    /// channel: the bytes of one repetition times the repeat count.
    pub open spec fn spec_byte_length(&self) -> nat {
        ((self.length / 8) * self.repeat) as nat
    }

    /// The host integer type for a single sample from the channel, if the
    /// sample has the size of one.
    pub open spec fn spec_type_of(&self) -> Option<SampleType> {
        SampleType::spec_of(self.is_signed, self.spec_byte_length())
    }

    /// The number of bytes required to hold a single sample from the
    /// channel, as a number of 64 bits, which always holds it.
    pub fn byte_length_wide(&self) -> (n: u64)
        ensures
            n == self.spec_byte_length(),
    {
        let unit: u64 = (self.length / 8) as u64;
        let count: u64 = self.repeat as u64;
        assert(unit * count <= 0x2000_0000 * 0x1_0000_0000) by (nonlinear_arith)
            requires
                unit < 0x2000_0000,
                count < 0x1_0000_0000,
        ;
        unit * count
    }

    /// The number of bytes required to hold a single sample from the channel.
    ///
    /// A length that the host's `usize` cannot hold is given as `usize::MAX`.
    pub fn byte_length(&self) -> (n: usize)
        ensures
            self.spec_byte_length() <= usize::MAX ==> n == self.spec_byte_length(),
            self.spec_byte_length() > usize::MAX ==> n == usize::MAX,
    {
        let nbytes: u64 = self.byte_length_wide();
        if nbytes > usize::MAX as u64 {
            usize::MAX
        } else {
            nbytes as usize
        }
    }

    /// Gets the host integer type for a single sample from the channel.
    ///
    /// This will get the type for a sample if it can fit into a standard
    /// integer type, signed or unsigned, of 8, 16, 32, or 64 bits.
    pub fn type_of(&self) -> (t: Option<SampleType>)
        ensures
            t == self.spec_type_of(),
    {
        let nbytes: usize = self.byte_length();
        SampleType::of(self.is_signed, nbytes)
    }

    /// The host's form of one repetition `v` of a hardware sample of `len`
    /// bytes: shifted right by the format's shift and then, unless the
    /// sample is fully defined, cut down to the valid bits, with the sign
    /// carried into the upper bits of a signed sample.
    pub open spec fn spec_to_host(&self, v: u64, len: u32) -> u64 {
        let s = shifted_right(v, self.shift);
        let width: u32 = (8 * len) as u32;
        if self.is_fully_defined {
            s
        } else if self.is_signed && 1 <= self.bits < width && width <= 64 {
            if s & (1u64 << ((self.bits - 1) as u32)) != 0 {
                (s | !low_mask(self.bits)) & low_mask(width)
            } else {
                s & low_mask(self.bits)
            }
        } else if self.is_signed && self.bits >= width {
            s
        } else {
            s & low_mask(self.bits)
        }
    }

    /// The hardware's form of one repetition `v` of a host sample of `len`
    /// bytes: cut down to the valid bits and shifted left by the format's
    /// shift, as far as `len` bytes hold it.
    pub open spec fn spec_to_hardware(&self, v: u64, len: u32) -> u64 {
        shifted_left(v & low_mask(self.bits), self.shift) & low_mask((8 * len) as u32)
    }

    /// Converts one repetition of a hardware sample to the host's form.
    pub fn to_host(&self, v: u64, len: u32) -> (r: u64)
        requires
            1 <= len <= 8,
        ensures
            r == self.spec_to_host(v, len),
    {
        let s: u64 = if self.shift >= 64 {
            0
        } else {
            v >> self.shift
        };
        let width: u32 = 8 * len;
        if self.is_fully_defined {
            s
        } else if self.is_signed && 1 <= self.bits && self.bits < width {
            if s & (1u64 << (self.bits - 1)) != 0 {
                (s | !mask_of(self.bits)) & mask_of(width)
            } else {
                s & mask_of(self.bits)
            }
        } else if self.is_signed && self.bits >= width {
            s
        } else {
            s & mask_of(self.bits)
        }
    }

    /// Converts one repetition of a host sample to the hardware's form.
    pub fn to_hardware(&self, v: u64, len: u32) -> (r: u64)
        requires
            1 <= len <= 8,
        ensures
            r == self.spec_to_hardware(v, len),
    {
        let m: u64 = v & mask_of(self.bits);
        let s: u64 = if self.shift >= 64 {
            0
        } else {
            m << self.shift
        };
        s & mask_of(8 * len)
    }
}

impl DataFormat {
    /// The host's form of the hardware samples that the bytes hold, one
    /// repetition after the other. Each repetition is read in the
    /// hardware's byte order, converted, and laid down in host order.
    pub open spec fn spec_convert(&self, src: Seq<u8>) -> Seq<u8>
        decreases src.len(),
    {
        let len = self.spec_unit_length();
        if len == 0 || len > 8 || src.len() < len {
            Seq::<u8>::empty()
        } else {
            let unit = src.subrange(0, len as int);
            let v = if self.is_be {
                be_value(unit)
            } else {
                le_value(unit)
            };
            le_bytes(self.spec_to_host(v as u64, len as u32) as nat, len) + self.spec_convert(
                src.subrange(len as int, src.len() as int),
            )
        }
    }

    /// The hardware's form of the host samples that the bytes hold, one
    /// repetition after the other. Each repetition is read in host order,
    /// converted, and laid down in the hardware's byte order.
    pub open spec fn spec_convert_inverse(&self, src: Seq<u8>) -> Seq<u8>
        decreases src.len(),
    {
        let len = self.spec_unit_length();
        if len == 0 || len > 8 || src.len() < len {
            Seq::<u8>::empty()
        } else {
            let unit = src.subrange(0, len as int);
            let x = self.spec_to_hardware(le_value(unit) as u64, len as u32);
            (if self.is_be {
                be_bytes(x as nat, len)
            } else {
                le_bytes(x as nat, len)
            }) + self.spec_convert_inverse(src.subrange(len as int, src.len() as int))
        }
    }

    /// The bytes converted in one direction or the other.
    pub open spec fn spec_converted(&self, src: Seq<u8>, inverse: bool) -> Seq<u8> {
        if inverse {
            self.spec_convert_inverse(src)
        } else {
            self.spec_convert(src)
        }
    }

    /// The value of a sample type that a host sample is converted to.
    pub open spec fn spec_convert_value<T: Sample>(&self, val: T, inverse: bool) -> T {
        T::of_bits(
            le_value(
                self.spec_converted(le_bytes(val.bits_of(), T::spec_kind().spec_size()), inverse),
            ),
        )
    }

    /// Converts the samples that `work` holds from `at` on, `count`
    /// repetitions of them, where they lie.
    pub fn convert_bytes(&self, work: &mut Vec<u8>, at: usize, count: usize, inverse: bool)
        requires
            1 <= self.spec_unit_length() <= 8,
            at + self.spec_unit_length() * count <= old(work)@.len(),
        ensures
            final(work)@.len() == old(work)@.len(),
            final(work)@ == old(work)@.subrange(0, at as int) + self.spec_converted(
                old(work)@.subrange(at as int, at + self.spec_unit_length() * count),
                inverse,
            ) + old(work)@.subrange(
                at + self.spec_unit_length() * count,
                old(work)@.len() as int,
            ),
    {
        let len: usize = (self.length / 8) as usize;
        let total: usize = work.len();
        let ghost before = work@;
        let ghost end: int = at + len * count;
        let ghost src = before.subrange(at as int, end);
        let mut k: usize = 0;
        let mut pos: usize = at;
        proof {
            assert(len * 0 == 0);
            assert(before.subrange(at as int, at as int) =~= Seq::<u8>::empty());
            assert(work@ =~= before.subrange(0, at as int) + before.subrange(at as int, at as int)
                + before.subrange(at as int, before.len() as int));
            assert(src.subrange(0, src.len() as int) =~= src);
        }
        while k < count
            invariant
                k <= count,
                len == self.spec_unit_length(),
                1 <= len <= 8,
                pos == at + len * k,
                end == at + len * count,
                end <= before.len() <= usize::MAX,
                src == before.subrange(at as int, end),
                work@.len() == before.len(),
                work@ == before.subrange(0, at as int) + work@.subrange(at as int, pos as int)
                    + before.subrange(pos as int, before.len() as int),
                work@.subrange(at as int, pos as int) + self.spec_converted(
                    src.subrange(pos - at, src.len() as int),
                    inverse,
                ) == self.spec_converted(src, inverse),
            decreases count - k,
        {
            proof {
                assert(len * (k + 1) <= len * count) by (nonlinear_arith)
                    requires
                        k < count,
                        len >= 1,
                ;
                assert(len * (k + 1) == len * k + len) by (nonlinear_arith);
            }
            let ghost rest = src.subrange(pos - at, src.len() as int);
            let ghost unit = rest.subrange(0, len as int);
            let ghost prev = work@;
            proof {
                assert(work@.subrange(pos as int, pos + len) =~= before.subrange(
                    pos as int,
                    pos + len,
                ));
                assert(unit =~= before.subrange(pos as int, pos + len));
                assert(rest.subrange(len as int, rest.len() as int) =~= src.subrange(
                    pos + len - at,
                    src.len() as int,
                ));
            }
            if inverse {
                let v: u64 = read_le(work.as_slice(), pos, len);
                let x: u64 = self.to_hardware(v, len as u32);
                if self.is_be {
                    write_be(work, pos, len, x);
                } else {
                    write_le(work, pos, len, x);
                }
            } else {
                let v: u64 = if self.is_be {
                    read_be(work.as_slice(), pos, len)
                } else {
                    read_le(work.as_slice(), pos, len)
                };
                let x: u64 = self.to_host(v, len as u32);
                write_le(work, pos, len, x);
            }
            proof {
                let out = work@.subrange(pos as int, pos + len);
                assert(work@.subrange(at as int, pos + len) =~= prev.subrange(
                    at as int,
                    pos as int,
                ) + out);
                assert(self.spec_converted(rest, inverse) == out + self.spec_converted(
                    rest.subrange(len as int, rest.len() as int),
                    inverse,
                ));
                assert(work@ =~= before.subrange(0, at as int) + work@.subrange(
                    at as int,
                    pos + len,
                ) + before.subrange(pos + len, before.len() as int));
            }
            pos = pos + len;
            k = k + 1;
        }
        proof {
            assert(src.subrange(pos - at, src.len() as int).len() == 0);
            assert(work@.subrange(at as int, pos as int) =~= self.spec_converted(src, inverse));
        }
    }

    /// Converts one sample of the format's type between the hardware's and
    /// the host's form.
    pub fn convert_value<T: Sample>(&self, val: T, inverse: bool) -> (r: T)
        requires
            self.spec_type_of() == Some(T::spec_kind()),
        ensures
            r == self.spec_convert_value(val, inverse),
    {
        let kind: SampleType = T::kind();
        let size: usize = kind.size();
        let mut work: Vec<u8> = Vec::new();
        let mut i: usize = 0;
        while i < size
            invariant
                i <= size <= 8,
                work@.len() == i,
            decreases size - i,
        {
            work.push(0u8);
            i = i + 1;
        }
        write_le(&mut work, 0, size, val.to_raw());
        proof {
            lemma_le_bytes_len(val.bits_of(), size as nat);
            assert(work@ =~= le_bytes(val.bits_of(), size as nat));
            assert((self.length / 8) * self.repeat == size);
            assert(1 <= self.length / 8 <= 8 && 1 <= self.repeat) by (nonlinear_arith)
                requires
                    (self.length / 8) * self.repeat == size,
                    1 <= size <= 8,
            ;
        }
        let ghost src = work@;
        self.convert_bytes(&mut work, 0, self.repeat as usize, inverse);
        proof {
            assert(src.subrange(0, 0 + self.spec_unit_length() * (self.repeat as usize)) =~= src);
            assert(work@ =~= self.spec_converted(src, inverse));
        }
        let raw: u64 = read_le(work.as_slice(), 0, size);
        proof {
            assert(work@.subrange(0, 0 + size) =~= work@);
        }
        T::from_raw(raw)
    }
}

/// The model of a channel.
pub struct ChannelView {
    /// The channel's ID
    pub id: Seq<char>,
    /// The channel's name, if it has one
    pub name: Option<Seq<char>>,
    /// Whether it is an output channel
    pub output: bool,
    /// Whether it can take part in buffered capture
    pub scan_element: bool,
    /// Its index among the scan elements, or a negative error code
    pub index: i32,
    /// Whether it is enabled for the buffers created from now on
    pub enabled: bool,
    /// The type of its data
    pub kind: ChannelType,
    /// The format of its samples
    pub format: DataFormat,
    /// Its attributes
    pub attrs: AttrSeq,
    /// The handle of the context that the channel was obtained from, if
    /// it was obtained from one
    pub context: Option<usize>,
}

impl ChannelView {
    /// Whether the channel goes by the given name in the given direction:
    /// the name is its ID or its name.
    pub open spec fn answers_to(self, name: Seq<char>, output: bool) -> bool {
        self.output == output && (self.id == name || self.name == Some(name))
    }

    /// The number of bytes that the channel takes in each row of a buffer:
    /// those of one sample where it is enabled, none where it is not.
    pub open spec fn row_bytes(self) -> nat {
        if self.enabled {
            self.format.spec_byte_length()
        } else {
            0
        }
    }
}

/// An Industrial I/O Device Channel
#[derive(Debug)]
pub struct Channel {
    pub(crate) id: String,
    pub(crate) name: Option<String>,
    pub(crate) output: bool,
    pub(crate) scan_element: bool,
    pub(crate) index: i32,
    pub(crate) enabled: bool,
    pub(crate) kind: ChannelType,
    pub(crate) format: DataFormat,
    pub(crate) attrs: Vec<Attr>,
    pub(crate) ctx: Option<Context>,
}

/// The model of an optional text.
pub open spec fn opt_text(s: Option<String>) -> Option<Seq<char>> {
    match s {
        Some(t) => Some(t@),
        None => None,
    }
}

/// Makes a copy of an optional text.
pub fn opt_copy(s: &Option<String>) -> (r: Option<String>)
    ensures
        opt_text(r) == opt_text(*s),
{
    match s {
        Some(t) => Some(t.clone()),
        None => None,
    }
}

impl View for Channel {
    type V = ChannelView;

    closed spec fn view(&self) -> ChannelView {
        ChannelView {
            id: self.id@,
            name: opt_text(self.name),
            output: self.output,
            scan_element: self.scan_element,
            index: self.index,
            enabled: self.enabled,
            kind: self.kind,
            format: self.format,
            attrs: attrs_view(self.attrs@),
            context: opt_handle(self.ctx),
        }
    }
}

impl Channel {
    /// Describes a channel. It starts out disabled and without attributes,
    /// and belongs to no context.
    pub fn new(
        id: &str,
        name: Option<&str>,
        dir: Direction,
        scan_element: bool,
        index: i32,
        kind: ChannelType,
        format: DataFormat,
    ) -> (c: Channel)
        ensures
            c@ == (ChannelView {
                id: id@,
                name: match name {
                    Some(n) => Some(n@),
                    None => None,
                },
                output: dir == Direction::Output,
                scan_element,
                index,
                enabled: false,
                kind,
                format,
                attrs: Seq::empty(),
                context: None,
            }),
    {
        let c = Channel {
            id: id.to_owned(),
            name: match name {
                Some(n) => Some(n.to_owned()),
                None => None,
            },
            output: match dir {
                Direction::Output => true,
                Direction::Input => false,
            },
            scan_element,
            index,
            enabled: false,
            kind,
            format,
            attrs: Vec::new(),
            ctx: None,
        };
        proof {
            assert(attrs_view(c.attrs@) =~= Seq::empty());
        }
        c
    }

    /// Adds an attribute with its current value to the channel. An
    /// attribute that the channel has already gets the value.
    pub fn add_attr(&mut self, name: &str, value: &str)
        ensures
            final(self)@ == (ChannelView {
                attrs: attr_entered(old(self)@.attrs, name@, value@),
                ..old(self)@
            }),
            attrs_distinct(old(self)@.attrs) ==> attrs_distinct(final(self)@.attrs),
    {
        attr_enter(&mut self.attrs, name, value);
    }

    /// Makes a copy of the channel in its current state.
    pub fn copy(&self) -> (c: Channel)
        ensures
            c@ == self@,
    {
        Channel {
            id: self.id.clone(),
            name: opt_copy(&self.name),
            output: self.output,
            scan_element: self.scan_element,
            index: self.index,
            enabled: self.enabled,
            kind: self.kind,
            format: self.format,
            attrs: attrs_copy(&self.attrs),
            ctx: ctx_copy(&self.ctx),
        }
    }

    /// Makes a copy of the channel that belongs to the given context, if
    /// one is given, and is a holder of its session.
    pub fn attached(&self, ctx: &Option<Context>) -> (c: Channel)
        ensures
            c@ == (ChannelView { context: opt_handle(*ctx), ..self@ }),
    {
        Channel {
            id: self.id.clone(),
            name: opt_copy(&self.name),
            output: self.output,
            scan_element: self.scan_element,
            index: self.index,
            enabled: self.enabled,
            kind: self.kind,
            format: self.format,
            attrs: attrs_copy(&self.attrs),
            ctx: ctx_copy(ctx),
        }
    }

    /// Gets the context to which the channel belongs, if it was obtained
    /// from one: another holder of that session.
    pub fn context(&self) -> (r: Option<Context>)
        ensures
            opt_handle(r) == self@.context,
    {
        ctx_copy(&self.ctx)
    }

    /// Retrieves the name of the channel (e.g. <b><i>vccint</i></b>)
    pub fn name(&self) -> (r: Option<String>)
        ensures
            opt_text(r) == self@.name,
    {
        opt_copy(&self.name)
    }

    /// Retrieve the channel ID (e.g. <b><i>voltage0</i></b>)
    pub fn id(&self) -> (r: Option<String>)
        ensures
            opt_text(r) == Some(self@.id),
    {
        Some(self.id.clone())
    }

    /// Determines if this is an output channel.
    pub fn is_output(&self) -> (r: bool)
        ensures
            r == self@.output,
    {
        self.output
    }

    /// Determines if the channel is a scan element
    ///
    /// A scan element is a channel that can generate samples (for an
    /// input  channel) or receive samples (for an output channel) after
    /// being enabled.
    pub fn is_scan_element(&self) -> (r: bool)
        ensures
            r == self@.scan_element,
    {
        self.scan_element
    }

    /// Tells whether the channel goes by the given name in the given
    /// direction.
    pub fn answers_to(&self, name: &str, output: bool) -> (r: bool)
        ensures
            r == self@.answers_to(name@, output),
    {
        if self.output != output {
            return false;
        }
        let wanted: String = name.to_owned();
        if self.id == wanted {
            return true;
        }
        match &self.name {
            Some(n) => *n == wanted,
            None => false,
        }
    }

    /// Gets the index of the channel in the device
    pub fn index(&self) -> (r: Result<usize>)
        ensures
            self@.index >= 0 ==> r == Ok::<usize, Error>(self@.index as usize),
            self@.index < 0 ==> r == Err::<usize, Error>(
                Error::Nix(errno_of(code_of_return(self@.index))),
            ),
    {
        if self.index >= 0 {
            sys_result(self.index, self.index as usize)
        } else {
            sys_result(self.index, 0)
        }
    }

    /// Determines if the channel has any attributes
    pub fn has_attrs(&self) -> (r: bool)
        ensures
            r == (self@.attrs.len() > 0),
    {
        self.attrs.len() > 0
    }

    /// Gets the number of attributes for the channel
    pub fn num_attrs(&self) -> (n: usize)
        ensures
            n == self@.attrs.len(),
    {
        self.attrs.len()
    }

    /// Determines if the channel has the specified attribute.
    pub fn has_attr(&self, attr: &str) -> (r: bool)
        ensures
            r == (!has_nul(attr@) && attr_known(self@.attrs, attr@)),
    {
        match find_nul(attr) {
            Some(_) => false,
            None => attr_find(&self.attrs, attr).is_some(),
        }
    }

    /// Gets the channel-specific attribute at the index
    pub fn get_attr(&self, idx: usize) -> (r: Result<String>)
        ensures
            idx < self@.attrs.len() ==> (r matches Ok(name) && name@ == self@.attrs[idx as int].0),
            idx >= self@.attrs.len() ==> r == Err::<String, Error>(Error::InvalidIndex),
    {
        if idx < self.attrs.len() {
            Ok(self.attrs[idx].name.clone())
        } else {
            Err(Error::InvalidIndex)
        }
    }

    /// Try to find the channel-specific attribute by name.
    pub fn find_attr(&self, name: &str) -> (r: Option<String>)
        ensures
            !has_nul(name@) && attr_known(self@.attrs, name@) ==> (r matches Some(n) && n@
                == name@),
            has_nul(name@) || !attr_known(self@.attrs, name@) ==> r is None,
    {
        match find_nul(name) {
            Some(_) => None,
            None => match attr_find(&self.attrs, name) {
                Some(i) => {
                    proof {
                        crate::attrs::lemma_first_where(
                            attrs_view(self.attrs@),
                            crate::attrs::named(name@),
                        );
                    }
                    Some(self.attrs[i].name.clone())
                },
                None => None,
            },
        }
    }

    /// Reads a channel-specific attribute
    ///
    /// `attr` The name of the attribute
    pub fn attr_read<T: FromAttribute>(&self, attr: &str) -> (r: Result<T>)
        ensures
            attr_read_typed_spec::<T>(self@.attrs, attr@, r),
    {
        attr_get_typed::<T>(&self.attrs, attr)
    }

    /// Reads a channel-specific attribute as a string
    ///
    /// `attr` The name of the attribute
    pub fn attr_read_str(&self, attr: &str) -> (r: Result<String>)
        ensures
            attr_read_spec(self@.attrs, attr@, r),
    {
        attr_get(&self.attrs, attr)
    }

    /// Reads a channel-specific attribute as a boolean
    /// `attr` The name of the attribute
    pub fn attr_read_bool(&self, attr: &str) -> (r: Result<bool>)
        ensures
            attr_read_typed_spec::<bool>(self@.attrs, attr@, r),
    {
        attr_get_typed::<bool>(&self.attrs, attr)
    }

    /// Reads a channel-specific attribute as an integer (i64)
    ///
    /// `attr` The name of the attribute
    pub fn attr_read_int(&self, attr: &str) -> (r: Result<i64>)
        ensures
            attr_read_typed_spec::<i64>(self@.attrs, attr@, r),
    {
        attr_get_typed::<i64>(&self.attrs, attr)
    }

    /// Reads all the channel-specific attributes.
    /// This is especially useful when using the network backend to
    /// retrieve all the attributes with a single call.
    pub fn attr_read_all(&self) -> (r: Result<Vec<(String, String)>>)
        ensures
            r matches Ok(all) && all@.len() == self@.attrs.len() && forall|k: int|
                0 <= k < all@.len() ==> ((#[trigger] all@[k]).0@, all@[k].1@) == self@.attrs[k],
    {
        Ok(attrs_pairs(&self.attrs))
    }

    /// Writes a channel-specific attribute
    ///
    /// `attr` The name of the attribute
    /// `val` The value to write
    pub fn attr_write<T: ToAttribute>(&mut self, attr: &str, val: T) -> (r: Result<()>)
        ensures
            attr_write_spec(old(self)@.attrs, attr@, val.attr_text(), r),
            final(self)@ == (ChannelView {
                attrs: attr_written(old(self)@.attrs, attr@, val.attr_text()),
                ..old(self)@
            }),
            attrs_distinct(old(self)@.attrs) ==> attrs_distinct(final(self)@.attrs),
    {
        attr_set_typed::<T>(&mut self.attrs, attr, val)
    }

    /// Writes a channel-specific attribute as a string
    ///
    /// `attr` The name of the attribute
    /// `val` The value to write
    pub fn attr_write_str(&mut self, attr: &str, val: &str) -> (r: Result<()>)
        ensures
            attr_write_spec(old(self)@.attrs, attr@, val@, r),
            final(self)@ == (ChannelView {
                attrs: attr_written(old(self)@.attrs, attr@, val@),
                ..old(self)@
            }),
            attrs_distinct(old(self)@.attrs) ==> attrs_distinct(final(self)@.attrs),
    {
        attr_set(&mut self.attrs, attr, val)
    }

    /// Writes a channel-specific attribute as a boolean
    ///
    /// `attr` The name of the attribute
    /// `val` The value to write
    pub fn attr_write_bool(&mut self, attr: &str, val: bool) -> (r: Result<()>)
        ensures
            attr_write_spec(old(self)@.attrs, attr@, val.attr_text(), r),
            final(self)@ == (ChannelView {
                attrs: attr_written(old(self)@.attrs, attr@, val.attr_text()),
                ..old(self)@
            }),
            attrs_distinct(old(self)@.attrs) ==> attrs_distinct(final(self)@.attrs),
    {
        attr_set_typed::<bool>(&mut self.attrs, attr, val)
    }

    /// Writes a channel-specific attribute as an integer (i64)
    ///
    /// `attr` The name of the attribute
    /// `val` The value to write
    pub fn attr_write_int(&mut self, attr: &str, val: i64) -> (r: Result<()>)
        ensures
            attr_write_spec(old(self)@.attrs, attr@, val.attr_text(), r),
            final(self)@ == (ChannelView {
                attrs: attr_written(old(self)@.attrs, attr@, val.attr_text()),
                ..old(self)@
            }),
            attrs_distinct(old(self)@.attrs) ==> attrs_distinct(final(self)@.attrs),
    {
        attr_set_typed::<i64>(&mut self.attrs, attr, val)
    }

    /// Gives the attributes of the channel with their values.
    pub fn attr_list(&self) -> (a: &Vec<Attr>)
        ensures
            attrs_view(a@) == self@.attrs,
    {
        &self.attrs
    }

    /// Gets an iterator for the attributes of the channel
    pub fn attrs(&self) -> (it: AttrIterator<'_>)
        ensures
            it.names() == self@.attrs,
            it.position() == 0,
    {
        AttrIterator { chan: self, idx: 0 }
    }

    /// Enable the channel
    ///
    /// Before creating a buffer, at least one channel of the device
    /// must be enabled. Only a scan element can be enabled: on any other
    /// channel this does nothing.
    pub fn enable(&mut self)
        ensures
            final(self)@ == (ChannelView {
                enabled: old(self)@.enabled || old(self)@.scan_element,
                ..old(self)@
            }),
    {
        if self.scan_element {
            self.enabled = true;
        }
    }

    /// Disable the channel
    pub fn disable(&mut self)
        ensures
            final(self)@ == (ChannelView { enabled: false, ..old(self)@ }),
    {
        self.enabled = false;
    }

    /// Determines if the channel is enabled
    pub fn is_enabled(&self) -> (r: bool)
        ensures
            r == self@.enabled,
    {
        self.enabled
    }

    // ----- Data Type and Conversion -----
    /// Gets the data format for the channel
    pub fn data_format(&self) -> (f: DataFormat)
        ensures
            f == self@.format,
    {
        self.format
    }

    /// Gets the host integer type for a single sample from the channel.
    ///
    /// This will get the type for a sample if it can fit into a standard
    /// integer type, signed or unsigned, of 8, 16, 32, or 64 bits.
    pub fn type_of(&self) -> (t: Option<SampleType>)
        ensures
            t == self@.format.spec_type_of(),
    {
        self.format.type_of()
    }

    /// Gets the type of data associated with the channel
    pub fn channel_type(&self) -> (t: ChannelType)
        ensures
            t == self@.kind,
    {
        self.kind
    }

    /// Tells whether samples of the channel can be read as the type `T`.
    pub fn holds<T: Sample>(&self) -> (r: bool)
        ensures
            r == (self@.format.spec_type_of() == Some(T::spec_kind())),
    {
        match self.format.type_of() {
            Some(t) => t == T::kind(),
            None => false,
        }
    }

    /// Converts a single sample from the hardware format to the host format.
    ///
    /// To be properly converted, the value must be the same type as that of
    /// the channel, including size and sign. If not, the value is returned
    /// as it is.
    pub fn convert<T: Sample>(&self, val: T) -> (r: T)
        ensures
            r == if self@.format.spec_type_of() == Some(T::spec_kind()) {
                self@.format.spec_convert_value(val, false)
            } else {
                val
            },
    {
        if self.holds::<T>() {
            self.format.convert_value(val, false)
        } else {
            val
        }
    }

    /// Converts a sample from the host format to the hardware format.
    ///
    /// To be properly converted, the value must be the same type as that of
    /// the channel, including size and sign. If not, the value is returned
    /// as it is.
    pub fn convert_inverse<T: Sample>(&self, val: T) -> (r: T)
        ensures
            r == if self@.format.spec_type_of() == Some(T::spec_kind()) {
                self@.format.spec_convert_value(val, true)
            } else {
                val
            },
    {
        if self.holds::<T>() {
            self.format.convert_value(val, true)
        } else {
            val
        }
    }
}

/// The samples after each was converted to the hardware's form.
pub open spec fn converted_items<T: Sample>(f: DataFormat, items: Seq<T>) -> Seq<T> {
    Seq::new(items.len(), |i: int| f.spec_convert_value(items[i], true))
}

/// Settles what a native read into `v` handed back: `sz` bytes returned
/// where `sz_in` were asked for, with samples of `sz_item` bytes. More
/// bytes than were asked for are an error; fewer leave only the samples
/// that they make up.
pub fn finish_read<T>(v: Vec<T>, sz: usize, sz_in: usize, sz_item: usize) -> (r: Result<Vec<T>>)
    requires
        sz_item > 0,
    ensures
        sz > sz_in ==> r == Err::<Vec<T>, Error>(Error::BadReturnSize),
        sz == sz_in ==> (r matches Ok(w) && w@ == v@),
        sz < sz_in && sz / sz_item <= v@.len() ==> (r matches Ok(w) && w@ == v@.subrange(
            0,
            (sz / sz_item) as int,
        )),
        sz < sz_in && sz / sz_item > v@.len() ==> (r matches Ok(w) && w@ == v@),
{
    if sz > sz_in {
        return Err(Error::BadReturnSize);
    }
    let mut v = v;
    if sz < sz_in {
        v.truncate(sz / sz_item);
    }
    Ok(v)
}

impl Channel {
    /// Demultiplex and convert the samples of a given channel.
    ///
    /// The samples come out as [`Channel::convert`] gives them. A type that
    /// is not that of the channel's samples is refused, and so is a buffer
    /// that holds more samples of the channel than it has rows.
    pub fn read<T: Sample>(&self, buf: &Buffer) -> (r: Result<Vec<T>>)
        ensures
            self@.format.spec_type_of() != Some(T::spec_kind()) ==> r == Err::<Vec<T>, Error>(
                Error::WrongDataType,
            ),
            self@.format.spec_type_of() == Some(T::spec_kind()) && buf@.channel_samples::<T>(
                self@,
                true,
            ).len() > buf@.capacity ==> r == Err::<Vec<T>, Error>(Error::BadReturnSize),
            self@.format.spec_type_of() == Some(T::spec_kind()) && buf@.channel_samples::<T>(
                self@,
                true,
            ).len() <= buf@.capacity ==> (r matches Ok(v) && v@ == buf@.channel_samples::<T>(
                self@,
                true,
            )),
    {
        match buf.demux::<T>(self, true) {
            Ok(v) => {
                if v.len() > buf.capacity() {
                    Err(Error::BadReturnSize)
                } else {
                    Ok(v)
                }
            },
            Err(e) => Err(e),
        }
    }

    /// Demultiplex the samples of a given channel.
    ///
    /// The samples come out as they lie in the buffer. A type that is not
    /// that of the channel's samples is refused, and so is a buffer that
    /// holds more samples of the channel than it has rows.
    pub fn read_raw<T: Sample>(&self, buf: &Buffer) -> (r: Result<Vec<T>>)
        ensures
            self@.format.spec_type_of() != Some(T::spec_kind()) ==> r == Err::<Vec<T>, Error>(
                Error::WrongDataType,
            ),
            self@.format.spec_type_of() == Some(T::spec_kind()) && buf@.channel_samples::<T>(
                self@,
                false,
            ).len() > buf@.capacity ==> r == Err::<Vec<T>, Error>(Error::BadReturnSize),
            self@.format.spec_type_of() == Some(T::spec_kind()) && buf@.channel_samples::<T>(
                self@,
                false,
            ).len() <= buf@.capacity ==> (r matches Ok(v) && v@ == buf@.channel_samples::<T>(
                self@,
                false,
            )),
    {
        match buf.demux::<T>(self, false) {
            Ok(v) => {
                if v.len() > buf.capacity() {
                    Err(Error::BadReturnSize)
                } else {
                    Ok(v)
                }
            },
            Err(e) => Err(e),
        }
    }

    /// Convert and multiplex the samples of a given channel.
    /// Returns the number of items written.
    ///
    /// Each sample is laid down as [`Channel::convert_inverse`] gives it.
    pub fn write<T: Sample>(&self, buf: &mut Buffer, data: &[T]) -> (r: Result<usize>)
        ensures
            old(buf)@.wf() ==> final(buf)@.wf(),
            self@.format.spec_type_of() != Some(T::spec_kind()) ==> r == Err::<usize, Error>(
                Error::WrongDataType,
            ) && final(buf)@ == old(buf)@,
            self@.format.spec_type_of() == Some(T::spec_kind()) ==> final(buf)@ == (BufferView {
                data: scattered::<T>(
                    old(buf)@.data,
                    old(buf)@.first_of(self@),
                    old(buf)@.valid,
                    old(buf)@.step,
                    converted_items::<T>(self@.format, data@),
                ),
                ..old(buf)@
            }),
            self@.format.spec_type_of() == Some(T::spec_kind()) ==> (r matches Ok(n) && n
                == placed(
                old(buf)@.data.len(),
                T::spec_kind().spec_size(),
                old(buf)@.first_of(self@),
                old(buf)@.valid,
                old(buf)@.step,
                data@.len(),
            )),
    {
        if !self.holds::<T>() {
            return Err(Error::WrongDataType);
        }
        let count: usize = data.len();
        let mut items: Vec<T> = Vec::new();
        let mut i: usize = 0;
        while i < count
            invariant
                i <= count == data@.len(),
                items@.len() == i,
                self@.format.spec_type_of() == Some(T::spec_kind()),
                forall|k: int|
                    0 <= k < i ==> #[trigger] items@[k] == self@.format.spec_convert_value(
                        data@[k],
                        true,
                    ),
            decreases count - i,
        {
            items.push(self.format.convert_value(data[i], true));
            i = i + 1;
        }
        proof {
            assert(items@ =~= converted_items::<T>(self@.format, data@));
        }
        buf.mux::<T>(self, items.as_slice())
    }

    /// Multiplex the samples of a given channel.
    /// Returns the number of items written.
    ///
    /// The samples are laid down as they are, without conversion.
    pub fn write_raw<T: Sample>(&self, buf: &mut Buffer, data: &[T]) -> (r: Result<usize>)
        ensures
            old(buf)@.wf() ==> final(buf)@.wf(),
            self@.format.spec_type_of() != Some(T::spec_kind()) ==> r == Err::<usize, Error>(
                Error::WrongDataType,
            ) && final(buf)@ == old(buf)@,
            self@.format.spec_type_of() == Some(T::spec_kind()) ==> final(buf)@ == (BufferView {
                data: scattered::<T>(
                    old(buf)@.data,
                    old(buf)@.first_of(self@),
                    old(buf)@.valid,
                    old(buf)@.step,
                    data@,
                ),
                ..old(buf)@
            }),
            self@.format.spec_type_of() == Some(T::spec_kind()) ==> (r matches Ok(n) && n
                == placed(
                old(buf)@.data.len(),
                T::spec_kind().spec_size(),
                old(buf)@.first_of(self@),
                old(buf)@.valid,
                old(buf)@.step,
                data@.len(),
            )),
    {
        buf.mux::<T>(self, data)
    }
}

impl Clone for Channel {
    /// The clone has the state of the channel.
    fn clone(&self) -> (c: Channel)
        ensures
            c@ == self@,
    {
        self.copy()
    }
}

/// Iterator over the attributes of a Channel
#[derive(Debug)]
pub struct AttrIterator<'a> {
    /// Reference to the Channel that we're scanning for attributes
    chan: &'a Channel,
    /// Index for the next Channel attribute from the iterator
    idx: usize,
}

impl<'a> AttrIterator<'a> {
    /// The attributes of the channel that the iterator walks.
    pub closed spec fn names(&self) -> AttrSeq {
        self.chan@.attrs
    }

    /// The number of attributes that the iterator has handed out.
    pub closed spec fn position(&self) -> nat {
        self.idx as nat
    }

    /// Gets the next Channel attribute from the iterator
    pub fn next(&mut self) -> (r: Option<String>)
        ensures
            final(self).names() == old(self).names(),
            old(self).position() < old(self).names().len() ==> (r matches Some(name) && name@
                == old(self).names()[old(self).position() as int].0),
            old(self).position() < old(self).names().len() ==> final(self).position() == old(
                self,
            ).position() + 1,
            old(self).position() >= old(self).names().len() ==> r is None,
            old(self).position() >= old(self).names().len() ==> final(self).position() == old(
                self,
            ).position(),
    {
        if self.idx < self.chan.num_attrs() {
            match self.chan.get_attr(self.idx) {
                Ok(name) => {
                    self.idx = self.idx + 1;
                    Some(name)
                },
                Err(_) => None,
            }
        } else {
            None
        }
    }
}


} // verus!
