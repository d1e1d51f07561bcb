//! Industrial I/O Buffers.
//!
//! The process of capturing samples from or uploading samples to hardware is
//! managed using [`Buffer`] and related methods.
//!
//! It is important to keep in mind that an instance of [`Buffer`] is always
//! coupled to exactly **one instance of [`Device`]**, and vice-versa.
//! [`Buffer`]s are allocated on a per-[`Device`] basis, and not per
//! [`Channel`]. In order to control which [`Channel`]s to capture in a
//! [`Buffer`], the respective [`Channel`]s must be enabled or disabled
//! before the [`Buffer`] is created: it keeps the device as it was then.
//!
//! The memory of a buffer is a sequence of rows. A row holds one sample of
//! each enabled channel, in the order of the channels, without gaps.
//! Moving samples between the memory and the hardware is the work of the
//! caller: [`Buffer::refill`] takes what a transfer from the hardware
//! returned, and [`Buffer::bytes`] gives what a transfer to it sends.

use core::marker::PhantomData;
use vstd::prelude::*;
use crate::attr::{FromAttribute, ToAttribute};
use crate::attrs::{
    attrs_distinct, attr_find, attr_get, attr_get_typed, attr_known, attr_read_spec, attr_read_typed_spec,
    attr_set, attr_set_typed, attr_write_spec, attr_written, attrs_pairs, attrs_view, first_where,
    lemma_first_where, named, AttrSeq,
};
use crate::channel::{Channel, ChannelView, DataFormat};
use crate::device::{
    lemma_row_offset, lemma_row_offsets_apart, row_offset, row_size, same_channel, Device,
    DeviceView,
};
use crate::errors::{
    code_of_count, errno_from_raw, errno_of, sys_result_count, Error, Result, EBADF, EINVAL,
};
use crate::sample::{le_bytes, le_value, lemma_le_round_trip, read_le, write_le, Sample};
use crate::text::{find_nul, has_nul};

verus! {

/// The sample of type `T` that the bytes hold, in the form asked for: as
/// it lies in memory, or converted by the given format.
pub open spec fn sample_of<T: Sample>(bytes: Seq<u8>, conv: Option<DataFormat>) -> T {
    let raw = T::of_bits(le_value(bytes));
    match conv {
        Some(f) => f.spec_convert_value(raw, false),
        None => raw,
    }
}

/// The samples of type `T` that lie in `data` at `pos` and then at every
/// `stride` bytes, as long as a whole sample lies before `end`. A stride of
/// zero gives no sample.
pub open spec fn strided<T: Sample>(
    data: Seq<u8>,
    pos: nat,
    end: nat,
    stride: nat,
    conv: Option<DataFormat>,
) -> Seq<T>
    decreases
        (if end >= pos {
            end - pos
        } else {
            0
        }),
{
    let size = T::spec_kind().spec_size();
    if stride == 0 || pos + size > end || end > data.len() {
        Seq::<T>::empty()
    } else {
        seq![sample_of::<T>(data.subrange(pos as int, (pos + size) as int), conv)] + strided::<T>(
            data,
            pos + stride,
            end,
            stride,
            conv,
        )
    }
}

/// The memory after the samples were laid down in it at `pos` and then at
/// every `stride` bytes, as long as a whole sample fits before `end`:
/// samples for which there is no room are left out.
pub open spec fn scattered<T: Sample>(
    data: Seq<u8>,
    pos: nat,
    end: nat,
    stride: nat,
    items: Seq<T>,
) -> Seq<u8>
    decreases items.len(),
{
    let size = T::spec_kind().spec_size();
    if items.len() == 0 || stride == 0 || pos + size > end || end > data.len() {
        data
    } else {
        scattered::<T>(
            data.subrange(0, pos as int) + le_bytes(items[0].bits_of(), size) + data.subrange(
                (pos + size) as int,
                data.len() as int,
            ),
            pos + stride,
            end,
            stride,
            items.drop_first(),
        )
    }
}

/// The number of samples for which there is room at `pos` and then at
/// every `stride` bytes before `end`.
pub open spec fn slots(size: nat, pos: nat, end: nat, stride: nat) -> nat
    decreases
        (if end >= pos {
            end - pos
        } else {
            0
        }),
{
    if stride == 0 || size == 0 || pos + size > end {
        0
    } else {
        1 + slots(size, pos + stride, end, stride)
    }
}

/// The number of the given samples that find room in a memory of `total`
/// bytes, at `pos` and then at every `stride` bytes before `end`.
pub open spec fn placed(
    total: nat,
    size: nat,
    pos: nat,
    end: nat,
    stride: nat,
    count: nat,
) -> nat {
    if end > total {
        0
    } else if count <= slots(size, pos, end, stride) {
        count
    } else {
        slots(size, pos, end, stride)
    }
}

/// From a place at or after the end, no sample is read, none is laid
/// down, and there is room for none.
pub proof fn lemma_past_end<T: Sample>(
    data: Seq<u8>,
    pos: nat,
    end: nat,
    stride: nat,
    conv: Option<DataFormat>,
    items: Seq<T>,
)
    requires
        pos >= end,
    ensures
        strided::<T>(data, pos, end, stride, conv) == Seq::<T>::empty(),
        scattered::<T>(data, pos, end, stride, items) == data,
        slots(T::spec_kind().spec_size(), pos, end, stride) == 0,
{
}

/// The model of a buffer.
pub struct BufferView {
    /// The device as it was when the buffer was created
    pub device: DeviceView,
    /// The number of rows
    pub capacity: nat,
    /// The number of bytes of a row
    pub step: nat,
    /// The sample memory
    pub data: Seq<u8>,
    /// The number of bytes at the start of the memory that hold samples
    pub valid: nat,
    /// Whether the buffer was cancelled
    pub cancelled: bool,
    /// Whether transfers wait for the hardware
    pub blocking: bool,
    /// Whether the samples are replayed until the buffer is cancelled
    pub cyclic: bool,
}

impl BufferView {
    /// What holds of every buffer: a row is as long as the samples of the
    /// enabled channels together, the memory holds the rows of the
    /// capacity, and no more bytes than it has hold samples.
    pub open spec fn wf(self) -> bool {
        &&& self.step == row_size(self.device.channels)
        &&& self.data.len() == self.capacity * self.step
        &&& self.valid <= self.data.len()
    }

    /// The place in the memory of the first sample of the channel, or the
    /// end of the samples where the channel was not enabled when the
    /// buffer was created.
    pub open spec fn first_of(self, chan: ChannelView) -> nat {
        let i = first_where(self.device.channels, same_channel(chan));
        if i < self.device.channels.len() && self.device.channels[i].enabled {
            row_offset(self.device.channels, i)
        } else {
            self.valid
        }
    }

    /// The distance in bytes between two samples that are read as a type
    /// of `size` bytes: as many whole values of the type as fit in a row.
    pub open spec fn stride_for(self, size: nat) -> nat {
        if size == 0 {
            0
        } else {
            ((self.step / size) * size) as nat
        }
    }

    /// The samples of a channel, read as values of type `T` as they lie in
    /// the memory.
    pub open spec fn channel_items<T: Sample>(self, chan: ChannelView) -> Seq<T> {
        strided::<T>(
            self.data,
            self.first_of(chan),
            self.valid,
            self.stride_for(T::spec_kind().spec_size()),
            None,
        )
    }

    /// The samples of a channel whose samples can be read as the type `T`,
    /// one from each row, as they lie in the memory or converted by the
    /// channel's format.
    pub open spec fn channel_samples<T: Sample>(self, chan: ChannelView, convert: bool) -> Seq<T> {
        strided::<T>(
            self.data,
            self.first_of(chan),
            self.valid,
            self.step,
            if convert {
                Some(chan.format)
            } else {
                None
            },
        )
    }

    /// The buffer after a transfer from the hardware delivered `fresh`: the
    /// bytes lie at the start of the memory, as far as it has room, and
    /// they are the bytes that hold samples.
    pub open spec fn refilled(self, fresh: Seq<u8>) -> BufferView {
        let m = if fresh.len() <= self.data.len() {
            fresh.len()
        } else {
            self.data.len()
        };
        BufferView {
            data: fresh.subrange(0, m as int) + self.data.subrange(m as int, self.data.len() as int),
            valid: m,
            ..self
        }
    }

    /// The part of the memory that holds samples.
    pub open spec fn samples(self) -> Seq<u8> {
        self.data.subrange(
            0,
            if self.valid <= self.data.len() {
                self.valid as int
            } else {
                self.data.len() as int
            },
        )
    }

    /// Whether `n` rows of samples lie within the buffer.
    pub open spec fn has_rows(self, n: nat) -> bool {
        n <= self.capacity && n * self.step <= self.data.len()
    }

    /// The buffer after it was cancelled.
    pub open spec fn cancel(self) -> BufferView {
        BufferView { cancelled: true, ..self }
    }
}

/// Cancelling a buffer twice leaves it as cancelling it once.
pub proof fn lemma_cancel_idempotent(b: BufferView)
    ensures
        b.cancel().cancel() == b.cancel(),
        b.cancel().cancelled,
{
}

/// Where every row has room for the sample at `off`, the samples read from
/// row `k` on with the row as stride are one from each of the rows left,
/// each the sample that lies at `off` in its row.
pub proof fn lemma_strided_rows<T: Sample>(
    data: Seq<u8>,
    off: nat,
    step: nat,
    cap: nat,
    k: nat,
    conv: Option<DataFormat>,
)
    requires
        data.len() == cap * step,
        off + T::spec_kind().spec_size() <= step,
        k <= cap,
    ensures
        strided::<T>(data, off + k * step, cap * step, step, conv).len() == cap - k,
        forall|j: int|
            0 <= j < cap - k ==> #[trigger] strided::<T>(
                data,
                off + k * step,
                cap * step,
                step,
                conv,
            )[j] == sample_of::<T>(
                data.subrange(
                    off + (k + j) * step,
                    off + (k + j) * step + T::spec_kind().spec_size(),
                ),
                conv,
            ),
    decreases cap - k,
{
    let size = T::spec_kind().spec_size();
    let here = strided::<T>(data, off + k * step, cap * step, step, conv);
    if k == cap {
        assert(off + k * step + size > cap * step);
    } else {
        assert((k + 1) * step <= cap * step) by (nonlinear_arith)
            requires
                k < cap,
        ;
        assert((k + 1) * step == k * step + step) by (nonlinear_arith);
        lemma_strided_rows::<T>(data, off, step, cap, k + 1, conv);
        let rest = strided::<T>(data, off + (k + 1) * step, cap * step, step, conv);
        assert(off + k * step + step == off + (k + 1) * step);
        assert(here == seq![
            sample_of::<T>(
                data.subrange((off + k * step) as int, (off + k * step + size) as int),
                conv,
            ),
        ] + rest);
        assert forall|j: int| 0 <= j < cap - k implies #[trigger] here[j] == sample_of::<T>(
            data.subrange(off + (k + j) * step, off + (k + j) * step + size),
            conv,
        ) by {
            if j > 0 {
                assert(here[j] == rest[j - 1]);
                assert((k + 1 + (j - 1)) * step == (k + j) * step);
            } else {
                assert((k + j) * step == k * step);
            }
        }
    }
}

/// The iteration over a channel of a buffer that holds samples in full
/// yields as many values as the buffer has rows, where the type of the
/// values has the size of the channel's samples and the row holds a whole
/// number of such values. The values are the samples of the channel, one
/// from each row.
pub proof fn lemma_channel_iter_count<T: Sample>(b: BufferView, chan: ChannelView)
    requires
        b.wf(),
        b.valid == b.data.len(),
        first_where(b.device.channels, same_channel(chan)) < b.device.channels.len(),
        b.device.channels[first_where(b.device.channels, same_channel(chan))].enabled,
        b.device.channels[first_where(
            b.device.channels,
            same_channel(chan),
        )].format.spec_byte_length() == T::spec_kind().spec_size(),
        b.step % T::spec_kind().spec_size() == 0,
    ensures
        b.channel_items::<T>(chan).len() == b.capacity,
        forall|j: int|
            0 <= j < b.capacity ==> #[trigger] b.channel_items::<T>(chan)[j] == sample_of::<T>(
                b.data.subrange(
                    b.first_of(chan) + j * b.step,
                    b.first_of(chan) + j * b.step + T::spec_kind().spec_size(),
                ),
                None,
            ),
{
    let size = T::spec_kind().spec_size();
    let i = first_where(b.device.channels, same_channel(chan));
    lemma_first_where(b.device.channels, same_channel(chan));
    lemma_row_offset(b.device.channels, i);
    assert((b.step / size) * size == b.step) by (nonlinear_arith)
        requires
            b.step % size == 0,
            size > 0,
    ;
    assert(0 * b.step == 0);
    lemma_strided_rows::<T>(b.data, b.first_of(chan), b.step, b.capacity, 0, None);
    assert forall|j: int| 0 <= j < b.capacity implies #[trigger] b.channel_items::<T>(chan)[j]
        == sample_of::<T>(
        b.data.subrange(b.first_of(chan) + j * b.step, b.first_of(chan) + j * b.step + size),
        None,
    ) by {
        assert((0 + j) * b.step == j * b.step);
    }
}

/// After a refill that delivered the memory in full, the iteration over a
/// channel yields as many values as the buffer has rows, under the
/// conditions of `lemma_channel_iter_count`.
pub proof fn lemma_refill_then_iter<T: Sample>(b: BufferView, fresh: Seq<u8>, chan: ChannelView)
    requires
        b.wf(),
        fresh.len() >= b.data.len(),
        first_where(b.device.channels, same_channel(chan)) < b.device.channels.len(),
        b.device.channels[first_where(b.device.channels, same_channel(chan))].enabled,
        b.device.channels[first_where(
            b.device.channels,
            same_channel(chan),
        )].format.spec_byte_length() == T::spec_kind().spec_size(),
        b.step % T::spec_kind().spec_size() == 0,
    ensures
        b.refilled(fresh).wf(),
        b.refilled(fresh).data == fresh.subrange(0, b.data.len() as int),
        b.refilled(fresh).channel_items::<T>(chan).len() == b.capacity,
{
    let after = b.refilled(fresh);
    assert(after.data =~= fresh.subrange(0, b.data.len() as int));
    lemma_channel_iter_count::<T>(after, chan);
}

/// The samples of a channel that a buffer holds are no more than it has
/// rows.
pub proof fn lemma_samples_within_capacity<T: Sample>(
    b: BufferView,
    chan: ChannelView,
    convert: bool,
)
    requires
        b.wf(),
    ensures
        b.channel_samples::<T>(chan, convert).len() <= b.capacity,
{
    let conv = if convert {
        Some(chan.format)
    } else {
        None
    };
    lemma_strided_bound::<T>(b.data, b.first_of(chan), b.valid, b.step, conv, b.capacity, 0);
    assert(0 * b.step == 0);
}

/// With the row as stride, no more samples are read from row `k` on than
/// there are rows left.
pub proof fn lemma_strided_bound<T: Sample>(
    data: Seq<u8>,
    off: nat,
    end: nat,
    step: nat,
    conv: Option<DataFormat>,
    cap: nat,
    k: nat,
)
    requires
        end <= cap * step,
        k <= cap,
    ensures
        strided::<T>(data, off + k * step, end, step, conv).len() <= cap - k,
    decreases cap - k,
{
    let size = T::spec_kind().spec_size();
    if k == cap {
        assert(off + k * step + size > end);
    } else if step == 0 || off + k * step + size > end || end > data.len() {
    } else {
        assert((k + 1) * step == k * step + step) by (nonlinear_arith);
        lemma_strided_bound::<T>(data, off, end, step, conv, cap, k + 1);
        assert(off + k * step + step == off + (k + 1) * step);
    }
}

/// Laying samples down keeps the length of the memory and the bytes
/// before the place of the first sample.
pub proof fn lemma_scattered_keeps<T: Sample>(
    data: Seq<u8>,
    pos: nat,
    end: nat,
    stride: nat,
    items: Seq<T>,
)
    ensures
        scattered::<T>(data, pos, end, stride, items).len() == data.len(),
        forall|i: int|
            0 <= i < pos && i < data.len() ==> #[trigger] scattered::<T>(
                data,
                pos,
                end,
                stride,
                items,
            )[i] == data[i],
    decreases items.len(),
{
    let size = T::spec_kind().spec_size();
    if items.len() == 0 || stride == 0 || pos + size > end || end > data.len() {
    } else {
        lemma_le_round_trip(items[0].bits_of(), size);
        let next = data.subrange(0, pos as int) + le_bytes(items[0].bits_of(), size)
            + data.subrange((pos + size) as int, data.len() as int);
        lemma_scattered_keeps::<T>(next, pos + stride, end, stride, items.drop_first());
    }
}

/// Samples that were laid down with a stride that leaves room for each,
/// as many as there is room for, are read back as they were.
pub proof fn lemma_scatter_then_gather<T: Sample>(
    data: Seq<u8>,
    pos: nat,
    end: nat,
    stride: nat,
    items: Seq<T>,
)
    requires
        stride >= T::spec_kind().spec_size(),
        end <= data.len(),
        items.len() == slots(T::spec_kind().spec_size(), pos, end, stride),
    ensures
        strided::<T>(scattered::<T>(data, pos, end, stride, items), pos, end, stride, None)
            == items,
    decreases items.len(),
{
    let size = T::spec_kind().spec_size();
    let after = scattered::<T>(data, pos, end, stride, items);
    lemma_scattered_keeps::<T>(data, pos, end, stride, items);
    if items.len() == 0 {
        assert(strided::<T>(after, pos, end, stride, None) =~= items);
    } else {
        let bytes = le_bytes(items[0].bits_of(), size);
        lemma_le_round_trip(items[0].bits_of(), size);
        T::lemma_bits(items[0]);
        vstd::arithmetic::div_mod::lemma_small_mod(items[0].bits_of(), crate::sample::pow256(size));
        let next = data.subrange(0, pos as int) + bytes + data.subrange(
            (pos + size) as int,
            data.len() as int,
        );
        let rest = items.drop_first();
        lemma_scattered_keeps::<T>(next, pos + stride, end, stride, rest);
        lemma_scatter_then_gather::<T>(next, pos + stride, end, stride, rest);
        assert(after == scattered::<T>(next, pos + stride, end, stride, rest));
        assert(after.subrange(pos as int, (pos + size) as int) =~= bytes) by {
            assert forall|i: int| 0 <= i < size implies after[pos + i] == bytes[i] by {
                assert(after[pos + i] == next[pos + i]);
            }
        }
        assert(sample_of::<T>(bytes, None) == items[0]);
        assert(strided::<T>(after, pos, end, stride, None) =~= seq![items[0]] + rest);
        assert(seq![items[0]] + rest =~= items);
    }
}

/// Where every row has room for the sample at `off`, there is room for a
/// sample in each of the rows from row `k` on.
pub proof fn lemma_slots_rows(size: nat, off: nat, step: nat, cap: nat, k: nat)
    requires
        size > 0,
        off + size <= step,
        k <= cap,
    ensures
        slots(size, off + k * step, cap * step, step) == cap - k,
    decreases cap - k,
{
    if k == cap {
        assert(off + k * step + size > cap * step);
    } else {
        assert((k + 1) * step <= cap * step) by (nonlinear_arith)
            requires
                k < cap,
        ;
        assert((k + 1) * step == k * step + step) by (nonlinear_arith);
        lemma_slots_rows(size, off, step, cap, k + 1);
        assert(off + k * step + step == off + (k + 1) * step);
    }
}

/// A sample for each row, laid down as they are for a channel that was
/// enabled when the buffer was created, are the samples of the channel
/// that the buffer then holds: what was written is read back.
pub proof fn lemma_write_then_read<T: Sample>(b: BufferView, chan: ChannelView, items: Seq<T>)
    requires
        b.wf(),
        b.valid == b.data.len(),
        first_where(b.device.channels, same_channel(chan)) < b.device.channels.len(),
        b.device.channels[first_where(b.device.channels, same_channel(chan))].enabled,
        b.device.channels[first_where(
            b.device.channels,
            same_channel(chan),
        )].format.spec_byte_length() == T::spec_kind().spec_size(),
        items.len() == b.capacity,
    ensures
        placed(
            b.data.len(),
            T::spec_kind().spec_size(),
            b.first_of(chan),
            b.valid,
            b.step,
            items.len(),
        ) == items.len(),
        (BufferView {
            data: scattered::<T>(b.data, b.first_of(chan), b.valid, b.step, items),
            ..b
        }).channel_samples::<T>(chan, false) == items,
{
    let size = T::spec_kind().spec_size();
    let i = first_where(b.device.channels, same_channel(chan));
    lemma_first_where(b.device.channels, same_channel(chan));
    lemma_row_offset(b.device.channels, i);
    assert(0 * b.step == 0);
    lemma_slots_rows(size, b.first_of(chan), b.step, b.capacity, 0);
    lemma_scatter_then_gather::<T>(b.data, b.first_of(chan), b.valid, b.step, items);
}

/// The place in the memory of the sample at `off` in row `k`.
pub open spec fn row_place(off: nat, step: nat, k: nat) -> nat {
    off + k * step
}

/// Two samples that lie apart in a row lie apart in the memory, whatever
/// rows they are in.
pub proof fn lemma_places_apart(
    off_a: nat,
    size_a: nat,
    off_b: nat,
    size_b: nat,
    step: nat,
    k: nat,
    m: nat,
)
    requires
        off_a + size_a <= off_b || off_b + size_b <= off_a,
        off_a + size_a <= step,
        off_b + size_b <= step,
    ensures
        row_place(off_a, step, k) + size_a <= row_place(off_b, step, m) || row_place(
            off_b,
            step,
            m,
        ) + size_b <= row_place(off_a, step, k),
{
    if k < m {
        assert((k + 1) * step <= m * step) by (nonlinear_arith)
            requires
                k < m,
        ;
        assert((k + 1) * step == k * step + step) by (nonlinear_arith);
    } else if m < k {
        assert((m + 1) * step <= k * step) by (nonlinear_arith)
            requires
                m < k,
        ;
        assert((m + 1) * step == m * step + step) by (nonlinear_arith);
    }
}

/// Laying samples down, one in each row from row `k` on, keeps the bytes
/// of a range that lies apart from the place of the sample in each of
/// those rows.
pub proof fn lemma_scattered_apart<T: Sample>(
    data: Seq<u8>,
    off: nat,
    step: nat,
    k: nat,
    end: nat,
    items: Seq<T>,
    at: nat,
    len: nat,
)
    requires
        at + len <= data.len(),
        forall|r: nat|
            r >= k ==> #[trigger] row_place(off, step, r) + T::spec_kind().spec_size() <= at || at
                + len <= row_place(off, step, r),
    ensures
        scattered::<T>(data, row_place(off, step, k), end, step, items).len() == data.len(),
        scattered::<T>(data, row_place(off, step, k), end, step, items).subrange(
            at as int,
            (at + len) as int,
        ) == data.subrange(at as int, (at + len) as int),
    decreases items.len(),
{
    let size = T::spec_kind().spec_size();
    let pos = row_place(off, step, k);
    if items.len() == 0 || step == 0 || pos + size > end || end > data.len() {
    } else {
        lemma_le_round_trip(items[0].bits_of(), size);
        let next = data.subrange(0, pos as int) + le_bytes(items[0].bits_of(), size)
            + data.subrange((pos + size) as int, data.len() as int);
        assert(row_place(off, step, k) + size <= at || at + len <= row_place(off, step, k));
        assert(next.subrange(at as int, (at + len) as int) =~= data.subrange(
            at as int,
            (at + len) as int,
        ));
        assert(row_place(off, step, k + 1) == pos + step) by (nonlinear_arith)
            requires
                pos == off + k * step,
                row_place(off, step, k + 1) == off + (k + 1) * step,
        ;
        assert forall|r: nat| r >= k + 1 implies #[trigger] row_place(off, step, r) + size <= at
            || at + len <= row_place(off, step, r) by {
            assert(r >= k);
        }
        lemma_scattered_apart::<T>(next, off, step, k + 1, end, items.drop_first(), at, len);
    }
}

/// Samples read from two memories are the same where the memories have
/// the same length and hold the same bytes at the place of each sample.
pub proof fn lemma_strided_same<T: Sample>(
    one: Seq<u8>,
    other: Seq<u8>,
    off: nat,
    step: nat,
    m: nat,
    end: nat,
    conv: Option<DataFormat>,
)
    requires
        one.len() == other.len(),
        forall|r: nat|
            r >= m && row_place(off, step, r) + T::spec_kind().spec_size() <= one.len()
                ==> one.subrange(
                #[trigger] row_place(off, step, r) as int,
                (row_place(off, step, r) + T::spec_kind().spec_size()) as int,
            ) == other.subrange(
                row_place(off, step, r) as int,
                (row_place(off, step, r) + T::spec_kind().spec_size()) as int,
            ),
    ensures
        strided::<T>(one, row_place(off, step, m), end, step, conv) == strided::<T>(
            other,
            row_place(off, step, m),
            end,
            step,
            conv,
        ),
    decreases
        (if end >= row_place(off, step, m) {
            end - row_place(off, step, m)
        } else {
            0
        }),
{
    let size = T::spec_kind().spec_size();
    let pos = row_place(off, step, m);
    if step == 0 || pos + size > end || end > one.len() {
    } else {
        assert(row_place(off, step, m + 1) == pos + step) by (nonlinear_arith)
            requires
                pos == off + m * step,
                row_place(off, step, m + 1) == off + (m + 1) * step,
        ;
        assert(one.subrange(pos as int, (pos + size) as int) == other.subrange(
            pos as int,
            (pos + size) as int,
        ));
        assert forall|r: nat|
            r >= m + 1 && row_place(off, step, r) + size <= one.len() implies one.subrange(
            #[trigger] row_place(off, step, r) as int,
            (row_place(off, step, r) + size) as int,
        ) == other.subrange(
            row_place(off, step, r) as int,
            (row_place(off, step, r) + size) as int,
        ) by {
            assert(r >= m);
        }
        lemma_strided_same::<T>(one, other, off, step, m + 1, end, conv);
    }
}

/// Laying down the samples of one channel leaves the samples of every
/// other channel as they were.
pub proof fn lemma_write_keeps_others<T: Sample, U: Sample>(
    b: BufferView,
    chan: ChannelView,
    other: ChannelView,
    items: Seq<T>,
    convert: bool,
)
    requires
        b.wf(),
        first_where(b.device.channels, same_channel(chan)) < b.device.channels.len(),
        first_where(b.device.channels, same_channel(other)) < b.device.channels.len(),
        first_where(b.device.channels, same_channel(chan)) != first_where(
            b.device.channels,
            same_channel(other),
        ),
        b.device.channels[first_where(b.device.channels, same_channel(chan))].enabled,
        b.device.channels[first_where(b.device.channels, same_channel(other))].enabled,
        b.device.channels[first_where(
            b.device.channels,
            same_channel(chan),
        )].format.spec_byte_length() == T::spec_kind().spec_size(),
        b.device.channels[first_where(
            b.device.channels,
            same_channel(other),
        )].format.spec_byte_length() == U::spec_kind().spec_size(),
    ensures
        (BufferView {
            data: scattered::<T>(b.data, b.first_of(chan), b.valid, b.step, items),
            ..b
        }).channel_samples::<U>(other, convert) == b.channel_samples::<U>(other, convert),
{
    let chans = b.device.channels;
    let i = first_where(chans, same_channel(chan));
    let j = first_where(chans, same_channel(other));
    lemma_first_where(chans, same_channel(chan));
    lemma_first_where(chans, same_channel(other));
    let size_a = T::spec_kind().spec_size();
    let size_b = U::spec_kind().spec_size();
    let off_a = b.first_of(chan);
    let off_b = b.first_of(other);
    lemma_row_offset(chans, i);
    lemma_row_offset(chans, j);
    if i < j {
        lemma_row_offsets_apart(chans, i, j);
    } else {
        lemma_row_offsets_apart(chans, j, i);
    }
    let after = scattered::<T>(b.data, off_a, b.valid, b.step, items);
    let conv = if convert {
        Some(other.format)
    } else {
        None
    };
    assert(row_place(off_a, b.step, 0) == off_a);
    assert(row_place(off_b, b.step, 0) == off_b);
    lemma_scattered_keeps::<T>(b.data, off_a, b.valid, b.step, items);
    assert forall|r: nat|
        r >= 0 && row_place(off_b, b.step, r) + size_b <= after.len() implies after.subrange(
        #[trigger] row_place(off_b, b.step, r) as int,
        (row_place(off_b, b.step, r) + size_b) as int,
    ) == b.data.subrange(
        row_place(off_b, b.step, r) as int,
        (row_place(off_b, b.step, r) + size_b) as int,
    ) by {
        let at = row_place(off_b, b.step, r);
        assert forall|k: nat| k >= 0 implies #[trigger] row_place(off_a, b.step, k) + size_a <= at
            || at + size_b <= row_place(off_a, b.step, k) by {
            lemma_places_apart(off_a, size_a, off_b, size_b, b.step, k, r);
        }
        lemma_scattered_apart::<T>(b.data, off_a, b.step, 0, b.valid, items, at, size_b);
    }
    lemma_strided_same::<U>(after, b.data, off_b, b.step, 0, b.valid, conv);
}

/// The memory of a new buffer: `n` bytes of zero.
pub open spec fn zeros(n: nat) -> Seq<u8> {
    Seq::new(n, |i: int| 0u8)
}

/// How a transfer is to wait for the hardware.
#[derive(Debug, Clone, Copy, PartialEq, Eq, Structural)]
pub enum Wait {
    /// The buffer was cancelled: the transfer fails without waiting
    Cancelled,
    /// Do not wait: the transfer fails if the hardware is not ready
    Poll,
    /// Wait until the hardware is ready, however long it takes
    Forever,
    /// Wait until the hardware is ready, at most this number of milliseconds
    Millis(u32),
}

/// How a transfer on a buffer waits, given the timeout of its context in
/// milliseconds: a timeout of zero means no timeout.
pub open spec fn wait_of(b: BufferView, timeout_ms: u32) -> Wait {
    if b.cancelled {
        Wait::Cancelled
    } else if !b.blocking {
        Wait::Poll
    } else if timeout_ms == 0 {
        Wait::Forever
    } else {
        Wait::Millis(timeout_ms)
    }
}

/// An Industrial I/O input or output buffer.
///
/// See [here][crate::buffer] for a detailed explanation of how buffers work.
#[derive(Debug)]
pub struct Buffer {
    /// Copy of the device to which this device is attached.
    dev: Device,
    /// The buffer capacity (# samples from each channel)
    cap: usize,
    /// The number of bytes of one row of samples
    step: usize,
    /// The sample memory
    data: Vec<u8>,
    /// The number of bytes of the memory that hold samples
    valid: usize,
    /// Whether the buffer was cancelled
    cancelled: bool,
    /// Whether transfers wait for the hardware
    blocking: bool,
    /// Whether the samples are replayed
    cyclic: bool,
}

impl View for Buffer {
    type V = BufferView;

    closed spec fn view(&self) -> BufferView {
        BufferView {
            device: self.dev@,
            capacity: self.cap as nat,
            step: self.step as nat,
            data: self.data@,
            valid: self.valid as nat,
            cancelled: self.cancelled,
            blocking: self.blocking,
            cyclic: self.cyclic,
        }
    }
}

/// Collects the samples of type `T` that lie in `data` at `pos` and then at
/// every `stride` bytes before `end`.
pub fn gather<T: Sample>(
    data: &[u8],
    pos: usize,
    end: usize,
    stride: usize,
    conv: Option<DataFormat>,
) -> (r: Vec<T>)
    requires
        conv matches Some(f) ==> f.spec_type_of() == Some(T::spec_kind()),
    ensures
        r@ == strided::<T>(data@, pos as nat, end as nat, stride as nat, conv),
{
    let size: usize = T::kind().size();
    let total: usize = data.len();
    let mut out: Vec<T> = Vec::new();
    let mut at: usize = pos;
    let ghost whole = strided::<T>(data@, pos as nat, end as nat, stride as nat, conv);
    if stride == 0 || end > total {
        return out;
    }
    proof {
        assert(out@ + strided::<T>(data@, at as nat, end as nat, stride as nat, conv) =~= whole);
    }
    loop
        invariant_except_break
            out@ + strided::<T>(data@, at as nat, end as nat, stride as nat, conv) == whole,
        invariant
            size == T::spec_kind().spec_size(),
            1 <= size <= 8,
            stride > 0,
            end <= total == data@.len(),
            conv matches Some(f) ==> f.spec_type_of() == Some(T::spec_kind()),
            whole == strided::<T>(data@, pos as nat, end as nat, stride as nat, conv),
        ensures
            out@ == whole,
        decreases
            (if end >= at {
                end - at
            } else {
                0
            }),
    {
        if at > end || size > end - at {
            proof {
                assert(strided::<T>(data@, at as nat, end as nat, stride as nat, conv)
                    =~= Seq::<T>::empty());
                assert(out@ =~= whole);
            }
            break ;
        }
        let raw: u64 = read_le(data, at, size);
        let plain: T = T::from_raw(raw);
        let item: T = match conv {
            Some(f) => f.convert_value(plain, false),
            None => plain,
        };
        let ghost before = out@;
        out.push(item);
        proof {
            assert(item == sample_of::<T>(data@.subrange(at as int, at + size), conv));
            let rest = strided::<T>(data@, (at + stride) as nat, end as nat, stride as nat, conv);
            assert(strided::<T>(data@, at as nat, end as nat, stride as nat, conv) == seq![item]
                + rest);
            assert(out@ + rest =~= before + (seq![item] + rest));
        }
        if stride > end - at {
            proof {
                assert(strided::<T>(
                    data@,
                    (at + stride) as nat,
                    end as nat,
                    stride as nat,
                    conv,
                ) =~= Seq::<T>::empty());
                assert(out@ =~= whole);
            }
            break ;
        }
        at = at + stride;
    }
    out
}

/// Lays the samples down in `data` at `pos` and then at every `stride`
/// bytes before `end`, and tells how many of them found room.
pub fn scatter<T: Sample>(
    data: &mut Vec<u8>,
    pos: usize,
    end: usize,
    stride: usize,
    items: &[T],
) -> (n: usize)
    ensures
        final(data)@.len() == old(data)@.len(),
        final(data)@ == scattered::<T>(
            old(data)@,
            pos as nat,
            end as nat,
            stride as nat,
            items@,
        ),
        n == placed(
            old(data)@.len(),
            T::spec_kind().spec_size(),
            pos as nat,
            end as nat,
            stride as nat,
            items@.len(),
        ),
{
    let size: usize = T::kind().size();
    let total: usize = data.len();
    let count: usize = items.len();
    let ghost before = data@;
    let ghost whole = scattered::<T>(before, pos as nat, end as nat, stride as nat, items@);
    let ghost room = slots(size as nat, pos as nat, end as nat, stride as nat);
    let mut at: usize = pos;
    let mut k: usize = 0;
    if stride == 0 || end > total {
        return 0;
    }
    proof {
        assert(items@.subrange(0, items@.len() as int) =~= items@);
    }
    loop
        invariant_except_break
            whole == scattered::<T>(
                data@,
                at as nat,
                end as nat,
                stride as nat,
                items@.subrange(k as int, count as int),
            ),
            room == k + slots(size as nat, at as nat, end as nat, stride as nat),
        invariant
            size == T::spec_kind().spec_size(),
            1 <= size <= 8,
            stride > 0,
            k <= count == items@.len(),
            end <= total == data@.len(),
            data@.len() == before.len(),
        ensures
            data@ == whole,
            data@.len() == before.len(),
            k == if count <= room {
                count as nat
            } else {
                room
            },
        decreases count - k,
    {
        if k >= count || at > end || size > end - at {
            break ;
        }
        let ghost cur = data@;
        let ghost rest = items@.subrange(k as int, count as int);
        write_le(data, at, size, items[k].to_raw());
        proof {
            assert(rest[0] == items@[k as int]);
            assert(rest.drop_first() =~= items@.subrange(k + 1, count as int));
        }
        k = k + 1;
        if stride > end - at {
            proof {
                assert(slots(size as nat, (at + stride) as nat, end as nat, stride as nat) == 0);
                assert(scattered::<T>(
                    data@,
                    (at + stride) as nat,
                    end as nat,
                    stride as nat,
                    items@.subrange(k as int, count as int),
                ) == data@);
            }
            break ;
        }
        at = at + stride;
    }
    k
}

impl Buffer {
    /// Makes the buffer of `cap` rows for a device as it is.
    pub(crate) fn create(dev: Device, cap: usize, step: usize, cyclic: bool) -> (b: Buffer)
        requires
            step == row_size(dev@.channels),
            cap * step <= usize::MAX,
        ensures
            b@ == (BufferView {
                device: dev@,
                capacity: cap as nat,
                step: step as nat,
                data: zeros((cap * step) as nat),
                valid: (cap * step) as nat,
                cancelled: false,
                blocking: true,
                cyclic,
            }),
            b@.wf(),
    {
        let total: usize = cap * step;
        let mut data: Vec<u8> = Vec::new();
        let mut i: usize = 0;
        while i < total
            invariant
                i <= total,
                data@.len() == i,
                forall|k: int| 0 <= k < i ==> data@[k] == 0u8,
            decreases total - i,
        {
            data.push(0u8);
            i = i + 1;
        }
        proof {
            assert(data@ =~= zeros(total as nat));
        }
        Buffer { dev, cap, step, data, valid: total, cancelled: false, blocking: true, cyclic }
    }

    /// Get the buffer size.
    ///
    /// Get the buffer capacity in number of samples from each channel that
    /// the buffer can hold.
    pub fn capacity(&self) -> (n: usize)
        ensures
            n == self@.capacity,
    {
        self.cap
    }

    /// Gets a reference to the device to which this buffer is attached.
    pub fn device(&self) -> (d: &Device)
        ensures
            d@ == self@.device,
    {
        &self.dev
    }

    /// Gets the number of bytes of one row of samples.
    pub fn step(&self) -> (n: usize)
        ensures
            n == self@.step,
    {
        self.step
    }

    /// Gets the sample memory, as far as it holds samples: what a transfer
    /// to the hardware sends.
    pub fn bytes(&self) -> (b: &[u8])
        ensures
            b@ == self@.samples(),
    {
        let total: usize = self.data.len();
        let end: usize = if self.valid <= total {
            self.valid
        } else {
            total
        };
        vstd::slice::slice_subrange(self.data.as_slice(), 0, end)
    }

    /// Tells whether the samples are replayed until the buffer is
    /// cancelled.
    pub fn is_cyclic(&self) -> (r: bool)
        ensures
            r == self@.cyclic,
    {
        self.cyclic
    }

    /// Tells whether the buffer was cancelled.
    pub fn is_cancelled(&self) -> (r: bool)
        ensures
            r == self@.cancelled,
    {
        self.cancelled
    }

    /// Tells whether transfers wait for the hardware.
    pub fn is_blocking(&self) -> (r: bool)
        ensures
            r == self@.blocking,
    {
        self.blocking
    }

    /// Make calls to [`Buffer::push()`] or [`Buffer::refill()`] blocking or not.
    ///
    /// A [`Device`] is blocking by default.
    pub fn set_blocking_mode(&mut self, blocking: bool) -> (r: Result<()>)
        ensures
            r is Ok,
            final(self)@ == (BufferView { blocking, ..old(self)@ }),
    {
        self.blocking = blocking;
        Ok(())
    }

    /// Tells how the next transfer is to wait for the hardware, given the
    /// timeout of the context in milliseconds. A timeout of zero means that
    /// the transfer waits without a limit.
    pub fn wait(&self, timeout_ms: u32) -> (w: Wait)
        ensures
            w == wait_of(self@, timeout_ms),
    {
        if self.cancelled {
            Wait::Cancelled
        } else if !self.blocking {
            Wait::Poll
        } else if timeout_ms == 0 {
            Wait::Forever
        } else {
            Wait::Millis(timeout_ms)
        }
    }

    /// Fetch more samples from the hardware.
    ///
    /// This is only valid for input buffers. `ret` is what the transfer
    /// returned, the number of bytes or a negated error number, and
    /// `fresh` holds the bytes that it delivered.
    pub fn refill(&mut self, ret: isize, fresh: &[u8]) -> (r: Result<usize>)
        ensures
            old(self)@.wf() ==> final(self)@.wf(),
            old(self)@.cancelled ==> r == Err::<usize, Error>(Error::Nix(errno_of(EBADF)))
                && final(self)@ == old(self)@,
            !old(self)@.cancelled && ret < 0 ==> r == Err::<usize, Error>(
                Error::Nix(errno_of(code_of_count(ret))),
            ) && final(self)@ == old(self)@,
            !old(self)@.cancelled && ret >= 0 ==> r == Ok::<usize, Error>(ret as usize) && final(self)@ == old(self)@.refilled(fresh@),
    {
        if self.cancelled {
            return Err(Error::Nix(errno_from_raw(EBADF)));
        }
        if ret < 0 {
            return sys_result_count(ret);
        }
        let total: usize = self.data.len();
        let m: usize = if fresh.len() <= total {
            fresh.len()
        } else {
            total
        };
        let ghost before = self.data@;
        let mut i: usize = 0;
        while i < m
            invariant
                i <= m <= total,
                m <= fresh@.len(),
                total == self.data@.len(),
                before.len() == total,
                self.data@ == fresh@.subrange(0, i as int) + before.subrange(i as int, total as int),
                self.dev == old(self).dev,
                self.cap == old(self).cap,
                self.step == old(self).step,
                self.cancelled == old(self).cancelled,
                self.blocking == old(self).blocking,
                self.cyclic == old(self).cyclic,
                self.valid == old(self).valid,
                before == old(self)@.data,
            decreases m - i,
        {
            self.data.set(i, fresh[i]);
            proof {
                assert(self.data@ =~= fresh@.subrange(0, i + 1) + before.subrange(
                    i + 1,
                    total as int,
                ));
            }
            i = i + 1;
        }
        self.valid = m;
        sys_result_count(ret)
    }

    /// Send the samples to the hardware.
    ///
    /// This is only valid for output buffers. `ret` is what the transfer
    /// of [`Buffer::bytes`] returned: the number of bytes or a negated
    /// error number.
    pub fn push(&self, ret: isize) -> (r: Result<usize>)
        ensures
            self@.cancelled ==> r == Err::<usize, Error>(Error::Nix(errno_of(EBADF))),
            !self@.cancelled && ret < 0 ==> r == Err::<usize, Error>(
                Error::Nix(errno_of(code_of_count(ret))),
            ),
            !self@.cancelled && ret >= 0 ==> r == Ok::<usize, Error>(ret as usize),
    {
        if self.cancelled {
            return Err(Error::Nix(errno_from_raw(EBADF)));
        }
        sys_result_count(ret)
    }

    /// Send a given number of samples to the hardware.
    ///
    /// This is only valid for output buffers. Note that the number of samples
    /// explicitly doesn't refer to their size in bytes, but the actual number
    /// of samples, regardless of the sample size in memory.
    ///
    /// `plan_partial` cuts the buffer down to the samples before the
    /// transfer; `ret` is what the transfer of [`Buffer::bytes`] returned.
    pub fn push_partial(&self, num_samples: usize, ret: isize) -> (r: Result<usize>)
        ensures
            self@.cancelled ==> r == Err::<usize, Error>(Error::Nix(errno_of(EBADF))),
            !self@.cancelled && num_samples > self@.capacity ==> r == Err::<usize, Error>(
                Error::Nix(errno_of(EINVAL)),
            ),
            !self@.cancelled && num_samples <= self@.capacity && ret < 0 ==> r == Err::<
                usize,
                Error,
            >(Error::Nix(errno_of(code_of_count(ret)))),
            !self@.cancelled && num_samples <= self@.capacity && ret >= 0 ==> r == Ok::<
                usize,
                Error,
            >(ret as usize),
    {
        if self.cancelled {
            return Err(Error::Nix(errno_from_raw(EBADF)));
        }
        if num_samples > self.cap {
            return Err(Error::Nix(errno_from_raw(EINVAL)));
        }
        sys_result_count(ret)
    }

    /// Cuts the samples of the buffer down to the first `num_samples` rows,
    /// for a partial transfer to the hardware. More rows than the buffer
    /// has are refused.
    pub fn plan_partial(&mut self, num_samples: usize) -> (r: Result<()>)
        ensures
            old(self)@.wf() ==> final(self)@.wf(),
            old(self)@.has_rows(num_samples as nat) ==> r is Ok && final(self)@ == (BufferView {
                valid: (num_samples * old(self)@.step) as nat,
                ..old(self)@
            }),
            !old(self)@.has_rows(num_samples as nat) ==> r == Err::<(), Error>(
                Error::Nix(errno_of(EINVAL)),
            ) && final(self)@ == old(self)@,
    {
        if num_samples > self.cap {
            return Err(Error::Nix(errno_from_raw(EINVAL)));
        }
        let total: usize = self.data.len();
        match num_samples.checked_mul(self.step) {
            Some(n) => {
                if n <= total {
                    self.valid = n;
                    Ok(())
                } else {
                    Err(Error::Nix(errno_from_raw(EINVAL)))
                }
            },
            None => Err(Error::Nix(errno_from_raw(EINVAL))),
        }
    }

    /// Cancel all buffer operations.
    ///
    /// This function cancels all outstanding [`Buffer`] operations previously
    /// scheduled. This means any pending [`Buffer::push()`] or
    /// [`Buffer::refill()`] operation will abort and return immediately, any
    /// further invocations of these functions on the same buffer will return
    /// immediately with an error.
    ///
    /// To be able to capture additional data after calling this function the
    /// buffer should be destroyed and then re-created.
    ///
    /// This function can be called multiple times for the same buffer, but all
    /// but the first invocation will be without additional effect.
    pub fn cancel(&mut self)
        ensures
            final(self)@ == old(self)@.cancel(),
    {
        self.cancelled = true;
    }

    /// Determines if the device has any buffer-specific attributes
    pub fn has_attrs(&self) -> (r: bool)
        ensures
            r == (self@.device.buffer_attrs.len() > 0),
    {
        self.dev.buffer_attrs().len() > 0
    }

    /// Gets the number of buffer-specific attributes
    pub fn num_attrs(&self) -> (n: usize)
        ensures
            n == self@.device.buffer_attrs.len(),
    {
        self.dev.buffer_attrs().len()
    }

    /// Gets the name of the buffer-specific attribute at the index
    pub fn get_attr(&self, idx: usize) -> (r: Result<String>)
        ensures
            idx < self@.device.buffer_attrs.len() ==> (r matches Ok(name) && name@
                == self@.device.buffer_attrs[idx as int].0),
            idx >= self@.device.buffer_attrs.len() ==> r == Err::<String, Error>(
                Error::InvalidIndex,
            ),
    {
        let attrs = self.dev.buffer_attrs();
        if idx < attrs.len() {
            proof {
                assert(attrs_view(attrs@)[idx as int].0 == attrs@[idx as int].name@);
            }
            Ok(attrs[idx].name.clone())
        } else {
            Err(Error::InvalidIndex)
        }
    }

    /// Try to find a buffer-specific attribute by its name
    pub fn find_attr(&self, name: &str) -> (r: Option<String>)
        ensures
            !has_nul(name@) && attr_known(self@.device.buffer_attrs, name@) ==> (r matches Some(
                n,
            ) && n@ == name@),
            has_nul(name@) || !attr_known(self@.device.buffer_attrs, name@) ==> r is None,
    {
        let attrs = self.dev.buffer_attrs();
        match find_nul(name) {
            Some(_) => None,
            None => match attr_find(attrs, name) {
                Some(i) => {
                    proof {
                        lemma_first_where(attrs_view(attrs@), named(name@));
                    }
                    Some(attrs[i].name.clone())
                },
                None => None,
            },
        }
    }

    /// Determines if a buffer-specific attribute exists
    pub fn has_attr(&self, name: &str) -> (r: bool)
        ensures
            r == (!has_nul(name@) && attr_known(self@.device.buffer_attrs, name@)),
    {
        match find_nul(name) {
            Some(_) => false,
            None => attr_find(self.dev.buffer_attrs(), name).is_some(),
        }
    }

    /// Reads a buffer-specific attribute
    ///
    /// `attr` The name of the attribute
    pub fn attr_read<T: FromAttribute>(&self, attr: &str) -> (r: Result<T>)
        ensures
            attr_read_typed_spec::<T>(self@.device.buffer_attrs, attr@, r),
    {
        attr_get_typed::<T>(self.dev.buffer_attrs(), attr)
    }

    /// Reads a buffer-specific attribute as a string
    ///
    /// `attr` The name of the attribute
    pub fn attr_read_str(&self, attr: &str) -> (r: Result<String>)
        ensures
            attr_read_spec(self@.device.buffer_attrs, attr@, r),
    {
        attr_get(self.dev.buffer_attrs(), attr)
    }

    /// Reads a buffer-specific attribute as a boolean
    ///
    /// `attr` The name of the attribute
    pub fn attr_read_bool(&self, attr: &str) -> (r: Result<bool>)
        ensures
            attr_read_typed_spec::<bool>(self@.device.buffer_attrs, attr@, r),
    {
        attr_get_typed::<bool>(self.dev.buffer_attrs(), attr)
    }

    /// Reads a buffer-specific attribute as an integer (i64)
    ///
    /// `attr` The name of the attribute
    pub fn attr_read_int(&self, attr: &str) -> (r: Result<i64>)
        ensures
            attr_read_typed_spec::<i64>(self@.device.buffer_attrs, attr@, r),
    {
        attr_get_typed::<i64>(self.dev.buffer_attrs(), attr)
    }

    /// Reads all the buffer-specific attributes.
    /// This is especially useful when using the network backend to
    /// retrieve all the attributes with a single call.
    pub fn attr_read_all(&self) -> (r: Result<Vec<(String, String)>>)
        ensures
            r matches Ok(all) && all@.len() == self@.device.buffer_attrs.len() && forall|k: int|
                0 <= k < all@.len() ==> ((#[trigger] all@[k]).0@, all@[k].1@)
                    == self@.device.buffer_attrs[k],
    {
        let attrs = self.dev.buffer_attrs();
        let all = attrs_pairs(attrs);
        proof {
            assert forall|k: int| 0 <= k < all@.len() implies ((#[trigger] all@[k]).0@, all@[k].1@)
                == self@.device.buffer_attrs[k] by {
                assert(attrs_view(attrs@)[k] == (attrs@[k].name@, attrs@[k].value@));
            }
        }
        Ok(all)
    }

    /// Writes a buffer-specific attribute
    ///
    /// `attr` The name of the attribute
    /// `val` The value to write
    pub fn attr_write<T: ToAttribute>(&mut self, attr: &str, val: T) -> (r: Result<()>)
        ensures
            attr_write_spec(old(self)@.device.buffer_attrs, attr@, val.attr_text(), r),
            attrs_distinct(old(self)@.device.buffer_attrs) ==> attrs_distinct(
                final(self)@.device.buffer_attrs,
            ),
            final(self)@ == (BufferView {
                device: DeviceView {
                    buffer_attrs: attr_written(
                        old(self)@.device.buffer_attrs,
                        attr@,
                        val.attr_text(),
                    ),
                    ..old(self)@.device
                },
                ..old(self)@
            }),
    {
        attr_set_typed::<T>(self.dev.buffer_attrs_mut(), attr, val)
    }

    /// Writes a buffer-specific attribute as a string
    ///
    /// `attr` The name of the attribute
    /// `val` The value to write
    pub fn attr_write_str(&mut self, attr: &str, val: &str) -> (r: Result<()>)
        ensures
            attr_write_spec(old(self)@.device.buffer_attrs, attr@, val@, r),
            attrs_distinct(old(self)@.device.buffer_attrs) ==> attrs_distinct(
                final(self)@.device.buffer_attrs,
            ),
            final(self)@ == (BufferView {
                device: DeviceView {
                    buffer_attrs: attr_written(old(self)@.device.buffer_attrs, attr@, val@),
                    ..old(self)@.device
                },
                ..old(self)@
            }),
    {
        attr_set(self.dev.buffer_attrs_mut(), attr, val)
    }

    /// Writes a buffer-specific attribute as a boolean
    ///
    /// `attr` The name of the attribute
    /// `val` The value to write
    pub fn attr_write_bool(&mut self, attr: &str, val: bool) -> (r: Result<()>)
        ensures
            attr_write_spec(old(self)@.device.buffer_attrs, attr@, val.attr_text(), r),
            attrs_distinct(old(self)@.device.buffer_attrs) ==> attrs_distinct(
                final(self)@.device.buffer_attrs,
            ),
            final(self)@ == (BufferView {
                device: DeviceView {
                    buffer_attrs: attr_written(
                        old(self)@.device.buffer_attrs,
                        attr@,
                        val.attr_text(),
                    ),
                    ..old(self)@.device
                },
                ..old(self)@
            }),
    {
        self.attr_write::<bool>(attr, val)
    }

    /// Writes a buffer-specific attribute as an integer (i64)
    ///
    /// `attr` The name of the attribute
    /// `val` The value to write
    pub fn attr_write_int(&mut self, attr: &str, val: i64) -> (r: Result<()>)
        ensures
            attr_write_spec(old(self)@.device.buffer_attrs, attr@, val.attr_text(), r),
            attrs_distinct(old(self)@.device.buffer_attrs) ==> attrs_distinct(
                final(self)@.device.buffer_attrs,
            ),
            final(self)@ == (BufferView {
                device: DeviceView {
                    buffer_attrs: attr_written(
                        old(self)@.device.buffer_attrs,
                        attr@,
                        val.attr_text(),
                    ),
                    ..old(self)@.device
                },
                ..old(self)@
            }),
    {
        self.attr_write::<i64>(attr, val)
    }

    /// Gets an iterator for the buffer attributes in the device
    pub fn attributes(&self) -> (it: AttrIterator<'_>)
        ensures
            it.names() == self@.device.buffer_attrs,
            it.position() == 0,
    {
        AttrIterator { buf: self, idx: 0 }
    }

    /// Set the number of kernel buffers for the device.
    ///
    /// At least one buffer is needed: zero is refused.
    pub fn set_num_kernel_buffers(&mut self, n: u32) -> (r: Result<()>)
        ensures
            old(self)@.wf() ==> final(self)@.wf(),
            n > 0 ==> r is Ok && final(self)@ == (BufferView {
                device: DeviceView { kernel_buffers: n, ..old(self)@.device },
                ..old(self)@
            }),
            n == 0 ==> r == Err::<(), Error>(Error::Nix(errno_of(EINVAL))) && final(self)@ == old(
                self,
            )@,
    {
        self.dev.set_num_kernel_buffers(n)
    }

    /// Finds the place in the memory of the first sample of the channel:
    /// the end of the samples for a channel that was not enabled when the
    /// buffer was created, and for a place that `usize` cannot hold.
    pub fn first(&self, chan: &Channel) -> (pos: usize)
        ensures
            self@.first_of(chan@) <= usize::MAX ==> pos == self@.first_of(chan@),
            self@.first_of(chan@) > usize::MAX ==> pos == self@.valid,
    {
        match self.dev.position_of(chan) {
            Some(i) => {
                if self.dev.channel(i).is_enabled() {
                    match self.dev.offset_of(i) {
                        Some(off) => off,
                        None => self.valid,
                    }
                } else {
                    self.valid
                }
            },
            None => self.valid,
        }
    }

    /// Gets an iterator for the data from a channel.
    ///
    /// The iterator starts at the first sample of the channel and moves on
    /// by as many whole values of `T` as fit in a row. It yields the values
    /// as they lie in the memory, without conversion, and ends where less
    /// than a whole value is left before the end of the samples.
    pub fn channel_iter<T: Sample>(&self, chan: &Channel) -> (it: IntoIter<'_, T>)
        ensures
            it.remaining() == self@.channel_items::<T>(chan@),
    {
        let size: usize = T::kind().size();
        let pos: usize = self.first(chan);
        let count: usize = self.step / size;
        proof {
            if self@.first_of(chan@) > usize::MAX {
                lemma_past_end::<T>(
                    self@.data,
                    self@.first_of(chan@),
                    self@.valid,
                    self@.stride_for(size as nat),
                    None,
                    Seq::empty(),
                );
            }
            lemma_past_end::<T>(
                self@.data,
                self@.valid,
                self@.valid,
                self@.stride_for(size as nat),
                None,
                Seq::empty(),
            );
        }
        proof {
            assert(count * size <= self.step) by (nonlinear_arith)
                requires
                    count == self.step / size,
                    size > 0,
            ;
        }
        IntoIter {
            phantom: PhantomData,
            data: self.data.as_slice(),
            pos,
            end: self.valid,
            stride: count * size,
        }
    }

    /// Collects the samples of a channel, one from each row, as they lie in
    /// the memory or converted by the channel's format. A channel whose
    /// samples cannot be read as the type `T` is refused.
    pub fn demux<T: Sample>(&self, chan: &Channel, convert: bool) -> (r: Result<Vec<T>>)
        ensures
            chan@.format.spec_type_of() != Some(T::spec_kind()) ==> r == Err::<Vec<T>, Error>(
                Error::WrongDataType,
            ),
            chan@.format.spec_type_of() == Some(T::spec_kind()) ==> (r matches Ok(v) && v@
                == self@.channel_samples::<T>(chan@, convert)),
    {
        if !chan.holds::<T>() {
            return Err(Error::WrongDataType);
        }
        let pos: usize = self.first(chan);
        let conv: Option<DataFormat> = if convert {
            Some(chan.data_format())
        } else {
            None
        };
        proof {
            if self@.first_of(chan@) > usize::MAX {
                lemma_past_end::<T>(
                    self@.data,
                    self@.first_of(chan@),
                    self@.valid,
                    self@.step,
                    conv,
                    Seq::empty(),
                );
            }
            lemma_past_end::<T>(self@.data, self@.valid, self@.valid, self@.step, conv, Seq::empty());
        }
        Ok(gather::<T>(self.data.as_slice(), pos, self.valid, self.step, conv))
    }

    /// Lays the samples of a channel down in the memory, one in each row,
    /// as they are. Tells how many of them found room. A channel whose
    /// samples cannot be written as the type `T` is refused.
    pub fn mux<T: Sample>(&mut self, chan: &Channel, items: &[T]) -> (r: Result<usize>)
        ensures
            old(self)@.wf() ==> final(self)@.wf(),
            chan@.format.spec_type_of() != Some(T::spec_kind()) ==> r == Err::<usize, Error>(
                Error::WrongDataType,
            ) && final(self)@ == old(self)@,
            chan@.format.spec_type_of() == Some(T::spec_kind()) ==> final(self)@ == (BufferView {
                data: scattered::<T>(
                    old(self)@.data,
                    old(self)@.first_of(chan@),
                    old(self)@.valid,
                    old(self)@.step,
                    items@,
                ),
                ..old(self)@
            }),
            chan@.format.spec_type_of() == Some(T::spec_kind()) ==> (r matches Ok(n) && n
                == placed(
                old(self)@.data.len(),
                T::spec_kind().spec_size(),
                old(self)@.first_of(chan@),
                old(self)@.valid,
                old(self)@.step,
                items@.len(),
            )),
    {
        if !chan.holds::<T>() {
            return Err(Error::WrongDataType);
        }
        let pos: usize = self.first(chan);
        proof {
            if self@.first_of(chan@) > usize::MAX {
                lemma_past_end::<T>(
                    self@.data,
                    self@.first_of(chan@),
                    self@.valid,
                    self@.step,
                    None,
                    items@,
                );
            }
            lemma_past_end::<T>(self@.data, self@.valid, self@.valid, self@.step, None, items@);
        }
        let n: usize = scatter::<T>(&mut self.data, pos, self.valid, self.step, items);
        Ok(n)
    }
}

/// An iterator that moves channel data out of a buffer.
#[derive(Debug)]
pub struct IntoIter<'a, T> {
    phantom: PhantomData<T>,
    // The sample memory of the buffer
    data: &'a [u8],
    // The place of the current sample for a channel
    pos: usize,
    // The end of the samples in the buffer
    end: usize,
    // The offset to the next sample for the channel
    stride: usize,
}

impl<'a, T: Sample> IntoIter<'a, T> {
    /// The samples that the iterator has yet to yield.
    pub closed spec fn remaining(&self) -> Seq<T> {
        strided::<T>(self.data@, self.pos as nat, self.end as nat, self.stride as nat, None)
    }

    /// Gets the next sample of the channel.
    pub fn next(&mut self) -> (r: Option<T>)
        ensures
            old(self).remaining().len() > 0 ==> r == Some(old(self).remaining()[0]) && final(self).remaining() == old(self).remaining().drop_first(),
            old(self).remaining().len() == 0 ==> r is None && final(self).remaining() == old(
                self,
            ).remaining(),
    {
        let size: usize = T::kind().size();
        let total: usize = self.data.len();
        if self.stride == 0 || self.end > total || self.pos > self.end || size > self.end
            - self.pos {
            return None;
        }
        let raw: u64 = read_le(self.data, self.pos, size);
        let item: T = T::from_raw(raw);
        proof {
            let rest = strided::<T>(
                self.data@,
                (self.pos + self.stride) as nat,
                self.end as nat,
                self.stride as nat,
                None,
            );
            assert(old(self).remaining() == seq![item] + rest);
            assert((seq![item] + rest).drop_first() =~= rest);
        }
        if self.stride > self.end - self.pos {
            proof {
                assert(strided::<T>(
                    self.data@,
                    (self.pos + self.stride) as nat,
                    self.end as nat,
                    self.stride as nat,
                    None,
                ) =~= strided::<T>(
                    self.data@,
                    self.end as nat,
                    self.end as nat,
                    self.stride as nat,
                    None,
                ));
            }
            self.pos = self.end;
        } else {
            self.pos = self.pos + self.stride;
        }
        Some(item)
    }
}

/// Iterator over the buffer attributes
/// 'a Lifetime of the Buffer
#[derive(Debug)]
pub struct AttrIterator<'a> {
    /// Reference to the Buffer that we're scanning for attributes
    buf: &'a Buffer,
    /// Index to the next Buffer attribute from the iterator
    idx: usize,
}

impl<'a> AttrIterator<'a> {
    /// The attributes of the buffer that the iterator walks.
    pub closed spec fn names(&self) -> AttrSeq {
        self.buf@.device.buffer_attrs
    }

    /// The number of attributes that the iterator has handed out.
    pub closed spec fn position(&self) -> nat {
        self.idx as nat
    }

    /// Gets the next Buffer attribute from the iterator
    pub fn next(&mut self) -> (r: Option<String>)
        ensures
            final(self).names() == old(self).names(),
            old(self).position() < old(self).names().len() ==> (r matches Some(name) && name@
                == old(self).names()[old(self).position() as int].0),
            old(self).position() < old(self).names().len() ==> final(self).position() == old(
                self,
            ).position() + 1,
            old(self).position() >= old(self).names().len() ==> r is None,
            old(self).position() >= old(self).names().len() ==> final(self).position() == old(
                self,
            ).position(),
    {
        if self.idx < self.buf.num_attrs() {
            match self.buf.get_attr(self.idx) {
                Ok(name) => {
                    self.idx = self.idx + 1;
                    Some(name)
                },
                Err(_) => None,
            }
        } else {
            None
        }
    }
}

} // verus!
