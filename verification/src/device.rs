//! Industrial I/O Devices
//!
//! A device is one hardware function block of a context. It holds its
//! channels and attributes, and the state that decides whether and how a
//! buffer can be created from it.

use vstd::prelude::*;
use vstd::std_specs::cmp::PartialEqSpecImpl;
use crate::attr::{FromAttribute, ToAttribute};
use crate::attrs::{
    attr_enter, attr_entered, attrs_distinct, attr_find, attr_get, attr_get_typed, attr_known, attr_read_spec, attr_read_typed_spec,
    attr_set, attr_set_typed, attr_write_spec, attr_written, attrs_copy, attrs_pairs, attrs_view,
    first_where, lemma_first_where, lemma_first_where_is, named, Attr, AttrSeq,
};
use crate::buffer::{zeros, Buffer, BufferView};
use crate::channel::{opt_copy, opt_text, Channel, ChannelView, Direction};
use crate::context::Context;
use crate::errors::{errno_from_raw, errno_of, Error, Result, EINVAL, ENOMEM};
use crate::text::{find_nul, has_nul};

verus! {

/// The model of a list of channels.
pub open spec fn channels_view(v: Seq<Channel>) -> Seq<ChannelView> {
    Seq::new(v.len(), |i: int| v[i]@)
}

/// The number of bytes of one row of samples: the sum of the bytes of one
/// sample of each enabled channel.
pub open spec fn row_size(chans: Seq<ChannelView>) -> nat
    decreases chans.len(),
{
    if chans.len() == 0 {
        0
    } else {
        row_size(chans.drop_last()) + chans.last().row_bytes()
    }
}

/// The place in a row of the sample of the channel at `idx`: after the
/// samples of the enabled channels before it.
pub open spec fn row_offset(chans: Seq<ChannelView>, idx: int) -> nat {
    row_size(chans.subrange(0, idx))
}

/// Whether a channel of the list is enabled.
pub open spec fn any_enabled(chans: Seq<ChannelView>) -> bool {
    exists|i: int| 0 <= i < chans.len() && (#[trigger] chans[i]).enabled
}

/// Whether a channel of the list is a scan element.
pub open spec fn any_scan_element(chans: Seq<ChannelView>) -> bool {
    exists|i: int| 0 <= i < chans.len() && (#[trigger] chans[i]).scan_element
}

/// The test for a channel that goes by the given name in the given
/// direction.
pub open spec fn answering(name: Seq<char>, output: bool) -> spec_fn(ChannelView) -> bool {
    |c: ChannelView| c.answers_to(name, output)
}

/// The test for a channel with the given ID and direction.
pub open spec fn same_channel(c: ChannelView) -> spec_fn(ChannelView) -> bool {
    |d: ChannelView| d.id == c.id && d.output == c.output
}

/// The sample of a channel lies within its row: it ends where the row
/// does, or before.
pub proof fn lemma_row_offset(chans: Seq<ChannelView>, idx: int)
    requires
        0 <= idx < chans.len(),
    ensures
        row_offset(chans, idx) + chans[idx].row_bytes() <= row_size(chans),
    decreases chans.len(),
{
    if idx == chans.len() - 1 {
        assert(chans.subrange(0, idx) =~= chans.drop_last());
    } else {
        lemma_row_offset(chans.drop_last(), idx);
        assert(chans.drop_last().subrange(0, idx) =~= chans.subrange(0, idx));
    }
}

/// What the error says when a buffer is asked for while no channel is
/// enabled.
pub open spec fn no_channels_text() -> Seq<char> {
    "No channels enabled"@
}

/// What the error says when a buffer is asked for while the device needs
/// a trigger and none is set.
pub open spec fn no_trigger_text() -> Seq<char> {
    "No trigger set"@
}

/// The model of a device.
pub struct DeviceView {
    /// The device's ID
    pub id: Seq<char>,
    /// The device's name, if it has one
    pub name: Option<Seq<char>>,
    /// The device's label, if it has one
    pub label: Option<Seq<char>>,
    /// Whether the device is a trigger
    pub is_trigger: bool,
    /// Whether the device captures only when a trigger is set for it
    pub needs_trigger: bool,
    /// The ID of the trigger that is set for it, if one is
    pub trigger: Option<Seq<char>>,
    /// The number of kernel buffers asked for
    pub kernel_buffers: u32,
    /// Its attributes
    pub attrs: AttrSeq,
    /// Its buffer-specific attributes
    pub buffer_attrs: AttrSeq,
    /// Its channels
    pub channels: Seq<ChannelView>,
    /// The handle of the context that the device was obtained from, if it
    /// was obtained from one
    pub context: Option<usize>,
}

impl DeviceView {
    /// Whether the device goes by the given name: the name is its ID, its
    /// name or its label.
    pub open spec fn answers_to(self, name: Seq<char>) -> bool {
        self.id == name || self.name == Some(name) || self.label == Some(name)
    }

    /// The channel at the index as the device hands it out: with the
    /// context of the device as the one that it belongs to.
    pub open spec fn handed(self, idx: int) -> ChannelView {
        ChannelView { context: self.context, ..self.channels[idx] }
    }

    /// Whether a buffer can be created from the device as it is: a channel
    /// is enabled, and a trigger is set if the device needs one.
    pub open spec fn can_capture(self) -> bool {
        any_enabled(self.channels) && (self.needs_trigger ==> self.trigger is Some)
    }

    /// Whether the memory of a buffer of `count` rows has a size that
    /// `usize` can hold.
    pub open spec fn buffer_fits(self, count: nat) -> bool {
        row_size(self.channels) <= usize::MAX && count * row_size(self.channels) <= usize::MAX
    }

    /// The buffer of `count` rows that is created from the device as it
    /// is: its memory is zero and counts as samples in full, it is not
    /// cancelled, and its transfers wait for the hardware.
    pub open spec fn new_buffer(self, count: nat, cyclic: bool) -> BufferView {
        BufferView {
            device: self,
            capacity: count,
            step: row_size(self.channels),
            data: zeros(count * row_size(self.channels)),
            valid: count * row_size(self.channels),
            cancelled: false,
            blocking: true,
            cyclic,
        }
    }
}

/// An Industrial I/O Device
///
/// This can not be created directly. It is obtained from a context.
#[derive(Debug)]
pub struct Device {
    pub(crate) id: String,
    pub(crate) name: Option<String>,
    pub(crate) label: Option<String>,
    pub(crate) is_trigger: bool,
    pub(crate) needs_trigger: bool,
    pub(crate) trigger: Option<String>,
    pub(crate) kernel_buffers: u32,
    pub(crate) attrs: Vec<Attr>,
    pub(crate) buffer_attrs: Vec<Attr>,
    pub(crate) channels: Vec<Channel>,
    pub(crate) ctx: Option<Context>,
}

/// The handle of the context that a device holds, if it holds one.
pub open spec fn opt_handle(ctx: Option<Context>) -> Option<usize> {
    match ctx {
        Some(c) => Some(c.spec_handle()),
        None => None,
    }
}

/// Makes another holder of the context that a device holds.
pub fn ctx_copy(ctx: &Option<Context>) -> (r: Option<Context>)
    ensures
        opt_handle(r) == opt_handle(*ctx),
{
    match ctx {
        Some(c) => {
            let other = c.clone();
            proof {
                c.lemma_handle();
                other.lemma_handle();
            }
            Some(other)
        },
        None => None,
    }
}

impl View for Device {
    type V = DeviceView;

    closed spec fn view(&self) -> DeviceView {
        DeviceView {
            id: self.id@,
            name: opt_text(self.name),
            label: opt_text(self.label),
            is_trigger: self.is_trigger,
            needs_trigger: self.needs_trigger,
            trigger: opt_text(self.trigger),
            kernel_buffers: self.kernel_buffers,
            attrs: attrs_view(self.attrs@),
            buffer_attrs: attrs_view(self.buffer_attrs@),
            channels: channels_view(self.channels@),
            context: opt_handle(self.ctx),
        }
    }
}

/// Makes a copy of a list of channels.
pub fn channels_copy(chans: &Vec<Channel>) -> (r: Vec<Channel>)
    ensures
        channels_view(r@) == channels_view(chans@),
{
    let mut out: Vec<Channel> = Vec::new();
    let n: usize = chans.len();
    let mut i: usize = 0;
    while i < n
        invariant
            i <= n,
            n == chans@.len(),
            out@.len() == i,
            forall|k: int| 0 <= k < i ==> (#[trigger] out@[k])@ == chans@[k]@,
        decreases n - i,
    {
        out.push(chans[i].copy());
        i = i + 1;
    }
    proof {
        assert(channels_view(out@) =~= channels_view(chans@));
    }
    out
}

impl Device {
    /// Describes a device. It starts out without channels, attributes or
    /// trigger, with the default of four kernel buffers, and belongs to no
    /// context.
    pub fn new(
        id: &str,
        name: Option<&str>,
        label: Option<&str>,
        is_trigger: bool,
        needs_trigger: bool,
    ) -> (d: Device)
        ensures
            d@ == (DeviceView {
                id: id@,
                name: match name {
                    Some(n) => Some(n@),
                    None => None,
                },
                label: match label {
                    Some(n) => Some(n@),
                    None => None,
                },
                is_trigger,
                needs_trigger,
                trigger: None,
                kernel_buffers: 4,
                attrs: Seq::empty(),
                buffer_attrs: Seq::empty(),
                channels: Seq::empty(),
                context: None,
            }),
    {
        let d = Device {
            id: id.to_owned(),
            name: match name {
                Some(n) => Some(n.to_owned()),
                None => None,
            },
            label: match label {
                Some(n) => Some(n.to_owned()),
                None => None,
            },
            is_trigger,
            needs_trigger,
            trigger: None,
            kernel_buffers: 4,
            attrs: Vec::new(),
            buffer_attrs: Vec::new(),
            channels: Vec::new(),
            ctx: None,
        };
        proof {
            assert(attrs_view(d.attrs@) =~= Seq::empty());
            assert(attrs_view(d.buffer_attrs@) =~= Seq::empty());
            assert(channels_view(d.channels@) =~= Seq::empty());
        }
        d
    }

    /// Adds an attribute with its current value to the device. An
    /// attribute that the device has already gets the value.
    pub fn add_attr(&mut self, name: &str, value: &str)
        ensures
            final(self)@ == (DeviceView {
                attrs: attr_entered(old(self)@.attrs, name@, value@),
                ..old(self)@
            }),
            attrs_distinct(old(self)@.attrs) ==> attrs_distinct(final(self)@.attrs),
    {
        attr_enter(&mut self.attrs, name, value);
    }

    /// Adds a buffer-specific attribute with its current value to the
    /// device. An attribute that the device has already gets the value.
    pub fn add_buffer_attr(&mut self, name: &str, value: &str)
        ensures
            final(self)@ == (DeviceView {
                buffer_attrs: attr_entered(old(self)@.buffer_attrs, name@, value@),
                ..old(self)@
            }),
            attrs_distinct(old(self)@.buffer_attrs) ==> attrs_distinct(final(self)@.buffer_attrs),
    {
        attr_enter(&mut self.buffer_attrs, name, value);
    }

    /// Adds a channel to the device, after those it has.
    pub fn add_channel(&mut self, chan: Channel)
        ensures
            final(self)@ == (DeviceView {
                channels: old(self)@.channels.push(chan@),
                ..old(self)@
            }),
    {
        let ghost before = channels_view(self.channels@);
        self.channels.push(chan);
        proof {
            assert(channels_view(self.channels@) =~= before.push(chan@));
        }
    }

    /// Makes a copy of the device in its current state.
    pub fn copy(&self) -> (d: Device)
        ensures
            d@ == self@,
    {
        Device {
            id: self.id.clone(),
            name: opt_copy(&self.name),
            label: opt_copy(&self.label),
            is_trigger: self.is_trigger,
            needs_trigger: self.needs_trigger,
            trigger: opt_copy(&self.trigger),
            kernel_buffers: self.kernel_buffers,
            attrs: attrs_copy(&self.attrs),
            buffer_attrs: attrs_copy(&self.buffer_attrs),
            channels: channels_copy(&self.channels),
            ctx: ctx_copy(&self.ctx),
        }
    }

    /// Makes a copy of the device that belongs to the given context, and
    /// is a holder of its session.
    pub fn attached(&self, ctx: &Context) -> (d: Device)
        ensures
            d@ == (DeviceView { context: Some(ctx@.handle), ..self@ }),
    {
        let holder = ctx.clone();
        proof {
            ctx.lemma_handle();
            holder.lemma_handle();
        }
        Device {
            id: self.id.clone(),
            name: opt_copy(&self.name),
            label: opt_copy(&self.label),
            is_trigger: self.is_trigger,
            needs_trigger: self.needs_trigger,
            trigger: opt_copy(&self.trigger),
            kernel_buffers: self.kernel_buffers,
            attrs: attrs_copy(&self.attrs),
            buffer_attrs: attrs_copy(&self.buffer_attrs),
            channels: channels_copy(&self.channels),
            ctx: Some(holder),
        }
    }

    /// Gets the context to which the device belongs, if it was obtained
    /// from one: another holder of that session.
    pub fn context(&self) -> (r: Option<Context>)
        ensures
            opt_handle(r) == self@.context,
    {
        ctx_copy(&self.ctx)
    }

    /// Gets the device ID (e.g. <b><i>iio:device0</i></b>)
    pub fn id(&self) -> (r: Option<String>)
        ensures
            opt_text(r) == Some(self@.id),
    {
        Some(self.id.clone())
    }

    /// Gets the name of the device
    pub fn name(&self) -> (r: Option<String>)
        ensures
            opt_text(r) == self@.name,
    {
        opt_copy(&self.name)
    }

    /// Gets the label of the device, if any.
    pub fn label(&self) -> (r: Option<String>)
        ensures
            opt_text(r) == self@.label,
    {
        opt_copy(&self.label)
    }

    /// Tells whether the device goes by the given name: its ID, its name
    /// or its label.
    pub fn answers_to(&self, name: &str) -> (r: bool)
        ensures
            r == self@.answers_to(name@),
    {
        let wanted: String = name.to_owned();
        if self.id == wanted {
            return true;
        }
        let by_name: bool = match &self.name {
            Some(n) => *n == wanted,
            None => false,
        };
        if by_name {
            return true;
        }
        match &self.label {
            Some(n) => *n == wanted,
            None => false,
        }
    }

    /// Determines if the device is capable of buffered I/O.
    /// This is true if any of the channels are scan elements.
    pub fn is_buffer_capable(&self) -> (r: bool)
        ensures
            r == any_scan_element(self@.channels),
    {
        let n: usize = self.channels.len();
        let mut i: usize = 0;
        while i < n
            invariant
                i <= n,
                n == self.channels@.len(),
                forall|k: int| 0 <= k < i ==> !(#[trigger] channels_view(self.channels@)[k]).scan_element,
            decreases n - i,
        {
            if self.channels[i].is_scan_element() {
                proof {
                    assert(channels_view(self.channels@)[i as int].scan_element);
                }
                return true;
            }
            i = i + 1;
        }
        false
    }

    /// Determines whether the device is a trigger
    pub fn is_trigger(&self) -> (r: bool)
        ensures
            r == self@.is_trigger,
    {
        self.is_trigger
    }

    /// Associate a trigger for this device.
    /// `trigger` The device to be used as a trigger.
    ///
    /// A device that is no trigger is refused, and the association stays
    /// as it was.
    pub fn set_trigger(&mut self, trigger: &Device) -> (r: Result<()>)
        ensures
            trigger@.is_trigger ==> r is Ok && final(self)@ == (DeviceView {
                trigger: Some(trigger@.id),
                ..old(self)@
            }),
            !trigger@.is_trigger ==> r == Err::<(), Error>(Error::Nix(errno_of(EINVAL)))
                && final(self)@ == old(self)@,
    {
        if trigger.is_trigger {
            self.trigger = Some(trigger.id.clone());
            Ok(())
        } else {
            Err(Error::Nix(errno_from_raw(EINVAL)))
        }
    }

    /// Removes the trigger from the device.
    pub fn remove_trigger(&mut self) -> (r: Result<()>)
        ensures
            r is Ok,
            final(self)@ == (DeviceView { trigger: None, ..old(self)@ }),
    {
        self.trigger = None;
        Ok(())
    }

    /// Gets the ID of the trigger that is set for the device, if one is.
    pub fn trigger(&self) -> (r: Option<String>)
        ensures
            opt_text(r) == self@.trigger,
    {
        opt_copy(&self.trigger)
    }

    /// Set the number of kernel buffers for the device.
    ///
    /// At least one buffer is needed: zero is refused.
    pub fn set_num_kernel_buffers(&mut self, n: u32) -> (r: Result<()>)
        ensures
            n > 0 ==> r is Ok && final(self)@ == (DeviceView { kernel_buffers: n, ..old(self)@ }),
            n == 0 ==> r == Err::<(), Error>(Error::Nix(errno_of(EINVAL))) && final(self)@ == old(
                self,
            )@,
    {
        if n > 0 {
            self.kernel_buffers = n;
            Ok(())
        } else {
            Err(Error::Nix(errno_from_raw(EINVAL)))
        }
    }

    /// Gets the number of kernel buffers asked for.
    pub fn num_kernel_buffers(&self) -> (n: u32)
        ensures
            n == self@.kernel_buffers,
    {
        self.kernel_buffers
    }

    // ----- Attributes -----
    /// Determines if the device has any attributes
    pub fn has_attrs(&self) -> (r: bool)
        ensures
            r == (self@.attrs.len() > 0),
    {
        self.attrs.len() > 0
    }

    /// Gets the number of device-specific attributes
    pub fn num_attrs(&self) -> (n: usize)
        ensures
            n == self@.attrs.len(),
    {
        self.attrs.len()
    }

    /// Gets the name of the device-specific attribute at the index
    pub fn get_attr(&self, idx: usize) -> (r: Result<String>)
        ensures
            idx < self@.attrs.len() ==> (r matches Ok(name) && name@ == self@.attrs[idx as int].0),
            idx >= self@.attrs.len() ==> r == Err::<String, Error>(Error::InvalidIndex),
    {
        if idx < self.attrs.len() {
            Ok(self.attrs[idx].name.clone())
        } else {
            Err(Error::InvalidIndex)
        }
    }

    /// Try to find a device-specific attribute by its name
    pub fn find_attr(&self, name: &str) -> (r: Option<String>)
        ensures
            !has_nul(name@) && attr_known(self@.attrs, name@) ==> (r matches Some(n) && n@
                == name@),
            has_nul(name@) || !attr_known(self@.attrs, name@) ==> r is None,
    {
        match find_nul(name) {
            Some(_) => None,
            None => match attr_find(&self.attrs, name) {
                Some(i) => {
                    proof {
                        lemma_first_where(attrs_view(self.attrs@), named(name@));
                    }
                    Some(self.attrs[i].name.clone())
                },
                None => None,
            },
        }
    }

    /// Determines if a device-specific attribute exists
    pub fn has_attr(&self, name: &str) -> (r: bool)
        ensures
            r == (!has_nul(name@) && attr_known(self@.attrs, name@)),
    {
        match find_nul(name) {
            Some(_) => false,
            None => attr_find(&self.attrs, name).is_some(),
        }
    }

    /// Reads a device-specific attribute
    ///
    /// `attr` The name of the attribute
    pub fn attr_read<T: FromAttribute>(&self, attr: &str) -> (r: Result<T>)
        ensures
            attr_read_typed_spec::<T>(self@.attrs, attr@, r),
    {
        attr_get_typed::<T>(&self.attrs, attr)
    }

    /// Reads a device-specific attribute as a string
    ///
    /// `attr` The name of the attribute
    pub fn attr_read_str(&self, attr: &str) -> (r: Result<String>)
        ensures
            attr_read_spec(self@.attrs, attr@, r),
    {
        attr_get(&self.attrs, attr)
    }

    /// Reads a device-specific attribute as a boolean
    ///
    /// `attr` The name of the attribute
    pub fn attr_read_bool(&self, attr: &str) -> (r: Result<bool>)
        ensures
            attr_read_typed_spec::<bool>(self@.attrs, attr@, r),
    {
        attr_get_typed::<bool>(&self.attrs, attr)
    }

    /// Reads a device-specific attribute as an integer (i64)
    ///
    /// `attr` The name of the attribute
    pub fn attr_read_int(&self, attr: &str) -> (r: Result<i64>)
        ensures
            attr_read_typed_spec::<i64>(self@.attrs, attr@, r),
    {
        attr_get_typed::<i64>(&self.attrs, attr)
    }

    /// Reads all the device-specific attributes.
    /// This is especially useful when using the network backend to
    /// retrieve all the attributes with a single call.
    pub fn attr_read_all(&self) -> (r: Result<Vec<(String, String)>>)
        ensures
            r matches Ok(all) && all@.len() == self@.attrs.len() && forall|k: int|
                0 <= k < all@.len() ==> ((#[trigger] all@[k]).0@, all@[k].1@) == self@.attrs[k],
    {
        Ok(attrs_pairs(&self.attrs))
    }

    /// Writes a device-specific attribute
    ///
    /// `attr` The name of the attribute
    /// `val` The value to write
    pub fn attr_write<T: ToAttribute>(&mut self, attr: &str, val: T) -> (r: Result<()>)
        ensures
            attr_write_spec(old(self)@.attrs, attr@, val.attr_text(), r),
            final(self)@ == (DeviceView {
                attrs: attr_written(old(self)@.attrs, attr@, val.attr_text()),
                ..old(self)@
            }),
            attrs_distinct(old(self)@.attrs) ==> attrs_distinct(final(self)@.attrs),
    {
        attr_set_typed::<T>(&mut self.attrs, attr, val)
    }

    /// Writes a device-specific attribute as a string
    ///
    /// `attr` The name of the attribute
    /// `val` The value to write
    pub fn attr_write_str(&mut self, attr: &str, val: &str) -> (r: Result<()>)
        ensures
            attr_write_spec(old(self)@.attrs, attr@, val@, r),
            final(self)@ == (DeviceView {
                attrs: attr_written(old(self)@.attrs, attr@, val@),
                ..old(self)@
            }),
            attrs_distinct(old(self)@.attrs) ==> attrs_distinct(final(self)@.attrs),
    {
        attr_set(&mut self.attrs, attr, val)
    }

    /// Writes a device-specific attribute as a boolean
    ///
    /// `attr` The name of the attribute
    /// `val` The value to write
    pub fn attr_write_bool(&mut self, attr: &str, val: bool) -> (r: Result<()>)
        ensures
            attr_write_spec(old(self)@.attrs, attr@, val.attr_text(), r),
            final(self)@ == (DeviceView {
                attrs: attr_written(old(self)@.attrs, attr@, val.attr_text()),
                ..old(self)@
            }),
            attrs_distinct(old(self)@.attrs) ==> attrs_distinct(final(self)@.attrs),
    {
        attr_set_typed::<bool>(&mut self.attrs, attr, val)
    }

    /// Writes a device-specific attribute as an integer (i64)
    ///
    /// `attr` The name of the attribute
    /// `val` The value to write
    pub fn attr_write_int(&mut self, attr: &str, val: i64) -> (r: Result<()>)
        ensures
            attr_write_spec(old(self)@.attrs, attr@, val.attr_text(), r),
            final(self)@ == (DeviceView {
                attrs: attr_written(old(self)@.attrs, attr@, val.attr_text()),
                ..old(self)@
            }),
            attrs_distinct(old(self)@.attrs) ==> attrs_distinct(final(self)@.attrs),
    {
        attr_set_typed::<i64>(&mut self.attrs, attr, val)
    }

    /// Gets an iterator for the attributes in the device
    pub fn attributes(&self) -> (it: AttrIterator<'_>)
        ensures
            it.names() == self@.attrs,
            it.position() == 0,
    {
        AttrIterator { dev: self, idx: 0 }
    }

    // ----- Channels -----
    /// Gets the number of channels on the device
    pub fn num_channels(&self) -> (n: usize)
        ensures
            n == self@.channels.len(),
    {
        self.channels.len()
    }

    /// Gets a channel by index
    pub fn get_channel(&self, idx: usize) -> (r: Result<Channel>)
        ensures
            idx < self@.channels.len() ==> (r matches Ok(c) && c@ == self@.handed(idx as int)),
            idx >= self@.channels.len() ==> r matches Err(Error::InvalidIndex),
    {
        if idx < self.channels.len() {
            Ok(self.channels[idx].attached(&self.ctx))
        } else {
            Err(Error::InvalidIndex)
        }
    }

    /// Gives the channel at the index.
    pub fn channel(&self, idx: usize) -> (c: &Channel)
        requires
            idx < self@.channels.len(),
        ensures
            c@ == self@.channels[idx as int],
    {
        &self.channels[idx]
    }

    /// Gives the attributes of the device.
    pub fn attrs(&self) -> (a: &Vec<Attr>)
        ensures
            attrs_view(a@) == self@.attrs,
    {
        &self.attrs
    }

    /// Gives the buffer-specific attributes of the device.
    pub fn buffer_attrs(&self) -> (a: &Vec<Attr>)
        ensures
            attrs_view(a@) == self@.buffer_attrs,
    {
        &self.buffer_attrs
    }

    /// Gives access to the buffer-specific attributes of the device, to
    /// change their values.
    pub fn buffer_attrs_mut(&mut self) -> (a: &mut Vec<Attr>)
        ensures
            attrs_view(a@) == old(self)@.buffer_attrs,
            final(self)@ == (DeviceView {
                buffer_attrs: attrs_view(final(a)@),
                ..old(self)@
            }),
    {
        &mut self.buffer_attrs
    }

    /// Gives access to the channel at the index, to change its state.
    pub fn channel_mut(&mut self, idx: usize) -> (c: &mut Channel)
        requires
            idx < old(self)@.channels.len(),
        ensures
            c@ == old(self)@.channels[idx as int],
            final(self)@.channels =~= old(self)@.channels.update(idx as int, final(c)@),
            final(self)@ == (DeviceView { channels: final(self)@.channels, ..old(self)@ }),
    {
        &mut self.channels[idx]
    }

    /// Finds the place of the first channel that goes by the given name in
    /// the given direction.
    pub fn channel_position(&self, name: &str, dir: Direction) -> (r: Option<usize>)
        ensures
            match r {
                Some(i) => i < self@.channels.len() && i == first_where(
                    self@.channels,
                    answering(name@, dir == Direction::Output),
                ),
                None => first_where(self@.channels, answering(name@, dir == Direction::Output))
                    == self@.channels.len(),
            },
    {
        let output: bool = match dir {
            Direction::Output => true,
            Direction::Input => false,
        };
        let n: usize = self.channels.len();
        let mut i: usize = 0;
        let ghost model = channels_view(self.channels@);
        let ghost p = answering(name@, output);
        proof {
            assert(output == (dir == Direction::Output));
        }
        while i < n
            invariant
                i <= n,
                n == self.channels@.len(),
                model == channels_view(self.channels@),
                p == answering(name@, output),
                output == (dir == Direction::Output),
                forall|k: int| 0 <= k < i ==> !p(#[trigger] model[k]),
            decreases n - i,
        {
            if self.channels[i].answers_to(name, output) {
                proof {
                    assert(p(model[i as int]));
                    lemma_first_where_is(model, p, i as int);
                }
                return Some(i);
            }
            i = i + 1;
        }
        proof {
            lemma_first_where_is(model, p, n as int);
        }
        None
    }

    /// Finds the place of the channel with the ID and the direction of the
    /// given one.
    pub fn position_of(&self, chan: &Channel) -> (r: Option<usize>)
        ensures
            match r {
                Some(i) => i < self@.channels.len() && i == first_where(
                    self@.channels,
                    same_channel(chan@),
                ),
                None => first_where(self@.channels, same_channel(chan@)) == self@.channels.len(),
            },
    {
        let n: usize = self.channels.len();
        let mut i: usize = 0;
        let ghost model = channels_view(self.channels@);
        let ghost p = same_channel(chan@);
        let id: Option<String> = chan.id();
        let output: bool = chan.is_output();
        let wanted: String = match id {
            Some(s) => s,
            None => String::new(),
        };
        while i < n
            invariant
                i <= n,
                n == self.channels@.len(),
                model == channels_view(self.channels@),
                p == same_channel(chan@),
                wanted@ == chan@.id,
                output == chan@.output,
                forall|k: int| 0 <= k < i ==> !p(#[trigger] model[k]),
            decreases n - i,
        {
            let other: Option<String> = self.channels[i].id();
            let same: bool = match other {
                Some(s) => s == wanted,
                None => false,
            };
            if same && self.channels[i].is_output() == output {
                proof {
                    assert(p(model[i as int]));
                    lemma_first_where_is(model, p, i as int);
                }
                return Some(i);
            }
            proof {
                assert(!p(model[i as int]));
            }
            i = i + 1;
        }
        proof {
            lemma_first_where_is(model, p, n as int);
        }
        None
    }

    /// Try to find a channel by its name or ID
    pub fn find_channel(&self, name: &str, dir: Direction) -> (r: Option<Channel>)
        ensures
            match r {
                Some(c) => !has_nul(name@) && first_where(
                    self@.channels,
                    answering(name@, dir == Direction::Output),
                ) < self@.channels.len() && c@ == self@.handed(
                    first_where(self@.channels, answering(name@, dir == Direction::Output)),
                ),
                None => has_nul(name@) || first_where(
                    self@.channels,
                    answering(name@, dir == Direction::Output),
                ) == self@.channels.len(),
            },
    {
        match find_nul(name) {
            Some(_) => None,
            None => match self.channel_position(name, dir) {
                Some(i) => Some(self.channels[i].attached(&self.ctx)),
                None => None,
            },
        }
    }

    /// Try to find an input channel by its name or ID
    pub fn find_input_channel(&self, name: &str) -> (r: Option<Channel>)
        ensures
            match r {
                Some(c) => !has_nul(name@) && first_where(
                    self@.channels,
                    answering(name@, false),
                ) < self@.channels.len() && c@ == self@.handed(
                    first_where(self@.channels, answering(name@, false)),
                ),
                None => has_nul(name@) || first_where(self@.channels, answering(name@, false))
                    == self@.channels.len(),
            },
    {
        self.find_channel(name, Direction::Input)
    }

    /// Try to find an output channel by its name or ID
    pub fn find_output_channel(&self, name: &str) -> (r: Option<Channel>)
        ensures
            match r {
                Some(c) => !has_nul(name@) && first_where(
                    self@.channels,
                    answering(name@, true),
                ) < self@.channels.len() && c@ == self@.handed(
                    first_where(self@.channels, answering(name@, true)),
                ),
                None => has_nul(name@) || first_where(self@.channels, answering(name@, true))
                    == self@.channels.len(),
            },
    {
        self.find_channel(name, Direction::Output)
    }

    /// Gets an iterator for the channels in the device
    pub fn channels(&self) -> (it: ChannelIterator<'_>)
        ensures
            it.all() == self@.channels,
            it.context() == self@.context,
            it.position() == 0,
    {
        ChannelIterator { dev: self, idx: 0 }
    }

    /// Tells whether a channel of the device is enabled.
    pub fn has_enabled_channel(&self) -> (r: bool)
        ensures
            r == any_enabled(self@.channels),
    {
        let n: usize = self.channels.len();
        let mut i: usize = 0;
        while i < n
            invariant
                i <= n,
                n == self.channels@.len(),
                forall|k: int| 0 <= k < i ==> !(#[trigger] channels_view(self.channels@)[k]).enabled,
            decreases n - i,
        {
            if self.channels[i].is_enabled() {
                proof {
                    assert(channels_view(self.channels@)[i as int].enabled);
                }
                return true;
            }
            i = i + 1;
        }
        false
    }

    /// Computes the number of bytes that the first `count` channels take in
    /// a row of samples, or nothing where `usize` cannot hold the number.
    pub fn offset_of(&self, count: usize) -> (r: Option<usize>)
        requires
            count <= self@.channels.len(),
        ensures
            match r {
                Some(n) => n == row_offset(self@.channels, count as int),
                None => row_offset(self@.channels, count as int) > usize::MAX,
            },
    {
        let mut acc: usize = 0;
        let mut i: usize = 0;
        let ghost model = channels_view(self.channels@);
        proof {
            assert(model.subrange(0, 0) =~= Seq::<ChannelView>::empty());
        }
        while i < count
            invariant
                i <= count <= self.channels@.len(),
                model == channels_view(self.channels@),
                acc == row_size(model.subrange(0, i as int)),
            decreases count - i,
        {
            let ch: &Channel = &self.channels[i];
            let width: u64 = if ch.is_enabled() {
                ch.data_format().byte_length_wide()
            } else {
                0
            };
            proof {
                let next = model.subrange(0, i + 1);
                assert(next.drop_last() =~= model.subrange(0, i as int));
                assert(next.last() == model[i as int]);
                assert(width == model[i as int].row_bytes());
                if acc + width > usize::MAX {
                    lemma_row_size_prefix(model.subrange(0, count as int), i + 1);
                    assert(model.subrange(0, count as int).subrange(0, i + 1) =~= next);
                }
            }
            if width > (usize::MAX - acc) as u64 {
                return None;
            }
            acc = acc + width as usize;
            i = i + 1;
        }
        Some(acc)
    }

    // ----- Buffer Functions -----
    /// Creates a buffer for the device.
    ///
    /// `sample_count` The number of samples the buffer should hold
    /// `cyclic` Whether to enable cyclic mode.
    ///
    /// The buffer keeps the device as it is now: channels that are enabled
    /// or disabled later do not change it. This fails if no channel is
    /// enabled, if the device needs a trigger and none is set, and if the
    /// memory for the rows has a size that the host cannot address.
    pub fn create_buffer(&self, sample_count: usize, cyclic: bool) -> (r: Result<Buffer>)
        ensures
            r is Ok <==> self@.can_capture() && self@.buffer_fits(sample_count as nat),
            r matches Ok(b) ==> (b@ == self@.new_buffer(sample_count as nat, cyclic) && b@.wf()),
            !any_enabled(self@.channels) ==> (r matches Err(Error::General(m)) && m@
                == no_channels_text()),
            any_enabled(self@.channels) && !self@.can_capture() ==> (r matches Err(
                Error::General(m),
            ) && m@ == no_trigger_text()),
            self@.can_capture() && !self@.buffer_fits(sample_count as nat) ==> (r matches Err(
                Error::Nix(e),
            ) && e == errno_of(ENOMEM)),
    {
        if !self.has_enabled_channel() {
            return Err(Error::General("No channels enabled".to_owned()));
        }
        if self.needs_trigger && self.trigger.is_none() {
            return Err(Error::General("No trigger set".to_owned()));
        }
        proof {
            assert(self@.channels.subrange(0, self@.channels.len() as int) =~= self@.channels);
        }
        let step: usize = match self.offset_of(self.channels.len()) {
            Some(n) => n,
            None => {
                return Err(Error::Nix(errno_from_raw(ENOMEM)));
            },
        };
        match sample_count.checked_mul(step) {
            Some(_) => Ok(Buffer::create(self.copy(), sample_count, step, cyclic)),
            None => Err(Error::Nix(errno_from_raw(ENOMEM))),
        }
    }

    // ----- Low-level & Debug functions -----
    /// Gets the current sample size, in bytes.
    /// This gets the number of bytes requires to store the samples,
    /// based on the the channels that are currently enabled.
    ///
    /// A size that `usize` cannot hold is refused.
    pub fn sample_size(&self) -> (r: Result<usize>)
        ensures
            row_size(self@.channels) <= usize::MAX ==> r == Ok::<usize, Error>(
                row_size(self@.channels) as usize,
            ),
            row_size(self@.channels) > usize::MAX ==> r == Err::<usize, Error>(
                Error::Nix(errno_of(EINVAL)),
            ),
    {
        proof {
            assert(self@.channels.subrange(0, self@.channels.len() as int) =~= self@.channels);
        }
        match self.offset_of(self.channels.len()) {
            Some(n) => Ok(n),
            None => Err(Error::Nix(errno_from_raw(EINVAL))),
        }
    }
}

/// The sample of a channel ends where the sample of a later channel
/// begins, or before.
pub proof fn lemma_row_offsets_apart(chans: Seq<ChannelView>, i: int, j: int)
    requires
        0 <= i < j < chans.len(),
    ensures
        row_offset(chans, i) + chans[i].row_bytes() <= row_offset(chans, j),
{
    let head = chans.subrange(0, j);
    lemma_row_offset(head, i);
    assert(head.subrange(0, i) =~= chans.subrange(0, i));
    assert(head[i] == chans[i]);
}

/// The rows of the first channels of a list are no longer than the rows of
/// all of them.
pub proof fn lemma_row_size_prefix(chans: Seq<ChannelView>, k: int)
    requires
        0 <= k <= chans.len(),
    ensures
        row_size(chans.subrange(0, k)) <= row_size(chans),
    decreases chans.len() - k,
{
    if k == chans.len() {
        assert(chans.subrange(0, k) =~= chans);
    } else {
        lemma_row_size_prefix(chans.drop_last(), k);
        assert(chans.drop_last().subrange(0, k) =~= chans.subrange(0, k));
    }
}

impl Clone for Device {
    /// The clone has the state of the device.
    fn clone(&self) -> (d: Device)
        ensures
            d@ == self@,
    {
        self.copy()
    }
}

impl PartialEq for Device {
    /// Two devices are the same if they refer to the same underlying
    /// object in the library: they have the same ID and belong to the same
    /// context.
    fn eq(&self, other: &Self) -> (r: bool) {
        let same_context: bool = match (&self.ctx, &other.ctx) {
            (Some(a), Some(b)) => a.handle() == b.handle(),
            (None, None) => true,
            _ => false,
        };
        same_context && self.id == other.id
    }
}

impl PartialEqSpecImpl for Device {
    open spec fn obeys_eq_spec() -> bool {
        true
    }

    open spec fn eq_spec(&self, other: &Self) -> bool {
        self@.context == other@.context && self@.id == other@.id
    }
}

/// Iterator over the Channels in a Device
#[derive(Debug)]
pub struct ChannelIterator<'a> {
    /// Reference to the Device that we're scanning for Channels
    dev: &'a Device,
    /// Index for the next Channel from the iterator.
    idx: usize,
}

impl<'a> ChannelIterator<'a> {
    /// The channels of the device that the iterator walks.
    pub closed spec fn all(&self) -> Seq<ChannelView> {
        self.dev@.channels
    }

    /// The handle of the context to which the device belongs, if it
    /// belongs to one.
    pub closed spec fn context(&self) -> Option<usize> {
        self.dev@.context
    }

    /// The number of channels that the iterator has handed out.
    pub closed spec fn position(&self) -> nat {
        self.idx as nat
    }

    /// Gets the next Channel from the iterator
    pub fn next(&mut self) -> (r: Option<Channel>)
        ensures
            final(self).all() == old(self).all(),
            final(self).context() == old(self).context(),
            old(self).position() < old(self).all().len() ==> (r matches Some(c) && c@ == (
                ChannelView {
                    context: old(self).context(),
                    ..old(self).all()[old(self).position() as int]
                })),
            old(self).position() < old(self).all().len() ==> final(self).position() == old(
                self,
            ).position() + 1,
            old(self).position() >= old(self).all().len() ==> r is None,
            old(self).position() >= old(self).all().len() ==> final(self).position() == old(
                self,
            ).position(),
    {
        if self.idx < self.dev.num_channels() {
            match self.dev.get_channel(self.idx) {
                Ok(chan) => {
                    self.idx = self.idx + 1;
                    Some(chan)
                },
                Err(_) => None,
            }
        } else {
            None
        }
    }
}

/// Iterator over the attributes in a Device
#[derive(Debug)]
pub struct AttrIterator<'a> {
    /// Reference to the Device that we're scanning for attributes
    dev: &'a Device,
    /// Index for the next Device attribute from the Iterator.
    idx: usize,
}

impl<'a> AttrIterator<'a> {
    /// The attributes of the device that the iterator walks.
    pub closed spec fn names(&self) -> AttrSeq {
        self.dev@.attrs
    }

    /// The number of attributes that the iterator has handed out.
    pub closed spec fn position(&self) -> nat {
        self.idx as nat
    }

    /// Gets the next Device attribute from the iterator
    pub fn next(&mut self) -> (r: Option<String>)
        ensures
            final(self).names() == old(self).names(),
            old(self).position() < old(self).names().len() ==> (r matches Some(name) && name@
                == old(self).names()[old(self).position() as int].0),
            old(self).position() < old(self).names().len() ==> final(self).position() == old(
                self,
            ).position() + 1,
            old(self).position() >= old(self).names().len() ==> r is None,
            old(self).position() >= old(self).names().len() ==> final(self).position() == old(
                self,
            ).position(),
    {
        if self.idx < self.dev.num_attrs() {
            match self.dev.get_attr(self.idx) {
                Ok(name) => {
                    self.idx = self.idx + 1;
                    Some(name)
                },
                Err(_) => None,
            }
        } else {
            None
        }
    }
}

} // verus!
