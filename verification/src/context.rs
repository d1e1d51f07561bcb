//! Industrial I/O Contexts.
//!
//! A context is one session with a set of devices, reached through a
//! backend. Opening the session is the work of the caller: it asks the
//! native layer for what [`Backend::request`] says and hands the session
//! over as a handle, a number that is zero where the session did not open.

use std::sync::atomic::AtomicU32;
use std::sync::atomic::Ordering;
use std::sync::Arc;
use vstd::prelude::*;
use vstd::std_specs::cmp::PartialEqSpecImpl;
use crate::attrs::{
    attr_enter, attr_entered, attrs_copy, attrs_distinct, attrs_view, first_where,
    lemma_first_where_is, Attr, AttrSeq,
};
use crate::device::{Device, DeviceView};
use crate::errors::{errno_last, Error, Result};
use crate::native::Version;
use crate::text::{find_nul, has_nul, is_first_nul};

verus! {

/// `Duration::as_secs` gives the number of whole seconds of the duration.
pub assume_specification[ core::time::Duration::as_secs ](d: &core::time::Duration) -> (s: u64)
    ensures
        s == duration_secs(*d),
;

/// `Duration::subsec_millis` gives the fractional part of the duration in
/// whole milliseconds, which is less than one thousand.
pub assume_specification[ core::time::Duration::subsec_millis ](d: &core::time::Duration) -> (ms:
    u32)
    ensures
        ms == duration_millis(*d),
        ms < 1000,
;

/// The number of whole seconds of a duration.
pub uninterp spec fn duration_secs(d: core::time::Duration) -> u64;

/// The fractional part of a duration, in whole milliseconds.
pub uninterp spec fn duration_millis(d: core::time::Duration) -> u32;

/// Backends for I/O Contexts.
///
/// An I/O [`Context`] relies on a backend that provides sensor data.
#[derive(Debug)]
pub enum Backend<'a> {
    /// Use the default backend. This will create a network context if the
    /// IIOD_REMOTE environment variable is set to the hostname where the
    /// IIOD server runs. If set to an empty string, the server will be
    /// discovered using ZeroConf. If the environment variable is not set,
    /// a local context will be created instead.
    Default,
    /// XML Backend, creates a Context from an XML file. Here the string is
    /// the name of the file.
    /// Example Parameter:
    /// "/home/user/file.xml"
    Xml(&'a str),
    /// XML Backend, creates a Context from an in-memory XML string. Here
    /// the string _is_ the XML description.
    XmlMem(&'a str),
    /// Network Backend, creates a Context through a network connection.
    /// Requires a hostname, IPv4 or IPv6 address to connect to another host
    /// that is running the IIO Daemon. If an empty string is provided,
    /// automatic discovery through ZeroConf is performed (if available in IIO).
    /// Example Parameter:
    ///
    /// - "192.168.2.1" to connect to given IPv4 host, **or**
    /// - "localhost" to connect to localhost running IIOD, **or**
    /// - "plutosdr.local" to connect to host with given hostname, **or**
    /// - "" for automatic discovery
    Network(&'a str),
    /// USB Backend, creates a context through a USB connection.
    /// If only a single USB device is attached, provide an empty String ("")
    /// to use that. When more than one usb device is attached, requires bus,
    /// address, and interface parts separated with a dot.
    /// Example Parameter: "3.32.5"
    Usb(&'a str),
    /// Serial Backend, creates a context through a serial connection.
    /// Requires (Values in parentheses show examples):
    ///
    /// - a port (/dev/ttyUSB0),
    /// - baud_rate (default 115200)
    /// - serial port configuration
    ///     - data bits (5 6 7 8 9)
    ///     - parity ('n' none, 'o' odd, 'e' even, 'm' mark, 's' space)
    ///     - stop bits (1 2)
    ///     - flow control ('\0' none, 'x' Xon Xoff, 'r' RTSCTS, 'd' DTRDSR)
    ///
    /// Example Parameters:
    ///
    /// - "/dev/ttyUSB0,115200", **or**
    /// - "/dev/ttyUSB0,115200,8n1"
    Serial(&'a str),
    /// "Guess" the backend to use from the URI that's supplied. Refer to
    /// the IIO docs for information on how to format this parameter.
    Uri(&'a str),
    /// Local Backend, only available on Linux hosts. Sensors to work with are
    /// part of the system and accessible in sysfs (under `/sys/...`).
    Local,
}

/// What is asked of the native layer to open the session of a backend.
#[derive(Debug, PartialEq, Eq)]
pub enum Request {
    /// The default context
    Default,
    /// The context of the local system
    Local,
    /// The context that the named XML file describes
    Xml(String),
    /// The context that the XML text describes, with the length of the
    /// text in bytes
    XmlMem(String, usize),
    /// The context of the IIO daemon on the named host
    Network(String),
    /// The context that the URI names
    Uri(String),
}

/// Whether the result is the error for the first NUL character of the text.
pub open spec fn is_nul_error<T>(text: Seq<char>, r: Result<T>) -> bool {
    r matches Err(Error::NulError(pos)) && is_first_nul(text, pos as int)
}

/// The prefix of the URI of a USB context.
pub open spec fn usb_prefix() -> Seq<char> {
    "usb:"@
}

/// The prefix of the URI of a serial context.
pub open spec fn serial_prefix() -> Seq<char> {
    "serial:"@
}

impl<'a> Backend<'a> {
    /// The text that the backend hands to the native layer, if it hands
    /// one: the parameter of the backend, after the prefix of the URI for
    /// a USB or serial backend.
    pub open spec fn spec_text(self) -> Option<Seq<char>> {
        match self {
            Backend::Default => None,
            Backend::Local => None,
            Backend::Xml(name) => Some(name@),
            Backend::XmlMem(xml) => Some(xml@),
            Backend::Network(host) => Some(host@),
            Backend::Usb(device) => Some(usb_prefix() + device@),
            Backend::Serial(tty) => Some(serial_prefix() + tty@),
            Backend::Uri(uri) => Some(uri@),
        }
    }

    /// Whether the backend is refused: it hands a text to the native layer
    /// that has a NUL character in it.
    pub open spec fn spec_refused(self) -> bool {
        match self.spec_text() {
            Some(text) => has_nul(text),
            None => false,
        }
    }

    /// Whether the request is the one that opens the session of the
    /// backend.
    pub open spec fn is_request(self, req: Request) -> bool {
        match self {
            Backend::Default => req is Default,
            Backend::Local => req is Local,
            Backend::Xml(name) => req matches Request::Xml(s) && s@ == name@,
            Backend::XmlMem(xml) => req matches Request::XmlMem(s, n) && s@ == xml@ && n
                == xml.len(),
            Backend::Network(host) => req matches Request::Network(s) && s@ == host@,
            Backend::Usb(device) => req matches Request::Uri(s) && s@ == usb_prefix() + device@,
            Backend::Serial(tty) => req matches Request::Uri(s) && s@ == serial_prefix() + tty@,
            Backend::Uri(uri) => req matches Request::Uri(s) && s@ == uri@,
        }
    }

    /// Says what to ask of the native layer to open the session of the
    /// backend. A text with a NUL character in it cannot be handed to the
    /// native layer, and is refused.
    pub fn request(&self) -> (r: Result<Request>)
        ensures
            match self.spec_text() {
                Some(text) => if has_nul(text) {
                    is_nul_error(text, r)
                } else {
                    r matches Ok(req) && self.is_request(req)
                },
                None => r matches Ok(req) && self.is_request(req),
            },
    {
        match self {
            Backend::Default => Ok(Request::Default),
            Backend::Local => Ok(Request::Local),
            Backend::Xml(name) => match find_nul(name) {
                Some(pos) => Err(Error::NulError(pos)),
                None => Ok(Request::Xml((*name).to_owned())),
            },
            Backend::XmlMem(xml) => match find_nul(xml) {
                Some(pos) => Err(Error::NulError(pos)),
                None => Ok(Request::XmlMem((*xml).to_owned(), xml.len())),
            },
            Backend::Network(host) => match find_nul(host) {
                Some(pos) => Err(Error::NulError(pos)),
                None => Ok(Request::Network((*host).to_owned())),
            },
            Backend::Usb(device) => {
                let mut uri: String = "usb:".to_owned();
                uri.append(device);
                match find_nul(uri.as_str()) {
                    Some(pos) => Err(Error::NulError(pos)),
                    None => Ok(Request::Uri(uri)),
                }
            },
            Backend::Serial(tty) => {
                let mut uri: String = "serial:".to_owned();
                uri.append(tty);
                match find_nul(uri.as_str()) {
                    Some(pos) => Err(Error::NulError(pos)),
                    None => Ok(Request::Uri(uri)),
                }
            },
            Backend::Uri(uri) => match find_nul(uri) {
                Some(pos) => Err(Error::NulError(pos)),
                None => Ok(Request::Uri((*uri).to_owned())),
            },
        }
    }
}

/// The model of a list of devices.
pub open spec fn devices_view(v: Seq<Device>) -> Seq<DeviceView> {
    Seq::new(v.len(), |i: int| v[i]@)
}

/// The test for a device that goes by the given name.
pub open spec fn device_named(name: Seq<char>) -> spec_fn(DeviceView) -> bool {
    |d: DeviceView| d.answers_to(name)
}

/// The timeout in milliseconds that a duration of `secs` seconds and
/// `millis` milliseconds stands for, as far as 64 bits hold it.
pub open spec fn millis_of(secs: u64, millis: u32) -> u64 {
    if 1000 * secs + millis <= u64::MAX {
        (1000 * secs + millis) as u64
    } else {
        u64::MAX
    }
}

/// The timeout that is set for a number of milliseconds: the number
/// itself, or the largest timeout where it is larger.
pub open spec fn timeout_of(ms: u64) -> u32 {
    if ms <= u32::MAX {
        ms as u32
    } else {
        u32::MAX
    }
}

/// Computes the timeout that is set for a number of milliseconds.
pub fn timeout_from_ms(ms: u64) -> (t: u32)
    ensures
        t == timeout_of(ms),
{
    if ms <= 0xffff_ffff {
        ms as u32
    } else {
        u32::MAX
    }
}

/// Computes the timeout that is set for a duration, in milliseconds.
pub fn timeout_from(timeout: core::time::Duration) -> (t: u32)
    ensures
        t == timeout_of(millis_of(duration_secs(timeout), duration_millis(timeout))),
{
    let secs: u64 = timeout.as_secs();
    let millis: u64 = timeout.subsec_millis() as u64;
    let ms: u64 = if secs > (u64::MAX - millis) / 1000 {
        u64::MAX
    } else {
        1000 * secs + millis
    };
    timeout_from_ms(ms)
}

/// The model of a context.
pub struct ContextView {
    /// The handle of the native session, which is not zero
    pub handle: usize,
    /// The name of the backend
    pub name: Seq<char>,
    /// The description of the context
    pub description: Seq<char>,
    /// The major version number of the backend
    pub major: u32,
    /// The minor version number of the backend
    pub minor: u32,
    /// The git tag of the backend
    pub git_tag: Seq<char>,
    /// The XML representation of the context
    pub xml: Seq<char>,
    /// The attributes of the context
    pub attrs: AttrSeq,
    /// The devices of the context
    pub devices: Seq<DeviceView>,
}

impl ContextView {
    /// The device at the index as the context hands it out: with the
    /// context as the one that it belongs to.
    pub open spec fn held(self, idx: int) -> DeviceView {
        DeviceView { context: Some(self.handle), ..self.devices[idx] }
    }

    /// The context of a session that was just opened: without description,
    /// version, attributes and devices.
    pub open spec fn blank(handle: usize) -> ContextView {
        ContextView {
            handle,
            name: Seq::empty(),
            description: Seq::empty(),
            major: 0,
            minor: 0,
            git_tag: Seq::empty(),
            xml: Seq::empty(),
            attrs: Seq::empty(),
            devices: Seq::empty(),
        }
    }
}

/// This holds the state of one native session: what the session is, which
/// does not change, and the timeout of its I/O operations, which every
/// holder of the session can set.
#[derive(Debug)]
pub struct InnerContext {
    pub(crate) handle: usize,
    pub(crate) name: String,
    pub(crate) description: String,
    pub(crate) version: Version,
    pub(crate) xml: String,
    pub(crate) attrs: Vec<Attr>,
    pub(crate) devices: Vec<Device>,
    pub(crate) timeout: AtomicU32,
}

impl View for InnerContext {
    type V = ContextView;

    closed spec fn view(&self) -> ContextView {
        ContextView {
            handle: self.handle,
            name: self.name@,
            description: self.description@,
            major: self.version.major,
            minor: self.version.minor,
            git_tag: self.version.git_tag@,
            xml: self.xml@,
            attrs: attrs_view(self.attrs@),
            devices: devices_view(self.devices@),
        }
    }
}

/// Makes a copy of a list of devices.
pub fn devices_copy(devs: &Vec<Device>) -> (r: Vec<Device>)
    ensures
        devices_view(r@) == devices_view(devs@),
{
    let mut out: Vec<Device> = Vec::new();
    let n: usize = devs.len();
    let mut i: usize = 0;
    while i < n
        invariant
            i <= n,
            n == devs@.len(),
            out@.len() == i,
            forall|k: int| 0 <= k < i ==> (#[trigger] out@[k])@ == devs@[k]@,
        decreases n - i,
    {
        out.push(devs[i].copy());
        i = i + 1;
    }
    proof {
        assert(devices_view(out@) =~= devices_view(devs@));
    }
    out
}

impl InnerContext {
    /// Tries to create the inner context from the handle of a native
    /// session.
    ///
    /// This should be called _right after_ opening the session as it will
    /// use the last error on failure. The context starts out without
    /// description, attributes and devices, and without a timeout.
    pub fn new(handle: usize) -> (r: Result<InnerContext>)
        ensures
            handle == 0 ==> r matches Err(Error::Nix(_)),
            handle != 0 ==> (r matches Ok(c) && c@ == ContextView::blank(handle)),
    {
        if handle == 0 {
            Err(Error::Nix(errno_last()))
        } else {
            let c = InnerContext {
                handle,
                name: String::new(),
                description: String::new(),
                version: Version { major: 0, minor: 0, git_tag: String::new() },
                xml: String::new(),
                attrs: Vec::new(),
                devices: Vec::new(),
                timeout: AtomicU32::new(0),
            };
            proof {
                assert(attrs_view(c.attrs@) =~= Seq::empty());
                assert(devices_view(c.devices@) =~= Seq::empty());
            }
            Ok(c)
        }
    }

    /// Sets the name, the description and the XML representation of the
    /// context.
    pub fn describe(&mut self, name: &str, description: &str, xml: &str)
        ensures
            final(self)@ == (ContextView {
                name: name@,
                description: description@,
                xml: xml@,
                ..old(self)@
            }),
    {
        self.name = name.to_owned();
        self.description = description.to_owned();
        self.xml = xml.to_owned();
    }

    /// Sets the version of the backend.
    pub fn set_version(&mut self, version: Version)
        ensures
            final(self)@ == (ContextView {
                major: version.major,
                minor: version.minor,
                git_tag: version.git_tag@,
                ..old(self)@
            }),
    {
        self.version = version;
    }

    /// Adds an attribute with its value to the context. An attribute that
    /// the context has already gets the value.
    pub fn add_attr(&mut self, name: &str, value: &str)
        ensures
            final(self)@ == (ContextView {
                attrs: attr_entered(old(self)@.attrs, name@, value@),
                ..old(self)@
            }),
            attrs_distinct(old(self)@.attrs) ==> attrs_distinct(final(self)@.attrs),
    {
        attr_enter(&mut self.attrs, name, value);
    }

    /// Adds a device to the context, after those it has.
    pub fn add_device(&mut self, dev: Device)
        ensures
            final(self)@ == (ContextView {
                devices: old(self)@.devices.push(dev@),
                ..old(self)@
            }),
    {
        let ghost before = devices_view(self.devices@);
        self.devices.push(dev);
        proof {
            assert(devices_view(self.devices@) =~= before.push(dev@));
        }
    }

    /// Tries to create a full, deep, copy of the underlying context.
    ///
    /// `handle` is the handle of the copy that the native layer made of
    /// the session, zero where it made none. The copy has the state of
    /// this context.
    pub fn try_clone(&self, handle: usize) -> (r: Result<InnerContext>)
        ensures
            handle == 0 ==> r matches Err(Error::Nix(_)),
            handle != 0 ==> (r matches Ok(c) && c@ == (ContextView { handle, ..self@ })),
    {
        if handle == 0 {
            Err(Error::Nix(errno_last()))
        } else {
            Ok(
                InnerContext {
                    handle,
                    name: self.name.clone(),
                    description: self.description.clone(),
                    version: self.version.copy(),
                    xml: self.xml.clone(),
                    attrs: attrs_copy(&self.attrs),
                    devices: devices_copy(&self.devices),
                    timeout: AtomicU32::new(self.timeout.load(Ordering::Relaxed)),
                },
            )
        }
    }
}

/// `Arc::clone` makes another pointer to the same allocation: it points to
/// the value that the given one points to.
#[verifier::external_body]
fn arc_clone(inner: &Arc<InnerContext>) -> (r: Arc<InnerContext>)
    ensures
        r == *inner,
{
    Arc::clone(inner)
}

/// `Arc::try_unwrap` gives the value that the pointer points to if no
/// other pointer shares the allocation, and the same pointer back
/// otherwise. Which of the two it is depends on the other holders, and is
/// not claimed.
#[verifier::external_body]
fn arc_try_unwrap(inner: Arc<InnerContext>) -> (r: std::result::Result<
    InnerContext,
    Arc<InnerContext>,
>)
    ensures
        match r {
            Ok(value) => value == *inner,
            Err(same) => same == inner,
        },
{
    Arc::try_unwrap(inner)
}

/// An Industrial I/O Context
///
/// This object maintains a reference counted pointer to the state of one
/// session of the underlying library. Clones of a context, and the devices
/// and buffers obtained from it, share that state: the session lives as
/// long as one of them does.
#[derive(Debug)]
pub struct Context {
    inner: Arc<InnerContext>,
}

impl View for Context {
    type V = ContextView;

    closed spec fn view(&self) -> ContextView {
        self.inner@
    }
}

impl Clone for Context {
    /// The clone is another holder of the same session.
    fn clone(&self) -> (c: Context)
        ensures
            c@ == self@,
    {
        Context { inner: arc_clone(&self.inner) }
    }
}

impl PartialEq for Context {
    /// Two contexts are the same if they refer to the same underlying
    /// object in the library.
    fn eq(&self, other: &Self) -> (r: bool) {
        self.inner.handle == other.inner.handle
    }
}

impl PartialEqSpecImpl for Context {
    open spec fn obeys_eq_spec() -> bool {
        true
    }

    open spec fn eq_spec(&self, other: &Self) -> bool {
        self@.handle == other@.handle
    }
}

impl Context {
    /// Creates a default context from the session that was opened for it.
    ///
    /// # Notes
    ///
    /// The default session is a network session if the `IIOD_REMOTE`
    /// environment variable is set to the hostname where the IIOD server
    /// runs. If set to an empty string, the server will be discovered using
    /// `ZeroConf`. If the environment variable is not set, it is a local
    /// session.
    pub fn new(handle: usize) -> (r: Result<Context>)
        ensures
            handle == 0 ==> r matches Err(Error::Nix(_)),
            handle != 0 ==> (r matches Ok(c) && c@ == ContextView::blank(handle)),
    {
        Self::from_ptr(handle)
    }

    /// Create an IIO Context from the session that was opened for the
    /// backend.
    ///
    /// A context contains one or more devices (i.e. sensors) that can provide
    /// data. Note that any device can always only be associated with one
    /// context!
    ///
    /// Contexts rely on [`Backend`]s to discover available sensors. Multiple
    /// [`Backend`]s are supported. A backend whose text cannot be handed to
    /// the native layer is refused, whatever the handle.
    pub fn with_backend(be: Backend, handle: usize) -> (r: Result<Context>)
        ensures
            be.spec_refused() ==> is_nul_error(be.spec_text()->0, r),
            !be.spec_refused() && handle == 0 ==> r matches Err(Error::Nix(_)),
            !be.spec_refused() && handle != 0 ==> (r matches Ok(c) && c@ == ContextView::blank(
                handle,
            )),
    {
        match be.request() {
            Err(e) => Err(e),
            Ok(_) => Self::from_ptr(handle),
        }
    }

    /// Creates a context specified by the `uri`, from the session that was
    /// opened for it.
    pub fn from_uri(uri: &str, handle: usize) -> (r: Result<Context>)
        ensures
            has_nul(uri@) ==> is_nul_error(uri@, r),
            !has_nul(uri@) && handle == 0 ==> r matches Err(Error::Nix(_)),
            !has_nul(uri@) && handle != 0 ==> (r matches Ok(c) && c@ == ContextView::blank(
                handle,
            )),
    {
        Self::with_backend(Backend::Uri(uri), handle)
    }

    /// Creates a network backend on the specified host, from the session
    /// that was opened for it.
    ///
    /// This is a convenience function to create a context with the network
    /// back end.
    pub fn from_network(hostname: &str, handle: usize) -> (r: Result<Context>)
        ensures
            has_nul(hostname@) ==> is_nul_error(hostname@, r),
            !has_nul(hostname@) && handle == 0 ==> r matches Err(Error::Nix(_)),
            !has_nul(hostname@) && handle != 0 ==> (r matches Ok(c) && c@ == ContextView::blank(
                handle,
            )),
    {
        Self::with_backend(Backend::Network(hostname), handle)
    }

    /// Creates a context from an existing "inner" object.
    pub fn from_inner(inner: InnerContext) -> (c: Context)
        ensures
            c@ == inner@,
    {
        Context { inner: Arc::new(inner) }
    }

    /// Creates a Context object from the handle of a native session. A
    /// handle of zero stands for a session that did not open.
    pub fn from_ptr(handle: usize) -> (r: Result<Context>)
        ensures
            handle == 0 ==> r matches Err(Error::Nix(_)),
            handle != 0 ==> (r matches Ok(c) && c@ == ContextView::blank(handle)),
    {
        match InnerContext::new(handle) {
            Ok(inner) => Ok(Self::from_inner(inner)),
            Err(e) => Err(e),
        }
    }

    /// Try to create a clone of the inner underlying context.
    ///
    /// `handle` is the handle of the full copy that the native layer made
    /// of the session, zero where it made none.
    pub fn try_clone_inner(&self, handle: usize) -> (r: Result<InnerContext>)
        ensures
            handle == 0 ==> r matches Err(Error::Nix(_)),
            handle != 0 ==> (r matches Ok(c) && c@ == (ContextView { handle, ..self@ })),
    {
        self.inner.try_clone(handle)
    }

    /// Tries to release the inner context.
    ///
    /// This attempts to release and return the [`InnerContext`], which
    /// succeeds if this is the only [`Context`] referring to it. If there
    /// are other holders of the session, clones of this context or devices
    /// and buffers obtained from it, the context itself comes back as the
    /// error. Either way the session stays as it is.
    pub fn try_release_inner(self) -> (r: std::result::Result<InnerContext, Context>)
        ensures
            match r {
                Ok(inner) => inner@ == self@,
                Err(same) => same@ == self@,
            },
    {
        match arc_try_unwrap(self.inner) {
            Ok(inner) => Ok(inner),
            Err(inner_ptr) => Err(Context { inner: inner_ptr }),
        }
    }

    /// Make a new context based on a full copy of underlying context.
    ///
    /// `handle` is the handle of the full copy that the native layer made
    /// of the session, zero where it made none.
    pub fn try_deep_clone(&self, handle: usize) -> (r: Result<Context>)
        ensures
            handle == 0 ==> r matches Err(Error::Nix(_)),
            handle != 0 ==> (r matches Ok(c) && c@ == (ContextView { handle, ..self@ })),
    {
        match self.inner.try_clone(handle) {
            Ok(inner) => Ok(Self::from_inner(inner)),
            Err(e) => Err(e),
        }
    }

    /// The handle of the native session.
    pub closed spec fn spec_handle(&self) -> usize {
        self.inner.handle
    }

    /// The handle of a context is the handle that its model has.
    pub proof fn lemma_handle(&self)
        ensures
            self.spec_handle() == self@.handle,
    {
    }

    /// Gets the handle of the native session.
    pub fn handle(&self) -> (h: usize)
        ensures
            h == self@.handle,
            h == self.spec_handle(),
    {
        self.inner.handle
    }

    /// Get the name of the context.
    /// This should be "local", "xml", or "network" depending on how the context was created.
    pub fn name(&self) -> (s: String)
        ensures
            s@ == self@.name,
    {
        self.inner.name.clone()
    }

    /// Get a description of the context
    pub fn description(&self) -> (s: String)
        ensures
            s@ == self@.description,
    {
        self.inner.description.clone()
    }

    /// Get the version of the backend in use
    pub fn version(&self) -> (v: Version)
        ensures
            v.major == self@.major,
            v.minor == self@.minor,
            v.git_tag@ == self@.git_tag,
    {
        self.inner.version.copy()
    }

    /// Obtain the XML representation of the context.
    pub fn xml(&self) -> (s: String)
        ensures
            s@ == self@.xml,
    {
        self.inner.xml.clone()
    }

    /// Determines if the context has any attributes
    pub fn has_attrs(&self) -> (r: bool)
        ensures
            r == (self@.attrs.len() > 0),
    {
        self.inner.attrs.len() > 0
    }

    /// Gets the number of context-specific attributes
    pub fn num_attrs(&self) -> (n: usize)
        ensures
            n == self@.attrs.len(),
    {
        self.inner.attrs.len()
    }

    /// Gets the name and value of the context-specific attributes.
    /// Note that this is different than the same function for other IIO
    /// types, in that this retrieves both the name and value of the
    /// attributes in a single call.
    pub fn get_attr(&self, idx: usize) -> (r: Result<(String, String)>)
        ensures
            idx < self@.attrs.len() ==> (r matches Ok(pair) && (pair.0@, pair.1@)
                == self@.attrs[idx as int]),
            idx >= self@.attrs.len() ==> r matches Err(Error::InvalidIndex),
    {
        if idx < self.inner.attrs.len() {
            Ok((self.inner.attrs[idx].name.clone(), self.inner.attrs[idx].value.clone()))
        } else {
            Err(Error::InvalidIndex)
        }
    }

    /// Gets an iterator for the attributes in the context
    pub fn attributes(&self) -> (it: AttrIterator<'_>)
        ensures
            it.pairs() == self@.attrs,
            it.position() == 0,
    {
        AttrIterator { ctx: self, idx: 0 }
    }

    /// Sets the timeout for I/O operations
    ///
    /// `timeout` The timeout. A value of zero specifies that no timeout
    ///     should be used.
    ///
    /// The timeout that is set is what [`timeout_from`] gives for the
    /// duration. It is set for every holder of the session.
    pub fn set_timeout(&self, timeout: core::time::Duration) -> (r: Result<()>)
        ensures
            r is Ok,
    {
        self.inner.timeout.store(timeout_from(timeout), Ordering::Relaxed);
        Ok(())
    }

    /// Sets the timeout for I/O operations, in milliseconds
    ///
    /// `timeout` The timeout, in ms. A value of zero specifies that no
    ///     timeout should be used.
    ///
    /// The timeout that is set is what [`timeout_from_ms`] gives for the
    /// number: a number that the native layer cannot take stands for its
    /// largest timeout. It is set for every holder of the session.
    pub fn set_timeout_ms(&self, ms: u64) -> (r: Result<()>)
        ensures
            r is Ok,
    {
        self.inner.timeout.store(timeout_from_ms(ms), Ordering::Relaxed);
        Ok(())
    }

    /// Gets the timeout for I/O operations, in milliseconds; zero where
    /// none is used. It is the timeout that a holder of the session set
    /// last.
    pub fn timeout_ms(&self) -> (ms: u32) {
        self.inner.timeout.load(Ordering::Relaxed)
    }

    /// Get the number of devices in the context
    pub fn num_devices(&self) -> (n: usize)
        ensures
            n == self@.devices.len(),
    {
        self.inner.devices.len()
    }

    /// Gets a device by index
    pub fn get_device(&self, idx: usize) -> (r: Result<Device>)
        ensures
            idx < self@.devices.len() ==> (r matches Ok(d) && d@ == self@.held(idx as int)),
            idx >= self@.devices.len() ==> r matches Err(Error::InvalidIndex),
    {
        if idx < self.inner.devices.len() {
            Ok(self.inner.devices[idx].attached(self))
        } else {
            Err(Error::InvalidIndex)
        }
    }

    /// Finds the place of the first device that goes by the given name.
    pub fn device_position(&self, name: &str) -> (r: Option<usize>)
        ensures
            match r {
                Some(i) => i < self@.devices.len() && i == first_where(
                    self@.devices,
                    device_named(name@),
                ),
                None => first_where(self@.devices, device_named(name@)) == self@.devices.len(),
            },
    {
        let n: usize = self.inner.devices.len();
        let mut i: usize = 0;
        let ghost model = devices_view(self.inner.devices@);
        let ghost p = device_named(name@);
        while i < n
            invariant
                i <= n,
                n == self.inner.devices@.len(),
                model == devices_view(self.inner.devices@),
                p == device_named(name@),
                forall|k: int| 0 <= k < i ==> !p(#[trigger] model[k]),
            decreases n - i,
        {
            if self.inner.devices[i].answers_to(name) {
                proof {
                    assert(p(model[i as int]));
                    lemma_first_where_is(model, p, i as int);
                }
                return Some(i);
            }
            i = i + 1;
        }
        proof {
            lemma_first_where_is(model, p, n as int);
        }
        None
    }

    /// Try to find a device by name or ID
    /// `name` The name or ID of the device to find. The label can also be
    /// used to look up a device.
    pub fn find_device(&self, name: &str) -> (r: Option<Device>)
        ensures
            match r {
                Some(d) => !has_nul(name@) && first_where(self@.devices, device_named(name@))
                    < self@.devices.len() && d@ == self@.held(
                    first_where(self@.devices, device_named(name@)),
                ),
                None => has_nul(name@) || first_where(self@.devices, device_named(name@))
                    == self@.devices.len(),
            },
    {
        match find_nul(name) {
            Some(_) => None,
            None => match self.device_position(name) {
                Some(i) => Some(self.inner.devices[i].attached(self)),
                None => None,
            },
        }
    }

    /// Gets an iterator for all the devices in the context.
    pub fn devices(&self) -> (it: DeviceIterator<'_>)
        ensures
            it.all() == self@.devices,
            it.handle() == self@.handle,
            it.position() == 0,
    {
        DeviceIterator { ctx: self, idx: 0 }
    }

    /// Destroy the context
    ///
    /// This consumes the context to destroy the instance.
    pub fn destroy(self) {
    }
}

/// Iterator over the Devices in a Context
#[derive(Debug)]
pub struct DeviceIterator<'a> {
    /// Reference to the IIO context containing the Device
    ctx: &'a Context,
    /// The current Device index for the iterator
    idx: usize,
}

impl<'a> DeviceIterator<'a> {
    /// The devices of the context that the iterator walks.
    pub closed spec fn all(&self) -> Seq<DeviceView> {
        self.ctx@.devices
    }

    /// The number of devices that the iterator has handed out.
    pub closed spec fn position(&self) -> nat {
        self.idx as nat
    }

    /// The handle of the context that the iterator walks.
    pub closed spec fn handle(&self) -> usize {
        self.ctx@.handle
    }

    /// Gets the next Device from the iterator.
    pub fn next(&mut self) -> (r: Option<Device>)
        ensures
            final(self).all() == old(self).all(),
            final(self).handle() == old(self).handle(),
            old(self).position() < old(self).all().len() ==> (r matches Some(d) && d@ == (
                DeviceView {
                    context: Some(old(self).handle()),
                    ..old(self).all()[old(self).position() as int]
                })),
            old(self).position() < old(self).all().len() ==> final(self).position() == old(
                self,
            ).position() + 1,
            old(self).position() >= old(self).all().len() ==> r is None,
            old(self).position() >= old(self).all().len() ==> final(self).position() == old(
                self,
            ).position(),
    {
        if self.idx < self.ctx.num_devices() {
            match self.ctx.get_device(self.idx) {
                Ok(dev) => {
                    self.idx = self.idx + 1;
                    Some(dev)
                },
                Err(_) => None,
            }
        } else {
            None
        }
    }
}

/// Iterator over the attributes in a Context
#[derive(Debug)]
pub struct AttrIterator<'a> {
    /// Reference to the IIO context containing the Device
    ctx: &'a Context,
    /// Index for the next Context attribute from the iterator
    idx: usize,
}

impl<'a> AttrIterator<'a> {
    /// The attributes of the context that the iterator walks.
    pub closed spec fn pairs(&self) -> AttrSeq {
        self.ctx@.attrs
    }

    /// The number of attributes that the iterator has handed out.
    pub closed spec fn position(&self) -> nat {
        self.idx as nat
    }

    /// Gets the next Context attribute from the iterator.
    pub fn next(&mut self) -> (r: Option<(String, String)>)
        ensures
            final(self).pairs() == old(self).pairs(),
            old(self).position() < old(self).pairs().len() ==> (r matches Some(pair) && (
                pair.0@,
                pair.1@,
            ) == old(self).pairs()[old(self).position() as int]),
            old(self).position() < old(self).pairs().len() ==> final(self).position() == old(
                self,
            ).position() + 1,
            old(self).position() >= old(self).pairs().len() ==> r is None,
            old(self).position() >= old(self).pairs().len() ==> final(self).position() == old(
                self,
            ).position(),
    {
        if self.idx < self.ctx.num_attrs() {
            match self.ctx.get_attr(self.idx) {
                Ok(name_val) => {
                    self.idx = self.idx + 1;
                    Some(name_val)
                },
                Err(_) => None,
            }
        } else {
            None
        }
    }
}

} // verus!
