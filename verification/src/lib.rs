//! The Rust Industrial I/O crate for Linux.
//!
//! This is a model of _libiio_, a library for high-performance analog I/O
//! from Linux user-space, which interacts with Linux Industrial I/O (IIO)
//! devices such as A/D's, D/A's, accelerometers, pressure and temperature
//! sensors, magnetometers, and so on.
//!
//! The crate holds the state of a session with such devices and the rules
//! that the session follows: the contexts, devices and channels with their
//! attributes, the conversion between attribute text and typed values, the
//! layout of samples in a buffer and their conversion between the
//! hardware's and the host's form. It moves no data itself. The caller
//! talks to the native layer and hands over what it returned: the handle of
//! a session, the bytes of a transfer, the text of an attribute.
//!
//! A context shares the state of its session with its clones and with the
//! devices, channels and buffers obtained from it: the session lives as
//! long as one of them does, and its timeout is the same for all of them.
//! A device or a channel that a context hands out is a copy to work on:
//! what is enabled or written on it is its own, and a buffer keeps the
//! device as it was when the buffer was created.

pub mod attr;
pub mod attrs;
pub mod buffer;
pub mod channel;
pub mod context;
pub mod device;
pub mod errors;
pub mod native;
pub mod sample;
pub mod scan_context;
pub mod text;

pub use crate::attr::{Attribute, FromAttribute, ToAttribute};
pub use crate::attrs::Attr;
pub use crate::buffer::{Buffer, IntoIter, Wait};
pub use crate::channel::{finish_read, Channel, ChannelType, DataFormat, Direction};
pub use crate::context::{Backend, Context, DeviceIterator, InnerContext, Request};
pub use crate::device::{ChannelIterator, Device};
pub use crate::errors::{sys_result, sys_result_count, Error, Result};
pub use crate::native::{cstring_opt, text_from_buf, Version, ATTR_BUF_SIZE};
pub use crate::sample::{Sample, SampleType};
pub use crate::scan_context::{ScanContext, ScanContextIterator};
