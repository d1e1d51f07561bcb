//! Error definitions for the Industrial I/O library.

use vstd::prelude::*;

verus! {

/// The operating-system error number type of the `nix` crate, carried
/// through unchanged inside [`Error::Nix`].
#[verifier::external_type_specification]
#[verifier::external_body]
pub struct ExErrno(nix::errno::Errno);

/// The `nix` error number that stands for a raw operating-system error code.
pub uninterp spec fn errno_of(code: i32) -> nix::errno::Errno;

/// Calls `nix::errno::Errno::from_raw`, which looks the raw code up in the
/// platform's table of error numbers and yields `UnknownErrno` for a code
/// that the table does not hold. The contract only gives that result its
/// name, [`errno_of`].
#[verifier::external_body]
pub(crate) fn errno_from_raw(code: i32) -> (e: nix::errno::Errno)
    ensures
        e == errno_of(code),
{
    nix::errno::Errno::from_raw(code)
}

/// Calls `nix::errno::Errno::last`, which reads the calling thread's current
/// error number. Nothing is claimed of the value that comes back.
#[verifier::external_body]
pub(crate) fn errno_last() -> nix::errno::Errno {
    nix::errno::Errno::last()
}

/// The text that the `Display` implementation of `nix::errno::Errno` writes
/// for an error number.
pub uninterp spec fn errno_display(e: nix::errno::Errno) -> Seq<char>;

/// Calls the `Display` implementation of `nix::errno::Errno`, which writes
/// the variant's name, a colon and the description from `Errno::desc`. The
/// contract only gives that text its name, [`errno_display`].
#[verifier::external_body]
pub(crate) fn errno_text(e: nix::errno::Errno) -> (s: String)
    ensures
        s@ == errno_display(e),
{
    format!("{}", e)
}

/// No such attribute, device or channel.
pub const ENOENT: i32 = 2;

/// The buffer was cancelled and can no longer transfer samples.
pub const EBADF: i32 = 9;

/// Not enough memory for the operation.
pub const ENOMEM: i32 = 12;

/// An argument that the operation cannot accept.
pub const EINVAL: i32 = 22;

/// The Error type for the IIO library
#[derive(Debug, PartialEq, Eq)]
pub enum Error {
    /// A text handed to the native layer holds a NUL byte, at this
    /// position among the bytes of the text.
    NulError(usize),
    /// A low-level Unix-style error
    Nix(nix::errno::Errno),
    /// An error converting a value to/from a string representation.
    StringConversionError,
    /// The wrong data type used in an operation
    WrongDataType,
    /// The size of a data or return value was different than expected.
    BadReturnSize,
    /// A device or channel index did not find a requested object
    InvalidIndex,
    /// A generic error with a string explanation
    General(String),
}

/// The default result type for the IIO library
pub type Result<T> = std::result::Result<T, Error>;

/// The error code that a negative native return value stands for: its
/// magnitude, where `i32::MIN`, which has none, stands for itself.
pub open spec fn code_of_return(ret: i32) -> i32 {
    if ret == i32::MIN {
        i32::MIN
    } else {
        (-ret) as i32
    }
}

/// Turns the return value of a native call into a result: a negative value
/// is the negated error number, anything else is success with `result`.
pub fn sys_result<T>(ret: i32, result: T) -> (r: Result<T>)
    ensures
        ret >= 0 ==> r == Ok::<T, Error>(result),
        ret < 0 ==> r == Err::<T, Error>(Error::Nix(errno_of(code_of_return(ret)))),
{
    if ret < 0 {
        let code: i32 = if ret == i32::MIN {
            i32::MIN
        } else {
            -ret
        };
        Err(Error::Nix(errno_from_raw(code)))
    } else {
        Ok(result)
    }
}

/// The error code that a negative native byte count stands for: its
/// magnitude, or `i32::MAX` where that is larger.
pub open spec fn code_of_count(ret: isize) -> i32 {
    if -ret <= i32::MAX {
        (-ret) as i32
    } else {
        i32::MAX
    }
}

/// Turns the return value of a native transfer into a result: a negative
/// value is the negated error number, anything else is the number of bytes
/// transferred.
pub fn sys_result_count(ret: isize) -> (r: Result<usize>)
    ensures
        ret >= 0 ==> r == Ok::<usize, Error>(ret as usize),
        ret < 0 ==> r == Err::<usize, Error>(Error::Nix(errno_of(code_of_count(ret)))),
{
    if ret < 0 {
        let code: i32 = if ret < -0x7fff_ffff {
            i32::MAX
        } else {
            (-ret) as i32
        };
        Err(Error::Nix(errno_from_raw(code)))
    } else {
        Ok(ret as usize)
    }
}

impl Error {
    /// The text of the error. That of a low-level error is the text of the
    /// operating system's error number.
    pub open spec fn spec_message(&self) -> Seq<char> {
        match self {
            Error::NulError(pos) => "nul byte found in provided data at position: "@
                + crate::text::int_text(*pos as int),
            Error::Nix(e) => errno_display(*e),
            Error::StringConversionError => "String conversion error"@,
            Error::WrongDataType => "Wrong data type"@,
            Error::BadReturnSize => "Bad return size"@,
            Error::InvalidIndex => "Invalid index"@,
            Error::General(text) => text@,
        }
    }

    /// Gives the text of the error, for a diagnostic.
    pub fn message(&self) -> (s: String)
        ensures
            s@ == self.spec_message(),
    {
        match self {
            Error::NulError(pos) => {
                let mut s: String = "nul byte found in provided data at position: ".to_owned();
                let at: String = crate::text::unsigned_text(*pos as u128);
                s.append(at.as_str());
                s
            },
            Error::Nix(e) => errno_text(*e),
            Error::StringConversionError => "String conversion error".to_owned(),
            Error::WrongDataType => "Wrong data type".to_owned(),
            Error::BadReturnSize => "Bad return size".to_owned(),
            Error::InvalidIndex => "Invalid index".to_owned(),
            Error::General(text) => text.clone(),
        }
    }
}

} // verus!
