//! What the native layer hands back, turned into values of the library:
//! texts from buffers of bytes, and version numbers.

use vstd::prelude::*;
use vstd::utf8::{decode_utf8, valid_utf8};
use crate::attrs::{
    attr_enter, attr_entered, attrs_distinct, attrs_view, first_where, lemma_first_where_is, Attr,
};
use crate::errors::{code_of_count, errno_of, sys_result_count, Error, Result};

verus! {

/// According to the IIO samples, internal buffers need to be big enough
/// for attributes coming back from the kernel.
pub const ATTR_BUF_SIZE: usize = 16384;

/// The text that `String::from_utf8_lossy` makes of the bytes.
pub uninterp spec fn lossy_text(bytes: Seq<u8>) -> Seq<char>;

/// The text that is made of bytes which may not be valid UTF-8: the text
/// that they encode where they are, and otherwise the text in which
/// U+FFFD takes the place of each invalid sequence.
pub open spec fn text_of(bytes: Seq<u8>) -> Seq<char> {
    if valid_utf8(bytes) {
        decode_utf8(bytes)
    } else {
        lossy_text(bytes)
    }
}

/// Calls `core::str::from_utf8`, which accepts exactly the byte sequences
/// that are valid UTF-8 and gives the text that they encode.
#[verifier::external_body]
pub(crate) fn utf8_text(bytes: &[u8]) -> (r: Option<String>)
    ensures
        r is Some <==> valid_utf8(bytes@),
        r matches Some(s) ==> s@ == decode_utf8(bytes@),
{
    match core::str::from_utf8(bytes) {
        Ok(s) => Some(s.to_owned()),
        Err(_) => None,
    }
}

/// Calls `String::from_utf8_lossy`, which gives the text that valid UTF-8
/// encodes and puts U+FFFD in the place of each invalid sequence. The
/// contract names the result and says what it is for valid UTF-8.
#[verifier::external_body]
pub(crate) fn utf8_text_lossy(bytes: &[u8]) -> (r: String)
    ensures
        r@ == lossy_text(bytes@),
        valid_utf8(bytes@) ==> r@ == decode_utf8(bytes@),
{
    String::from_utf8_lossy(bytes).into_owned()
}

/// The test for a NUL byte.
pub open spec fn is_zero() -> spec_fn(u8) -> bool {
    |b: u8| b == 0
}

/// The length of the C string at the start of the bytes: the number of
/// bytes before the first NUL, or all of them where there is none.
pub open spec fn c_str_len(bytes: Seq<u8>) -> int {
    first_where(bytes, is_zero())
}

/// The bytes of the C string at the start of the bytes.
pub open spec fn c_str_bytes(bytes: Seq<u8>) -> Seq<u8> {
    bytes.subrange(0, c_str_len(bytes))
}

/// Takes the C string at the start of a buffer: the bytes before the
/// first NUL, or the whole buffer where it holds none.
pub fn c_str(buf: &[u8]) -> (r: &[u8])
    ensures
        r@ == c_str_bytes(buf@),
        0 <= c_str_len(buf@) <= buf@.len(),
{
    let n: usize = buf.len();
    let mut i: usize = 0;
    proof {
        if n == 0 {
            lemma_first_where_is(buf@, is_zero(), 0);
        }
    }
    while i < n
        invariant
            i <= n == buf@.len(),
            forall|k: int| 0 <= k < i ==> !is_zero()(#[trigger] buf@[k]),
            i == n ==> c_str_len(buf@) == n,
        ensures
            i <= n,
            c_str_len(buf@) == i,
        decreases n - i,
    {
        if buf[i] == 0 {
            proof {
                lemma_first_where_is(buf@, is_zero(), i as int);
            }
            break ;
        }
        i = i + 1;
        proof {
            if i == n {
                lemma_first_where_is(buf@, is_zero(), n as int);
            }
        }
    }
    vstd::slice::slice_subrange(buf, 0, i)
}

/// Gets an optional string value from what the native layer gave for a C
/// string. If it gave none, this returns `None`; otherwise it returns the
/// text of the C string, which is empty where the bytes are not valid
/// UTF-8.
pub fn cstring_opt(pstr: Option<&[u8]>) -> (r: Option<String>)
    ensures
        pstr is None ==> r is None,
        pstr matches Some(buf) ==> (r matches Some(s) && s@ == c_text(buf@)),
{
    match pstr {
        None => None,
        Some(buf) => match utf8_text(c_str(buf)) {
            Some(s) => Some(s),
            None => Some(String::new()),
        },
    }
}

/// Settles what a native read of an attribute handed back: `ret` is what
/// the call returned and `buf` the buffer that it filled. A negative
/// return is the negated error number; otherwise the value is the C string
/// at the start of the buffer, which must be valid UTF-8.
pub fn text_from_buf(ret: isize, buf: &[u8]) -> (r: Result<String>)
    ensures
        ret < 0 ==> r == Err::<String, Error>(Error::Nix(errno_of(code_of_count(ret)))),
        ret >= 0 && !valid_utf8(c_str_bytes(buf@)) ==> r == Err::<String, Error>(
            Error::StringConversionError,
        ),
        ret >= 0 && valid_utf8(c_str_bytes(buf@)) ==> (r matches Ok(s) && s@ == decode_utf8(
            c_str_bytes(buf@),
        )),
{
    match sys_result_count(ret) {
        Err(e) => Err(e),
        Ok(_) => match utf8_text(c_str(buf)) {
            Some(s) => Ok(s),
            None => Err(Error::StringConversionError),
        },
    }
}

/// The text of what the native layer gave for a C string: that of
/// `cstring_opt`.
pub open spec fn c_text(buf: Seq<u8>) -> Seq<char> {
    if valid_utf8(c_str_bytes(buf)) {
        decode_utf8(c_str_bytes(buf))
    } else {
        Seq::<char>::empty()
    }
}

/// Settles what the native layer handed back for the context attribute at
/// an index: `ret` is what the call returned, `name` and `value` what it
/// gave for the two C strings. A negative return is the negated error
/// number; a string that it did not give is a conversion error.
pub fn attr_pair(ret: i32, name: Option<&[u8]>, value: Option<&[u8]>) -> (r: Result<
    (String, String),
>)
    ensures
        ret < 0 ==> r == Err::<(String, String), Error>(
            Error::Nix(errno_of(crate::errors::code_of_return(ret))),
        ),
        ret >= 0 && (name is None || value is None) ==> r == Err::<(String, String), Error>(
            Error::StringConversionError,
        ),
        ret >= 0 && name is Some && value is Some ==> (r matches Ok(pair) && pair.0@ == c_text(
            name->0@,
        ) && pair.1@ == c_text(value->0@)),
{
    match crate::errors::sys_result(ret, ()) {
        Err(e) => Err(e),
        Ok(_) => match (cstring_opt(name), cstring_opt(value)) {
            (Some(n), Some(v)) => Ok((n, v)),
            _ => Err(Error::StringConversionError),
        },
    }
}

/// Takes in one entry of a read of all attributes: what the native layer
/// gave for the name and the value of an attribute, two C strings. Answers
/// -1 and takes nothing in where it gave none for one of them, and 0
/// otherwise. Bytes that are not valid UTF-8 are replaced by U+FFFD.
pub fn attr_read_all_cb(attrs: &mut Vec<Attr>, attr: Option<&[u8]>, val: Option<&[u8]>) -> (r:
    i32)
    ensures
        attr is None || val is None ==> r == -1 && attrs_view(final(attrs)@) == attrs_view(
            old(attrs)@,
        ),
        attr is Some && val is Some ==> r == 0 && attrs_view(final(attrs)@) == attr_entered(
            attrs_view(old(attrs)@),
            text_of(c_str_bytes(attr->0@)),
            text_of(c_str_bytes(val->0@)),
        ),
        attrs_distinct(attrs_view(old(attrs)@)) ==> attrs_distinct(attrs_view(final(attrs)@)),
{
    match (attr, val) {
        (Some(a), Some(v)) => {
            let name: String = utf8_text_lossy(c_str(a));
            let value: String = utf8_text_lossy(c_str(v));
            attr_enter(attrs, name.as_str(), value.as_str());
            0
        },
        _ => -1,
    }
}

/// A struct to hold version numbers
#[derive(Debug, PartialEq, Eq)]
pub struct Version {
    /// The Major version number
    pub major: u32,
    /// The Minor version number
    pub minor: u32,
    /// The git tag for the release
    pub git_tag: String,
}

impl Version {
    /// Makes the version from what the native layer gave: the two numbers
    /// and the buffer that it wrote the git tag to, which holds the tag as
    /// a C string or, where it has no NUL, in full.
    pub fn from_native(major: u32, minor: u32, tag: &[u8]) -> (v: Version)
        ensures
            v.major == major,
            v.minor == minor,
            v.git_tag@ == text_of(c_str_bytes(tag@)),
    {
        Version { major, minor, git_tag: utf8_text_lossy(c_str(tag)) }
    }

    /// Makes a copy of the version.
    pub fn copy(&self) -> (v: Version)
        ensures
            v.major == self.major,
            v.minor == self.minor,
            v.git_tag@ == self.git_tag@,
    {
        Version { major: self.major, minor: self.minor, git_tag: self.git_tag.clone() }
    }

    /// The text of the version: the two numbers with a dot between them,
    /// then ` tag: ` and the git tag.
    pub open spec fn spec_text(&self) -> Seq<char> {
        crate::text::int_text(self.major as int) + seq!['.'] + crate::text::int_text(
            self.minor as int,
        ) + " tag: "@ + self.git_tag@
    }

    /// Gives the text of the version, such as `0.24 tag: c4498c2`.
    pub fn text(&self) -> (s: String)
        ensures
            s@ == self.spec_text(),
    {
        let mut s: String = crate::text::unsigned_text(self.major as u128);
        s.push('.');
        let minor: String = crate::text::unsigned_text(self.minor as u128);
        s.append(minor.as_str());
        s.append(" tag: ");
        s.append(self.git_tag.as_str());
        proof {
            assert(s@ =~= self.spec_text());
        }
        s
    }
}

} // verus!
