//! Named attributes and their text values.
//!
//! Contexts, devices, channels and buffers each hold a list of attributes.
//! The model of such a list is a sequence of pairs of a name and a value,
//! in which a name is looked up from the front.

use vstd::prelude::*;
use crate::attr::{Attribute, FromAttribute, ToAttribute};
use crate::errors::{errno_from_raw, errno_of, Error, Result, ENOENT};
use crate::text::{find_nul, has_nul, is_first_nul};

verus! {

/// The place of the first item of a sequence for which `p` holds, or the
/// length of the sequence where it holds for none.
pub open spec fn first_where<A>(s: Seq<A>, p: spec_fn(A) -> bool) -> int
    decreases s.len(),
{
    if s.len() == 0 {
        0
    } else if p(s[0]) {
        0
    } else {
        1 + first_where(s.drop_first(), p)
    }
}

/// What the place that `first_where` gives is: within the sequence or at
/// its end, after items for which `p` fails, and at an item for which it
/// holds, if it is within.
pub proof fn lemma_first_where<A>(s: Seq<A>, p: spec_fn(A) -> bool)
    ensures
        0 <= first_where(s, p) <= s.len(),
        first_where(s, p) < s.len() ==> p(s[first_where(s, p)]),
        forall|k: int| 0 <= k < first_where(s, p) ==> !p(#[trigger] s[k]),
    decreases s.len(),
{
    if s.len() > 0 && !p(s[0]) {
        let t = s.drop_first();
        lemma_first_where(t, p);
        assert forall|k: int| 0 <= k < first_where(s, p) implies !p(#[trigger] s[k]) by {
            if k > 0 {
                assert(s[k] == t[k - 1]);
            }
        }
    }
}

/// A place after items for which `p` fails, which is the end or holds an
/// item for which `p` holds, is the place that `first_where` gives.
pub proof fn lemma_first_where_is<A>(s: Seq<A>, p: spec_fn(A) -> bool, i: int)
    requires
        0 <= i <= s.len(),
        forall|k: int| 0 <= k < i ==> !p(#[trigger] s[k]),
        i < s.len() ==> p(s[i]),
    ensures
        first_where(s, p) == i,
    decreases s.len(),
{
    if s.len() > 0 && i > 0 {
        let t = s.drop_first();
        assert(!p(s[0]));
        assert forall|k: int| 0 <= k < i - 1 implies !p(#[trigger] t[k]) by {
            assert(t[k] == s[k + 1]);
        }
        lemma_first_where_is(t, p, i - 1);
    }
}

/// One attribute: its name and the text of its current value.
#[derive(Debug, PartialEq, Eq)]
pub struct Attr {
    /// The name of the attribute
    pub name: String,
    /// The text of its value
    pub value: String,
}

impl Clone for Attr {
    /// The clone has the name and the value of the attribute.
    fn clone(&self) -> (a: Attr)
        ensures
            a.name@ == self.name@,
            a.value@ == self.value@,
    {
        Attr { name: self.name.clone(), value: self.value.clone() }
    }
}

/// The model of a list of attributes: pairs of a name and a value.
pub type AttrSeq = Seq<(Seq<char>, Seq<char>)>;

/// The model of a list of attributes.
pub open spec fn attrs_view(v: Seq<Attr>) -> AttrSeq {
    Seq::new(v.len(), |i: int| (v[i].name@, v[i].value@))
}

/// The test for an attribute of the given name.
pub open spec fn named(name: Seq<char>) -> spec_fn((Seq<char>, Seq<char>)) -> bool {
    |a: (Seq<char>, Seq<char>)| a.0 == name
}

/// The place of the attribute of the given name, or the length of the list
/// where there is none.
pub open spec fn attr_place(attrs: AttrSeq, name: Seq<char>) -> int {
    first_where(attrs, named(name))
}

/// Whether the list holds an attribute of the given name.
pub open spec fn attr_known(attrs: AttrSeq, name: Seq<char>) -> bool {
    attr_place(attrs, name) < attrs.len()
}

/// Whether no two attributes of the list have the same name.
pub open spec fn attrs_distinct(attrs: AttrSeq) -> bool {
    forall|i: int, j: int|
        0 <= i < attrs.len() && 0 <= j < attrs.len() && i != j ==> (#[trigger] attrs[i]).0 != (
        #[trigger] attrs[j]).0
}

/// The attributes after an attribute with its value was taken in: the
/// value of the attribute of that name replaced, or the attribute added
/// at the end where none has the name.
pub open spec fn attr_entered(attrs: AttrSeq, name: Seq<char>, value: Seq<char>) -> AttrSeq {
    if attr_known(attrs, name) {
        attrs.update(attr_place(attrs, name), (name, value))
    } else {
        attrs.push((name, value))
    }
}

/// Taking an attribute in leaves the names of a list without a name that
/// occurs twice.
pub proof fn lemma_entered_distinct(attrs: AttrSeq, name: Seq<char>, value: Seq<char>)
    requires
        attrs_distinct(attrs),
    ensures
        attrs_distinct(attr_entered(attrs, name, value)),
        attr_known(attr_entered(attrs, name, value), name),
        attr_entered(attrs, name, value)[attr_place(attr_entered(attrs, name, value), name)].1
            == value,
{
    let after = attr_entered(attrs, name, value);
    let p = named(name);
    lemma_first_where(attrs, p);
    if attr_known(attrs, name) {
        let at = attr_place(attrs, name);
        assert forall|k: int| 0 <= k < after.len() implies (#[trigger] after[k]).0 == attrs[k].0 by {}
        assert forall|k: int| 0 <= k < at implies !p(#[trigger] after[k]) by {
            assert(!p(attrs[k]));
        }
        lemma_first_where_is(after, p, at);
    } else {
        let at = attrs.len() as int;
        assert forall|k: int| 0 <= k < at implies !p(#[trigger] after[k]) by {
            assert(!p(attrs[k]));
        }
        lemma_first_where_is(after, p, at);
        assert forall|i: int, j: int|
            0 <= i < after.len() && 0 <= j < after.len() && i != j implies (
        #[trigger] after[i]).0 != (#[trigger] after[j]).0 by {
            if i < at && j < at {
                assert(after[i] == attrs[i] && after[j] == attrs[j]);
            } else if i < at {
                assert(!p(attrs[i]));
            } else {
                assert(!p(attrs[j]));
            }
        }
    }
}

/// A write to an attribute leaves the names of a list without a name that
/// occurs twice.
pub proof fn lemma_written_distinct(attrs: AttrSeq, name: Seq<char>, text: Seq<char>)
    requires
        attrs_distinct(attrs),
    ensures
        attrs_distinct(attr_written(attrs, name, text)),
{
    let after = attr_written(attrs, name, text);
    lemma_first_where(attrs, named(name));
    assert forall|k: int| 0 <= k < after.len() implies (#[trigger] after[k]).0 == attrs[k].0 by {}
}

/// What reading the named attribute as text gives: an error for a name
/// with a NUL character in it or a name that the list does not hold, and
/// the value's text otherwise.
pub open spec fn attr_read_spec(attrs: AttrSeq, name: Seq<char>, r: Result<String>) -> bool {
    if has_nul(name) {
        r matches Err(Error::NulError(pos)) && is_first_nul(name, pos as int)
    } else if !attr_known(attrs, name) {
        r == Err::<String, Error>(Error::Nix(errno_of(ENOENT)))
    } else {
        r matches Ok(text) && text@ == attrs[attr_place(attrs, name)].1
    }
}

/// Whether writing the text to the named attribute succeeds.
pub open spec fn attr_writable(attrs: AttrSeq, name: Seq<char>, text: Seq<char>) -> bool {
    !has_nul(name) && !has_nul(text) && attr_known(attrs, name)
}

/// The list after the text was written to the named attribute: the value
/// of that attribute replaced where the write succeeds, and the list
/// unchanged where it fails.
pub open spec fn attr_written(attrs: AttrSeq, name: Seq<char>, text: Seq<char>) -> AttrSeq {
    if attr_writable(attrs, name, text) {
        attrs.update(attr_place(attrs, name), (name, text))
    } else {
        attrs
    }
}

/// What writing to the named attribute answers: an error for a NUL
/// character in the name or, after that, in the text, an error for a name
/// that the list does not hold, and success otherwise.
pub open spec fn attr_write_spec(
    attrs: AttrSeq,
    name: Seq<char>,
    text: Seq<char>,
    r: Result<()>,
) -> bool {
    if has_nul(name) {
        r matches Err(Error::NulError(pos)) && is_first_nul(name, pos as int)
    } else if has_nul(text) {
        r matches Err(Error::NulError(pos)) && is_first_nul(text, pos as int)
    } else if !attr_known(attrs, name) {
        r == Err::<(), Error>(Error::Nix(errno_of(ENOENT)))
    } else {
        r is Ok
    }
}

/// A write to an attribute keeps the names of all attributes and their
/// order.
pub proof fn lemma_written_names(attrs: AttrSeq, name: Seq<char>, text: Seq<char>, other: Seq<char>)
    ensures
        attr_written(attrs, name, text).len() == attrs.len(),
        attr_place(attr_written(attrs, name, text), other) == attr_place(attrs, other),
{
    let after = attr_written(attrs, name, text);
    let p = named(other);
    lemma_first_where(attrs, p);
    lemma_first_where(attrs, named(name));
    let i = attr_place(attrs, other);
    assert forall|k: int| 0 <= k < after.len() implies p(#[trigger] after[k]) == p(attrs[k]) by {}
    assert forall|k: int| 0 <= k < i implies !p(#[trigger] after[k]) by {
        assert(!p(attrs[k]));
    }
    lemma_first_where_is(after, p, i);
}

/// After a write that succeeded, the attribute reads as the text written.
pub proof fn lemma_write_then_read(attrs: AttrSeq, name: Seq<char>, text: Seq<char>)
    requires
        attr_writable(attrs, name, text),
    ensures
        attr_known(attr_written(attrs, name, text), name),
        attr_written(attrs, name, text)[attr_place(attr_written(attrs, name, text), name)].1
            == text,
{
    lemma_written_names(attrs, name, text, name);
    lemma_first_where(attrs, named(name));
}

/// Writing the same text twice leaves the list as writing it once.
pub proof fn lemma_write_twice(attrs: AttrSeq, name: Seq<char>, text: Seq<char>)
    ensures
        attr_written(attr_written(attrs, name, text), name, text) == attr_written(
            attrs,
            name,
            text,
        ),
{
    lemma_written_names(attrs, name, text, name);
    lemma_first_where(attrs, named(name));
    let once = attr_written(attrs, name, text);
    assert(attr_written(once, name, text) =~= once);
}

/// Finds the place of the attribute of the given name.
pub fn attr_find(attrs: &Vec<Attr>, name: &str) -> (r: Option<usize>)
    ensures
        match r {
            Some(i) => i == attr_place(attrs_view(attrs@), name@) && i < attrs@.len(),
            None => !attr_known(attrs_view(attrs@), name@),
        },
{
    let wanted: String = name.to_owned();
    let n: usize = attrs.len();
    let mut i: usize = 0;
    let ghost model = attrs_view(attrs@);
    while i < n
        invariant
            i <= n,
            n == attrs@.len(),
            model == attrs_view(attrs@),
            wanted@ == name@,
            forall|k: int| 0 <= k < i ==> !named(name@)(#[trigger] model[k]),
        decreases n - i,
    {
        if attrs[i].name == wanted {
            proof {
                assert(named(name@)(model[i as int]));
                lemma_first_where_is(model, named(name@), i as int);
            }
            return Some(i);
        }
        i = i + 1;
    }
    proof {
        lemma_first_where_is(model, named(name@), n as int);
    }
    None
}

/// Reads the named attribute as text.
pub fn attr_get(attrs: &Vec<Attr>, name: &str) -> (r: Result<String>)
    ensures
        attr_read_spec(attrs_view(attrs@), name@, r),
{
    match find_nul(name) {
        Some(pos) => Err(Error::NulError(pos)),
        None => match attr_find(attrs, name) {
            Some(i) => Ok(attrs[i].value.clone()),
            None => Err(Error::Nix(errno_from_raw(ENOENT))),
        },
    }
}

/// Writes the text to the named attribute.
pub fn attr_set(attrs: &mut Vec<Attr>, name: &str, text: &str) -> (r: Result<()>)
    ensures
        attr_write_spec(attrs_view(old(attrs)@), name@, text@, r),
        attrs_view(final(attrs)@) == attr_written(attrs_view(old(attrs)@), name@, text@),
        attrs_distinct(attrs_view(old(attrs)@)) ==> attrs_distinct(attrs_view(final(attrs)@)),
{
    let ghost before = attrs_view(attrs@);
    proof {
        if attrs_distinct(before) {
            lemma_written_distinct(before, name@, text@);
        }
    }
    match find_nul(name) {
        Some(pos) => Err(Error::NulError(pos)),
        None => match find_nul(text) {
            Some(pos) => Err(Error::NulError(pos)),
            None => match attr_find(attrs, name) {
                Some(i) => {
                    attrs.set(i, Attr { name: name.to_owned(), value: text.to_owned() });
                    proof {
                        assert(attrs_view(attrs@) =~= before.update(i as int, (name@, text@)));
                    }
                    Ok(())
                },
                None => Err(Error::Nix(errno_from_raw(ENOENT))),
            },
        },
    }
}

/// Takes an attribute with its value into the list: the value of the
/// attribute of that name is replaced, or the attribute is added at the
/// end where none has the name. A list without a name that occurs twice
/// stays one.
pub fn attr_enter(attrs: &mut Vec<Attr>, name: &str, value: &str)
    ensures
        attrs_view(final(attrs)@) == attr_entered(attrs_view(old(attrs)@), name@, value@),
        attrs_distinct(attrs_view(old(attrs)@)) ==> attrs_distinct(attrs_view(final(attrs)@)),
{
    let ghost before = attrs_view(attrs@);
    proof {
        if attrs_distinct(before) {
            lemma_entered_distinct(before, name@, value@);
        }
    }
    match attr_find(attrs, name) {
        Some(i) => {
            attrs.set(i, Attr { name: name.to_owned(), value: value.to_owned() });
            proof {
                assert(attrs_view(attrs@) =~= before.update(i as int, (name@, value@)));
            }
        },
        None => {
            attrs.push(Attr { name: name.to_owned(), value: value.to_owned() });
            proof {
                assert(attrs_view(attrs@) =~= before.push((name@, value@)));
            }
        },
    }
}

/// Tells whether the named attribute has another value than the text, or
/// cannot be read: whether the text is still to be written to it.
pub fn attr_differs(attrs: &Vec<Attr>, name: &str, text: &str) -> (r: bool)
    ensures
        r == !(!has_nul(name@) && attr_known(attrs_view(attrs@), name@) && attrs_view(
            attrs@,
        )[attr_place(attrs_view(attrs@), name@)].1 == text@),
{
    match attr_get(attrs, name) {
        Ok(value) => {
            let wanted: String = text.to_owned();
            !(value == wanted)
        },
        Err(_) => true,
    }
}

/// Makes a copy of a list of attributes.
pub fn attrs_copy(attrs: &Vec<Attr>) -> (r: Vec<Attr>)
    ensures
        attrs_view(r@) == attrs_view(attrs@),
{
    let mut out: Vec<Attr> = Vec::new();
    let n: usize = attrs.len();
    let mut i: usize = 0;
    while i < n
        invariant
            i <= n,
            n == attrs@.len(),
            out@.len() == i,
            forall|k: int| 0 <= k < i ==> out@[k].name@ == attrs@[k].name@ && out@[k].value@
                == attrs@[k].value@,
        decreases n - i,
    {
        out.push(attrs[i].clone());
        i = i + 1;
    }
    proof {
        assert(attrs_view(out@) =~= attrs_view(attrs@));
    }
    out
}

/// Gives the names and values of a list of attributes.
pub fn attrs_pairs(attrs: &Vec<Attr>) -> (r: Vec<(String, String)>)
    ensures
        r@.len() == attrs@.len(),
        forall|k: int|
            0 <= k < r@.len() ==> (#[trigger] r@[k]).0@ == attrs@[k].name@ && r@[k].1@
                == attrs@[k].value@,
{
    let mut out: Vec<(String, String)> = Vec::new();
    let n: usize = attrs.len();
    let mut i: usize = 0;
    while i < n
        invariant
            i <= n,
            n == attrs@.len(),
            out@.len() == i,
            forall|k: int|
                0 <= k < i ==> (#[trigger] out@[k]).0@ == attrs@[k].name@ && out@[k].1@
                    == attrs@[k].value@,
        decreases n - i,
    {
        out.push((attrs[i].name.clone(), attrs[i].value.clone()));
        i = i + 1;
    }
    out
}

/// What reading the named attribute as a value of type `T` gives: the
/// errors of reading it as text, then an error for a text that denotes no
/// value of the type, and otherwise the value that the text denotes.
pub open spec fn attr_read_typed_spec<T: FromAttribute>(
    attrs: AttrSeq,
    name: Seq<char>,
    r: Result<T>,
) -> bool {
    if has_nul(name) {
        r matches Err(Error::NulError(pos)) && is_first_nul(name, pos as int)
    } else if !attr_known(attrs, name) {
        r == Err::<T, Error>(Error::Nix(errno_of(ENOENT)))
    } else {
        let text = attrs[attr_place(attrs, name)].1;
        if T::is_attr_text(text) {
            r matches Ok(v) && T::is_attr_value(text, v)
        } else {
            r == Err::<T, Error>(Error::StringConversionError)
        }
    }
}

/// Reads the named attribute as a value of type `T`.
pub fn attr_get_typed<T: FromAttribute>(attrs: &Vec<Attr>, name: &str) -> (r: Result<T>)
    ensures
        attr_read_typed_spec::<T>(attrs_view(attrs@), name@, r),
{
    match attr_get(attrs, name) {
        Ok(text) => T::from_attr(text.as_str()),
        Err(e) => Err(e),
    }
}

/// Writes the text of a typed value to the named attribute.
pub fn attr_set_typed<T: ToAttribute>(attrs: &mut Vec<Attr>, name: &str, val: T) -> (r: Result<()>)
    ensures
        attr_write_spec(attrs_view(old(attrs)@), name@, val.attr_text(), r),
        attrs_view(final(attrs)@) == attr_written(attrs_view(old(attrs)@), name@, val.attr_text()),
        attrs_distinct(attrs_view(old(attrs)@)) ==> attrs_distinct(attrs_view(final(attrs)@)),
{
    match val.to_attr() {
        Ok(text) => attr_set(attrs, name, text.as_str()),
        Err(e) => Err(e),
    }
}

/// An attribute that a value was written to reads back, as the same type,
/// as the value that the written text denotes, which the value written is.
pub proof fn lemma_attr_round_trip<T: Attribute>(
    attrs: AttrSeq,
    name: Seq<char>,
    v: T,
    r: Result<T>,
)
    requires
        attr_writable(attrs, name, v.attr_text()),
        attr_read_typed_spec::<T>(attr_written(attrs, name, v.attr_text()), name, r),
    ensures
        r is Ok,
        T::is_attr_value(v.attr_text(), r->Ok_0),
        T::is_attr_value(v.attr_text(), v),
{
    lemma_write_then_read(attrs, name, v.attr_text());
    T::lemma_round_trip(v);
}

/// An attribute that an integer was written to reads back as that integer.
pub proof fn lemma_attr_round_trip_int(attrs: AttrSeq, name: Seq<char>, v: i64, r: Result<i64>)
    requires
        attr_writable(attrs, name, v.attr_text()),
        attr_read_typed_spec::<i64>(attr_written(attrs, name, v.attr_text()), name, r),
    ensures
        r == Ok::<i64, Error>(v),
{
    lemma_attr_round_trip::<i64>(attrs, name, v, r);
}

/// An attribute that a boolean was written to holds the text "1" or "0",
/// and reads back as that boolean.
pub proof fn lemma_attr_round_trip_bool(attrs: AttrSeq, name: Seq<char>, v: bool, r: Result<bool>)
    requires
        attr_writable(attrs, name, v.attr_text()),
        attr_read_typed_spec::<bool>(attr_written(attrs, name, v.attr_text()), name, r),
    ensures
        r == Ok::<bool, Error>(v),
        attr_written(attrs, name, v.attr_text())[attr_place(attrs, name)].1 == (if v {
            seq!['1']
        } else {
            seq!['0']
        }),
{
    lemma_attr_round_trip::<bool>(attrs, name, v, r);
    lemma_first_where(attrs, named(name));
}


} // verus!
