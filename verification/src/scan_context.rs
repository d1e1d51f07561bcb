//! Scan context to get information about the available backends.
//!
//! Scanning is the work of the caller: it asks the native layer for the
//! contexts of a backend and hands over what it found.

use vstd::prelude::*;
use crate::channel::opt_text;
use crate::context::is_nul_error;
use crate::errors::{errno_last, Error, Result};
use crate::text::{find_nul, has_nul};

verus! {

/// The model of what a scan found of one context: its URI and its
/// description, each of which the native layer may fail to give.
pub type InfoView = (Option<Seq<char>>, Option<Seq<char>>);

/// The model of the list of what a scan found.
pub open spec fn infos_view(v: Seq<(Option<String>, Option<String>)>) -> Seq<InfoView> {
    Seq::new(v.len(), |i: int| (opt_text(v[i].0), opt_text(v[i].1)))
}

/// The model of a scan context.
pub struct ScanView {
    /// The handle of the native scan block, which is not zero
    pub handle: usize,
    /// The name of the backend
    pub backend: Seq<char>,
    /// What the last scan returned: the number of contexts or a negated
    /// error number
    pub count: isize,
    /// What the last scan found
    pub infos: Seq<InfoView>,
}

impl ScanView {
    /// The number of contexts that the scan found: none where it failed.
    pub open spec fn len(self) -> nat {
        if self.count < 0 {
            0
        } else {
            self.count as nat
        }
    }
}

/// Scan context to get information about available contexts.
#[derive(Debug)]
pub struct ScanContext {
    handle: usize,
    backend: String,
    count: isize,
    infos: Vec<(Option<String>, Option<String>)>,
}

impl View for ScanContext {
    type V = ScanView;

    closed spec fn view(&self) -> ScanView {
        ScanView {
            handle: self.handle,
            backend: self.backend@,
            count: self.count,
            infos: infos_view(self.infos@),
        }
    }
}

impl ScanContext {
    /// Creates a scan context for the specified backend, from the handle
    /// of the scan block that the native layer made for it: zero where it
    /// made none.
    /// The backend can be "local", "ip", or "usb".
    pub fn new(backend: &str, handle: usize) -> (r: Result<ScanContext>)
        ensures
            has_nul(backend@) ==> is_nul_error(backend@, r),
            !has_nul(backend@) && handle == 0 ==> r matches Err(Error::Nix(_)),
            !has_nul(backend@) && handle != 0 ==> (r matches Ok(c) && c@ == (ScanView {
                handle,
                backend: backend@,
                count: 0,
                infos: Seq::empty(),
            })),
    {
        match find_nul(backend) {
            Some(pos) => Err(Error::NulError(pos)),
            None => {
                if handle == 0 {
                    Err(Error::Nix(errno_last()))
                } else {
                    let c = ScanContext {
                        handle,
                        backend: backend.to_owned(),
                        count: 0,
                        infos: Vec::new(),
                    };
                    proof {
                        assert(infos_view(c.infos@) =~= Seq::empty());
                    }
                    Ok(c)
                }
            },
        }
    }

    /// Creates a scan context for the local backend.
    pub fn new_local(handle: usize) -> (r: Result<ScanContext>)
        ensures
            handle == 0 ==> r matches Err(Error::Nix(_)),
            handle != 0 ==> (r matches Ok(c) && c@ == (ScanView {
                handle,
                backend: "local"@,
                count: 0,
                infos: Seq::empty(),
            })),
    {
        proof {
            reveal_strlit("local");
            crate::text::lemma_ascii_has_no_nul("local");
        }
        Self::new("local", handle)
    }

    /// Creates a scan context for the network backend.
    pub fn new_network(handle: usize) -> (r: Result<ScanContext>)
        ensures
            handle == 0 ==> r matches Err(Error::Nix(_)),
            handle != 0 ==> (r matches Ok(c) && c@ == (ScanView {
                handle,
                backend: "ip"@,
                count: 0,
                infos: Seq::empty(),
            })),
    {
        proof {
            reveal_strlit("ip");
            crate::text::lemma_ascii_has_no_nul("ip");
        }
        Self::new("ip", handle)
    }

    /// Creates a scan context for the USB backend.
    pub fn new_usb(handle: usize) -> (r: Result<ScanContext>)
        ensures
            handle == 0 ==> r matches Err(Error::Nix(_)),
            handle != 0 ==> (r matches Ok(c) && c@ == (ScanView {
                handle,
                backend: "usb"@,
                count: 0,
                infos: Seq::empty(),
            })),
    {
        proof {
            reveal_strlit("usb");
            crate::text::lemma_ascii_has_no_nul("usb");
        }
        Self::new("usb", handle)
    }

    /// Gets the handle of the native scan block.
    pub fn handle(&self) -> (h: usize)
        ensures
            h == self@.handle,
    {
        self.handle
    }

    /// Gets the name of the backend.
    pub fn backend(&self) -> (s: String)
        ensures
            s@ == self@.backend,
    {
        self.backend.clone()
    }

    /// Takes what a scan handed back: `ret` is what it returned, the number
    /// of contexts or a negated error number, and `infos` holds the URI and
    /// the description of each context, as far as the native layer gave
    /// them.
    pub fn scanned(&mut self, ret: isize, infos: Vec<(Option<String>, Option<String>)>)
        ensures
            final(self)@ == (ScanView { count: ret, infos: infos_view(infos@), ..old(self)@ }),
    {
        self.count = ret;
        self.infos = infos;
    }

    /// Gets the number of contexts in this backend
    pub fn len(&self) -> (n: usize)
        ensures
            n == self@.len(),
    {
        if self.count < 0 {
            0
        } else {
            self.count as usize
        }
    }

    /// Gets what the scan found of the context at the index, if it found
    /// both its URI and its description.
    pub fn get_info(&self, idx: usize) -> (r: Option<(String, String)>)
        ensures
            match r {
                Some(pair) => idx < self@.infos.len() && self@.infos[idx as int] == (
                    Some(pair.0@),
                    Some(pair.1@),
                ),
                None => idx >= self@.infos.len() || self@.infos[idx as int].0 is None
                    || self@.infos[idx as int].1 is None,
            },
    {
        if idx >= self.infos.len() {
            return None;
        }
        proof {
            assert(infos_view(self.infos@)[idx as int] == (
                opt_text(self.infos@[idx as int].0),
                opt_text(self.infos@[idx as int].1),
            ));
        }
        match (&self.infos[idx].0, &self.infos[idx].1) {
            (Some(uri), Some(descr)) => Some((uri.clone(), descr.clone())),
            _ => None,
        }
    }

    /// Gets an iterator to the contexts
    pub fn iter(&self) -> (it: ScanContextIterator<'_>)
        ensures
            it.infos() == self@.infos,
            it.position() == 0,
    {
        ScanContextIterator { ctx: self, idx: 0 }
    }
}

/// Iterator over the info in a ScanContext
#[derive(Debug)]
pub struct ScanContextIterator<'a> {
    /// Reference to the scan context that we're iterating through
    ctx: &'a ScanContext,
    /// Index for the next block from the iterator.
    idx: u32,
}

impl<'a> ScanContextIterator<'a> {
    /// What the scan found, which the iterator walks.
    pub closed spec fn infos(&self) -> Seq<InfoView> {
        self.ctx@.infos
    }

    /// The number of contexts that the iterator has handed out.
    pub closed spec fn position(&self) -> nat {
        self.idx as nat
    }

    /// Whether the iterator can hand out the context at its place: the
    /// place is within what the scan found and below the largest index,
    /// and the scan found both the URI and the description.
    pub open spec fn has_next(&self) -> bool {
        &&& self.position() < self.infos().len()
        &&& self.position() < u32::MAX
        &&& self.infos()[self.position() as int].0 is Some
        &&& self.infos()[self.position() as int].1 is Some
    }

    /// Gets the URI and the description of the next context. The iterator
    /// ends at the first context of which one of the two is missing.
    pub fn next(&mut self) -> (r: Option<(String, String)>)
        ensures
            final(self).infos() == old(self).infos(),
            old(self).has_next() ==> (r matches Some(pair) && (Some(pair.0@), Some(pair.1@))
                == old(self).infos()[old(self).position() as int]),
            old(self).has_next() ==> final(self).position() == old(self).position() + 1,
            !old(self).has_next() ==> r is None,
            !old(self).has_next() ==> final(self).position() == old(self).position(),
    {
        if self.idx == u32::MAX {
            return None;
        }
        match self.ctx.get_info(self.idx as usize) {
            Some(pair) => {
                self.idx = self.idx + 1;
                Some(pair)
            },
            None => None,
        }
    }
}

} // verus!
