//! An anonymous section object, for sharing memory between processes.

use crate::completion::{offset_halves, set_offset};
use crate::error::{fails, non_null, Error, ErrorView};
use vstd::prelude::*;

verus! {

/// An anonymous section object of a fixed size.
#[derive(Debug)]
pub struct Section {
    handle: usize,
}

impl View for Section {
    type V = usize;

    closed spec fn view(&self) -> usize {
        self.handle
    }
}

impl Section {
    /// The halves of a section's size, as `CreateFileMappingW` takes them: the
    /// low one first.
    pub fn size_halves(size: u64) -> (r: (u32, u32))
        ensures
            r == offset_halves(size),
            r.1 * 0x1_0000_0000 + r.0 == size,
    {
        set_offset(size)
    }

    /// A section over the object that `CreateFileMappingW` returned, or its
    /// failure if that is null.
    pub fn new(handle: usize, last_error: i32) -> (r: Result<Section, Error>)
        ensures
            handle == 0 ==> fails(r, ErrorView::Os(last_error)),
            handle != 0 ==> (r matches Ok(section) && section@ == handle),
    {
        match non_null(handle, last_error) {
            Ok(handle) => Ok(Section { handle }),
            Err(e) => Err(e),
        }
    }

    /// The section object.
    pub fn as_raw_handle(&self) -> (r: usize)
        ensures
            r == self@,
    {
        self.handle
    }

    /// Adopt a section object.
    pub fn from_raw_handle(handle: usize) -> (r: Section)
        ensures
            r@ == handle,
    {
        Section { handle }
    }

    /// Give the section object up.
    pub fn into_raw_handle(self) -> (r: usize)
        ensures
            r == self@,
    {
        self.handle
    }
}

/// A section is made of the object that was given, and gives that back; null is
/// the failure that came with it. A size is the sum of its halves.
pub proof fn a_section_is_its_object(
    handle: usize,
    last_error: i32,
    r: Result<Section, Error>,
    adopted: Section,
    section: &Section,
    raw: usize,
    owned: Section,
    given_up: usize,
    size: u64,
    halves: (u32, u32),
)
    requires
        call_ensures(Section::new, (handle, last_error), r),
        call_ensures(Section::from_raw_handle, (handle,), adopted),
        call_ensures(Section::as_raw_handle, (section,), raw),
        call_ensures(Section::into_raw_handle, (owned,), given_up),
        call_ensures(Section::size_halves, (size,), halves),
    ensures
        match r {
            Ok(made) => handle != 0 && made@ == handle,
            Err(e) => handle == 0 && e@ == ErrorView::Os(last_error),
        },
        adopted@ == handle,
        raw == section@,
        given_up == owned@,
        halves.1 * 0x1_0000_0000 + halves.0 == size,
{
}

} // verus!
