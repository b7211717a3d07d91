//! Memory regions that are mapped into the process, for a guest's memory.

use crate::completion::{offset_halves, set_offset};
use crate::error::{fails, non_null, Error, ErrorView};
use crate::sys;
use vstd::prelude::*;

verus! {

/// The highest address that a mapping may reach.
pub const MM_HIGHEST_VAD_ADDRESS: u64 = 0x0000_07FF_FFFD_FFFF;

/// The handle that names nothing.
pub const INVALID_HANDLE_VALUE: usize = usize::MAX;

/// The code for an argument that a call cannot use.
pub const ERROR_INVALID_PARAMETER: i32 = 87;

/// A bitmap that tracks which parts of a region were written to.
pub trait NewBitmap: Sized {
    /// A bitmap for a region of `len` bytes.
    fn with_len(len: usize) -> Self;
}

impl NewBitmap for () {
    fn with_len(len: usize) -> () {
    }
}

/// A place in a file.
#[derive(Debug)]
pub struct FileOffset {
    file: usize,
    start: u64,
}

/// A [`FileOffset`] as plain values.
pub struct FileOffsetView {
    /// The file's handle.
    pub file: usize,
    /// The offset in the file.
    pub start: u64,
}

impl View for FileOffset {
    type V = FileOffsetView;

    closed spec fn view(&self) -> FileOffsetView {
        FileOffsetView { file: self.file, start: self.start }
    }
}

impl FileOffset {
    /// The offset `start` in `file`.
    pub fn new(file: usize, start: u64) -> (r: FileOffset)
        ensures
            r@ == (FileOffsetView { file, start }),
    {
        FileOffset { file, start }
    }

    /// The file's handle.
    pub fn file(&self) -> (r: usize)
        ensures
            r == self@.file,
    {
        self.file
    }

    /// The offset in the file.
    pub fn start(&self) -> (r: u64)
        ensures
            r == self@.start,
    {
        self.start
    }
}

/// A memory region that is mapped into the process.
#[derive(Debug)]
pub struct MmapRegion<B> {
    addr: usize,
    size: usize,
    bitmap: B,
    file_offset: Option<FileOffset>,
    mapped_view: bool,
}

/// A [`MmapRegion`] as plain values.
#[verifier::reject_recursive_types(B)]
pub struct MmapRegionView<B> {
    /// Where the region begins.
    pub addr: usize,
    /// How long it is, in bytes.
    pub size: usize,
    /// What tracks writes to it.
    pub bitmap: B,
    /// The place in the file behind it, if there is one.
    pub file_offset: Option<FileOffset>,
    /// Whether it is a view of a section, not an allocation.
    pub mapped_view: bool,
}

impl<B> View for MmapRegion<B> {
    type V = MmapRegionView<B>;

    closed spec fn view(&self) -> MmapRegionView<B> {
        MmapRegionView {
            addr: self.addr,
            size: self.size,
            bitmap: self.bitmap,
            file_offset: self.file_offset,
            mapped_view: self.mapped_view,
        }
    }
}

/// A call that maps memory, and what is known of it so far.
#[derive(Debug)]
pub enum Mapping<B> {
    /// Call `VirtualAlloc`, to commit memory that can be read and written.
    Allocate {
        /// How many bytes.
        size: usize,
    },
    /// Call `CreateFileMappingA`, for reading and writing. A mapping begins with
    /// the file, so it has to reach as far as the view that is to be made of it.
    CreateMapping {
        /// The file, and where in it.
        file_offset: FileOffset,
        /// How many bytes the view has.
        size: usize,
        /// The high half of where the view ends in the file, or of nothing for
        /// the whole file.
        size_high: u32,
        /// The low half of that.
        size_low: u32,
    },
    /// Call `MapViewOfFile`.
    MapView {
        /// The section.
        section: usize,
        /// The access to ask for.
        access: u32,
        /// The high half of the offset in the section.
        offset_high: u32,
        /// The low half of that.
        offset_low: u32,
        /// How many bytes.
        size: usize,
        /// The file behind the section, if it was made from one.
        file_offset: Option<FileOffset>,
    },
    /// Close the section that was made from a file.
    CloseMapping {
        /// The section.
        section: usize,
        /// What `MapViewOfFile` returned.
        view: usize,
        /// How many bytes.
        size: usize,
        /// The file, and where in it.
        file_offset: FileOffset,
    },
    /// It is over, with this result.
    Done(Result<MmapRegion<B>, Error>),
}

/// What the kernel said to a [`Mapping`].
#[derive(Debug, Clone, Copy, PartialEq, Eq, Structural)]
pub enum MapReply {
    /// The address or the handle that a call returned, null for failure, and
    /// the last error.
    Returned {
        /// What the call returned.
        value: usize,
        /// The last error.
        last_error: i32,
    },
    /// The section is closed.
    Closed {
        /// The last error.
        last_error: i32,
    },
}

/// Whether mapping is over, with the failure `code`.
pub open spec fn map_failed<B>(r: Mapping<B>, code: i32) -> bool {
    r matches Mapping::Done(result) && fails(result, ErrorView::Os(code))
}

/// Whether mapping is over, with this region and a bitmap that was made for it.
pub open spec fn maps<B: NewBitmap>(
    r: Mapping<B>,
    addr: usize,
    size: usize,
    file_offset: Option<FileOffset>,
    mapped_view: bool,
) -> bool {
    &&& r matches Mapping::Done(result)
    &&& result matches Ok(region)
    &&& region@.addr == addr
    &&& region@.size == size
    &&& region@.file_offset == file_offset
    &&& region@.mapped_view == mapped_view
    &&& call_ensures(B::with_len, (size,), region@.bitmap)
    &&& region.wf()
}

/// The step that maps a view.
pub open spec fn map_view<B>(
    section: usize,
    access: u32,
    offset: u64,
    size: usize,
    file_offset: Option<FileOffset>,
) -> Mapping<B> {
    Mapping::MapView {
        section,
        access,
        offset_high: offset_halves(offset).1,
        offset_low: offset_halves(offset).0,
        size,
        file_offset,
    }
}

/// What follows on a reply. A reply to another step changes nothing.
pub open spec fn map_follows<B: NewBitmap>(
    step: Mapping<B>,
    reply: MapReply,
    r: Mapping<B>,
) -> bool {
    match (step, reply) {
        (Mapping::Allocate { size }, MapReply::Returned { value, last_error }) => if value == 0 {
            map_failed(r, last_error)
        } else {
            maps(r, value, size, None, false)
        },
        (
            Mapping::CreateMapping { file_offset, size, .. },
            MapReply::Returned { value, last_error },
        ) => if value == 0 {
            map_failed(r, last_error)
        } else {
            r == map_view::<B>(
                value,
                sys::file_map_all_access_value(),
                file_offset@.start,
                size,
                Some(file_offset),
            )
        },
        (
            Mapping::MapView { section, size, file_offset, .. },
            MapReply::Returned { value, last_error },
        ) => match file_offset {
            Some(file_offset) => r == (Mapping::<B>::CloseMapping {
                section,
                view: value,
                size,
                file_offset,
            }),
            None => if value == 0 {
                map_failed(r, last_error)
            } else {
                maps(r, value, size, None, true)
            },
        },
        (
            Mapping::CloseMapping { view, size, file_offset, .. },
            MapReply::Closed { last_error },
        ) => if view == 0 {
            map_failed(r, last_error)
        } else {
            maps(r, view, size, Some(file_offset), true)
        },
        _ => r == step,
    }
}

/// Whether an address that the kernel returned has room for `size` bytes, as
/// every mapping does.
pub open spec fn fits<B>(step: Mapping<B>, reply: MapReply) -> bool {
    match (step, reply) {
        (Mapping::Allocate { size }, MapReply::Returned { value, .. }) => value + size
            <= usize::MAX,
        (Mapping::MapView { size, .. }, MapReply::Returned { value, .. }) => value + size
            <= usize::MAX,
        (Mapping::CloseMapping { view, size, .. }, _) => view + size <= usize::MAX,
        _ => true,
    }
}

impl<B: NewBitmap> Mapping<B> {
    /// Take what the kernel said to the step that `self` is.
    pub fn next(self, reply: MapReply) -> (r: Mapping<B>)
        requires
            fits(self, reply),
            forall|len: usize| call_requires(B::with_len, (len,)),
        ensures
            map_follows(self, reply, r),
    {
        match (self, reply) {
            (Mapping::Allocate { size }, MapReply::Returned { value, last_error }) => {
                match non_null(value, last_error) {
                    Ok(addr) => Mapping::Done(Ok(MmapRegion::mapped(addr, size, None, false))),
                    Err(e) => Mapping::Done(Err(e)),
                }
            },
            (
                Mapping::CreateMapping { file_offset, size, .. },
                MapReply::Returned { value, last_error },
            ) => {
                match non_null(value, last_error) {
                    Ok(section) => {
                        let (low, high): (u32, u32) = set_offset(file_offset.start());
                        Mapping::MapView {
                            section,
                            access: sys::file_map_all_access(),
                            offset_high: high,
                            offset_low: low,
                            size,
                            file_offset: Some(file_offset),
                        }
                    },
                    Err(e) => Mapping::Done(Err(e)),
                }
            },
            (
                Mapping::MapView { section, size, file_offset, .. },
                MapReply::Returned { value, last_error },
            ) => match file_offset {
                Some(file_offset) => Mapping::CloseMapping {
                    section,
                    view: value,
                    size,
                    file_offset,
                },
                None => match non_null(value, last_error) {
                    Ok(addr) => Mapping::Done(Ok(MmapRegion::mapped(addr, size, None, true))),
                    Err(e) => Mapping::Done(Err(e)),
                },
            },
            (
                Mapping::CloseMapping { view, size, file_offset, .. },
                MapReply::Closed { last_error },
            ) => {
                match non_null(view, last_error) {
                    Ok(addr) => Mapping::Done(
                        Ok(MmapRegion::mapped(addr, size, Some(file_offset), true)),
                    ),
                    Err(e) => Mapping::Done(Err(e)),
                }
            },
            (step, _) => step,
        }
    }
}

impl<B: NewBitmap> MmapRegion<B> {
    fn mapped(
        addr: usize,
        size: usize,
        file_offset: Option<FileOffset>,
        mapped_view: bool,
    ) -> (r: MmapRegion<B>)
        requires
            addr + size <= usize::MAX,
            call_requires(B::with_len, (size,)),
        ensures
            r.wf(),
            r@.addr == addr,
            r@.size == size,
            r@.file_offset == file_offset,
            r@.mapped_view == mapped_view,
            call_ensures(B::with_len, (size,), r@.bitmap),
    {
        MmapRegion { addr, size, bitmap: B::with_len(size), file_offset, mapped_view }
    }

    /// Begin to map `size` bytes of fresh memory.
    pub fn new(size: usize) -> (r: Mapping<B>)
        ensures
            size == 0 || size > MM_HIGHEST_VAD_ADDRESS ==> map_failed(r, sys::einval_value()),
            0 < size <= MM_HIGHEST_VAD_ADDRESS ==> r == (Mapping::<B>::Allocate { size }),
    {
        if size == 0 || size as u64 > MM_HIGHEST_VAD_ADDRESS {
            return Mapping::Done(Err(Error::Os(sys::einval())));
        }
        Mapping::Allocate { size }
    }

    /// Begin to map `size` bytes of a file, from `file_offset` on. A region that
    /// would end beyond the largest offset is refused. For an empty region the
    /// mapping is asked for without a length, and is as long as the file.
    pub fn from_file(file_offset: FileOffset, size: usize) -> (r: Mapping<B>)
        ensures
            from_file_begins(file_offset, size, r),
    {
        if file_offset.file() == INVALID_HANDLE_VALUE {
            return Mapping::Done(Err(Error::Os(sys::ebadf())));
        }
        let end: u64 = if size == 0 {
            0
        } else {
            match file_offset.start().checked_add(size as u64) {
                Some(end) => end,
                None => return Mapping::Done(Err(Error::Os(sys::einval()))),
            }
        };
        let (low, high): (u32, u32) = set_offset(end);
        Mapping::CreateMapping { file_offset, size, size_high: high, size_low: low }
    }

    /// Begin to map `size` bytes of a section, from `offset` on, for reading
    /// and writing.
    pub fn from_section(section: usize, offset: u64, size: usize) -> (r: Mapping<B>)
        ensures
            from_section_begins(section, offset, size, 6, r),
    {
        proof {
            assert(4u32 | 2u32 == 6u32) by (bit_vector);
        }
        MmapRegion::from_section_with_access(
            section,
            offset,
            size,
            sys::file_map_read() | sys::file_map_write(),
        )
    }

    /// Begin to map `size` bytes of a section, from `offset` on, for reading.
    pub fn from_section_read_only(section: usize, offset: u64, size: usize) -> (r: Mapping<B>)
        ensures
            from_section_begins(section, offset, size, sys::file_map_read_value(), r),
    {
        MmapRegion::from_section_with_access(section, offset, size, sys::file_map_read())
    }

    /// Begin to map `size` bytes of a section. An empty region is refused: the
    /// kernel would map all of the section.
    fn from_section_with_access(section: usize, offset: u64, size: usize, access: u32) -> (r:
        Mapping<B>)
        ensures
            from_section_begins(section, offset, size, access, r),
    {
        if section == INVALID_HANDLE_VALUE || section == 0 {
            return Mapping::Done(Err(Error::Os(sys::ebadf())));
        }
        if size == 0 {
            return Mapping::Done(Err(Error::Os(sys::einval())));
        }
        let (low, high): (u32, u32) = set_offset(offset);
        Mapping::MapView {
            section,
            access,
            offset_high: high,
            offset_low: low,
            size,
            file_offset: None,
        }
    }
}

/// How long the mapping has to be for a view of `size` bytes from `start` on: up
/// to where the view ends, or nothing, which stands for the whole file, when the
/// view is empty.
pub open spec fn mapping_length(start: u64, size: usize) -> int {
    if size == 0 {
        0
    } else {
        start + size
    }
}

/// How mapping a file begins.
pub open spec fn from_file_begins<B>(file_offset: FileOffset, size: usize, r: Mapping<B>) -> bool {
    let end = mapping_length(file_offset@.start, size);
    if file_offset@.file == INVALID_HANDLE_VALUE {
        map_failed(r, sys::ebadf_value())
    } else if end > u64::MAX {
        map_failed(r, sys::einval_value())
    } else {
        r == (Mapping::<B>::CreateMapping {
            file_offset,
            size,
            size_high: offset_halves(end as u64).1,
            size_low: offset_halves(end as u64).0,
        })
    }
}

/// How mapping a section begins.
pub open spec fn from_section_begins<B>(
    section: usize,
    offset: u64,
    size: usize,
    access: u32,
    r: Mapping<B>,
) -> bool {
    if section == INVALID_HANDLE_VALUE || section == 0 {
        map_failed(r, sys::ebadf_value())
    } else if size == 0 {
        map_failed(r, sys::einval_value())
    } else {
        r == map_view::<B>(section, access, offset, size, None)
    }
}

/// Why a slice of a region cannot be had.
#[derive(Debug, Clone, Copy, PartialEq, Eq, Structural)]
pub enum VolatileError {
    /// The end of the slice is beyond the largest offset.
    Overflow {
        /// Where it begins.
        base: usize,
        /// How long it is.
        offset: usize,
    },
    /// The end of the slice is beyond the region.
    OutOfBounds {
        /// Where it ends.
        addr: usize,
    },
}

/// The offset at `offset` behind `base`.
pub fn compute_offset(base: usize, offset: usize) -> (r: Result<usize, VolatileError>)
    ensures
        base + offset <= usize::MAX ==> r == Ok::<usize, VolatileError>((base + offset) as usize),
        base + offset > usize::MAX ==> r == Err::<usize, VolatileError>(
            VolatileError::Overflow { base, offset },
        ),
{
    match base.checked_add(offset) {
        Some(end) => Ok(end),
        None => Err(VolatileError::Overflow { base, offset }),
    }
}

/// A part of a region, with the part of its bitmap that tracks it.
#[derive(Debug)]
pub struct VolatileSlice<'a, B> {
    /// Where it begins.
    pub addr: usize,
    /// How long it is, in bytes.
    pub size: usize,
    /// The bitmap of the region.
    pub bitmap: &'a B,
    /// Where in the bitmap the slice begins.
    pub bitmap_offset: usize,
}

/// How to give a region's memory back.
#[derive(Debug, Clone, Copy, PartialEq, Eq, Structural)]
pub enum Release {
    /// Call `UnmapViewOfFile` on this address.
    UnmapView(usize),
    /// Call `VirtualFree` on this address, to release all of it.
    Free(usize),
}

impl<B> MmapRegion<B> {
    /// What holds of a region: it does not wrap around the address space.
    pub open spec fn wf(&self) -> bool {
        self@.addr + self@.size <= usize::MAX
    }

    /// Where the region begins.
    pub fn as_ptr(&self) -> (r: usize)
        ensures
            r == self@.addr,
    {
        self.addr
    }

    /// How long the region is, in bytes.
    pub fn size(&self) -> (r: usize)
        ensures
            r == self@.size,
    {
        self.size
    }

    /// How long the region is, in bytes.
    pub fn len(&self) -> (r: usize)
        ensures
            r == self@.size,
    {
        self.size
    }

    /// The place in the file behind the region, if there is one.
    pub fn file_offset(&self) -> (r: Option<&FileOffset>)
        ensures
            match self@.file_offset {
                Some(file_offset) => r == Some(&file_offset),
                None => r is None,
            },
    {
        self.file_offset.as_ref()
    }

    /// What tracks writes to the region.
    pub fn bitmap(&self) -> (r: &B)
        ensures
            *r == self@.bitmap,
    {
        &self.bitmap
    }

    /// The `count` bytes at `offset`.
    pub fn get_slice(&self, offset: usize, count: usize) -> (r: Result<
        VolatileSlice<'_, B>,
        VolatileError,
    >)
        requires
            self.wf(),
        ensures
            offset + count > usize::MAX ==> (r matches Err(e) && e == (VolatileError::Overflow {
                base: offset,
                offset: count,
            })),
            self@.size < offset + count <= usize::MAX ==> (r matches Err(e) && e == (
            VolatileError::OutOfBounds { addr: (offset + count) as usize })),
            offset + count <= self@.size ==> (r matches Ok(slice) && slice.addr == self@.addr
                + offset && slice.size == count && *slice.bitmap == self@.bitmap
                && slice.bitmap_offset == offset),
    {
        let end: usize = match compute_offset(offset, count) {
            Ok(end) => end,
            Err(e) => return Err(e),
        };
        if end > self.size {
            return Err(VolatileError::OutOfBounds { addr: end });
        }
        Ok(
            VolatileSlice {
                addr: self.addr + offset,
                size: count,
                bitmap: &self.bitmap,
                bitmap_offset: offset,
            },
        )
    }

    /// How to give the memory back: a view is unmapped, an allocation freed.
    /// Each call fails on what the other one made.
    pub fn release(&self) -> (r: Release)
        ensures
            r == if self@.mapped_view {
                Release::UnmapView(self@.addr)
            } else {
                Release::Free(self@.addr)
            },
    {
        if self.mapped_view {
            Release::UnmapView(self.addr)
        } else {
            Release::Free(self.addr)
        }
    }
}

/// A slice that can be had lies within its region.
pub proof fn a_slice_lies_within_its_region<B>(
    region: MmapRegionView<B>,
    slice: VolatileSlice<'_, B>,
    offset: usize,
    count: usize,
)
    requires
        offset + count <= region.size,
        slice.addr == region.addr + offset,
        slice.size == count,
    ensures
        region.addr <= slice.addr,
        slice.addr + slice.size <= region.addr + region.size,
{
}

/// Memory is given back the way it was got: what `VirtualAlloc` returned is
/// freed, and what `MapViewOfFile` returned is unmapped.
pub proof fn memory_is_released_as_it_was_mapped<B: NewBitmap>(
    step: Mapping<B>,
    reply: MapReply,
    r: Mapping<B>,
)
    requires
        map_follows(step, reply, r),
        step !is Done,
        r matches Mapping::Done(result) && result is Ok,
    ensures
        r matches Mapping::Done(Ok(region)) && region@.mapped_view == (step !is Allocate),
{
}

/// The view of a file begins at the place that was asked for and ends where the
/// mapping that it is made of ends, so that it never runs past that.
pub proof fn a_view_ends_with_its_mapping<B: NewBitmap>(
    file_offset: FileOffset,
    size: usize,
    value: usize,
    last_error: i32,
    begun: Mapping<B>,
    r: Mapping<B>,
)
    requires
        from_file_begins(file_offset, size, begun),
        begun is CreateMapping,
        size > 0,
        value != 0,
        map_follows(begun, MapReply::Returned { value, last_error }, r),
    ensures
        begun matches Mapping::CreateMapping { size_high, size_low, .. } && (
        r matches Mapping::MapView { section, offset_high, offset_low, size: mapped, .. } && ({
            let begins = offset_high * 0x1_0000_0000 + offset_low;
            let ends = size_high * 0x1_0000_0000 + size_low;
            section == value && mapped == size && begins == file_offset@.start && ends == begins
                + size
        })),
{
}

/// A section that was made from a file is closed before mapping it is over,
/// whether or not the view could be mapped.
pub proof fn a_section_made_from_a_file_is_closed<B: NewBitmap>(
    step: Mapping<B>,
    value: usize,
    last_error: i32,
    r: Mapping<B>,
)
    requires
        map_follows(step, MapReply::Returned { value, last_error }, r),
        step matches Mapping::MapView { file_offset, .. } && file_offset is Some,
    ensures
        r matches Mapping::CloseMapping { section, .. } && section == step->MapView_section,
{
}

/// Every view that mapping a section begins with, whatever its access, begins
/// where it was asked to and is as long as it was asked to be, in the section
/// that was given.
pub proof fn a_view_is_made_where_it_was_asked_for<B>(
    section: usize,
    offset: u64,
    size: usize,
    access: u32,
    r: Mapping<B>,
)
    requires
        from_section_begins(section, offset, size, access, r),
    ensures
        r is MapView <==> section != 0 && section != usize::MAX && size != 0,
        r matches Mapping::MapView {
            section: of,
            access: asked,
            offset_high,
            offset_low,
            size: mapped,
            file_offset,
        } ==> {
            &&& of == section
            &&& asked == access
            &&& offset_high * 0x1_0000_0000 + offset_low == offset
            &&& mapped == size
            &&& file_offset is None
        },
        r !is MapView ==> (r matches Mapping::Done(Err(e)) && e@ == ErrorView::Os(
            if section == 0 || section == usize::MAX {
                9
            } else {
                22
            },
        )),
{
}

/// The same of both ways to map a section: the two differ in nothing but the
/// access, which is for reading, and for writing only where that was asked for.
pub proof fn a_read_only_view_differs_in_its_access_alone<B: NewBitmap>(
    section: usize,
    offset: u64,
    size: usize,
    both: Mapping<B>,
    read_only: Mapping<B>,
)
    requires
        call_ensures(MmapRegion::<B>::from_section, (section, offset, size), both),
        call_ensures(MmapRegion::<B>::from_section_read_only, (section, offset, size), read_only),
    ensures
        both is MapView <==> section != 0 && section != usize::MAX && size != 0,
        read_only is MapView <==> both is MapView,
        both matches Mapping::MapView {
            section: of,
            access,
            offset_high,
            offset_low,
            size: mapped,
            file_offset,
        } ==> {
            &&& of == section
            &&& offset_high * 0x1_0000_0000 + offset_low == offset
            &&& mapped == size
            &&& file_offset is None
            &&& access & 4 != 0
            &&& access & 2 != 0
            &&& access == 6
        },
        read_only matches Mapping::MapView {
            section: of,
            access,
            offset_high,
            offset_low,
            size: mapped,
            file_offset,
        } ==> {
            &&& of == section
            &&& offset_high * 0x1_0000_0000 + offset_low == offset
            &&& mapped == size
            &&& file_offset is None
            &&& access & 4 != 0
            &&& access & 2 == 0
            &&& access == 4
        },
        both !is MapView ==> (both matches Mapping::Done(Err(e)) && e@ == ErrorView::Os(
            if section == 0 || section == usize::MAX {
                9
            } else {
                22
            },
        )),
        read_only !is MapView ==> (read_only matches Mapping::Done(Err(e)) && e@ == ErrorView::Os(
            if section == 0 || section == usize::MAX {
                9
            } else {
                22
            },
        )),
{
    assert(6u32 & 4 != 0 && 6u32 & 2 != 0 && 4u32 & 4 != 0 && 4u32 & 2 == 0) by (bit_vector);
}

/// Fresh memory is asked for in the size that was asked for, unless that is
/// nothing or beyond the highest address.
pub proof fn an_allocation_has_the_size_that_was_asked_for<B: NewBitmap>(
    size: usize,
    r: Mapping<B>,
)
    requires
        call_ensures(MmapRegion::<B>::new, (size,), r),
    ensures
        0 < size <= 0x0000_07FF_FFFD_FFFF ==> (r matches Mapping::Allocate { size: asked } && asked
            == size),
        size == 0 || size > 0x0000_07FF_FFFD_FFFF ==> (r matches Mapping::Done(Err(e)) && e@
            == ErrorView::Os(22)),
{
}

/// A mapping of a file reaches as far as the view that is to be made of it, and
/// is of the whole file for an empty one. A file that is none, and an end beyond
/// the largest offset, are refused.
pub proof fn a_mapping_reaches_as_far_as_its_view<B: NewBitmap>(
    file_offset: FileOffset,
    size: usize,
    r: Mapping<B>,
)
    requires
        call_ensures(MmapRegion::<B>::from_file, (file_offset, size), r),
    ensures
        file_offset@.file == usize::MAX ==> (r matches Mapping::Done(Err(e)) && e@
            == ErrorView::Os(9)),
        file_offset@.file != usize::MAX && size > 0 && file_offset@.start + size
            > 0xFFFF_FFFF_FFFF_FFFF ==> (r matches Mapping::Done(Err(e)) && e@ == ErrorView::Os(
            22,
        )),
        file_offset@.file != usize::MAX && (size == 0 || file_offset@.start + size
            <= 0xFFFF_FFFF_FFFF_FFFF) ==> {
            &&& r matches Mapping::CreateMapping {
                file_offset: place,
                size: asked,
                size_high,
                size_low,
            }
            &&& place == file_offset
            &&& asked == size
            &&& size > 0 ==> size_high * 0x1_0000_0000 + size_low == file_offset@.start + size
            &&& size == 0 ==> size_high == 0 && size_low == 0
        },
{
}

/// What each reply is taken for. Memory that was got is a region there, as long
/// as was asked for, over the file that it was made of, if any; null is the
/// failure that came with it; a section that was made of a file is mapped where
/// the file was to be, for all access, and is then closed.
pub proof fn a_reply_is_taken_for_what_was_asked<B: NewBitmap>(
    step: Mapping<B>,
    value: usize,
    last_error: i32,
    r: Mapping<B>,
)
    requires
        call_ensures(Mapping::<B>::next, (step, MapReply::Returned { value, last_error }), r),
    ensures
        step matches Mapping::Allocate { size } ==> is_region(r, value, size, None, last_error),
        step matches Mapping::CreateMapping { file_offset, size, .. } ==> {
            &&& value == 0 ==> (r matches Mapping::Done(Err(e)) && e@ == ErrorView::Os(last_error))
            &&& value != 0 ==> {
                &&& r matches Mapping::MapView {
                    section,
                    access,
                    offset_high,
                    offset_low,
                    size: mapped,
                    file_offset: place,
                }
                &&& section == value
                &&& access == 0xF001F
                &&& offset_high * 0x1_0000_0000 + offset_low == file_offset@.start
                &&& mapped == size
                &&& place == Some(file_offset)
            }
        },
        step matches Mapping::MapView { section, size, file_offset, .. } ==> match file_offset {
            None => is_region(r, value, size, None, last_error),
            Some(file_offset) => {
                &&& r matches Mapping::CloseMapping {
                    section: of,
                    view,
                    size: mapped,
                    file_offset: place,
                }
                &&& of == section
                &&& view == value
                &&& mapped == size
                &&& place == file_offset
            },
        },
        step is CloseMapping || step is Done ==> r == step,
{
}

/// The same of the reply that a section was closed.
pub proof fn a_closed_section_leaves_its_view<B: NewBitmap>(
    step: Mapping<B>,
    last_error: i32,
    r: Mapping<B>,
)
    requires
        call_ensures(Mapping::<B>::next, (step, MapReply::Closed { last_error }), r),
    ensures
        step matches Mapping::CloseMapping { view, size, file_offset, .. } ==> is_region(
            r,
            view,
            size,
            Some(file_offset),
            last_error,
        ),
        step !is CloseMapping ==> r == step,
{
}

/// Whether mapping is over: with a region of `size` bytes at `address`, over
/// `file_offset` and with a bitmap of that length, or, if the address is null,
/// with the failure `last_error`.
pub open spec fn is_region<B: NewBitmap>(
    r: Mapping<B>,
    address: usize,
    size: usize,
    file_offset: Option<FileOffset>,
    last_error: i32,
) -> bool {
    if address == 0 {
        r matches Mapping::Done(Err(e)) && e@ == ErrorView::Os(last_error)
    } else {
        &&& r matches Mapping::Done(Ok(region))
        &&& region@.addr == address
        &&& region@.size == size
        &&& region@.file_offset == file_offset
        &&& call_ensures(B::with_len, (size,), region@.bitmap)
    }
}

/// A region is given back as it was got: what was allocated is freed, and what
/// was mapped is unmapped, at the address that it was got at.
pub proof fn a_region_is_given_back_as_it_was_got<B: NewBitmap>(
    step: Mapping<B>,
    reply: MapReply,
    r: Mapping<B>,
    region: &MmapRegion<B>,
    release: Release,
)
    requires
        call_ensures(Mapping::<B>::next, (step, reply), r),
        step !is Done,
        r matches Mapping::Done(Ok(got)) && got@ == region@,
        call_ensures(MmapRegion::<B>::release, (region,), release),
    ensures
        step is Allocate ==> release == Release::Free(region@.addr),
        step !is Allocate ==> release == Release::UnmapView(region@.addr),
{
}

/// A slice is had exactly when it ends within the region, and it is the part of
/// the region, and of its bitmap, that was asked for.
pub proof fn a_slice_is_the_part_that_was_asked_for<B>(
    region: &MmapRegion<B>,
    offset: usize,
    count: usize,
    r: Result<VolatileSlice<'_, B>, VolatileError>,
    end: Result<usize, VolatileError>,
)
    requires
        region.wf(),
        call_ensures(MmapRegion::<B>::get_slice, (region, offset, count), r),
        call_ensures(compute_offset, (offset, count), end),
    ensures
        end is Ok <==> offset + count <= usize::MAX,
        end matches Ok(n) ==> n == offset + count,
        end matches Err(e) ==> e == (VolatileError::Overflow { base: offset, offset: count }),
        r is Ok <==> offset + count <= region@.size,
        r matches Ok(slice) ==> {
            &&& slice.addr == region@.addr + offset
            &&& slice.size == count
            &&& slice.bitmap_offset == offset
            &&& *slice.bitmap == region@.bitmap
            &&& region@.addr <= slice.addr
            &&& slice.addr + slice.size <= region@.addr + region@.size
        },
        r matches Err(VolatileError::OutOfBounds { addr }) ==> addr == offset + count,
        r matches Err(VolatileError::Overflow { base, offset: more }) ==> base + more > usize::MAX
            && base == offset && more == count,
        r is Err && end is Ok ==> (r matches Err(e) && e is OutOfBounds),
{
}

/// A region says what it is: where it begins, how long it is, what file is
/// behind it and what tracks writes to it; and a place in a file is what it was
/// made of.
pub proof fn a_region_says_what_it_is<B>(
    region: &MmapRegion<B>,
    begins: usize,
    size: usize,
    len: usize,
    place: Option<&FileOffset>,
    bitmap: &B,
    file: usize,
    start: u64,
    made: FileOffset,
    file_offset: &FileOffset,
    of: usize,
    at: u64,
)
    requires
        call_ensures(MmapRegion::<B>::as_ptr, (region,), begins),
        call_ensures(MmapRegion::<B>::size, (region,), size),
        call_ensures(MmapRegion::<B>::len, (region,), len),
        call_ensures(MmapRegion::<B>::file_offset, (region,), place),
        call_ensures(MmapRegion::<B>::bitmap, (region,), bitmap),
        call_ensures(FileOffset::new, (file, start), made),
        call_ensures(FileOffset::file, (file_offset,), of),
        call_ensures(FileOffset::start, (file_offset,), at),
    ensures
        begins == region@.addr,
        size == region@.size,
        len == size,
        *bitmap == region@.bitmap,
        place is Some <==> region@.file_offset is Some,
        place matches Some(p) ==> region@.file_offset == Some(*p),
        made@.file == file,
        made@.start == start,
        of == file_offset@.file,
        at == file_offset@.start,
{
}

} // verus!
