use std::cell::RefCell;
use std::collections::HashSet;
use vmm_sys_util::mmap::{
    compute_offset, FileOffset, MapReply, Mapping, MmapRegion, NewBitmap, Release, VolatileError,
    ERROR_INVALID_PARAMETER, INVALID_HANDLE_VALUE, MM_HIGHEST_VAD_ADDRESS,
};

const ADDR: usize = 0x7000_0000;

/// A bitmap with a bit for each page.
#[derive(Debug)]
struct PageBitmap {
    len: usize,
    dirty: RefCell<HashSet<usize>>,
}

const PAGE: usize = 0x1000;

impl NewBitmap for PageBitmap {
    fn with_len(len: usize) -> Self {
        PageBitmap { len, dirty: RefCell::new(HashSet::new()) }
    }
}

impl PageBitmap {
    fn mark_dirty(&self, offset: usize, len: usize) {
        for page in offset / PAGE..=(offset + len - 1) / PAGE {
            self.dirty.borrow_mut().insert(page);
        }
    }

    fn dirty_at(&self, offset: usize) -> bool {
        self.dirty.borrow().contains(&(offset / PAGE))
    }
}

fn returned(value: usize) -> MapReply {
    MapReply::Returned { value, last_error: 8 }
}

fn region<B: NewBitmap>(step: Mapping<B>) -> MmapRegion<B> {
    match step {
        Mapping::Done(Ok(region)) => region,
        _ => panic!("not mapped"),
    }
}

fn code<B>(step: Mapping<B>) -> Option<i32> {
    match step {
        Mapping::Done(Err(e)) => e.raw_os_error(),
        _ => panic!("not refused"),
    }
}

#[test]
fn map_invalid_handle() {
    let file_offset = FileOffset::new(INVALID_HANDLE_VALUE, 0);
    let e = MmapRegion::<()>::from_file(file_offset, 1024);
    assert_eq!(code(e), Some(libc::EBADF));
}

#[test]
fn test_dirty_tracking() {
    let m = region(MmapRegion::<PageBitmap>::new(0x1_0000).next(returned(ADDR)));
    assert_eq!(m.len(), 0x1_0000);
    assert_eq!(m.bitmap().len, 0x1_0000);
    for offset in (0..0x1_0000).step_by(PAGE) {
        assert!(!m.bitmap().dirty_at(offset));
    }

    // What is written through a slice dirties the pages under the slice.
    let slice = m.get_slice(0x2800, 0x1000).unwrap();
    slice.bitmap.mark_dirty(slice.bitmap_offset, slice.size);
    for offset in (0..0x1_0000).step_by(PAGE) {
        assert_eq!(m.bitmap().dirty_at(offset), offset == 0x2000 || offset == 0x3000);
    }
}

#[test]
fn an_empty_or_huge_region_is_refused() {
    assert_eq!(code(MmapRegion::<()>::new(0)), Some(libc::EINVAL));
    let most = MM_HIGHEST_VAD_ADDRESS as usize;
    assert_eq!(code(MmapRegion::<()>::new(most + 1)), Some(libc::EINVAL));
    assert!(matches!(MmapRegion::<()>::new(most), Mapping::Allocate { size } if size == most));
    assert_eq!(ERROR_INVALID_PARAMETER, 87);
}

#[test]
fn a_failed_allocation_reports_the_error() {
    assert_eq!(code(MmapRegion::<()>::new(0x1000).next(returned(0))), Some(8));
}

#[test]
fn dropping_an_anonymous_region_releases_its_memory() {
    let m = region(MmapRegion::<()>::new(0x1_0000).next(returned(ADDR)));
    assert_eq!(m.as_ptr(), ADDR);
    assert_eq!(m.size(), 0x1_0000);
    assert!(m.file_offset().is_none());
    assert_eq!(m.release(), Release::Free(ADDR));
}

#[test]
fn dropping_a_file_backed_region_releases_its_view() {
    let file_offset = FileOffset::new(0x44, 0);
    let step = MmapRegion::<()>::from_file(file_offset, 0x1_0000);
    assert!(matches!(
        step,
        Mapping::CreateMapping { size: 0x1_0000, size_high: 0, size_low: 0x1_0000, .. }
    ));
    let step = step.next(returned(0x48));
    assert!(matches!(
        step,
        Mapping::MapView {
            section: 0x48,
            access: 0xF001F,
            offset_high: 0,
            offset_low: 0,
            size: 0x1_0000,
            ..
        }
    ));
    let step = step.next(returned(ADDR));
    assert!(matches!(step, Mapping::CloseMapping { section: 0x48, view: ADDR, .. }));
    let m = region(step.next(MapReply::Closed { last_error: 0 }));
    assert_eq!(m.file_offset().unwrap().file(), 0x44);
    assert_eq!(m.file_offset().unwrap().start(), 0);
    assert_eq!(m.release(), Release::UnmapView(ADDR));
}

/// A file as the kernel maps it: a view past the end of its mapping fails.
fn map_file(start: u64, size: usize) -> Mapping<()> {
    let mut step = MmapRegion::<()>::from_file(FileOffset::new(0x44, start), size);
    let mut length = 0u64;
    loop {
        let reply = match &step {
            Mapping::CreateMapping { size_high, size_low, .. } => {
                length = (*size_high as u64) << 32 | *size_low as u64;
                returned(0x48)
            }
            Mapping::MapView { offset_high, offset_low, size, .. } => {
                let offset = (*offset_high as u64) << 32 | *offset_low as u64;
                assert_eq!(offset, start);
                returned(if offset + *size as u64 <= length { ADDR } else { 0 })
            }
            Mapping::CloseMapping { .. } => MapReply::Closed { last_error: 5 },
            _ => return step,
        };
        step = step.next(reply);
    }
}

#[test]
fn a_file_can_be_mapped_from_any_offset() {
    let m = region(map_file(0x1_0000, 0x1_0000));
    assert_eq!(m.size(), 0x1_0000);
    assert_eq!(m.file_offset().unwrap().start(), 0x1_0000);
    let m = region(map_file(0x1_FFFF_0000, 0x2_0000));
    assert_eq!(m.file_offset().unwrap().start(), 0x1_FFFF_0000);
    let m = region(map_file(0, 0x1_0000));
    assert_eq!(m.size(), 0x1_0000);
}

#[test]
fn an_empty_region_of_a_file_asks_for_the_whole_file() {
    for start in [0, 0x1_0000, u64::MAX] {
        let step = MmapRegion::<()>::from_file(FileOffset::new(0x44, start), 0);
        assert!(matches!(
            step,
            Mapping::CreateMapping { size: 0, size_high: 0, size_low: 0, .. }
        ));
        let step = step.next(returned(0x48)).next(returned(ADDR));
        let m = region(step.next(MapReply::Closed { last_error: 0 }));
        assert_eq!((m.as_ptr(), m.size()), (ADDR, 0));
        assert_eq!(m.file_offset().unwrap().start(), start);
    }
}

#[test]
fn a_file_region_ends_within_the_largest_offset() {
    assert!(matches!(
        MmapRegion::<()>::from_file(FileOffset::new(0x44, u64::MAX - 0xFFFF), 0xFFFF),
        Mapping::CreateMapping { size_high: u32::MAX, size_low: u32::MAX, .. }
    ));
    let step = MmapRegion::<()>::from_file(FileOffset::new(0x44, u64::MAX - 0xFFFF), 0x1_0000);
    assert_eq!(code(step), Some(22));
}

#[test]
fn a_file_whose_mapping_or_view_fails_reports_the_error() {
    let step = MmapRegion::<()>::from_file(FileOffset::new(0x44, 0), 0x1_0000);
    assert_eq!(code(step.next(returned(0))), Some(8));

    let step = MmapRegion::<()>::from_file(FileOffset::new(0x44, 0), 0x1_0000);
    let step = step.next(returned(0x48)).next(returned(0));
    assert!(matches!(step, Mapping::CloseMapping { section: 0x48, .. }), "it is still closed");
    assert_eq!(code(step.next(MapReply::Closed { last_error: 1132 })), Some(1132));
}

#[test]
fn dropping_a_section_backed_region_releases_its_view() {
    let step = MmapRegion::<()>::from_section(0x48, 0, 0x1_0000);
    assert!(matches!(step, Mapping::MapView { section: 0x48, access: 6, size: 0x1_0000, .. }));
    let m = region(step.next(returned(ADDR)));
    assert!(m.file_offset().is_none());
    assert_eq!(m.release(), Release::UnmapView(ADDR));
}

#[test]
fn a_read_only_section_region_asks_for_no_more_than_reading() {
    let step = MmapRegion::<()>::from_section_read_only(0x48, 0x3_0000_0000, 0x1000);
    assert!(matches!(
        step,
        Mapping::MapView { access: 4, offset_high: 3, offset_low: 0, size: 0x1000, .. }
    ));
    assert_eq!(code(step.next(returned(0))), Some(8));
}

#[test]
fn a_section_that_is_no_section_is_refused() {
    assert_eq!(code(MmapRegion::<()>::from_section(0, 0, 0x1000)), Some(libc::EBADF));
    let bad = MmapRegion::<()>::from_section(INVALID_HANDLE_VALUE, 0, 0x1000);
    assert_eq!(code(bad), Some(libc::EBADF));
    assert_eq!(code(MmapRegion::<()>::from_section(0x48, 0, 0)), Some(libc::EINVAL));
    assert_eq!(code(MmapRegion::<()>::from_section_read_only(0, 0, 0)), Some(libc::EBADF));
}

#[test]
fn a_thousand_mapping_cycles_leak_no_views() {
    const N: usize = 1000;
    let mut views = HashSet::new();
    for i in 0..N {
        let addr = ADDR + i * 0x1000;
        views.insert(addr);
        let m = region(MmapRegion::<()>::from_section(0x48, 0, 0x1000).next(returned(addr)));
        match m.release() {
            Release::UnmapView(addr) => assert!(views.remove(&addr)),
            other => panic!("unexpected {other:?}"),
        }
    }
    assert!(views.is_empty());
}

#[test]
fn a_slice_lies_in_its_region() {
    let m = region(MmapRegion::<()>::new(0x1000).next(returned(ADDR)));
    let slice = m.get_slice(0x10, 0x20).unwrap();
    assert_eq!((slice.addr, slice.size, slice.bitmap_offset), (ADDR + 0x10, 0x20, 0x10));
    assert!(m.get_slice(0, 0x1000).is_ok());
    assert!(m.get_slice(0x1000, 0).is_ok());
    assert_eq!(
        m.get_slice(0xFFF, 2).unwrap_err(),
        VolatileError::OutOfBounds { addr: 0x1001 }
    );
    assert_eq!(
        m.get_slice(usize::MAX, 1).unwrap_err(),
        VolatileError::Overflow { base: usize::MAX, offset: 1 }
    );
    assert_eq!(compute_offset(1, 2), Ok(3));
}

#[test]
fn a_reply_to_another_call_does_not_map() {
    let step = MmapRegion::<()>::new(0x1000).next(MapReply::Closed { last_error: 0 });
    assert!(matches!(step, Mapping::Allocate { size: 0x1000 }));
}
