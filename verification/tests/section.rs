use std::collections::HashMap;
use vmm_sys_util::mmap::{MapReply, Mapping, MmapRegion, Release};
use vmm_sys_util::section::Section;

const READ: u32 = 4;
const WRITE: u32 = 2;

/// An open handle: which section it names, and what it lets its holder do.
#[derive(Clone, Copy)]
struct Open {
    section: usize,
    access: u32,
}

/// A mapped view: of which section, from which offset on, and for what.
#[derive(Clone, Copy)]
struct View {
    section: usize,
    offset: usize,
    size: usize,
    access: u32,
}

/// A kernel with sections, handles and views.
struct Kernel {
    memory: Vec<Vec<u8>>,
    open: HashMap<usize, Open>,
    views: HashMap<usize, View>,
    next_handle: usize,
    next_view: usize,
}

impl Kernel {
    fn new() -> Kernel {
        Kernel {
            memory: Vec::new(),
            open: HashMap::new(),
            views: HashMap::new(),
            next_handle: 0x40,
            next_view: 0x7000_0000,
        }
    }

    fn handle(&mut self, section: usize, access: u32) -> usize {
        self.next_handle += 4;
        self.open.insert(self.next_handle, Open { section, access });
        self.next_handle
    }

    /// `CreateFileMappingW`: the handle, or null, and the last error.
    fn create(&mut self, (low, high): (u32, u32)) -> (usize, i32) {
        let size = (high as usize) << 32 | low as usize;
        if size == 0 {
            return (0, 87);
        }
        self.memory.push(vec![0; size]);
        let section = self.memory.len() - 1;
        (self.handle(section, READ | WRITE), 0)
    }

    fn section(&mut self, size: u64) -> Section {
        let (handle, error) = self.create(Section::size_halves(size));
        Section::new(handle, error).unwrap()
    }

    /// The section as a peer receives it: under a handle of its own, with no
    /// more than `access`.
    fn duplicate_to_peer(&mut self, section: &Section, access: u32) -> Section {
        let open = self.open[&section.as_raw_handle()];
        Section::from_raw_handle(self.handle(open.section, open.access & access))
    }

    fn close(&mut self, section: Section) {
        assert!(self.open.remove(&section.into_raw_handle()).is_some());
    }

    /// Make the calls that a mapping asks for.
    fn map(&mut self, mut step: Mapping<()>) -> Result<MmapRegion<()>, Option<i32>> {
        loop {
            let reply = match &step {
                Mapping::MapView { section, access, offset_high, offset_low, size, .. } => {
                    let open = self.open[section];
                    let offset = (*offset_high as usize) << 32 | *offset_low as usize;
                    if access & !open.access != 0 {
                        MapReply::Returned { value: 0, last_error: 5 }
                    } else if offset + size > self.memory[open.section].len() {
                        MapReply::Returned { value: 0, last_error: 87 }
                    } else {
                        self.next_view += 0x1_0000;
                        self.views.insert(
                            self.next_view,
                            View { section: open.section, offset, size: *size, access: *access },
                        );
                        MapReply::Returned { value: self.next_view, last_error: 0 }
                    }
                }
                Mapping::Done(_) => break,
                other => panic!("unexpected {other:?}"),
            };
            step = step.next(reply);
        }
        match step {
            Mapping::Done(Ok(region)) => Ok(region),
            Mapping::Done(Err(e)) => Err(e.raw_os_error()),
            other => panic!("unexpected {other:?}"),
        }
    }

    fn place(&self, region: &MmapRegion<()>, access: u32, at: usize) -> (usize, usize) {
        let view = self.views[&region.as_ptr()];
        assert_eq!(view.access & access, access, "access violation");
        assert!(at < view.size && view.size == region.size());
        (view.section, view.offset + at)
    }

    fn write(&mut self, region: &MmapRegion<()>, at: usize, byte: u8) {
        let (section, place) = self.place(region, WRITE, at);
        self.memory[section][place] = byte;
    }

    fn read(&self, region: &MmapRegion<()>, at: usize) -> u8 {
        let (section, place) = self.place(region, READ, at);
        self.memory[section][place]
    }

    fn unmap(&mut self, region: MmapRegion<()>) {
        match region.release() {
            Release::UnmapView(addr) => assert!(self.views.remove(&addr).is_some()),
            other => panic!("unexpected {other:?}"),
        }
    }

    fn with_view<R>(
        &mut self,
        section: &Section,
        size: usize,
        f: impl FnOnce(&mut Kernel, &MmapRegion<()>) -> R,
    ) -> R {
        let region =
            self.map(MmapRegion::from_section(section.as_raw_handle(), 0, size)).unwrap();
        let r = f(self, &region);
        self.unmap(region);
        r
    }
}

#[test]
fn a_section_is_created_with_the_halves_of_its_size() {
    assert_eq!(Section::size_halves(0x1000), (0x1000, 0));
    assert_eq!(Section::size_halves(0x3_0000_0004), (4, 3));
    let s = Section::new(0x40, 0).unwrap();
    assert_eq!(s.as_raw_handle(), 0x40);
}

#[test]
fn a_created_section_is_readable_and_writable() {
    let mut kernel = Kernel::new();
    let s = kernel.section(0x1000);
    kernel.with_view(&s, 0x1000, |kernel, p| {
        kernel.write(p, 0, 0xA5);
        assert_eq!(kernel.read(p, 0), 0xA5);
    });
}

#[test]
fn a_peer_handed_a_handle_sees_the_same_memory() {
    let mut kernel = Kernel::new();
    let created = kernel.section(0x1000);
    let peer = kernel.duplicate_to_peer(&created, READ | WRITE);
    assert_ne!(peer.as_raw_handle(), created.as_raw_handle());

    kernel.with_view(&created, 0x1000, |kernel, p| kernel.write(p, 0, 0xA5));
    let seen = kernel.with_view(&peer, 0x1000, |kernel, p| kernel.read(p, 0));
    assert_eq!(seen, 0xA5);
}

#[test]
fn a_zero_size_section_is_refused() {
    let mut kernel = Kernel::new();
    let (handle, error) = kernel.create(Section::size_halves(0));
    assert_eq!(Section::new(handle, error).unwrap_err().raw_os_error(), Some(87));
    // Four gigabytes have a low half of nothing, and are not refused for it.
    assert_eq!(Section::size_halves(0x1_0000_0000), (0, 1));
}

#[test]
fn section_a_thousand_into_raw_handle_cycles_leak_no_handles() {
    const N: usize = 1000;
    let mut kernel = Kernel::new();
    let before = kernel.open.len();
    for _ in 0..N {
        let h = kernel.section(0x1000).into_raw_handle();
        assert!(kernel.open.remove(&h).is_some());
    }
    let after = kernel.open.len();
    assert!(
        after.saturating_sub(before) < N / 2,
        "handle count grew from {before} to {after} over {N} cycles"
    );
    assert_eq!(after, before);
}

#[test]
fn a_thousand_section_cycles_leak_no_handles() {
    const N: usize = 1000;
    let mut kernel = Kernel::new();
    let before = kernel.open.len();
    for _ in 0..N {
        let s = kernel.section(0x1000);
        let d = kernel.duplicate_to_peer(&s, READ | WRITE);
        kernel.close(s);
        kernel.close(d);
    }
    let after = kernel.open.len();
    assert!(
        after.saturating_sub(before) < N / 2,
        "handle count grew from {before} to {after} over {N} cycles"
    );
    assert_eq!(after, before);
}

#[test]
fn a_read_only_section_region_reads_but_rejects_writable_mapping() {
    let mut kernel = Kernel::new();
    let section = kernel.section(0x1_0000);
    let rw = kernel
        .map(MmapRegion::from_section(section.as_raw_handle(), 0, 0x1_0000))
        .unwrap();
    kernel.write(&rw, 0, 0xA5);

    let ro_handle = kernel.duplicate_to_peer(&section, READ);
    let refused = kernel.map(MmapRegion::from_section(ro_handle.as_raw_handle(), 0, 0x1_0000));
    assert_eq!(refused.err(), Some(Some(5)));

    let ro = kernel
        .map(MmapRegion::from_section_read_only(ro_handle.as_raw_handle(), 0, 0x1_0000))
        .unwrap();
    assert_eq!(kernel.read(&ro, 0), 0xA5);
    // A view past the end of the section is the kernel's to refuse.
    let past = kernel.map(MmapRegion::from_section_read_only(
        ro_handle.as_raw_handle(),
        0x1000,
        0x1_0000,
    ));
    assert_eq!(past.err(), Some(Some(87)));
    kernel.unmap(rw);
    kernel.unmap(ro);
    assert!(kernel.views.is_empty());
}
