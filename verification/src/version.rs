//! Which Windows a guest runs, and which structure layout goes with it.

use crate::bytes::le_value;
use crate::bytes::read_u32_le;
use crate::error::OsInfoError;
use vstd::prelude::*;

verus! {

/// The guest virtual address of the page that the kernel shares with every
/// process of a 64-bit guest.
pub const KUSER_SHARED_DATA_ADDRESS_X86_64: u64 = 0xFFFF_F780_0000_0000;

/// Offset of the build number in the shared page.
pub const NT_BUILD_NUMBER_OFFSET: usize = 0x260;

/// Offset of the major version in the shared page.
pub const NT_MAJOR_VERSION_OFFSET: usize = 0x26c;

/// Offset of the minor version in the shared page.
pub const NT_MINOR_VERSION_OFFSET: usize = 0x270;

/// The number of bytes of the shared page that hold the version.
pub const VERSION_SPAN: usize = 0x274;

/// The width of a logical address on the only supported guests.
pub const SUPPORTED_ADDRESS_WIDTH: u64 = 64;

/// The major version of the only supported family of guests.
pub const SUPPORTED_MAJOR_VERSION: u32 = 10;

/// The version that a guest reports of itself.
#[derive(Clone, Copy, Debug, PartialEq, Eq, Structural)]
pub struct GuestVersion {
    pub major: u32,
    pub minor: u32,
    pub build: u32,
}

/// The four-byte little-endian number at `offset` of `page`.
pub open spec fn field_u32(page: Seq<u8>, offset: int) -> nat {
    le_value(page.subrange(offset, offset + 4))
}

/// The version held in the first bytes of the shared page; none where the
/// bytes end before the version does.
pub open spec fn version_in(page: Seq<u8>) -> Option<GuestVersion> {
    if page.len() >= VERSION_SPAN {
        Some(
            GuestVersion {
                major: field_u32(page, NT_MAJOR_VERSION_OFFSET as int) as u32,
                minor: field_u32(page, NT_MINOR_VERSION_OFFSET as int) as u32,
                build: field_u32(page, NT_BUILD_NUMBER_OFFSET as int) as u32,
            },
        )
    } else {
        None
    }
}

/// Reads the guest's version from the bytes of its shared page.
pub fn read_version(page: &[u8]) -> (version: Option<GuestVersion>)
    ensures
        version == version_in(page@),
{
    if page.len() < VERSION_SPAN {
        return None;
    }
    let build = read_u32_le(page, NT_BUILD_NUMBER_OFFSET);
    let major = read_u32_le(page, NT_MAJOR_VERSION_OFFSET);
    let minor = read_u32_le(page, NT_MINOR_VERSION_OFFSET);
    match (major, minor, build) {
        (Some(major), Some(minor), Some(build)) => Some(GuestVersion { major, minor, build }),
        _ => None,
    }
}

/// Where the fields of one entry of a loader list lie, and how many bytes
/// of the entry have to be read to hold them all.
#[derive(Clone, Copy, Debug, PartialEq, Eq, Structural)]
pub struct EntryLayout {
    /// Offset of the link to the next entry.
    pub next: usize,
    /// Offset of the image's base address.
    pub base: usize,
    /// Offset of the image's size, a four-byte field.
    pub size: usize,
    /// Offset of the counted string that holds the full name.
    pub full_name: usize,
    /// Offset of the counted string that holds the base name.
    pub base_name: usize,
}

/// Where the kernel of one build keeps what introspection reads.
#[derive(Clone, Copy, Debug, PartialEq, Eq, Structural)]
pub struct KernelLayout {
    /// Offset of the pointer to the processor's control block in the
    /// processor control region.
    pub control_block: usize,
    /// Offset of the current thread in a processor's control block.
    pub current_thread: usize,
    /// Offset of the owning process in a thread.
    pub thread_process: usize,
    /// Offset of the process identifier in a process.
    pub process_id: usize,
    /// Offset of the image file name in a process.
    pub process_image_name: usize,
    /// Offset of the environment block in a process.
    pub process_environment: usize,
    /// Offset of the image's base address in a process.
    pub process_section_base: usize,
    /// Offset of the loader data in an environment block.
    pub environment_loader: usize,
    /// Offset of the load-order list head in the loader data.
    pub loader_modules: usize,
    /// The entries of the loader lists.
    pub module_entry: EntryLayout,
}

/// A build with its layout.
#[derive(Clone, Copy, Debug, PartialEq, Eq, Structural)]
pub struct RegisteredLayout {
    pub version: GuestVersion,
    pub layout: KernelLayout,
}

/// Whether some entry of `entries` is for `version`.
pub open spec fn registered(entries: Seq<RegisteredLayout>, version: GuestVersion) -> bool {
    exists|i: int| 0 <= i < entries.len() && (#[trigger] entries[i]).version == version
}

/// The layouts of `entries` by version.
pub open spec fn layouts_map(entries: Seq<RegisteredLayout>) -> Map<GuestVersion, KernelLayout>
    decreases entries.len(),
{
    if entries.len() == 0 {
        Map::empty()
    } else {
        layouts_map(entries.drop_last()).insert(entries.last().version, entries.last().layout)
    }
}

proof fn lemma_layouts_map_domain(entries: Seq<RegisteredLayout>, version: GuestVersion)
    ensures
        layouts_map(entries).contains_key(version) <==> registered(entries, version),
    decreases entries.len(),
{
    if entries.len() > 0 {
        let head = entries.drop_last();
        lemma_layouts_map_domain(head, version);
        if registered(head, version) {
            let i = choose|i: int| 0 <= i < head.len() && (#[trigger] head[i]).version == version;
            assert(entries[i].version == version);
        }
        if registered(entries, version) {
            let i = choose|i: int|
                0 <= i < entries.len() && (#[trigger] entries[i]).version == version;
            if i < head.len() {
                assert(head[i].version == version);
            }
        }
        if entries.last().version == version {
            assert(entries[entries.len() - 1].version == version);
        }
    }
}

proof fn lemma_layouts_map_at(entries: Seq<RegisteredLayout>, i: int)
    requires
        0 <= i < entries.len(),
        forall|a: int, b: int|
            0 <= a < b < entries.len() ==> (#[trigger] entries[a]).version != (
            #[trigger] entries[b]).version,
    ensures
        layouts_map(entries).contains_key(entries[i].version),
        layouts_map(entries)[entries[i].version] == entries[i].layout,
    decreases entries.len(),
{
    let head = entries.drop_last();
    if i < entries.len() - 1 {
        assert(head[i] == entries[i]);
        lemma_layouts_map_at(head, i);
        assert(entries[i].version != entries[entries.len() - 1].version);
    }
}

/// The builds whose layout is known, each with its layout. What a guest of
/// another build keeps where cannot be asked of the guest, so such a guest
/// cannot be introspected.
#[derive(Debug)]
pub struct LayoutRegistry {
    entries: Vec<RegisteredLayout>,
}

impl View for LayoutRegistry {
    type V = Map<GuestVersion, KernelLayout>;

    closed spec fn view(&self) -> Map<GuestVersion, KernelLayout> {
        layouts_map(self.entries@)
    }
}

impl LayoutRegistry {
    /// No build is registered twice.
    #[verifier::type_invariant]
    pub closed spec fn wf(&self) -> bool {
        forall|a: int, b: int|
            0 <= a < b < self.entries.len() ==> (#[trigger] self.entries[a]).version != (
            #[trigger] self.entries[b]).version
    }

    /// The registry without any build.
    pub fn new() -> (registry: LayoutRegistry)
        ensures
            registry.wf(),
            registry@ == Map::<GuestVersion, KernelLayout>::empty(),
    {
        LayoutRegistry { entries: Vec::new() }
    }

    /// The layout registered for exactly this version.
    pub fn select(&self, version: GuestVersion) -> (layout: Option<KernelLayout>)
        ensures
            match layout {
                Some(layout) => self@.contains_key(version) && self@[version] == layout,
                None => !self@.contains_key(version),
            },
    {
        proof {
            use_type_invariant(self);
        }
        let mut i: usize = 0;
        while i < self.entries.len()
            invariant
                i <= self.entries.len(),
                self.wf(),
                forall|j: int| 0 <= j < i ==> (#[trigger] self.entries[j]).version != version,
            decreases self.entries.len() - i,
        {
            if self.entries[i].version == version {
                proof {
                    lemma_layouts_map_at(self.entries@, i as int);
                }
                return Some(self.entries[i].layout);
            }
            i += 1;
        }
        proof {
            lemma_layouts_map_domain(self.entries@, version);
        }
        None
    }

    /// Registers `layout` for `version`. A version that is registered
    /// keeps its layout: the call then changes nothing and returns `false`.
    pub fn register(&mut self, version: GuestVersion, layout: KernelLayout) -> (added: bool)
        ensures
            final(self).wf(),
            added == !old(self)@.contains_key(version),
            added ==> final(self)@ == old(self)@.insert(version, layout),
            !added ==> *final(self) == *old(self),
    {
        proof {
            use_type_invariant(&*self);
        }
        if self.select(version).is_some() {
            return false;
        }
        proof {
            lemma_layouts_map_domain(self.entries@, version);
        }
        let ghost before = self.entries@;
        let mut entries: Vec<RegisteredLayout> = Vec::new();
        std::mem::swap(&mut entries, &mut self.entries);
        entries.push(RegisteredLayout { version, layout });
        proof {
            assert(entries@.drop_last() =~= before);
        }
        std::mem::swap(&mut entries, &mut self.entries);
        true
    }

    /// The number of registered builds.
    pub fn len(&self) -> (n: usize)
        ensures
            n == self@.len(),
    {
        proof {
            use_type_invariant(self);
            lemma_layouts_map_len(self.entries@);
        }
        self.entries.len()
    }
}

proof fn lemma_layouts_map_len(entries: Seq<RegisteredLayout>)
    requires
        forall|a: int, b: int|
            0 <= a < b < entries.len() ==> (#[trigger] entries[a]).version != (
            #[trigger] entries[b]).version,
    ensures
        layouts_map(entries).dom().finite(),
        layouts_map(entries).len() == entries.len(),
    decreases entries.len(),
{
    if entries.len() > 0 {
        let head = entries.drop_last();
        assert forall|a: int, b: int| 0 <= a < b < head.len() implies (#[trigger] head[a]).version
            != (#[trigger] head[b]).version by {
            assert(entries[a].version != entries[b].version);
        }
        lemma_layouts_map_len(head);
        lemma_layouts_map_domain(head, entries.last().version);
        if registered(head, entries.last().version) {
            let i = choose|i: int|
                0 <= i < head.len() && (#[trigger] head[i]).version == entries.last().version;
            assert(entries[i].version != entries[entries.len() - 1].version);
        }
    }
}

/// What introspection may do with a guest of this address width and version:
/// a guest that is not 64 bits wide or not of the supported family is refused
/// as a guest, one of the family whose build has no layout as a version.
pub open spec fn guest_check(
    address_width: u64,
    version: GuestVersion,
    layouts: Map<GuestVersion, KernelLayout>,
) -> Result<KernelLayout, OsInfoError> {
    if address_width != SUPPORTED_ADDRESS_WIDTH || version.major != SUPPORTED_MAJOR_VERSION {
        Err(OsInfoError::UnsupportedGuest)
    } else if !layouts.contains_key(version) {
        Err(OsInfoError::UnsupportedVersion)
    } else {
        Ok(layouts[version])
    }
}

/// Decides whether a guest of this address width can be introspected at all:
/// only one whose logical addresses are 64 bits wide.
pub fn check_address_width(address_width: u64) -> (result: Result<(), OsInfoError>)
    ensures
        result is Ok <==> address_width == SUPPORTED_ADDRESS_WIDTH,
        result is Err ==> result == Err::<(), OsInfoError>(OsInfoError::UnsupportedGuest),
{
    if address_width == SUPPORTED_ADDRESS_WIDTH {
        Ok(())
    } else {
        Err(OsInfoError::UnsupportedGuest)
    }
}

/// Decides whether a guest can be introspected, and with which layout.
pub fn check_guest(address_width: u64, version: GuestVersion, registry: &LayoutRegistry) -> (layout:
    Result<KernelLayout, OsInfoError>)
    ensures
        layout == guest_check(address_width, version, registry@),
{
    if address_width != SUPPORTED_ADDRESS_WIDTH || version.major != SUPPORTED_MAJOR_VERSION {
        return Err(OsInfoError::UnsupportedGuest);
    }
    match registry.select(version) {
        Some(layout) => Ok(layout),
        None => Err(OsInfoError::UnsupportedVersion),
    }
}

/// The kernel of a session: where its image lies, what it reports of itself,
/// and the layout that goes with its build.
#[derive(Clone, Copy, Debug, PartialEq, Eq, Structural)]
pub struct KernelInfo {
    /// The address of the kernel's image.
    pub base: u64,
    /// The version that the guest reports.
    pub version: GuestVersion,
    /// The layout of the guest's kernel structures.
    pub layout: KernelLayout,
}

} // verus!
