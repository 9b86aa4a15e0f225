//! Locating the kernel of a session, step by step: what the host has to read
//! next, and what follows from what it read. A guest that cannot be
//! introspected is found out before anything more is read of it.

use crate::error::OsInfoError;
use crate::kernel::first_handler;
use crate::kernel::first_handler_in;
use crate::kernel::image_header;
use crate::kernel::is_image_header;
use crate::kernel::KernelScan;
use crate::kernel::KernelScanView;
use crate::version::check_guest;
use crate::version::guest_check;
use crate::version::read_version;
use crate::version::version_in;
use crate::version::GuestVersion;
use crate::version::KernelInfo;
use crate::version::KernelLayout;
use crate::version::LayoutRegistry;
use crate::version::KUSER_SHARED_DATA_ADDRESS_X86_64;
use crate::version::SUPPORTED_ADDRESS_WIDTH;
use crate::version::VERSION_SPAN;
use vstd::prelude::*;

verus! {

/// The number of bytes of an interrupt table: 256 gates of 16 bytes.
pub const INTERRUPT_TABLE_SPAN: usize = 4096;

/// The distance between two addresses at which an image can begin, and the
/// number of bytes read at each.
pub const SCAN_STEP: u64 = 0x1000;

/// What the host has to read next.
#[derive(Clone, Copy, Debug, PartialEq, Eq, Structural)]
pub enum LocateAction {
    /// The width of the processor's logical addresses.
    ReadAddressWidth,
    /// So many bytes of the processor's interrupt table.
    ReadInterruptTable { size: usize },
    /// So many bytes at a guest virtual address.
    ReadBytes { address: u64, size: usize },
}

/// The mathematical value of a [`KernelLocator`].
pub enum KernelLocatorView {
    Width,
    Version,
    Table { version: GuestVersion, layout: KernelLayout },
    Scan { version: GuestVersion, layout: KernelLayout, scan: KernelScanView },
    Done(Result<KernelInfo, OsInfoError>),
}

impl KernelLocatorView {
    /// What the host has to read next; nothing once the kernel is located
    /// or cannot be.
    pub open spec fn action(self) -> Option<LocateAction> {
        match self {
            KernelLocatorView::Width => Some(LocateAction::ReadAddressWidth),
            KernelLocatorView::Version => Some(
                LocateAction::ReadBytes {
                    address: KUSER_SHARED_DATA_ADDRESS_X86_64,
                    size: VERSION_SPAN,
                },
            ),
            KernelLocatorView::Table { .. } => Some(
                LocateAction::ReadInterruptTable { size: INTERRUPT_TABLE_SPAN },
            ),
            KernelLocatorView::Scan { scan, .. } => Some(
                LocateAction::ReadBytes { address: scan.cursor, size: SCAN_STEP as usize },
            ),
            KernelLocatorView::Done(_) => None,
        }
    }

    /// How locating ended; none while something is left to read.
    pub open spec fn outcome(self) -> Option<Result<KernelInfo, OsInfoError>> {
        match self {
            KernelLocatorView::Done(outcome) => Some(outcome),
            _ => None,
        }
    }

    /// The state that a scan leaves behind: the kernel where it found the
    /// image, its error where it failed, and itself while it goes on.
    pub open spec fn after_scan(
        version: GuestVersion,
        layout: KernelLayout,
        scan: KernelScanView,
    ) -> KernelLocatorView {
        match scan.outcome {
            Some(Ok(base)) => KernelLocatorView::Done(Ok(KernelInfo { base, version, layout })),
            Some(Err(error)) => KernelLocatorView::Done(Err(error)),
            None => KernelLocatorView::Scan { version, layout, scan },
        }
    }

    /// The state after the host read the address width. Only a guest with
    /// 64-bit addresses goes on. Where no width was asked for nothing
    /// changes.
    pub open spec fn with_width(self, address_width: u64) -> KernelLocatorView {
        match self {
            KernelLocatorView::Width => if address_width == SUPPORTED_ADDRESS_WIDTH {
                KernelLocatorView::Version
            } else {
                KernelLocatorView::Done(Err(OsInfoError::UnsupportedGuest))
            },
            _ => self,
        }
    }

    /// The state after the host read the bytes it was asked for. The shared
    /// page gives the version, which decides whether and with which layout
    /// locating goes on; the interrupt table gives the handler from which the
    /// scan starts; a page of the scan is, or is not, the kernel's image.
    /// Where no bytes were asked for nothing changes.
    pub open spec fn with_bytes(
        self,
        bytes: Seq<u8>,
        layouts: Map<GuestVersion, KernelLayout>,
    ) -> KernelLocatorView {
        match self {
            KernelLocatorView::Version => match version_in(bytes) {
                Some(version) => match guest_check(SUPPORTED_ADDRESS_WIDTH, version, layouts) {
                    Ok(layout) => KernelLocatorView::Table { version, layout },
                    Err(error) => KernelLocatorView::Done(Err(error)),
                },
                None => KernelLocatorView::Done(Err(OsInfoError::ReadError)),
            },
            KernelLocatorView::Table { version, layout } => match first_handler_in(bytes) {
                Some(handler) => Self::after_scan(
                    version,
                    layout,
                    KernelScanView::begin(handler, SCAN_STEP),
                ),
                None => KernelLocatorView::Done(Err(OsInfoError::UnsupportedGuest)),
            },
            KernelLocatorView::Scan { version, layout, scan } => Self::after_scan(
                version,
                layout,
                scan.step(Ok(is_image_header(bytes))),
            ),
            _ => self,
        }
    }

    /// The state after a read failed. While the scan goes on, the failure
    /// ends the scan; before, it ends locating. Once locating is over
    /// nothing changes.
    pub open spec fn with_failure(self, error: OsInfoError) -> KernelLocatorView {
        match self {
            KernelLocatorView::Done(_) => self,
            KernelLocatorView::Scan { version, layout, scan } => Self::after_scan(
                version,
                layout,
                scan.step(Err(error)),
            ),
            _ => KernelLocatorView::Done(Err(error)),
        }
    }

    /// A guest whose build has no layout is refused as soon as its version is
    /// read, and nothing more is read of it.
    pub proof fn lemma_unknown_build_ends_locating(
        bytes: Seq<u8>,
        layouts: Map<GuestVersion, KernelLayout>,
    )
        requires
            version_in(bytes) matches Some(version) && version.major
                == crate::version::SUPPORTED_MAJOR_VERSION && !layouts.contains_key(version),
        ensures
            KernelLocatorView::Version.with_bytes(bytes, layouts) == KernelLocatorView::Done(
                Err(OsInfoError::UnsupportedVersion),
            ),
            KernelLocatorView::Version.with_bytes(bytes, layouts).action() is None,
    {
    }

    /// Once locating is over it stays over, whatever the host supplies.
    pub proof fn lemma_done_stays_done(
        self,
        address_width: u64,
        bytes: Seq<u8>,
        layouts: Map<GuestVersion, KernelLayout>,
        error: OsInfoError,
    )
        requires
            self.outcome() is Some,
        ensures
            self.action() is None,
            self.with_width(address_width) == self,
            self.with_bytes(bytes, layouts) == self,
            self.with_failure(error) == self,
    {
    }

    /// A kernel is located only with the layout that is registered for the
    /// version that the guest reported.
    pub proof fn lemma_located_layout_is_registered(
        self,
        bytes: Seq<u8>,
        layouts: Map<GuestVersion, KernelLayout>,
    )
        requires
            self is Version,
        ensures
            self.with_bytes(bytes, layouts) matches KernelLocatorView::Table { version, layout }
                ==> layouts.contains_key(version) && layouts[version] == layout && version_in(bytes)
                == Some(version),
    {
    }
}

/// The steps of locating the kernel.
#[derive(Clone, Copy, Debug)]
pub enum KernelLocator {
    /// The address width is wanted.
    Width,
    /// The shared page is wanted.
    Version,
    /// The interrupt table is wanted.
    Table { version: GuestVersion, layout: KernelLayout },
    /// A page of the scan is wanted.
    Scan { version: GuestVersion, layout: KernelLayout, scan: KernelScan },
    /// Locating is over.
    Done(Result<KernelInfo, OsInfoError>),
}

impl View for KernelLocator {
    type V = KernelLocatorView;

    open spec fn view(&self) -> KernelLocatorView {
        match *self {
            KernelLocator::Width => KernelLocatorView::Width,
            KernelLocator::Version => KernelLocatorView::Version,
            KernelLocator::Table { version, layout } => KernelLocatorView::Table {
                version,
                layout,
            },
            KernelLocator::Scan { version, layout, scan } => KernelLocatorView::Scan {
                version,
                layout,
                scan: scan@,
            },
            KernelLocator::Done(outcome) => KernelLocatorView::Done(outcome),
        }
    }
}

/// The state that a scan leaves behind.
fn after_scan(version: GuestVersion, layout: KernelLayout, scan: KernelScan) -> (state:
    KernelLocator)
    ensures
        state@ == KernelLocatorView::after_scan(version, layout, scan@),
{
    match scan.outcome() {
        Some(Ok(base)) => KernelLocator::Done(Ok(KernelInfo { base, version, layout })),
        Some(Err(error)) => KernelLocator::Done(Err(error)),
        None => KernelLocator::Scan { version, layout, scan },
    }
}

impl KernelLocator {
    /// Locating at its start: nothing is read yet.
    pub fn new() -> (locator: KernelLocator)
        ensures
            locator@ == KernelLocatorView::Width,
    {
        KernelLocator::Width
    }

    /// What the host has to read next; nothing once locating is over.
    pub fn action(&self) -> (action: Option<LocateAction>)
        ensures
            action == self@.action(),
    {
        match self {
            KernelLocator::Width => Some(LocateAction::ReadAddressWidth),
            KernelLocator::Version => Some(
                LocateAction::ReadBytes {
                    address: KUSER_SHARED_DATA_ADDRESS_X86_64,
                    size: VERSION_SPAN,
                },
            ),
            KernelLocator::Table { .. } => Some(
                LocateAction::ReadInterruptTable { size: INTERRUPT_TABLE_SPAN },
            ),
            KernelLocator::Scan { scan, .. } => Some(
                LocateAction::ReadBytes { address: scan.cursor(), size: SCAN_STEP as usize },
            ),
            KernelLocator::Done(_) => None,
        }
    }

    /// How locating ended; none while something is left to read.
    pub fn outcome(&self) -> (outcome: Option<Result<KernelInfo, OsInfoError>>)
        ensures
            outcome == self@.outcome(),
    {
        match self {
            KernelLocator::Done(outcome) => Some(*outcome),
            _ => None,
        }
    }

    /// Takes the address width that the host read.
    pub fn supply_width(&mut self, address_width: u64)
        ensures
            final(self)@ == old(self)@.with_width(address_width),
    {
        match *self {
            KernelLocator::Width => {
                if address_width == SUPPORTED_ADDRESS_WIDTH {
                    *self = KernelLocator::Version;
                } else {
                    *self = KernelLocator::Done(Err(OsInfoError::UnsupportedGuest));
                }
            },
            _ => {},
        }
    }

    /// Takes the bytes that the host read.
    pub fn supply_bytes(&mut self, bytes: &[u8], registry: &LayoutRegistry)
        ensures
            final(self)@ == old(self)@.with_bytes(bytes@, registry@),
    {
        match *self {
            KernelLocator::Version => {
                match read_version(bytes) {
                    Some(version) => match check_guest(
                        SUPPORTED_ADDRESS_WIDTH,
                        version,
                        registry,
                    ) {
                        Ok(layout) => {
                            *self = KernelLocator::Table { version, layout };
                        },
                        Err(error) => {
                            *self = KernelLocator::Done(Err(error));
                        },
                    },
                    None => {
                        *self = KernelLocator::Done(Err(OsInfoError::ReadError));
                    },
                }
            },
            KernelLocator::Table { version, layout } => {
                match first_handler(bytes) {
                    Some(handler) => {
                        *self = after_scan(version, layout, KernelScan::begin(handler, SCAN_STEP));
                    },
                    None => {
                        *self = KernelLocator::Done(Err(OsInfoError::UnsupportedGuest));
                    },
                }
            },
            KernelLocator::Scan { version, layout, scan } => {
                let mut scan = scan;
                scan.advance(Ok(image_header(bytes)));
                *self = after_scan(version, layout, scan);
            },
            _ => {},
        }
    }

    /// Takes the failure of the read that the host was asked for.
    pub fn supply_failure(&mut self, error: OsInfoError)
        ensures
            final(self)@ == old(self)@.with_failure(error),
    {
        match *self {
            KernelLocator::Done(_) => {},
            KernelLocator::Scan { version, layout, scan } => {
                let mut scan = scan;
                scan.advance(Err(error));
                *self = after_scan(version, layout, scan);
            },
            _ => {
                *self = KernelLocator::Done(Err(error));
            },
        }
    }
}

} // verus!
