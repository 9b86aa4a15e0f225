use windows_os_info::error::OsInfoError;
use windows_os_info::layouts::layout_of_build;
use windows_os_info::layouts::windows_x64;
use windows_os_info::locate::KernelLocator;
use windows_os_info::locate::LocateAction;
use windows_os_info::version::GuestVersion;
use windows_os_info::version::KernelInfo;

const KERNEL_BASE: u64 = 0xffff_f801_4a20_0000;
const HANDLER: u64 = 0xffff_f801_4a20_2a40;

fn shared_page(major: u32, minor: u32, build: u32) -> Vec<u8> {
    let mut page = vec![0u8; 0x274];
    page[0x260..0x264].copy_from_slice(&build.to_le_bytes());
    page[0x26c..0x270].copy_from_slice(&major.to_le_bytes());
    page[0x270..0x274].copy_from_slice(&minor.to_le_bytes());
    page
}

fn interrupt_table() -> Vec<u8> {
    let mut table = vec![0u8; 4096];
    // The first gate is not in use, the second is.
    table[16..18].copy_from_slice(&(HANDLER as u16).to_le_bytes());
    table[16 + 5] = 0x8e;
    table[16 + 6..16 + 8].copy_from_slice(&((HANDLER >> 16) as u16).to_le_bytes());
    table[16 + 8..16 + 12].copy_from_slice(&((HANDLER >> 32) as u32).to_le_bytes());
    table
}

fn image_page() -> Vec<u8> {
    let mut page = vec![0u8; 0x1000];
    page[0] = b'M';
    page[1] = b'Z';
    page[0x3c..0x40].copy_from_slice(&0x100u32.to_le_bytes());
    page[0x100..0x104].copy_from_slice(b"PE\0\0");
    page
}

/// A guest whose memory is mapped from the kernel's base upwards.
fn guest_page(address: u64) -> Result<Vec<u8>, OsInfoError> {
    if address == KERNEL_BASE {
        Ok(image_page())
    } else if address > KERNEL_BASE {
        Ok(vec![0xcc; 0x1000])
    } else {
        Err(OsInfoError::TranslationError)
    }
}

fn locate(major: u32, build: u32, width: u64) -> (Result<KernelInfo, OsInfoError>, Vec<LocateAction>) {
    let registry = windows_x64();
    let mut locator = KernelLocator::new();
    let mut actions = Vec::new();
    while let Some(action) = locator.action() {
        actions.push(action);
        match action {
            LocateAction::ReadAddressWidth => locator.supply_width(width),
            LocateAction::ReadInterruptTable { size } => {
                assert_eq!(size, 4096);
                locator.supply_bytes(&interrupt_table(), &registry)
            }
            LocateAction::ReadBytes { address: 0xFFFF_F780_0000_0000, size } => {
                assert_eq!(size, 0x274);
                locator.supply_bytes(&shared_page(major, 0, build), &registry)
            }
            LocateAction::ReadBytes { address, size } => {
                assert_eq!(size, 0x1000);
                match guest_page(address) {
                    Ok(page) => locator.supply_bytes(&page, &registry),
                    Err(error) => locator.supply_failure(error),
                }
            }
        }
    }
    (locator.outcome().unwrap(), actions)
}

#[test]
fn kernel_of_build_22631_is_located_below_the_handler() {
    let (outcome, actions) = locate(10, 22631, 64);
    assert_eq!(
        outcome,
        Ok(KernelInfo {
            base: KERNEL_BASE,
            version: GuestVersion { major: 10, minor: 0, build: 22631 },
            layout: layout_of_build(22631).unwrap(),
        })
    );
    assert_eq!(
        actions,
        vec![
            LocateAction::ReadAddressWidth,
            LocateAction::ReadBytes { address: 0xFFFF_F780_0000_0000, size: 0x274 },
            LocateAction::ReadInterruptTable { size: 4096 },
            LocateAction::ReadBytes { address: KERNEL_BASE + 0x2000, size: 0x1000 },
            LocateAction::ReadBytes { address: KERNEL_BASE + 0x1000, size: 0x1000 },
            LocateAction::ReadBytes { address: KERNEL_BASE, size: 0x1000 },
        ]
    );
}

#[test]
fn unregistered_build_stops_locating_at_once() {
    let (outcome, actions) = locate(10, 99999, 64);
    assert_eq!(outcome, Err(OsInfoError::UnsupportedVersion));
    // Nothing is read after the version.
    assert_eq!(
        actions,
        vec![
            LocateAction::ReadAddressWidth,
            LocateAction::ReadBytes { address: 0xFFFF_F780_0000_0000, size: 0x274 },
        ]
    );
}

#[test]
fn narrow_guest_stops_locating_before_any_read() {
    let (outcome, actions) = locate(10, 22631, 32);
    assert_eq!(outcome, Err(OsInfoError::UnsupportedGuest));
    assert_eq!(actions, vec![LocateAction::ReadAddressWidth]);
}

#[test]
fn other_major_version_is_an_unsupported_guest() {
    let (outcome, actions) = locate(6, 22631, 64);
    assert_eq!(outcome, Err(OsInfoError::UnsupportedGuest));
    assert_eq!(actions.len(), 2);
}

#[test]
fn failed_reads_end_locating_with_their_error() {
    let registry = windows_x64();
    let mut locator = KernelLocator::new();
    locator.supply_width(64);
    locator.supply_failure(OsInfoError::TranslationError);
    assert_eq!(locator.outcome(), Some(Err(OsInfoError::TranslationError)));
    assert_eq!(locator.action(), None);
    // What comes after the end changes nothing.
    locator.supply_bytes(&shared_page(10, 0, 22631), &registry);
    locator.supply_width(64);
    locator.supply_failure(OsInfoError::ReadError);
    assert_eq!(locator.outcome(), Some(Err(OsInfoError::TranslationError)));

    let mut short = KernelLocator::new();
    short.supply_width(64);
    short.supply_bytes(&[0u8; 0x100], &registry);
    assert_eq!(short.outcome(), Some(Err(OsInfoError::ReadError)));

    let mut unused = KernelLocator::new();
    unused.supply_width(64);
    unused.supply_bytes(&shared_page(10, 0, 19045), &registry);
    unused.supply_bytes(&vec![0u8; 4096], &registry);
    assert_eq!(unused.outcome(), Some(Err(OsInfoError::UnsupportedGuest)));
}

#[test]
fn scan_that_leaves_mapped_memory_fails_as_the_read_did() {
    let registry = windows_x64();
    let mut locator = KernelLocator::new();
    locator.supply_width(64);
    locator.supply_bytes(&shared_page(10, 0, 22631), &registry);
    locator.supply_bytes(&interrupt_table(), &registry);
    assert_eq!(
        locator.action(),
        Some(LocateAction::ReadBytes { address: KERNEL_BASE + 0x2000, size: 0x1000 })
    );
    locator.supply_bytes(&vec![0u8; 0x1000], &registry);
    locator.supply_failure(OsInfoError::ReadError);
    assert_eq!(locator.outcome(), Some(Err(OsInfoError::ReadError)));
}

#[test]
fn events_that_were_not_asked_for_change_nothing() {
    let registry = windows_x64();
    let mut locator = KernelLocator::new();
    locator.supply_bytes(&shared_page(10, 0, 22631), &registry);
    assert_eq!(locator.action(), Some(LocateAction::ReadAddressWidth));
    locator.supply_width(64);
    locator.supply_width(32);
    assert_eq!(
        locator.action(),
        Some(LocateAction::ReadBytes { address: 0xFFFF_F780_0000_0000, size: 0x274 })
    );
}
