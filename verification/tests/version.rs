use windows_os_info::error::OsInfoError;
use windows_os_info::layouts::layout_of_build;
use windows_os_info::layouts::windows_x64;
use windows_os_info::version::check_guest;
use windows_os_info::version::read_version;
use windows_os_info::version::EntryLayout;
use windows_os_info::version::GuestVersion;
use windows_os_info::version::KernelLayout;
use windows_os_info::version::LayoutRegistry;
use windows_os_info::version::KUSER_SHARED_DATA_ADDRESS_X86_64;

fn layout(tag: usize) -> KernelLayout {
    KernelLayout {
        control_block: 0x20,
        current_thread: 0x8,
        thread_process: 0x220,
        process_id: 0x440,
        process_image_name: 0x5a8,
        process_environment: 0x550,
        process_section_base: 0x520,
        environment_loader: 0x18,
        loader_modules: tag,
        module_entry: EntryLayout { next: 0, base: 0x30, size: 0x40, full_name: 0x48, base_name: 0x58 },
    }
}

fn version(build: u32) -> GuestVersion {
    GuestVersion { major: 10, minor: 0, build }
}

fn registry() -> LayoutRegistry {
    let mut registry = LayoutRegistry::new();
    assert!(registry.register(version(19045), layout(1)));
    assert!(registry.register(version(22631), layout(2)));
    registry
}

#[test]
fn build_22631_selects_its_layout() {
    let registry = registry();
    assert_eq!(check_guest(64, version(22631), &registry), Ok(layout(2)));
    assert_eq!(check_guest(64, version(19045), &registry), Ok(layout(1)));
}

#[test]
fn unregistered_build_is_an_unsupported_version() {
    let registry = registry();
    assert_eq!(check_guest(64, version(99999), &registry), Err(OsInfoError::UnsupportedVersion));
    assert_eq!(
        check_guest(64, GuestVersion { major: 10, minor: 1, build: 22631 }, &registry),
        Err(OsInfoError::UnsupportedVersion)
    );
}

#[test]
fn other_guests_are_unsupported() {
    let registry = registry();
    assert_eq!(check_guest(32, version(22631), &registry), Err(OsInfoError::UnsupportedGuest));
    assert_eq!(
        check_guest(64, GuestVersion { major: 6, minor: 1, build: 7601 }, &registry),
        Err(OsInfoError::UnsupportedGuest)
    );
    assert!(OsInfoError::UnsupportedGuest.is_session_fatal());
    assert!(OsInfoError::UnsupportedVersion.is_session_fatal());
    assert!(!OsInfoError::EnumerationError.is_session_fatal());
    assert!(!OsInfoError::ReadError.is_session_fatal());
    assert!(!OsInfoError::TranslationError.is_session_fatal());
}

#[test]
fn registered_build_keeps_its_layout() {
    let mut registry = registry();
    assert!(!registry.register(version(22631), layout(9)));
    assert_eq!(registry.select(version(22631)), Some(layout(2)));
    assert_eq!(registry.select(version(10240)), None);
    assert_eq!(registry.len(), 2);
}

#[test]
fn version_is_read_from_the_shared_page() {
    let mut page = vec![0u8; 0x1000];
    page[0x260..0x264].copy_from_slice(&22631u32.to_le_bytes());
    page[0x26c..0x270].copy_from_slice(&10u32.to_le_bytes());
    page[0x270..0x274].copy_from_slice(&0x0102_0304u32.to_le_bytes());
    assert_eq!(
        read_version(&page),
        Some(GuestVersion { major: 10, minor: 0x0102_0304, build: 22631 })
    );
    assert_eq!(read_version(&page[..0x274]).map(|v| v.build), Some(22631));
    assert_eq!(read_version(&page[..0x273]), None);
    assert_eq!(read_version(&[]), None);
    assert_eq!(KUSER_SHARED_DATA_ADDRESS_X86_64, 0xFFFFF78000000000);
}

#[test]
fn guest_of_build_22631_gets_the_layout_of_that_build() {
    let registry = windows_x64();
    let reported = GuestVersion { major: 10, minor: 0, build: 22631 };
    let layout = check_guest(64, reported, &registry).unwrap();
    assert_eq!(Some(layout), layout_of_build(22631));
    assert_eq!(layout.process_id, 0x440);
    assert_eq!(layout.process_image_name, 0x5a8);
    assert_eq!(layout.process_environment, 0x550);
    assert_eq!(layout.control_block, 0x20);
    assert_eq!(layout.current_thread, 0x8);
    assert_eq!(layout.module_entry.base, 0x30);
}

#[test]
fn guest_of_build_99999_is_an_unsupported_version() {
    let registry = windows_x64();
    let reported = GuestVersion { major: 10, minor: 0, build: 99999 };
    assert_eq!(check_guest(64, reported, &registry), Err(OsInfoError::UnsupportedVersion));
    assert_eq!(layout_of_build(99999), None);
}

#[test]
fn known_builds_are_thirteen() {
    let registry = windows_x64();
    assert_eq!(registry.len(), 13);
    let builds = [
        10240, 10586, 14393, 15063, 16299, 17134, 17763, 18362, 19041, 19045, 22000, 22621, 22631,
    ];
    for build in builds {
        let version = GuestVersion { major: 10, minor: 0, build };
        assert_eq!(registry.select(version), layout_of_build(build));
        assert!(layout_of_build(build).is_some());
    }
    assert_eq!(layout_of_build(10240).unwrap().process_image_name, 0x448);
    assert_eq!(layout_of_build(17763).unwrap().process_id, 0x2e0);
    assert_eq!(layout_of_build(18362).unwrap().process_section_base, 0x3c8);
    assert_eq!(registry.select(GuestVersion { major: 10, minor: 1, build: 22631 }), None);
    assert_eq!(registry.select(GuestVersion { major: 6, minor: 0, build: 22631 }), None);
}
