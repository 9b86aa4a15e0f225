use windows_os_info::error::OsInfoError;
use windows_os_info::layouts::layout_of_build;
use windows_os_info::process::address_of_field;
use windows_os_info::process::control_region;
use windows_os_info::process::ProbeAction;
use windows_os_info::process::ProcessProbe;
use windows_os_info::process::ProcessRoot;
use windows_os_info::version::KernelLayout;

const REGION: u64 = 0xffff_f801_0000_0000;
const BLOCK: u64 = 0xffff_f801_0000_0180;
const THREAD: u64 = 0xffff_a000_1111_0000;
const PROCESS: u64 = 0xffff_a000_2222_0000;
const ENVIRONMENT: u64 = 0x0000_0012_3456_7000;
const LOADER: u64 = 0x0000_7ffa_0000_1000;

fn layout() -> KernelLayout {
    layout_of_build(22631).unwrap()
}

/// What a guest of build 22631 holds at the addresses that the probe reads.
fn pointer_at(address: u64, environment: u64) -> Option<u64> {
    match address {
        a if a == REGION + 0x20 => Some(BLOCK),
        a if a == BLOCK + 0x8 => Some(THREAD),
        a if a == THREAD + 0x220 => Some(PROCESS),
        a if a == PROCESS + 0x440 => Some(1234),
        a if a == PROCESS + 0x520 => Some(0x0000_7ff6_0000_0000),
        a if a == PROCESS + 0x550 => Some(environment),
        a if a == ENVIRONMENT + 0x18 => Some(LOADER),
        _ => None,
    }
}

fn run(environment: u64, unreadable: Option<u64>) -> (Result<ProcessRoot, OsInfoError>, usize) {
    let mut probe = ProcessProbe::begin(layout(), REGION);
    let mut reads = 0;
    while let Some(action) = probe.action() {
        reads += 1;
        match action {
            ProbeAction::ReadPointer { address } if Some(address) == unreadable => {
                probe.supply_failure()
            }
            ProbeAction::ReadPointer { address } => match pointer_at(address, environment) {
                Some(pointer) => probe.supply_pointer(pointer),
                None => probe.supply_failure(),
            },
            ProbeAction::ReadBytes { address, size } => {
                assert_eq!(address, PROCESS + 0x5a8);
                assert_eq!(size, 15);
                probe.supply_bytes(b"notepad.exe\0\0\0\0");
            }
        }
    }
    (probe.finish().unwrap(), reads)
}

#[test]
fn probe_follows_the_chain_to_the_process() {
    let (root, reads) = run(ENVIRONMENT, None);
    assert_eq!(
        root,
        Ok(ProcessRoot {
            pid: 1234,
            file_name: "notepad.exe".to_string(),
            base_address: 0x0000_7ff6_0000_0000,
            modules_head: Some(LOADER + 0x10),
        })
    );
    assert_eq!(reads, 8);
}

#[test]
fn process_without_environment_has_no_module_list() {
    let (root, reads) = run(0, None);
    assert_eq!(
        root,
        Ok(ProcessRoot {
            pid: 1234,
            file_name: "notepad.exe".to_string(),
            base_address: 0x0000_7ff6_0000_0000,
            modules_head: None,
        })
    );
    assert_eq!(reads, 7);
}

#[test]
fn unreadable_link_leaves_no_process() {
    for (unreadable, reads) in [(REGION + 0x20, 1), (THREAD + 0x220, 3), (ENVIRONMENT + 0x18, 8)] {
        assert_eq!(run(ENVIRONMENT, Some(unreadable)), (Err(OsInfoError::EnumerationError), reads));
    }
}

#[test]
fn probe_that_is_over_takes_nothing_more() {
    let mut probe = ProcessProbe::begin(layout(), REGION);
    probe.supply_failure();
    assert_eq!(probe.action(), None);
    probe.supply_pointer(BLOCK);
    probe.supply_bytes(b"late");
    assert_eq!(probe.finish(), Some(Err(OsInfoError::EnumerationError)));
}

#[test]
fn probe_takes_only_what_it_asked_for() {
    let mut probe = ProcessProbe::begin(layout(), REGION);
    probe.supply_bytes(b"early");
    assert_eq!(probe.action(), Some(ProbeAction::ReadPointer { address: REGION + 0x20 }));
    probe.supply_pointer(BLOCK);
    assert_eq!(probe.action(), Some(ProbeAction::ReadPointer { address: BLOCK + 0x8 }));
    assert_eq!(probe.finish(), None);
}

#[test]
fn field_outside_the_address_space_ends_the_probe() {
    let mut probe = ProcessProbe::begin(layout(), u64::MAX - 0x10);
    assert_eq!(probe.action(), None);
    probe.supply_pointer(BLOCK);
    assert_eq!(probe.finish(), Some(Err(OsInfoError::EnumerationError)));
    assert_eq!(address_of_field(u64::MAX - 0x10, 0x10), Some(u64::MAX));
    assert_eq!(address_of_field(u64::MAX - 0x10, 0x11), None);
    assert_eq!(address_of_field(0x1000, 0x20), Some(0x1020));
}

#[test]
fn control_region_is_the_larger_register() {
    assert_eq!(control_region(0x7ff0_0000, REGION), REGION);
    assert_eq!(control_region(REGION, 0x7ff0_0000), REGION);
    assert_eq!(control_region(5, 5), 5);
}
