use windows_os_info::error::OsInfoError;
use windows_os_info::layouts::layout_of_build;
use windows_os_info::orchestrator::Tsffs;
use windows_os_info::symbols::LineInfo;
use windows_os_info::symbols::Module;
use windows_os_info::symbols::Process;
use windows_os_info::symbols::SymbolInfo;
use windows_os_info::version::GuestVersion;
use windows_os_info::version::KernelInfo;

const CR3: i64 = 17;

fn kernel() -> KernelInfo {
    KernelInfo {
        base: 0xfffff800_00000000,
        version: GuestVersion { major: 10, minor: 0, build: 22631 },
        layout: layout_of_build(22631).unwrap(),
    }
}

fn modules(base: u64) -> Vec<Module> {
    vec![Module {
        base,
        size: 0x1000,
        full_name: "mod.sys".to_string(),
        base_name: "mod.sys".to_string(),
        debug_info: Some(vec![SymbolInfo {
            rva: 0,
            size: 0x10,
            name: "entry".to_string(),
            module: "mod.sys".to_string(),
            lines: vec![LineInfo {
                rva: 0,
                size: 0x10,
                file_path: "mod.c".to_string(),
                start_line: 1,
                end_line: 2,
            }],
        }]),
    }]
}

fn process() -> Process {
    Process { pid: 1, file_name: "p.exe".to_string(), base_address: 0, modules: Vec::new() }
}

fn session() -> Tsffs {
    let mut state = Tsffs::new(true, true, true);
    state.processors.insert(0);
    state.cr3_cache.insert(0, 0);
    assert!(state.windows_os_info.locate_kernel(kernel()));
    state
}

#[test]
fn new_value_refreshes_and_is_remembered() {
    let mut state = session();
    assert!(state.refresh_needed(0, CR3, CR3, 0x1aa000));
    let result = state.on_control_register_write_windows_symcov(
        0,
        CR3,
        CR3,
        0x1aa000,
        Some(process()),
        Some(modules(0x5000)),
    );
    assert_eq!(result, Ok(()));
    assert_eq!(state.cr3_cache[&0], 0x1aa000);
    assert!(state.windows_os_info.lookup(0, 0x5000).is_some());
    assert_eq!(state.coverage.get(&"mod.c".to_string()).unwrap().line_count(), 2);
}

#[test]
fn unchanged_value_is_a_no_op() {
    let mut state = session();
    assert_eq!(
        state.on_control_register_write_windows_symcov(
            0,
            CR3,
            CR3,
            0x1aa000,
            Some(process()),
            Some(modules(0x5000)),
        ),
        Ok(())
    );
    assert!(!state.refresh_needed(0, CR3, CR3, 0x1aa000));
    // The same value again: whatever was enumerated is not used.
    assert_eq!(
        state.on_control_register_write_windows_symcov(
            0,
            CR3,
            CR3,
            0x1aa000,
            Some(process()),
            Some(modules(0x9000)),
        ),
        Ok(())
    );
    assert!(state.windows_os_info.lookup(0, 0x5000).is_some());
    assert!(state.windows_os_info.lookup(0, 0x9000).is_none());
    assert_eq!(state.cr3_cache[&0], 0x1aa000);
    assert_eq!(state.cr3_cache.len(), 1);
    // Even a failed enumeration does no harm then.
    assert_eq!(
        state.on_control_register_write_windows_symcov(0, CR3, CR3, 0x1aa000, None, None),
        Ok(())
    );
    assert!(state.windows_os_info.lookup(0, 0x5000).is_some());
}

#[test]
fn other_writes_do_not_refresh() {
    let mut state = session();
    // Another register.
    assert!(!state.refresh_needed(0, CR3 + 1, CR3, 5));
    // A processor that is not known.
    assert!(!state.refresh_needed(1, CR3, CR3, 5));
    // A processor without a remembered value.
    state.processors.insert(2);
    assert!(!state.refresh_needed(2, CR3, CR3, 5));
    assert_eq!(
        state.on_control_register_write_windows_symcov(
            2,
            CR3,
            CR3,
            5,
            Some(process()),
            Some(modules(0x5000)),
        ),
        Ok(())
    );
    assert!(state.windows_os_info.symbol_lookup_trees.is_empty());
    assert!(!state.cr3_cache.contains_key(&2));
}

#[test]
fn switches_decide_whether_a_write_counts() {
    for (coverage_enabled, windows, symbolic_coverage) in
        [(false, true, true), (true, false, true), (true, true, false)]
    {
        let mut state = Tsffs::new(coverage_enabled, windows, symbolic_coverage);
        state.processors.insert(0);
        state.cr3_cache.insert(0, 0);
        assert!(!state.refresh_needed(0, CR3, CR3, 5));
    }
    let mut state = Tsffs::new(true, true, true);
    state.processors.insert(0);
    state.cr3_cache.insert(0, 0);
    assert!(state.refresh_needed(0, CR3, CR3, 5));
    assert!(!state.refresh_needed(0, CR3, CR3, 0));
}

#[test]
fn failed_refresh_leaves_the_value_unremembered() {
    let mut state = session();
    assert_eq!(
        state.on_control_register_write_windows_symcov(0, CR3, CR3, 9, None, Some(modules(0x5000))),
        Err(OsInfoError::EnumerationError)
    );
    assert_eq!(state.cr3_cache[&0], 0);
    assert!(state.windows_os_info.symbol_lookup_trees.is_empty());
    assert_eq!(state.coverage.files().len(), 0);
    // The next write of that value is still due.
    assert!(state.refresh_needed(0, CR3, CR3, 9));
}

#[test]
fn refresh_without_a_located_kernel_fails() {
    let mut state = Tsffs::new(true, true, true);
    state.processors.insert(0);
    state.cr3_cache.insert(0, 0);
    assert_eq!(
        state.on_control_register_write_windows_symcov(
            0,
            CR3,
            CR3,
            9,
            Some(process()),
            Some(modules(0x5000)),
        ),
        Err(OsInfoError::EnumerationError)
    );
    assert_eq!(state.cr3_cache[&0], 0);
}
