use windows_os_info::coverage::CoverageRecords;
use windows_os_info::error::OsInfoError;
use windows_os_info::layouts::layout_of_build;
use windows_os_info::os_info::CpuInstrumentationCbHandle;
use windows_os_info::os_info::RefreshState;
use windows_os_info::os_info::WindowsOsInfo;
use windows_os_info::symbols::LineInfo;
use windows_os_info::symbols::Module;
use windows_os_info::symbols::Process;
use windows_os_info::symbols::SymbolInfo;
use windows_os_info::version::GuestVersion;
use windows_os_info::version::KernelInfo;

fn kernel(base: u64) -> KernelInfo {
    KernelInfo {
        base,
        version: GuestVersion { major: 10, minor: 0, build: 22631 },
        layout: layout_of_build(22631).unwrap(),
    }
}

fn symbol(module: &str, name: &str, rva: u64, size: u64, file: &str, first: u32, last: u32) -> SymbolInfo {
    SymbolInfo {
        rva,
        size,
        name: name.to_string(),
        module: module.to_string(),
        lines: vec![LineInfo {
            rva,
            size: size as u32,
            file_path: file.to_string(),
            start_line: first,
            end_line: last,
        }],
    }
}

fn module(name: &str, base: u64, debug_info: Option<Vec<SymbolInfo>>) -> Module {
    Module {
        base,
        size: 0x10000,
        full_name: format!("\\SystemRoot\\system32\\{name}"),
        base_name: name.to_string(),
        debug_info,
    }
}

fn process(modules: Vec<Module>) -> Process {
    Process { pid: 4242, file_name: "target.exe".to_string(), base_address: 0x40_0000, modules }
}

fn located() -> WindowsOsInfo {
    let mut info = WindowsOsInfo::default();
    assert!(info.locate_kernel(kernel(0xfffff800_00000000)));
    info
}

#[test]
fn default_knows_nothing() {
    let info = WindowsOsInfo::default();
    assert!(info.kernel_info.is_none());
    assert!(info.kernel_needed());
    assert!(info.processes.is_empty());
    assert!(info.modules.is_empty());
    assert!(info.symbol_lookup_trees.is_empty());
    assert_eq!(info.not_found_full_name_cache.len(), 0);
    assert!(info.instruction_callbacks.is_empty());
    assert_eq!(info.state(0), RefreshState::Uninitialized);
    assert!(info.lookup(0, 0x1000).is_none());
}

#[test]
fn kernel_is_located_once() {
    let mut info = WindowsOsInfo::default();
    assert!(info.locate_kernel(kernel(0x1000)));
    assert!(!info.kernel_needed());
    assert!(!info.locate_kernel(kernel(0x2000)));
    assert_eq!(info.kernel_info, Some(kernel(0x1000)));
    assert_eq!(info.state(0), RefreshState::KernelLocated);
    assert_eq!(info.state(1), RefreshState::KernelLocated);
}

#[test]
fn collect_without_kernel_fails_and_changes_nothing() {
    let mut info = WindowsOsInfo::default();
    let mut coverage = CoverageRecords::new();
    let modules = vec![module("a.sys", 0x1000, Some(vec![symbol("a.sys", "f", 0, 8, "a.c", 1, 2)]))];
    let result = info.collect(0, Some(process(Vec::new())), Some(modules), &mut coverage);
    assert_eq!(result, Err(OsInfoError::EnumerationError));
    assert!(info.processes.is_empty());
    assert!(info.modules.is_empty());
    assert!(info.symbol_lookup_trees.is_empty());
    assert_eq!(coverage.files().len(), 0);
}

#[test]
fn collect_without_a_list_fails_and_changes_nothing() {
    let mut info = located();
    let mut coverage = CoverageRecords::new();
    assert_eq!(
        info.collect(0, None, Some(Vec::new()), &mut coverage),
        Err(OsInfoError::EnumerationError)
    );
    assert_eq!(
        info.collect(0, Some(process(Vec::new())), None, &mut coverage),
        Err(OsInfoError::EnumerationError)
    );
    assert_eq!(info.state(0), RefreshState::KernelLocated);
    assert!(info.processes.is_empty());
    assert_eq!(coverage.files().len(), 0);
}

#[test]
fn collect_builds_index_and_coverage() {
    let mut info = located();
    let mut coverage = CoverageRecords::new();
    let kernel_modules = vec![
        module("ntoskrnl.exe", 0x10_0000, Some(vec![
            symbol("ntoskrnl.exe", "KiStart", 0x100, 0x40, "ke/start.c", 10, 12),
            symbol("ntoskrnl.exe", "KiStop", 0x140, 0x10, "ke/start.c", 20, 20),
        ])),
        module("nosyms.sys", 0x20_0000, None),
    ];
    let current = process(vec![module("target.exe", 0x40_0000, Some(vec![
        symbol("target.exe", "main", 0x1000, 0x80, "main.c", 1, 5),
    ]))]);
    assert_eq!(info.collect(3, Some(current), Some(kernel_modules), &mut coverage), Ok(()));

    assert_eq!(info.state(3), RefreshState::Active);
    assert_eq!(info.state(0), RefreshState::KernelLocated);
    assert_eq!(info.processes[&3].pid, 4242);
    assert_eq!(info.modules[&3].len(), 2);
    let index = &info.symbol_lookup_trees[&3];
    assert_eq!(index.len(), 3);
    assert_eq!(index.entries()[0].start, 0x10_0100);
    assert_eq!(index.entries()[0].end, 0x10_0140);
    assert_eq!(index.entries()[1].start, 0x10_0140);
    assert_eq!(index.entries()[1].end, 0x10_0150);
    assert_eq!(index.entries()[2].start, 0x40_1000);
    assert_eq!(index.entries()[2].end, 0x40_1080);

    assert_eq!(info.lookup(3, 0x10_0100).map(|e| e.symbol.name.as_str()), Some("KiStart"));
    assert_eq!(info.lookup(3, 0x10_013f).map(|e| e.symbol.name.as_str()), Some("KiStart"));
    assert_eq!(info.lookup(3, 0x10_0140).map(|e| e.symbol.name.as_str()), Some("KiStop"));
    assert_eq!(info.lookup(3, 0x40_107f).map(|e| e.symbol.name.as_str()), Some("main"));
    assert!(info.lookup(3, 0x40_1080).is_none());
    assert!(info.lookup(3, 0x20_0000).is_none());
    assert!(info.lookup(0, 0x10_0100).is_none());

    assert_eq!(coverage.files().len(), 2);
    let start = coverage.get(&"ke/start.c".to_string()).unwrap();
    assert_eq!(start.line_count(), 4);
    assert!(start.has_function(10, Some(12), &"KiStart".to_string()));
    assert!(start.has_function(20, Some(20), &"KiStop".to_string()));
    let main = coverage.get(&"main.c".to_string()).unwrap();
    assert_eq!(main.line_count(), 5);
    assert!(main.has_function(1, Some(5), &"main".to_string()));
}

#[test]
fn index_holds_each_range_once() {
    let mut info = located();
    let mut coverage = CoverageRecords::new();
    // The same image is seen in the kernel's list and in the process's own.
    let shared = || vec![
        symbol("shared.dll", "a", 0x10, 0x10, "s.c", 1, 1),
        symbol("shared.dll", "b", 0x20, 0x10, "s.c", 2, 2),
    ];
    let kernel_modules = vec![module("shared.dll", 0x7000_0000, Some(shared()))];
    let mut in_process = module("shared.dll", 0x7000_0000, Some(shared()));
    in_process.debug_info.as_mut().unwrap()[0].name = "a_from_process".to_string();
    assert_eq!(
        info.collect(0, Some(process(vec![in_process])), Some(kernel_modules), &mut coverage),
        Ok(())
    );
    let entries = info.symbol_lookup_trees[&0].entries();
    assert_eq!(entries.len(), 2);
    for (i, a) in entries.iter().enumerate() {
        for b in entries.iter().skip(i + 1) {
            assert!(a.start != b.start || a.end != b.end);
        }
    }
    // Of two entries with one range, the kernel's comes first and stays.
    assert_eq!(info.lookup(0, 0x7000_0010).map(|e| e.symbol.name.as_str()), Some("a"));
    assert!(!coverage.get(&"s.c".to_string()).unwrap().has_function(
        1,
        Some(1),
        &"a_from_process".to_string()
    ));
}

#[test]
fn refresh_replaces_the_index_of_its_processor_only() {
    let mut info = located();
    let mut coverage = CoverageRecords::new();
    let first = vec![module("old.sys", 0x1000, Some(vec![symbol("old.sys", "old", 0, 0x10, "old.c", 1, 1)]))];
    let other = vec![module("cpu1.sys", 0x9000, Some(vec![symbol("cpu1.sys", "one", 0, 0x10, "one.c", 1, 1)]))];
    assert_eq!(info.collect(0, Some(process(Vec::new())), Some(first), &mut coverage), Ok(()));
    assert_eq!(info.collect(1, Some(process(Vec::new())), Some(other), &mut coverage), Ok(()));
    assert!(info.lookup(0, 0x1000).is_some());

    let second = vec![module("new.sys", 0x5000, Some(vec![symbol("new.sys", "new", 0, 0x10, "new.c", 1, 1)]))];
    assert_eq!(info.collect(0, Some(process(Vec::new())), Some(second), &mut coverage), Ok(()));
    // Nothing of the old address space is left for processor 0.
    assert!(info.lookup(0, 0x1000).is_none());
    assert_eq!(info.lookup(0, 0x5000).map(|e| e.symbol.name.as_str()), Some("new"));
    assert_eq!(info.symbol_lookup_trees[&0].len(), 1);
    assert_eq!(info.modules[&0][0].base_name, "new.sys");
    // Processor 1 is as it was.
    assert_eq!(info.lookup(1, 0x9000).map(|e| e.symbol.name.as_str()), Some("one"));
    // The coverage record keeps what it knew.
    assert_eq!(coverage.files().len(), 3);
    assert_eq!(info.kernel_info, Some(kernel(0xfffff800_00000000)));
}

#[test]
fn module_known_to_lack_symbols_brings_none() {
    let mut info = located();
    let mut coverage = CoverageRecords::new();
    let carried = module("late.sys", 0x1000, Some(vec![symbol("late.sys", "f", 0, 0x10, "late.c", 1, 1)]));
    assert_eq!(info.resolve(&carried.full_name, 1, None), None);
    assert_eq!(info.collect(0, Some(process(Vec::new())), Some(vec![carried]), &mut coverage), Ok(()));
    assert_eq!(info.symbol_lookup_trees[&0].len(), 0);
    assert!(info.lookup(0, 0x1000).is_none());
    assert_eq!(coverage.files().len(), 0);
    assert_eq!(info.not_found_full_name_cache.len(), 1);
}

#[test]
fn callback_handle_is_a_number() {
    let mut info = WindowsOsInfo::default();
    info.instruction_callbacks.insert(2, CpuInstrumentationCbHandle(0xdead_beef));
    assert_eq!(info.instruction_callbacks[&2].address(), 0xdead_beef);
}
