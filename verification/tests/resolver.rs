use windows_os_info::names::NameSet;
use windows_os_info::os_info::WindowsOsInfo;
use windows_os_info::resolver::plan_resolution;
use windows_os_info::resolver::resolve;
use windows_os_info::resolver::ResolutionPlan;
use windows_os_info::resolver::SymbolCache;
use windows_os_info::symbols::SymbolInfo;

fn symbols(name: &str) -> Vec<SymbolInfo> {
    vec![SymbolInfo {
        rva: 0x10,
        size: 0x20,
        name: name.to_string(),
        module: "m.sys".to_string(),
        lines: Vec::new(),
    }]
}

#[test]
fn two_failing_modules_of_one_name_leave_one_entry() {
    let mut info = WindowsOsInfo::default();
    let name = "driver.sys".to_string();
    // The first module, at one base address, with one hash.
    assert_eq!(info.plan_resolution(&name, 0x1111), ResolutionPlan::Lookup);
    assert_eq!(info.resolve(&name, 0x1111, None), None);
    // The second, at another base address and with another hash.
    assert_eq!(info.plan_resolution(&name, 0x2222), ResolutionPlan::NoSymbols);
    assert_eq!(info.resolve(&name, 0x2222, None), None);
    assert_eq!(info.not_found_full_name_cache.len(), 1);
    assert!(info.not_found_full_name_cache.contains(&name));
    assert_eq!(info.not_found_full_name_cache.names(), &vec!["driver.sys".to_string()]);
}

#[test]
fn known_missing_module_is_not_looked_up() {
    let mut info = WindowsOsInfo::default();
    let name = "nosyms.dll".to_string();
    assert_eq!(info.resolve(&name, 7, None), None);
    assert_eq!(info.plan_resolution(&name, 7), ResolutionPlan::NoSymbols);
    // Whatever a lookup would have found is not used.
    assert_eq!(info.resolve(&name, 7, Some(symbols("late"))), None);
    assert_eq!(info.resolved_symbols.len(), 0);
    assert_eq!(info.not_found_full_name_cache.len(), 1);
}

#[test]
fn found_symbols_are_kept_by_identity() {
    let mut info = WindowsOsInfo::default();
    let name = "ntdll.dll".to_string();
    assert_eq!(info.plan_resolution(&name, 1), ResolutionPlan::Lookup);
    assert_eq!(info.resolve(&name, 1, Some(symbols("first"))), Some(symbols("first")));
    assert_eq!(info.plan_resolution(&name, 1), ResolutionPlan::Cached);
    // The kept symbols win over a later lookup of the same module.
    assert_eq!(info.resolve(&name, 1, Some(symbols("second"))), Some(symbols("first")));
    assert_eq!(info.resolve(&name, 1, None), Some(symbols("first")));
    // Another build of the module is another module.
    assert_eq!(info.plan_resolution(&name, 2), ResolutionPlan::Lookup);
    assert_eq!(info.resolve(&name, 2, Some(symbols("other"))), Some(symbols("other")));
    assert_eq!(info.resolved_symbols.len(), 2);
    assert_eq!(info.not_found_full_name_cache.len(), 0);
}

#[test]
fn free_functions_follow_the_same_plan() {
    let mut not_found = NameSet::new();
    let mut resolved = SymbolCache::new();
    let name = "a.sys".to_string();
    assert_eq!(plan_resolution(&not_found, &resolved, &name, 3), ResolutionPlan::Lookup);
    assert_eq!(resolve(&mut not_found, &mut resolved, &name, 3, None), None);
    assert_eq!(plan_resolution(&not_found, &resolved, &name, 3), ResolutionPlan::NoSymbols);
    assert!(resolved.get(&name, 3).is_none());
    assert!(resolved.insert(&name, 3, symbols("x")));
    assert!(!resolved.insert(&name, 3, symbols("y")));
    assert_eq!(resolved.get(&name, 3), Some(&symbols("x")));
}

#[test]
fn name_set_keeps_each_name_once() {
    let mut names = NameSet::new();
    assert_eq!(names.len(), 0);
    assert!(names.insert("a".to_string()));
    assert!(names.insert("b".to_string()));
    assert!(!names.insert("a".to_string()));
    assert_eq!(names.len(), 2);
    assert!(names.contains(&"b".to_string()));
    assert!(!names.contains(&"c".to_string()));
}
