use windows_os_info::coverage::CoverageRecord;
use windows_os_info::coverage::CoverageRecords;
use windows_os_info::coverage::FunctionEntry;
use windows_os_info::interval_index::IntervalEntry;
use windows_os_info::symbols::LineInfo;
use windows_os_info::symbols::SymbolInfo;

fn line(file: &str, start_line: u32, end_line: u32) -> LineInfo {
    LineInfo { rva: 0, size: 0, file_path: file.to_string(), start_line, end_line }
}

fn symbol(name: &str, lines: Vec<LineInfo>) -> SymbolInfo {
    SymbolInfo { rva: 0x10, size: 0x20, name: name.to_string(), module: "m.sys".to_string(), lines }
}

#[test]
fn same_line_registered_twice_is_kept_once() {
    let mut coverage = CoverageRecords::new();
    let file = "src/main.c".to_string();
    assert!(coverage.add_line_if_not_exists(&file, 42));
    assert!(!coverage.add_line_if_not_exists(&file, 42));
    let record = coverage.get(&file).unwrap();
    assert_eq!(record.line_count(), 1);
    assert!(record.has_line(42));
    assert_eq!(coverage.files().len(), 1);
}

#[test]
fn same_function_registered_twice_is_kept_once() {
    let mut coverage = CoverageRecords::new();
    let file = "src/main.c".to_string();
    let name = "main".to_string();
    assert!(coverage.add_function_if_not_exists(&file, 10, Some(20), &name));
    assert!(!coverage.add_function_if_not_exists(&file, 10, Some(20), &name));
    assert!(coverage.add_function_if_not_exists(&file, 10, None, &name));
    let record = coverage.get(&file).unwrap();
    assert_eq!(record.function_count(), 2);
    assert_eq!(
        record.functions(),
        &vec![
            FunctionEntry { start_line: 10, end_line: Some(20), name: "main".to_string() },
            FunctionEntry { start_line: 10, end_line: None, name: "main".to_string() },
        ]
    );
}

#[test]
fn lines_of_different_files_are_kept_apart() {
    let mut coverage = CoverageRecords::new();
    let a = "a.c".to_string();
    let b = "b.c".to_string();
    assert!(coverage.add_line_if_not_exists(&a, 1));
    assert!(coverage.add_line_if_not_exists(&b, 1));
    assert!(!coverage.add_line_if_not_exists(&a, 1));
    assert_eq!(coverage.files().len(), 2);
    assert_eq!(coverage.get(&a).unwrap().line_count(), 1);
    assert_eq!(coverage.get(&b).unwrap().line_count(), 1);
    assert!(coverage.get(&"c.c".to_string()).is_none());
}

#[test]
fn add_lines_covers_both_ends() {
    let mut record = CoverageRecord::new();
    record.add_lines(7, 9);
    assert_eq!(record.line_count(), 3);
    assert!(!record.has_line(6));
    assert!(record.has_line(7));
    assert!(record.has_line(8));
    assert!(record.has_line(9));
    assert!(!record.has_line(10));
}

#[test]
fn add_lines_of_an_empty_span_adds_nothing() {
    let mut record = CoverageRecord::new();
    record.add_lines(9, 7);
    assert_eq!(record.line_count(), 0);
    record.add_lines(5, 5);
    assert_eq!(record.line_count(), 1);
    assert!(record.has_line(5));
}

#[test]
fn add_lines_reaches_the_last_line_number() {
    let mut record = CoverageRecord::new();
    record.add_lines(u32::MAX - 1, u32::MAX);
    assert_eq!(record.line_count(), 2);
    assert!(record.has_line(u32::MAX));
}

#[test]
fn symbol_with_lines_100_to_120_registers_function_and_lines() {
    let mut coverage = CoverageRecords::new();
    let entries = vec![IntervalEntry {
        start: 0x1000,
        end: 0x1100,
        symbol: symbol("foo", vec![line("src/foo.c", 100, 120)]),
    }];
    coverage.accumulate(&entries);
    let record = coverage.get(&"src/foo.c".to_string()).unwrap();
    assert!(record.has_function(100, Some(120), &"foo".to_string()));
    assert_eq!(record.function_count(), 1);
    for line in 100..=120 {
        assert!(record.has_line(line));
    }
    assert!(!record.has_line(99));
    assert!(!record.has_line(121));
    assert_eq!(record.line_count(), 21);
}

#[test]
fn function_spans_from_first_entry_to_last() {
    let mut coverage = CoverageRecords::new();
    coverage.register_symbol(&symbol(
        "bar",
        vec![line("bar.c", 10, 12), line("bar.c", 20, 21), line("inline.h", 3, 4)],
    ));
    let record = coverage.get(&"bar.c".to_string()).unwrap();
    assert!(record.has_function(10, Some(4), &"bar".to_string()));
    assert_eq!(record.line_count(), 7);
    for line in [10, 11, 12, 20, 21, 3, 4] {
        assert!(record.has_line(line));
    }
    assert!(coverage.get(&"inline.h".to_string()).is_none());
}

#[test]
fn symbol_without_lines_registers_nothing() {
    let mut coverage = CoverageRecords::new();
    coverage.register_symbol(&symbol("stub", Vec::new()));
    assert_eq!(coverage.files().len(), 0);
}

#[test]
fn accumulating_twice_changes_nothing() {
    let mut coverage = CoverageRecords::new();
    let entries = vec![
        IntervalEntry { start: 0, end: 8, symbol: symbol("f", vec![line("f.c", 1, 3)]) },
        IntervalEntry { start: 8, end: 16, symbol: symbol("g", vec![line("f.c", 3, 5)]) },
        IntervalEntry { start: 16, end: 24, symbol: symbol("h", vec![line("h.c", 9, 9)]) },
    ];
    coverage.accumulate(&entries);
    coverage.accumulate(&entries);
    assert_eq!(coverage.files().len(), 2);
    let f = coverage.get(&"f.c".to_string()).unwrap();
    assert_eq!(f.line_count(), 5);
    assert_eq!(f.function_count(), 2);
    let h = coverage.get(&"h.c".to_string()).unwrap();
    assert_eq!(h.line_count(), 1);
    assert_eq!(h.function_count(), 1);
    assert_eq!(coverage.files()[0].path(), "f.c");
    assert_eq!(coverage.files()[1].path(), "h.c");
    assert_eq!(coverage.files()[1].record().line_count(), 1);
}
