use windows_os_info::interval_index::dedup_by_range;
use windows_os_info::interval_index::IntervalEntry;
use windows_os_info::interval_index::SymbolIndex;
use windows_os_info::symbols::SymbolInfo;

fn symbol(name: &str) -> SymbolInfo {
    SymbolInfo {
        rva: 0,
        size: 0,
        name: name.to_string(),
        module: "m.sys".to_string(),
        lines: Vec::new(),
    }
}

fn entry(start: u64, end: u64, name: &str) -> IntervalEntry {
    IntervalEntry { start, end, symbol: symbol(name) }
}

#[test]
fn dedup_keeps_the_first_of_each_range() {
    let kept = dedup_by_range(vec![
        entry(10, 20, "a"),
        entry(10, 20, "b"),
        entry(10, 21, "c"),
        entry(10, 20, "d"),
        entry(5, 20, "e"),
    ]);
    assert_eq!(kept, vec![entry(10, 20, "a"), entry(10, 21, "c"), entry(5, 20, "e")]);
}

#[test]
fn lookup_finds_the_covering_entry() {
    let index = SymbolIndex::build(vec![
        entry(0x1000, 0x1010, "first"),
        entry(0x2000, 0x2100, "second"),
        entry(0x1000, 0x1010, "shadowed"),
    ]);
    assert_eq!(index.len(), 2);
    assert_eq!(index.lookup(0x1000).map(|e| e.symbol.name.as_str()), Some("first"));
    assert_eq!(index.lookup(0x100f).map(|e| e.symbol.name.as_str()), Some("first"));
    assert_eq!(index.lookup(0x1010), None);
    assert_eq!(index.lookup(0x20ff).map(|e| e.symbol.name.as_str()), Some("second"));
    assert_eq!(index.lookup(0x2100), None);
    assert_eq!(index.lookup(0), None);
}
