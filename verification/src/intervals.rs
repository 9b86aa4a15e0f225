//! From modules and their symbols to address intervals: a symbol lies at its
//! module's base plus its own offset.

use crate::interval_index::entries_view;
use crate::interval_index::IntervalEntry;
use crate::interval_index::IntervalEntryView;
use crate::names::NameSet;
use crate::symbols::modules_view;
use crate::symbols::symbols_view;
use crate::symbols::Module;
use crate::symbols::ModuleView;
use crate::symbols::SymbolInfo;
use crate::symbols::SymbolInfoView;
use vstd::prelude::*;

verus! {

/// The interval of `symbol` in a module loaded at `base`: from the base plus
/// the symbol's offset, over the symbol's size. A symbol that would reach past
/// the end of the 64-bit address space has no interval.
pub open spec fn symbol_interval(base: u64, symbol: SymbolInfoView) -> Option<IntervalEntryView> {
    if base + symbol.rva + symbol.size <= u64::MAX {
        Some(
            IntervalEntryView {
                start: (base + symbol.rva) as u64,
                end: (base + symbol.rva + symbol.size) as u64,
                symbol,
            },
        )
    } else {
        None
    }
}

/// The intervals of `symbols` in a module loaded at `base`, in their order.
pub open spec fn symbol_intervals(base: u64, symbols: Seq<SymbolInfoView>) -> Seq<
    IntervalEntryView,
>
    decreases symbols.len(),
{
    if symbols.len() == 0 {
        Seq::empty()
    } else {
        match symbol_interval(base, symbols.last()) {
            Some(entry) => symbol_intervals(base, symbols.drop_last()).push(entry),
            None => symbol_intervals(base, symbols.drop_last()),
        }
    }
}

/// The symbols that a module brings to an index: none where the module's
/// full name is among `excluded` or the module has no debug information.
pub open spec fn usable_symbols(module: ModuleView, excluded: Set<Seq<char>>) -> Seq<
    SymbolInfoView,
> {
    if excluded.contains(module.full_name) {
        Seq::empty()
    } else {
        match module.debug_info {
            Some(symbols) => symbols,
            None => Seq::empty(),
        }
    }
}

/// The intervals that `modules` bring to an index, module after module.
pub open spec fn modules_intervals(modules: Seq<ModuleView>, excluded: Set<Seq<char>>) -> Seq<
    IntervalEntryView,
>
    decreases modules.len(),
{
    if modules.len() == 0 {
        Seq::empty()
    } else {
        modules_intervals(modules.drop_last(), excluded) + symbol_intervals(
            modules.last().base,
            usable_symbols(modules.last(), excluded),
        )
    }
}

/// A module whose full name is known to lack debug information brings no
/// interval, whatever symbols it carries.
pub proof fn lemma_excluded_module_brings_nothing(module: ModuleView, excluded: Set<Seq<char>>)
    requires
        excluded.contains(module.full_name),
    ensures
        usable_symbols(module, excluded) == Seq::<SymbolInfoView>::empty(),
        symbol_intervals(module.base, usable_symbols(module, excluded)) == Seq::<
            IntervalEntryView,
        >::empty(),
{
}

/// Places one symbol of a module loaded at `base`.
pub fn place_symbol(base: u64, symbol: &SymbolInfo) -> (entry: Option<IntervalEntry>)
    ensures
        match entry {
            Some(entry) => symbol_interval(base, symbol@) == Some(entry@),
            None => symbol_interval(base, symbol@) is None,
        },
{
    match base.checked_add(symbol.rva) {
        Some(start) => match start.checked_add(symbol.size) {
            Some(end) => Some(IntervalEntry { start, end, symbol: symbol.clone() }),
            None => None,
        },
        None => None,
    }
}

/// Places the symbols of a module loaded at `base` and appends their
/// intervals to `out`.
pub fn place_symbols(base: u64, symbols: &Vec<SymbolInfo>, out: &mut Vec<IntervalEntry>)
    ensures
        entries_view(final(out)@) == entries_view(old(out)@) + symbol_intervals(
            base,
            symbols_view(symbols@),
        ),
{
    let ghost all = symbols_view(symbols@);
    let ghost given = entries_view(out@);
    assert(given + symbol_intervals(base, all.subrange(0, 0)) =~= given);
    let mut i: usize = 0;
    while i < symbols.len()
        invariant
            i <= symbols.len(),
            all == symbols_view(symbols@),
            entries_view(out@) == given + symbol_intervals(base, all.subrange(0, i as int)),
        decreases symbols.len() - i,
    {
        let ghost before = entries_view(out@);
        proof {
            assert(all.subrange(0, i + 1).drop_last() =~= all.subrange(0, i as int));
            assert(all.subrange(0, i + 1).last() == symbols[i as int]@);
        }
        match place_symbol(base, &symbols[i]) {
            Some(entry) => {
                out.push(entry);
                assert(entries_view(out@) =~= before.push(entry@));
                assert(entries_view(out@) =~= given + symbol_intervals(
                    base,
                    all.subrange(0, i + 1),
                ));
            },
            None => {},
        }
        i += 1;
    }
    assert(all.subrange(0, symbols.len() as int) =~= all);
}

impl Module {
    /// The intervals of the module's symbols; none where the module has no
    /// debug information.
    pub fn intervals(&self) -> (entries: Option<Vec<IntervalEntry>>)
        ensures
            match entries {
                Some(entries) => self@.debug_info is Some && entries_view(entries@)
                    == symbol_intervals(self.base, self@.debug_info->0),
                None => self@.debug_info is None,
            },
    {
        match &self.debug_info {
            Some(symbols) => {
                let mut entries: Vec<IntervalEntry> = Vec::new();
                place_symbols(self.base, symbols, &mut entries);
                assert(entries_view(Seq::<IntervalEntry>::empty()) + symbol_intervals(
                    self.base,
                    symbols_view(symbols@),
                ) =~= symbol_intervals(self.base, symbols_view(symbols@)));
                Some(entries)
            },
            None => None,
        }
    }
}

/// Appends to `out` the intervals that `modules` bring to an index: those of
/// every module with debug information whose full name is not in `excluded`.
pub fn place_modules(modules: &Vec<Module>, excluded: &NameSet, out: &mut Vec<IntervalEntry>)
    ensures
        entries_view(final(out)@) == entries_view(old(out)@) + modules_intervals(
            modules_view(modules@),
            excluded@,
        ),
{
    let ghost all = modules_view(modules@);
    let ghost given = entries_view(out@);
    assert(given + modules_intervals(all.subrange(0, 0), excluded@) =~= given);
    let mut i: usize = 0;
    while i < modules.len()
        invariant
            i <= modules.len(),
            all == modules_view(modules@),
            entries_view(out@) == given + modules_intervals(all.subrange(0, i as int), excluded@),
        decreases modules.len() - i,
    {
        let ghost before = entries_view(out@);
        let module = &modules[i];
        proof {
            assert(all.subrange(0, i + 1).drop_last() =~= all.subrange(0, i as int));
            assert(all.subrange(0, i + 1).last() == module@);
        }
        let known_missing = excluded.contains(&module.full_name);
        if !known_missing {
            match &module.debug_info {
                Some(symbols) => {
                    place_symbols(module.base, symbols, out);
                },
                None => {},
            }
        }
        proof {
            let added = symbol_intervals(module.base, usable_symbols(module@, excluded@));
            assert(entries_view(out@) =~= before + added);
            assert(given + modules_intervals(all.subrange(0, i as int), excluded@) + added
                =~= given + modules_intervals(all.subrange(0, i + 1), excluded@));
        }
        i += 1;
    }
    assert(all.subrange(0, modules.len() as int) =~= all);
}

} // verus!
