//! What is known of the guest's operating system: the kernel of the session
//! and, for each virtual processor, the process, the kernel modules and the
//! symbol index that its last refresh found.

use crate::coverage::register_entries;
use crate::coverage::CoverageRecords;
use crate::error::OsInfoError;
use crate::interval_index::distinct_ranges;
use crate::interval_index::first_by_range;
use crate::interval_index::IntervalEntry;
use crate::interval_index::IntervalEntryView;
use crate::interval_index::SymbolIndex;
use crate::intervals::modules_intervals;
use crate::intervals::place_modules;
use crate::names::NameSet;
use crate::resolver::found_view;
use crate::resolver::not_found_after;
use crate::resolver::plan_for;
use crate::resolver::resolution;
use crate::resolver::resolved_after;
use crate::resolver::ResolutionPlan;
use crate::resolver::SymbolCache;
use crate::symbols::modules_view;
use crate::symbols::Module;
use crate::symbols::ModuleView;
use crate::symbols::Process;
use crate::symbols::SymbolInfo;
use crate::symbols::SymbolInfoView;
use crate::version::KernelInfo;
use std::collections::HashMap;
use vstd::prelude::*;

verus! {

broadcast use vstd::std_specs::hash::group_hash_axioms;

/// The host's handle of an instruction callback, kept as a number.
#[derive(Clone, Copy, Debug, PartialEq, Eq, Structural)]
pub struct CpuInstrumentationCbHandle(pub usize);

/// How far introspection has come for one virtual processor.
#[derive(Clone, Copy, Debug, PartialEq, Eq, Structural)]
pub enum RefreshState {
    /// The kernel of the session is not located yet.
    Uninitialized,
    /// The kernel is located; this processor has not been refreshed.
    KernelLocated,
    /// This processor has been refreshed at least once.
    Active,
}

/// The entries of the index that a refresh builds: the intervals of the
/// kernel's modules, then those of the process's modules, and of several with
/// the same range the first.
pub open spec fn refresh_entries(
    kernel_modules: Seq<ModuleView>,
    process_modules: Seq<ModuleView>,
    excluded: Set<Seq<char>>,
) -> Seq<IntervalEntryView> {
    first_by_range(
        modules_intervals(kernel_modules, excluded) + modules_intervals(process_modules, excluded),
    )
}

/// What is known of a running Windows guest.
#[derive(Debug)]
pub struct WindowsOsInfo {
    /// The kernel of the session, once it is located.
    pub kernel_info: Option<KernelInfo>,
    /// The current process of each virtual processor at its last refresh.
    pub processes: HashMap<i32, Process>,
    /// The kernel modules that each virtual processor saw at its last refresh.
    pub modules: HashMap<i32, Vec<Module>>,
    /// The symbol index of each virtual processor.
    pub symbol_lookup_trees: HashMap<i32, SymbolIndex>,
    /// The full names of the modules, of processes and of the kernel, for
    /// which no debug information could be found.
    pub not_found_full_name_cache: NameSet,
    /// The symbols of the modules for which debug information was found.
    pub resolved_symbols: SymbolCache,
    /// The instruction callback of each virtual processor.
    pub instruction_callbacks: HashMap<i32, CpuInstrumentationCbHandle>,
}

impl Default for WindowsOsInfo {
    fn default() -> (info: WindowsOsInfo)
        ensures
            info.kernel_info is None,
            info.processes@ == Map::<i32, Process>::empty(),
            info.modules@ == Map::<i32, Vec<Module>>::empty(),
            info.symbol_lookup_trees@ == Map::<i32, SymbolIndex>::empty(),
            info.not_found_full_name_cache@ == Set::<Seq<char>>::empty(),
            info.resolved_symbols@ == Map::<(Seq<char>, u64), Seq<SymbolInfoView>>::empty(),
            info.instruction_callbacks@ == Map::<i32, CpuInstrumentationCbHandle>::empty(),
            info.wf(),
    {
        WindowsOsInfo {
            kernel_info: None,
            processes: HashMap::new(),
            modules: HashMap::new(),
            symbol_lookup_trees: HashMap::new(),
            not_found_full_name_cache: NameSet::new(),
            resolved_symbols: SymbolCache::new(),
            instruction_callbacks: HashMap::new(),
        }
    }
}

impl CpuInstrumentationCbHandle {
    /// The handle as a number.
    pub fn address(self) -> (address: usize)
        ensures
            address == self.0,
    {
        self.0
    }
}

impl WindowsOsInfo {
    /// Every index is well formed, and so are the two caches.
    pub open spec fn wf(&self) -> bool {
        &&& self.not_found_full_name_cache.wf()
        &&& self.resolved_symbols.wf()
        &&& forall|processor_nr: i32| #[trigger]
            self.symbol_lookup_trees@.contains_key(processor_nr)
                ==> self.symbol_lookup_trees@[processor_nr].wf()
    }

    /// How far introspection has come for a processor.
    pub open spec fn spec_state(&self, processor_nr: i32) -> RefreshState {
        if self.kernel_info is None {
            RefreshState::Uninitialized
        } else if self.symbol_lookup_trees@.contains_key(processor_nr) {
            RefreshState::Active
        } else {
            RefreshState::KernelLocated
        }
    }

    /// How far introspection has come for a processor.
    pub fn state(&self, processor_nr: i32) -> (state: RefreshState)
        ensures
            state == self.spec_state(processor_nr),
    {
        if self.kernel_info.is_none() {
            RefreshState::Uninitialized
        } else if self.symbol_lookup_trees.contains_key(&processor_nr) {
            RefreshState::Active
        } else {
            RefreshState::KernelLocated
        }
    }

    /// The value after `kernel` was offered as the kernel of the session: it
    /// is taken where none is known, and ignored where one is.
    pub open spec fn with_kernel(self, kernel: KernelInfo) -> WindowsOsInfo {
        if self.kernel_info is None {
            WindowsOsInfo { kernel_info: Some(kernel), ..self }
        } else {
            self
        }
    }

    /// The kernel of a session is located once: whatever is offered after
    /// the first kernel changes nothing.
    pub proof fn lemma_kernel_located_once(self, first: KernelInfo, second: KernelInfo)
        ensures
            self.with_kernel(first).kernel_info is Some,
            self.with_kernel(first).with_kernel(second) == self.with_kernel(first),
            self.kernel_info is None ==> self.with_kernel(first).kernel_info == Some(first),
    {
    }

    /// A refresh leaves the kernel of the session as it is.
    pub proof fn lemma_refresh_keeps_kernel(
        self,
        before: WindowsOsInfo,
        processor_nr: i32,
        process: Process,
        modules: Vec<Module>,
    )
        requires
            self.refreshed_from(before, processor_nr, process, modules),
        ensures
            self.kernel_info == before.kernel_info,
    {
    }

    /// Introspection only moves forward: locating the kernel leaves no
    /// processor uninitialised, and a refresh with a located kernel makes its
    /// processor active and leaves every other processor where it was.
    pub proof fn lemma_states_advance(
        self,
        before: WindowsOsInfo,
        kernel: KernelInfo,
        processor_nr: i32,
        other: i32,
        process: Process,
        modules: Vec<Module>,
    )
        requires
            self.refreshed_from(before, processor_nr, process, modules),
            before.kernel_info is Some,
            other != processor_nr,
        ensures
            before.with_kernel(kernel).spec_state(other) == before.spec_state(other),
            self.spec_state(processor_nr) == RefreshState::Active,
            self.spec_state(other) == before.spec_state(other),
    {
    }

    /// In well-formed information no index of any processor holds two
    /// entries with the same range.
    pub proof fn lemma_index_ranges_distinct(self, processor_nr: i32)
        requires
            self.wf(),
            self.symbol_lookup_trees@.contains_key(processor_nr),
        ensures
            distinct_ranges(self.symbol_lookup_trees@[processor_nr]@),
    {
        self.symbol_lookup_trees@[processor_nr].lemma_distinct();
    }

    /// A refresh replaces the index of its processor as a whole: the new
    /// index is a function of what was enumerated and of the names known to
    /// lack debug information, whatever the old index held.
    pub proof fn lemma_refresh_replaces_index(
        self,
        other: WindowsOsInfo,
        before: WindowsOsInfo,
        other_before: WindowsOsInfo,
        processor_nr: i32,
        process: Process,
        modules: Vec<Module>,
    )
        requires
            self.refreshed_from(before, processor_nr, process, modules),
            other.refreshed_from(other_before, processor_nr, process, modules),
            before.not_found_full_name_cache@ == other_before.not_found_full_name_cache@,
        ensures
            self.symbol_lookup_trees@[processor_nr]@ == other.symbol_lookup_trees@[processor_nr]@,
    {
    }

    /// Whether the kernel still has to be located: only as long as none is
    /// known.
    pub fn kernel_needed(&self) -> (needed: bool)
        ensures
            needed == (self.kernel_info is None),
    {
        self.kernel_info.is_none()
    }

    /// Records the kernel of the session. The first kernel stays: where one
    /// is known already, the call changes nothing and returns `false`.
    pub fn locate_kernel(&mut self, kernel: KernelInfo) -> (recorded: bool)
        ensures
            recorded == (old(self).kernel_info is None),
            *final(self) == old(self).with_kernel(kernel),
    {
        if self.kernel_info.is_none() {
            self.kernel_info = Some(kernel);
            true
        } else {
            false
        }
    }

    /// Whether `self` is what `before` becomes by a refresh of one processor
    /// from `process` and `modules`: the kernel, the set of names and the
    /// callbacks stay; the processor's process, modules and index are
    /// replaced; no other processor's are touched. The new index is well
    /// formed and holds the intervals of the kernel's modules, then those of
    /// the process's modules, of several with the same range the first.
    pub open spec fn refreshed_from(
        &self,
        before: WindowsOsInfo,
        processor_nr: i32,
        process: Process,
        modules: Vec<Module>,
    ) -> bool {
        &&& self.kernel_info == before.kernel_info
        &&& self.not_found_full_name_cache == before.not_found_full_name_cache
        &&& self.resolved_symbols == before.resolved_symbols
        &&& self.instruction_callbacks == before.instruction_callbacks
        &&& self.processes@ == before.processes@.insert(processor_nr, process)
        &&& self.modules@ == before.modules@.insert(processor_nr, modules)
        &&& self.symbol_lookup_trees@.dom() == before.symbol_lookup_trees@.dom().insert(
            processor_nr,
        )
        &&& forall|other: i32|
            other != processor_nr && before.symbol_lookup_trees@.contains_key(other)
                ==> #[trigger] self.symbol_lookup_trees@[other]
                == before.symbol_lookup_trees@[other]
        &&& self.symbol_lookup_trees@[processor_nr].wf()
        &&& self.symbol_lookup_trees@[processor_nr]@ == refresh_entries(
            modules_view(modules@),
            process@.modules,
            before.not_found_full_name_cache@,
        )
        &&& distinct_ranges(self.symbol_lookup_trees@[processor_nr]@)
    }

    /// Decides what to do for a module whose debug information is wanted:
    /// nothing where the module is known to have none or its symbols are at
    /// hand, a lookup otherwise.
    pub fn plan_resolution(&self, full_name: &String, hash: u64) -> (plan: ResolutionPlan)
        ensures
            plan == plan_for(
                self.not_found_full_name_cache@,
                self.resolved_symbols@,
                full_name@,
                hash,
            ),
    {
        crate::resolver::plan_resolution(
            &self.not_found_full_name_cache,
            &self.resolved_symbols,
            full_name,
            hash,
        )
    }

    /// Settles the debug information of a module, where `found` is what a
    /// lookup gave. A module known to have none has none, whatever `found`
    /// holds. A lookup that was due and found nothing is remembered by the
    /// module's full name, one that found symbols by the module's identity.
    pub fn resolve(&mut self, full_name: &String, hash: u64, found: Option<Vec<SymbolInfo>>) -> (debug_info:
        Option<Vec<SymbolInfo>>)
        ensures
            found_view(debug_info) == resolution(
                old(self).not_found_full_name_cache@,
                old(self).resolved_symbols@,
                full_name@,
                hash,
                found_view(found),
            ),
            final(self).not_found_full_name_cache@ == not_found_after(
                old(self).not_found_full_name_cache@,
                old(self).resolved_symbols@,
                full_name@,
                hash,
                found_view(found),
            ),
            final(self).resolved_symbols@ == resolved_after(
                old(self).not_found_full_name_cache@,
                old(self).resolved_symbols@,
                full_name@,
                hash,
                found_view(found),
            ),
            final(self).kernel_info == old(self).kernel_info,
            final(self).processes == old(self).processes,
            final(self).modules == old(self).modules,
            final(self).symbol_lookup_trees == old(self).symbol_lookup_trees,
            final(self).instruction_callbacks == old(self).instruction_callbacks,
            old(self).wf() ==> final(self).wf(),
            plan_for(
                old(self).not_found_full_name_cache@,
                old(self).resolved_symbols@,
                full_name@,
                hash,
            ) != ResolutionPlan::Lookup ==> *final(self) == *old(self),
    {
        crate::resolver::resolve(
            &mut self.not_found_full_name_cache,
            &mut self.resolved_symbols,
            full_name,
            hash,
            found,
        )
    }

    /// Refreshes what is known for one virtual processor from what the host
    /// enumerated for it: the process it runs and the kernel's modules, each
    /// `None` where the root of its list could not be read.
    ///
    /// The refresh needs a located kernel and both lists; without one of
    /// them it fails and changes nothing. Otherwise the processor's process,
    /// modules and index are replaced as a whole, and the symbols of the new
    /// index are registered in `coverage`. A module whose full name is known
    /// to lack debug information brings no symbol, whatever it carries.
    pub fn collect(
        &mut self,
        processor_nr: i32,
        process: Option<Process>,
        modules: Option<Vec<Module>>,
        coverage: &mut CoverageRecords,
    ) -> (result: Result<(), OsInfoError>)
        ensures
            result is Ok <==> old(self).kernel_info is Some && process is Some && modules is Some,
            old(self).wf() ==> final(self).wf(),
            match result {
                Ok(()) => {
                    &&& final(self).refreshed_from(*old(self), processor_nr, process->0, modules->0)
                    &&& final(coverage).wf()
                    &&& final(coverage)@ == register_entries(
                        old(coverage)@,
                        refresh_entries(
                            modules_view(modules->0@),
                            process->0@.modules,
                            old(self).not_found_full_name_cache@,
                        ),
                    )
                },
                Err(error) => {
                    &&& error == OsInfoError::EnumerationError
                    &&& *final(self) == *old(self)
                    &&& *final(coverage) == *old(coverage)
                },
            },
    {
        if self.kernel_info.is_none() {
            return Err(OsInfoError::EnumerationError);
        }
        let (process, modules) = match (process, modules) {
            (Some(process), Some(modules)) => (process, modules),
            _ => {
                return Err(OsInfoError::EnumerationError);
            },
        };
        let mut elements: Vec<IntervalEntry> = Vec::new();
        place_modules(&modules, &self.not_found_full_name_cache, &mut elements);
        place_modules(&process.modules, &self.not_found_full_name_cache, &mut elements);
        let index = SymbolIndex::build(elements);
        coverage.accumulate(index.entries());
        proof {
            assert(index@ =~= refresh_entries(
                modules_view(modules@),
                process@.modules,
                self.not_found_full_name_cache@,
            ));
        }
        self.processes.insert(processor_nr, process);
        self.modules.insert(processor_nr, modules);
        self.symbol_lookup_trees.insert(processor_nr, index);
        Ok(())
    }

    /// The symbol at `address` as the processor's index knows it; none where
    /// the address is unresolved: where the processor has no index, or no
    /// entry of its index contains the address.
    pub fn lookup(&self, processor_nr: i32, address: u64) -> (hit: Option<&IntervalEntry>)
        ensures
            match hit {
                Some(entry) => {
                    &&& self.symbol_lookup_trees@.contains_key(processor_nr)
                    &&& self.symbol_lookup_trees@[processor_nr]@.contains(entry@)
                    &&& entry.start <= address < entry.end
                },
                None => self.symbol_lookup_trees@.contains_key(processor_nr) ==> forall|i: int|
                    0 <= i < self.symbol_lookup_trees@[processor_nr]@.len() ==> !((
                    #[trigger] self.symbol_lookup_trees@[processor_nr]@[i]).start <= address
                        < self.symbol_lookup_trees@[processor_nr]@[i].end),
            },
    {
        match self.symbol_lookup_trees.get(&processor_nr) {
            Some(index) => index.lookup(address),
            None => None,
        }
    }
}

} // verus!
