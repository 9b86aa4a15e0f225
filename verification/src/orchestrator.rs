//! When to refresh: on a write of a new value to a processor's address-space
//! register, and only then.

use crate::coverage::register_entries;
use crate::coverage::CoverageRecordView;
use crate::coverage::CoverageRecords;
use crate::error::OsInfoError;
use crate::interval_index::SymbolIndex;
use crate::os_info::refresh_entries;
use crate::os_info::WindowsOsInfo;
use crate::symbols::modules_view;
use crate::symbols::Module;
use crate::symbols::Process;
use std::collections::HashMap;
use std::collections::HashSet;
use vstd::prelude::*;

verus! {

broadcast use vstd::std_specs::hash::group_hash_axioms;

/// The state of a session that the refresh of Windows information reads and
/// writes.
#[derive(Debug)]
pub struct Tsffs {
    /// The virtual processors of the session, by number.
    pub processors: HashSet<i32>,
    /// Whether coverage is collected at all.
    pub coverage_enabled: bool,
    /// Whether the guest is taken for a Windows guest.
    pub windows: bool,
    /// Whether coverage is attributed to symbols and source lines.
    pub symbolic_coverage: bool,
    /// The value last seen in the address-space register of each processor.
    pub cr3_cache: HashMap<i32, i64>,
    /// What is known of the guest's operating system.
    pub windows_os_info: WindowsOsInfo,
    /// The coverage record of the session.
    pub coverage: CoverageRecords,
}

impl Tsffs {
    /// The state of a session that knows no processor and nothing of the
    /// guest yet.
    pub fn new(coverage_enabled: bool, windows: bool, symbolic_coverage: bool) -> (state: Tsffs)
        ensures
            state.processors@ == Set::<i32>::empty(),
            state.coverage_enabled == coverage_enabled,
            state.windows == windows,
            state.symbolic_coverage == symbolic_coverage,
            state.cr3_cache@ == Map::<i32, i64>::empty(),
            state.windows_os_info.kernel_info is None,
            state.windows_os_info.symbol_lookup_trees@ == Map::<i32, SymbolIndex>::empty(),
            state.windows_os_info.not_found_full_name_cache@ == Set::<Seq<char>>::empty(),
            state.windows_os_info.wf(),
            state.coverage@ == Map::<Seq<char>, CoverageRecordView>::empty(),
    {
        Tsffs {
            processors: HashSet::new(),
            coverage_enabled,
            windows,
            symbolic_coverage,
            cr3_cache: HashMap::new(),
            windows_os_info: WindowsOsInfo::default(),
            coverage: CoverageRecords::new(),
        }
    }

    /// Whether a write of `value` to register `register_nr` of a processor
    /// calls for a refresh: symbolic coverage of a Windows guest is on, the
    /// processor is known, the register is the address-space register, and
    /// the value differs from the one last seen for that processor.
    pub open spec fn refresh_due(
        &self,
        processor_nr: i32,
        register_nr: i64,
        cr3_register_nr: i64,
        value: i64,
    ) -> bool {
        &&& self.processors@.contains(processor_nr)
        &&& self.coverage_enabled
        &&& self.windows
        &&& self.symbolic_coverage
        &&& register_nr == cr3_register_nr
        &&& self.cr3_cache@.contains_key(processor_nr)
        &&& self.cr3_cache@[processor_nr] != value
    }

    /// Decides whether a register write calls for a refresh.
    pub fn refresh_needed(
        &self,
        processor_nr: i32,
        register_nr: i64,
        cr3_register_nr: i64,
        value: i64,
    ) -> (needed: bool)
        ensures
            needed == self.refresh_due(processor_nr, register_nr, cr3_register_nr, value),
    {
        if !(self.processors.contains(&processor_nr) && self.coverage_enabled && self.windows
            && self.symbolic_coverage && register_nr == cr3_register_nr) {
            return false;
        }
        match self.cr3_cache.get(&processor_nr) {
            Some(seen) => *seen != value,
            None => false,
        }
    }

    /// Whether `after` and `result` are what handling a register write
    /// makes of `self`. A write that does not call for a refresh changes
    /// nothing and succeeds. One that does refreshes the processor from what
    /// was enumerated: with a located kernel and both lists the refresh
    /// succeeds, the processor's information and the coverage record are
    /// brought up to date and the value is remembered for the processor;
    /// else it fails and nothing changes.
    pub open spec fn write_handled(
        self,
        after: Tsffs,
        processor_nr: i32,
        register_nr: i64,
        cr3_register_nr: i64,
        value: i64,
        process: Option<Process>,
        modules: Option<Vec<Module>>,
        result: Result<(), OsInfoError>,
    ) -> bool {
        if !self.refresh_due(processor_nr, register_nr, cr3_register_nr, value) {
            result is Ok && after == self
        } else if self.windows_os_info.kernel_info is Some && process is Some && modules is Some {
            &&& result is Ok
            &&& after.processors == self.processors
            &&& after.coverage_enabled == self.coverage_enabled
            &&& after.windows == self.windows
            &&& after.symbolic_coverage == self.symbolic_coverage
            &&& after.cr3_cache@ == self.cr3_cache@.insert(processor_nr, value)
            &&& after.windows_os_info.refreshed_from(
                self.windows_os_info,
                processor_nr,
                process->0,
                modules->0,
            )
            &&& after.coverage.wf()
            &&& after.coverage@ == register_entries(
                self.coverage@,
                refresh_entries(
                    modules_view(modules->0@),
                    process->0@.modules,
                    self.windows_os_info.not_found_full_name_cache@,
                ),
            )
        } else {
            result == Err::<(), OsInfoError>(OsInfoError::EnumerationError) && after == self
        }
    }

    /// A write of the value that the last refresh of a processor remembered
    /// does not call for a refresh, whatever the register.
    pub proof fn lemma_seen_value_is_not_due(
        self,
        processor_nr: i32,
        register_nr: i64,
        cr3_register_nr: i64,
        value: i64,
    )
        requires
            self.cr3_cache@.contains_key(processor_nr),
            self.cr3_cache@[processor_nr] == value,
        ensures
            !self.refresh_due(processor_nr, register_nr, cr3_register_nr, value),
    {
    }

    /// Writing the same value again is a no-op: after a write that refreshed
    /// a processor, a second write of that value to the processor succeeds
    /// and changes nothing, whatever the host enumerated for it.
    pub proof fn lemma_repeated_write_changes_nothing(
        self,
        refreshed: Tsffs,
        repeated: Tsffs,
        processor_nr: i32,
        register_nr: i64,
        cr3_register_nr: i64,
        value: i64,
        process: Option<Process>,
        modules: Option<Vec<Module>>,
        second_register_nr: i64,
        second_process: Option<Process>,
        second_modules: Option<Vec<Module>>,
        second_result: Result<(), OsInfoError>,
    )
        requires
            self.refresh_due(processor_nr, register_nr, cr3_register_nr, value),
            self.write_handled(
                refreshed,
                processor_nr,
                register_nr,
                cr3_register_nr,
                value,
                process,
                modules,
                Ok(()),
            ),
            refreshed.write_handled(
                repeated,
                processor_nr,
                second_register_nr,
                cr3_register_nr,
                value,
                second_process,
                second_modules,
                second_result,
            ),
        ensures
            second_result is Ok,
            repeated == refreshed,
    {
    }

    /// Handles a write to a control register of a processor. `process` and
    /// `modules` are what the host enumerated for the processor after the
    /// write, each `None` where the root of its list could not be read; they
    /// are not read where the write does not call for a refresh.
    pub fn on_control_register_write_windows_symcov(
        &mut self,
        processor_nr: i32,
        register_nr: i64,
        cr3_register_nr: i64,
        value: i64,
        process: Option<Process>,
        modules: Option<Vec<Module>>,
    ) -> (result: Result<(), OsInfoError>)
        ensures
            old(self).write_handled(
                *final(self),
                processor_nr,
                register_nr,
                cr3_register_nr,
                value,
                process,
                modules,
                result,
            ),
            old(self).windows_os_info.wf() ==> final(self).windows_os_info.wf(),
    {
        if !self.refresh_needed(processor_nr, register_nr, cr3_register_nr, value) {
            return Ok(());
        }
        match self.windows_os_info.collect(processor_nr, process, modules, &mut self.coverage) {
            Ok(()) => {
                self.cr3_cache.insert(processor_nr, value);
                Ok(())
            },
            Err(error) => Err(error),
        }
    }
}

} // verus!
