//! The coverage record: for each source file the lines and the functions that
//! are known to exist in it. It only grows.

use crate::interval_index::entries_view;
use crate::interval_index::IntervalEntry;
use crate::interval_index::IntervalEntryView;
use crate::symbols::LineInfoView;
use crate::symbols::SymbolInfo;
use crate::symbols::SymbolInfoView;
use std::collections::HashSet;
use vstd::prelude::*;

verus! {

broadcast use vstd::std_specs::hash::group_hash_axioms;

/// A function of a source file.
#[derive(Debug, PartialEq, Eq)]
pub struct FunctionEntry {
    /// The line on which the function starts.
    pub start_line: u32,
    /// The line on which the function ends, where it is known.
    pub end_line: Option<u32>,
    /// The function's name.
    pub name: String,
}

/// The mathematical value of a [`FunctionEntry`].
pub struct FunctionEntryView {
    pub start_line: u32,
    pub end_line: Option<u32>,
    pub name: Seq<char>,
}

impl View for FunctionEntry {
    type V = FunctionEntryView;

    open spec fn view(&self) -> FunctionEntryView {
        FunctionEntryView {
            start_line: self.start_line,
            end_line: self.end_line,
            name: self.name@,
        }
    }
}

/// The values of a run of function entries.
pub open spec fn functions_view(functions: Seq<FunctionEntry>) -> Seq<FunctionEntryView> {
    Seq::new(functions.len(), |i: int| functions[i]@)
}

/// The mathematical value of a [`CoverageRecord`]: two sets.
pub struct CoverageRecordView {
    pub lines: Set<u32>,
    pub functions: Set<FunctionEntryView>,
}

/// The record of a file of which nothing is known yet.
pub open spec fn empty_record() -> CoverageRecordView {
    CoverageRecordView { lines: Set::empty(), functions: Set::empty() }
}

/// The lines from `start` to `end`, both included.
pub open spec fn line_span(start: u32, end: u32) -> Set<u32> {
    Set::new(|line: u32| start <= line <= end)
}

/// What is known of one source file.
#[derive(Debug)]
pub struct CoverageRecord {
    lines: HashSet<u32>,
    functions: Vec<FunctionEntry>,
}

impl View for CoverageRecord {
    type V = CoverageRecordView;

    closed spec fn view(&self) -> CoverageRecordView {
        CoverageRecordView {
            lines: self.lines@,
            functions: functions_view(self.functions@).to_set(),
        }
    }
}

impl CoverageRecord {
    /// No function is stored twice.
    #[verifier::type_invariant]
    pub closed spec fn wf(&self) -> bool {
        functions_view(self.functions@).no_duplicates()
    }

    /// The record of a file of which nothing is known yet.
    pub fn new() -> (record: CoverageRecord)
        ensures
            record.wf(),
            record@ == empty_record(),
    {
        let record = CoverageRecord { lines: HashSet::new(), functions: Vec::new() };
        assert(record@.functions =~= Set::<FunctionEntryView>::empty());
        record
    }

    /// Whether `line` is registered.
    pub fn has_line(&self, line: u32) -> (found: bool)
        ensures
            found == self@.lines.contains(line),
    {
        self.lines.contains(&line)
    }

    /// Whether the function with these lines and this name is registered.
    pub fn has_function(&self, start_line: u32, end_line: Option<u32>, name: &String) -> (found:
        bool)
        ensures
            found == self@.functions.contains(
                FunctionEntryView { start_line, end_line, name: name@ },
            ),
    {
        let ghost wanted = FunctionEntryView { start_line, end_line, name: name@ };
        let mut i: usize = 0;
        while i < self.functions.len()
            invariant
                i <= self.functions.len(),
                wanted == (FunctionEntryView { start_line, end_line, name: name@ }),
                forall|j: int| 0 <= j < i ==> self.functions[j]@ != wanted,
            decreases self.functions.len() - i,
        {
            let entry = &self.functions[i];
            let same_end = match (entry.end_line, end_line) {
                (Some(a), Some(b)) => a == b,
                (None, None) => true,
                _ => false,
            };
            if entry.start_line == start_line && same_end && entry.name == *name {
                assert(functions_view(self.functions@)[i as int] == wanted);
                return true;
            }
            i += 1;
        }
        proof {
            if functions_view(self.functions@).contains(wanted) {
                let j = choose|j: int|
                    0 <= j < self.functions.len() && functions_view(self.functions@)[j] == wanted;
                assert(self.functions[j]@ == wanted);
            }
        }
        false
    }

    /// Registers a function unless it is registered already. Returns whether
    /// it was new.
    pub fn add_function_if_not_exists(
        &mut self,
        start_line: u32,
        end_line: Option<u32>,
        name: &String,
    ) -> (added: bool)
        ensures
            final(self).wf(),
            final(self)@.functions == old(self)@.functions.insert(
                FunctionEntryView { start_line, end_line, name: name@ },
            ),
            final(self)@.lines == old(self)@.lines,
            added == !old(self)@.functions.contains(
                FunctionEntryView { start_line, end_line, name: name@ },
            ),
            !added ==> *final(self) == *old(self),
    {
        proof {
            use_type_invariant(&*self);
        }
        let ghost wanted = FunctionEntryView { start_line, end_line, name: name@ };
        if self.has_function(start_line, end_line, name) {
            assert(self@.functions.insert(wanted) =~= self@.functions);
            false
        } else {
            let ghost before = functions_view(self.functions@);
            let mut functions: Vec<FunctionEntry> = Vec::new();
            std::mem::swap(&mut functions, &mut self.functions);
            functions.push(FunctionEntry { start_line, end_line, name: name.clone() });
            proof {
                assert(functions_view(functions@) =~= before.push(wanted));
                before.lemma_push_to_set_commute(wanted);
            }
            std::mem::swap(&mut functions, &mut self.functions);
            true
        }
    }

    /// Registers a line unless it is registered already. Returns whether it
    /// was new.
    pub fn add_line_if_not_exists(&mut self, line: u32) -> (added: bool)
        ensures
            final(self).wf(),
            final(self)@.lines == old(self)@.lines.insert(line),
            final(self)@.functions == old(self)@.functions,
            added == !old(self)@.lines.contains(line),
    {
        proof {
            use_type_invariant(&*self);
        }
        let mut lines: HashSet<u32> = HashSet::new();
        std::mem::swap(&mut lines, &mut self.lines);
        let added = lines.insert(line);
        std::mem::swap(&mut lines, &mut self.lines);
        added
    }

    /// Registers every line from `start` to `end`, both included; none where
    /// `start` lies after `end`.
    pub fn add_lines(&mut self, start: u32, end: u32)
        ensures
            final(self).wf(),
            final(self)@.lines == old(self)@.lines.union(line_span(start, end)),
            final(self)@.functions == old(self)@.functions,
    {
        proof {
            use_type_invariant(&*self);
        }
        if start > end {
            assert(self@.lines.union(line_span(start, end)) =~= self@.lines);
            return ;
        }
        let mut line: u32 = start;
        self.add_line_if_not_exists(line);
        assert(self@.lines =~= old(self)@.lines.union(line_span(start, line)));
        while line < end
            invariant
                start <= line <= end,
                self.wf(),
                self@.lines == old(self)@.lines.union(line_span(start, line)),
                self@.functions == old(self)@.functions,
            decreases end - line,
        {
            line += 1;
            self.add_line_if_not_exists(line);
            assert(self@.lines =~= old(self)@.lines.union(line_span(start, line)));
        }
    }

    /// The number of registered lines.
    pub fn line_count(&self) -> (n: usize)
        ensures
            n == self@.lines.len(),
    {
        self.lines.len()
    }

    /// The number of registered functions.
    pub fn function_count(&self) -> (n: usize)
        ensures
            n == self@.functions.len(),
    {
        proof {
            use_type_invariant(self);
            functions_view(self.functions@).unique_seq_to_set();
        }
        self.functions.len()
    }

    /// The registered functions, in the order in which they were registered.
    pub fn functions(&self) -> (functions: &Vec<FunctionEntry>)
        ensures
            functions_view(functions@).to_set() == self@.functions,
            functions_view(functions@).no_duplicates(),
    {
        proof {
            use_type_invariant(self);
        }
        &self.functions
    }
}

/// The record of `file` in `coverage`; the empty record where the file is not
/// known.
pub open spec fn record_of(
    coverage: Map<Seq<char>, CoverageRecordView>,
    file: Seq<char>,
) -> CoverageRecordView {
    if coverage.contains_key(file) {
        coverage[file]
    } else {
        empty_record()
    }
}

/// `coverage` after `line` of `file` was registered.
pub open spec fn register_line(
    coverage: Map<Seq<char>, CoverageRecordView>,
    file: Seq<char>,
    line: u32,
) -> Map<Seq<char>, CoverageRecordView> {
    coverage.insert(
        file,
        CoverageRecordView {
            lines: record_of(coverage, file).lines.insert(line),
            functions: record_of(coverage, file).functions,
        },
    )
}

/// `coverage` after `function` of `file` was registered.
pub open spec fn register_function(
    coverage: Map<Seq<char>, CoverageRecordView>,
    file: Seq<char>,
    function: FunctionEntryView,
) -> Map<Seq<char>, CoverageRecordView> {
    coverage.insert(
        file,
        CoverageRecordView {
            lines: record_of(coverage, file).lines,
            functions: record_of(coverage, file).functions.insert(function),
        },
    )
}

/// Every line that some entry of a line table spans.
pub open spec fn table_lines(lines: Seq<LineInfoView>) -> Set<u32> {
    Set::new(
        |line: u32|
            exists|k: int|
                0 <= k < lines.len() && (#[trigger] lines[k]).start_line <= line
                    <= lines[k].end_line,
    )
}

/// The function entry that a symbol with a line table stands for: it starts
/// where the first entry of the table starts and ends where the last ends.
pub open spec fn symbol_function(symbol: SymbolInfoView) -> FunctionEntryView {
    FunctionEntryView {
        start_line: symbol.lines.first().start_line,
        end_line: Some(symbol.lines.last().end_line),
        name: symbol.name,
    }
}

/// `coverage` after `symbol` was registered. A symbol without a line table
/// changes nothing. Any other belongs to the file of its table's first entry:
/// that file's record gains the symbol's function and every line of the table.
pub open spec fn register_symbol(
    coverage: Map<Seq<char>, CoverageRecordView>,
    symbol: SymbolInfoView,
) -> Map<Seq<char>, CoverageRecordView> {
    if symbol.lines.len() == 0 {
        coverage
    } else {
        let file = symbol.lines.first().file_path;
        coverage.insert(
            file,
            CoverageRecordView {
                lines: record_of(coverage, file).lines.union(table_lines(symbol.lines)),
                functions: record_of(coverage, file).functions.insert(symbol_function(symbol)),
            },
        )
    }
}

/// `coverage` after the symbols of `entries` were registered, one after the
/// other.
pub open spec fn register_entries(
    coverage: Map<Seq<char>, CoverageRecordView>,
    entries: Seq<IntervalEntryView>,
) -> Map<Seq<char>, CoverageRecordView>
    decreases entries.len(),
{
    if entries.len() == 0 {
        coverage
    } else {
        register_symbol(register_entries(coverage, entries.drop_last()), entries.last().symbol)
    }
}

/// Whether `larger` knows every file, line and function that `smaller` knows.
pub open spec fn includes(
    larger: Map<Seq<char>, CoverageRecordView>,
    smaller: Map<Seq<char>, CoverageRecordView>,
) -> bool {
    forall|file: Seq<char>| #[trigger]
        smaller.contains_key(file) ==> {
            &&& larger.contains_key(file)
            &&& smaller[file].lines.subset_of(larger[file].lines)
            &&& smaller[file].functions.subset_of(larger[file].functions)
        }
}

/// Whether `coverage` knows what `symbol` says of its source file.
pub open spec fn holds_symbol(
    coverage: Map<Seq<char>, CoverageRecordView>,
    symbol: SymbolInfoView,
) -> bool {
    symbol.lines.len() > 0 ==> {
        &&& coverage.contains_key(symbol.lines.first().file_path)
        &&& table_lines(symbol.lines).subset_of(coverage[symbol.lines.first().file_path].lines)
        &&& coverage[symbol.lines.first().file_path].functions.contains(symbol_function(symbol))
    }
}

/// Registering a line a second time changes nothing, and registering never
/// loses what was known.
pub proof fn lemma_register_line_twice(
    coverage: Map<Seq<char>, CoverageRecordView>,
    file: Seq<char>,
    line: u32,
)
    ensures
        register_line(register_line(coverage, file, line), file, line) == register_line(
            coverage,
            file,
            line,
        ),
        register_line(coverage, file, line)[file].lines.contains(line),
        includes(register_line(coverage, file, line), coverage),
{
    let once = register_line(coverage, file, line);
    assert(once[file].lines.insert(line) =~= once[file].lines);
    assert(register_line(once, file, line) =~= once);
}

/// Registering a function a second time changes nothing, and registering
/// never loses what was known.
pub proof fn lemma_register_function_twice(
    coverage: Map<Seq<char>, CoverageRecordView>,
    file: Seq<char>,
    function: FunctionEntryView,
)
    ensures
        register_function(register_function(coverage, file, function), file, function)
            == register_function(coverage, file, function),
        register_function(coverage, file, function)[file].functions.contains(function),
        includes(register_function(coverage, file, function), coverage),
{
    let once = register_function(coverage, file, function);
    assert(once[file].functions.insert(function) =~= once[file].functions);
    assert(register_function(once, file, function) =~= once);
}

/// Registering a symbol loses nothing, and afterwards the symbol is known.
pub proof fn lemma_register_symbol_grows(
    coverage: Map<Seq<char>, CoverageRecordView>,
    symbol: SymbolInfoView,
)
    ensures
        includes(register_symbol(coverage, symbol), coverage),
        holds_symbol(register_symbol(coverage, symbol), symbol),
{
}

/// Registering a symbol that is known changes nothing.
pub proof fn lemma_register_known_symbol(
    coverage: Map<Seq<char>, CoverageRecordView>,
    symbol: SymbolInfoView,
)
    requires
        holds_symbol(coverage, symbol),
    ensures
        register_symbol(coverage, symbol) == coverage,
{
    if symbol.lines.len() > 0 {
        let file = symbol.lines.first().file_path;
        assert(coverage[file].lines.union(table_lines(symbol.lines)) =~= coverage[file].lines);
        assert(coverage[file].functions.insert(symbol_function(symbol))
            =~= coverage[file].functions);
        assert(register_symbol(coverage, symbol) =~= coverage);
    }
}

/// A symbol that is known stays known when more is registered.
pub proof fn lemma_includes_holds(
    larger: Map<Seq<char>, CoverageRecordView>,
    smaller: Map<Seq<char>, CoverageRecordView>,
    symbol: SymbolInfoView,
)
    requires
        includes(larger, smaller),
        holds_symbol(smaller, symbol),
    ensures
        holds_symbol(larger, symbol),
{
    if symbol.lines.len() > 0 {
        assert(smaller.contains_key(symbol.lines.first().file_path));
    }
}

/// Registering entries loses nothing, and afterwards the symbol of every
/// entry is known.
pub proof fn lemma_register_entries_grows(
    coverage: Map<Seq<char>, CoverageRecordView>,
    entries: Seq<IntervalEntryView>,
)
    ensures
        includes(register_entries(coverage, entries), coverage),
        forall|i: int|
            0 <= i < entries.len() ==> holds_symbol(
                register_entries(coverage, entries),
                (#[trigger] entries[i]).symbol,
            ),
    decreases entries.len(),
{
    if entries.len() > 0 {
        let head = entries.drop_last();
        let middle = register_entries(coverage, head);
        let after = register_entries(coverage, entries);
        lemma_register_entries_grows(coverage, head);
        lemma_register_symbol_grows(middle, entries.last().symbol);
        assert(includes(after, coverage)) by {
            assert forall|file: Seq<char>| #[trigger] coverage.contains_key(file) implies {
                &&& after.contains_key(file)
                &&& coverage[file].lines.subset_of(after[file].lines)
                &&& coverage[file].functions.subset_of(after[file].functions)
            } by {
                assert(middle.contains_key(file));
            }
        }
        assert forall|i: int| 0 <= i < entries.len() implies holds_symbol(
            after,
            (#[trigger] entries[i]).symbol,
        ) by {
            if i < head.len() {
                assert(head[i] == entries[i]);
                lemma_includes_holds(after, middle, entries[i].symbol);
            }
        }
    }
}

/// Registering entries whose symbols are all known changes nothing.
pub proof fn lemma_register_known_entries(
    coverage: Map<Seq<char>, CoverageRecordView>,
    entries: Seq<IntervalEntryView>,
)
    requires
        forall|i: int|
            0 <= i < entries.len() ==> holds_symbol(coverage, (#[trigger] entries[i]).symbol),
    ensures
        register_entries(coverage, entries) == coverage,
    decreases entries.len(),
{
    if entries.len() > 0 {
        let head = entries.drop_last();
        assert forall|i: int| 0 <= i < head.len() implies holds_symbol(
            coverage,
            (#[trigger] head[i]).symbol,
        ) by {
            assert(head[i] == entries[i]);
        }
        lemma_register_known_entries(coverage, head);
        assert(holds_symbol(coverage, entries[entries.len() - 1].symbol));
        lemma_register_known_symbol(coverage, entries.last().symbol);
    }
}

/// Accumulating the same entries a second time changes nothing.
pub proof fn lemma_register_entries_twice(
    coverage: Map<Seq<char>, CoverageRecordView>,
    entries: Seq<IntervalEntryView>,
)
    ensures
        register_entries(register_entries(coverage, entries), entries) == register_entries(
            coverage,
            entries,
        ),
{
    lemma_register_entries_grows(coverage, entries);
    lemma_register_known_entries(register_entries(coverage, entries), entries);
}

/// A source file with its record.
#[derive(Debug)]
pub struct FileCoverage {
    path: String,
    record: CoverageRecord,
}

impl FileCoverage {
    /// The file's path.
    pub closed spec fn spec_path(&self) -> Seq<char> {
        self.path@
    }

    /// The value of the file's record.
    pub closed spec fn spec_record(&self) -> CoverageRecordView {
        self.record@
    }

    /// The file's path.
    pub fn path(&self) -> (path: &String)
        ensures
            path@ == self.spec_path(),
    {
        &self.path
    }

    /// The file's record.
    pub fn record(&self) -> (record: &CoverageRecord)
        ensures
            record@ == self.spec_record(),
    {
        &self.record
    }
}

/// The paths of a run of files.
pub open spec fn file_paths(files: Seq<FileCoverage>) -> Seq<Seq<char>> {
    Seq::new(files.len(), |i: int| files[i].spec_path())
}

/// The map from each path of `files` to the record that stands with it.
pub open spec fn files_map(files: Seq<FileCoverage>) -> Map<Seq<char>, CoverageRecordView> {
    Map::new(
        |path: Seq<char>| file_paths(files).contains(path),
        |path: Seq<char>| files[file_paths(files).index_of(path)].spec_record(),
    )
}

proof fn lemma_files_map_at(files: Seq<FileCoverage>, i: int)
    requires
        file_paths(files).no_duplicates(),
        0 <= i < files.len(),
    ensures
        files_map(files).contains_key(files[i].spec_path()),
        files_map(files)[files[i].spec_path()] == files[i].spec_record(),
{
    let paths = file_paths(files);
    assert(paths[i] == files[i].spec_path());
    let k = paths.index_of(paths[i]);
    assert(k == i);
}

/// The coverage record of a session: what is known of each source file.
#[derive(Debug)]
pub struct CoverageRecords {
    files: Vec<FileCoverage>,
}

impl View for CoverageRecords {
    type V = Map<Seq<char>, CoverageRecordView>;

    closed spec fn view(&self) -> Map<Seq<char>, CoverageRecordView> {
        files_map(self.files@)
    }
}

/// The place of `path` among `files`, which gain an empty record for it where
/// they have none.
fn slot_for(files: &mut Vec<FileCoverage>, path: &String) -> (slot: usize)
    requires
        file_paths(old(files)@).no_duplicates(),
    ensures
        file_paths(final(files)@).no_duplicates(),
        slot < final(files).len(),
        final(files)[slot as int].spec_path() == path@,
        final(files)[slot as int].spec_record() == record_of(files_map(old(files)@), path@),
        files_map(final(files)@) == files_map(old(files)@).insert(
            path@,
            record_of(files_map(old(files)@), path@),
        ),
{
    let mut i: usize = 0;
    while i < files.len()
        invariant
            i <= files.len(),
            *files == *old(files),
            file_paths(files@).no_duplicates(),
            forall|j: int| 0 <= j < i ==> files[j].spec_path() != path@,
        decreases files.len() - i,
    {
        if files[i].path == *path {
            proof {
                lemma_files_map_at(files@, i as int);
                assert(files_map(files@).insert(path@, record_of(files_map(files@), path@))
                    =~= files_map(files@));
            }
            return i;
        }
        i += 1;
    }
    let ghost before = files@;
    proof {
        if file_paths(before).contains(path@) {
            let j = choose|j: int| 0 <= j < before.len() && file_paths(before)[j] == path@;
            assert(before[j].spec_path() == path@);
        }
    }
    files.push(FileCoverage { path: path.clone(), record: CoverageRecord::new() });
    proof {
        let after = files@;
        assert(file_paths(after) =~= file_paths(before).push(path@));
        assert(file_paths(after).no_duplicates());
        assert forall|p: Seq<char>| #[trigger]
            files_map(after).contains_key(p) == files_map(before).insert(
                path@,
                empty_record(),
            ).contains_key(p) by {
            if file_paths(before).contains(p) {
                let j = choose|j: int| 0 <= j < before.len() && file_paths(before)[j] == p;
                assert(file_paths(after)[j] == p);
            }
            if p == path@ {
                assert(file_paths(after)[before.len() as int] == p);
            }
            if file_paths(after).contains(p) {
                let j = choose|j: int| 0 <= j < after.len() && file_paths(after)[j] == p;
                if j < before.len() {
                    assert(file_paths(before)[j] == p);
                }
            }
        }
        assert forall|p: Seq<char>| #[trigger] files_map(after).contains_key(p) implies files_map(
            after,
        )[p] == files_map(before).insert(path@, empty_record())[p] by {
            let j = choose|j: int| 0 <= j < after.len() && file_paths(after)[j] == p;
            lemma_files_map_at(after, j);
            if j < before.len() {
                assert(before[j].spec_path() == p);
                lemma_files_map_at(before, j);
            }
        }
        assert(files_map(after) =~= files_map(before).insert(path@, empty_record()));
        lemma_files_map_at(after, before.len() as int);
    }
    files.len() - 1
}

/// Replacing the record in one place of `files` replaces the record of that
/// place's path in the map, and nothing else.
proof fn lemma_files_map_update(before: Seq<FileCoverage>, after: Seq<FileCoverage>, slot: int)
    requires
        file_paths(before).no_duplicates(),
        0 <= slot < before.len(),
        after.len() == before.len(),
        forall|j: int| 0 <= j < before.len() ==> after[j].spec_path() == before[j].spec_path(),
        forall|j: int|
            0 <= j < before.len() && j != slot ==> after[j].spec_record()
                == before[j].spec_record(),
    ensures
        file_paths(after).no_duplicates(),
        files_map(after) == files_map(before).insert(
            before[slot].spec_path(),
            after[slot].spec_record(),
        ),
{
    assert(file_paths(after) =~= file_paths(before));
    assert forall|p: Seq<char>| #[trigger] files_map(after).contains_key(p) implies files_map(
        after,
    )[p] == files_map(before).insert(before[slot].spec_path(), after[slot].spec_record())[p] by {
        let j = choose|j: int| 0 <= j < after.len() && file_paths(after)[j] == p;
        lemma_files_map_at(after, j);
        lemma_files_map_at(before, j);
        if j != slot {
            assert(file_paths(before)[j] != file_paths(before)[slot]);
        }
    }
    assert(file_paths(before)[slot] == before[slot].spec_path());
    assert(files_map(after) =~= files_map(before).insert(
        before[slot].spec_path(),
        after[slot].spec_record(),
    ));
}

impl CoverageRecords {
    /// No file is stored twice.
    #[verifier::type_invariant]
    pub closed spec fn wf(&self) -> bool {
        file_paths(self.files@).no_duplicates()
    }

    /// The record in which nothing is known of any file.
    pub fn new() -> (coverage: CoverageRecords)
        ensures
            coverage.wf(),
            coverage@ == Map::<Seq<char>, CoverageRecordView>::empty(),
    {
        let coverage = CoverageRecords { files: Vec::new() };
        assert(coverage@ =~= Map::<Seq<char>, CoverageRecordView>::empty());
        coverage
    }

    /// The record of the file `path`, where the file is known.
    pub fn get(&self, path: &String) -> (record: Option<&CoverageRecord>)
        ensures
            match record {
                Some(record) => self@.contains_key(path@) && record@ == self@[path@],
                None => !self@.contains_key(path@),
            },
    {
        proof {
            use_type_invariant(self);
        }
        let mut i: usize = 0;
        while i < self.files.len()
            invariant
                i <= self.files.len(),
                file_paths(self.files@).no_duplicates(),
                forall|j: int| 0 <= j < i ==> self.files[j].spec_path() != path@,
            decreases self.files.len() - i,
        {
            if self.files[i].path == *path {
                proof {
                    lemma_files_map_at(self.files@, i as int);
                }
                return Some(&self.files[i].record);
            }
            i += 1;
        }
        proof {
            if file_paths(self.files@).contains(path@) {
                let j = choose|j: int|
                    0 <= j < self.files.len() && file_paths(self.files@)[j] == path@;
                assert(self.files[j].spec_path() == path@);
            }
        }
        None
    }

    /// The known files with their records, in the order in which the files
    /// became known.
    pub fn files(&self) -> (files: &Vec<FileCoverage>)
        ensures
            files_map(files@) == self@,
            file_paths(files@).no_duplicates(),
    {
        proof {
            use_type_invariant(self);
        }
        &self.files
    }

    /// Registers a line of a file unless it is registered already. Returns
    /// whether it was new.
    pub fn add_line_if_not_exists(&mut self, path: &String, line: u32) -> (added: bool)
        ensures
            final(self).wf(),
            final(self)@ == register_line(old(self)@, path@, line),
            added == !record_of(old(self)@, path@).lines.contains(line),
    {
        proof {
            use_type_invariant(&*self);
        }
        let mut files: Vec<FileCoverage> = Vec::new();
        std::mem::swap(&mut files, &mut self.files);
        let slot = slot_for(&mut files, path);
        let ghost before = files@;
        let added = files[slot].record.add_line_if_not_exists(line);
        proof {
            lemma_files_map_update(before, files@, slot as int);
        }
        std::mem::swap(&mut files, &mut self.files);
        added
    }

    /// Registers a function of a file unless it is registered already.
    /// Returns whether it was new.
    pub fn add_function_if_not_exists(
        &mut self,
        path: &String,
        start_line: u32,
        end_line: Option<u32>,
        name: &String,
    ) -> (added: bool)
        ensures
            final(self).wf(),
            final(self)@ == register_function(
                old(self)@,
                path@,
                FunctionEntryView { start_line, end_line, name: name@ },
            ),
            added == !record_of(old(self)@, path@).functions.contains(
                FunctionEntryView { start_line, end_line, name: name@ },
            ),
    {
        proof {
            use_type_invariant(&*self);
        }
        let mut files: Vec<FileCoverage> = Vec::new();
        std::mem::swap(&mut files, &mut self.files);
        let slot = slot_for(&mut files, path);
        let ghost before = files@;
        let added = files[slot].record.add_function_if_not_exists(start_line, end_line, name);
        proof {
            lemma_files_map_update(before, files@, slot as int);
        }
        std::mem::swap(&mut files, &mut self.files);
        added
    }

    /// Registers what `symbol` says of its source file: its function, and
    /// every line of its line table.
    pub fn register_symbol(&mut self, symbol: &SymbolInfo)
        ensures
            final(self).wf(),
            final(self)@ == register_symbol(old(self)@, symbol@),
    {
        proof {
            use_type_invariant(&*self);
        }
        let count = symbol.lines.len();
        if count == 0 {
            return ;
        }
        let ghost table = symbol@.lines;
        let first = &symbol.lines[0];
        let last = &symbol.lines[count - 1];
        assert(table.first() == first@ && table.last() == last@);
        let mut files: Vec<FileCoverage> = Vec::new();
        std::mem::swap(&mut files, &mut self.files);
        let slot = slot_for(&mut files, &first.file_path);
        let ghost before = files@;
        files[slot].record.add_function_if_not_exists(
            first.start_line,
            Some(last.end_line),
            &symbol.name,
        );
        assert(table_lines(table.subrange(0, 0)) =~= Set::<u32>::empty());
        assert(before[slot as int].spec_record().lines.union(Set::<u32>::empty())
            =~= before[slot as int].spec_record().lines);
        let mut k: usize = 0;
        while k < count
            invariant
                k <= count,
                count == symbol.lines.len(),
                table == symbol@.lines,
                slot < files.len(),
                files.len() == before.len(),
                forall|j: int|
                    0 <= j < before.len() ==> (#[trigger] files[j]).spec_path()
                        == before[j].spec_path(),
                forall|j: int|
                    0 <= j < before.len() && j != slot ==> (#[trigger] files[j]).spec_record()
                        == before[j].spec_record(),
                files[slot as int].spec_record().functions
                    == before[slot as int].spec_record().functions.insert(
                    symbol_function(symbol@),
                ),
                files[slot as int].spec_record().lines
                    == before[slot as int].spec_record().lines.union(
                    table_lines(table.subrange(0, k as int)),
                ),
            decreases count - k,
        {
            let entry = &symbol.lines[k];
            files[slot].record.add_lines(entry.start_line, entry.end_line);
            proof {
                lemma_table_lines_step(table, k as int);
                assert(table[k as int] == entry@);
                assert(before[slot as int].spec_record().lines.union(
                    table_lines(table.subrange(0, k as int)),
                ).union(line_span(entry.start_line, entry.end_line))
                    =~= before[slot as int].spec_record().lines.union(
                    table_lines(table.subrange(0, k + 1)),
                ));
            }
            k += 1;
        }
        proof {
            assert(table.subrange(0, count as int) =~= table);
            lemma_files_map_update(before, files@, slot as int);
            assert(files_map(files@) =~= register_symbol(old(self)@, symbol@));
        }
        std::mem::swap(&mut files, &mut self.files);
    }

    /// Registers the symbols of `entries`, one after the other.
    pub fn accumulate(&mut self, entries: &Vec<IntervalEntry>)
        ensures
            final(self).wf(),
            final(self)@ == register_entries(old(self)@, entries_view(entries@)),
    {
        proof {
            use_type_invariant(&*self);
        }
        let ghost all = entries_view(entries@);
        let mut i: usize = 0;
        while i < entries.len()
            invariant
                i <= entries.len(),
                all == entries_view(entries@),
                self.wf(),
                self@ == register_entries(old(self)@, all.subrange(0, i as int)),
            decreases entries.len() - i,
        {
            self.register_symbol(&entries[i].symbol);
            proof {
                assert(all.subrange(0, i + 1).drop_last() =~= all.subrange(0, i as int));
                assert(all.subrange(0, i + 1).last().symbol == entries[i as int].symbol@);
            }
            i += 1;
        }
        proof {
            assert(all.subrange(0, entries.len() as int) =~= all);
        }
    }
}

/// The lines of a table's first `k + 1` entries are those of its first `k`
/// and those that entry `k` spans.
proof fn lemma_table_lines_step(table: Seq<LineInfoView>, k: int)
    requires
        0 <= k < table.len(),
    ensures
        table_lines(table.subrange(0, k + 1)) == table_lines(table.subrange(0, k)).union(
            line_span(table[k].start_line, table[k].end_line),
        ),
{
    let shorter = table.subrange(0, k);
    let longer = table.subrange(0, k + 1);
    assert forall|line: u32| #[trigger]
        table_lines(longer).contains(line) == table_lines(shorter).union(
            line_span(table[k].start_line, table[k].end_line),
        ).contains(line) by {
        if table_lines(longer).contains(line) {
            let m = choose|m: int|
                0 <= m < longer.len() && (#[trigger] longer[m]).start_line <= line
                    <= longer[m].end_line;
            if m < k {
                assert(shorter[m].start_line <= line <= shorter[m].end_line);
            }
        }
        if table_lines(shorter).contains(line) {
            let m = choose|m: int|
                0 <= m < shorter.len() && (#[trigger] shorter[m]).start_line <= line
                    <= shorter[m].end_line;
            assert(longer[m].start_line <= line <= longer[m].end_line);
        }
        if line_span(table[k].start_line, table[k].end_line).contains(line) {
            assert(longer[k].start_line <= line <= longer[k].end_line);
        }
    }
    assert(table_lines(longer) =~= table_lines(shorter).union(
        line_span(table[k].start_line, table[k].end_line),
    ));
}

} // verus!
