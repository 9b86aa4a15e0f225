//! Which modules have debug information: what was found is kept by module
//! identity, and the names of those for which nothing was found are kept so
//! that they are not looked up again.

use crate::names::NameSet;
use crate::symbols::clone_symbols;
use crate::symbols::symbols_view;
use crate::symbols::SymbolInfo;
use crate::symbols::SymbolInfoView;
use vstd::prelude::*;

verus! {

/// What to do for a module whose debug information is wanted.
#[derive(Clone, Copy, Debug, PartialEq, Eq, Structural)]
pub enum ResolutionPlan {
    /// The module is known to have none: there is nothing to look up.
    NoSymbols,
    /// The module's symbols are at hand: there is nothing to look up.
    Cached,
    /// The symbol service has to be asked.
    Lookup,
}

/// The symbols that were found for one module.
#[derive(Debug)]
pub struct ResolvedModule {
    full_name: String,
    hash: u64,
    symbols: Vec<SymbolInfo>,
}

impl ResolvedModule {
    /// The module's identity: its full name and the hash of its image.
    pub closed spec fn key(&self) -> (Seq<char>, u64) {
        (self.full_name@, self.hash)
    }

    /// The value of the module's symbols.
    pub closed spec fn spec_symbols(&self) -> Seq<SymbolInfoView> {
        symbols_view(self.symbols@)
    }
}

/// The identities of a run of resolved modules.
pub open spec fn resolved_keys(modules: Seq<ResolvedModule>) -> Seq<(Seq<char>, u64)> {
    Seq::new(modules.len(), |i: int| modules[i].key())
}

/// The map from each identity of `modules` to the symbols that stand with it.
pub open spec fn resolved_map(modules: Seq<ResolvedModule>) -> Map<
    (Seq<char>, u64),
    Seq<SymbolInfoView>,
> {
    Map::new(
        |key: (Seq<char>, u64)| resolved_keys(modules).contains(key),
        |key: (Seq<char>, u64)| modules[resolved_keys(modules).index_of(key)].spec_symbols(),
    )
}

proof fn lemma_resolved_map_at(modules: Seq<ResolvedModule>, i: int)
    requires
        resolved_keys(modules).no_duplicates(),
        0 <= i < modules.len(),
    ensures
        resolved_map(modules).contains_key(modules[i].key()),
        resolved_map(modules)[modules[i].key()] == modules[i].spec_symbols(),
{
    let keys = resolved_keys(modules);
    assert(keys[i] == modules[i].key());
    let k = keys.index_of(keys[i]);
    assert(k == i);
}

proof fn lemma_resolved_map_push(before: Seq<ResolvedModule>, module: ResolvedModule)
    requires
        resolved_keys(before).no_duplicates(),
        !resolved_keys(before).contains(module.key()),
    ensures
        resolved_keys(before.push(module)).no_duplicates(),
        resolved_map(before.push(module)) == resolved_map(before).insert(
            module.key(),
            module.spec_symbols(),
        ),
{
    let after = before.push(module);
    assert(resolved_keys(after) =~= resolved_keys(before).push(module.key()));
    assert forall|key: (Seq<char>, u64)| #[trigger]
        resolved_map(after).contains_key(key) == resolved_map(before).insert(
            module.key(),
            module.spec_symbols(),
        ).contains_key(key) by {
        if resolved_keys(before).contains(key) {
            let j = choose|j: int| 0 <= j < before.len() && resolved_keys(before)[j] == key;
            assert(resolved_keys(after)[j] == key);
        }
        if key == module.key() {
            assert(resolved_keys(after)[before.len() as int] == key);
        }
        if resolved_keys(after).contains(key) {
            let j = choose|j: int| 0 <= j < after.len() && resolved_keys(after)[j] == key;
            if j < before.len() {
                assert(resolved_keys(before)[j] == key);
            }
        }
    }
    assert forall|key: (Seq<char>, u64)| #[trigger]
        resolved_map(after).contains_key(key) implies resolved_map(after)[key] == resolved_map(
        before,
    ).insert(module.key(), module.spec_symbols())[key] by {
        let j = choose|j: int| 0 <= j < after.len() && resolved_keys(after)[j] == key;
        lemma_resolved_map_at(after, j);
        if j < before.len() {
            assert(before[j].key() == key);
            lemma_resolved_map_at(before, j);
        }
    }
    assert(resolved_map(after) =~= resolved_map(before).insert(
        module.key(),
        module.spec_symbols(),
    ));
}

/// The symbols that were found so far, by module identity. Nothing leaves it.
#[derive(Debug)]
pub struct SymbolCache {
    modules: Vec<ResolvedModule>,
}

impl View for SymbolCache {
    type V = Map<(Seq<char>, u64), Seq<SymbolInfoView>>;

    closed spec fn view(&self) -> Map<(Seq<char>, u64), Seq<SymbolInfoView>> {
        resolved_map(self.modules@)
    }
}

impl SymbolCache {
    /// No identity is stored twice.
    #[verifier::type_invariant]
    pub closed spec fn wf(&self) -> bool {
        resolved_keys(self.modules@).no_duplicates()
    }

    /// The cache that holds nothing.
    pub fn new() -> (cache: SymbolCache)
        ensures
            cache.wf(),
            cache@ == Map::<(Seq<char>, u64), Seq<SymbolInfoView>>::empty(),
    {
        let cache = SymbolCache { modules: Vec::new() };
        assert(cache@ =~= Map::<(Seq<char>, u64), Seq<SymbolInfoView>>::empty());
        cache
    }

    /// The symbols kept for the module of this name and hash.
    pub fn get(&self, full_name: &String, hash: u64) -> (symbols: Option<&Vec<SymbolInfo>>)
        ensures
            match symbols {
                Some(symbols) => self@.contains_key((full_name@, hash)) && symbols_view(symbols@)
                    == self@[(full_name@, hash)],
                None => !self@.contains_key((full_name@, hash)),
            },
    {
        proof {
            use_type_invariant(self);
        }
        let mut i: usize = 0;
        while i < self.modules.len()
            invariant
                i <= self.modules.len(),
                resolved_keys(self.modules@).no_duplicates(),
                forall|j: int| 0 <= j < i ==> self.modules[j].key() != (full_name@, hash),
            decreases self.modules.len() - i,
        {
            if self.modules[i].hash == hash && self.modules[i].full_name == *full_name {
                proof {
                    lemma_resolved_map_at(self.modules@, i as int);
                }
                return Some(&self.modules[i].symbols);
            }
            i += 1;
        }
        proof {
            if resolved_keys(self.modules@).contains((full_name@, hash)) {
                let j = choose|j: int|
                    0 <= j < self.modules.len() && resolved_keys(self.modules@)[j] == (
                        full_name@,
                        hash,
                    );
                assert(self.modules[j].key() == (full_name@, hash));
            }
        }
        None
    }

    /// Keeps `symbols` for the module of this name and hash, unless symbols
    /// are kept for it already. Returns whether they were new.
    pub fn insert(&mut self, full_name: &String, hash: u64, symbols: Vec<SymbolInfo>) -> (added:
        bool)
        ensures
            final(self).wf(),
            added == !old(self)@.contains_key((full_name@, hash)),
            added ==> final(self)@ == old(self)@.insert(
                (full_name@, hash),
                symbols_view(symbols@),
            ),
            !added ==> *final(self) == *old(self),
    {
        proof {
            use_type_invariant(&*self);
        }
        if self.get(full_name, hash).is_some() {
            return false;
        }
        let ghost before = self.modules@;
        let module = ResolvedModule { full_name: full_name.clone(), hash, symbols };
        let mut modules: Vec<ResolvedModule> = Vec::new();
        std::mem::swap(&mut modules, &mut self.modules);
        proof {
            lemma_resolved_map_push(before, module);
        }
        modules.push(module);
        std::mem::swap(&mut modules, &mut self.modules);
        true
    }

    /// The number of modules whose symbols are kept.
    pub fn len(&self) -> (n: usize)
        ensures
            n == self@.len(),
    {
        proof {
            use_type_invariant(self);
            let keys = resolved_keys(self.modules@);
            keys.unique_seq_to_set();
            assert(self@.dom() =~= keys.to_set());
        }
        self.modules.len()
    }
}

/// The value of symbols that may be missing.
pub open spec fn found_view(found: Option<Vec<SymbolInfo>>) -> Option<Seq<SymbolInfoView>> {
    match found {
        Some(symbols) => Some(symbols_view(symbols@)),
        None => None,
    }
}

/// What to do for the module of this name and hash, given what is known.
pub open spec fn plan_for(
    not_found: Set<Seq<char>>,
    resolved: Map<(Seq<char>, u64), Seq<SymbolInfoView>>,
    full_name: Seq<char>,
    hash: u64,
) -> ResolutionPlan {
    if not_found.contains(full_name) {
        ResolutionPlan::NoSymbols
    } else if resolved.contains_key((full_name, hash)) {
        ResolutionPlan::Cached
    } else {
        ResolutionPlan::Lookup
    }
}

/// The debug information of the module of this name and hash, where `found`
/// is what a lookup gave: none for a module known to have none; else what is
/// kept for it; else what the lookup found.
pub open spec fn resolution(
    not_found: Set<Seq<char>>,
    resolved: Map<(Seq<char>, u64), Seq<SymbolInfoView>>,
    full_name: Seq<char>,
    hash: u64,
    found: Option<Seq<SymbolInfoView>>,
) -> Option<Seq<SymbolInfoView>> {
    match plan_for(not_found, resolved, full_name, hash) {
        ResolutionPlan::NoSymbols => None,
        ResolutionPlan::Cached => Some(resolved[(full_name, hash)]),
        ResolutionPlan::Lookup => found,
    }
}

/// The names known to lack debug information after a resolution: a lookup
/// that found nothing adds the module's name.
pub open spec fn not_found_after(
    not_found: Set<Seq<char>>,
    resolved: Map<(Seq<char>, u64), Seq<SymbolInfoView>>,
    full_name: Seq<char>,
    hash: u64,
    found: Option<Seq<SymbolInfoView>>,
) -> Set<Seq<char>> {
    if plan_for(not_found, resolved, full_name, hash) == ResolutionPlan::Lookup && found is None {
        not_found.insert(full_name)
    } else {
        not_found
    }
}

/// The symbols kept after a resolution: a lookup that found some adds them.
pub open spec fn resolved_after(
    not_found: Set<Seq<char>>,
    resolved: Map<(Seq<char>, u64), Seq<SymbolInfoView>>,
    full_name: Seq<char>,
    hash: u64,
    found: Option<Seq<SymbolInfoView>>,
) -> Map<(Seq<char>, u64), Seq<SymbolInfoView>> {
    if plan_for(not_found, resolved, full_name, hash) == ResolutionPlan::Lookup && found is Some {
        resolved.insert((full_name, hash), found->0)
    } else {
        resolved
    }
}

/// A module that is known to lack debug information is not looked up: it
/// has no symbols whatever a lookup would give, and nothing is remembered
/// anew.
pub proof fn lemma_known_missing_is_skipped(
    not_found: Set<Seq<char>>,
    resolved: Map<(Seq<char>, u64), Seq<SymbolInfoView>>,
    full_name: Seq<char>,
    hash: u64,
    found: Option<Seq<SymbolInfoView>>,
)
    requires
        not_found.contains(full_name),
    ensures
        plan_for(not_found, resolved, full_name, hash) == ResolutionPlan::NoSymbols,
        resolution(not_found, resolved, full_name, hash, found) is None,
        not_found_after(not_found, resolved, full_name, hash, found) == not_found,
        resolved_after(not_found, resolved, full_name, hash, found) == resolved,
{
}

/// A lookup that found nothing is not made again: afterwards the module's
/// name, with whatever hash, is known to lack debug information.
pub proof fn lemma_failed_lookup_is_remembered(
    not_found: Set<Seq<char>>,
    resolved: Map<(Seq<char>, u64), Seq<SymbolInfoView>>,
    full_name: Seq<char>,
    hash: u64,
    other_hash: u64,
)
    requires
        plan_for(not_found, resolved, full_name, hash) == ResolutionPlan::Lookup,
    ensures
        plan_for(
            not_found_after(not_found, resolved, full_name, hash, None),
            resolved_after(not_found, resolved, full_name, hash, None),
            full_name,
            other_hash,
        ) == ResolutionPlan::NoSymbols,
{
}

/// A lookup that found symbols is not made again: afterwards the symbols of
/// that module are at hand.
pub proof fn lemma_found_symbols_are_kept(
    not_found: Set<Seq<char>>,
    resolved: Map<(Seq<char>, u64), Seq<SymbolInfoView>>,
    full_name: Seq<char>,
    hash: u64,
    symbols: Seq<SymbolInfoView>,
    found_later: Option<Seq<SymbolInfoView>>,
)
    requires
        plan_for(not_found, resolved, full_name, hash) == ResolutionPlan::Lookup,
    ensures
        plan_for(
            not_found_after(not_found, resolved, full_name, hash, Some(symbols)),
            resolved_after(not_found, resolved, full_name, hash, Some(symbols)),
            full_name,
            hash,
        ) == ResolutionPlan::Cached,
        resolution(
            not_found_after(not_found, resolved, full_name, hash, Some(symbols)),
            resolved_after(not_found, resolved, full_name, hash, Some(symbols)),
            full_name,
            hash,
            found_later,
        ) == Some(symbols),
{
}

/// Nothing leaves either cache.
pub proof fn lemma_caches_grow(
    not_found: Set<Seq<char>>,
    resolved: Map<(Seq<char>, u64), Seq<SymbolInfoView>>,
    full_name: Seq<char>,
    hash: u64,
    found: Option<Seq<SymbolInfoView>>,
)
    ensures
        not_found.subset_of(not_found_after(not_found, resolved, full_name, hash, found)),
        resolved.submap_of(resolved_after(not_found, resolved, full_name, hash, found)),
{
}

/// Decides what to do for the module of this name and hash.
pub fn plan_resolution(not_found: &NameSet, resolved: &SymbolCache, full_name: &String, hash: u64) -> (plan:
    ResolutionPlan)
    ensures
        plan == plan_for(not_found@, resolved@, full_name@, hash),
{
    if not_found.contains(full_name) {
        ResolutionPlan::NoSymbols
    } else if resolved.get(full_name, hash).is_some() {
        ResolutionPlan::Cached
    } else {
        ResolutionPlan::Lookup
    }
}

/// Settles the debug information of the module of this name and hash, where
/// `found` is what a lookup gave (it is not read unless a lookup was due),
/// and remembers the outcome of a lookup.
pub fn resolve(
    not_found: &mut NameSet,
    resolved: &mut SymbolCache,
    full_name: &String,
    hash: u64,
    found: Option<Vec<SymbolInfo>>,
) -> (debug_info: Option<Vec<SymbolInfo>>)
    ensures
        found_view(debug_info) == resolution(
            old(not_found)@,
            old(resolved)@,
            full_name@,
            hash,
            found_view(found),
        ),
        final(not_found)@ == not_found_after(
            old(not_found)@,
            old(resolved)@,
            full_name@,
            hash,
            found_view(found),
        ),
        final(resolved)@ == resolved_after(
            old(not_found)@,
            old(resolved)@,
            full_name@,
            hash,
            found_view(found),
        ),
        final(not_found).wf(),
        final(resolved).wf(),
        plan_for(old(not_found)@, old(resolved)@, full_name@, hash) != ResolutionPlan::Lookup ==> {
            &&& *final(not_found) == *old(not_found)
            &&& *final(resolved) == *old(resolved)
        },
{
    proof {
        use_type_invariant(&*not_found);
        use_type_invariant(&*resolved);
    }
    if not_found.contains(full_name) {
        return None;
    }
    match resolved.get(full_name, hash) {
        Some(symbols) => {
            return Some(clone_symbols(symbols));
        },
        None => {},
    }
    match found {
        Some(symbols) => {
            let kept = clone_symbols(&symbols);
            resolved.insert(full_name, hash, kept);
            Some(symbols)
        },
        None => {
            not_found.insert(full_name.clone());
            None
        },
    }
}

} // verus!
