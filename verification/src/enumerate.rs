//! Walking a loader list of the guest: which entry to read next, and when to
//! stop. The guest is not trusted: a list that runs in a circle or has no end
//! is cut off.

use crate::bytes::in_bounds;
use crate::bytes::le_value;
use crate::bytes::read_u16_le;
use crate::bytes::read_u32_le;
use crate::bytes::read_u64_le;
use crate::error::OsInfoError;
use crate::kernel::image_identity;
use crate::kernel::image_identity_in;
use crate::symbols::symbols_view;
use crate::symbols::Module;
use crate::symbols::ModuleView;
use crate::symbols::SymbolInfo;
use crate::text::decode_wide_name;
use crate::text::units_of;
use crate::text::utf16_text;
use crate::version::EntryLayout;
use std::collections::HashSet;
use vstd::prelude::*;

verus! {

broadcast use vstd::std_specs::hash::group_hash_axioms;

/// Offset of the buffer's address in a counted string of the guest.
pub const COUNTED_STRING_BUFFER_OFFSET: usize = 8;

/// The number of bytes that a counted string of the guest takes.
pub const COUNTED_STRING_SPAN: usize = 16;

/// A counted string of the guest: so many bytes of text at an address.
#[derive(Clone, Copy, Debug, PartialEq, Eq, Structural)]
pub struct CountedString {
    /// The length of the text in bytes.
    pub length: u16,
    /// The guest virtual address of the text.
    pub buffer: u64,
}

/// What one entry of a loader list says.
#[derive(Clone, Copy, Debug, PartialEq, Eq, Structural)]
pub struct ListEntry {
    /// The address of the next entry, or of the list's head after the last.
    pub next: u64,
    /// The address at which the image is loaded.
    pub base: u64,
    /// The size of the loaded image in bytes.
    pub size: u32,
    /// Where the image's full name is.
    pub full_name: CountedString,
    /// Where the image's base name is.
    pub base_name: CountedString,
}

/// The little-endian number of `width` bytes at `offset` of `bytes`.
pub open spec fn field(bytes: Seq<u8>, offset: int, width: int) -> nat {
    le_value(bytes.subrange(offset, offset + width))
}

/// Whether the counted string at `offset` lies inside `len` bytes.
pub open spec fn string_in_bounds(len: nat, offset: nat) -> bool {
    in_bounds(len, offset, COUNTED_STRING_SPAN as nat)
}

/// The counted string at `offset` of `bytes`.
pub open spec fn string_at(bytes: Seq<u8>, offset: int) -> CountedString {
    CountedString {
        length: field(bytes, offset, 2) as u16,
        buffer: field(bytes, offset + COUNTED_STRING_BUFFER_OFFSET, 8) as u64,
    }
}

/// Whether every field that `layout` names lies inside `len` bytes.
pub open spec fn entry_in_bounds(len: nat, layout: EntryLayout) -> bool {
    &&& in_bounds(len, layout.next as nat, 8)
    &&& in_bounds(len, layout.base as nat, 8)
    &&& in_bounds(len, layout.size as nat, 4)
    &&& string_in_bounds(len, layout.full_name as nat)
    &&& string_in_bounds(len, layout.base_name as nat)
}

/// The entry that `bytes` hold under `layout`.
pub open spec fn entry_in(bytes: Seq<u8>, layout: EntryLayout) -> ListEntry {
    ListEntry {
        next: field(bytes, layout.next as int, 8) as u64,
        base: field(bytes, layout.base as int, 8) as u64,
        size: field(bytes, layout.size as int, 4) as u32,
        full_name: string_at(bytes, layout.full_name as int),
        base_name: string_at(bytes, layout.base_name as int),
    }
}

/// The number of bytes of an entry that hold every field that `layout`
/// names: the end of the field that ends last.
pub open spec fn entry_span_of(layout: EntryLayout) -> nat {
    let links = (layout.next + 8) as nat;
    let base = (layout.base + 8) as nat;
    let size = (layout.size + 4) as nat;
    let full_name = (layout.full_name + COUNTED_STRING_SPAN) as nat;
    let base_name = (layout.base_name + COUNTED_STRING_SPAN) as nat;
    let a = if links >= base {
        links
    } else {
        base
    };
    let b = if a >= size {
        a
    } else {
        size
    };
    let c = if b >= full_name {
        b
    } else {
        full_name
    };
    if c >= base_name {
        c
    } else {
        base_name
    }
}

/// So many bytes hold every field of an entry, and no fewer do.
pub proof fn lemma_entry_span_is_least(layout: EntryLayout, len: nat)
    ensures
        entry_in_bounds(len, layout) <==> entry_span_of(layout) <= len,
{
}

/// The number of bytes to read of an entry; none where that number does not
/// fit the machine.
pub fn entry_span(layout: &EntryLayout) -> (span: Option<usize>)
    ensures
        match span {
            Some(span) => span == entry_span_of(*layout),
            None => entry_span_of(*layout) > usize::MAX,
        },
{
    let links = layout.next.checked_add(8);
    let base = layout.base.checked_add(8);
    let size = layout.size.checked_add(4);
    let full_name = layout.full_name.checked_add(COUNTED_STRING_SPAN);
    let base_name = layout.base_name.checked_add(COUNTED_STRING_SPAN);
    match (links, base, size, full_name, base_name) {
        (Some(links), Some(base), Some(size), Some(full_name), Some(base_name)) => {
            let a = if links >= base {
                links
            } else {
                base
            };
            let b = if a >= size {
                a
            } else {
                size
            };
            let c = if b >= full_name {
                b
            } else {
                full_name
            };
            Some(
                if c >= base_name {
                    c
                } else {
                    base_name
                },
            )
        },
        _ => None,
    }
}

/// Reads the counted string at `offset`; none where the bytes end before it
/// does.
pub fn decode_string(bytes: &[u8], offset: usize) -> (string: Option<CountedString>)
    ensures
        match string {
            Some(string) => string_in_bounds(bytes@.len(), offset as nat) && string == string_at(
                bytes@,
                offset as int,
            ),
            None => !string_in_bounds(bytes@.len(), offset as nat),
        },
{
    let len = bytes.len();
    if offset > len || len - offset < COUNTED_STRING_SPAN {
        return None;
    }
    let length = read_u16_le(bytes, offset);
    let buffer = read_u64_le(bytes, offset + COUNTED_STRING_BUFFER_OFFSET);
    match (length, buffer) {
        (Some(length), Some(buffer)) => Some(CountedString { length, buffer }),
        _ => None,
    }
}

/// Reads an entry of a loader list from the bytes at its address; none where
/// the bytes end before one of its fields does.
pub fn decode_entry(bytes: &[u8], layout: &EntryLayout) -> (entry: Option<ListEntry>)
    ensures
        match entry {
            Some(entry) => entry_in_bounds(bytes@.len(), *layout) && entry == entry_in(
                bytes@,
                *layout,
            ),
            None => !entry_in_bounds(bytes@.len(), *layout),
        },
{
    let next = read_u64_le(bytes, layout.next);
    let base = read_u64_le(bytes, layout.base);
    let size = read_u32_le(bytes, layout.size);
    let full_name = decode_string(bytes, layout.full_name);
    let base_name = decode_string(bytes, layout.base_name);
    match (next, base, size, full_name, base_name) {
        (Some(next), Some(base), Some(size), Some(full_name), Some(base_name)) => Some(
            ListEntry { next, base, size, full_name, base_name },
        ),
        _ => None,
    }
}

/// A module as the guest describes it, before its debug information is
/// settled.
#[derive(Debug, PartialEq, Eq)]
pub struct ModuleDescription {
    /// The image's full name.
    pub full_name: String,
    /// The image's file name without its directory.
    pub base_name: String,
    /// The address at which the image is loaded.
    pub base: u64,
    /// The size of the loaded image in bytes.
    pub size: u64,
    /// The number that tells builds of the image apart.
    pub hash: u64,
}

/// The mathematical value of a [`ModuleDescription`].
pub struct ModuleDescriptionView {
    pub full_name: Seq<char>,
    pub base_name: Seq<char>,
    pub base: u64,
    pub size: u64,
    pub hash: u64,
}

impl View for ModuleDescription {
    type V = ModuleDescriptionView;

    open spec fn view(&self) -> ModuleDescriptionView {
        ModuleDescriptionView {
            full_name: self.full_name@,
            base_name: self.base_name@,
            base: self.base,
            size: self.size,
            hash: self.hash,
        }
    }
}

/// The name that the bytes of a counted string hold; the empty name where
/// the bytes could not be read.
pub open spec fn name_in(bytes: Option<Seq<u8>>) -> Seq<char> {
    match bytes {
        Some(bytes) => utf16_text(units_of(bytes)),
        None => Seq::empty(),
    }
}

/// The identity of the image whose first bytes are `header`; zero where
/// they could not be read or do not begin like an image.
pub open spec fn identity_in(header: Option<Seq<u8>>) -> u64 {
    match header {
        Some(header) => match image_identity_in(header) {
            Some(identity) => identity,
            None => 0,
        },
        None => 0,
    }
}

/// The bytes of a slice that may be missing.
pub open spec fn bytes_view(bytes: Option<&[u8]>) -> Option<Seq<u8>> {
    match bytes {
        Some(bytes) => Some(bytes@),
        None => None,
    }
}

/// Describes the module of a list entry from what could be read of it: the
/// bytes of its two names and the first bytes of its image.
pub fn describe_module(
    entry: &ListEntry,
    full_name: Option<&[u8]>,
    base_name: Option<&[u8]>,
    header: Option<&[u8]>,
) -> (module: ModuleDescription)
    ensures
        module@ == (ModuleDescriptionView {
            full_name: name_in(bytes_view(full_name)),
            base_name: name_in(bytes_view(base_name)),
            base: entry.base,
            size: entry.size as u64,
            hash: identity_in(bytes_view(header)),
        }),
{
    let full_name = match full_name {
        Some(bytes) => decode_wide_name(bytes),
        None => String::new(),
    };
    let base_name = match base_name {
        Some(bytes) => decode_wide_name(bytes),
        None => String::new(),
    };
    let hash = match header {
        Some(header) => match image_identity(header) {
            Some(identity) => identity,
            None => 0,
        },
        None => 0,
    };
    ModuleDescription { full_name, base_name, base: entry.base, size: entry.size as u64, hash }
}

impl ModuleDescription {
    /// The module with its debug information.
    pub fn into_module(self, debug_info: Option<Vec<SymbolInfo>>) -> (module: Module)
        ensures
            module@ == (ModuleView {
                base: self.base,
                size: self.size,
                full_name: self.full_name@,
                base_name: self.base_name@,
                debug_info: match debug_info {
                    Some(symbols) => Some(symbols_view(symbols@)),
                    None => None,
                },
            }),
    {
        Module {
            base: self.base,
            size: self.size,
            full_name: self.full_name,
            base_name: self.base_name,
            debug_info,
        }
    }
}

/// The entry to read after `visited`, where `link` is the link that was read
/// last, if it could be read: none at the end of the list (the link leads
/// back to the head), for a link that leads back into the list, and once
/// `limit` entries were read.
pub open spec fn admissible(head: u64, limit: usize, visited: Seq<u64>, link: Option<u64>) -> Option<
    u64,
> {
    match link {
        Some(address) => if address != head && !visited.contains(address) && visited.len()
            < limit {
            Some(address)
        } else {
            None
        },
        None => None,
    }
}

/// The mathematical value of a [`ListWalk`].
pub struct ListWalkView {
    pub head: u64,
    pub limit: usize,
    pub visited: Seq<u64>,
    pub pending: Option<u64>,
}

impl ListWalkView {
    /// The walk after the link of the pending entry was read, or could not
    /// be read: the pending entry is visited, and the link decides what is
    /// read next. A walk that is over stays as it is.
    pub open spec fn step(self, link: Option<u64>) -> ListWalkView {
        match self.pending {
            Some(address) => ListWalkView {
                visited: self.visited.push(address),
                pending: admissible(self.head, self.limit, self.visited.push(address), link),
                ..self
            },
            None => self,
        }
    }

    /// No entry is visited twice, the head is no entry, and no more than
    /// `limit` entries are visited, the pending one included.
    pub open spec fn bounded(self) -> bool {
        &&& self.visited.no_duplicates()
        &&& !self.visited.contains(self.head)
        &&& self.visited.len() <= self.limit
        &&& self.pending matches Some(address) ==> address != self.head && !self.visited.contains(
            address,
        ) && self.visited.len() < self.limit
    }

    /// A step keeps the walk within its bounds.
    pub proof fn lemma_step_bounded(self, link: Option<u64>)
        requires
            self.bounded(),
        ensures
            self.step(link).bounded(),
            self.pending is Some ==> self.step(link).visited.len() == self.visited.len() + 1,
    {
        if let Some(address) = self.pending {
            let visited = self.visited.push(address);
            assert forall|i: int, j: int|
                0 <= i < visited.len() && 0 <= j < visited.len() && i != j implies visited[i]
                != visited[j] by {
                if i < self.visited.len() {
                    assert(self.visited.contains(visited[i]));
                }
                if j < self.visited.len() {
                    assert(self.visited.contains(visited[j]));
                }
            }
            if visited.contains(self.head) {
                let i = choose|i: int| 0 <= i < visited.len() && visited[i] == self.head;
                assert(self.visited.contains(self.visited[i]));
            }
        }
    }
}

/// A walk over a loader list of the guest.
#[derive(Debug)]
pub struct ListWalk {
    head: u64,
    limit: usize,
    visited: Vec<u64>,
    seen: HashSet<u64>,
    pending: Option<u64>,
}

impl View for ListWalk {
    type V = ListWalkView;

    closed spec fn view(&self) -> ListWalkView {
        ListWalkView {
            head: self.head,
            limit: self.limit,
            visited: self.visited@,
            pending: self.pending,
        }
    }
}

impl ListWalk {
    /// The walk is within its bounds.
    #[verifier::type_invariant]
    pub closed spec fn wf(&self) -> bool {
        &&& self@.bounded()
        &&& self.seen@ == self.visited@.to_set()
    }

    /// Starts a walk over the list with its head at `head`, where `first` is
    /// the link that the head holds. Without that link, because the head
    /// could not be read, there is no walk.
    pub fn start(head: u64, first: Option<u64>, limit: usize) -> (walk: Result<
        ListWalk,
        OsInfoError,
    >)
        ensures
            match walk {
                Ok(walk) => first is Some && walk.wf() && walk@ == (ListWalkView {
                    head,
                    limit,
                    visited: Seq::empty(),
                    pending: admissible(head, limit, Seq::empty(), first),
                }),
                Err(error) => first is None && error == OsInfoError::EnumerationError,
            },
    {
        match first {
            Some(address) => {
                let pending = if address != head && 0 < limit {
                    Some(address)
                } else {
                    None
                };
                let visited: Vec<u64> = Vec::new();
                let seen: HashSet<u64> = HashSet::new();
                assert(seen@ =~= visited@.to_set());
                Ok(ListWalk { head, limit, visited, seen, pending })
            },
            None => Err(OsInfoError::EnumerationError),
        }
    }

    /// The address of the entry to read next; none when the walk is over.
    pub fn pending(&self) -> (pending: Option<u64>)
        ensures
            pending == self@.pending,
            self@.bounded(),
    {
        proof {
            use_type_invariant(self);
        }
        self.pending
    }

    /// Takes the step after the pending entry was read: `link` is the link
    /// that the entry holds, or none where the entry could not be read, which
    /// ends the walk with what was visited so far.
    pub fn advance(&mut self, link: Option<u64>)
        ensures
            final(self).wf(),
            final(self)@ == old(self)@.step(link),
    {
        proof {
            use_type_invariant(&*self);
            self@.lemma_step_bounded(link);
        }
        let address = match self.pending {
            Some(address) => address,
            None => {
                return ;
            },
        };
        let mut taken = ListWalk::idle();
        std::mem::swap(self, &mut taken);
        let ListWalk { head, limit, mut visited, mut seen, pending: _ } = taken;
        let ghost before = visited@;
        visited.push(address);
        seen.insert(address);
        proof {
            before.lemma_push_to_set_commute(address);
        }
        let pending = match link {
            Some(next) => if next != head && !seen.contains(&next) && visited.len() < limit {
                Some(next)
            } else {
                None
            },
            None => None,
        };
        *self = ListWalk { head, limit, visited, seen, pending };
    }

    /// A walk that is over before it began.
    fn idle() -> (walk: ListWalk)
        ensures
            walk.wf(),
    {
        let visited: Vec<u64> = Vec::new();
        let seen: HashSet<u64> = HashSet::new();
        assert(seen@ =~= visited@.to_set());
        ListWalk { head: 0, limit: 0, visited, seen, pending: None }
    }

    /// The addresses of the entries that were visited, in their order.
    pub fn visited(&self) -> (visited: &Vec<u64>)
        ensures
            visited@ == self@.visited,
            self@.bounded(),
    {
        proof {
            use_type_invariant(self);
        }
        &self.visited
    }
}

} // verus!
