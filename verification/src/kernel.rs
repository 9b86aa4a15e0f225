//! Finding the kernel's image: the handlers of the interrupt table lie inside
//! it, so the image's header is the first one found when scanning downwards
//! from a handler.

use crate::bytes::le_value;
use crate::bytes::read_u16_le;
use crate::bytes::read_u32_le;
use crate::error::OsInfoError;
use vstd::prelude::*;
use vstd::slice::slice_subrange;

verus! {

/// The number of bytes of one gate of the interrupt table.
pub const GATE_SPAN: usize = 16;

/// Offset of the byte with a gate's present flag.
pub const GATE_FLAGS_OFFSET: usize = 5;

/// The present flag in a gate's flags.
pub const GATE_PRESENT: u8 = 0x80;

/// Offset of the middle part of a gate's handler address.
pub const GATE_MIDDLE_OFFSET: usize = 6;

/// Offset of the upper part of a gate's handler address.
pub const GATE_UPPER_OFFSET: usize = 8;

/// Offset of the pointer to the new header in an image's first header.
pub const IMAGE_NEW_HEADER_OFFSET: usize = 0x3c;

/// The number of bytes of an image's first header.
pub const IMAGE_FIRST_HEADER_SPAN: usize = 0x40;

/// Offset of the link time in an image's new header.
pub const IMAGE_LINK_TIME_OFFSET: usize = 0x8;

/// Offset of the image's size in an image's new header.
pub const IMAGE_SIZE_OFFSET: usize = 0x50;

/// Gate `i` of an interrupt table, counted from zero.
pub open spec fn gate_at(table: Seq<u8>, i: int) -> Seq<u8> {
    table.subrange(GATE_SPAN * i, GATE_SPAN * i + GATE_SPAN)
}

/// The number of whole gates in an interrupt table.
pub open spec fn gate_count(table: Seq<u8>) -> int {
    table.len() as int / GATE_SPAN as int
}

/// Whether a gate is in use.
pub open spec fn gate_present(gate: Seq<u8>) -> bool {
    gate[GATE_FLAGS_OFFSET as int] >= GATE_PRESENT
}

/// The address of a gate's handler: its three parts, put together.
pub open spec fn gate_handler(gate: Seq<u8>) -> u64 {
    (le_value(gate.subrange(0, 2)) + 0x1_0000 * le_value(
        gate.subrange(GATE_MIDDLE_OFFSET as int, GATE_MIDDLE_OFFSET + 2),
    ) + 0x1_0000_0000 * le_value(
        gate.subrange(GATE_UPPER_OFFSET as int, GATE_UPPER_OFFSET + 4),
    )) as u64
}

/// Reads the address of a gate's handler; none for a gate that is not in
/// use or is cut short.
pub fn read_gate(gate: &[u8]) -> (handler: Option<u64>)
    ensures
        match handler {
            Some(handler) => gate@.len() >= GATE_SPAN && gate_present(gate@) && handler
                == gate_handler(gate@),
            None => !(gate@.len() >= GATE_SPAN && gate_present(gate@)),
        },
{
    if gate.len() < GATE_SPAN || gate[GATE_FLAGS_OFFSET] < GATE_PRESENT {
        return None;
    }
    let lower = read_u16_le(gate, 0);
    let middle = read_u16_le(gate, GATE_MIDDLE_OFFSET);
    let upper = read_u32_le(gate, GATE_UPPER_OFFSET);
    match (lower, middle, upper) {
        (Some(lower), Some(middle), Some(upper)) => Some(
            lower as u64 + 0x1_0000 * (middle as u64) + 0x1_0000_0000 * (upper as u64),
        ),
        _ => None,
    }
}

/// The handler of the first gate in use among the gates of `table` from
/// gate `from` on; none where none of them is in use.
pub open spec fn first_handler_from(table: Seq<u8>, from: int) -> Option<u64>
    decreases gate_count(table) - from,
{
    if from < 0 || from >= gate_count(table) {
        None
    } else if gate_present(gate_at(table, from)) {
        Some(gate_handler(gate_at(table, from)))
    } else {
        first_handler_from(table, from + 1)
    }
}

/// The handler of the first gate in use of an interrupt table.
pub open spec fn first_handler_in(table: Seq<u8>) -> Option<u64> {
    first_handler_from(table, 0)
}

/// Where an interrupt table has a first handler, it is the handler of a gate
/// in use before which no gate is in use; where it has none, no gate is in
/// use.
pub proof fn lemma_first_handler(table: Seq<u8>, from: int)
    requires
        0 <= from,
    ensures
        match first_handler_from(table, from) {
            Some(handler) => exists|i: int|
                from <= i < gate_count(table) && gate_present(#[trigger] gate_at(table, i))
                    && handler == gate_handler(gate_at(table, i)) && forall|j: int|
                    from <= j < i ==> !gate_present(#[trigger] gate_at(table, j)),
            None => forall|i: int|
                from <= i < gate_count(table) ==> !gate_present(#[trigger] gate_at(table, i)),
        },
    decreases gate_count(table) - from,
{
    if from < gate_count(table) && !gate_present(gate_at(table, from)) {
        lemma_first_handler(table, from + 1);
        match first_handler_from(table, from + 1) {
            Some(handler) => {
                let i = choose|i: int|
                    from + 1 <= i < gate_count(table) && gate_present(#[trigger] gate_at(table, i))
                        && handler == gate_handler(gate_at(table, i)) && forall|j: int|
                        from + 1 <= j < i ==> !gate_present(#[trigger] gate_at(table, j));
                assert forall|j: int| from <= j < i implies !gate_present(
                    #[trigger] gate_at(table, j),
                ) by {
                    if j > from {
                    }
                }
            },
            None => {
                assert forall|i: int| from <= i < gate_count(table) implies !gate_present(
                    #[trigger] gate_at(table, i),
                ) by {
                    if i > from {
                    }
                }
            },
        }
    }
}

/// The handler of the first gate in use of an interrupt table; none where no
/// gate is in use.
pub fn first_handler(table: &[u8]) -> (handler: Option<u64>)
    ensures
        handler == first_handler_in(table@),
{
    let len = table.len();
    let count = len / GATE_SPAN;
    let mut i: usize = 0;
    while i < count
        invariant
            i <= count,
            len == table@.len(),
            GATE_SPAN * count <= len,
            count == gate_count(table@),
            first_handler_in(table@) == first_handler_from(table@, i as int),
        decreases count - i,
    {
        let gate = slice_subrange(table, GATE_SPAN * i, GATE_SPAN * i + GATE_SPAN);
        assert(gate@ == gate_at(table@, i as int));
        match read_gate(gate) {
            Some(handler) => {
                return Some(handler);
            },
            None => {},
        }
        i += 1;
    }
    None
}

/// Whether `page` begins like an executable image: with the two letters of
/// the first header, whose pointer leads to the four bytes of the new one.
pub open spec fn is_image_header(page: Seq<u8>) -> bool {
    &&& page.len() >= IMAGE_FIRST_HEADER_SPAN
    &&& page[0] == 0x4d
    &&& page[1] == 0x5a
    &&& new_header_at(page) + 4 <= page.len()
    &&& page[new_header_at(page)] == 0x50
    &&& page[new_header_at(page) + 1] == 0x45
    &&& page[new_header_at(page) + 2] == 0
    &&& page[new_header_at(page) + 3] == 0
}

/// Where the first header of an image says that the new header begins.
pub open spec fn new_header_at(page: Seq<u8>) -> int {
    le_value(
        page.subrange(IMAGE_NEW_HEADER_OFFSET as int, IMAGE_NEW_HEADER_OFFSET + 4),
    ) as int
}

/// Decides whether the bytes of a page begin like an executable image.
pub fn image_header(page: &[u8]) -> (found: bool)
    ensures
        found == is_image_header(page@),
{
    if page.len() < IMAGE_FIRST_HEADER_SPAN || page[0] != 0x4d || page[1] != 0x5a {
        return false;
    }
    let at = match read_u32_le(page, IMAGE_NEW_HEADER_OFFSET) {
        Some(at) => at as usize,
        None => {
            return false;
        },
    };
    if at > page.len() || page.len() - at < 4 {
        return false;
    }
    page[at] == 0x50 && page[at + 1] == 0x45 && page[at + 2] == 0 && page[at + 3] == 0
}

/// The number by which builds of one image are told apart: the image's link
/// time in the upper half and its size in the lower. There is none where the
/// bytes do not begin like an image or end before the two fields do.
pub open spec fn image_identity_in(page: Seq<u8>) -> Option<u64> {
    if is_image_header(page) && new_header_at(page) + IMAGE_SIZE_OFFSET + 4 <= page.len() {
        Some(
            (0x1_0000_0000 * le_value(
                page.subrange(
                    new_header_at(page) + IMAGE_LINK_TIME_OFFSET,
                    new_header_at(page) + IMAGE_LINK_TIME_OFFSET + 4,
                ),
            ) + le_value(
                page.subrange(
                    new_header_at(page) + IMAGE_SIZE_OFFSET,
                    new_header_at(page) + IMAGE_SIZE_OFFSET + 4,
                ),
            )) as u64,
        )
    } else {
        None
    }
}

/// Reads the identity of the image that begins in `page`.
pub fn image_identity(page: &[u8]) -> (identity: Option<u64>)
    ensures
        identity == image_identity_in(page@),
{
    if !image_header(page) {
        return None;
    }
    let at = match read_u32_le(page, IMAGE_NEW_HEADER_OFFSET) {
        Some(at) => at as usize,
        None => {
            return None;
        },
    };
    if page.len() - at < IMAGE_SIZE_OFFSET + 4 {
        return None;
    }
    let link_time = read_u32_le(page, at + IMAGE_LINK_TIME_OFFSET);
    let size = read_u32_le(page, at + IMAGE_SIZE_OFFSET);
    match (link_time, size) {
        (Some(link_time), Some(size)) => Some(0x1_0000_0000 * (link_time as u64) + size as u64),
        _ => None,
    }
}

/// The mathematical value of a [`KernelScan`].
pub struct KernelScanView {
    pub step: u64,
    pub cursor: u64,
    pub outcome: Option<Result<u64, OsInfoError>>,
}

impl KernelScanView {
    /// A scan that starts at the boundary of `step` at or below `handler`. A
    /// step of nothing cannot move: such a scan has failed where it starts.
    pub open spec fn begin(handler: u64, step: u64) -> KernelScanView {
        if step == 0 {
            KernelScanView { step, cursor: handler, outcome: Some(Err(OsInfoError::UnsupportedGuest)) }
        } else {
            KernelScanView { step, cursor: (handler - handler % step) as u64, outcome: None }
        }
    }

    /// The address to look at next; none once the scan is over.
    pub open spec fn pending(self) -> Option<u64> {
        if self.outcome is None {
            Some(self.cursor)
        } else {
            None
        }
    }

    /// The scan after the host looked at the pending address. An image ends
    /// the scan with its address, a failed read with its error. Anything else
    /// moves the scan one step down; at the bottom of the address space it
    /// ends: the guest is not one that can be introspected. A scan that is
    /// over stays as it is.
    pub open spec fn step(self, probe: Result<bool, OsInfoError>) -> KernelScanView {
        if self.outcome is Some {
            self
        } else {
            match probe {
                Ok(true) => KernelScanView { outcome: Some(Ok(self.cursor)), ..self },
                Err(error) => KernelScanView { outcome: Some(Err(error)), ..self },
                Ok(false) => if self.cursor >= self.step {
                    KernelScanView { cursor: (self.cursor - self.step) as u64, ..self }
                } else {
                    KernelScanView { outcome: Some(Err(OsInfoError::UnsupportedGuest)), ..self }
                },
            }
        }
    }

    /// A scan goes downwards only: a step that does not end it leaves the
    /// cursor strictly lower. A scan that is over stays over.
    pub proof fn lemma_step_descends(self, probe: Result<bool, OsInfoError>)
        ensures
            self.outcome is None && self.step(probe).outcome is None ==> self.step(probe).cursor
                < self.cursor || self.step == 0,
            self.outcome is Some ==> self.step(probe) == self,
            self.step(probe).step == self.step,
    {
    }
}

/// A scan for the kernel's image, downwards from an interrupt handler.
#[derive(Clone, Copy, Debug)]
pub struct KernelScan {
    step: u64,
    cursor: u64,
    outcome: Option<Result<u64, OsInfoError>>,
}

impl View for KernelScan {
    type V = KernelScanView;

    closed spec fn view(&self) -> KernelScanView {
        KernelScanView { step: self.step, cursor: self.cursor, outcome: self.outcome }
    }
}

impl KernelScan {
    /// Begins a scan at the boundary of `step` at or below `handler`.
    pub fn begin(handler: u64, step: u64) -> (scan: KernelScan)
        ensures
            scan@ == KernelScanView::begin(handler, step),
    {
        if step == 0 {
            KernelScan { step, cursor: handler, outcome: Some(Err(OsInfoError::UnsupportedGuest)) }
        } else {
            assert(handler % step <= handler) by (nonlinear_arith)
                requires
                    step > 0,
            ;
            KernelScan { step, cursor: handler - handler % step, outcome: None }
        }
    }

    /// The address to look at next; none once the scan is over.
    pub fn pending(&self) -> (pending: Option<u64>)
        ensures
            pending == self@.pending(),
    {
        if self.outcome.is_none() {
            Some(self.cursor)
        } else {
            None
        }
    }

    /// Takes what the host found at the pending address: whether an image
    /// begins there, or the error of the read.
    pub fn advance(&mut self, probe: Result<bool, OsInfoError>)
        ensures
            final(self)@ == old(self)@.step(probe),
    {
        if self.outcome.is_some() {
            return ;
        }
        match probe {
            Ok(true) => {
                self.outcome = Some(Ok(self.cursor));
            },
            Err(error) => {
                self.outcome = Some(Err(error));
            },
            Ok(false) => {
                if self.cursor >= self.step {
                    self.cursor = self.cursor - self.step;
                } else {
                    self.outcome = Some(Err(OsInfoError::UnsupportedGuest));
                }
            },
        }
    }

    /// The address at which the scan stands.
    pub fn cursor(&self) -> (cursor: u64)
        ensures
            cursor == self@.cursor,
    {
        self.cursor
    }

    /// How the scan ended: with the address of the kernel's image, or with
    /// the reason why there is none; none while the scan goes on.
    pub fn outcome(&self) -> (outcome: Option<Result<u64, OsInfoError>>)
        ensures
            outcome == self@.outcome,
    {
        self.outcome
    }
}

} // verus!
