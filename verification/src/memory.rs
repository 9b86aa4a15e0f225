//! Reading a value from guest memory, byte for byte. The host translates each
//! virtual address and reads the byte behind it; here it is decided which
//! address comes next and how the read ends. Nothing is kept between reads:
//! guest memory may change at any time.

use crate::error::OsInfoError;
use vstd::prelude::*;

verus! {

/// What the host found at one guest virtual address.
#[derive(Clone, Copy, Debug, PartialEq, Eq, Structural)]
pub enum ByteOutcome {
    /// The address has no mapping.
    Unmapped,
    /// The address is mapped, but no physical memory backs it.
    Unavailable,
    /// The byte at the address.
    Byte(u8),
}

/// The mathematical value of a [`GuestRead`].
pub struct GuestReadView {
    pub address: u64,
    pub size: usize,
    pub bytes: Seq<u8>,
    pub failure: Option<OsInfoError>,
}

impl GuestReadView {
    /// A read of `size` bytes at `address` of which nothing is read yet. A
    /// read that would leave the address space has failed where it starts:
    /// no such address is mapped.
    pub open spec fn begin(address: u64, size: usize) -> GuestReadView {
        GuestReadView {
            address,
            size,
            bytes: Seq::empty(),
            failure: if size > 0 && address + size - 1 > u64::MAX {
                Some(OsInfoError::TranslationError)
            } else {
                None
            },
        }
    }

    /// The address of the byte to read next; none once the read is complete
    /// or has failed.
    pub open spec fn pending(self) -> Option<u64> {
        if self.failure is None && self.bytes.len() < self.size {
            Some((self.address + self.bytes.len()) as u64)
        } else {
            None
        }
    }

    /// The read after the host looked at the pending address. A read that
    /// is over stays as it is.
    pub open spec fn step(self, outcome: ByteOutcome) -> GuestReadView {
        if self.pending() is None {
            self
        } else {
            match outcome {
                ByteOutcome::Byte(byte) => GuestReadView { bytes: self.bytes.push(byte), ..self },
                ByteOutcome::Unmapped => GuestReadView {
                    failure: Some(OsInfoError::TranslationError),
                    ..self
                },
                ByteOutcome::Unavailable => GuestReadView {
                    failure: Some(OsInfoError::ReadError),
                    ..self
                },
            }
        }
    }

    /// How the read ended; none while a byte is pending.
    pub open spec fn outcome(self) -> Option<Result<Seq<u8>, OsInfoError>> {
        match self.failure {
            Some(error) => Some(Err(error)),
            None => if self.bytes.len() < self.size {
                None
            } else {
                Some(Ok(self.bytes))
            },
        }
    }

    /// No more bytes are read than were asked for, and every address that
    /// is asked for lies in the address space.
    pub open spec fn bounded(self) -> bool {
        &&& self.bytes.len() <= self.size
        &&& self.failure is None && self.size > 0 ==> self.address + self.size - 1 <= u64::MAX
    }

    /// A step keeps the read within its bounds, and a read that is over
    /// stays over, with the outcome it had.
    pub proof fn lemma_step_bounded(self, outcome: ByteOutcome)
        requires
            self.bounded(),
        ensures
            self.step(outcome).bounded(),
            self.outcome() is Some ==> self.step(outcome) == self,
    {
    }
}

/// A read of a run of bytes at a guest virtual address.
#[derive(Debug)]
pub struct GuestRead {
    address: u64,
    size: usize,
    bytes: Vec<u8>,
    failure: Option<OsInfoError>,
}

impl View for GuestRead {
    type V = GuestReadView;

    closed spec fn view(&self) -> GuestReadView {
        GuestReadView {
            address: self.address,
            size: self.size,
            bytes: self.bytes@,
            failure: self.failure,
        }
    }
}

impl GuestRead {
    /// The read is within its bounds.
    #[verifier::type_invariant]
    pub closed spec fn wf(&self) -> bool {
        self@.bounded()
    }

    /// Begins a read of `size` bytes at `address`.
    pub fn begin(address: u64, size: usize) -> (read: GuestRead)
        ensures
            read.wf(),
            read@ == GuestReadView::begin(address, size),
    {
        let failure = if size > 0 && (size - 1) as u128 + address as u128 > u64::MAX as u128 {
            Some(OsInfoError::TranslationError)
        } else {
            None
        };
        GuestRead { address, size, bytes: Vec::new(), failure }
    }

    /// The address of the byte to read next; none once the read is complete
    /// or has failed.
    pub fn pending(&self) -> (pending: Option<u64>)
        ensures
            pending == self@.pending(),
    {
        proof {
            use_type_invariant(self);
        }
        if self.failure.is_none() && self.bytes.len() < self.size {
            Some(self.address + self.bytes.len() as u64)
        } else {
            None
        }
    }

    /// Takes what the host found at the pending address: a byte is added to
    /// the read, anything else ends it.
    pub fn supply(&mut self, outcome: ByteOutcome)
        ensures
            final(self).wf(),
            final(self)@ == old(self)@.step(outcome),
    {
        proof {
            use_type_invariant(&*self);
        }
        if self.pending().is_none() {
            return ;
        }
        match outcome {
            ByteOutcome::Byte(byte) => {
                let mut bytes: Vec<u8> = Vec::new();
                std::mem::swap(&mut bytes, &mut self.bytes);
                bytes.push(byte);
                std::mem::swap(&mut bytes, &mut self.bytes);
            },
            ByteOutcome::Unmapped => {
                self.failure = Some(OsInfoError::TranslationError);
            },
            ByteOutcome::Unavailable => {
                self.failure = Some(OsInfoError::ReadError);
            },
        }
    }

    /// How the read ended: with the bytes that were asked for, or with the
    /// failure that cut it short; none while a byte is pending.
    pub fn outcome(&self) -> (outcome: Option<Result<&Vec<u8>, OsInfoError>>)
        ensures
            match outcome {
                Some(Ok(bytes)) => self@.outcome() == Some(
                    Ok::<Seq<u8>, OsInfoError>(bytes@),
                ),
                Some(Err(error)) => self@.outcome() == Some(
                    Err::<Seq<u8>, OsInfoError>(error),
                ),
                None => self@.outcome() is None,
            },
    {
        match self.failure {
            Some(error) => Some(Err(error)),
            None => if self.bytes.len() < self.size {
                None
            } else {
                Some(Ok(&self.bytes))
            },
        }
    }
}

} // verus!
