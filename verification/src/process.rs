//! Finding the process that a processor runs: from the processor's control
//! region over its current thread to the process, step by step. What cannot
//! be read on the way leaves no process to speak of.

use crate::error::OsInfoError;
use crate::text::before_zero;
use crate::text::decode_narrow_name;
use crate::text::utf8_text;
use crate::version::KernelLayout;
use vstd::prelude::*;

verus! {

/// The number of bytes of a process's image file name.
pub const IMAGE_NAME_SPAN: usize = 15;

/// What the host has to read next.
#[derive(Clone, Copy, Debug, PartialEq, Eq, Structural)]
pub enum ProbeAction {
    /// The pointer at a guest virtual address.
    ReadPointer { address: u64 },
    /// So many bytes at a guest virtual address.
    ReadBytes { address: u64, size: usize },
}

/// How far the way to the process has come.
#[derive(Clone, Copy, Debug, PartialEq, Eq, Structural)]
pub enum ProbeStage {
    /// The processor's control block is wanted, from its control region.
    ControlBlock { region: u64 },
    /// The current thread is wanted.
    Thread { block: u64 },
    /// The thread's process is wanted.
    Process { thread: u64 },
    /// The process's identifier is wanted.
    Identifier { process: u64 },
    /// The base address of the process's image is wanted.
    SectionBase { process: u64, pid: u64 },
    /// The name of the process's image file is wanted.
    ImageName { process: u64, pid: u64, base_address: u64 },
    /// The process's environment block is wanted.
    Environment { process: u64, pid: u64, base_address: u64 },
    /// The loader data of the environment block is wanted.
    Loader { pid: u64, base_address: u64, environment: u64 },
    /// The process is found. A process without an environment block maps
    /// no modules of its own and has no list of them.
    Found { pid: u64, base_address: u64, modules_head: Option<u64> },
    /// Something on the way could not be read.
    Failed,
}

/// The address of the field at `offset` of the structure at `base`; none
/// where that lies outside the address space.
pub open spec fn field_address(base: u64, offset: usize) -> Option<u64> {
    if base + offset <= u64::MAX {
        Some((base + offset) as u64)
    } else {
        None
    }
}

/// The address of a field, computed.
pub fn address_of_field(base: u64, offset: usize) -> (address: Option<u64>)
    ensures
        address == field_address(base, offset),
{
    if offset as u128 + base as u128 > u64::MAX as u128 {
        None
    } else {
        Some(base + offset as u64)
    }
}

/// The address of a processor's control region, of the two registers that
/// may hold it: which one does depends on whether the processor runs the
/// kernel or a process at the moment. The region lies in the kernel's half of
/// the address space, above every address of a process, so it is the larger
/// of the two.
pub fn control_region(gs_base: u64, kernel_gs_base: u64) -> (region: u64)
    ensures
        region >= gs_base,
        region >= kernel_gs_base,
        region == gs_base || region == kernel_gs_base,
{
    if gs_base >= kernel_gs_base {
        gs_base
    } else {
        kernel_gs_base
    }
}

impl ProbeStage {
    /// The structure and the field that this stage reads a pointer of.
    pub open spec fn pointer_field(self, layout: KernelLayout) -> Option<(u64, usize)> {
        match self {
            ProbeStage::ControlBlock { region } => Some((region, layout.control_block)),
            ProbeStage::Thread { block } => Some((block, layout.current_thread)),
            ProbeStage::Process { thread } => Some((thread, layout.thread_process)),
            ProbeStage::Identifier { process } => Some((process, layout.process_id)),
            ProbeStage::SectionBase { process, .. } => Some((process, layout.process_section_base)),
            ProbeStage::Environment { process, .. } => Some((process, layout.process_environment)),
            ProbeStage::Loader { environment, .. } => Some((environment, layout.environment_loader)),
            _ => None,
        }
    }

    /// What the host has to read next; nothing once the process is found,
    /// or cannot be: also where the next field lies outside the address
    /// space.
    pub open spec fn action(self, layout: KernelLayout) -> Option<ProbeAction> {
        match self {
            ProbeStage::ImageName { process, .. } => match field_address(
                process,
                layout.process_image_name,
            ) {
                Some(address) => Some(ProbeAction::ReadBytes { address, size: IMAGE_NAME_SPAN }),
                None => None,
            },
            _ => match self.pointer_field(layout) {
                Some((base, offset)) => match field_address(base, offset) {
                    Some(address) => Some(ProbeAction::ReadPointer { address }),
                    None => None,
                },
                None => None,
            },
        }
    }

    /// The stage after the host read the pointer that was asked for. Where
    /// no pointer was asked for nothing changes.
    pub open spec fn with_pointer(self, layout: KernelLayout, pointer: u64) -> ProbeStage {
        if !(self.action(layout) matches Some(ProbeAction::ReadPointer { .. })) {
            self
        } else {
            match self {
                ProbeStage::ControlBlock { .. } => ProbeStage::Thread { block: pointer },
                ProbeStage::Thread { .. } => ProbeStage::Process { thread: pointer },
                ProbeStage::Process { .. } => ProbeStage::Identifier { process: pointer },
                ProbeStage::Identifier { process } => ProbeStage::SectionBase {
                    process,
                    pid: pointer,
                },
                ProbeStage::SectionBase { process, pid } => ProbeStage::ImageName {
                    process,
                    pid,
                    base_address: pointer,
                },
                ProbeStage::Environment { pid, base_address, .. } => if pointer == 0 {
                    ProbeStage::Found { pid, base_address, modules_head: None }
                } else {
                    ProbeStage::Loader { pid, base_address, environment: pointer }
                },
                ProbeStage::Loader { pid, base_address, .. } => match field_address(
                    pointer,
                    layout.loader_modules,
                ) {
                    Some(head) => ProbeStage::Found { pid, base_address, modules_head: Some(head) },
                    None => ProbeStage::Failed,
                },
                _ => self,
            }
        }
    }

    /// The stage after the host read the bytes of the image file name.
    /// Where no bytes were asked for nothing changes.
    pub open spec fn with_bytes(self, layout: KernelLayout) -> ProbeStage {
        match self {
            ProbeStage::ImageName { process, pid, base_address } => if self.action(layout) is Some {
                ProbeStage::Environment { process, pid, base_address }
            } else {
                self
            },
            _ => self,
        }
    }

    /// The stage after the read that was asked for failed. Where nothing
    /// was asked for nothing changes.
    pub open spec fn with_failure(self, layout: KernelLayout) -> ProbeStage {
        if self.action(layout) is Some {
            ProbeStage::Failed
        } else {
            self
        }
    }
}

/// The process that a processor runs, before its modules are walked.
#[derive(Debug, PartialEq, Eq)]
pub struct ProcessRoot {
    /// The guest's identifier of the process.
    pub pid: u64,
    /// The name of the process's image file.
    pub file_name: String,
    /// The address at which the process's image is loaded.
    pub base_address: u64,
    /// The head of the list of the modules that the process maps; none for
    /// a process without an environment block.
    pub modules_head: Option<u64>,
}

/// The mathematical value of a [`ProcessProbe`].
pub struct ProcessProbeView {
    pub layout: KernelLayout,
    pub stage: ProbeStage,
    pub file_name: Seq<char>,
}

impl ProcessProbeView {
    /// What the host has to read next.
    pub open spec fn action(self) -> Option<ProbeAction> {
        self.stage.action(self.layout)
    }

    /// How the way ended; none while something is left to read. It ends well
    /// only where the process is found; every other end is a failure to
    /// enumerate.
    pub open spec fn outcome(self) -> Option<Result<(u64, Seq<char>, u64, Option<u64>), OsInfoError>> {
        match self.stage {
            ProbeStage::Found { pid, base_address, modules_head } => Some(
                Ok((pid, self.file_name, base_address, modules_head)),
            ),
            _ => if self.action() is Some {
                None
            } else {
                Some(Err(OsInfoError::EnumerationError))
            },
        }
    }

    /// The probe after the host read the pointer that was asked for.
    pub open spec fn with_pointer(self, pointer: u64) -> ProcessProbeView {
        ProcessProbeView { stage: self.stage.with_pointer(self.layout, pointer), ..self }
    }

    /// The probe after the host read the bytes of the image file name: the
    /// name is the text before the first zero byte.
    pub open spec fn with_bytes(self, bytes: Seq<u8>) -> ProcessProbeView {
        if self.stage is ImageName && self.action() is Some {
            ProcessProbeView {
                stage: self.stage.with_bytes(self.layout),
                file_name: utf8_text(before_zero(bytes)),
                ..self
            }
        } else {
            self
        }
    }

    /// The probe after the read that was asked for failed.
    pub open spec fn with_failure(self) -> ProcessProbeView {
        ProcessProbeView { stage: self.stage.with_failure(self.layout), ..self }
    }

    /// A probe that is over stays over, whatever the host supplies.
    pub proof fn lemma_over_stays_over(self, pointer: u64, bytes: Seq<u8>)
        requires
            self.outcome() is Some,
        ensures
            self.with_pointer(pointer) == self,
            self.with_bytes(bytes) == self,
            self.with_failure() == self,
    {
    }

    /// A read that fails on the way to the process leaves no process: the
    /// probe ends as a failure to enumerate.
    pub proof fn lemma_failure_is_fatal(self)
        requires
            self.outcome() is None,
        ensures
            self.with_failure().outcome() == Some(
                Err::<(u64, Seq<char>, u64, Option<u64>), OsInfoError>(
                    OsInfoError::EnumerationError,
                ),
            ),
    {
    }
}

/// The way from a processor's control region to the process that it runs.
#[derive(Debug)]
pub struct ProcessProbe {
    layout: KernelLayout,
    stage: ProbeStage,
    file_name: String,
}

impl View for ProcessProbe {
    type V = ProcessProbeView;

    closed spec fn view(&self) -> ProcessProbeView {
        ProcessProbeView { layout: self.layout, stage: self.stage, file_name: self.file_name@ }
    }
}

impl ProcessProbe {
    /// Starts at the processor's control region.
    pub fn begin(layout: KernelLayout, region: u64) -> (probe: ProcessProbe)
        ensures
            probe@ == (ProcessProbeView {
                layout,
                stage: ProbeStage::ControlBlock { region },
                file_name: Seq::empty(),
            }),
    {
        ProcessProbe { layout, stage: ProbeStage::ControlBlock { region }, file_name: String::new() }
    }

    /// What the host has to read next; nothing once the probe is over.
    pub fn action(&self) -> (action: Option<ProbeAction>)
        ensures
            action == self@.action(),
    {
        let field = match self.stage {
            ProbeStage::ControlBlock { region } => (region, self.layout.control_block),
            ProbeStage::Thread { block } => (block, self.layout.current_thread),
            ProbeStage::Process { thread } => (thread, self.layout.thread_process),
            ProbeStage::Identifier { process } => (process, self.layout.process_id),
            ProbeStage::SectionBase { process, .. } => (process, self.layout.process_section_base),
            ProbeStage::Environment { process, .. } => (process, self.layout.process_environment),
            ProbeStage::Loader { environment, .. } => (environment, self.layout.environment_loader),
            ProbeStage::ImageName { process, .. } => {
                return match address_of_field(process, self.layout.process_image_name) {
                    Some(address) => Some(ProbeAction::ReadBytes { address, size: IMAGE_NAME_SPAN }),
                    None => None,
                };
            },
            ProbeStage::Found { .. } | ProbeStage::Failed => {
                return None;
            },
        };
        match address_of_field(field.0, field.1) {
            Some(address) => Some(ProbeAction::ReadPointer { address }),
            None => None,
        }
    }

    /// Takes the pointer that the host read.
    pub fn supply_pointer(&mut self, pointer: u64)
        ensures
            final(self)@ == old(self)@.with_pointer(pointer),
    {
        match self.action() {
            Some(ProbeAction::ReadPointer { .. }) => {},
            _ => {
                return ;
            },
        }
        let next = match self.stage {
            ProbeStage::ControlBlock { .. } => ProbeStage::Thread { block: pointer },
            ProbeStage::Thread { .. } => ProbeStage::Process { thread: pointer },
            ProbeStage::Process { .. } => ProbeStage::Identifier { process: pointer },
            ProbeStage::Identifier { process } => ProbeStage::SectionBase { process, pid: pointer },
            ProbeStage::SectionBase { process, pid } => ProbeStage::ImageName {
                process,
                pid,
                base_address: pointer,
            },
            ProbeStage::Environment { pid, base_address, .. } => if pointer == 0 {
                ProbeStage::Found { pid, base_address, modules_head: None }
            } else {
                ProbeStage::Loader { pid, base_address, environment: pointer }
            },
            ProbeStage::Loader { pid, base_address, .. } => match address_of_field(
                pointer,
                self.layout.loader_modules,
            ) {
                Some(head) => ProbeStage::Found { pid, base_address, modules_head: Some(head) },
                None => ProbeStage::Failed,
            },
            other => other,
        };
        self.stage = next;
    }

    /// Takes the bytes of the image file name that the host read.
    pub fn supply_bytes(&mut self, bytes: &[u8])
        ensures
            final(self)@ == old(self)@.with_bytes(bytes@),
    {
        match self.stage {
            ProbeStage::ImageName { process, pid, base_address } => {
                if self.action().is_some() {
                    self.file_name = decode_narrow_name(bytes);
                    self.stage = ProbeStage::Environment { process, pid, base_address };
                }
            },
            _ => {},
        }
    }

    /// Takes the failure of the read that the host was asked for.
    pub fn supply_failure(&mut self)
        ensures
            final(self)@ == old(self)@.with_failure(),
    {
        if self.action().is_some() {
            self.stage = ProbeStage::Failed;
        }
    }

    /// How the probe ended: with the process, or as a failure to enumerate;
    /// none while something is left to read.
    pub fn finish(self) -> (outcome: Option<Result<ProcessRoot, OsInfoError>>)
        ensures
            match outcome {
                Some(Ok(root)) => self@.outcome() == Some(
                    Ok::<(u64, Seq<char>, u64, Option<u64>), OsInfoError>(
                        (root.pid, root.file_name@, root.base_address, root.modules_head),
                    ),
                ),
                Some(Err(error)) => self@.outcome() == Some(
                    Err::<(u64, Seq<char>, u64, Option<u64>), OsInfoError>(error),
                ),
                None => self@.outcome() is None,
            },
    {
        match self.stage {
            ProbeStage::Found { pid, base_address, modules_head } => Some(
                Ok(ProcessRoot { pid, file_name: self.file_name, base_address, modules_head }),
            ),
            _ => if self.action().is_some() {
                None
            } else {
                Some(Err(OsInfoError::EnumerationError))
            },
        }
    }
}

} // verus!
