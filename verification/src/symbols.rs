//! What is known of a guest's code: line-table entries, symbols, the modules
//! that hold them and the process that maps the modules.

use vstd::prelude::*;

verus! {

/// One entry of a symbol's line table: a run of source lines in one file.
#[derive(Debug, PartialEq, Eq)]
pub struct LineInfo {
    /// Offset of the entry's code from the module's base.
    pub rva: u64,
    /// Length of the entry's code in bytes.
    pub size: u32,
    /// The source file.
    pub file_path: String,
    /// The first source line of the run.
    pub start_line: u32,
    /// The last source line of the run.
    pub end_line: u32,
}

/// The mathematical value of a [`LineInfo`].
pub struct LineInfoView {
    pub rva: u64,
    pub size: u32,
    pub file_path: Seq<char>,
    pub start_line: u32,
    pub end_line: u32,
}

impl View for LineInfo {
    type V = LineInfoView;

    open spec fn view(&self) -> LineInfoView {
        LineInfoView {
            rva: self.rva,
            size: self.size,
            file_path: self.file_path@,
            start_line: self.start_line,
            end_line: self.end_line,
        }
    }
}

impl Clone for LineInfo {
    fn clone(&self) -> (copy: Self)
        ensures
            copy@ == self@,
    {
        LineInfo {
            rva: self.rva,
            size: self.size,
            file_path: self.file_path.clone(),
            start_line: self.start_line,
            end_line: self.end_line,
        }
    }
}

/// A function of a module, with its line table in address order.
#[derive(Debug, PartialEq, Eq)]
pub struct SymbolInfo {
    /// Offset of the function from the module's base.
    pub rva: u64,
    /// Length of the function in bytes.
    pub size: u64,
    /// The function's name.
    pub name: String,
    /// The full name of the module that holds the function.
    pub module: String,
    /// The line table.
    pub lines: Vec<LineInfo>,
}

/// The mathematical value of a [`SymbolInfo`].
pub struct SymbolInfoView {
    pub rva: u64,
    pub size: u64,
    pub name: Seq<char>,
    pub module: Seq<char>,
    pub lines: Seq<LineInfoView>,
}

/// The values of a run of line-table entries.
pub open spec fn lines_view(lines: Seq<LineInfo>) -> Seq<LineInfoView> {
    Seq::new(lines.len(), |i: int| lines[i]@)
}

impl View for SymbolInfo {
    type V = SymbolInfoView;

    open spec fn view(&self) -> SymbolInfoView {
        SymbolInfoView {
            rva: self.rva,
            size: self.size,
            name: self.name@,
            module: self.module@,
            lines: lines_view(self.lines@),
        }
    }
}

impl Clone for SymbolInfo {
    fn clone(&self) -> (copy: Self)
        ensures
            copy@ == self@,
    {
        let mut lines: Vec<LineInfo> = Vec::new();
        let mut i: usize = 0;
        while i < self.lines.len()
            invariant
                i <= self.lines.len(),
                lines.len() == i,
                forall|j: int| 0 <= j < i ==> lines[j]@ == self.lines[j]@,
            decreases self.lines.len() - i,
        {
            lines.push(self.lines[i].clone());
            i += 1;
        }
        assert(lines_view(lines@) =~= lines_view(self.lines@));
        SymbolInfo {
            rva: self.rva,
            size: self.size,
            name: self.name.clone(),
            module: self.module.clone(),
            lines,
        }
    }
}

/// The values of a run of symbols.
pub open spec fn symbols_view(symbols: Seq<SymbolInfo>) -> Seq<SymbolInfoView> {
    Seq::new(symbols.len(), |i: int| symbols[i]@)
}

/// Copies a run of symbols.
pub fn clone_symbols(symbols: &Vec<SymbolInfo>) -> (copy: Vec<SymbolInfo>)
    ensures
        symbols_view(copy@) == symbols_view(symbols@),
{
    let mut copy: Vec<SymbolInfo> = Vec::new();
    let mut i: usize = 0;
    while i < symbols.len()
        invariant
            i <= symbols.len(),
            copy.len() == i,
            forall|j: int| 0 <= j < i ==> copy[j]@ == symbols[j]@,
        decreases symbols.len() - i,
    {
        copy.push(symbols[i].clone());
        i += 1;
    }
    assert(symbols_view(copy@) =~= symbols_view(symbols@));
    copy
}

/// An image loaded in the guest: a kernel module, or a module of a process.
#[derive(Debug, PartialEq, Eq)]
pub struct Module {
    /// The address at which the image is loaded.
    pub base: u64,
    /// The size of the loaded image in bytes.
    pub size: u64,
    /// The image's full name, as the guest records it.
    pub full_name: String,
    /// The image's file name without its directory.
    pub base_name: String,
    /// The image's symbols, where debug information was found for it.
    pub debug_info: Option<Vec<SymbolInfo>>,
}

/// The mathematical value of a [`Module`].
pub struct ModuleView {
    pub base: u64,
    pub size: u64,
    pub full_name: Seq<char>,
    pub base_name: Seq<char>,
    pub debug_info: Option<Seq<SymbolInfoView>>,
}

impl View for Module {
    type V = ModuleView;

    open spec fn view(&self) -> ModuleView {
        ModuleView {
            base: self.base,
            size: self.size,
            full_name: self.full_name@,
            base_name: self.base_name@,
            debug_info: match self.debug_info {
                Some(symbols) => Some(symbols_view(symbols@)),
                None => None,
            },
        }
    }
}

/// The values of a run of modules.
pub open spec fn modules_view(modules: Seq<Module>) -> Seq<ModuleView> {
    Seq::new(modules.len(), |i: int| modules[i]@)
}

/// The process that a virtual processor was running when it was looked at.
#[derive(Debug, PartialEq, Eq)]
pub struct Process {
    /// The guest's identifier of the process.
    pub pid: u64,
    /// The name of the process's image file.
    pub file_name: String,
    /// The address at which the process's image is loaded.
    pub base_address: u64,
    /// The modules that the process maps, in load order.
    pub modules: Vec<Module>,
}

/// The mathematical value of a [`Process`].
pub struct ProcessView {
    pub pid: u64,
    pub file_name: Seq<char>,
    pub base_address: u64,
    pub modules: Seq<ModuleView>,
}

impl View for Process {
    type V = ProcessView;

    open spec fn view(&self) -> ProcessView {
        ProcessView {
            pid: self.pid,
            file_name: self.file_name@,
            base_address: self.base_address,
            modules: modules_view(self.modules@),
        }
    }
}

} // verus!
