//! What the two scanning strategies have in common.

use vstd::prelude::*;
use crate::elf_parser::ELFParser;
use crate::gdb_parser::{progress_of, GdbParser};
use crate::progress::ScanProgress;
use crate::variable::{catalog_view, VariableInfo, VariableSpec};

verus! {

/// A scan of a firmware image for its variables, whatever it reads them
/// from. Its owner feeds it in the way of its kind; whoever waits for the
/// catalog needs nothing but this.
pub trait SymbolScanner {
    /// The scan is in a state that its methods lead to.
    spec fn valid(&self) -> bool;

    /// The progress that the scan shows.
    spec fn shown_progress(&self) -> ScanProgress;

    /// The variables found so far.
    spec fn found(&self) -> Seq<VariableSpec>;

    /// How far the scan has come.
    fn progress(&self) -> (r: ScanProgress)
        requires
            self.valid(),
        ensures
            r == self.shown_progress(),
            r.well_formed(),
    ;

    /// The catalog, once the scan is complete; until then the empty list.
    fn catalog(&self) -> (r: Vec<VariableInfo>)
        requires
            self.valid(),
        ensures
            catalog_view(r@) == if self.shown_progress().complete {
                self.found()
            } else {
                Seq::<VariableSpec>::empty()
            },
    ;
}

impl SymbolScanner for GdbParser {
    open spec fn valid(&self) -> bool {
        self.wf()
    }

    open spec fn shown_progress(&self) -> ScanProgress {
        progress_of(self@)
    }

    open spec fn found(&self) -> Seq<VariableSpec> {
        self@.catalog
    }

    fn progress(&self) -> (r: ScanProgress) {
        self.get_scan_progress()
    }

    fn catalog(&self) -> (r: Vec<VariableInfo>) {
        self.load_variable_list()
    }
}

impl SymbolScanner for ELFParser {
    open spec fn valid(&self) -> bool {
        self.wf()
    }

    open spec fn shown_progress(&self) -> ScanProgress {
        self@.progress
    }

    open spec fn found(&self) -> Seq<VariableSpec> {
        self@.catalog
    }

    fn progress(&self) -> (r: ScanProgress) {
        self.get_scan_progress()
    }

    fn catalog(&self) -> (r: Vec<VariableInfo>) {
        self.load_variable_list()
    }
}

} // verus!
