use vstd::prelude::*;

use super::basic::{find_main, judge_main, main_verdict, visit_file, MainSeen};
use super::{Analysis, SemaFailure, SemaResult};
use crate::ast::{File, Ident};

verus! {

/// Make sure the source code contains a valid main function.
pub struct CheckMain {
    /// The main function identifier.
    main: Option<Ident>,
    /// How many parameters does the main function have?
    params: usize,
}

impl CheckMain {
    /// What this analysis has seen of the main function.
    pub closed spec fn seen(&self) -> MainSeen {
        MainSeen { main: self.main, params: self.params }
    }

    /// Create the analysis; it has seen no main function yet.
    pub fn new() -> (check: Self)
        ensures
            check.seen() == (MainSeen { main: None, params: 0 }),
    {
        CheckMain { main: None, params: 0 }
    }
}

impl Analysis for CheckMain {
    open spec fn verdict(&self, ast: &File) -> Option<SemaFailure> {
        main_verdict(find_main(self.seen(), ast.items@, ast.items@.len()), ast)
    }

    fn run(&mut self, file: &File) -> (result: SemaResult<()>)
        ensures
            final(self).seen() == find_main(old(self).seen(), file.items@, file.items@.len()),
    {
        visit_file(&mut self.main, &mut self.params, file);
        judge_main(&self.main, self.params, file)
    }
}

} // verus!
