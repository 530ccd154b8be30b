//! Semantic analysis: a set of checks that run on the syntax tree.

use vstd::prelude::*;

pub mod basic;
pub mod check_main;
pub mod typeck;

use crate::ast::File;
use crate::shared::span::Span;

verus! {

/// What a failed analysis reports, as plain values.
pub struct SemaFailure {
    pub reason: Seq<char>,
    pub span: Option<Span>,
}

/// Represents an error that occurred during semantic analysis.
#[derive(Debug)]
pub struct SemaError {
    /// The cause of this error.
    pub reason: String,
    /// The (optional) span of this error.
    pub span: Option<Span>,
}

impl View for SemaError {
    type V = SemaFailure;

    open spec fn view(&self) -> SemaFailure {
        SemaFailure { reason: self.reason@, span: self.span }
    }
}

/// Represents the result of an analysis.
pub type SemaResult<T> = Result<T, SemaError>;

/// Must be implemented for any semantic analysis.
pub trait Analysis {
    /// What this analysis, in its current state, finds wrong with `ast`.
    spec fn verdict(&self, ast: &File) -> Option<SemaFailure>;

    /// Run the analysis on `ast`.
    fn run(&mut self, ast: &File) -> (result: SemaResult<()>)
        ensures
            match old(self).verdict(ast) {
                None => result is Ok,
                Some(failure) => result is Err && result->Err_0@ == failure,
            },
    ;
}

/// What the first `n` of `analyses` find wrong with `ast`, in their order.
pub open spec fn verdicts(analyses: Seq<Box<dyn Analysis>>, ast: &File, n: nat) -> Seq<SemaFailure>
    decreases n,
{
    if n == 0 || n > analyses.len() {
        Seq::empty()
    } else {
        match analyses[n - 1].verdict(ast) {
            None => verdicts(analyses, ast, (n - 1) as nat),
            Some(failure) => verdicts(analyses, ast, (n - 1) as nat).push(failure),
        }
    }
}

/// Contains all semantic analysis to be run on the AST.
pub struct SemaEngine<'a> {
    ast: &'a File,
    analyses: Vec<Box<dyn Analysis>>,
}

impl<'a> SemaEngine<'a> {
    /// The syntax tree that the analyses run on.
    pub closed spec fn ast(&self) -> &'a File {
        self.ast
    }

    /// The registered analyses, in the order of their registration.
    pub closed spec fn analyses(&self) -> Seq<Box<dyn Analysis>> {
        self.analyses@
    }

    /// Create a new semantic engine.
    pub fn new(ast: &'a File) -> (engine: Self)
        ensures
            engine.ast() == ast,
            engine.analyses() == Seq::<Box<dyn Analysis>>::empty(),
    {
        SemaEngine { ast, analyses: Vec::new() }
    }

    /// Register an analysis.
    pub fn register(self, analysis: Box<dyn Analysis>) -> (engine: Self)
        ensures
            engine.ast() == self.ast(),
            engine.analyses() == self.analyses().push(analysis),
    {
        let mut engine = self;
        engine.analyses.push(analysis);
        engine
    }

    /// Run all analyses and report what each of them found wrong, in the
    /// order of their registration.
    pub fn run(&mut self) -> (result: Result<(), Vec<SemaError>>)
        ensures
            final(self).ast() == old(self).ast(),
            final(self).analyses().len() == old(self).analyses().len(),
            ({
                let found = verdicts(
                    old(self).analyses(),
                    old(self).ast(),
                    old(self).analyses().len(),
                );
                match result {
                    Ok(_) => found.len() == 0,
                    Err(errors) => found.len() > 0 && errors@.len() == found.len() && forall|
                        k: int,
                    |
                        0 <= k < found.len() ==> (#[trigger] errors@[k])@ == found[k],
                }
            }),
    {
        let mut errors: Vec<SemaError> = Vec::new();
        let mut i: usize = 0;
        while i < self.analyses.len()
            invariant
                i <= self.analyses.len(),
                self.ast == old(self).ast,
                self.analyses@.len() == old(self).analyses@.len(),
                forall|k: int| i <= k < self.analyses@.len() ==> self.analyses@[k] == old(
                    self,
                ).analyses@[k],
                errors@.len() == verdicts(old(self).analyses@, self.ast, i as nat).len(),
                forall|k: int|
                    0 <= k < errors@.len() ==> (#[trigger] errors@[k])@ == verdicts(
                        old(self).analyses@,
                        self.ast,
                        i as nat,
                    )[k],
            decreases self.analyses.len() - i,
        {
            match self.analyses[i].run(self.ast) {
                Ok(_) => {},
                Err(err) => {
                    errors.push(err);
                },
            }
            i = i + 1;
        }
        if errors.len() == 0 {
            Ok(())
        } else {
            Err(errors)
        }
    }
}

} // verus!
