use vstd::prelude::*;
use vstd::string::StringExecFns;

use super::{Analysis, SemaError, SemaFailure, SemaResult};
use crate::ast::{File, Ident, Item};
use crate::shared::span::Span;
use crate::text::{append_decimal, decimal, str_eq};

verus! {

/// The main function seen so far, if any, and the number of its parameters.
pub struct MainSeen {
    pub main: Option<Ident>,
    pub params: usize,
}

/// What is known of the main function after the first `n` items are
/// visited: each function called `main` replaces what was seen before.
pub open spec fn find_main(seen: MainSeen, items: Seq<Item>, n: nat) -> MainSeen
    decreases n,
{
    if n == 0 || n > items.len() {
        seen
    } else {
        let before = find_main(seen, items, (n - 1) as nat);
        match items[n - 1] {
            Item::Fn(item_fn) if item_fn.ident.repr@ == "main"@ => MainSeen {
                main: Some(item_fn.ident),
                params: item_fn.params.params@.len() as usize,
            },
            _ => before,
        }
    }
}

/// What is wrong with the main function of `file`: that there is none, or
/// that it takes parameters.
pub open spec fn main_verdict(seen: MainSeen, file: &File) -> Option<SemaFailure> {
    match seen.main {
        Some(ident) if seen.params == 1 => Some(
            SemaFailure {
                reason: "Main function takes no arguments, but 1 was provided"@,
                span: Some(ident.span),
            },
        ),
        Some(ident) if seen.params > 1 => Some(
            SemaFailure {
                reason: "Main function takes no arguments, but "@ + decimal(seen.params as nat)
                    + " were provided"@,
                span: Some(ident.span),
            },
        ),
        None => Some(
            SemaFailure {
                reason: "Could not find the main function"@,
                span: Some(Span::spec_single(file.span.start.line, file.span.start.column)),
            },
        ),
        _ => None,
    }
}

/// Look through the items of `file` for the main function, starting from
/// what was seen before.
pub fn visit_file(main: &mut Option<Ident>, params: &mut usize, file: &File)
    ensures
        (MainSeen { main: *final(main), params: *final(params) }) == find_main(
            MainSeen { main: *old(main), params: *old(params) },
            file.items@,
            file.items@.len(),
        ),
{
    let mut i: usize = 0;
    while i < file.items.len()
        invariant
            i <= file.items.len(),
            (MainSeen { main: *main, params: *params }) == find_main(
                MainSeen { main: *old(main), params: *old(params) },
                file.items@,
                i as nat,
            ),
        decreases file.items.len() - i,
    {
        match &file.items[i] {
            Item::Fn(item_fn) => {
                if str_eq(item_fn.ident.repr.as_str(), "main") {
                    *main = Some(item_fn.ident.clone());
                    *params = item_fn.params.len();
                }
            },
            _ => {},
        }
        i = i + 1;
    }
}

/// Report what is wrong with the main function that was seen, if anything.
pub fn judge_main(main: &Option<Ident>, params: usize, file: &File) -> (result: SemaResult<()>)
    ensures
        match main_verdict(MainSeen { main: *main, params }, file) {
            None => result is Ok,
            Some(failure) => result is Err && result->Err_0@ == failure,
        },
{
    match main {
        Some(ident) => {
            if params == 1 {
                Err(
                    SemaError {
                        reason: String::from_str(
                            "Main function takes no arguments, but 1 was provided",
                        ),
                        span: Some(ident.span),
                    },
                )
            } else if params > 1 {
                let mut reason = String::from_str("Main function takes no arguments, but ");
                append_decimal(&mut reason, params as u64);
                reason.append(" were provided");
                Err(SemaError { reason, span: Some(ident.span) })
            } else {
                Ok(())
            }
        },
        None => Err(
            SemaError {
                reason: String::from_str("Could not find the main function"),
                span: Some(Span::single(file.span.start.line, file.span.start.column)),
            },
        ),
    }
}

/// Performs several basic checks, including...
/// - Does a `main` function exist?
/// - Does the `main` function have no parameters?
pub struct Basic {
    /// The main function identifier.
    main: Option<Ident>,
    /// How many parameters does the main function have?
    params: usize,
}

impl Basic {
    /// What this analysis has seen of the main function.
    pub closed spec fn seen(&self) -> MainSeen {
        MainSeen { main: self.main, params: self.params }
    }

    /// Create the analysis; it has seen no main function yet.
    pub fn new() -> (basic: Self)
        ensures
            basic.seen() == (MainSeen { main: None, params: 0 }),
    {
        Basic { main: None, params: 0 }
    }
}

impl Analysis for Basic {
    open spec fn verdict(&self, ast: &File) -> Option<SemaFailure> {
        main_verdict(find_main(self.seen(), ast.items@, ast.items@.len()), ast)
    }

    fn run(&mut self, file: &File) -> (result: SemaResult<()>)
        ensures
            final(self).seen() == find_main(old(self).seen(), file.items@, file.items@.len()),
    {
        visit_file(&mut self.main, &mut self.params, file);
        judge_main(&self.main, self.params, file)
    }
}

} // verus!
