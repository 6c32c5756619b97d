use vstd::prelude::*;
use crate::dispatch::{dispatcher, dispatcher_text};
use crate::sanitizer::{sanitize, sanitized};
use crate::scanner::{scan, scan_entry_points};
use crate::selector::{error_for, first_problem_from, resolve, table, PrepareError};
use crate::text::{chars_of, join, join_lines, lines, split_lines, string_of, texts};

verus! {

/// The entry-point names that `src` declares.
pub open spec fn entry_names(src: Seq<char>) -> Seq<Seq<char>> {
    scan(lines(src))
}

/// The program made of `src`: its sanitized lines followed by the dispatcher
/// over its entry points, joined by newlines.
pub open spec fn program_text(src: Seq<char>) -> Seq<char> {
    join(sanitized(lines(src)).push(dispatcher_text(table(entry_names(src)))), seq!['\n'])
}

/// The outcome of rewriting `src`: the program, where every entry point has a
/// selector and no name repeats; else the error for the first name that fails.
pub open spec fn prepared(src: Seq<char>, r: Result<String, PrepareError>) -> bool {
    let names = entry_names(src);
    match first_problem_from(names, 0) {
        None => r matches Ok(t) && t@ == program_text(src),
        Some(i) => r matches Err(e) && error_for(e, names[i]),
    }
}

/// Rewrites the expanded source of a contract module into a program whose
/// entry function dispatches a batch of calls to the module's wrappers.
pub fn prepare(expanded_content: String) -> (r: Result<String, PrepareError>)
    ensures
        prepared(expanded_content@, r),
{
    let src = chars_of(expanded_content.as_str());
    let ls = split_lines(&src);
    let names = scan_entry_points(&ls);
    let table = match resolve(&names) {
        Ok(t) => t,
        Err(e) => {
            return Err(e);
        },
    };
    let mut out = sanitize(&ls);
    let d = dispatcher(&table);
    let ghost before = texts(out@);
    let ghost dv = d@;
    out.push(d);
    assert(texts(out@) =~= before.push(dv));
    let text = join_lines(&out);
    Ok(string_of(&text))
}

} // verus!
