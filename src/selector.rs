use vstd::prelude::*;
use crate::text::{chars_of, same_text, string_of, texts};

verus! {

#[verifier::external_type_specification]
#[verifier::external_body]
pub struct ExNonAsciiNameError(starknet::core::utils::NonAsciiNameError);

/// The decimal text of the selector that the ecosystem's hashing convention
/// gives the entry-point name `name`.
pub uninterp spec fn selector_text(name: Seq<char>) -> Seq<char>;

/// Every character of `s` is ASCII.
pub open spec fn is_ascii_text(s: Seq<char>) -> bool {
    forall|i: int| 0 <= i < s.len() ==> s[i] <= '\u{7F}'
}

/// Relies on `starknet::core::utils::get_selector_from_name`, written out in
/// decimal by the field element's `Display`: it fails exactly when the name
/// holds a character outside ASCII, and is a function of the name alone.
#[verifier::external_body]
fn selector_of(name: &Vec<char>) -> (r: Result<String, starknet::core::utils::NonAsciiNameError>)
    ensures
        r is Ok <==> is_ascii_text(name@),
        r matches Ok(t) ==> t@ == selector_text(name@),
{
    let s: String = name.iter().collect();
    match starknet::core::utils::get_selector_from_name(&s) {
        Ok(f) => Ok(f.to_string()),
        Err(e) => Err(e),
    }
}

/// One row of the dispatch table.
pub struct EntryPoint {
    pub name: Vec<char>,
    pub selector: Vec<char>,
}

/// Why no dispatch table could be built.
#[derive(Debug)]
pub enum PrepareError {
    /// The name holds a character that selectors cannot be computed for.
    NonAsciiName(String),
    /// The name is declared twice.
    DuplicateEntryPoint(String),
}

/// The rows of a dispatch table as (name, selector) pairs.
pub open spec fn rows(t: Seq<EntryPoint>) -> Seq<(Seq<char>, Seq<char>)> {
    t.map_values(|e: EntryPoint| (e.name@, e.selector@))
}

/// The dispatch table for `names`: each name with its selector, in order.
pub open spec fn table(names: Seq<Seq<char>>) -> Seq<(Seq<char>, Seq<char>)> {
    names.map_values(|n: Seq<char>| (n, selector_text(n)))
}

/// The name at `i` has no selector, or repeats an earlier name.
pub open spec fn problem_at(names: Seq<Seq<char>>, i: int) -> bool {
    !is_ascii_text(names[i]) || exists|j: int| 0 <= j < i && names[j] == names[i]
}

/// The first index at or after `i` whose name cannot enter the table.
pub open spec fn first_problem_from(names: Seq<Seq<char>>, i: int) -> Option<int>
    decreases names.len() - i,
{
    if i < 0 || i >= names.len() {
        None
    } else if problem_at(names, i) {
        Some(i)
    } else {
        first_problem_from(names, i + 1)
    }
}

/// The error reported for the name `n`.
pub open spec fn error_for(e: PrepareError, n: Seq<char>) -> bool {
    match e {
        PrepareError::NonAsciiName(t) => !is_ascii_text(n) && t@ == n,
        PrepareError::DuplicateEntryPoint(t) => is_ascii_text(n) && t@ == n,
    }
}

/// The outcome of building the table for `names`: the table when every name
/// has a selector and none repeats, else the error for the first that fails.
pub open spec fn resolved(names: Seq<Seq<char>>, r: Result<Vec<EntryPoint>, PrepareError>) -> bool {
    match first_problem_from(names, 0) {
        None => r matches Ok(t) && rows(t@) == table(names),
        Some(i) => r matches Err(e) && error_for(e, names[i]),
    }
}

/// Whether `names[i]` repeats one of the names before it.
fn repeats_earlier(names: &Vec<Vec<char>>, i: usize) -> (r: bool)
    requires
        i < names.len(),
    ensures
        r == exists|j: int| 0 <= j < i && names@[j]@ == names@[i as int]@,
{
    let mut j: usize = 0;
    while j < i
        invariant
            i < names.len(),
            j <= i,
            forall|k: int| 0 <= k < j ==> names@[k]@ != names@[i as int]@,
        decreases i - j,
    {
        if same_text(&names[j], &names[i]) {
            return true;
        }
        j += 1;
    }
    false
}

/// Attaches its selector to each name, in order. Fails on the first name
/// that has no selector or that repeats an earlier one.
pub fn resolve(names: &Vec<Vec<char>>) -> (r: Result<Vec<EntryPoint>, PrepareError>)
    ensures
        resolved(texts(names@), r),
{
    let ghost ns = texts(names@);
    let mut t: Vec<EntryPoint> = Vec::new();
    let mut i: usize = 0;
    while i < names.len()
        invariant
            i <= names.len(),
            ns == texts(names@),
            first_problem_from(ns, i as int) == first_problem_from(ns, 0),
            forall|k: int| 0 <= k < i ==> !problem_at(ns, k),
            rows(t@) == table(ns.take(i as int)),
        decreases names.len() - i,
    {
        assert(ns[i as int] == names@[i as int]@);
        let sel = match selector_of(&names[i]) {
            Ok(s) => s,
            Err(_) => {
                return Err(PrepareError::NonAsciiName(string_of(&names[i])));
            },
        };
        if repeats_earlier(names, i) {
            proof {
                let j = choose|j: int| 0 <= j < i && names@[j]@ == names@[i as int]@;
                assert(ns[j] == names@[j]@);
                assert(problem_at(ns, i as int));
            }
            return Err(PrepareError::DuplicateEntryPoint(string_of(&names[i])));
        }
        let ghost before = rows(t@);
        let e = EntryPoint { name: names[i].clone(), selector: chars_of(sel.as_str()) };
        t.push(e);
        assert(rows(t@) =~= before.push((ns[i as int], selector_text(ns[i as int]))));
        assert(table(ns.take(i + 1)) =~= table(ns.take(i as int)).push(
            (ns[i as int], selector_text(ns[i as int])),
        ));
        i += 1;
    }
    assert(ns.take(i as int) =~= ns);
    Ok(t)
}

} // verus!
