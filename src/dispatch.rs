use vstd::prelude::*;
use crate::selector::{rows, EntryPoint};
use crate::text::{join, join_lines, push_all, push_str, texts};

verus! {

/// What the dispatcher holds before its first clause: the call records, the
/// buffer they are read from, and the loop over them.
pub const PROLOGUE: &'static str = r#"
        #[derive(Serde, Drop)]
        struct Calls {
            selector: felt252,
            calldata: Span<felt252>,
        }

        #[derive(Serde, Drop)]
        struct Args {
            calls: Array<Calls>,
        }

        fn main(input: Array<felt252>) -> Array<felt252> {
            let mut input = input.span();
            let mut args = Serde::<Args>::deserialize(ref input).unwrap();

            let mut r = array![];

            loop {
                let call = match args.calls.pop_front() {
                    Option::Some(call) => call,
                    Option::None => { break; },
                };

                let ret = "#;

/// What the dispatcher holds after its last clause: the branch that no
/// selector matched, which fails the whole batch, and the end of the loop.
pub const EPILOGUE: &'static str = r#"{
                    panic(array!['Invalid selector']);
                    array![].span()
                };

                r.append_span(ret);
            };

            r
        }
    "#;

/// Opens a clause's guard.
pub const GUARD: &'static str = "if call.selector == ";

/// Between a clause's guard and its call.
pub const GUARD_END: &'static str = " {";

/// The generated wrapper that a call is routed to, up to its name.
pub const WRAPPER_PATH: &'static str = "cairo_ex::HelloStarknet::__wrapper__HelloStarknetImpl__";

/// The arguments handed to the wrapper.
pub const CALL_ARGS: &'static str = "(call.calldata)";

/// Ends a clause and chains the next one.
pub const CLAUSE_END: &'static str = "} else ";

/// The clause that routes calls with selector `sel` to the wrapper of `name`.
pub open spec fn clause_text(sel: Seq<char>, name: Seq<char>) -> Seq<char> {
    GUARD@ + sel + GUARD_END@ + WRAPPER_PATH@ + name + CALL_ARGS@ + CLAUSE_END@
}

/// One clause for each row of `t`, in order.
pub open spec fn clauses(t: Seq<(Seq<char>, Seq<char>)>) -> Seq<Seq<char>> {
    t.map_values(|e: (Seq<char>, Seq<char>)| clause_text(e.1, e.0))
}

/// The dispatcher for the table `t`: the prologue, the clauses one per line,
/// and the epilogue.
pub open spec fn dispatcher_text(t: Seq<(Seq<char>, Seq<char>)>) -> Seq<char> {
    PROLOGUE@ + join(clauses(t), seq!['\n']) + EPILOGUE@
}

/// The clause for one row of the table.
pub fn clause(e: &EntryPoint) -> (r: Vec<char>)
    ensures
        r@ == clause_text(e.selector@, e.name@),
{
    let mut r: Vec<char> = Vec::new();
    push_str(&mut r, GUARD);
    push_all(&mut r, &e.selector);
    push_str(&mut r, GUARD_END);
    push_str(&mut r, WRAPPER_PATH);
    push_all(&mut r, &e.name);
    push_str(&mut r, CALL_ARGS);
    push_str(&mut r, CLAUSE_END);
    assert(r@ =~= clause_text(e.selector@, e.name@));
    r
}

/// The source text of the function that routes each call of a batch to the
/// wrapper whose selector it names.
pub fn dispatcher(table: &Vec<EntryPoint>) -> (r: Vec<char>)
    ensures
        r@ == dispatcher_text(rows(table@)),
{
    let ghost t = rows(table@);
    let mut cs: Vec<Vec<char>> = Vec::new();
    let mut i: usize = 0;
    while i < table.len()
        invariant
            i <= table.len(),
            t == rows(table@),
            texts(cs@) == clauses(t.take(i as int)),
        decreases table.len() - i,
    {
        let ghost before = texts(cs@);
        let c = clause(&table[i]);
        let ghost cv = c@;
        cs.push(c);
        assert(texts(cs@) =~= before.push(cv));
        assert(clauses(t.take(i + 1)) =~= clauses(t.take(i as int)).push(cv));
        i += 1;
    }
    assert(t.take(i as int) =~= t);
    let body = join_lines(&cs);
    let mut r: Vec<char> = Vec::new();
    push_str(&mut r, PROLOGUE);
    push_all(&mut r, &body);
    push_str(&mut r, EPILOGUE);
    assert(r@ =~= dispatcher_text(t));
    r
}

} // verus!
