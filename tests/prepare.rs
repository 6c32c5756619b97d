use contract_runner::prepare;
use contract_runner::selector::PrepareError;

const WRAPPER: &str = "cairo_ex::HelloStarknet::__wrapper__HelloStarknetImpl__";

fn selector(name: &str) -> String {
    starknet::core::utils::get_selector_from_name(name).unwrap().to_string()
}

fn clause(name: &str) -> String {
    format!(
        "if call.selector == {} {{{}{}(call.calldata)}} else ",
        selector(name),
        WRAPPER,
        name
    )
}

fn run(src: &str) -> String {
    prepare(src.to_string()).unwrap()
}

/// The sanitized part of an output: everything before the dispatcher.
fn body(out: &str) -> Vec<String> {
    let end = out.find("\n        #[derive(Serde, Drop)]").unwrap();
    out[..end].lines().map(|l| l.to_string()).collect()
}

const TWO_ENTRY_POINTS: &str = "trait IHelloStarknet<TContractState> {
    fn foo(ref self: TContractState, amount: felt252);
    fn bar(self: @TContractState) -> felt252;
}
let x = 1;";

#[test]
fn two_entry_points_in_order() {
    let out = run(TWO_ENTRY_POINTS);
    let foo = clause("foo");
    let bar = clause("bar");
    let expected = format!("{}\n{}{{\n                    panic(array!['Invalid selector']);", foo, bar);
    let at = out.find(&expected).unwrap();
    assert!(out.find(&foo).unwrap() == at);
    assert_eq!(out.matches("if call.selector == ").count(), 2);
    assert_ne!(selector("foo"), selector("bar"));
    assert_eq!(
        body(&out),
        vec![
            "trait IHelloStarknet<TContractState> {",
            "    fn foo(ref self: TContractState, amount: felt252);",
            "    fn bar(self: @TContractState) -> felt252;",
            "}",
            "let x = 1;",
        ]
    );
}

#[test]
fn selector_is_decimal_keccak() {
    let out = run("fn foo(x)\n}");
    assert!(!selector("foo").is_empty());
    assert!(selector("foo").chars().all(|c| c.is_ascii_digit()));
    assert!(out.contains(&format!("if call.selector == {} {{", selector("foo"))));
    assert!(!out.contains("if call.selector == foo"));
}

const PROLOGUE: &str = "
        #[derive(Serde, Drop)]
        struct Calls {
            selector: felt252,
            calldata: Span<felt252>,
        }

        #[derive(Serde, Drop)]
        struct Args {
            calls: Array<Calls>,
        }

        fn main(input: Array<felt252>) -> Array<felt252> {
            let mut input = input.span();
            let mut args = Serde::<Args>::deserialize(ref input).unwrap();

            let mut r = array![];

            loop {
                let call = match args.calls.pop_front() {
                    Option::Some(call) => call,
                    Option::None => { break; },
                };

                let ret = ";

const EPILOGUE: &str = "{
                    panic(array!['Invalid selector']);
                    array![].span()
                };

                r.append_span(ret);
            };

            r
        }
    ";

#[test]
fn no_entry_points_gives_only_the_fallback() {
    let out = run("}\nfn foo(x)");
    assert_eq!(out, format!("}}\nfn foo(x)\n{}{}", PROLOGUE, EPILOGUE));
}

#[test]
fn empty_input() {
    assert_eq!(run(""), format!("{}{}", PROLOGUE, EPILOGUE));
}

#[test]
fn abi_markers_are_commented() {
    let out = run("}\n#[starknet::interface]\n  #[abi(embed_v0)]\n#[event]\nenum E { X: starknet::Event }");
    assert_eq!(
        body(&out),
        vec![
            "}",
            "//#[starknet::interface]",
            "//  #[abi(embed_v0)]",
            "//#[event]",
            "//enum E { X: starknet::Event }",
        ]
    );
}

#[test]
fn metering_pair_is_commented() {
    let out = run(
        "}\nlet before = 0;\nmatch core::gas::withdraw_gas_all(core::gas::get_builtin_costs()) {\n    Option::Some(_) => {},\nafter;",
    );
    assert_eq!(
        body(&out),
        vec![
            "}",
            "//match core::gas::withdraw_gas_all(core::gas::get_builtin_costs()) {",
            "//    Option::Some(_) => {},",
            "after;",
        ]
    );
}

#[test]
fn metering_call_at_end_is_closed() {
    let out = run("}\ncore::gas::withdraw_gas_all(core::gas::get_builtin_costs())");
    assert_eq!(
        body(&out),
        vec!["//core::gas::withdraw_gas_all(core::gas::get_builtin_costs())", "}}"]
    );
}

#[test]
fn nothing_after_event_emitter() {
    let out = run("}\nkeep;\nimpl ContractStateEventEmitter of X {\n    fn emit() {}\n}\ntail;");
    assert_eq!(
        body(&out),
        vec!["}", "keep;", "//impl ContractStateEventEmitter of X {", "}}"]
    );
    assert!(!out.contains("tail;"));
}

#[test]
fn modules_and_wrappers_are_made_public() {
    let out = run("}\nmod HelloStarknet {\nfn __wrapper__HelloStarknetImpl__foo(x) {\nuse starknet::SyscallResultTrait;\nlet s = System::get();\nlet g = core::gas::x();");
    assert_eq!(
        body(&out),
        vec![
            "}",
            "pub mod HelloStarknet {",
            "pub fn __wrapper__HelloStarknetImpl__foo(x) {",
            "use starknet::SyscallResultTrait;",
            "//let s = System::get();",
            "//let g = core::gas::x();",
        ]
    );
}

#[test]
fn names_are_trimmed() {
    let out = run("fn   spaced\t (x)\nfn nothing\n}");
    assert!(out.contains(&clause("spaced")));
    assert_eq!(out.matches("if call.selector == ").count(), 1);
}

#[test]
fn trailing_newline_and_crlf() {
    let out = run("}\r\na\nb\n");
    assert_eq!(body(&out), vec!["}", "a", "b"]);
    assert!(out.starts_with("}\r\na\nb\n"));
}

#[test]
fn non_ascii_name_is_an_error() {
    match prepare("fn fé(x)\n}".to_string()) {
        Err(PrepareError::NonAsciiName(n)) => assert_eq!(n, "fé"),
        other => panic!("unexpected {:?}", other),
    }
}

#[test]
fn duplicate_name_is_an_error() {
    match prepare("fn foo(x)\nfn bar(y)\nfn foo(z)\n}".to_string()) {
        Err(PrepareError::DuplicateEntryPoint(n)) => assert_eq!(n, "foo"),
        other => panic!("unexpected {:?}", other),
    }
}

#[test]
fn same_input_same_output() {
    assert_eq!(run(TWO_ENTRY_POINTS), run(TWO_ENTRY_POINTS));
}
