use vstd::prelude::*;
use crate::text::{chars_of, contains, has, texts};

verus! {

/// Annotation that declares the contract's interface.
pub const INTERFACE_ATTR: &'static str = "#[starknet::interface]";

/// Annotation that embeds an implementation in the ABI.
pub const ABI_EMBED_ATTR: &'static str = "#[abi(embed_v0)]";

/// Annotation that declares an event.
pub const EVENT_ATTR: &'static str = "#[event]";

/// The hosted runtime's event trait.
pub const EVENT_TRAIT: &'static str = "starknet::Event";

/// The fee-metering call that the compiler inserts into each wrapper.
pub const METERING_CALL: &'static str = "core::gas::withdraw_gas_all(core::gas::get_builtin_costs())";

/// A module declaration.
pub const MODULE_DECL: &'static str = "mod";

/// A generated wrapper function.
pub const WRAPPER_FN: &'static str = "fn __wrapper";

/// A reference to the hosted runtime's system.
pub const SYSTEM_REF: &'static str = "System";

/// A reference to the fee-metering namespace.
pub const GAS_NAMESPACE: &'static str = "core::gas";

/// Opens the implementation of the event emitter.
pub const EMITTER_IMPL: &'static str = "impl ContractStateEventEmitter";

/// Turns a line into a comment.
pub const COMMENT: &'static str = "//";

/// Makes a declaration public.
pub const PUBLIC: &'static str = "pub ";

/// Closes the blocks left open when the input ends while lines are skipped.
pub const CLOSING: &'static str = "}}";

/// Where the sanitizer stands between two lines.
#[derive(PartialEq, Eq, Structural, Clone, Copy, Debug)]
pub enum SanitizerState {
    /// Each line is classified by its content.
    Normal,
    /// The next lines, this many of them, are commented out whatever they hold.
    SkipNextN(u64),
    /// Every remaining line is dropped.
    SkipToEnd,
}

/// Lines are still being skipped in state `st`.
pub open spec fn skipping(st: SanitizerState) -> bool {
    match st {
        SanitizerState::Normal => false,
        SanitizerState::SkipNextN(k) => k > 0,
        SanitizerState::SkipToEnd => true,
    }
}

/// `l` turned into a comment.
pub open spec fn commented(l: Seq<char>) -> Seq<char> {
    COMMENT@ + l
}

/// `l` declares a piece of the contract's interface or events.
pub open spec fn is_abi_marker(l: Seq<char>) -> bool {
    ||| contains(l, INTERFACE_ATTR@)
    ||| contains(l, ABI_EMBED_ATTR@)
    ||| contains(l, EVENT_ATTR@)
    ||| contains(l, EVENT_TRAIT@)
}

/// `l` holds the fee-metering call.
pub open spec fn is_metering_call(l: Seq<char>) -> bool {
    contains(l, METERING_CALL@)
}

/// `l` declares something that the dispatcher must reach.
pub open spec fn is_promoted(l: Seq<char>) -> bool {
    contains(l, MODULE_DECL@) || contains(l, WRAPPER_FN@)
}

/// `l` refers to the hosted runtime or to fee metering.
pub open spec fn is_runtime_ref(l: Seq<char>) -> bool {
    contains(l, SYSTEM_REF@) || contains(l, GAS_NAMESPACE@)
}

/// `l` opens the event emitter's implementation.
pub open spec fn is_emitter_impl(l: Seq<char>) -> bool {
    contains(l, EMITTER_IMPL@)
}

/// `out` without its last line, if it has one.
pub open spec fn retract(out: Seq<Seq<char>>) -> Seq<Seq<char>> {
    if out.len() > 0 {
        out.drop_last()
    } else {
        out
    }
}

/// The state and output after the line `l`, from state `st` and output `out`.
pub open spec fn step(st: SanitizerState, out: Seq<Seq<char>>, l: Seq<char>) -> (
    SanitizerState,
    Seq<Seq<char>>,
) {
    match st {
        SanitizerState::SkipToEnd => (st, out),
        SanitizerState::SkipNextN(k) if k > 0 => (
            if k == 1 {
                SanitizerState::Normal
            } else {
                SanitizerState::SkipNextN((k - 1) as u64)
            },
            out.push(commented(l)),
        ),
        _ => if is_abi_marker(l) {
            (st, out.push(commented(l)))
        } else if is_metering_call(l) {
            (SanitizerState::SkipNextN(1), retract(out).push(commented(l)))
        } else if is_promoted(l) {
            (st, out.push(PUBLIC@ + l))
        } else if is_runtime_ref(l) {
            (st, out.push(commented(l)))
        } else if is_emitter_impl(l) {
            (SanitizerState::SkipToEnd, out.push(commented(l)))
        } else {
            (st, out.push(l))
        },
    }
}

/// The state and output after the lines `ls`, one step each.
pub open spec fn run(st: SanitizerState, out: Seq<Seq<char>>, ls: Seq<Seq<char>>) -> (
    SanitizerState,
    Seq<Seq<char>>,
)
    decreases ls.len(),
{
    if ls.len() == 0 {
        (st, out)
    } else {
        let (st2, out2) = step(st, out, ls[0]);
        run(st2, out2, ls.drop_first())
    }
}

/// The sanitized lines of `ls`: the output of a run from the normal state,
/// closed off where the input ended while lines were being skipped.
pub open spec fn sanitized(ls: Seq<Seq<char>>) -> Seq<Seq<char>> {
    let (st, out) = run(SanitizerState::Normal, Seq::empty(), ls);
    if skipping(st) {
        out.push(CLOSING@)
    } else {
        out
    }
}

/// A line-by-line rewriter of expanded source.
pub struct Sanitizer {
    pub state: SanitizerState,
    pub out: Vec<Vec<char>>,
}

/// `p` followed by the characters of `l`.
fn prefixed(p: &str, l: &Vec<char>) -> (r: Vec<char>)
    ensures
        r@ == p@ + l@,
{
    let mut r = chars_of(p);
    let mut k: usize = 0;
    while k < l.len()
        invariant
            k <= l.len(),
            r@ == p@ + l@.take(k as int),
        decreases l.len() - k,
    {
        r.push(l[k]);
        k += 1;
        assert(r@ =~= p@ + l@.take(k as int));
    }
    assert(l@.take(l.len() as int) =~= l@);
    r
}

fn copy_of(l: &Vec<char>) -> (r: Vec<char>)
    ensures
        r@ == l@,
{
    let r = prefixed("", l);
    proof {
        reveal_strlit("");
        assert(r@ =~= l@);
    }
    r
}

impl Sanitizer {
    /// A sanitizer in the normal state that has written nothing.
    pub fn new() -> (r: Sanitizer)
        ensures
            r.state == SanitizerState::Normal,
            r.out@.len() == 0,
    {
        Sanitizer { state: SanitizerState::Normal, out: Vec::new() }
    }

    /// Rewrites one line.
    pub fn feed(&mut self, l: &Vec<char>)
        ensures
            (final(self).state, texts(final(self).out@)) == step(
                old(self).state,
                texts(old(self).out@),
                l@,
            ),
    {
        let ghost out0 = texts(self.out@);
        let ghost st0 = self.state;
        let next: SanitizerState;
        let line: Vec<char>;
        match self.state {
            SanitizerState::SkipToEnd => {
                return;
            },
            SanitizerState::SkipNextN(k) if k > 0 => {
                next = if k == 1 {
                    SanitizerState::Normal
                } else {
                    SanitizerState::SkipNextN(k - 1)
                };
                line = prefixed(COMMENT, l);
            },
            _ => {
                if has(l, INTERFACE_ATTR) || has(l, ABI_EMBED_ATTR) || has(l, EVENT_ATTR) || has(
                    l,
                    EVENT_TRAIT,
                ) {
                    next = self.state;
                    line = prefixed(COMMENT, l);
                } else if has(l, METERING_CALL) {
                    next = SanitizerState::SkipNextN(1);
                    line = prefixed(COMMENT, l);
                    if self.out.len() > 0 {
                        self.out.pop();
                        assert(texts(self.out@) =~= out0.drop_last());
                    }
                } else if has(l, MODULE_DECL) || has(l, WRAPPER_FN) {
                    next = self.state;
                    line = prefixed(PUBLIC, l);
                } else if has(l, SYSTEM_REF) || has(l, GAS_NAMESPACE) {
                    next = self.state;
                    line = prefixed(COMMENT, l);
                } else if has(l, EMITTER_IMPL) {
                    next = SanitizerState::SkipToEnd;
                    line = prefixed(COMMENT, l);
                } else {
                    next = self.state;
                    line = copy_of(l);
                }
            },
        }
        let ghost mid = texts(self.out@);
        let ghost lv = line@;
        self.out.push(line);
        self.state = next;
        assert(texts(self.out@) =~= mid.push(lv));
    }

    /// Closes off the output: where lines were still being skipped, the
    /// blocks that they left open are closed.
    pub fn finish(self) -> (r: Vec<Vec<char>>)
        ensures
            texts(r@) == (if skipping(self.state) {
                texts(self.out@).push(CLOSING@)
            } else {
                texts(self.out@)
            }),
    {
        let mut out = self.out;
        let closes = match self.state {
            SanitizerState::Normal => false,
            SanitizerState::SkipNextN(k) => k > 0,
            SanitizerState::SkipToEnd => true,
        };
        if closes {
            let ghost before = texts(out@);
            let c = chars_of(CLOSING);
            out.push(c);
            assert(texts(out@) =~= before.push(CLOSING@));
        }
        out
    }
}

/// The sanitized lines of `lines`.
pub fn sanitize(lines: &Vec<Vec<char>>) -> (r: Vec<Vec<char>>)
    ensures
        texts(r@) == sanitized(texts(lines@)),
{
    let ghost all = texts(lines@);
    let mut s = Sanitizer::new();
    let mut i: usize = 0;
    assert(all.skip(0) =~= all);
    assert(texts(s.out@) =~= Seq::<Seq<char>>::empty());
    while i < lines.len()
        invariant
            i <= lines.len(),
            all == texts(lines@),
            run(s.state, texts(s.out@), all.skip(i as int)) == run(
                SanitizerState::Normal,
                Seq::empty(),
                all,
            ),
        decreases lines.len() - i,
    {
        assert(all.skip(i as int).drop_first() =~= all.skip(i + 1));
        assert(all.skip(i as int)[0] == lines@[i as int]@);
        s.feed(&lines[i]);
        i += 1;
    }
    assert(all.skip(i as int) =~= Seq::<Seq<char>>::empty());
    s.finish()
}

} // verus!
