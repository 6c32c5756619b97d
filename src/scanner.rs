use vstd::prelude::*;
use crate::text::{chars_of, contains, find, find_from, has, texts, trim_range, trimmed};

verus! {

/// Starts a function declaration in the interface block.
pub const FN_MARKER: &'static str = "fn ";

/// Closes the interface block.
pub const BLOCK_END: &'static str = "}";

/// The name declared on `l`: the text between the first `fn ` and the next
/// opening parenthesis, trimmed; none where either is missing.
pub open spec fn entry_name(l: Seq<char>) -> Option<Seq<char>> {
    match find(l, FN_MARKER@, 0) {
        None => None,
        Some(s) => match find(l, seq!['('], s) {
            None => None,
            Some(e) => Some(trimmed(l.subrange(s + FN_MARKER@.len(), e))),
        },
    }
}

/// The entry-point names declared by the leading lines of `ls`, in order:
/// every line with a function marker gives its name, and the first other line
/// that closes a block ends the scan.
pub open spec fn scan(ls: Seq<Seq<char>>) -> Seq<Seq<char>>
    decreases ls.len(),
{
    if ls.len() == 0 {
        Seq::empty()
    } else if contains(ls[0], FN_MARKER@) {
        let rest = scan(ls.drop_first());
        match entry_name(ls[0]) {
            Some(n) => seq![n] + rest,
            None => rest,
        }
    } else if contains(ls[0], BLOCK_END@) {
        Seq::empty()
    } else {
        scan(ls.drop_first())
    }
}

/// The name declared on the line `l`, if it holds a function marker followed
/// by a parameter list.
pub fn entry_name_of(l: &Vec<char>) -> (r: Option<Vec<char>>)
    ensures
        r matches Some(n) ==> entry_name(l@) == Some(n@),
        r is None ==> entry_name(l@) is None,
{
    let marker = chars_of(FN_MARKER);
    let open = vec!['('];
    assert(open@ =~= seq!['(']);
    match find_from(l, &marker, 0) {
        None => None,
        Some(s) => match find_from(l, &open, s) {
            None => None,
            Some(e) => {
                proof {
                    reveal_strlit("fn ");
                    assert(l@.subrange(s as int, s + 3) == marker@);
                    assert(l@.subrange(e as int, e + 1) == open@);
                    assert(l@[e as int] == '(');
                    if e < s + 3 {
                        assert(l@[e as int] == l@.subrange(s as int, s + 3)[e - s]);
                    }
                }
                Some(trim_range(l, s + 3, e))
            },
        },
    }
}

/// The entry-point names declared in the interface block at the head of `lines`.
pub fn scan_entry_points(lines: &Vec<Vec<char>>) -> (r: Vec<Vec<char>>)
    ensures
        texts(r@) == scan(texts(lines@)),
{
    let ghost all = texts(lines@);
    let mut r: Vec<Vec<char>> = Vec::new();
    let mut i: usize = 0;
    assert(all.skip(0) =~= all);
    while i < lines.len()
        invariant
            i <= lines.len(),
            all == texts(lines@),
            texts(r@) + scan(all.skip(i as int)) == scan(all),
        decreases lines.len() - i,
    {
        let ghost rest = all.skip(i as int);
        assert(rest.drop_first() =~= all.skip(i + 1));
        assert(rest[0] == lines@[i as int]@);
        let ghost before = texts(r@);
        if has(&lines[i], FN_MARKER) {
            match entry_name_of(&lines[i]) {
                Some(n) => {
                    let ghost nv = n@;
                    r.push(n);
                    assert(texts(r@) =~= before.push(nv));
                    assert(texts(r@) + scan(all.skip(i + 1)) =~= before + (seq![nv] + scan(
                        all.skip(i + 1),
                    )));
                },
                None => {},
            }
        } else if has(&lines[i], BLOCK_END) {
            assert(texts(r@) =~= texts(r@) + scan(rest));
            return r;
        }
        i += 1;
    }
    assert(all.skip(i as int) =~= Seq::<Seq<char>>::empty());
    assert(texts(r@) =~= texts(r@) + scan(all.skip(i as int)));
    r
}

} // verus!
