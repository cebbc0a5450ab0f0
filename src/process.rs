use vstd::prelude::*;
use crate::text::push_char;

verus! {

/// The pieces between single spaces, empty ones included: what
/// `str::split(" ")` yields.
pub open spec fn split_spaces(s: Seq<char>) -> Seq<Seq<char>>
    decreases s.len(),
{
    if s.len() == 0 {
        seq![Seq::<char>::empty()]
    } else {
        let p = split_spaces(s.drop_last());
        if s.last() == ' ' {
            p.push(Seq::<char>::empty())
        } else {
            p.update(p.len() - 1, p.last().push(s.last()))
        }
    }
}

/// The views of a list of strings.
pub open spec fn views(v: Seq<String>) -> Seq<Seq<char>> {
    v.map_values(|x: String| x@)
}

/// The child's argument vector: the instructions split at each space. The
/// first piece names the program, the others are its arguments; there is
/// always a first piece.
pub fn instruction_args(instructions: &str) -> (r: Vec<String>)
    ensures
        views(r@) == split_spaces(instructions@),
        r@.len() >= 1,
{
    let n = instructions.unicode_len();
    let mut pieces: Vec<String> = Vec::new();
    let mut cur: String = String::new();
    let mut i: usize = 0;
    assert(instructions@.subrange(0, 0) =~= Seq::<char>::empty());
    assert(views(pieces@).push(cur@) =~= seq![Seq::<char>::empty()]);
    while i < n
        invariant
            n == instructions@.len(),
            i <= n,
            views(pieces@).push(cur@) == split_spaces(instructions@.subrange(0, i as int)),
        decreases n - i,
    {
        let c = instructions.get_char(i);
        let ghost s = instructions@.subrange(0, i + 1);
        let ghost before = views(pieces@);
        let ghost cur0 = cur@;
        assert(s.drop_last() =~= instructions@.subrange(0, i as int));
        assert(s.last() == c);
        if c == ' ' {
            pieces.push(cur);
            cur = String::new();
            assert(views(pieces@) =~= before.push(cur0));
            assert(views(pieces@).push(cur@) =~= before.push(cur0).push(Seq::<char>::empty()));
        } else {
            push_char(&mut cur, c);
            assert(views(pieces@).push(cur@) =~= before.push(cur0).update(
                before.len() as int,
                cur0.push(c),
            ));
        }
        i = i + 1;
    }
    let ghost before = views(pieces@);
    let ghost last = cur@;
    pieces.push(cur);
    assert(instructions@.subrange(0, n as int) =~= instructions@);
    assert(views(pieces@) =~= before.push(last));
    pieces
}

} // verus!
