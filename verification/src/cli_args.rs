//! Building command lines: `-flag key=value` lists and `key=value` texts.
use crate::string_map::pairs_view;
use crate::text::{append_str, copy_string, views};
use vstd::prelude::*;

verus! {

/// `key=value`.
pub open spec fn kv_text(k: Seq<char>, v: Seq<char>) -> Seq<char> {
    k + seq!['='] + v
}

/// `flag key=value` for each pair, in order.
pub open spec fn kv_args(flag: Seq<char>, pairs: Seq<(Seq<char>, Seq<char>)>) -> Seq<Seq<char>>
    decreases pairs.len(),
{
    if pairs.len() == 0 {
        Seq::empty()
    } else {
        kv_args(flag, pairs.drop_last()) + seq![flag, kv_text(pairs.last().0, pairs.last().1)]
    }
}

/// `key=value` as a string.
pub fn kv_string(k: &str, v: &str) -> (r: String)
    ensures
        r@ == kv_text(k@, v@),
{
    let mut s = String::from_str(k);
    append_str(&mut s, "=");
    append_str(&mut s, v);
    proof {
        reveal_strlit("=");
    }
    s
}

/// Appends one argument.
pub fn push_arg(args: &mut Vec<String>, a: &str)
    ensures
        views(final(args)@) == views(old(args)@).push(a@),
{
    let ghost before = args@;
    args.push(String::from_str(a));
    assert(views(args@) =~= views(before).push(a@));
}

/// Appends `flag key=value` for each pair.
pub fn push_kv_args(args: &mut Vec<String>, flag: &str, pairs: &Vec<(String, String)>)
    ensures
        views(final(args)@) == views(old(args)@) + kv_args(flag@, pairs_view(pairs@)),
{
    let ghost start = views(args@);
    let ghost pv = pairs_view(pairs@);
    let mut i: usize = 0;
    while i < pairs.len()
        invariant
            i <= pairs.len(),
            pv == pairs_view(pairs@),
            views(args@) == start + kv_args(flag@, pv.take(i as int)),
        decreases pairs.len() - i,
    {
        proof {
            assert(pv.take(i + 1).drop_last() =~= pv.take(i as int));
        }
        push_arg(args, flag);
        let kv = kv_string(pairs[i].0.as_str(), pairs[i].1.as_str());
        let ghost before = args@;
        args.push(kv);
        assert(views(args@) =~= views(before).push(kv_text(pv[i as int].0, pv[i as int].1)));
        i = i + 1;
        assert(views(args@) =~= start + kv_args(flag@, pv.take(i as int)));
    }
    assert(pv.take(pairs@.len() as int) =~= pv);
}

/// Law: the arguments of two lists of pairs one after the other are those of the first
/// list followed by those of the second: each pair gives `flag key=value`, in order.
pub proof fn law_kv_args_concat(flag: Seq<char>, a: Seq<(Seq<char>, Seq<char>)>, b: Seq<(Seq<char>, Seq<char>)>)
    ensures
        kv_args(flag, a + b) == kv_args(flag, a) + kv_args(flag, b),
    decreases b.len(),
{
    if b.len() == 0 {
        assert(a + b =~= a);
        assert(kv_args(flag, b) == Seq::<Seq<char>>::empty());
        assert(kv_args(flag, a) + Seq::<Seq<char>>::empty() =~= kv_args(flag, a));
    } else {
        law_kv_args_concat(flag, a, b.drop_last());
        assert((a + b).drop_last() =~= a + b.drop_last());
        assert((a + b).last() == b.last());
        assert(kv_args(flag, a + b) =~= kv_args(flag, a) + kv_args(flag, b));
    }
}

/// Law: one element gives exactly its own part.
pub proof fn law_kv_args_single(flag: Seq<char>, x: (Seq<char>, Seq<char>))
    ensures
        kv_args(flag, seq![x]) == seq![flag, kv_text(x.0, x.1)],
{
    assert(seq![x].drop_last() =~= Seq::<(Seq<char>, Seq<char>)>::empty());
    assert(kv_args(flag, seq![x].drop_last()) == Seq::<Seq<char>>::empty());
    assert(seq![x].last() == x);
    assert(kv_args(flag, seq![x]) =~= seq![flag, kv_text(x.0, x.1)]);
}

} // verus!
