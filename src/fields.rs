//! Splitting a sequence of characters into fields at separator characters.
use vstd::prelude::*;

verus! {

/// The length of the run of non-separators that `s` starts with.
pub open spec fn run_len(s: Seq<char>, sep: spec_fn(char) -> bool) -> nat
    decreases s.len(),
{
    if s.len() == 0 || sep(s[0]) {
        0
    } else {
        1 + run_len(s.drop_first(), sep)
    }
}

pub proof fn lemma_run_len_bounds(s: Seq<char>, sep: spec_fn(char) -> bool)
    ensures
        run_len(s, sep) <= s.len(),
        s.len() > 0 && !sep(s[0]) ==> run_len(s, sep) > 0,
    decreases s.len(),
{
    if s.len() > 0 {
        lemma_run_len_bounds(s.drop_first(), sep);
    }
}

/// The maximal runs of non-separator characters of `s`, in order.
pub open spec fn fields(s: Seq<char>, sep: spec_fn(char) -> bool) -> Seq<Seq<char>>
    decreases s.len(),
{
    if s.len() == 0 {
        seq![]
    } else if sep(s[0]) {
        fields(s.drop_first(), sep)
    } else {
        proof {
            lemma_run_len_bounds(s, sep);
        }
        let n = run_len(s, sep);
        seq![s.take(n as int)] + fields(s.skip(n as int), sep)
    }
}

/// No character of `w` is a separator.
pub open spec fn no_separator(w: Seq<char>, sep: spec_fn(char) -> bool) -> bool {
    forall|k: int| 0 <= k < w.len() ==> !sep(#[trigger] w[k])
}

/// `s` is empty or starts with a separator.
pub open spec fn at_boundary(s: Seq<char>, sep: spec_fn(char) -> bool) -> bool {
    s.len() == 0 || sep(s[0])
}

pub proof fn lemma_run_len_of_field(w: Seq<char>, s: Seq<char>, sep: spec_fn(char) -> bool)
    requires
        no_separator(w, sep),
        at_boundary(s, sep),
    ensures
        run_len(w + s, sep) == w.len(),
    decreases w.len(),
{
    if w.len() == 0 {
        assert(w + s =~= s);
    } else {
        assert((w + s).drop_first() =~= w.drop_first() + s);
        lemma_run_len_of_field(w.drop_first(), s, sep);
    }
}

/// A field followed by a boundary is split off whole.
pub proof fn lemma_fields_of_field(w: Seq<char>, s: Seq<char>, sep: spec_fn(char) -> bool)
    requires
        w.len() > 0,
        no_separator(w, sep),
        at_boundary(s, sep),
    ensures
        fields(w + s, sep) == seq![w] + fields(s, sep),
{
    lemma_run_len_of_field(w, s, sep);
    assert((w + s).take(w.len() as int) =~= w);
    assert((w + s).skip(w.len() as int) =~= s);
}

} // verus!
