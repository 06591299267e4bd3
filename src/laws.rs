//! Properties of the scanner that relate whole lines.
use vstd::prelude::*;
use crate::fields::{fields, lemma_fields_of_field, no_separator};
use crate::lexing::{
    blank, finish, initial, is_blank, is_operator, lemma_run_concat, run, scan_words, step,
    LexMode, LexState, ScanErrorKind,
};

verus! {

/// A character with no meaning to the scanner beyond being a blank or not:
/// no quote, no backslash, no metacharacter other than a blank.
pub open spec fn is_plain(c: char) -> bool {
    !is_operator(c) && c != '\'' && c != '"' && c != '\\'
}

proof fn lemma_run_single(st: LexState, c: char)
    ensures
        run(st, seq![c]) == step(st, c),
{
    assert(seq![c].drop_last() =~= Seq::<char>::empty());
    assert(run(st, Seq::<char>::empty()) == st);
}

proof fn lemma_run_first(st: LexState, s: Seq<char>)
    requires
        s.len() > 0,
    ensures
        run(st, s) == run(step(st, s[0]), s.drop_first()),
{
    assert(s =~= seq![s[0]] + s.drop_first());
    lemma_run_concat(st, seq![s[0]], s.drop_first());
    lemma_run_single(st, s[0]);
}

proof fn lemma_plain_from(st: LexState, s: Seq<char>)
    requires
        forall|k: int| 0 <= k < s.len() ==> is_plain(#[trigger] s[k]),
        st.mode == LexMode::Gap || st.mode == LexMode::Word,
        st.mode == LexMode::Gap ==> st.word == Seq::<char>::empty(),
        st.mode == LexMode::Word ==> st.word.len() > 0 && no_separator(st.word, blank()),
    ensures
        st.mode == LexMode::Gap ==> finish(run(st, s)) == Ok::<Seq<Seq<char>>, ScanErrorKind>(
            st.words + fields(s, blank()),
        ),
        st.mode == LexMode::Word ==> finish(run(st, s)) == Ok::<Seq<Seq<char>>, ScanErrorKind>(
            st.words + fields(st.word + s, blank()),
        ),
    decreases s.len(),
{
    let sep = blank();
    if s.len() == 0 {
        assert(st.words + seq![] =~= st.words);
        if st.mode == LexMode::Word {
            lemma_fields_of_field(st.word, s, sep);
            assert(st.word + s =~= st.word);
            assert(st.words + seq![st.word] =~= st.words.push(st.word));
        }
    } else {
        let c = s[0];
        let r = s.drop_first();
        assert(forall|k: int| 0 <= k < r.len() ==> r[k] == s[k + 1]);
        lemma_run_first(st, s);
        let next = step(st, c);
        if st.mode == LexMode::Gap {
            if is_blank(c) {
                lemma_plain_from(next, r);
            } else {
                assert(seq![].push(c) =~= seq![c]);
                assert(no_separator(seq![c], sep));
                lemma_plain_from(next, r);
                assert(seq![c] + r =~= s);
            }
        } else {
            let w = st.word;
            if is_blank(c) {
                lemma_plain_from(next, r);
                lemma_fields_of_field(w, s, sep);
                assert(st.words + (seq![w] + fields(s, sep)) =~= st.words.push(w) + fields(r, sep));
            } else {
                assert(no_separator(w.push(c), sep));
                lemma_plain_from(next, r);
                assert(w.push(c) + r =~= w + s);
            }
        }
    }
}

/// A line with no quote, no backslash and no metacharacter but blanks scans
/// to its runs of non-blank characters, in order.
pub proof fn lemma_plain_line_splits_at_blanks(s: Seq<char>)
    requires
        forall|k: int| 0 <= k < s.len() ==> is_plain(#[trigger] s[k]),
    ensures
        scan_words(s) == Ok::<Seq<Seq<char>>, ScanErrorKind>(fields(s, blank())),
{
    lemma_plain_from(initial(), s);
    assert(Seq::<Seq<char>>::empty() + fields(s, blank()) =~= fields(s, blank()));
}

proof fn lemma_blanks_act_as_one(st: LexState, b: Seq<char>)
    requires
        st.mode == LexMode::Gap || st.mode == LexMode::Word,
        b.len() > 0,
        forall|k: int| 0 <= k < b.len() ==> is_blank(#[trigger] b[k]),
    ensures
        run(st, b) == step(st, ' '),
    decreases b.len(),
{
    assert(is_blank(b[b.len() - 1]));
    if b.len() > 1 {
        let front = b.drop_last();
        assert(forall|k: int| 0 <= k < front.len() ==> front[k] == b[k]);
        lemma_blanks_act_as_one(st, front);
    } else {
        assert(b.drop_last() =~= Seq::<char>::empty());
        assert(run(st, Seq::<char>::empty()) == st);
    }
}

/// Outside quotes and after no backslash, a run of blanks between two parts
/// of a line scans as one space would.
pub proof fn lemma_blank_run_is_one_space(s1: Seq<char>, b: Seq<char>, s2: Seq<char>)
    requires
        b.len() > 0,
        forall|k: int| 0 <= k < b.len() ==> is_blank(#[trigger] b[k]),
        run(initial(), s1).mode == LexMode::Gap || run(initial(), s1).mode == LexMode::Word,
    ensures
        scan_words(s1 + b + s2) == scan_words(s1 + seq![' '] + s2),
{
    let st = run(initial(), s1);
    lemma_run_concat(initial(), s1 + b, s2);
    lemma_run_concat(initial(), s1, b);
    lemma_run_concat(initial(), s1 + seq![' '], s2);
    lemma_run_concat(initial(), s1, seq![' ']);
    lemma_run_single(st, ' ');
    lemma_blanks_act_as_one(st, b);
}

} // verus!
