//! The meaning of a scan, as a transducer that reads the line one character
//! at a time. The executable scanner is proved against `scan_words`.
use vstd::prelude::*;

verus! {

/// Space and tab: the characters that separate words outside quotes.
pub open spec fn is_blank(c: char) -> bool {
    c == ' ' || c == '\t'
}

/// The blanks, as a separator predicate.
pub open spec fn blank() -> spec_fn(char) -> bool {
    |c: char| is_blank(c)
}

/// A character that ends an unquoted run when it stands unescaped.
pub open spec fn is_metachar(c: char) -> bool {
    is_blank(c) || c == '\n' || c == '|' || c == '&' || c == ';' || c == '(' || c == ')' || c
        == '<' || c == '>'
}

/// A metacharacter that is not a blank. It closes the word in progress and
/// forms a one-character word of its own.
pub open spec fn is_operator(c: char) -> bool {
    is_metachar(c) && !is_blank(c)
}

/// Inside double quotes, a backslash before one of these is dropped.
pub open spec fn is_dq_escapable(c: char) -> bool {
    c == '$' || c == '`' || c == '"' || c == '\\'
}

/// Why a scan fails.
#[derive(Debug, Clone, Copy, PartialEq, Eq, Structural)]
pub enum ScanErrorKind {
    UnterminatedSingleQuote,
    UnterminatedDoubleQuote,
    TrailingBackslash,
}

/// Where the scanner stands after the characters read so far.
#[derive(Debug, Clone, Copy, PartialEq, Eq, Structural)]
pub enum LexMode {
    /// Outside any word.
    Gap,
    /// Inside a word, outside quotes.
    Word,
    /// Inside single quotes.
    SingleQuoted,
    /// Inside double quotes.
    DoubleQuoted,
    /// Inside double quotes, just after a backslash.
    DoubleQuotedEscape,
    /// Outside quotes, just after a backslash.
    Escape,
}

/// The words completed so far, the text of the word in progress, and the mode.
pub struct LexState {
    pub words: Seq<Seq<char>>,
    pub word: Seq<char>,
    pub mode: LexMode,
}

pub open spec fn lex_state(words: Seq<Seq<char>>, word: Seq<char>, mode: LexMode) -> LexState {
    LexState { words, word, mode }
}

pub open spec fn initial() -> LexState {
    lex_state(seq![], seq![], LexMode::Gap)
}

/// Reading one character outside quotes, from a state whose completed words
/// are `words` and whose word in progress, if any, is `open`.
pub open spec fn unquoted_step(words: Seq<Seq<char>>, open: Option<Seq<char>>, c: char) -> LexState {
    let word = match open {
        Some(w) => w,
        None => seq![],
    };
    let closed = match open {
        Some(w) => words.push(w),
        None => words,
    };
    if is_blank(c) {
        lex_state(closed, seq![], LexMode::Gap)
    } else if is_operator(c) {
        lex_state(closed.push(seq![c]), seq![], LexMode::Gap)
    } else if c == '\'' {
        lex_state(words, word, LexMode::SingleQuoted)
    } else if c == '"' {
        lex_state(words, word, LexMode::DoubleQuoted)
    } else if c == '\\' {
        lex_state(words, word, LexMode::Escape)
    } else {
        lex_state(words, word.push(c), LexMode::Word)
    }
}

/// The transition on one character.
pub open spec fn step(st: LexState, c: char) -> LexState {
    match st.mode {
        LexMode::Gap => unquoted_step(st.words, None, c),
        LexMode::Word => unquoted_step(st.words, Some(st.word), c),
        LexMode::SingleQuoted => if c == '\'' {
            lex_state(st.words, st.word, LexMode::Word)
        } else {
            lex_state(st.words, st.word.push(c), LexMode::SingleQuoted)
        },
        LexMode::DoubleQuoted => if c == '"' {
            lex_state(st.words, st.word, LexMode::Word)
        } else if c == '\\' {
            lex_state(st.words, st.word, LexMode::DoubleQuotedEscape)
        } else {
            lex_state(st.words, st.word.push(c), LexMode::DoubleQuoted)
        },
        LexMode::DoubleQuotedEscape => if is_dq_escapable(c) {
            lex_state(st.words, st.word.push(c), LexMode::DoubleQuoted)
        } else {
            lex_state(st.words, st.word.push('\\').push(c), LexMode::DoubleQuoted)
        },
        LexMode::Escape => lex_state(st.words, st.word.push(c), LexMode::Word),
    }
}

/// The state after reading all of `s` from `st`.
pub open spec fn run(st: LexState, s: Seq<char>) -> LexState
    decreases s.len(),
{
    if s.len() == 0 {
        st
    } else {
        step(run(st, s.drop_last()), s.last())
    }
}

/// What the end of the input makes of a state.
pub open spec fn finish(st: LexState) -> Result<Seq<Seq<char>>, ScanErrorKind> {
    match st.mode {
        LexMode::Gap => Ok(st.words),
        LexMode::Word => Ok(st.words.push(st.word)),
        LexMode::SingleQuoted => Err(ScanErrorKind::UnterminatedSingleQuote),
        LexMode::DoubleQuoted => Err(ScanErrorKind::UnterminatedDoubleQuote),
        LexMode::DoubleQuotedEscape => Err(ScanErrorKind::UnterminatedDoubleQuote),
        LexMode::Escape => Err(ScanErrorKind::TrailingBackslash),
    }
}

/// The words of a line, in order, or why the line cannot be scanned.
pub open spec fn scan_words(s: Seq<char>) -> Result<Seq<Seq<char>>, ScanErrorKind> {
    finish(run(initial(), s))
}

/// `st` with `done` put before its completed words.
pub open spec fn after_words(done: Seq<Seq<char>>, st: LexState) -> LexState {
    lex_state(done + st.words, st.word, st.mode)
}

pub proof fn lemma_run_one(st: LexState, s: Seq<char>, i: int)
    requires
        0 <= i < s.len(),
    ensures
        run(st, s.take(i + 1)) == step(run(st, s.take(i)), s[i]),
{
    assert(s.take(i + 1).drop_last() =~= s.take(i));
}

pub proof fn lemma_run_extend(st: LexState, s: Seq<char>, a: int, i: int)
    requires
        0 <= a <= i < s.len(),
    ensures
        run(st, s.subrange(a, i + 1)) == step(run(st, s.subrange(a, i)), s[i]),
{
    assert(s.subrange(a, i + 1).drop_last() =~= s.subrange(a, i));
}

pub proof fn lemma_run_concat(st: LexState, a: Seq<char>, b: Seq<char>)
    ensures
        run(st, a + b) == run(run(st, a), b),
    decreases b.len(),
{
    if b.len() == 0 {
        assert(a + b =~= a);
    } else {
        assert((a + b).drop_last() =~= a + b.drop_last());
        lemma_run_concat(st, a, b.drop_last());
    }
}

/// Reading a character does not look at the completed words.
pub proof fn lemma_step_after_words(done: Seq<Seq<char>>, st: LexState, c: char)
    ensures
        step(after_words(done, st), c) == after_words(done, step(st, c)),
{
    let w = done + st.words;
    assert(w.push(st.word) =~= done + st.words.push(st.word));
    assert(w.push(st.word).push(seq![c]) =~= done + st.words.push(st.word).push(seq![c]));
    assert(w.push(seq![c]) =~= done + st.words.push(seq![c]));
}

pub proof fn lemma_run_after_words(done: Seq<Seq<char>>, st: LexState, s: Seq<char>)
    ensures
        run(after_words(done, st), s) == after_words(done, run(st, s)),
    decreases s.len(),
{
    if s.len() == 0 {
    } else {
        lemma_run_after_words(done, st, s.drop_last());
        lemma_step_after_words(done, run(st, s.drop_last()), s.last());
    }
}

pub proof fn lemma_finish_after_words(done: Seq<Seq<char>>, st: LexState)
    ensures
        finish(after_words(done, st)) == match finish(st) {
            Ok(ws) => Ok(done + ws),
            Err(k) => Err(k),
        },
{
    assert((done + st.words).push(st.word) =~= done + st.words.push(st.word));
}

} // verus!
