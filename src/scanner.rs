//! The scanner: one line of text in, its word tokens out.
use vstd::prelude::*;
use vstd::string::StringExecFns;
use crate::lexing::{
    after_words, finish, initial, is_metachar, lemma_finish_after_words, lemma_run_after_words,
    lemma_run_concat, lemma_run_extend, lemma_run_one, lex_state, run, scan_words, LexMode,
    LexState, ScanErrorKind,
};
use crate::text::{chars_of, push_char};
use crate::token::{Token, TokenType};

verus! {

/// Scans one line.
pub struct Scanner {
    chars: Vec<char>,
}

/// A line that cannot be scanned, with the message shown to the user.
#[derive(Debug, Clone)]
pub struct ScannerError {
    pub kind: ScanErrorKind,
    pub message: String,
}

/// The message shown for each kind of scan error.
pub open spec fn error_message(kind: ScanErrorKind) -> Seq<char> {
    match kind {
        ScanErrorKind::UnterminatedSingleQuote => "unexpected EOF while looking for matching `''"@,
        ScanErrorKind::UnterminatedDoubleQuote => "unexpected EOF while looking for matching `\"'"@,
        ScanErrorKind::TrailingBackslash => "unexpected EOF after '\\'"@,
    }
}

/// `tokens` holds one word token for each of `words`, in order, then the end token.
pub open spec fn spells(tokens: Seq<Token>, words: Seq<Seq<char>>) -> bool {
    &&& tokens.len() == words.len() + 1
    &&& forall|k: int|
        0 <= k < words.len() ==> #[trigger] tokens[k].type_ == TokenType::String && tokens[k].lexeme@
            == words[k]
    &&& tokens.last().type_ == TokenType::Eof
    &&& tokens.last().lexeme@ == Seq::<char>::empty()
}

/// The state of the transducer on an empty history, with word `word` in `mode`.
pub open spec fn segment_state(word: Seq<char>, mode: LexMode) -> LexState {
    lex_state(seq![], word, mode)
}

impl ScannerError {
    pub fn new(kind: ScanErrorKind) -> (r: ScannerError)
        ensures
            r.kind == kind,
            r.message@ == error_message(kind),
    {
        let message = match kind {
            ScanErrorKind::UnterminatedSingleQuote => String::from_str(
                "unexpected EOF while looking for matching `''",
            ),
            ScanErrorKind::UnterminatedDoubleQuote => String::from_str(
                "unexpected EOF while looking for matching `\"'",
            ),
            ScanErrorKind::TrailingBackslash => String::from_str("unexpected EOF after '\\'"),
        };
        ScannerError { kind, message }
    }
}

impl View for Scanner {
    type V = Seq<char>;

    closed spec fn view(&self) -> Seq<char> {
        self.chars@
    }
}

impl Scanner {
    pub fn new(source: String) -> (r: Scanner)
        ensures
            r@ == source@,
    {
        Scanner { chars: chars_of(source.as_str()) }
    }

    /// Whether `c` ends an unquoted run.
    pub fn is_metacharacter(&self, c: char) -> (r: bool)
        ensures
            r == is_metachar(c),
    {
        c == ' ' || c == '\t' || c == '\n' || c == '|' || c == '&' || c == ';' || c == '(' || c
            == ')' || c == '<' || c == '>'
    }

    /// Reads the single-quoted segment that opens at `start`, appending its
    /// text to `word`, and returns the index after its closing quote.
    fn scan_single_quoted_string(&self, start: usize, word: &mut String) -> (r: Result<
        usize,
        ScannerError,
    >)
        requires
            start < self@.len(),
            self@[start as int] == '\'',
        ensures
            match r {
                Ok(end) => start < end <= self@.len() && run(
                    segment_state(old(word)@, LexMode::SingleQuoted),
                    self@.subrange(start + 1, end as int),
                ) == segment_state(final(word)@, LexMode::Word),
                Err(e) => e.kind == ScanErrorKind::UnterminatedSingleQuote && e.message@
                    == error_message(e.kind) && finish(
                    run(
                        segment_state(old(word)@, LexMode::SingleQuoted),
                        self@.subrange(start + 1, self@.len() as int),
                    ),
                ) == Err::<Seq<Seq<char>>, ScanErrorKind>(e.kind),
            },
    {
        let n = self.chars.len();
        let ghost s = self@;
        let ghost st0 = segment_state(word@, LexMode::SingleQuoted);
        let mut i = start + 1;
        while i < n
            invariant
                n == s.len(),
                s == self@,
                st0 == segment_state(old(word)@, LexMode::SingleQuoted),
                start < i <= n,
                run(st0, s.subrange(start + 1, i as int)) == segment_state(
                    word@,
                    LexMode::SingleQuoted,
                ),
            decreases n - i,
        {
            let c = self.chars[i];
            proof {
                lemma_run_extend(st0, s, start + 1, i as int);
            }
            if c == '\'' {
                return Ok(i + 1);
            }
            push_char(word, c);
            i = i + 1;
        }
        Err(ScannerError::new(ScanErrorKind::UnterminatedSingleQuote))
    }

    /// Reads the double-quoted segment that opens at `start`, appending its
    /// text to `word`, and returns the index after its closing quote. A
    /// backslash before `$`, `` ` ``, `"` or `\` is dropped; before any other
    /// character, `n` included, it is kept with that character.
    fn scan_double_quoted_string(&self, start: usize, word: &mut String) -> (r: Result<
        usize,
        ScannerError,
    >)
        requires
            start < self@.len(),
            self@[start as int] == '"',
        ensures
            match r {
                Ok(end) => start < end <= self@.len() && run(
                    segment_state(old(word)@, LexMode::DoubleQuoted),
                    self@.subrange(start + 1, end as int),
                ) == segment_state(final(word)@, LexMode::Word),
                Err(e) => e.kind == ScanErrorKind::UnterminatedDoubleQuote && e.message@
                    == error_message(e.kind) && finish(
                    run(
                        segment_state(old(word)@, LexMode::DoubleQuoted),
                        self@.subrange(start + 1, self@.len() as int),
                    ),
                ) == Err::<Seq<Seq<char>>, ScanErrorKind>(e.kind),
            },
    {
        let n = self.chars.len();
        let ghost s = self@;
        let ghost st0 = segment_state(word@, LexMode::DoubleQuoted);
        let mut i = start + 1;
        while i < n
            invariant
                n == s.len(),
                s == self@,
                st0 == segment_state(old(word)@, LexMode::DoubleQuoted),
                start < i <= n,
                run(st0, s.subrange(start + 1, i as int)) == segment_state(
                    word@,
                    LexMode::DoubleQuoted,
                ),
            decreases n - i,
        {
            let c = self.chars[i];
            proof {
                lemma_run_extend(st0, s, start + 1, i as int);
            }
            if c == '"' {
                return Ok(i + 1);
            }
            if c == '\\' {
                if i + 1 == n {
                    return Err(ScannerError::new(ScanErrorKind::UnterminatedDoubleQuote));
                }
                let d = self.chars[i + 1];
                proof {
                    lemma_run_extend(st0, s, start + 1, i + 1);
                }
                if d == '$' || d == '`' || d == '"' || d == '\\' {
                    push_char(word, d);
                } else {
                    push_char(word, '\\');
                    push_char(word, d);
                }
                i = i + 2;
            } else {
                push_char(word, c);
                i = i + 1;
            }
        }
        Err(ScannerError::new(ScanErrorKind::UnterminatedDoubleQuote))
    }

    /// Splits the line into word tokens, ended by one end token.
    pub fn scan_tokens(&self) -> (r: Result<Vec<Token>, ScannerError>)
        ensures
            match scan_words(self@) {
                Ok(words) => r is Ok && spells(r->Ok_0@, words),
                Err(kind) => r is Err && r->Err_0.kind == kind && r->Err_0.message@
                    == error_message(kind),
            },
    {
        let n = self.chars.len();
        let ghost s = self@;
        let mut tokens: Vec<Token> = Vec::new();
        let mut i: usize = 0;
        while i < n
            invariant
                n == s.len(),
                s == self@,
                i <= n,
                forall|k: int|
                    0 <= k < tokens.len() ==> #[trigger] tokens@[k].type_ == TokenType::String,
                ({
                    let st = run(initial(), s.take(i as int));
                    let words = tokens@.map_values(|t: Token| t.lexeme@);
                    (st.mode == LexMode::Gap && st.word == Seq::<char>::empty() && st.words
                        == words) || (st.mode == LexMode::Word && st.words.push(st.word) == words
                        && (i < n ==> is_metachar(s[i as int])))
                }),
            decreases n - i,
        {
            let c = self.chars[i];
            let ghost words = tokens@.map_values(|t: Token| t.lexeme@);
            proof {
                lemma_run_one(initial(), s, i as int);
            }
            if c == ' ' || c == '\t' {
                i = i + 1;
            } else if self.is_metacharacter(c) {
                let mut text = String::new();
                push_char(&mut text, c);
                tokens.push(Token::new(TokenType::String, text));
                proof {
                    assert(tokens@.map_values(|t: Token| t.lexeme@) =~= words.push(seq![c]));
                }
                i = i + 1;
            } else {
                // Here no word is open: the words read so far are those of `tokens`.
                let ghost gap = segment_state(seq![], LexMode::Gap);
                proof {
                    assert(words + seq![] =~= words);
                    assert(run(initial(), s.take(i as int)) == after_words(words, gap));
                }
                let (end, text) = match self.scan_unquoted_word(i) {
                    Ok(found) => found,
                    Err(e) => {
                        proof {
                            let rest = s.subrange(i as int, n as int);
                            assert(s =~= s.take(i as int) + rest);
                            lemma_run_concat(initial(), s.take(i as int), rest);
                            lemma_run_after_words(words, gap, rest);
                            lemma_finish_after_words(words, run(gap, rest));
                        }
                        return Err(e);
                    },
                };
                proof {
                    let read = s.subrange(i as int, end as int);
                    assert(s.take(end as int) =~= s.take(i as int) + read);
                    lemma_run_concat(initial(), s.take(i as int), read);
                    lemma_run_after_words(words, gap, read);
                }
                tokens.push(Token::new(TokenType::String, text));
                proof {
                    assert(tokens@.map_values(|t: Token| t.lexeme@) =~= words.push(text@));
                }
                i = end;
            }
        }
        proof {
            assert(s.take(n as int) =~= s);
        }
        let ghost words = tokens@.map_values(|t: Token| t.lexeme@);
        tokens.push(Token::new(TokenType::Eof, String::new()));
        proof {
            assert forall|k: int| 0 <= k < words.len() implies tokens@[k].lexeme@ == words[k] by {
            }
        }
        Ok(tokens)
    }

    /// Reads the word that starts at `start`: unquoted runs and quoted
    /// segments up to the next unescaped metacharacter outside quotes, or the
    /// end of the line. Returns the index where the word ends and its text.
    fn scan_unquoted_word(&self, start: usize) -> (r: Result<(usize, String), ScannerError>)
        requires
            start < self@.len(),
            !is_metachar(self@[start as int]),
        ensures
            match r {
                Ok((end, text)) => start < end <= self@.len() && (end == self@.len()
                    || is_metachar(self@[end as int])) && run(
                    segment_state(seq![], LexMode::Gap),
                    self@.subrange(start as int, end as int),
                ) == segment_state(text@, LexMode::Word),
                Err(e) => e.message@ == error_message(e.kind) && finish(
                    run(
                        segment_state(seq![], LexMode::Gap),
                        self@.subrange(start as int, self@.len() as int),
                    ),
                ) == Err::<Seq<Seq<char>>, ScanErrorKind>(e.kind),
            },
    {
        let n = self.chars.len();
        let ghost s = self@;
        let ghost gap = segment_state(seq![], LexMode::Gap);
        let mut value = String::new();
        let mut i = start;
        while i < n && !self.is_metacharacter(self.chars[i])
            invariant
                n == s.len(),
                s == self@,
                gap == segment_state(seq![], LexMode::Gap),
                start <= i <= n,
                i == start ==> value@ == Seq::<char>::empty(),
                !is_metachar(s[start as int]),
                run(gap, s.subrange(start as int, i as int)) == if i == start {
                    gap
                } else {
                    segment_state(value@, LexMode::Word)
                },
            decreases n - i,
        {
            let c = self.chars[i];
            proof {
                lemma_run_extend(gap, s, start as int, i as int);
            }
            if c == '\\' {
                if i + 1 == n {
                    return Err(ScannerError::new(ScanErrorKind::TrailingBackslash));
                }
                proof {
                    lemma_run_extend(gap, s, start as int, i + 1);
                }
                push_char(&mut value, self.chars[i + 1]);
                i = i + 2;
            } else if c == '\'' || c == '"' {
                let scanned = if c == '\'' {
                    self.scan_single_quoted_string(i, &mut value)
                } else {
                    self.scan_double_quoted_string(i, &mut value)
                };
                proof {
                    lemma_run_concat(
                        gap,
                        s.subrange(start as int, i + 1),
                        s.subrange(i + 1, n as int),
                    );
                    assert(s.subrange(start as int, n as int) =~= s.subrange(start as int, i + 1)
                        + s.subrange(i + 1, n as int));
                }
                match scanned {
                    Ok(end) => {
                        proof {
                            lemma_run_concat(
                                gap,
                                s.subrange(start as int, i + 1),
                                s.subrange(i + 1, end as int),
                            );
                            assert(s.subrange(start as int, end as int) =~= s.subrange(
                                start as int,
                                i + 1,
                            ) + s.subrange(i + 1, end as int));
                        }
                        i = end;
                    },
                    Err(e) => {
                        return Err(e);
                    },
                }
            } else {
                push_char(&mut value, c);
                i = i + 1;
            }
        }
        Ok((i, value))
    }
}

} // verus!
