//! What the interpreter decides about a line before it runs anything.
use vstd::prelude::*;
use vstd::string::StringExecFns;
use crate::lexing::scan_words;
use crate::text::string_views;
use crate::scanner::{error_message, spells, Scanner, ScannerError};
use crate::token::TokenType;

verus! {

/// The commands that the interpreter runs itself.
#[derive(Debug, Clone, Copy, PartialEq, Eq, Structural)]
pub enum BuiltIn {
    Exit,
    Echo,
    Type,
    Pwd,
    Cd,
}

/// The names of the built-in commands.
pub open spec fn built_in_names() -> Seq<Seq<char>> {
    seq!["exit"@, "echo"@, "type"@, "pwd"@, "cd"@]
}

/// The built-in command called `name`, if there is one.
pub open spec fn built_in_named(name: Seq<char>) -> Option<BuiltIn> {
    if name == "exit"@ {
        Some(BuiltIn::Exit)
    } else if name == "echo"@ {
        Some(BuiltIn::Echo)
    } else if name == "type"@ {
        Some(BuiltIn::Type)
    } else if name == "pwd"@ {
        Some(BuiltIn::Pwd)
    } else if name == "cd"@ {
        Some(BuiltIn::Cd)
    } else {
        None
    }
}

/// The interpreter's fixed knowledge: which names are built in.
pub struct Shell {
    built_in_commands: Vec<String>,
}

impl View for Shell {
    type V = Seq<Seq<char>>;

    /// The names of the commands that this shell runs itself.
    closed spec fn view(&self) -> Seq<Seq<char>> {
        string_views(self.built_in_commands@)
    }
}

impl Shell {
    #[verifier::type_invariant]
    spec fn knows_built_ins(self) -> bool {
        string_views(self.built_in_commands@) == built_in_names()
    }

    pub fn new() -> (r: Shell)
        ensures
            r@ == built_in_names(),
    {
        Shell { built_in_commands: Shell::get_built_in_commands() }
    }

    /// The names of the built-in commands, in a fixed order.
    pub fn get_built_in_commands() -> (r: Vec<String>)
        ensures
            string_views(r@) == built_in_names(),
    {
        let r = vec![
            String::from_str("exit"),
            String::from_str("echo"),
            String::from_str("type"),
            String::from_str("pwd"),
            String::from_str("cd"),
        ];
        assert(string_views(r@) =~= built_in_names());
        r
    }

    /// Whether `name` is the name of a built-in command.
    pub fn is_built_in(&self, name: &String) -> (r: bool)
        ensures
            self@ == built_in_names(),
            r == self@.contains(name@),
    {
        proof {
            use_type_invariant(self);
        }
        let names = &self.built_in_commands;
        let mut i: usize = 0;
        while i < names.len()
            invariant
                i <= names.len(),
                names@ == self.built_in_commands@,
                string_views(names@) == built_in_names(),
                forall|k: int| 0 <= k < i ==> built_in_names()[k] != name@,
            decreases names.len() - i,
        {
            if names[i] == *name {
                assert(built_in_names()[i as int] == name@);
                return true;
            }
            i = i + 1;
        }
        false
    }

    /// The built-in command that a line whose first word is `name` runs;
    /// `None` where the command is looked up outside.
    pub fn built_in(&self, name: &String) -> (r: Option<BuiltIn>)
        ensures
            r == built_in_named(name@),
    {
        if *name == String::from_str("exit") {
            Some(BuiltIn::Exit)
        } else if *name == String::from_str("echo") {
            Some(BuiltIn::Echo)
        } else if *name == String::from_str("type") {
            Some(BuiltIn::Type)
        } else if *name == String::from_str("pwd") {
            Some(BuiltIn::Pwd)
        } else if *name == String::from_str("cd") {
            Some(BuiltIn::Cd)
        } else {
            None
        }
    }

    /// The argument vector of a line: the texts of its word tokens, in order.
    pub fn arguments(line: String) -> (r: Result<Vec<String>, ScannerError>)
        ensures
            match scan_words(line@) {
                Ok(words) => r is Ok && string_views(r->Ok_0@) == words,
                Err(kind) => r is Err && r->Err_0.kind == kind && r->Err_0.message@
                    == error_message(kind),
            },
    {
        let scanner = Scanner::new(line);
        let tokens = match scanner.scan_tokens() {
            Ok(tokens) => tokens,
            Err(e) => {
                return Err(e);
            },
        };
        let ghost words = scan_words(line@)->Ok_0;
        let mut args: Vec<String> = Vec::new();
        let mut i: usize = 0;
        while i < tokens.len()
            invariant
                spells(tokens@, words),
                i <= tokens.len(),
                i < tokens.len() ==> string_views(args@) == words.take(i as int),
                i == tokens.len() ==> string_views(args@) == words,
            decreases tokens.len() - i,
        {
            if tokens[i].type_ != TokenType::Eof {
                let text = tokens[i].lexeme.clone();
                proof {
                    assert(i < words.len());
                    assert(tokens@[i as int].lexeme@ == words[i as int]);
                    assert(text@ == words[i as int]);
                    assert(string_views(args@) == words.take(i as int));
                    assert(string_views(args@.push(text)) =~= string_views(args@).push(text@));
                    assert(words.take(i as int).push(words[i as int]) =~= words.take(i + 1));
                }
                args.push(text);
            } else {
                assert(i == words.len());
                assert(words.take(i as int) =~= words);
            }
            i = i + 1;
        }
        Ok(args)
    }
}

} // verus!
