//! The parts of the built-in commands that compute: the text `echo` writes,
//! the directory `cd` goes to, and the line `type` writes for a name.
use vstd::prelude::*;
use vstd::string::StringExecFns;
use crate::text::{chars_of, push_char, string_views};

verus! {

/// Each word followed by a space and a line break.
pub open spec fn spaced_lines(words: Seq<Seq<char>>) -> Seq<char>
    decreases words.len(),
{
    if words.len() == 0 {
        seq![]
    } else {
        spaced_lines(words.drop_last()) + words.last() + seq![' ', '\n']
    }
}

/// What `echo` writes for the argument vector `args` (the command name first):
/// each argument but the last followed by a space and a line break, then the
/// last followed by a line break; nothing where there is no argument.
pub open spec fn echo_text(args: Seq<Seq<char>>) -> Seq<char> {
    if args.len() < 2 {
        seq![]
    } else {
        spaced_lines(args.subrange(1, args.len() - 1)) + args.last() + seq!['\n']
    }
}

/// `s` with each `~` replaced by `home`.
pub open spec fn replace_tilde(s: Seq<char>, home: Seq<char>) -> Seq<char>
    decreases s.len(),
{
    if s.len() == 0 {
        seq![]
    } else {
        replace_tilde(s.drop_last(), home) + if s.last() == '~' {
            home
        } else {
            seq![s.last()]
        }
    }
}

/// Where `cd` goes for the argument vector `args`: its first argument, or
/// `~` where there is none, with each `~` replaced by the home directory
/// where that is known.
pub open spec fn cd_target(args: Seq<Seq<char>>, home: Option<Seq<char>>) -> Seq<char> {
    let arg = if args.len() < 2 {
        seq!['~']
    } else {
        args[1]
    };
    match home {
        Some(h) => replace_tilde(arg, h),
        None => arg,
    }
}

/// What `type` writes for `name`: a line for the output stream, or one for
/// the error stream where the name is neither built in nor found.
pub open spec fn type_report(name: Seq<char>, built_in: bool, location: Option<Seq<char>>) -> Result<
    Seq<char>,
    Seq<char>,
> {
    if built_in {
        Ok(name + " is a shell builtin"@)
    } else {
        match location {
            Some(path) => Ok(name + " is "@ + path),
            None => Err(name + ": not found"@),
        }
    }
}

pub struct EchoCommand;

impl EchoCommand {
    /// The text that `echo` writes for the argument vector `args`.
    pub fn render(args: &Vec<String>) -> (r: String)
        ensures
            r@ == echo_text(string_views(args@)),
    {
        let ghost words = string_views(args@);
        let mut out = String::new();
        let n = args.len();
        if n < 2 {
            return out;
        }
        let mut i: usize = 1;
        while i < n - 1
            invariant
                n == args.len(),
                n >= 2,
                words == string_views(args@),
                1 <= i <= n - 1,
                out@ == spaced_lines(words.subrange(1, i as int)),
            decreases n - i,
        {
            out.append(args[i].as_str());
            push_char(&mut out, ' ');
            push_char(&mut out, '\n');
            proof {
                assert(words.subrange(1, i + 1).drop_last() =~= words.subrange(1, i as int));
                assert(out@ =~= spaced_lines(words.subrange(1, i as int)) + words[i as int] + seq![
                    ' ',
                    '\n',
                ]);
            }
            i = i + 1;
        }
        out.append(args[n - 1].as_str());
        push_char(&mut out, '\n');
        assert(out@ =~= echo_text(words));
        out
    }
}

pub struct CdCommand;

impl CdCommand {
    /// The directory that `cd` goes to for the argument vector `args`, given
    /// the home directory where it is known.
    pub fn target(args: &Vec<String>, home: Option<String>) -> (r: String)
        ensures
            r@ == cd_target(
                string_views(args@),
                match home {
                    Some(h) => Some(h@),
                    None => None,
                },
            ),
    {
        let arg = if args.len() < 2 {
            String::from_str("~")
        } else {
            args[1].clone()
        };
        proof {
            reveal_strlit("~");
            assert(arg@ == if args.len() < 2 { seq!['~'] } else { string_views(args@)[1] });
        }
        let home = match home {
            Some(h) => h,
            None => {
                return arg;
            },
        };
        let chars = chars_of(arg.as_str());
        let mut out = String::new();
        let mut i: usize = 0;
        while i < chars.len()
            invariant
                chars@ == arg@,
                i <= chars.len(),
                out@ == replace_tilde(arg@.take(i as int), home@),
            decreases chars.len() - i,
        {
            let c = chars[i];
            if c == '~' {
                out.append(home.as_str());
            } else {
                push_char(&mut out, c);
            }
            assert(arg@.take(i + 1).drop_last() =~= arg@.take(i as int));
            i = i + 1;
        }
        assert(arg@.take(i as int) =~= arg@);
        out
    }
}

pub struct TypeCommand;

impl TypeCommand {
    /// The line that `type` writes for `name`: `Ok` for the output stream,
    /// `Err` for the error stream. `location` is where the name was found
    /// outside, and is read only where the name is not built in.
    pub fn describe(name: &String, built_in: bool, location: Option<String>) -> (r: Result<
        String,
        String,
    >)
        ensures
            match type_report(
                name@,
                built_in,
                match location {
                    Some(p) => Some(p@),
                    None => None,
                },
            ) {
                Ok(line) => r is Ok && r->Ok_0@ == line,
                Err(line) => r is Err && r->Err_0@ == line,
            },
    {
        let mut line = name.clone();
        if built_in {
            line.append(" is a shell builtin");
            return Ok(line);
        }
        match location {
            Some(path) => {
                line.append(" is ");
                line.append(path.as_str());
                Ok(line)
            },
            None => {
                line.append(": not found");
                Err(line)
            },
        }
    }
}

} // verus!
