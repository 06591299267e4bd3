//! A plain splitter that breaks a line at ASCII whitespace, with no quoting.
use vstd::prelude::*;
use crate::fields::{fields, lemma_fields_of_field, no_separator};
use crate::text::{chars_of, push_char, string_views};

verus! {

/// Space, tab, line feed, form feed and carriage return.
pub open spec fn is_ascii_whitespace(c: char) -> bool {
    c == ' ' || c == '\t' || c == '\n' || c == '\x0C' || c == '\r'
}

/// The separators of `LineParser::parse`.
pub open spec fn ascii_whitespace() -> spec_fn(char) -> bool {
    |c: char| is_ascii_whitespace(c)
}

pub struct LineParser;

impl LineParser {
    /// The maximal runs of non-whitespace characters of `line`, in order.
    pub fn parse(line: String) -> (r: Vec<String>)
        ensures
            string_views(r@) == fields(line@, ascii_whitespace()),
    {
        let chars = chars_of(line.as_str());
        let ghost s = line@;
        let ghost sep = ascii_whitespace();
        let mut current = String::new();
        let mut ans: Vec<String> = Vec::new();
        let mut i: usize = 0;
        assert(current@ + s.skip(0) =~= s);
        assert(string_views(ans@) + fields(s, sep) =~= fields(s, sep));
        while i < chars.len()
            invariant
                chars@ == s,
                sep == ascii_whitespace(),
                i <= s.len(),
                no_separator(current@, sep),
                fields(s, sep) == string_views(ans@) + fields(current@ + s.skip(i as int), sep),
            decreases s.len() - i,
        {
            let c = chars[i];
            let ghost rest = s.skip(i as int);
            assert(rest.drop_first() =~= s.skip(i + 1));
            if !(c == ' ' || c == '\t' || c == '\n' || c == '\x0C' || c == '\r') {
                let ghost old_current = current@;
                push_char(&mut current, c);
                assert(current@ + s.skip(i + 1) =~= old_current + rest);
            } else if !current.as_str().is_empty() {
                proof {
                    lemma_fields_of_field(current@, rest, sep);
                    assert(string_views(ans@.push(current)) =~= string_views(ans@).push(current@));
                }
                ans.push(current);
                current = String::new();
                assert(current@ + s.skip(i + 1) =~= s.skip(i + 1));
                assert(string_views(ans@) + fields(s.skip(i + 1), sep) =~= string_views(ans@)
                    + (seq![] + fields(s.skip(i + 1), sep)));
            } else {
                assert(current@ + rest =~= rest);
                assert(current@ + s.skip(i + 1) =~= s.skip(i + 1));
            }
            i = i + 1;
        }
        assert(current@ + s.skip(i as int) =~= current@);
        if !current.as_str().is_empty() {
            proof {
                lemma_fields_of_field(current@, seq![], sep);
                assert(current@ + seq![] =~= current@);
                assert(string_views(ans@.push(current)) =~= string_views(ans@).push(current@));
            }
            ans.push(current);
        }
        ans
    }
}

} // verus!
