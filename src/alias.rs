//! Aliases: a path fragment may start with a bracketed token (`[name]`,
//! `{name}` or `(name)`) that stands for a configured path.
use vstd::prelude::*;
use vstd::string::*;
use crate::tools::{fixed, fixer, text_eq};

verus! {

pub open spec fn is_opener(c: char) -> bool {
    c == '[' || c == '{' || c == '('
}

pub open spec fn is_closer(c: char) -> bool {
    c == ']' || c == '}' || c == ')'
}

/// The index of the first newline at or after `from`, or the length.
pub open spec fn line_end(s: Seq<char>, from: int) -> int
    decreases s.len() - from,
{
    if from >= s.len() {
        s.len() as int
    } else if s[from] == '\n' {
        from
    } else {
        line_end(s, from + 1)
    }
}

/// The index of the last closing bracket in `s[1..end)`, or 0 when there is none.
pub open spec fn last_closer(s: Seq<char>, end: int) -> int
    decreases end,
{
    if end <= 1 {
        0
    } else if is_closer(s[end - 1]) {
        end - 1
    } else {
        last_closer(s, end - 1)
    }
}

/// Where the alias token at the start of `s` ends (exclusive): an opening
/// bracket, then up to the last closing bracket on the first line.
pub open spec fn token_end(s: Seq<char>) -> Option<int> {
    if s.len() >= 2 && is_opener(s[0]) && last_closer(s, line_end(s, 1)) >= 1 {
        Some(last_closer(s, line_end(s, 1)) + 1)
    } else {
        None
    }
}

/// An alias name is a whole token: an opening bracket, one line, a closing
/// bracket.
pub open spec fn alias_name_ok(s: Seq<char>) -> bool {
    s.len() >= 2 && is_opener(s[0]) && is_closer(s[s.len() - 1]) && line_end(s, 1) >= s.len() - 1
}

/// The value of the first alias named `key`.
pub open spec fn alias_value(aliases: Seq<(String, String)>, key: Seq<char>) -> Option<Seq<char>>
    decreases aliases.len(),
{
    if aliases.len() == 0 {
        None
    } else if aliases[0].0@ == key {
        Some(aliases[0].1@)
    } else {
        alias_value(aliases.subrange(1, aliases.len() as int), key)
    }
}

/// A fragment with its leading alias replaced: the alias's path, then the
/// rest of the fragment, each normalised; a fragment without a token (or
/// that is nothing but one) is only normalised. An unknown token is refused.
pub open spec fn alias_resolved(path: Seq<char>, aliases: Seq<(String, String)>) -> Result<Seq<char>, Seq<char>> {
    match token_end(path) {
        Some(e) if e < path.len() => {
            let token = path.subrange(0, e);
            match alias_value(aliases, token) {
                Some(v) => Ok(fixed(v) + fixed(path.subrange(e, path.len() as int))),
                None => Err(token),
            }
        },
        _ => Ok(fixed(path)),
    }
}

/// An alias token that no configured alias names.
#[derive(Debug, Clone, PartialEq, Eq)]
pub enum AliasError {
    NoMatch(String),
}

fn opener(c: char) -> (r: bool)
    ensures
        r == is_opener(c),
{
    c == '[' || c == '{' || c == '('
}

fn closer(c: char) -> (r: bool)
    ensures
        r == is_closer(c),
{
    c == ']' || c == '}' || c == ')'
}

fn find_line_end(s: &str, from: usize) -> (r: usize)
    requires
        from <= s@.len(),
    ensures
        r == line_end(s@, from as int),
        from <= r <= s@.len(),
{
    let n = s.unicode_len();
    let mut i = from;
    while i < n && s.get_char(i) != '\n'
        invariant
            n == s@.len(),
            from <= i <= n,
            line_end(s@, from as int) == line_end(s@, i as int),
        decreases n - i,
    {
        i = i + 1;
    }
    i
}

proof fn lemma_last_closer_range(s: Seq<char>, end: int)
    ensures
        last_closer(s, end) == 0 || 1 <= last_closer(s, end) < end,
    decreases end,
{
    if end > 1 && !is_closer(s[end - 1]) {
        lemma_last_closer_range(s, end - 1);
    }
}

fn find_last_closer(s: &str, end: usize) -> (r: usize)
    requires
        end <= s@.len(),
    ensures
        r == last_closer(s@, end as int),
        r == 0 || 1 <= r < end,
{
    let mut e = end;
    proof { lemma_last_closer_range(s@, end as int); }
    while e > 1 && !closer(s.get_char(e - 1))
        invariant
            e <= end <= s@.len(),
            last_closer(s@, end as int) == last_closer(s@, e as int),
            last_closer(s@, e as int) == 0 || 1 <= last_closer(s@, e as int) < e,
        decreases e,
    {
        e = e - 1;
        proof { lemma_last_closer_range(s@, e as int); }
    }
    if e <= 1 { 0 } else { e - 1 }
}

/// Where the alias token at the start of `s` ends, if it has one.
pub fn alias_token_end(s: &str) -> (r: Option<usize>)
    ensures
        r is None <==> token_end(s@) is None,
        r matches Some(e) ==> token_end(s@) == Some(e as int) && e <= s@.len(),
{
    let n = s.unicode_len();
    if n < 2 || !opener(s.get_char(0)) {
        return None;
    }
    let k = find_last_closer(s, find_line_end(s, 1));
    if k >= 1 { Some(k + 1) } else { None }
}

/// Whether a configured alias name is well formed.
pub fn is_alias_name(s: &str) -> (r: bool)
    ensures
        r == alias_name_ok(s@),
{
    let n = s.unicode_len();
    n >= 2 && opener(s.get_char(0)) && closer(s.get_char(n - 1)) && find_line_end(s, 1) >= n - 1
}

/// The value of the first alias named `key`.
pub fn get_alias(aliases: &Vec<(String, String)>, key: &str) -> (r: Option<String>)
    ensures
        match alias_value(aliases@, key@) {
            Some(v) => r matches Some(x) && x@ == v,
            None => r is None,
        },
{
    let mut i: usize = 0;
    assert(aliases@.subrange(0, aliases@.len() as int) =~= aliases@);
    while i < aliases.len()
        invariant
            i <= aliases@.len(),
            alias_value(aliases@, key@) == alias_value(aliases@.subrange(i as int, aliases@.len() as int), key@),
        decreases aliases@.len() - i,
    {
        let ghost rest = aliases@.subrange(i as int, aliases@.len() as int);
        assert(rest[0] == aliases@[i as int]);
        assert(rest.subrange(1, rest.len() as int) =~= aliases@.subrange(i + 1, aliases@.len() as int));
        if text_eq(aliases[i].0.as_str(), key) {
            return Some(aliases[i].1.clone());
        }
        i = i + 1;
    }
    None
}

/// Replaces the leading alias of a path fragment and normalises it.
pub fn process_alias(path: &str, aliases: &Vec<(String, String)>) -> (r: Result<String, AliasError>)
    ensures
        match alias_resolved(path@, aliases@) {
            Ok(p) => r matches Ok(x) && x@ == p,
            Err(t) => r matches Err(AliasError::NoMatch(x)) && x@ == t,
        },
{
    let n = path.unicode_len();
    match alias_token_end(path) {
        Some(e) => {
            assert(token_end(path@) == Some(e as int));
            if e < n {
                let token = path.substring_char(0, e);
                assert(token@ == path@.subrange(0, e as int));
                match get_alias(aliases, token) {
                    Some(v) => {
                        let head = fixer(v.as_str());
                        let tail = fixer(path.substring_char(e, n));
                        Ok(head.concat(tail.as_str()))
                    },
                    None => Err(AliasError::NoMatch(String::from_str(token))),
                }
            } else {
                Ok(fixer(path))
            }
        },
        None => Ok(fixer(path)),
    }
}

} // verus!
