//! Replacements as they are written on a command line: `key=value`.

use vstd::prelude::*;
use vstd::string::*;

verus! {

/// A key and the text that takes the place of its token.
#[derive(Debug)]
pub struct Replacement {
    pub key: String,
    pub value: String,
}

/// Why a `key=value` argument could not be read.
#[derive(Debug, Clone, Copy, PartialEq, Eq, Structural)]
pub enum ParseError {
    /// The argument holds no `=`.
    MissingSeparator,
}

impl ParseError {
    /// The words in which the failure is reported.
    pub open spec fn text(self) -> Seq<char> {
        "There was no `value` part to this replacement."@
    }

    /// The words in which the failure is reported.
    pub fn message(&self) -> (m: &'static str)
        ensures
            m@ == self.text(),
    {
        "There was no `value` part to this replacement."
    }
}

/// The character between a key and its value.
pub open spec fn is_separator(c: char) -> bool {
    c == '='
}

/// `at` is the position of the first separator in `s`.
pub open spec fn splits_at(s: Seq<char>, at: int) -> bool {
    &&& 0 <= at < s.len()
    &&& is_separator(s[at])
    &&& forall|j: int| 0 <= j < at ==> !is_separator(#[trigger] s[j])
}

/// The position of the first separator in `s`, if there is one.
pub open spec fn first_separator(s: Seq<char>) -> Option<int> {
    if exists|at: int| splits_at(s, at) {
        Some(choose|at: int| splits_at(s, at))
    } else {
        None
    }
}

/// The key and the value that `s` is split into, if it holds a separator.
pub open spec fn split(s: Seq<char>) -> Option<(Seq<char>, Seq<char>)> {
    match first_separator(s) {
        Some(at) => Some((s.subrange(0, at), s.subrange(at + 1, s.len() as int))),
        None => None,
    }
}

/// A string is split at one position only, and at none exactly if it holds
/// no separator.
pub proof fn lemma_first_separator(s: Seq<char>)
    ensures
        forall|at: int| first_separator(s) == Some(at) <==> #[trigger] splits_at(s, at),
        first_separator(s) is None <==> forall|j: int|
            0 <= j < s.len() ==> !is_separator(#[trigger] s[j]),
{
    assert forall|at: int| #[trigger] splits_at(s, at) implies first_separator(s) == Some(at) by {
        let chosen = choose|at: int| splits_at(s, at);
        if chosen < at {
            assert(is_separator(s[chosen]));
        } else if at < chosen {
            assert(is_separator(s[at]));
        }
    }
    if first_separator(s) is None {
        assert forall|j: int| 0 <= j < s.len() implies !is_separator(#[trigger] s[j]) by {
            if is_separator(s[j]) {
                lemma_separator_before(s, j);
            }
        }
    }
}

/// Where a separator stands at `j`, the string is split at `j` or before.
proof fn lemma_separator_before(s: Seq<char>, j: int)
    requires
        0 <= j < s.len(),
        is_separator(s[j]),
    ensures
        exists|at: int| 0 <= at <= j && splits_at(s, at),
    decreases j,
{
    if exists|k: int| 0 <= k < j && is_separator(s[k]) {
        let k = choose|k: int| 0 <= k < j && is_separator(s[k]);
        lemma_separator_before(s, k);
    } else {
        assert(splits_at(s, j));
    }
}

impl Replacement {
    /// Splits `s` at its first `=`: what stands before it is the key, what
    /// follows it, further `=` included, is the value. Either part may be
    /// empty. An argument without `=` is rejected.
    pub fn from_str(s: &str) -> (r: Result<Replacement, ParseError>)
        ensures
            match r {
                Ok(rep) => split(s@) == Some((rep.key@, rep.value@)),
                Err(e) => split(s@) is None && e == ParseError::MissingSeparator,
            },
    {
        let n: usize = s.unicode_len();
        let mut at: usize = 0;
        let mut found: bool = false;
        for c in it: s.chars()
            invariant
                it.seq() == s@,
                !found ==> at == it.index(),
                !found ==> forall|j: int| 0 <= j < at ==> !is_separator(#[trigger] s@[j]),
                found ==> splits_at(s@, at as int),
                at <= n,
                n == s@.len(),
        {
            if !found {
                if c == '=' {
                    found = true;
                } else {
                    at = at + 1;
                }
            }
        }
        proof {
            lemma_first_separator(s@);
        }
        if found {
            let key = s.substring_char(0, at).to_owned();
            let value = s.substring_char(at + 1, n).to_owned();
            Ok(Replacement { key, value })
        } else {
            Err(ParseError::MissingSeparator)
        }
    }
}

} // verus!
