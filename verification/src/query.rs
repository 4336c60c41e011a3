//! What a reader of the history asks for.

use vstd::prelude::*;
use vstd::string::*;

verus! {

/// A request path without the slash that it starts with.
pub open spec fn unrooted(path: Seq<char>) -> Seq<char> {
    if path.len() > 0 && path[0] == '/' {
        path.skip(1)
    } else {
        path
    }
}

/// Whether `path` is `/api/v1/history/alias/` and the alias, and perhaps more segments after it.
pub open spec fn names_alias(path: Seq<char>, alias: Seq<char>) -> bool {
    &&& alias.len() > 0
    &&& !alias.contains('/')
    &&& exists|tail: Seq<char>|
        {
            &&& tail.len() == 0 || tail[0] == '/'
            &&& unrooted(path) == #[trigger] ("api/v1/history/alias/"@ + alias + tail)
        }
}

fn chars_of(s: &str) -> (r: Vec<char>)
    ensures
        r@ == s@,
{
    let mut r: Vec<char> = Vec::new();
    for c in it: s.chars()
        invariant
            r@ == it.seq().take(it.index()),
            it.seq() == s@,
    {
        r.push(c);
    }
    r
}

/// The alias whose history a request path asks for; `None` where it asks for something else.
pub fn history_alias(path: &str) -> (r: Option<String>)
    ensures
        match r {
            Some(alias) => names_alias(path@, alias@),
            None => forall|alias: Seq<char>| !#[trigger] names_alias(path@, alias),
        },
{
    let chars = chars_of(path);
    let prefix = chars_of("api/v1/history/alias/");
    let start: usize = if chars.len() > 0 && chars[0] == '/' {
        1
    } else {
        0
    };
    proof {
        reveal_strlit("api/v1/history/alias/");
        assert(unrooted(path@) =~= path@.skip(start as int));
    }
    if chars.len() - start < prefix.len() {
        return None;
    }
    let mut i: usize = 0;
    while i < prefix.len()
        invariant
            i <= prefix.len(),
            start + prefix.len() <= chars.len(),
            chars@ == path@,
            prefix@ == "api/v1/history/alias/"@,
            unrooted(path@) == path@.skip(start as int),
            forall|k: int| 0 <= k < i ==> path@[start + k] == #[trigger] prefix@[k],
        decreases prefix.len() - i,
    {
        if chars[start + i] != prefix[i] {
            proof {
                assert forall|alias: Seq<char>| !#[trigger] names_alias(path@, alias) by {
                    if names_alias(path@, alias) {
                        let tail = choose|tail: Seq<char>|
                            {
                                &&& tail.len() == 0 || tail[0] == '/'
                                &&& unrooted(path@) == #[trigger] ("api/v1/history/alias/"@ + alias
                                    + tail)
                            };
                        assert(unrooted(path@)[i as int] == prefix@[i as int]);
                    }
                }
            }
            return None;
        }
        i = i + 1;
    }
    let from: usize = start + prefix.len();
    let mut end: usize = from;
    while end < chars.len() && chars[end] != '/'
        invariant
            from <= end <= chars.len(),
            chars@ == path@,
            forall|k: int| from <= k < end ==> path@[k] != '/',
        decreases chars.len() - end,
    {
        end = end + 1;
    }
    if end == from {
        proof {
            assert forall|alias: Seq<char>| !#[trigger] names_alias(path@, alias) by {
                if names_alias(path@, alias) {
                    let tail = choose|tail: Seq<char>|
                        {
                            &&& tail.len() == 0 || tail[0] == '/'
                            &&& unrooted(path@) == #[trigger] ("api/v1/history/alias/"@ + alias
                                + tail)
                        };
                    assert(unrooted(path@).len() > prefix.len());
                    assert(unrooted(path@)[prefix.len() as int] == alias[0]);
                    assert(alias.contains(alias[0]));
                }
            }
        }
        return None;
    }
    let alias = path.substring_char(from, end).to_owned();
    proof {
        let tail = path@.skip(end as int);
        assert(unrooted(path@) =~= "api/v1/history/alias/"@ + alias@ + tail);
    }
    Some(alias)
}

/// A request path asks for the history of one alias at most.
pub proof fn law_alias_unique(path: Seq<char>, a: Seq<char>, b: Seq<char>)
    requires
        names_alias(path, a),
        names_alias(path, b),
    ensures
        a == b,
{
    reveal_strlit("api/v1/history/alias/");
    let prefix = "api/v1/history/alias/"@;
    let s = choose|s: Seq<char>|
        {
            &&& s.len() == 0 || s[0] == '/'
            &&& unrooted(path) == #[trigger] (prefix + a + s)
        };
    let t = choose|t: Seq<char>|
        {
            &&& t.len() == 0 || t[0] == '/'
            &&& unrooted(path) == #[trigger] (prefix + b + t)
        };
    let u = unrooted(path);
    assert(forall|k: int| 0 <= k < a.len() ==> a[k] == #[trigger] u[prefix.len() + k]);
    assert(forall|k: int| 0 <= k < b.len() ==> b[k] == #[trigger] u[prefix.len() + k]);
    if a.len() < b.len() {
        assert(u[(prefix.len() + a.len()) as int] == s[0]);
        assert(b[a.len() as int] == '/');
        assert(b.contains('/'));
    }
    if b.len() < a.len() {
        assert(u[(prefix.len() + b.len()) as int] == t[0]);
        assert(a[b.len() as int] == '/');
        assert(a.contains('/'));
    }
    assert(a =~= b) by {
        assert forall|k: int| 0 <= k < a.len() implies a[k] == b[k] by {
            assert(a[k] == u[prefix.len() + k]);
        }
    }
}

/// The path under which the history of an alias is served asks for that alias, whatever
/// segments follow.
pub proof fn law_alias_served(alias: Seq<char>, tail: Seq<char>)
    requires
        alias.len() > 0,
        !alias.contains('/'),
        tail.len() == 0 || tail[0] == '/',
    ensures
        names_alias("/api/v1/history/alias/"@ + alias + tail, alias),
{
    reveal_strlit("/api/v1/history/alias/");
    reveal_strlit("api/v1/history/alias/");
    let path = "/api/v1/history/alias/"@ + alias + tail;
    assert(unrooted(path) =~= "api/v1/history/alias/"@ + alias + tail);
}

/// The details that a reader of the history asks for.
#[derive(Clone, Copy, Debug, PartialEq, Eq)]
pub struct HistoryQuery {
    pub error_backtraces: Option<bool>,
    pub error_causes: Option<bool>,
}

impl HistoryQuery {
    /// Whether backtraces are asked for: not unless the query says so.
    pub open spec fn backtraces(self) -> bool {
        self.error_backtraces == Some(true)
    }

    /// Whether the causes of errors are asked for: not unless the query says so.
    pub open spec fn causes(self) -> bool {
        self.error_causes == Some(true)
    }

    /// Whether backtraces are asked for: not unless the query says so.
    pub fn include_backtraces(&self) -> (r: bool)
        ensures
            r == self.backtraces(),
    {
        self.error_backtraces.unwrap_or(false)
    }

    /// Whether the causes of errors are asked for: not unless the query says so.
    pub fn include_causes(&self) -> (r: bool)
        ensures
            r == self.causes(),
    {
        self.error_causes.unwrap_or(false)
    }
}

} // verus!
