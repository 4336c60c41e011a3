//! Which requests ask for a history.

use crate::query::{names_alias, unrooted, HistoryQuery};
use vstd::prelude::*;

verus! {

/// Whether a path is the one under which the history of an alias is served, with or without the
/// slash that it starts with, and with the tail after the alias.
pub open spec fn is_history_path(path: Seq<char>, alias: Seq<char>, tail: Seq<char>) -> bool {
    &&& tail.len() > 0 ==> tail[0] == '/'
    &&& {
        ||| path == "/api/v1/history/alias/"@ + alias + tail
        ||| path == "api/v1/history/alias/"@ + alias + tail
    }
}

/// Nothing but the path under which a history is served asks for one: `/api/v1/history/alias/`,
/// or the same without the slash that it starts with, then the alias, which is not empty and has
/// no slash in it, then nothing or a slash and anything.
pub proof fn law_only_history_paths_name_aliases(path: Seq<char>, alias: Seq<char>)
    requires
        names_alias(path, alias),
    ensures
        alias.len() > 0,
        forall|i: int| 0 <= i < alias.len() ==> #[trigger] alias[i] != '/',
        exists|tail: Seq<char>| is_history_path(path, alias, tail),
{
    let rooted = "/api/v1/history/alias/"@;
    let prefix = "api/v1/history/alias/"@;
    assert(rooted == seq!['/'] + prefix) by {
        reveal_strlit("/api/v1/history/alias/");
        reveal_strlit("api/v1/history/alias/");
        assert("/api/v1/history/alias/"@ =~= seq!['/'] + "api/v1/history/alias/"@);
    }
    assert forall|i: int| 0 <= i < alias.len() implies #[trigger] alias[i] != '/' by {
        if alias[i] == '/' {
            assert(alias.contains('/'));
        }
    }
    let tail = choose|tail: Seq<char>|
        {
            &&& tail.len() == 0 || tail[0] == '/'
            &&& unrooted(path) == #[trigger] ("api/v1/history/alias/"@ + alias + tail)
        };
    if path.len() > 0 && path[0] == '/' {
        assert(path =~= seq!['/'] + path.skip(1));
        assert(seq!['/'] + (prefix + alias + tail) =~= rooted + alias + tail);
    }
    assert(is_history_path(path, alias, tail));
}

/// The path under which a history is served asks for it without the slash that it starts with,
/// too.
pub proof fn law_alias_served_unrooted(alias: Seq<char>, tail: Seq<char>)
    requires
        alias.len() > 0,
        !alias.contains('/'),
        tail.len() == 0 || tail[0] == '/',
    ensures
        names_alias("api/v1/history/alias/"@ + alias + tail, alias),
{
    reveal_strlit("api/v1/history/alias/");
    let path = "api/v1/history/alias/"@ + alias + tail;
    assert(path[0] == 'a');
    assert(unrooted(path) == path);
}

/// Details are asked for where the query says so in as many words, and each apart from the other.
pub proof fn law_details_asked_for(query: HistoryQuery)
    ensures
        query.backtraces() <==> query.error_backtraces == Some(true),
        query.causes() <==> query.error_causes == Some(true),
{
}

} // verus!
