use vstd::prelude::*;

verus! {

use vstd::string::StrSliceExecFns;
use crate::config::Config;
use crate::strutil::{is_prefix_of, str_eq, str_is_prefix};

/// A route pattern matches a path when the path is the pattern itself or
/// extends it below a path separator. The root route `/` is a catch-all for
/// every absolute path.
pub open spec fn route_matches(route: Seq<char>, path: Seq<char>) -> bool {
    if route == seq!['/'] {
        path.len() >= 1 && path[0] == '/'
    } else {
        path == route || (path.len() > route.len() && path.subrange(0, route.len() as int)
            == route && path[route.len() as int] == '/')
    }
}

/// Law: a path that is a configured route, or extends it below a `/`,
/// matches that route.
pub proof fn lemma_route_extension_matches(route: Seq<char>, path: Seq<char>)
    requires
        path == route || (path.len() > route.len() && path.subrange(0, route.len() as int)
            == route && path[route.len() as int] == '/'),
    ensures
        route_matches(route, path),
{
    if route == seq!['/'] {
        if path == route {
            assert(path[0] == '/');
        } else {
            assert(path[0] == path.subrange(0, route.len() as int)[0]);
        }
    }
}

/// Decide `route_matches` for one route pattern.
pub fn path_matches_route(route: &str, path: &str) -> (r: bool)
    ensures
        r == route_matches(route@, path@),
{
    proof {
        reveal_strlit("/");
    }
    if str_eq(route, "/") {
        proof {
            assert(route@ =~= seq!['/']);
        }
        if path.unicode_len() >= 1 {
            path.get_char(0) == '/'
        } else {
            false
        }
    } else {
        proof {
            assert("/"@ =~= seq!['/']);
        }
        if str_eq(route, path) {
            return true;
        }
        let rl = route.unicode_len();
        let pl = path.unicode_len();
        if pl > rl && str_is_prefix(route, path) {
            path.get_char(rl) == '/'
        } else {
            assert(!(path@.len() > route@.len() && path@.subrange(0, route@.len() as int)
                == route@));
            false
        }
    }
}

/// The path matcher: the configured route patterns, matched longest-first.
/// Rebuilt as a pure function of the configuration on every reload and
/// swapped in wholesale.
#[derive(Debug, Clone)]
pub struct RouteTable {
    pub routes: Vec<String>,
}

impl RouteTable {
    /// An empty table, matching nothing.
    pub fn new() -> (t: Self)
        ensures
            t.routes@.len() == 0,
    {
        RouteTable { routes: Vec::new() }
    }

    /// The index of the longest configured route matching `path`, or `None`
    /// when no route matches.
    pub fn match_path(&self, path: &str) -> (r: Option<usize>)
        ensures
            match r {
                Some(i) => {
                    &&& i < self.routes@.len()
                    &&& route_matches(self.routes@[i as int]@, path@)
                    &&& forall|j: int|
                        0 <= j < self.routes@.len() && route_matches(self.routes@[j]@, path@)
                            ==> self.routes@[j]@.len() <= self.routes@[i as int]@.len()
                },
                None => forall|j: int|
                    0 <= j < self.routes@.len() ==> !route_matches(self.routes@[j]@, path@),
            },
    {
        let n = self.routes.len();
        let mut best: Option<usize> = None;
        let mut idx: usize = 0;
        while idx < n
            invariant
                idx <= n,
                n == self.routes@.len(),
                match best {
                    Some(b) => {
                        &&& b < idx
                        &&& route_matches(self.routes@[b as int]@, path@)
                        &&& forall|j: int|
                            0 <= j < idx && route_matches(self.routes@[j]@, path@)
                                ==> self.routes@[j]@.len() <= self.routes@[b as int]@.len()
                    },
                    None => forall|j: int| 0 <= j < idx ==> !route_matches(self.routes@[j]@, path@),
                },
            decreases n - idx,
        {
            if path_matches_route(self.routes[idx].as_str(), path) {
                best = match best {
                    Some(b) => {
                        if self.routes[idx].as_str().unicode_len() > self.routes[b].as_str().unicode_len() {
                            Some(idx)
                        } else {
                            Some(b)
                        }
                    },
                    None => Some(idx),
                };
            }
            idx = idx + 1;
        }
        best
    }
}

/// Build the route table from the configuration: one pattern per configured
/// route, in configuration order. A pure function of the snapshot; the old
/// table is simply discarded on swap.
pub fn build_tree(config: &Config) -> (t: RouteTable)
    ensures
        t.routes@.len() == config.routes@.len(),
        forall|i: int| 0 <= i < config.routes@.len() ==> t.routes@[i]@ == config.routes@[i].0@,
{
    let n = config.routes.len();
    let mut routes: Vec<String> = Vec::new();
    let mut i: usize = 0;
    while i < n
        invariant
            i <= n,
            n == config.routes@.len(),
            routes@.len() == i,
            forall|j: int| 0 <= j < i ==> routes@[j]@ == config.routes@[j].0@,
        decreases n - i,
    {
        let e: &(String, crate::config::RouteConfig) = &config.routes[i];
        routes.push(e.0.clone());
        i = i + 1;
    }
    RouteTable { routes }
}

/// The longest configured route that matches `path`, or `None` when no
/// route matches. Ties cannot arise: two distinct routes of equal length
/// cannot both match one path.
pub fn get_longest_macthing_route(table: &RouteTable, path: &str) -> (r: Option<String>)
    ensures
        match r {
            Some(m) => {
                &&& route_matches(m@, path@)
                &&& exists|i: int| 0 <= i < table.routes@.len() && table.routes@[i]@ == m@
                &&& forall|j: int|
                    0 <= j < table.routes@.len() && route_matches(table.routes@[j]@, path@)
                        ==> table.routes@[j]@.len() <= m@.len()
            },
            None => forall|j: int|
                0 <= j < table.routes@.len() ==> !route_matches(table.routes@[j]@, path@),
        },
{
    match table.match_path(path) {
        Some(i) => {
            let m = table.routes[i].clone();
            assert(table.routes@[i as int]@ == m@);
            Some(m)
        },
        None => None,
    }
}

} // verus!
