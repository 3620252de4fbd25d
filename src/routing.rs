use vstd::prelude::*;
use vstd::string::StringExecFns;

use crate::error::ErrorKind;

verus! {

/// Index of the first character of `path` at or after `i` that is not a
/// slash, or the length of `path` where there is none.
pub open spec fn skip_slashes(path: Seq<char>, i: int) -> int
    decreases path.len() - i,
{
    if 0 <= i < path.len() && path[i] == '/' {
        skip_slashes(path, i + 1)
    } else {
        i
    }
}

/// Index of the first slash of `path` at or after `i`, or the length of
/// `path` where there is none.
pub open spec fn segment_end(path: Seq<char>, i: int) -> int
    decreases path.len() - i,
{
    if 0 <= i < path.len() && path[i] != '/' {
        segment_end(path, i + 1)
    } else {
        i
    }
}

/// The first non-empty segment of a path that starts with a slash; `None`
/// where the path does not start with a slash or has no segment.
pub open spec fn first_segment(path: Seq<char>) -> Option<Seq<char>> {
    if path.len() > 0 && path[0] == '/' {
        let start = skip_slashes(path, 0);
        let end = segment_end(path, start);
        if start < end {
            Some(path.subrange(start, end))
        } else {
            None
        }
    } else {
        None
    }
}

proof fn lemma_skip_slashes(path: Seq<char>, i: int, k: int)
    requires
        0 <= i <= k <= path.len(),
        forall|j: int| i <= j < k ==> path[j] == '/',
        k == path.len() || path[k] != '/',
    ensures
        skip_slashes(path, i) == k,
    decreases k - i,
{
    if i < k {
        lemma_skip_slashes(path, i + 1, k);
    }
}

proof fn lemma_segment_end(path: Seq<char>, i: int, k: int)
    requires
        0 <= i <= k <= path.len(),
        forall|j: int| i <= j < k ==> path[j] != '/',
        k == path.len() || path[k] == '/',
    ensures
        segment_end(path, i) == k,
    decreases k - i,
{
    if i < k {
        lemma_segment_end(path, i + 1, k);
    }
}

/// The first non-empty segment of `path`, which must start with a slash:
/// `/api/users` and `/api` both give `api`.
pub fn root_segment<'a>(path: &'a str) -> (r: Option<&'a str>)
    ensures
        match r {
            Some(seg) => first_segment(path@) == Some(seg@) && seg@.len() > 0,
            None => first_segment(path@) is None,
        },
{
    let n = path.unicode_len();
    if n == 0 || path.get_char(0) != '/' {
        return None;
    }
    let mut start: usize = 0;
    while start < n && path.get_char(start) == '/'
        invariant
            n == path@.len(),
            start <= n,
            forall|j: int| 0 <= j < start ==> path@[j] == '/',
        decreases n - start,
    {
        start = start + 1;
    }
    let mut end: usize = start;
    while end < n && path.get_char(end) != '/'
        invariant
            n == path@.len(),
            start <= end <= n,
            forall|j: int| start <= j < end ==> path@[j] != '/',
        decreases n - end,
    {
        end = end + 1;
    }
    proof {
        lemma_skip_slashes(path@, 0, start as int);
        lemma_segment_end(path@, start as int, end as int);
    }
    if start < end {
        Some(path.substring_char(start, end))
    } else {
        None
    }
}

/// Whether two strings hold the same characters.
fn str_equal(a: &str, b: &str) -> (r: bool)
    ensures
        r == (a@ == b@),
{
    let n = a.unicode_len();
    if n != b.unicode_len() {
        return false;
    }
    let mut i: usize = 0;
    while i < n
        invariant
            n == a@.len() == b@.len(),
            i <= n,
            forall|j: int| 0 <= j < i ==> a@[j] == b@[j],
        decreases n - i,
    {
        if a.get_char(i) != b.get_char(i) {
            return false;
        }
        i = i + 1;
    }
    assert(a@ =~= b@);
    true
}

/// A route: requests whose first path segment is `request_path` go to
/// `host:port`. `name` is for display only.
#[derive(Clone, Debug, PartialEq, Eq)]
pub struct PeerRoute {
    pub request_path: String,
    pub host: String,
    pub port: u16,
    pub name: String,
}

/// The mapping that indexing `routes` in order gives: each route under its
/// path segment, a later route replacing an earlier one with the same
/// segment.
pub open spec fn route_map(routes: Seq<PeerRoute>) -> Map<Seq<char>, PeerRoute>
    decreases routes.len(),
{
    if routes.len() == 0 {
        Map::empty()
    } else {
        route_map(routes.drop_last()).insert(routes.last().request_path@, routes.last())
    }
}

/// No two of `routes` share a path segment.
pub open spec fn distinct_paths(routes: Seq<PeerRoute>) -> bool {
    forall|i: int, j: int|
        0 <= i < routes.len() && 0 <= j < routes.len() && i != j
            ==> (#[trigger] routes[i]).request_path@ != (#[trigger] routes[j]).request_path@
}

proof fn lemma_route_map(routes: Seq<PeerRoute>)
    ensures
        forall|k: Seq<char>|
            #[trigger] route_map(routes).contains_key(k)
                <==> exists|i: int| 0 <= i < routes.len() && (#[trigger] routes[i]).request_path@ == k,
        distinct_paths(routes) ==> forall|i: int|
            0 <= i < routes.len() ==> route_map(routes)[(#[trigger] routes[i]).request_path@] == routes[i],
    decreases routes.len(),
{
    if routes.len() > 0 {
        let init = routes.drop_last();
        lemma_route_map(init);
        assert forall|k: Seq<char>|
            #[trigger] route_map(routes).contains_key(k)
                <==> exists|i: int| 0 <= i < routes.len() && (#[trigger] routes[i]).request_path@ == k by {
            if route_map(routes).contains_key(k) && k != routes.last().request_path@ {
                assert(route_map(init).contains_key(k));
                let i = choose|i: int| 0 <= i < init.len() && (#[trigger] init[i]).request_path@ == k;
                assert(routes[i] == init[i]);
            }
            if exists|i: int| 0 <= i < routes.len() && (#[trigger] routes[i]).request_path@ == k {
                let i = choose|i: int| 0 <= i < routes.len() && (#[trigger] routes[i]).request_path@ == k;
                if i < init.len() {
                    assert(init[i] == routes[i]);
                    assert(route_map(init).contains_key(k));
                }
            }
        }
        if distinct_paths(routes) {
            assert forall|i: int, j: int|
                0 <= i < init.len() && 0 <= j < init.len() && i != j
                    implies (#[trigger] init[i]).request_path@ != (#[trigger] init[j]).request_path@ by {
                assert(init[i] == routes[i] && init[j] == routes[j]);
            }
            assert forall|i: int| 0 <= i < routes.len()
                implies route_map(routes)[(#[trigger] routes[i]).request_path@] == routes[i] by {
                if i < init.len() {
                    assert(init[i] == routes[i]);
                    assert(routes[i].request_path@ != routes[routes.len() - 1].request_path@);
                }
            }
        }
    }
}

proof fn lemma_route_map_update(routes: Seq<PeerRoute>, p: int, route: PeerRoute)
    requires
        distinct_paths(routes),
        0 <= p < routes.len(),
        routes[p].request_path@ == route.request_path@,
    ensures
        distinct_paths(routes.update(p, route)),
        route_map(routes.update(p, route)) == route_map(routes).insert(route.request_path@, route),
{
    let updated = routes.update(p, route);
    assert forall|i: int, j: int|
        0 <= i < updated.len() && 0 <= j < updated.len() && i != j
            implies (#[trigger] updated[i]).request_path@ != (#[trigger] updated[j]).request_path@ by {
        assert(updated[i].request_path@ == routes[i].request_path@);
        assert(updated[j].request_path@ == routes[j].request_path@);
    }
    lemma_route_map(routes);
    lemma_route_map(updated);
    let lhs = route_map(updated);
    let rhs = route_map(routes).insert(route.request_path@, route);
    assert forall|k: Seq<char>| #[trigger] lhs.contains_key(k) <==> rhs.contains_key(k) by {
        if lhs.contains_key(k) {
            let i = choose|i: int| 0 <= i < updated.len() && (#[trigger] updated[i]).request_path@ == k;
            assert(routes[i].request_path@ == k);
            assert(route_map(routes).contains_key(k));
        }
        if rhs.contains_key(k) && k != route.request_path@ {
            assert(route_map(routes).contains_key(k));
            let i = choose|i: int| 0 <= i < routes.len() && (#[trigger] routes[i]).request_path@ == k;
            assert(updated[i].request_path@ == k);
            assert(lhs.contains_key(k));
        }
        if rhs.contains_key(k) && k == route.request_path@ {
            assert(updated[p].request_path@ == k);
            assert(lhs.contains_key(k));
        }
    }
    assert forall|k: Seq<char>| #[trigger] lhs.contains_key(k) implies lhs[k] == rhs[k] by {
        let i = choose|i: int| 0 <= i < updated.len() && (#[trigger] updated[i]).request_path@ == k;
        if i != p {
            assert(updated[i] == routes[i]);
            assert(route_map(routes)[routes[i].request_path@] == routes[i]);
        }
    }
    assert(lhs =~= rhs);
}

/// Index of the route of `routes` whose path segment is `segment`, if any.
fn route_position(routes: &Vec<PeerRoute>, segment: &str) -> (r: Option<usize>)
    ensures
        match r {
            Some(i) => i < routes@.len() && routes@[i as int].request_path@ == segment@,
            None => forall|i: int| 0 <= i < routes@.len() ==> (#[trigger] routes@[i]).request_path@ != segment@,
        },
{
    let mut i: usize = 0;
    while i < routes.len()
        invariant
            i <= routes@.len(),
            forall|j: int| 0 <= j < i ==> (#[trigger] routes@[j]).request_path@ != segment@,
        decreases routes@.len() - i,
    {
        if str_equal(routes[i].request_path.as_str(), segment) {
            return Some(i);
        }
        i = i + 1;
    }
    None
}

/// An immutable mapping from a path segment to the route that serves it.
pub struct RouteTable {
    routes: Vec<PeerRoute>,
}

impl RouteTable {
    #[verifier::type_invariant]
    spec fn keyed(&self) -> bool {
        distinct_paths(self.routes@)
    }

    /// The mapping, keyed by path segment.
    pub closed spec fn view(&self) -> Map<Seq<char>, PeerRoute> {
        route_map(self.routes@)
    }

    /// Indexes `routes` by path segment; where two share a segment, the later
    /// one wins.
    pub fn build(routes: Vec<PeerRoute>) -> (r: RouteTable)
        ensures
            r.view() == route_map(routes@),
    {
        let mut held: Vec<PeerRoute> = Vec::new();
        let mut input = routes;
        let ghost all = input@;
        let ghost mut k: int = 0;
        proof {
            assert(all.take(0) =~= Seq::<PeerRoute>::empty());
            assert(all.skip(0) =~= all);
        }
        while input.len() > 0
            invariant
                0 <= k <= all.len(),
                input@ == all.skip(k),
                distinct_paths(held@),
                route_map(held@) == route_map(all.take(k)),
            decreases input@.len(),
        {
            let route = input.remove(0);
            proof {
                assert(route == all[k]);
                assert(all.take(k + 1).drop_last() =~= all.take(k));
                assert(input@ =~= all.skip(k + 1));
            }
            match route_position(&held, route.request_path.as_str()) {
                Some(p) => {
                    proof {
                        lemma_route_map_update(held@, p as int, route);
                    }
                    held.set(p, route);
                },
                None => {
                    let ghost before = held@;
                    held.push(route);
                    proof {
                        assert(held@.drop_last() =~= before);
                        assert forall|i: int, j: int|
                            0 <= i < held@.len() && 0 <= j < held@.len() && i != j
                                implies (#[trigger] held@[i]).request_path@ != (#[trigger] held@[j]).request_path@ by {
                            if i < before.len() && j < before.len() {
                                assert(held@[i] == before[i] && held@[j] == before[j]);
                            } else if i < before.len() {
                                assert(held@[i] == before[i]);
                            } else {
                                assert(held@[j] == before[j]);
                            }
                        }
                    }
                },
            }
            proof {
                k = k + 1;
            }
        }
        proof {
            assert(all.take(k) =~= all);
        }
        RouteTable { routes: held }
    }
}

/// The route that serves `path` in `table`: the one keyed by the path's
/// first segment, if the path has one and the table holds it.
pub open spec fn route_for(table: Map<Seq<char>, PeerRoute>, path: Seq<char>) -> Option<PeerRoute> {
    match first_segment(path) {
        Some(seg) => if table.contains_key(seg) {
            Some(table[seg])
        } else {
            None
        },
        None => None,
    }
}

/// What an `UnknownRoute` rejection of `path` names: the path's first
/// segment, or the whole path where it has none.
pub open spec fn unrouted_name(path: Seq<char>) -> Seq<char> {
    match first_segment(path) {
        Some(seg) => seg,
        None => path,
    }
}

impl RouteTable {
    /// The route keyed by `segment`, if there is one.
    pub fn get(&self, segment: &str) -> (r: Option<&PeerRoute>)
        ensures
            match r {
                Some(route) => self.view().contains_key(segment@) && *route == self.view()[segment@],
                None => !self.view().contains_key(segment@),
            },
    {
        proof {
            use_type_invariant(self);
            lemma_route_map(self.routes@);
        }
        match route_position(&self.routes, segment) {
            Some(i) => Some(&self.routes[i]),
            None => None,
        }
    }

    /// The route that serves `path`, chosen by its first segment alone; fails
    /// with `UnknownRoute` where the path has no segment or the table holds
    /// none for it, naming the segment (or the whole path where it has none).
    pub fn resolve_segment(&self, path: &str) -> (r: Result<&PeerRoute, ErrorKind>)
        ensures
            match route_for(self.view(), path@) {
                Some(route) => r is Ok && *r->Ok_0 == route,
                None => r is Err && r->Err_0 is UnknownRoute
                    && r->Err_0->UnknownRoute_0@ == unrouted_name(path@),
            },
    {
        match root_segment(path) {
            Some(seg) => match self.get(seg) {
                Some(route) => Ok(route),
                None => Err(ErrorKind::UnknownRoute(String::from_str(seg))),
            },
            None => Err(ErrorKind::UnknownRoute(String::from_str(path))),
        }
    }
}

/// Routing reads the first segment alone: a path made of a slash, a segment
/// and anything that starts a new segment or is empty is served by the same
/// route as the slash and the segment alone, and that route is the one keyed
/// by the segment.
pub proof fn lemma_routing_is_segment_only(table: RouteTable, segment: Seq<char>, suffix: Seq<char>)
    requires
        segment.len() > 0,
        forall|i: int| 0 <= i < segment.len() ==> segment[i] != '/',
        suffix.len() == 0 || suffix[0] == '/',
    ensures
        route_for(table.view(), seq!['/'] + segment + suffix) == route_for(table.view(), seq!['/'] + segment),
        first_segment(seq!['/'] + segment + suffix) == Some(segment),
{
    let short = seq!['/'] + segment;
    let long = short + suffix;
    let n = short.len() as int;
    lemma_skip_slashes(short, 0, 1);
    lemma_skip_slashes(long, 0, 1);
    lemma_segment_end(short, 1, n);
    lemma_segment_end(long, 1, n);
    assert(short.subrange(1, n) =~= segment);
    assert(long.subrange(1, n) =~= segment);
}

/// A path whose first segment the table does not hold is never served.
pub proof fn lemma_unknown_segment_fails(table: RouteTable, path: Seq<char>)
    requires
        match first_segment(path) {
            Some(seg) => !table.view().contains_key(seg),
            None => true,
        },
    ensures
        route_for(table.view(), path) is None,
{
}

} // verus!
