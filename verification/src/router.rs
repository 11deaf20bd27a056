//! The route table: an ordered sequence of (method, path, handler)
//! bindings with exact-equality lookup and last-write-wins registration.

use crate::method::Method;
use vstd::prelude::*;

verus! {

/// A registered binding from an HTTP method and an exact path to a handler.
pub struct Route<H> {
    pub method: Method,
    pub path: Vec<u8>,
    pub handler: H,
}

/// The mathematical value of a `Route`.
#[verifier::ext_equal]
pub ghost struct RouteView<H> {
    pub method: Method,
    pub path: Seq<u8>,
    pub handler: H,
}

impl<H> View for Route<H> {
    type V = RouteView<H>;

    open spec fn view(&self) -> RouteView<H> {
        RouteView { method: self.method, path: self.path@, handler: self.handler }
    }
}

/// Whether a route is bound to exactly the key `(m, p)`.
pub open spec fn key_matches<H>(r: RouteView<H>, m: Method, p: Seq<u8>) -> bool {
    r.method == m && r.path == p
}

/// Whether some route in the table is bound to the key `(m, p)`.
pub open spec fn has_key<H>(rs: Seq<RouteView<H>>, m: Method, p: Seq<u8>) -> bool {
    exists|k: int| 0 <= k < rs.len() && key_matches(#[trigger] rs[k], m, p)
}

/// The position of the first route bound to `(m, p)`; meaningful only
/// when `has_key` holds.
pub open spec fn first_key_index<H>(rs: Seq<RouteView<H>>, m: Method, p: Seq<u8>) -> int
    decreases rs.len(),
{
    if rs.len() == 0 {
        0
    } else if key_matches(rs[0], m, p) {
        0
    } else {
        1 + first_key_index(rs.drop_first(), m, p)
    }
}

/// The first route bound to exactly `(m, p)`, if any.
pub open spec fn find_route<H>(rs: Seq<RouteView<H>>, m: Method, p: Seq<u8>) -> Option<
    RouteView<H>,
>
    decreases rs.len(),
{
    if rs.len() == 0 {
        None
    } else if key_matches(rs[0], m, p) {
        Some(rs[0])
    } else {
        find_route(rs.drop_first(), m, p)
    }
}

/// What registering a binding does to the table: replace the first route
/// already bound to the identical key, so that the last registration wins,
/// or append a new route when the key is fresh.
pub open spec fn register_spec<H>(rs: Seq<RouteView<H>>, m: Method, p: Seq<u8>, h: H) -> Seq<
    RouteView<H>,
> {
    let r = RouteView { method: m, path: p, handler: h };
    if has_key(rs, m, p) {
        rs.update(first_key_index(rs, m, p), r)
    } else {
        rs.push(r)
    }
}

/// How `find_route` relates to the table entries: a lookup hits the first
/// route bound to exactly the requested key, and misses only when no route
/// is bound to it.
pub proof fn lemma_find_route_spec<H>(rs: Seq<RouteView<H>>, m: Method, p: Seq<u8>)
    ensures
        has_key(rs, m, p) ==> {
            let j = first_key_index(rs, m, p);
            &&& 0 <= j < rs.len()
            &&& key_matches(rs[j], m, p)
            &&& forall|k: int| 0 <= k < j ==> !key_matches(#[trigger] rs[k], m, p)
            &&& find_route(rs, m, p) == Some(rs[j])
        },
        !has_key(rs, m, p) ==> find_route(rs, m, p) is None,
    decreases rs.len(),
{
    if rs.len() > 0 && !key_matches(rs[0], m, p) {
        let tail = rs.drop_first();
        lemma_find_route_spec(tail, m, p);
        assert(forall|k: int| 0 <= k < tail.len() ==> #[trigger] tail[k] == rs[k + 1]);
        if has_key(rs, m, p) {
            let k0 = choose|k: int| 0 <= k < rs.len() && key_matches(#[trigger] rs[k], m, p);
            assert(key_matches(tail[k0 - 1], m, p));
            assert(has_key(tail, m, p));
            let jt = first_key_index(tail, m, p);
            let j = first_key_index(rs, m, p);
            assert(j == 1 + jt);
            assert(rs[j] == tail[jt]);
            assert forall|k: int| 0 <= k < j implies !key_matches(#[trigger] rs[k], m, p) by {
                if k >= 1 {
                    assert(rs[k] == tail[k - 1]);
                    assert(!key_matches(tail[k - 1], m, p));
                }
            }
            assert(find_route(rs, m, p) == find_route(tail, m, p));
        } else {
            assert forall|k: int| 0 <= k < tail.len() implies !key_matches(
                #[trigger] tail[k],
                m,
                p,
            ) by {
                assert(tail[k] == rs[k + 1]);
            }
            assert(!has_key(tail, m, p));
        }
    }
}

/// A position that holds a key match preceded by none is the position that
/// `first_key_index` names.
pub proof fn lemma_first_match_unique<H>(rs: Seq<RouteView<H>>, m: Method, p: Seq<u8>, j: int)
    requires
        0 <= j < rs.len(),
        key_matches(rs[j], m, p),
        forall|k: int| 0 <= k < j ==> !key_matches(#[trigger] rs[k], m, p),
    ensures
        has_key(rs, m, p),
        first_key_index(rs, m, p) == j,
        find_route(rs, m, p) == Some(rs[j]),
{
    assert(has_key(rs, m, p));
    lemma_find_route_spec(rs, m, p);
    let j0 = first_key_index(rs, m, p);
    if j0 < j {
        assert(!key_matches(rs[j0], m, p));
    }
    if j < j0 {
        assert(!key_matches(rs[j], m, p));
    }
}

/// Exact-match only: a lookup returns a route only when that route's key is
/// the requested `(m, p)` exactly, and returns no match whenever no route
/// carries that exact key — in particular for every path that differs from
/// each registered one, be it by a prefix, a suffix or a trailing slash.
pub proof fn lemma_exact_match_only<H>(rs: Seq<RouteView<H>>, m: Method, p: Seq<u8>)
    ensures
        find_route(rs, m, p) matches Some(r) ==> r.method == m && r.path == p,
        (forall|k: int| 0 <= k < rs.len() ==> !key_matches(#[trigger] rs[k], m, p)) ==> find_route(
            rs,
            m,
            p,
        ) is None,
{
    lemma_find_route_spec(rs, m, p);
}

/// Last write wins: after registering a handler for a key, looking that key
/// up returns the route just registered, whatever the table held before —
/// in particular after an earlier registration for the identical key.
pub proof fn lemma_last_write_wins<H>(rs: Seq<RouteView<H>>, m: Method, p: Seq<u8>, h: H)
    ensures
        find_route(register_spec(rs, m, p, h), m, p) == Some(
            RouteView { method: m, path: p, handler: h },
        ),
{
    let r = RouteView { method: m, path: p, handler: h };
    let rs2 = register_spec(rs, m, p, h);
    lemma_find_route_spec(rs, m, p);
    if has_key(rs, m, p) {
        let j = first_key_index(rs, m, p);
        assert(rs2 == rs.update(j, r));
        assert(rs2[j] == r);
        assert forall|k: int| 0 <= k < j implies !key_matches(#[trigger] rs2[k], m, p) by {
            assert(rs2[k] == rs[k]);
        }
        lemma_first_match_unique(rs2, m, p, j);
    } else {
        let j = rs.len() as int;
        assert(rs2 == rs.push(r));
        assert(rs2[j] == r);
        assert forall|k: int| 0 <= k < j implies !key_matches(#[trigger] rs2[k], m, p) by {
            assert(rs2[k] == rs[k]);
        }
        lemma_first_match_unique(rs2, m, p, j);
    }
}

/// Registering one key leaves lookups of every other key unchanged.
pub proof fn lemma_register_preserves_other<H>(
    rs: Seq<RouteView<H>>,
    m: Method,
    p: Seq<u8>,
    h: H,
    m2: Method,
    p2: Seq<u8>,
)
    requires
        !(m2 == m && p2 == p),
    ensures
        find_route(register_spec(rs, m, p, h), m2, p2) == find_route(rs, m2, p2),
{
    let r = RouteView { method: m, path: p, handler: h };
    let rs2 = register_spec(rs, m, p, h);
    lemma_find_route_spec(rs, m, p);
    lemma_find_route_spec(rs, m2, p2);
    assert(!key_matches(r, m2, p2));
    if has_key(rs, m2, p2) {
        let j2 = first_key_index(rs, m2, p2);
        assert(rs2[j2] == rs[j2]) by {
            if has_key(rs, m, p) {
                assert(!key_matches(rs[first_key_index(rs, m, p)], m2, p2));
            }
        }
        assert forall|k: int| 0 <= k < j2 implies !key_matches(#[trigger] rs2[k], m2, p2) by {
            if rs2[k] != rs[k] {
                assert(rs2[k] == r);
            }
        }
        lemma_first_match_unique(rs2, m2, p2, j2);
    } else {
        assert forall|k: int| 0 <= k < rs2.len() implies !key_matches(
            #[trigger] rs2[k],
            m2,
            p2,
        ) by {
            if rs2[k] != r {
                assert(rs2[k] == rs[k]);
            }
        }
        assert(!has_key(rs2, m2, p2));
        lemma_find_route_spec(rs2, m2, p2);
    }
}

/// Method discrimination: registering handlers for the same path under two
/// distinct methods, each lookup resolves to the handler registered for
/// its own method.
pub proof fn lemma_method_discrimination<H>(
    rs: Seq<RouteView<H>>,
    m1: Method,
    m2: Method,
    p: Seq<u8>,
    h1: H,
    h2: H,
)
    requires
        m1 != m2,
    ensures
        ({
            let rs2 = register_spec(register_spec(rs, m1, p, h1), m2, p, h2);
            &&& find_route(rs2, m1, p) == Some(RouteView { method: m1, path: p, handler: h1 })
            &&& find_route(rs2, m2, p) == Some(RouteView { method: m2, path: p, handler: h2 })
        }),
{
    let rs1 = register_spec(rs, m1, p, h1);
    lemma_last_write_wins(rs, m1, p, h1);
    lemma_register_preserves_other(rs1, m2, p, h2, m1, p);
    lemma_last_write_wins(rs1, m2, p, h2);
}

/// An ordered table of routes. Owned by the dispatcher; filled during
/// startup registration, read-only while serving.
pub struct Router<H> {
    pub routes: Vec<Route<H>>,
}

impl<H> View for Router<H> {
    type V = Seq<RouteView<H>>;

    open spec fn view(&self) -> Seq<RouteView<H>> {
        self.routes@.map_values(|r: Route<H>| r@)
    }
}

impl<H> Router<H> {
    /// Every route in the table is bound to a non-empty path.
    pub open spec fn wf(&self) -> bool {
        forall|i: int| 0 <= i < self@.len() ==> (#[trigger] self@[i]).path.len() > 0
    }

    /// An empty route table.
    pub fn new() -> (r: Router<H>)
        ensures
            r@ == Seq::<RouteView<H>>::empty(),
            r.wf(),
    {
        let r = Router { routes: Vec::new() };
        proof {
            assert(r@ =~= Seq::<RouteView<H>>::empty());
        }
        r
    }

    /// Register a handler for `(method, path)`. If a route for the
    /// identical key exists, the new handler replaces it in place — the
    /// last registration wins; otherwise the route is appended.
    pub fn add_route(&mut self, method: Method, path: Vec<u8>, handler: H)
        requires
            old(self).wf(),
            path@.len() > 0,
        ensures
            final(self)@ == register_spec(old(self)@, method, path@, handler),
            final(self).wf(),
    {
        let ghost rs = self@;
        let ghost pv = path@;
        let mut i: usize = 0;
        while i < self.routes.len()
            invariant
                self == old(self),
                rs == self@,
                self.wf(),
                pv == path@,
                i <= self.routes.len(),
                rs.len() == self.routes@.len(),
                forall|k: int| 0 <= k < i ==> !key_matches(#[trigger] rs[k], method, pv),
            decreases self.routes.len() - i,
        {
            let candidate = &self.routes[i];
            proof {
                assert(rs[i as int] == self.routes@[i as int]@);
            }
            if candidate.method == method && bytes_eq(candidate.path.as_slice(), path.as_slice()) {
                proof {
                    lemma_first_match_unique(rs, method, pv, i as int);
                }
                self.routes[i] = Route { method, path, handler };
                proof {
                    assert(self@ =~= register_spec(rs, method, pv, handler));
                    assert forall|k: int| 0 <= k < self@.len() implies
                        (#[trigger] self@[k]).path.len() > 0 by {
                        if k != i as int {
                            assert(self@[k] == rs[k]);
                        }
                    }
                }
                return ;
            }
            i += 1;
        }
        proof {
            assert(!has_key(rs, method, pv));
        }
        self.routes.push(Route { method, path, handler });
        proof {
            assert(self@ =~= register_spec(rs, method, pv, handler));
        }
    }

    /// Register a handler for a `GET` path.
    pub fn get(&mut self, path: Vec<u8>, handler: H)
        requires
            old(self).wf(),
            path@.len() > 0,
        ensures
            final(self)@ == register_spec(old(self)@, Method::GET, path@, handler),
            final(self).wf(),
    {
        self.add_route(Method::GET, path, handler);
    }

    /// Register a handler for a `POST` path.
    pub fn post(&mut self, path: Vec<u8>, handler: H)
        requires
            old(self).wf(),
            path@.len() > 0,
        ensures
            final(self)@ == register_spec(old(self)@, Method::POST, path@, handler),
            final(self).wf(),
    {
        self.add_route(Method::POST, path, handler);
    }

    /// Look up the route bound to exactly `(method, path)`. Matching is
    /// exact equality on both components: no prefix, wildcard or
    /// trailing-slash tolerance. The table is not touched.
    pub fn find(&self, method: Method, path: &[u8]) -> (r: Option<&Route<H>>)
        ensures
            match r {
                Some(route) => find_route(self@, method, path@) == Some(route@),
                None => find_route(self@, method, path@) is None,
            },
    {
        let ghost rs = self@;
        let mut i: usize = 0;
        while i < self.routes.len()
            invariant
                rs == self@,
                i <= self.routes.len(),
                rs.len() == self.routes@.len(),
                forall|k: int| 0 <= k < i ==> !key_matches(#[trigger] rs[k], method, path@),
            decreases self.routes.len() - i,
        {
            let candidate = &self.routes[i];
            proof {
                assert(rs[i as int] == self.routes@[i as int]@);
            }
            if candidate.method == method && bytes_eq(candidate.path.as_slice(), path) {
                proof {
                    lemma_first_match_unique(rs, method, path@, i as int);
                }
                return Some(&self.routes[i]);
            }
            i += 1;
        }
        proof {
            assert(!has_key(rs, method, path@));
            lemma_find_route_spec(rs, method, path@);
        }
        None
    }
}

/// Whether two byte strings hold the same bytes.
pub fn bytes_eq(a: &[u8], b: &[u8]) -> (r: bool)
    ensures
        r <==> a@ == b@,
{
    if a.len() != b.len() {
        return false;
    }
    let mut i: usize = 0;
    while i < a.len()
        invariant
            i <= a.len(),
            a@.len() == b@.len(),
            forall|k: int| 0 <= k < i ==> a@[k] == b@[k],
        decreases a.len() - i,
    {
        if a[i] != b[i] {
            return false;
        }
        i += 1;
    }
    proof {
        assert(a@ =~= b@);
    }
    true
}

} // verus!
