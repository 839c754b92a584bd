//! The registry: registration entries, filed by scope.

use crate::route::{clone_routes, RouteInfo, RouteView};
use vstd::prelude::*;

verus! {

/// One scope of the registry with the entries filed under it, oldest first.
#[derive(Debug, PartialEq, Eq)]
pub struct Bucket {
    pub scope: String,
    pub routes: Vec<RouteInfo>,
}

/// What a bucket holds, as mathematical values.
pub struct BucketView {
    pub scope: Seq<char>,
    pub routes: Seq<RouteView>,
}

impl View for Bucket {
    type V = BucketView;

    open spec fn view(&self) -> BucketView {
        BucketView { scope: self.scope@, routes: self.routes.deep_view() }
    }
}

impl DeepView for Bucket {
    type V = BucketView;

    open spec fn deep_view(&self) -> BucketView {
        self@
    }
}

/// Whether entries are filed under `scope`. Scopes are compared exactly.
pub open spec fn has_scope(buckets: Seq<BucketView>, scope: Seq<char>) -> bool {
    exists|i: int| 0 <= i < buckets.len() && (#[trigger] buckets[i]).scope == scope
}

/// The place of the bucket for `scope`, where there is one.
pub open spec fn scope_index(buckets: Seq<BucketView>, scope: Seq<char>) -> int {
    choose|i: int| 0 <= i < buckets.len() && (#[trigger] buckets[i]).scope == scope
}

/// The entries filed under `scope`, oldest first; none where the scope is
/// unknown.
pub open spec fn routes_for(buckets: Seq<BucketView>, scope: Seq<char>) -> Seq<RouteView> {
    if has_scope(buckets, scope) {
        buckets[scope_index(buckets, scope)].routes
    } else {
        Seq::empty()
    }
}

/// The registry as a mapping: each scope in use, with the entries filed under
/// it.
pub open spec fn as_map(buckets: Seq<BucketView>) -> Map<Seq<char>, Seq<RouteView>> {
    Map::new(
        |scope: Seq<char>| has_scope(buckets, scope),
        |scope: Seq<char>| routes_for(buckets, scope),
    )
}

/// The shape of a registry: no scope has two buckets, and no bucket is empty.
pub open spec fn well_formed(buckets: Seq<BucketView>) -> bool {
    &&& forall|i: int, j: int|
        0 <= i < j < buckets.len() ==> (#[trigger] buckets[i]).scope
            != (#[trigger] buckets[j]).scope
    &&& forall|i: int| 0 <= i < buckets.len() ==> (#[trigger] buckets[i]).routes.len() > 0
}

/// The registry after `route` was filed under `scope`: the entry goes to the
/// end of the scope's bucket, and a scope that was unknown gets a new bucket
/// behind all others. Nothing else changes.
pub open spec fn filed(buckets: Seq<BucketView>, scope: Seq<char>, route: RouteView) -> Seq<
    BucketView,
> {
    if has_scope(buckets, scope) {
        let i = scope_index(buckets, scope);
        buckets.update(i, BucketView { scope, routes: buckets[i].routes.push(route) })
    } else {
        buckets.push(BucketView { scope, routes: seq![route] })
    }
}

/// The registry after each of `routes` was filed under its own scope, one
/// after the other.
pub open spec fn filed_all(buckets: Seq<BucketView>, routes: Seq<RouteView>) -> Seq<BucketView>
    decreases routes.len(),
{
    if routes.len() == 0 {
        buckets
    } else {
        let last = routes.last();
        filed(filed_all(buckets, routes.drop_last()), last.scope, last)
    }
}

/// The number of entries in all buckets together.
pub open spec fn total_routes(buckets: Seq<BucketView>) -> nat
    decreases buckets.len(),
{
    if buckets.len() == 0 {
        0
    } else {
        total_routes(buckets.drop_last()) + buckets.last().routes.len()
    }
}

/// In a well-formed registry the bucket of a scope is the only one with that
/// scope.
pub proof fn lemma_scope_index_unique(buckets: Seq<BucketView>, i: int)
    requires
        well_formed(buckets),
        0 <= i < buckets.len(),
    ensures
        has_scope(buckets, buckets[i].scope),
        scope_index(buckets, buckets[i].scope) == i,
        routes_for(buckets, buckets[i].scope) == buckets[i].routes,
{
    let j = scope_index(buckets, buckets[i].scope);
    assert(buckets[j].scope == buckets[i].scope);
}

/// Filing keeps a registry well formed.
pub proof fn lemma_filed_well_formed(buckets: Seq<BucketView>, scope: Seq<char>, route: RouteView)
    requires
        well_formed(buckets),
    ensures
        well_formed(filed(buckets, scope, route)),
{
    let after = filed(buckets, scope, route);
    assert forall|a: int, b: int| 0 <= a < b < after.len() implies (#[trigger] after[a]).scope
        != (#[trigger] after[b]).scope by {
        if b < buckets.len() {
            assert(after[a].scope == buckets[a].scope && after[b].scope == buckets[b].scope);
        } else {
            assert(after[a] == buckets[a]);
        }
    }
}

/// Filing under a scope adds the entry at the end of what is filed there and
/// leaves what is filed under every other scope as it was.
pub proof fn lemma_filed_routes_for(
    buckets: Seq<BucketView>,
    scope: Seq<char>,
    route: RouteView,
    other: Seq<char>,
)
    requires
        well_formed(buckets),
    ensures
        routes_for(filed(buckets, scope, route), scope) == routes_for(buckets, scope).push(route),
        other != scope ==> routes_for(filed(buckets, scope, route), other) == routes_for(
            buckets,
            other,
        ),
{
    let after = filed(buckets, scope, route);
    lemma_filed_well_formed(buckets, scope, route);
    let at = if has_scope(buckets, scope) {
        scope_index(buckets, scope)
    } else {
        buckets.len() as int
    };
    lemma_scope_index_unique(after, at);
    if other != scope {
        if has_scope(buckets, other) {
            lemma_scope_index_unique(after, scope_index(buckets, other));
        } else if has_scope(after, other) {
            assert(buckets[scope_index(after, other)].scope == other);
        }
    }
}

/// The place of the bucket for `scope` among `buckets`.
fn position(buckets: &Vec<Bucket>, scope: &String) -> (found: Option<usize>)
    requires
        well_formed(buckets.deep_view()),
    ensures
        found is Some <==> has_scope(buckets.deep_view(), scope@),
        found matches Some(i) ==> i == scope_index(buckets.deep_view(), scope@) && i
            < buckets.len(),
{
    let ghost all = buckets.deep_view();
    let mut i: usize = 0;
    while i < buckets.len()
        invariant
            i <= buckets.len(),
            all == buckets.deep_view(),
            well_formed(all),
            forall|j: int| 0 <= j < i ==> (#[trigger] all[j]).scope != scope@,
        decreases buckets.len() - i,
    {
        if buckets[i].scope == *scope {
            proof {
                assert(all[i as int].scope == scope@);
                lemma_scope_index_unique(all, i as int);
            }
            return Some(i);
        }
        i += 1;
    }
    None
}

/// The store of registration entries: for each scope the entries filed under
/// it, in the order in which they were filed. Scopes are kept in the order in
/// which they were first used. Entries are only ever added: none is changed
/// and none is removed.
///
/// Filing takes the registry exclusively and reading shares it, so behind a
/// readers-writer lock no snapshot sees a registration half done.
pub struct Registry {
    buckets: Vec<Bucket>,
}

impl View for Registry {
    type V = Seq<BucketView>;

    closed spec fn view(&self) -> Seq<BucketView> {
        self.buckets.deep_view()
    }
}

impl Registry {
    /// Every registry is well formed, at every point at which it can be
    /// seen: see [`well_formed`].
    #[verifier::type_invariant]
    pub open spec fn wf(self) -> bool {
        well_formed(self@)
    }

    /// An empty registry.
    pub fn new() -> (registry: Registry)
        ensures
            registry@ == Seq::<BucketView>::empty(),
    {
        let registry = Registry { buckets: Vec::new() };
        assert(registry@ =~= Seq::<BucketView>::empty());
        registry
    }

    /// Files `entry` under `scope`, behind the entries that are already
    /// there. Every entry is kept: one that equals an earlier one is filed
    /// again.
    pub fn insert(&mut self, scope: String, entry: RouteInfo)
        ensures
            final(self)@ == filed(old(self)@, scope@, entry@),
            well_formed(final(self)@),
    {
        proof {
            use_type_invariant(&*self);
            lemma_filed_well_formed(self@, scope@, entry@);
        }
        // The buckets are taken out while they are changed and put back when
        // they are well formed again.
        let mut buckets: Vec<Bucket> = Vec::new();
        core::mem::swap(&mut self.buckets, &mut buckets);
        match position(&buckets, &scope) {
            Some(i) => {
                buckets[i].routes.push(entry);
                assert(buckets.deep_view() =~= filed(old(self)@, scope@, entry@)) by {
                    let before = old(self)@[i as int].routes;
                    assert(buckets.deep_view()[i as int].routes =~= before.push(entry@));
                }
            },
            None => {
                let mut routes: Vec<RouteInfo> = Vec::new();
                routes.push(entry);
                let bucket = Bucket { scope, routes };
                assert(bucket@.routes =~= seq![entry@]);
                buckets.push(bucket);
                assert(buckets.deep_view() =~= filed(old(self)@, scope@, entry@));
            },
        }
        core::mem::swap(&mut self.buckets, &mut buckets);
    }

    /// A copy of the entries filed under `scope`, oldest first; empty where
    /// nothing was filed under it.
    pub fn snapshot_for(&self, scope: &str) -> (routes: Vec<RouteInfo>)
        ensures
            routes.deep_view() == routes_for(self@, scope@),
    {
        proof {
            use_type_invariant(self);
        }
        let scope = scope.to_owned();
        match position(&self.buckets, &scope) {
            Some(i) => clone_routes(&self.buckets[i].routes),
            None => {
                let routes: Vec<RouteInfo> = Vec::new();
                assert(routes.deep_view() =~= Seq::<RouteView>::empty());
                routes
            },
        }
    }

    /// The buckets of the registry, scopes in the order of their first use.
    pub fn into_buckets(self) -> (buckets: Vec<Bucket>)
        ensures
            buckets.deep_view() == self@,
            well_formed(buckets.deep_view()),
    {
        proof {
            use_type_invariant(&self);
        }
        self.buckets
    }

    /// A copy of the whole registry: every scope with its entries, scopes in
    /// the order of their first use.
    pub fn snapshot_all(&self) -> (buckets: Vec<Bucket>)
        ensures
            buckets.deep_view() == self@,
            well_formed(buckets.deep_view()),
    {
        proof {
            use_type_invariant(self);
        }
        let mut buckets: Vec<Bucket> = Vec::new();
        let mut i: usize = 0;
        while i < self.buckets.len()
            invariant
                i <= self.buckets.len(),
                buckets.len() == i,
                forall|j: int| 0 <= j < i ==> buckets[j]@ == self.buckets[j]@,
            decreases self.buckets.len() - i,
        {
            let bucket = &self.buckets[i];
            buckets.push(
                Bucket { scope: bucket.scope.clone(), routes: clone_routes(&bucket.routes) },
            );
            i += 1;
        }
        assert(buckets.deep_view() =~= self@);
        buckets
    }
}

} // verus!
