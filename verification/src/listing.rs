//! The route listing synthesizer: from the whole registry to the routine
//! that lists every route.

use crate::registry::{total_routes, Bucket, BucketView, Registry};
use crate::route::RouteView;
use vstd::prelude::*;

verus! {

/// The line that the listing routine writes above its table.
pub const LISTING_BANNER: &'static str = "List of the automatically registered routes:";

/// The titles of the table's four columns, in their order.
pub const COLUMN_TITLES: [&'static str; 4] = ["Scope", "Path", "Handler", "Verb"];

/// One row of the route table.
#[derive(Clone, Debug, PartialEq, Eq, Hash)]
pub struct RouteRow {
    pub scope: String,
    pub path: String,
    pub handler: String,
    pub verb: String,
}

/// A row as mathematical values.
pub struct RouteRowView {
    pub scope: Seq<char>,
    pub path: Seq<char>,
    pub handler: Seq<char>,
    pub verb: Seq<char>,
}

impl View for RouteRow {
    type V = RouteRowView;

    open spec fn view(&self) -> RouteRowView {
        RouteRowView {
            scope: self.scope@,
            path: self.path@,
            handler: self.handler@,
            verb: self.verb@,
        }
    }
}

impl DeepView for RouteRow {
    type V = RouteRowView;

    open spec fn deep_view(&self) -> RouteRowView {
        self@
    }
}

/// The listing routine: the rows of its table, in the order in which it
/// writes them. It holds all that it lists and reads no registry when it
/// runs.
#[derive(Clone, Debug, PartialEq, Eq)]
pub struct ListingRoutine {
    pub rows: Vec<RouteRow>,
}

impl View for ListingRoutine {
    type V = Seq<RouteRowView>;

    open spec fn view(&self) -> Seq<RouteRowView> {
        self.rows.deep_view()
    }
}

/// The row for an entry filed under `scope`: the scope it is filed under,
/// its path, its handler and the name of its method.
pub open spec fn row_of(scope: Seq<char>, route: RouteView) -> RouteRowView {
    RouteRowView {
        scope,
        path: route.path,
        handler: route.handler_name,
        verb: route.verb.label(),
    }
}

/// The rows for the entries of one bucket, in their order.
pub open spec fn bucket_rows(bucket: BucketView) -> Seq<RouteRowView> {
    bucket.routes.map_values(|route: RouteView| row_of(bucket.scope, route))
}

/// The rows for a whole registry: bucket after bucket, one row for every
/// entry.
pub open spec fn listing_rows(buckets: Seq<BucketView>) -> Seq<RouteRowView>
    decreases buckets.len(),
{
    if buckets.len() == 0 {
        Seq::empty()
    } else {
        listing_rows(buckets.drop_last()) + bucket_rows(buckets.last())
    }
}

/// The table has as many rows as the registry has entries.
pub proof fn lemma_row_count(buckets: Seq<BucketView>)
    ensures
        listing_rows(buckets).len() == total_routes(buckets),
    decreases buckets.len(),
{
    if buckets.len() > 0 {
        lemma_row_count(buckets.drop_last());
    }
}

/// The rows for the entries of one bucket.
fn rows_of(bucket: &Bucket) -> (rows: Vec<RouteRow>)
    ensures
        rows.deep_view() == bucket_rows(bucket@),
{
    let mut rows: Vec<RouteRow> = Vec::new();
    let mut i: usize = 0;
    while i < bucket.routes.len()
        invariant
            i <= bucket.routes.len(),
            rows.len() == i,
            forall|j: int| 0 <= j < i ==> rows[j]@ == row_of(bucket.scope@, bucket.routes[j]@),
        decreases bucket.routes.len() - i,
    {
        let route = &bucket.routes[i];
        rows.push(
            RouteRow {
                scope: bucket.scope.clone(),
                path: route.path.clone(),
                handler: route.handler_name.clone(),
                verb: route.verb.as_str().to_owned(),
            },
        );
        i += 1;
    }
    assert(rows.deep_view() =~= bucket_rows(bucket@));
    rows
}

/// Synthesizes the listing routine for all that is in the registry.
///
/// The registry is read once. The table gets one row for every entry, scope
/// after scope in the order of the scopes' first use, and within a scope in
/// the order in which the entries were filed. No entry is left out and none
/// is merged with another: the number of rows is the number of entries.
pub fn generate_list_routes(registry: &Registry) -> (routine: ListingRoutine)
    ensures
        routine@ == listing_rows(registry@),
        routine@.len() == total_routes(registry@),
{
    let buckets = registry.snapshot_all();
    let ghost all = buckets.deep_view();
    let mut rows: Vec<RouteRow> = Vec::new();
    let mut i: usize = 0;
    while i < buckets.len()
        invariant
            i <= buckets.len(),
            all == buckets.deep_view(),
            rows.deep_view() == listing_rows(all.take(i as int)),
        decreases buckets.len() - i,
    {
        let mut more = rows_of(&buckets[i]);
        proof {
            assert(all.take(i + 1).drop_last() =~= all.take(i as int));
            assert(all.take(i + 1).last() == buckets[i as int]@);
        }
        let ghost before = rows.deep_view();
        let ghost added = more.deep_view();
        rows.append(&mut more);
        assert(rows.deep_view() =~= before + added);
        i += 1;
    }
    proof {
        assert(all.take(buckets.len() as int) =~= all);
        lemma_row_count(registry@);
    }
    ListingRoutine { rows }
}

} // verus!
