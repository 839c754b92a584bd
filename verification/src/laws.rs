//! What holds of the registry and of the two synthesizers over any sequence
//! of registrations.

use crate::declaration::{extracted, DeclarationView};
use crate::listing::{bucket_rows, listing_rows, row_of, RouteRowView};
use crate::registry::{
    as_map, filed, filed_all, has_scope, lemma_filed_routes_for, lemma_filed_well_formed,
    routes_for, scope_index, total_routes, well_formed, BucketView,
};
use crate::route::RouteView;
use crate::service::{block_of, grouped, handler_names, registration_blocks, ScopeBlockView};
use vstd::prelude::*;
use vstd::seq_lib::*;

verus! {

/// The entries of one bucket, each with the scope that it is filed under.
pub open spec fn bucket_entries(bucket: BucketView) -> Seq<(Seq<char>, RouteView)> {
    bucket.routes.map_values(|route: RouteView| (bucket.scope, route))
}

/// All entries of a registry, each with the scope that it is filed under:
/// bucket after bucket, and within a bucket oldest first.
pub open spec fn filed_entries(buckets: Seq<BucketView>) -> Seq<(Seq<char>, RouteView)>
    decreases buckets.len(),
{
    if buckets.len() == 0 {
        Seq::empty()
    } else {
        filed_entries(buckets.drop_last()) + bucket_entries(buckets.last())
    }
}

/// Where a new entry for `scope` comes to stand among all entries: behind
/// the last entry of its bucket, or behind all entries where the scope is
/// new.
pub open spec fn insertion_point(buckets: Seq<BucketView>, scope: Seq<char>) -> int {
    if has_scope(buckets, scope) {
        filed_entries(buckets.take(scope_index(buckets, scope) + 1)).len() as int
    } else {
        filed_entries(buckets).len() as int
    }
}

/// The handlers of all blocks of a registration routine, in the order in
/// which the routine registers them.
pub open spec fn all_handlers(blocks: Seq<ScopeBlockView>) -> Seq<Seq<char>>
    decreases blocks.len(),
{
    if blocks.len() == 0 {
        Seq::empty()
    } else {
        all_handlers(blocks.drop_last()) + blocks.last().handlers
    }
}

/// The entries that a list of valid declarations of one scope asks for, in
/// the order of the declarations.
pub open spec fn derived_routes(scope: Seq<char>, declarations: Seq<DeclarationView>) -> Seq<
    RouteView,
> {
    declarations.map_values(
        |declaration: DeclarationView| extracted(Some(scope), declaration)->Ok_0,
    )
}

/// The entries of two registries put one behind the other.
proof fn lemma_entries_concat(front: Seq<BucketView>, back: Seq<BucketView>)
    ensures
        filed_entries(front + back) == filed_entries(front) + filed_entries(back),
    decreases back.len(),
{
    if back.len() == 0 {
        assert(front + back =~= front);
        assert(filed_entries(front) + filed_entries(back) =~= filed_entries(front));
    } else {
        lemma_entries_concat(front, back.drop_last());
        assert((front + back).drop_last() =~= front + back.drop_last());
        assert((front + back).last() == back.last());
        assert(filed_entries(front + back) =~= filed_entries(front) + filed_entries(back));
    }
}

/// The entries of a registry with a single bucket.
proof fn lemma_entries_of_one(bucket: BucketView)
    ensures
        filed_entries(seq![bucket]) == bucket_entries(bucket),
{
    reveal_with_fuel(filed_entries, 2);
    assert(seq![bucket].drop_last() =~= Seq::<BucketView>::empty());
    assert(filed_entries(seq![bucket]) =~= bucket_entries(bucket));
}

/// A registry holds as many entries as its buckets hold together.
pub proof fn lemma_entry_count(buckets: Seq<BucketView>)
    ensures
        filed_entries(buckets).len() == total_routes(buckets),
    decreases buckets.len(),
{
    if buckets.len() > 0 {
        lemma_entry_count(buckets.drop_last());
    }
}

/// Filing puts exactly one entry among those that are there: all others
/// stay, in their order.
pub proof fn lemma_filed_entries(buckets: Seq<BucketView>, scope: Seq<char>, route: RouteView)
    ensures
        0 <= insertion_point(buckets, scope) <= filed_entries(buckets).len(),
        filed_entries(filed(buckets, scope, route)) == filed_entries(buckets).insert(
            insertion_point(buckets, scope),
            (scope, route),
        ),
        total_routes(filed(buckets, scope, route)) == total_routes(buckets) + 1,
{
    let after = filed(buckets, scope, route);
    let at = insertion_point(buckets, scope);
    if has_scope(buckets, scope) {
        let i = scope_index(buckets, scope);
        let front = buckets.take(i);
        let back = buckets.skip(i + 1);
        let old_bucket = buckets[i];
        let new_bucket = BucketView { scope, routes: old_bucket.routes.push(route) };
        assert(buckets =~= front + seq![old_bucket] + back);
        assert(after =~= front + seq![new_bucket] + back);
        assert(buckets.take(i + 1) =~= front + seq![old_bucket]);
        lemma_entries_concat(front, seq![old_bucket]);
        lemma_entries_concat(front + seq![old_bucket], back);
        lemma_entries_concat(front, seq![new_bucket]);
        lemma_entries_concat(front + seq![new_bucket], back);
        lemma_entries_of_one(old_bucket);
        lemma_entries_of_one(new_bucket);
        assert(bucket_entries(new_bucket) =~= bucket_entries(old_bucket).push((scope, route)));
        assert(filed_entries(after) =~= filed_entries(buckets).insert(at, (scope, route)));
    } else {
        let new_bucket = BucketView { scope, routes: seq![route] };
        assert(after.drop_last() =~= buckets);
        assert(bucket_entries(new_bucket) =~= seq![(scope, route)]);
        assert(filed_entries(after) =~= filed_entries(buckets).insert(at, (scope, route)));
    }
    lemma_entry_count(buckets);
    lemma_entry_count(after);
}

/// The rows of the table are the entries of the registry, one row each.
pub proof fn lemma_rows_are_entries(buckets: Seq<BucketView>)
    ensures
        listing_rows(buckets) == filed_entries(buckets).map_values(
            |entry: (Seq<char>, RouteView)| row_of(entry.0, entry.1),
        ),
    decreases buckets.len(),
{
    let as_row = |entry: (Seq<char>, RouteView)| row_of(entry.0, entry.1);
    if buckets.len() == 0 {
        assert(listing_rows(buckets) =~= filed_entries(buckets).map_values(as_row));
    } else {
        lemma_rows_are_entries(buckets.drop_last());
        assert(bucket_rows(buckets.last()) =~= bucket_entries(buckets.last()).map_values(as_row));
        assert(listing_rows(buckets) =~= filed_entries(buckets).map_values(as_row));
    }
}

/// The handlers that a routine registers are the handlers of the grouped
/// entries, one registration each, whatever the prefix of the blocks.
proof fn lemma_handlers_are_entries(groups: Seq<BucketView>, use_scope: bool)
    ensures
        all_handlers(groups.map_values(|group: BucketView| block_of(group, use_scope)))
            == filed_entries(groups).map_values(
            |entry: (Seq<char>, RouteView)| entry.1.handler_name,
        ),
    decreases groups.len(),
{
    let as_block = |group: BucketView| block_of(group, use_scope);
    let as_name = |entry: (Seq<char>, RouteView)| entry.1.handler_name;
    let blocks = groups.map_values(as_block);
    if groups.len() == 0 {
        assert(all_handlers(blocks) =~= filed_entries(groups).map_values(as_name));
    } else {
        lemma_handlers_are_entries(groups.drop_last(), use_scope);
        assert(blocks.drop_last() =~= groups.drop_last().map_values(as_block));
        assert(blocks.last().handlers =~= bucket_entries(groups.last()).map_values(as_name));
        assert(all_handlers(blocks) =~= filed_entries(groups).map_values(as_name));
    }
}

/// Whatever is read off the entries of a registry that was filled from
/// `routes`, each under its own scope, is read as often as off `routes`
/// themselves: filing drops nothing, repeats nothing and merges nothing.
proof fn lemma_filed_all_keeps_entries<T>(
    routes: Seq<RouteView>,
    read: spec_fn((Seq<char>, RouteView)) -> T,
)
    ensures
        filed_entries(grouped(routes)).map_values(read).to_multiset() == routes.map_values(
            |route: RouteView| read((route.scope, route)),
        ).to_multiset(),
        total_routes(grouped(routes)) == routes.len(),
    decreases routes.len(),
{
    broadcast use group_to_multiset_ensures;

    let read_route = |route: RouteView| read((route.scope, route));
    if routes.len() == 0 {
        assert(filed_entries(grouped(routes)).map_values(read) =~= routes.map_values(read_route));
    } else {
        let earlier = routes.drop_last();
        let last = routes.last();
        let before = grouped(earlier);
        lemma_filed_all_keeps_entries(earlier, read);
        lemma_filed_entries(before, last.scope, last);
        let at = insertion_point(before, last.scope);
        let entries = filed_entries(before);
        assert(entries.insert(at, (last.scope, last)).map_values(read) =~= entries.map_values(
            read,
        ).insert(at, read((last.scope, last))));
        assert(routes.map_values(read_route) =~= earlier.map_values(read_route).push(
            read_route(last),
        ));
    }
}

/// Processing declarations of one scope, one after the other, adds their
/// entries to that scope in the order of processing and touches no other
/// scope.
///
/// For `routes` that all have the scope `scope`, filed one after the other
/// into a well-formed registry: what is filed under `scope` afterwards is
/// what was there before, followed by `routes`; and what is filed under any
/// other scope is unchanged. Starting from an empty registry the snapshot for
/// `scope` is `routes` itself: as many entries as declarations, each equal to
/// the one that its declaration asked for.
pub proof fn lemma_same_scope_accumulates(
    buckets: Seq<BucketView>,
    scope: Seq<char>,
    routes: Seq<RouteView>,
    other: Seq<char>,
)
    requires
        well_formed(buckets),
        forall|i: int| 0 <= i < routes.len() ==> (#[trigger] routes[i]).scope == scope,
    ensures
        well_formed(filed_all(buckets, routes)),
        routes_for(filed_all(buckets, routes), scope) == routes_for(buckets, scope) + routes,
        other != scope ==> routes_for(filed_all(buckets, routes), other) == routes_for(
            buckets,
            other,
        ),
        buckets.len() == 0 ==> routes_for(filed_all(buckets, routes), scope) == routes,
    decreases routes.len(),
{
    if routes.len() == 0 {
        assert(routes_for(buckets, scope) + routes =~= routes_for(buckets, scope));
    } else {
        let earlier = routes.drop_last();
        let last = routes.last();
        lemma_same_scope_accumulates(buckets, scope, earlier, other);
        let before = filed_all(buckets, earlier);
        lemma_filed_well_formed(before, scope, last);
        lemma_filed_routes_for(before, scope, last, other);
        assert((routes_for(buckets, scope) + earlier).push(last) =~= routes_for(buckets, scope)
            + routes);
    }
    if buckets.len() == 0 {
        assert(!has_scope(buckets, scope));
        assert(routes_for(buckets, scope) + routes =~= routes);
    }
}

/// The entry that a valid declaration asks for carries the declared scope
/// and the name of the declared handler.
pub proof fn lemma_extracted_scope(scope: Seq<char>, declaration: DeclarationView)
    requires
        extracted(Some(scope), declaration) is Ok,
    ensures
        extracted(Some(scope), declaration)->Ok_0.scope == scope,
        extracted(Some(scope), declaration)->Ok_0.handler_name == declaration.handler_name,
{
}

/// After `declarations`, all valid and all declared for `scope`, were
/// processed one after the other, starting with an empty registry, the
/// snapshot for `scope` holds one entry for each declaration, in the order
/// of processing, and each is the entry that its declaration asked for.
pub proof fn lemma_declarations_accumulate(scope: Seq<char>, declarations: Seq<DeclarationView>)
    requires
        forall|i: int|
            0 <= i < declarations.len() ==> extracted(Some(scope), #[trigger] declarations[i])
                is Ok,
    ensures
        routes_for(filed_all(Seq::empty(), derived_routes(scope, declarations)), scope)
            == derived_routes(scope, declarations),
        derived_routes(scope, declarations).len() == declarations.len(),
{
    let routes = derived_routes(scope, declarations);
    assert forall|i: int| 0 <= i < routes.len() implies (#[trigger] routes[i]).scope == scope by {
        lemma_extracted_scope(scope, declarations[i]);
    }
    lemma_same_scope_accumulates(Seq::empty(), scope, routes, scope);
}

/// Filing the same entry twice under one scope keeps both: nothing is
/// de-duplicated.
pub proof fn lemma_duplicate_is_kept(buckets: Seq<BucketView>, scope: Seq<char>, route: RouteView)
    requires
        well_formed(buckets),
    ensures
        routes_for(filed(filed(buckets, scope, route), scope, route), scope) == routes_for(
            buckets,
            scope,
        ).push(route).push(route),
{
    lemma_filed_routes_for(buckets, scope, route, scope);
    lemma_filed_well_formed(buckets, scope, route);
    lemma_filed_routes_for(filed(buckets, scope, route), scope, route, scope);
}

/// Filing adds exactly one row to the table, the row of the new entry, and
/// leaves all other rows as they were.
pub proof fn lemma_filing_adds_one_row(buckets: Seq<BucketView>, scope: Seq<char>, route: RouteView)
    ensures
        listing_rows(filed(buckets, scope, route)).to_multiset() == listing_rows(
            buckets,
        ).to_multiset().insert(row_of(scope, route)),
        listing_rows(filed(buckets, scope, route)).len() == listing_rows(buckets).len() + 1,
{
    broadcast use group_to_multiset_ensures;

    let as_row = |entry: (Seq<char>, RouteView)| row_of(entry.0, entry.1);
    let at = insertion_point(buckets, scope);
    let entries = filed_entries(buckets);
    lemma_filed_entries(buckets, scope, route);
    lemma_rows_are_entries(buckets);
    lemma_rows_are_entries(filed(buckets, scope, route));
    assert(entries.insert(at, (scope, route)).map_values(as_row) =~= entries.map_values(
        as_row,
    ).insert(at, row_of(scope, route)));
}

/// The table lists exactly what was registered. After `routes` were filed,
/// each under its own scope and in any order of scopes, the rows of the
/// table are the rows of `routes`: each as often as it was filed, however
/// the registry grouped them.
pub proof fn lemma_listing_round_trip(routes: Seq<RouteView>)
    ensures
        listing_rows(filed_all(Seq::empty(), routes)).to_multiset() == routes.map_values(
            |route: RouteView| row_of(route.scope, route),
        ).to_multiset(),
        listing_rows(filed_all(Seq::empty(), routes)).len() == routes.len(),
{
    let as_row = |entry: (Seq<char>, RouteView)| row_of(entry.0, entry.1);
    lemma_filed_all_keeps_entries::<RouteRowView>(routes, as_row);
    lemma_rows_are_entries(grouped(routes));
    lemma_entry_count(grouped(routes));
    assert(routes.map_values(|route: RouteView| as_row((route.scope, route))) =~= routes.map_values(
        |route: RouteView| row_of(route.scope, route),
    ));
}

/// The registration routine registers every handler as often as it was
/// filed: the handlers of its blocks, taken together, are the handlers of
/// the entries, with and without `use_scope`.
pub proof fn lemma_routine_keeps_every_handler(routes: Seq<RouteView>, use_scope: bool)
    ensures
        all_handlers(registration_blocks(routes, use_scope)).to_multiset() == handler_names(
            routes,
        ).to_multiset(),
        all_handlers(registration_blocks(routes, use_scope)).len() == routes.len(),
{
    let as_name = |entry: (Seq<char>, RouteView)| entry.1.handler_name;
    lemma_filed_all_keeps_entries::<Seq<char>>(routes, as_name);
    lemma_handlers_are_entries(grouped(routes), use_scope);
    lemma_entry_count(grouped(routes));
    assert(routes.map_values(|route: RouteView| as_name((route.scope, route))) =~= handler_names(
        routes,
    ));
}

/// Where nothing is filed under the module key, the registration routine has
/// no block and so registers nothing.
pub proof fn lemma_nothing_filed_nothing_registered(
    buckets: Seq<BucketView>,
    module_key: Seq<char>,
    use_scope: bool,
)
    requires
        !has_scope(buckets, module_key),
    ensures
        registration_blocks(routes_for(buckets, module_key), use_scope) == Seq::<
            ScopeBlockView,
        >::empty(),
        all_handlers(registration_blocks(routes_for(buckets, module_key), use_scope)).len() == 0,
{
    assert(registration_blocks(routes_for(buckets, module_key), use_scope) =~= Seq::<
        ScopeBlockView,
    >::empty());
}

/// Entries of one scope make one block. For a non-empty list of entries that
/// all carry `scope`, the routine has a single block; it lists the handlers
/// of the entries in their order; and its prefix is `scope` with `use_scope`
/// and empty without.
pub proof fn lemma_one_scope_one_block(routes: Seq<RouteView>, scope: Seq<char>, use_scope: bool)
    requires
        routes.len() > 0,
        forall|i: int| 0 <= i < routes.len() ==> (#[trigger] routes[i]).scope == scope,
    ensures
        registration_blocks(routes, use_scope) == seq![
            ScopeBlockView {
                prefix: if use_scope {
                    scope
                } else {
                    Seq::empty()
                },
                handlers: handler_names(routes),
            },
        ],
{
    lemma_one_scope_one_group(routes, scope);
    assert(registration_blocks(routes, use_scope) =~= seq![
        ScopeBlockView {
            prefix: if use_scope {
                scope
            } else {
                Seq::empty()
            },
            handlers: handler_names(routes),
        },
    ]);
}

/// Entries of one scope make one group, which holds them all in their order.
pub proof fn lemma_one_scope_one_group(routes: Seq<RouteView>, scope: Seq<char>)
    requires
        routes.len() > 0,
        forall|i: int| 0 <= i < routes.len() ==> (#[trigger] routes[i]).scope == scope,
    ensures
        grouped(routes) == seq![BucketView { scope, routes }],
    decreases routes.len(),
{
    let earlier = routes.drop_last();
    let last = routes.last();
    if earlier.len() == 0 {
        assert(!has_scope(grouped(earlier), scope));
        assert(seq![last] =~= routes);
        assert(grouped(routes) =~= seq![BucketView { scope, routes }]);
    } else {
        lemma_one_scope_one_group(earlier, scope);
        let before = grouped(earlier);
        assert(before[0].scope == scope);
        assert(has_scope(before, scope));
        assert(scope_index(before, scope) == 0);
        assert(earlier.push(last) =~= routes);
        assert(grouped(routes) =~= seq![BucketView { scope, routes }]);
    }
}

/// Each group holds exactly the entries of its scope: regrouping `routes`
/// puts under every scope the entries that carry it, in their order and as
/// often as they occur.
pub proof fn lemma_group_holds_its_scope(routes: Seq<RouteView>, scope: Seq<char>)
    ensures
        well_formed(grouped(routes)),
        routes_for(grouped(routes), scope) == routes.filter(
            |route: RouteView| route.scope == scope,
        ),
    decreases routes.len(),
{
    reveal(Seq::filter);
    let of_scope = |route: RouteView| route.scope == scope;
    if routes.len() == 0 {
        assert(!has_scope(grouped(routes), scope));
    } else {
        let earlier = routes.drop_last();
        let last = routes.last();
        lemma_group_holds_its_scope(earlier, scope);
        let before = grouped(earlier);
        lemma_filed_well_formed(before, last.scope, last);
        lemma_filed_routes_for(before, last.scope, last, scope);
    }
}

/// Filing changes the scope of no bucket and moves none: a scope that was
/// known keeps its place, and a new scope comes to stand behind all others.
pub proof fn lemma_filed_scopes(
    buckets: Seq<BucketView>,
    scope: Seq<char>,
    route: RouteView,
    other: Seq<char>,
)
    ensures
        has_scope(filed(buckets, scope, route), other) <==> has_scope(buckets, other) || other
            == scope,
        forall|i: int|
            0 <= i < buckets.len() ==> (#[trigger] filed(buckets, scope, route)[i]).scope
                == buckets[i].scope,
        has_scope(buckets, scope) ==> filed(buckets, scope, route).len() == buckets.len(),
        !has_scope(buckets, scope) ==> filed(buckets, scope, route).len() == buckets.len() + 1
            && filed(buckets, scope, route)[buckets.len() as int].scope == scope,
{
    let after = filed(buckets, scope, route);
    if has_scope(buckets, scope) {
        let at = scope_index(buckets, scope);
        assert(after[at].scope == scope);
    } else {
        assert(after[buckets.len() as int].scope == scope);
    }
    if has_scope(buckets, other) {
        let i = scope_index(buckets, other);
        assert(after[i].scope == other);
    }
    if has_scope(after, other) && other != scope {
        let i = scope_index(after, other);
        assert(buckets[i].scope == other);
    }
}

/// Seen as a mapping, filing is one insertion: the scope is mapped to what
/// was filed under it before, followed by the new entry, and every other
/// scope keeps what it had.
pub proof fn lemma_filing_is_map_insertion(
    buckets: Seq<BucketView>,
    scope: Seq<char>,
    route: RouteView,
)
    requires
        well_formed(buckets),
    ensures
        as_map(filed(buckets, scope, route)) == as_map(buckets).insert(
            scope,
            routes_for(buckets, scope).push(route),
        ),
{
    let after = as_map(filed(buckets, scope, route));
    let inserted = as_map(buckets).insert(scope, routes_for(buckets, scope).push(route));
    assert forall|other: Seq<char>| after.dom().contains(other) == inserted.dom().contains(
        other,
    ) by {
        lemma_filed_scopes(buckets, scope, route, other);
    }
    assert forall|other: Seq<char>| #[trigger] after.dom().contains(other) implies after[other]
        == inserted[other] by {
        lemma_filed_routes_for(buckets, scope, route, other);
    }
    assert(after =~= inserted);
}

/// A scope has a group exactly if some entry carries it.
pub proof fn lemma_group_exists_iff_scope_occurs(routes: Seq<RouteView>, scope: Seq<char>)
    ensures
        has_scope(grouped(routes), scope) <==> exists|a: int|
            0 <= a < routes.len() && (#[trigger] routes[a]).scope == scope,
    decreases routes.len(),
{
    if routes.len() == 0 {
        assert(!has_scope(grouped(routes), scope));
    } else {
        let earlier = routes.drop_last();
        let last = routes.last();
        lemma_group_exists_iff_scope_occurs(earlier, scope);
        lemma_filed_scopes(grouped(earlier), last.scope, last, scope);
        if has_scope(grouped(earlier), scope) {
            let a = choose|a: int| 0 <= a < earlier.len() && (#[trigger] earlier[a]).scope == scope;
            assert(routes[a].scope == scope);
        }
        if scope == last.scope {
            assert(routes[routes.len() - 1].scope == scope);
        }
        if exists|a: int| 0 <= a < routes.len() && (#[trigger] routes[a]).scope == scope {
            let a = choose|a: int| 0 <= a < routes.len() && (#[trigger] routes[a]).scope == scope;
            if a < earlier.len() {
                assert(earlier[a].scope == scope);
            }
        }
    }
}

/// Groups stand in the order in which their scopes first occur. Of two
/// groups, the scope of the one in front is carried by an entry that stands
/// before every entry with the scope of the one behind.
pub proof fn lemma_groups_in_order_of_first_use(routes: Seq<RouteView>, i: int, j: int)
    requires
        0 <= i < j < grouped(routes).len(),
    ensures
        exists|a: int|
            0 <= a < routes.len() && (#[trigger] routes[a]).scope == grouped(routes)[i].scope
                && forall|b: int|
                0 <= b <= a ==> (#[trigger] routes[b]).scope != grouped(routes)[j].scope,
    decreases routes.len(),
{
    let earlier = routes.drop_last();
    let last = routes.last();
    let before = grouped(earlier);
    let after = grouped(routes);
    lemma_filed_scopes(before, last.scope, last, last.scope);
    if j < before.len() {
        lemma_groups_in_order_of_first_use(earlier, i, j);
        let a = choose|a: int|
            0 <= a < earlier.len() && (#[trigger] earlier[a]).scope == before[i].scope
                && forall|b: int|
                0 <= b <= a ==> (#[trigger] earlier[b]).scope != before[j].scope;
        assert(routes[a].scope == after[i].scope);
        assert forall|b: int| 0 <= b <= a implies (#[trigger] routes[b]).scope
            != after[j].scope by {
            assert(earlier[b].scope != before[j].scope);
        }
    } else {
        assert(!has_scope(before, last.scope));
        assert(after[j].scope == last.scope);
        assert(has_scope(before, before[i].scope));
        lemma_group_exists_iff_scope_occurs(earlier, before[i].scope);
        lemma_group_exists_iff_scope_occurs(earlier, last.scope);
        let a = choose|a: int|
            0 <= a < earlier.len() && (#[trigger] earlier[a]).scope == before[i].scope;
        assert(routes[a].scope == after[i].scope);
        assert forall|b: int| 0 <= b <= a implies (#[trigger] routes[b]).scope
            != after[j].scope by {
            if routes[b].scope == last.scope {
                assert(earlier[b].scope == last.scope);
            }
        }
    }
}

} // verus!
