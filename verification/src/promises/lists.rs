//! Which runs a page of the run list shows.
use vstd::prelude::*;
use crate::listing;
use crate::listing::{Page, PageBounds, RunItem, RunListQuery};
use crate::spans;
use crate::text;

verus! {

/// A run started at an instant or after it.
pub open spec fn started_by(item: RunItem, since: listing::Instant) -> bool {
    spans::rfc3339(item.started_at@) matches Ok(start) && (start.0 > since.0 || (start.0 == since.0
        && start.1 >= since.1))
}

/// The run stands after a cursor, in the direction of the list: by the text of
/// its start, and among equals by its id.
pub open spec fn follows(item: RunItem, started_at: Seq<char>, run_id: Seq<char>, newest_first: bool) -> bool {
    if newest_first {
        text::comes_before(item.started_at@, started_at) || (item.started_at@ == started_at
            && text::comes_before(item.run_id@, run_id))
    } else {
        text::comes_before(started_at, item.started_at@) || (started_at == item.started_at@
            && text::comes_before(run_id, item.run_id@))
    }
}

/// The run has what the query asks for: the state if one is given, the
/// generator if one is given, and a start that is not too early if one is
/// given. Each condition stands on its own.
pub open spec fn is_asked_for(
    item: RunItem,
    query: RunListQuery,
    since: Option<listing::Instant>,
) -> bool {
    &&& (query.state is Some ==> item.state@ == query.state->0@)
    &&& (query.generator_id is Some ==> item.generator_id@ == query.generator_id->0@)
    &&& (since is Some ==> started_by(item, since->0))
}

/// The starts of the runs can be compared, where the query asks for one.
pub open spec fn starts_are_known(items: Seq<RunItem>, since: Option<listing::Instant>) -> bool {
    since is Some ==> forall|k: int|
        0 <= k < items.len() ==> spans::rfc3339((#[trigger] items[k]).started_at@) is Ok
}

/// Every run on a page has the generator that was asked for.
pub proof fn a_page_shows_one_generator(
    items: Seq<RunItem>,
    query: RunListQuery,
    since: Option<listing::Instant>,
    limit: usize,
    page: Page,
    n: int,
)
    requires
        listing::is_page(items, listing::query_list(items, query, since), limit, page),
        0 <= n < page.picked@.len(),
        query.generator_id is Some,
    ensures
        page.picked@[n] < items.len(),
        items[page.picked@[n] as int].generator_id@ == query.generator_id->0@,
{
    a_pick_passes(items, query, since, limit, page, n);
}

/// Every run on a page has the state that was asked for.
pub proof fn a_page_shows_one_state(
    items: Seq<RunItem>,
    query: RunListQuery,
    since: Option<listing::Instant>,
    limit: usize,
    page: Page,
    n: int,
)
    requires
        listing::is_page(items, listing::query_list(items, query, since), limit, page),
        0 <= n < page.picked@.len(),
        query.state is Some,
    ensures
        page.picked@[n] < items.len(),
        items[page.picked@[n] as int].state@ == query.state->0@,
{
    a_pick_passes(items, query, since, limit, page, n);
}

/// Every run on a page started at the instant that was asked for or later.
pub proof fn a_page_shows_no_earlier_run(
    items: Seq<RunItem>,
    query: RunListQuery,
    since: Option<listing::Instant>,
    limit: usize,
    page: Page,
    n: int,
)
    requires
        listing::is_page(items, listing::query_list(items, query, since), limit, page),
        0 <= n < page.picked@.len(),
        since is Some,
        starts_are_known(items, since),
    ensures
        page.picked@[n] < items.len(),
        started_by(items[page.picked@[n] as int], since->0),
{
    a_pick_passes(items, query, since, limit, page, n);
    starts_are_the_instants(items, page.picked@[n] as int);
}

/// Every run on a page stands after the cursor.
pub proof fn a_page_starts_after_its_cursor(
    items: Seq<RunItem>,
    query: RunListQuery,
    since: Option<listing::Instant>,
    limit: usize,
    page: Page,
    n: int,
    started_at: Seq<char>,
    run_id: Seq<char>,
)
    requires
        listing::is_page(items, listing::query_list(items, query, since), limit, page),
        0 <= n < page.picked@.len(),
        query.cursor is Some,
        query.cursor->0@ == started_at + seq!['|'] + run_id,
        !started_at.contains('|'),
    ensures
        page.picked@[n] < items.len(),
        follows(items[page.picked@[n] as int], started_at, run_id, query.descending),
{
    a_pick_passes(items, query, since, limit, page, n);
    a_cursor_is_its_place(query.cursor->0@, started_at, run_id);
}

/// A page holds no more runs than the limit, each once, in the order of the
/// inventory or against it.
pub proof fn a_page_is_in_order(
    items: Seq<RunItem>,
    query: RunListQuery,
    since: Option<listing::Instant>,
    limit: usize,
    page: Page,
    m: int,
    n: int,
)
    requires
        listing::is_page(items, listing::query_list(items, query, since), limit, page),
    ensures
        page.picked@.len() <= limit,
        0 <= m < n < page.picked@.len() ==> if query.descending {
            page.picked@[m] > page.picked@[n]
        } else {
            page.picked@[m] < page.picked@[n]
        },
{
    let filter = listing::query_filter(query, since);
    let starts = listing::counted_starts(items, since);
    let found = listing::matching(items, starts, filter);
    listing::matching_facts(items, starts, filter);
    let picked = listing::position_views(page.picked@);
    assert(picked.len() == page.picked@.len());
    if 0 <= m < n < page.picked@.len() {
        let list = listing::query_list(items, query, since);
        assert(picked[m] == list[m] && picked[n] == list[n]);
        if query.descending {
            assert(found[found.len() - 1 - n] < found[found.len() - 1 - m]);
        }
    }
}

/// A run that has everything that was asked for, and stands after the cursor
/// where there is one, is on the page, or the page is full and the run stands
/// after the last one on it. A page names the next one by the start and the id
/// of its last run, and exactly where such a run remains.
pub proof fn a_page_leaves_out_only_later_runs(
    items: Seq<RunItem>,
    query: RunListQuery,
    since: Option<listing::Instant>,
    limit: usize,
    page: Page,
    k: int,
    started_at: Seq<char>,
    run_id: Seq<char>,
)
    requires
        limit >= 1,
        listing::is_page(items, listing::query_list(items, query, since), limit, page),
        starts_are_known(items, since),
        0 <= k < items.len(),
        is_asked_for(items[k], query, since),
        query.cursor is Some ==> query.cursor->0@ == started_at + seq!['|'] + run_id
            && !started_at.contains('|') && follows(items[k], started_at, run_id, query.descending),
    ensures
        ({
            ||| exists|n: int| 0 <= n < page.picked@.len() && #[trigger] page.picked@[n] == k
            ||| page.next_cursor is Some && page.picked@.len() == limit && (if query.descending {
                page.picked@.last() > k
            } else {
                page.picked@.last() < k
            })
        }),
        page.next_cursor is Some ==> page.picked@.len() == limit && page.picked@.last()
            < items.len() && page.next_cursor->0@ == items[page.picked@.last() as int].started_at@
            + seq!['|'] + items[page.picked@.last() as int].run_id@,
{
    let filter = listing::query_filter(query, since);
    let starts = listing::counted_starts(items, since);
    let found = listing::matching(items, starts, filter);
    let list = listing::query_list(items, query, since);
    listing::matching_facts(items, starts, filter);
    if since is Some {
        starts_are_the_instants(items, k);
    }
    if query.cursor is Some {
        a_cursor_is_its_place(query.cursor->0@, started_at, run_id);
    }
    assert(listing::passes(items[k], starts[k], filter));
    assert(found.contains(k));
    let at = choose|at: int| 0 <= at < found.len() && found[at] == k;
    let p = if query.descending {
        found.len() - 1 - at
    } else {
        at
    };
    assert(list[p] == k);
    let picked = listing::position_views(page.picked@);
    assert(picked.len() == page.picked@.len());
    if p < page.picked@.len() {
        assert(picked[p] == list[p]);
        assert(page.picked@[p] == k);
    } else {
        assert(list.len() > limit);
        assert(picked.len() == limit);
        assert(picked[limit - 1] == list[limit - 1]);
        if query.descending {
            assert(found[at] < found[found.len() - limit]);
        } else {
            assert(found[limit - 1] < found[at]);
        }
    }
    if page.next_cursor is Some {
        assert(list.len() > limit);
        assert(picked.len() == limit);
        assert(picked[limit - 1] == list[limit - 1]);
        let last = list[limit - 1];
        if query.descending {
            assert(found[found.len() - limit] == last);
        }
        assert(found.contains(last));
        assert(listing::passes(items[last], starts[last], filter));
        assert(picked[limit - 1] == page.picked@[limit - 1]);
        reveal_strlit("|");
        assert("|"@ =~= seq!['|']);
    }
}

/// All pages together show every run that has what was asked for, and no
/// other.
pub proof fn the_pages_show_what_was_asked_for(
    items: Seq<RunItem>,
    queries: Seq<RunListQuery>,
    since: Option<listing::Instant>,
    limit: usize,
    pages: Seq<Page>,
    k: int,
)
    requires
        listing::in_order(items),
        forall|i: int| 0 <= i < items.len() ==> !(#[trigger] items[i]).started_at@.contains('|'),
        starts_are_known(items, since),
        limit >= 1,
        listing::fetched(items, queries, since, limit, pages),
    ensures
        listing::joined(pages).contains(k) <==> 0 <= k < items.len() && is_asked_for(
            items[k],
            queries[0],
            since,
        ),
{
    listing::pages_cover_the_list(items, queries, since, limit, pages);
    let starts = listing::counted_starts(items, since);
    let filter = listing::filter_of(queries[0], since, None);
    if 0 <= k < items.len() {
        if since is Some {
            starts_are_the_instants(items, k);
        }
        assert(listing::passes(items[k], starts[k], filter) <==> is_asked_for(
            items[k],
            queries[0],
            since,
        ));
    }
    if listing::passes(items[k], starts[k], filter) {
        assert(listing::joined(pages).contains(k) <==> 0 <= k < items.len());
    } else {
        assert(!listing::joined(pages).contains(k));
    }
}

/// The inventory is in order where each run stands before the next by the
/// text of its start, and among equals by its id; and a cursor is the start
/// and the id with a bar between them.
pub proof fn order_and_cursors_go_by_start_and_id(items: Seq<RunItem>, i: int, j: int)
    requires
        listing::in_order(items),
        0 <= i < j < items.len(),
    ensures
        text::comes_before(items[i].started_at@, items[j].started_at@) || (items[i].started_at@
            == items[j].started_at@ && text::comes_before(items[i].run_id@, items[j].run_id@)),
{
    assert(listing::place_before(listing::place_of(items[i]), listing::place_of(items[j])));
}

/// A query is taken exactly where its limit, or the default, lies between the
/// bounds and its start is an instant; a limit is complained of first.
pub proof fn a_query_is_taken_within_its_bounds(query: RunListQuery, bounds: PageBounds)
    ensures
        ({
            let limit = if query.limit is Some {
                query.limit->0
            } else {
                bounds.default
            };
            let refusal = listing::query_refusal(query, bounds);
            &&& (refusal is None <==> bounds.min <= limit <= bounds.max && (query.since is Some
                ==> spans::rfc3339(query.since->0@) is Ok))
            &&& (!(bounds.min <= limit <= bounds.max) ==> refusal->0.status == 400
                && refusal->0.code == "invalid_request"@ && refusal->0.detail
                == "limit must be between "@ + text::decimal(bounds.min as nat) + " and "@
                + text::decimal(bounds.max as nat) && refusal->0.errors == seq![
                ("limit"@, refusal->0.detail),
            ])
            &&& (bounds.min <= limit <= bounds.max && refusal is Some ==> refusal->0.status == 400
                && refusal->0.code == "invalid_request"@ && refusal->0.detail
                == "since must be RFC 3339: "@ + spans::rfc3339(query.since->0@)->Err_0
                && refusal->0.errors == seq![("since"@, refusal->0.detail)])
        }),
{
}

proof fn a_pick_passes(
    items: Seq<RunItem>,
    query: RunListQuery,
    since: Option<listing::Instant>,
    limit: usize,
    page: Page,
    n: int,
)
    requires
        listing::is_page(items, listing::query_list(items, query, since), limit, page),
        0 <= n < page.picked@.len(),
    ensures
        page.picked@[n] < items.len(),
        listing::passes(
            items[page.picked@[n] as int],
            listing::counted_starts(items, since)[page.picked@[n] as int],
            listing::query_filter(query, since),
        ),
{
    let filter = listing::query_filter(query, since);
    let starts = listing::counted_starts(items, since);
    let found = listing::matching(items, starts, filter);
    let list = listing::query_list(items, query, since);
    listing::matching_facts(items, starts, filter);
    let picked = listing::position_views(page.picked@);
    assert(picked.len() == page.picked@.len());
    assert(picked[n] == list[n]);
    if query.descending {
        assert(list[n] == found[found.len() - 1 - n]);
    }
    assert(found.contains(list[n]));
    assert(listing::passes(items[list[n]], starts[list[n]], filter));
    assert(picked[n] == page.picked@[n]);
}

proof fn a_cursor_is_its_place(cursor: Seq<char>, started_at: Seq<char>, run_id: Seq<char>)
    requires
        cursor == started_at + seq!['|'] + run_id,
        !started_at.contains('|'),
    ensures
        listing::cursor_place(cursor) == Some((started_at, run_id)),
{
    let at = started_at.len() as int;
    assert forall|j: int| 0 <= j < at implies cursor[j] != '|' by {
        assert(cursor[j] == started_at[j]);
        assert(started_at.contains(started_at[j]));
    }
    text::first_index_found(cursor, '|', at);
    assert(cursor.take(at) =~= started_at);
    assert(cursor.skip(at + 1) =~= run_id);
}

proof fn starts_are_the_instants(items: Seq<RunItem>, k: int)
    requires
        0 <= k < items.len(),
        forall|k: int|
            0 <= k < items.len() ==> spans::rfc3339((#[trigger] items[k]).started_at@) is Ok,
    ensures
        listing::start_instants(items) is Ok,
        listing::start_instants(items)->Ok_0.len() == items.len(),
        listing::start_instants(items)->Ok_0[k] == spans::rfc3339(items[k].started_at@)->Ok_0,
    decreases items.len(),
{
    let front = items.drop_last();
    assert(spans::rfc3339(items[items.len() - 1].started_at@) is Ok);
    if front.len() > 0 {
        assert forall|i: int| 0 <= i < front.len() implies spans::rfc3339(
            (#[trigger] front[i]).started_at@,
        ) is Ok by {
            assert(front[i] == items[i]);
        }
        starts_are_the_instants(
            front,
            if k < front.len() {
                k
            } else {
                0
            },
        );
        if k < front.len() {
            assert(front[k] == items[k]);
        }
    } else {
        assert(listing::start_instants(front) == Ok::<Seq<listing::Instant>, Seq<char>>(
            Seq::empty(),
        ));
    }
}

} // verus!
