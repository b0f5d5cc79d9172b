//! Listing of runs: filters, order, and pages that continue at a cursor.
use vstd::prelude::*;
use vstd::string::*;
use crate::error;
use crate::error::ApiHttpError;
use crate::spans;
use crate::text;

verus! {

/// A run as the list shows it. The host's inventory comes in ascending order
/// of start and run id.
#[derive(Debug)]
pub struct RunItem {
    pub run_id: String,
    pub generator_id: String,
    pub started_at: String,
    /// The name of its state.
    pub state: String,
}

/// What a reader asks for.
#[derive(Debug)]
pub struct RunListQuery {
    pub limit: Option<usize>,
    pub since: Option<String>,
    pub cursor: Option<String>,
    pub state: Option<String>,
    pub generator_id: Option<String>,
    /// Newest first.
    pub descending: bool,
}

/// The default and the bounds of a page's length.
#[derive(Debug, Clone, Copy)]
pub struct PageBounds {
    pub default: usize,
    pub min: usize,
    pub max: usize,
}

/// An instant: seconds since the Unix epoch, and nanoseconds.
pub type Instant = (i64, u32);

/// One instant is before another.
pub open spec fn earlier(a: Instant, b: Instant) -> bool {
    a.0 < b.0 || (a.0 == b.0 && a.1 < b.1)
}

/// The place of a run in the order of the list.
pub type Place = (Seq<char>, Seq<char>);

pub open spec fn place_of(item: RunItem) -> Place {
    (item.started_at@, item.run_id@)
}

/// One place comes before another: by start, then by run id.
pub open spec fn place_before(a: Place, b: Place) -> bool {
    text::comes_before(a.0, b.0) || (a.0 == b.0 && text::comes_before(a.1, b.1))
}

/// The place that a cursor names, if it names one: `started_at|run_id`.
pub open spec fn cursor_place(cursor: Seq<char>) -> Option<Place> {
    match text::first_index(cursor, '|') {
        Some(at) => Some((cursor.take(at), cursor.skip(at + 1))),
        None => None,
    }
}

/// The cursor that names a place.
pub open spec fn place_cursor(place: Place) -> Seq<char> {
    place.0 + "|"@ + place.1
}

/// What a run is held against.
pub struct Filter {
    pub state: Option<Seq<char>>,
    pub generator_id: Option<Seq<char>>,
    pub since: Option<Instant>,
    pub cursor: Option<Place>,
    pub descending: bool,
}

/// A place is beyond the cursor, in the direction of the list.
pub open spec fn beyond(place: Place, cursor: Option<Place>, descending: bool) -> bool {
    match cursor {
        None => true,
        Some(cursor) => if descending {
            place_before(place, cursor)
        } else {
            place_before(cursor, place)
        },
    }
}

/// A run that started at `start` is in the list.
pub open spec fn passes(item: RunItem, start: Instant, filter: Filter) -> bool {
    &&& filter.state matches Some(state) ==> item.state@ == state
    &&& filter.generator_id matches Some(id) ==> item.generator_id@ == id
    &&& filter.since matches Some(since) ==> !earlier(start, since)
    &&& beyond(place_of(item), filter.cursor, filter.descending)
}

/// The positions of the runs in the list, ascending. `starts` holds the
/// instants at which they started; it counts only where the filter asks.
pub open spec fn matching(items: Seq<RunItem>, starts: Seq<Instant>, filter: Filter) -> Seq<int>
    decreases items.len(),
{
    if items.len() == 0 {
        Seq::empty()
    } else {
        let front = matching(items.drop_last(), starts, filter);
        let last = items.len() - 1;
        if passes(items[last], starts[last], filter) {
            front.push(last)
        } else {
            front
        }
    }
}

/// The positions of the runs in the list, in the order of the list.
pub open spec fn listed(items: Seq<RunItem>, starts: Seq<Instant>, filter: Filter) -> Seq<int> {
    let ascending = matching(items, starts, filter);
    if filter.descending {
        ascending.reverse()
    } else {
        ascending
    }
}

/// A page of the list.
#[derive(Debug)]
pub struct Page {
    /// The positions of its runs in the inventory, in the order of the list.
    pub picked: Vec<usize>,
    /// Where the next page continues, if there is one.
    pub next_cursor: Option<String>,
}

/// The positions, as values.
pub open spec fn position_views(picked: Seq<usize>) -> Seq<int> {
    picked.map_values(|i: usize| i as int)
}

/// A page of at most `limit` runs from the front of the list.
pub open spec fn is_page(items: Seq<RunItem>, list: Seq<int>, limit: usize, page: Page) -> bool {
    if list.len() > limit {
        &&& position_views(page.picked@) == list.take(limit as int)
        &&& page.next_cursor.deep_view() == Some(place_cursor(place_of(items[list[limit - 1]])))
    } else {
        &&& position_views(page.picked@) == list
        &&& page.next_cursor is None
    }
}

/// What a checked query comes down to.
#[derive(Debug)]
pub struct ListPlan {
    pub limit: usize,
    pub since: Option<Instant>,
}

/// The complaint about a limit.
pub open spec fn limit_detail(bounds: PageBounds) -> Seq<char> {
    "limit must be between "@ + text::decimal(bounds.min as nat) + " and "@ + text::decimal(
        bounds.max as nat,
    )
}

/// The limit of a query.
pub open spec fn page_limit(query: RunListQuery, bounds: PageBounds) -> usize {
    match query.limit {
        Some(limit) => limit,
        None => bounds.default,
    }
}

/// What is looked at before the inventory is read: the limit, then the start.
/// `since` is what the query's start parses to.
pub fn plan_list(
    query: &RunListQuery,
    bounds: &PageBounds,
    since: Option<Result<Instant, String>>,
) -> (r: Result<ListPlan, ApiHttpError>)
    ensures
        match r {
            Ok(plan) => {
                &&& bounds.min <= page_limit(*query, *bounds) <= bounds.max
                &&& plan.limit == page_limit(*query, *bounds)
                &&& match since {
                    None => plan.since is None,
                    Some(parsed) => parsed is Ok && plan.since == Some(parsed->Ok_0),
                }
            },
            Err(refusal) => if !(bounds.min <= page_limit(*query, *bounds) <= bounds.max) {
                refusal@ == error::bad_request_field_problem("limit"@, limit_detail(*bounds))
            } else {
                since matches Some(Err(detail)) && refusal@ == error::bad_request_field_problem(
                    "since"@,
                    "since must be RFC 3339: "@ + detail@,
                )
            },
        },
{
    let limit: usize = match query.limit {
        Some(limit) => limit,
        None => bounds.default,
    };
    if limit < bounds.min || limit > bounds.max {
        let mut reason = "limit must be between ".to_owned();
        text::push_decimal(&mut reason, bounds.min as u64);
        reason.append(" and ");
        text::push_decimal(&mut reason, bounds.max as u64);
        return Err(ApiHttpError::bad_request_field("limit".to_owned(), reason));
    }
    match since {
        None => Ok(ListPlan { limit, since: None }),
        Some(Ok(since)) => Ok(ListPlan { limit, since: Some(since) }),
        Some(Err(detail)) => {
            let mut reason = "since must be RFC 3339: ".to_owned();
            reason.append(detail.as_str());
            Err(ApiHttpError::bad_request_field("since".to_owned(), reason))
        },
    }
}

/// What the query's start parses to.
pub open spec fn parsed_since(query: RunListQuery) -> Option<Result<Instant, Seq<char>>> {
    match query.since {
        None => None,
        Some(since) => Some(spans::rfc3339(since@)),
    }
}

/// Why a query is refused before the inventory is read, if it is.
pub open spec fn query_refusal(query: RunListQuery, bounds: PageBounds) -> Option<
    error::ProblemModel,
> {
    if !(bounds.min <= page_limit(query, bounds) <= bounds.max) {
        Some(error::bad_request_field_problem("limit"@, limit_detail(bounds)))
    } else {
        match parsed_since(query) {
            Some(Err(detail)) => Some(
                error::bad_request_field_problem("since"@, "since must be RFC 3339: "@ + detail),
            ),
            _ => None,
        }
    }
}

/// Checks a query before the inventory is read.
pub fn check_list_query(query: &RunListQuery, bounds: &PageBounds) -> (r: Result<
    ListPlan,
    ApiHttpError,
>)
    ensures
        match r {
            Ok(plan) => {
                &&& query_refusal(*query, *bounds) is None
                &&& plan.limit == page_limit(*query, *bounds)
                &&& match parsed_since(*query) {
                    Some(Ok(since)) => plan.since == Some(since),
                    _ => plan.since is None,
                }
            },
            Err(refusal) => query_refusal(*query, *bounds) == Some(refusal@),
        },
{
    let since = match &query.since {
        None => None,
        Some(since) => Some(spans::parse_rfc3339(since.as_str())),
    };
    plan_list(query, bounds, since)
}

/// Splits a cursor into the place that it names.
fn split_cursor(cursor: &str) -> (r: Option<(String, String)>)
    ensures
        match r {
            Some((started_at, run_id)) => cursor_place(cursor@) == Some((started_at@, run_id@)),
            None => cursor_place(cursor@) is None,
        },
{
    let chars = text::chars_of(cursor);
    match text::find_char(&chars, '|', 0) {
        None => {
            proof {
                text::first_index_missing(cursor@, '|');
            }
            None
        },
        Some(at) => {
            proof {
                text::first_index_found(cursor@, '|', at as int);
            }
            let started_at = text::text_between(&chars, 0, at);
            let run_id = text::text_between(&chars, at + 1, chars.len());
            assert(started_at@ =~= cursor@.take(at as int));
            assert(run_id@ =~= cursor@.skip(at + 1));
            Some((started_at, run_id))
        },
    }
}

fn is_place_before(a: (&str, &str), b: (&str, &str)) -> (r: bool)
    ensures
        r == place_before((a.0@, a.1@), (b.0@, b.1@)),
{
    text::is_before(a.0, b.0) || (text::same_text(a.0, b.0) && text::is_before(a.1, b.1))
}

/// An optional pair of texts, as a place.
pub open spec fn pair_view(pair: Option<(String, String)>) -> Option<Place> {
    match pair {
        Some((started_at, run_id)) => Some((started_at@, run_id@)),
        None => None,
    }
}

/// The filter of a query with a start and a cursor.
pub open spec fn filter_of(
    query: RunListQuery,
    since: Option<Instant>,
    cursor: Option<Place>,
) -> Filter {
    Filter {
        state: query.state.deep_view(),
        generator_id: query.generator_id.deep_view(),
        since,
        cursor,
        descending: query.descending,
    }
}

fn item_passes(
    item: &RunItem,
    start: Option<Instant>,
    query: &RunListQuery,
    since: Option<Instant>,
    cursor: &Option<(String, String)>,
) -> (r: bool)
    requires
        since is Some ==> start is Some,
    ensures
        r == passes(*item, start->0, filter_of(*query, since, pair_view(*cursor))),
{
    if let Some(state) = &query.state {
        if !text::same_text(item.state.as_str(), state.as_str()) {
            return false;
        }
    }
    if let Some(id) = &query.generator_id {
        if !text::same_text(item.generator_id.as_str(), id.as_str()) {
            return false;
        }
    }
    if let Some(since) = since {
        if let Some(start) = start {
            if start.0 < since.0 || (start.0 == since.0 && start.1 < since.1) {
                return false;
            }
        }
    }
    match cursor {
        None => true,
        Some((started_at, run_id)) => {
            let here = (item.started_at.as_str(), item.run_id.as_str());
            let there = (started_at.as_str(), run_id.as_str());
            if query.descending {
                is_place_before(here, there)
            } else {
                is_place_before(there, here)
            }
        },
    }
}

fn reversed(list: &Vec<usize>) -> (r: Vec<usize>)
    ensures
        position_views(r@) == position_views(list@).reverse(),
{
    let mut out: Vec<usize> = Vec::new();
    let mut i: usize = list.len();
    while i > 0
        invariant
            i <= list@.len(),
            out@.len() == list@.len() - i,
            forall|j: int| 0 <= j < out@.len() ==> #[trigger] out@[j] == list@[list@.len() - 1 - j],
        decreases i,
    {
        i -= 1;
        out.push(list[i]);
    }
    assert(position_views(out@) =~= position_views(list@).reverse());
    out
}

fn cursor_at(item: &RunItem) -> (r: String)
    ensures
        r@ == place_cursor(place_of(*item)),
{
    let mut cursor = item.started_at.clone();
    cursor.append("|");
    cursor.append(item.run_id.as_str());
    cursor
}

proof fn matching_is_in_range(items: Seq<RunItem>, starts: Seq<Instant>, filter: Filter)
    ensures
        forall|i: int|
            0 <= i < matching(items, starts, filter).len() ==> 0 <= #[trigger] matching(
                items,
                starts,
                filter,
            )[i] < items.len(),
        matching(items, starts, filter).len() <= items.len(),
    decreases items.len(),
{
    if items.len() > 0 {
        matching_is_in_range(items.drop_last(), starts, filter);
    }
}

/// Cuts a page from the inventory. `starts` holds the instants at which the
/// runs started, where the query asks for a start.
pub fn page_of(
    items: &Vec<RunItem>,
    starts: &Vec<Instant>,
    query: &RunListQuery,
    limit: usize,
    since: Option<Instant>,
    cursor: &Option<(String, String)>,
) -> (r: Page)
    requires
        limit >= 1,
        since is Some ==> starts@.len() == items@.len(),
    ensures
        is_page(
            items@,
            listed(items@, starts@, filter_of(*query, since, pair_view(*cursor))),
            limit,
            r,
        ),
{
    let ghost filter = filter_of(*query, since, pair_view(*cursor));
    let mut kept: Vec<usize> = Vec::new();
    let mut i: usize = 0;
    assert(items@.take(0) =~= Seq::<RunItem>::empty());
    assert(position_views(kept@) =~= Seq::<int>::empty());
    while i < items.len()
        invariant
            i <= items@.len(),
            since is Some ==> starts@.len() == items@.len(),
            filter == filter_of(*query, since, pair_view(*cursor)),
            position_views(kept@) == matching(items@.take(i as int), starts@, filter),
        decreases items.len() - i,
    {
        assert(items@.take(i + 1).drop_last() =~= items@.take(i as int));
        assert(items@.take(i + 1)[i as int] == items@[i as int]);
        let start: Option<Instant> = match since {
            None => None,
            Some(_) => Some(starts[i]),
        };
        let ghost before = position_views(kept@);
        if item_passes(&items[i], start, query, since, cursor) {
            kept.push(i);
            assert(position_views(kept@) =~= before.push(i as int));
        }
        i += 1;
    }
    assert(items@.take(items@.len() as int) =~= items@);
    proof {
        matching_is_in_range(items@, starts@, filter);
    }
    let mut list = if query.descending { reversed(&kept) } else { kept };
    let ghost whole = position_views(list@);
    assert(whole == listed(items@, starts@, filter));
    assert forall|j: int| 0 <= j < whole.len() implies 0 <= #[trigger] whole[j] < items@.len() by {
        let ascending = matching(items@, starts@, filter);
        if query.descending {
            assert(whole[j] == ascending[ascending.len() - 1 - j]);
        }
    }
    if list.len() > limit {
        assert(whole[limit - 1] == list@[limit - 1]);
        let next_cursor = Some(cursor_at(&items[list[limit - 1]]));
        list.truncate(limit);
        assert(position_views(list@) =~= whole.take(limit as int));
        Page { picked: list, next_cursor }
    } else {
        Page { picked: list, next_cursor: None }
    }
}

/// The instants at which some runs started; `Err` is the complaint about the
/// first run whose start is not a time.
pub open spec fn start_instants(items: Seq<RunItem>) -> Result<Seq<Instant>, Seq<char>>
    decreases items.len(),
{
    if items.len() == 0 {
        Ok(Seq::empty())
    } else {
        match start_instants(items.drop_last()) {
            Err(detail) => Err(detail),
            Ok(front) => match spans::rfc3339(items.last().started_at@) {
                Ok(start) => Ok(front.push(start)),
                Err(detail) => Err(
                    "run `"@ + items.last().run_id@ + "` has invalid started_at: "@ + detail,
                ),
            },
        }
    }
}

proof fn a_bad_start_is_final(items: Seq<RunItem>, n: int)
    requires
        0 <= n <= items.len(),
        start_instants(items.take(n)) is Err,
    ensures
        start_instants(items) == start_instants(items.take(n)),
    decreases items.len() - n,
{
    if n < items.len() {
        assert(items.take(n + 1).drop_last() =~= items.take(n));
        a_bad_start_is_final(items, n + 1);
    } else {
        assert(items.take(n) =~= items);
    }
}

fn read_starts(items: &Vec<RunItem>) -> (r: Result<Vec<Instant>, String>)
    ensures
        match r {
            Ok(starts) => start_instants(items@) == Ok::<_, Seq<char>>(starts@),
            Err(detail) => start_instants(items@) == Err::<Seq<Instant>, _>(detail@),
        },
{
    let mut starts: Vec<Instant> = Vec::new();
    let mut i: usize = 0;
    assert(items@.take(0) =~= Seq::<RunItem>::empty());
    while i < items.len()
        invariant
            i <= items@.len(),
            start_instants(items@.take(i as int)) == Ok::<_, Seq<char>>(starts@),
        decreases items.len() - i,
    {
        let item = &items[i];
        assert(items@.take(i + 1).drop_last() =~= items@.take(i as int));
        assert(items@.take(i + 1).last() == *item);
        match spans::parse_rfc3339(item.started_at.as_str()) {
            Ok(start) => {
                starts.push(start);
            },
            Err(detail) => {
                let mut message = "run `".to_owned();
                message.append(item.run_id.as_str());
                message.append("` has invalid started_at: ");
                message.append(detail.as_str());
                proof {
                    a_bad_start_is_final(items@, i + 1);
                }
                return Err(message);
            },
        }
        i += 1;
    }
    assert(items@.take(items@.len() as int) =~= items@);
    Ok(starts)
}

/// The complaint about a cursor that names no place.
pub open spec fn cursor_detail() -> Seq<char> {
    "cursor must have form `started_at|run_id`"@
}

/// The cursor of a query, as the place that it names.
pub open spec fn query_cursor(query: RunListQuery) -> Option<Option<Place>> {
    match query.cursor {
        None => None,
        Some(cursor) => Some(cursor_place(cursor@)),
    }
}

/// The instants that a list is held against: those of the runs where the query
/// asks for a start.
pub open spec fn counted_starts(items: Seq<RunItem>, since: Option<Instant>) -> Seq<Instant> {
    if since is Some {
        start_instants(items)->Ok_0
    } else {
        Seq::empty()
    }
}

/// The filter that a query with a checked start comes down to.
pub open spec fn query_filter(query: RunListQuery, since: Option<Instant>) -> Filter {
    filter_of(
        query,
        since,
        match query_cursor(query) {
            Some(place) => place,
            None => None,
        },
    )
}

/// The list that a query with a checked start asks for.
pub open spec fn query_list(
    items: Seq<RunItem>,
    query: RunListQuery,
    since: Option<Instant>,
) -> Seq<int> {
    listed(items, counted_starts(items, since), query_filter(query, since))
}

/// Lists a page of the inventory under a checked query. Where the query asks
/// for a start, a run whose own start is not a time fails the list.
pub fn list_runs(items: &Vec<RunItem>, query: &RunListQuery, plan: &ListPlan) -> (r: Result<
    Page,
    ApiHttpError,
>)
    requires
        plan.limit >= 1,
    ensures
        match r {
            Ok(page) => {
                &&& query_cursor(*query) matches Some(place) ==> place is Some
                &&& plan.since is Some ==> start_instants(items@) is Ok
                &&& is_page(items@, query_list(items@, *query, plan.since), plan.limit, page)
            },
            Err(refusal) => if query_cursor(*query) == Some(None::<Place>) {
                refusal@ == error::bad_request_field_problem("cursor"@, cursor_detail())
            } else {
                plan.since is Some && (start_instants(items@) matches Err(detail) && refusal@
                    == error::internal_problem(detail))
            },
        },
{
    let cursor: Option<(String, String)> = match &query.cursor {
        None => None,
        Some(cursor) => match split_cursor(cursor.as_str()) {
            Some(place) => Some(place),
            None => {
                return Err(
                    ApiHttpError::bad_request_field(
                        "cursor".to_owned(),
                        "cursor must have form `started_at|run_id`".to_owned(),
                    ),
                );
            },
        },
    };
    let starts: Vec<Instant> = match plan.since {
        None => Vec::new(),
        Some(_) => match read_starts(items) {
            Ok(starts) => starts,
            Err(detail) => {
                return Err(ApiHttpError::internal(detail));
            },
        },
    };
    proof {
        if plan.since is Some {
            instants_match_items(items@);
        } else {
            assert(starts@ =~= Seq::<Instant>::empty());
        }
    }
    Ok(page_of(items, &starts, query, plan.limit, plan.since, &cursor))
}

proof fn instants_match_items(items: Seq<RunItem>)
    requires
        start_instants(items) is Ok,
    ensures
        start_instants(items)->Ok_0.len() == items.len(),
    decreases items.len(),
{
    if items.len() > 0 {
        instants_match_items(items.drop_last());
    }
}

/// Places are ordered one way only.
pub proof fn place_order_is_strict(a: Place, b: Place, c: Place)
    ensures
        !place_before(a, a),
        place_before(a, b) && place_before(b, c) ==> place_before(a, c),
        place_before(a, b) ==> !place_before(b, a),
{
    text::comes_before_irreflexive(a.0);
    text::comes_before_irreflexive(a.1);
    text::comes_before_irreflexive(b.0);
    text::comes_before_irreflexive(b.1);
    if place_before(a, b) && place_before(b, c) {
        if text::comes_before(a.0, b.0) && text::comes_before(b.0, c.0) {
            text::comes_before_transitive(a.0, b.0, c.0);
        }
        if text::comes_before(a.1, b.1) && text::comes_before(b.1, c.1) {
            text::comes_before_transitive(a.1, b.1, c.1);
        }
    }
    if place_before(a, b) && place_before(b, a) {
        if text::comes_before(a.0, b.0) && text::comes_before(b.0, a.0) {
            text::comes_before_transitive(a.0, b.0, a.0);
        }
        if text::comes_before(a.1, b.1) && text::comes_before(b.1, a.1) {
            text::comes_before_transitive(a.1, b.1, a.1);
        }
    }
}

/// The inventory comes in ascending order, without two runs in one place.
pub open spec fn in_order(items: Seq<RunItem>) -> bool {
    forall|i: int, j: int|
        0 <= i < j < items.len() ==> place_before(
            place_of(#[trigger] items[i]),
            place_of(#[trigger] items[j]),
        )
}

/// Positions in ascending order.
pub open spec fn ascending(list: Seq<int>) -> bool {
    forall|i: int, j: int| 0 <= i < j < list.len() ==> #[trigger] list[i] < #[trigger] list[j]
}

/// The runs that pass stand in the list in ascending order, and no others.
pub proof fn matching_facts(items: Seq<RunItem>, starts: Seq<Instant>, filter: Filter)
    ensures
        ascending(matching(items, starts, filter)),
        forall|k: int|
            matching(items, starts, filter).contains(k) <==> 0 <= k < items.len() && #[trigger] passes(
                items[k],
                starts[k],
                filter,
            ),
    decreases items.len(),
{
    let list = matching(items, starts, filter);
    matching_is_in_range(items, starts, filter);
    if items.len() > 0 {
        let shorter = items.drop_last();
        let front = matching(shorter, starts, filter);
        let last = items.len() - 1;
        matching_facts(shorter, starts, filter);
        matching_is_in_range(shorter, starts, filter);
        assert forall|k: int|
            list.contains(k) <==> 0 <= k < items.len() && #[trigger] passes(
                items[k],
                starts[k],
                filter,
            ) by {
            if 0 <= k < shorter.len() {
                assert(shorter[k] == items[k]);
                assert(passes(shorter[k], starts[k], filter) == passes(items[k], starts[k], filter));
            }
            if front.contains(k) {
                let i = choose|i: int| 0 <= i < front.len() && front[i] == k;
                assert(list[i] == k);
                assert(list.contains(k));
            }
            if list.contains(k) && !front.contains(k) {
                let i = choose|i: int| 0 <= i < list.len() && list[i] == k;
                if i < front.len() {
                    assert(front[i] == k);
                }
                assert(k == last);
            }
            if k == last && passes(items[k], starts[k], filter) {
                assert(list[list.len() - 1] == k);
                assert(list.contains(k));
            }
        }
    }
}

proof fn same_members_same_list(x: Seq<int>, y: Seq<int>)
    requires
        ascending(x),
        ascending(y),
        forall|k: int| x.contains(k) <==> y.contains(k),
    ensures
        x == y,
    decreases x.len(),
{
    if x.len() == 0 {
        if y.len() > 0 {
            assert(y.contains(y[0]));
            assert(x.contains(y[0]));
        }
        assert(x =~= y);
    } else {
        let a = x.last();
        assert(x[x.len() - 1] == a);
        assert(x.contains(a));
        assert(y.contains(a));
        assert(y.len() > 0);
        let b = y.last();
        assert(y[y.len() - 1] == b);
        assert(y.contains(b));
        assert(x.contains(b));
        let i = choose|i: int| 0 <= i < y.len() && y[i] == a;
        let j = choose|j: int| 0 <= j < x.len() && x[j] == b;
        assert(a <= b) by {
            if i < y.len() - 1 {
                assert(y[i] < y[y.len() - 1]);
            }
        }
        assert(b <= a) by {
            if j < x.len() - 1 {
                assert(x[j] < x[x.len() - 1]);
            }
        }
        let (front, other) = (x.drop_last(), y.drop_last());
        assert forall|k: int| front.contains(k) <==> other.contains(k) by {
            if front.contains(k) {
                let p = choose|p: int| 0 <= p < front.len() && front[p] == k;
                assert(x[p] == k);
                assert(x[p] < x[x.len() - 1]);
                assert(x.contains(k));
                let q = choose|q: int| 0 <= q < y.len() && y[q] == k;
                assert(other[q] == k);
            }
            if other.contains(k) {
                let p = choose|p: int| 0 <= p < other.len() && other[p] == k;
                assert(y[p] == k);
                assert(y[p] < y[y.len() - 1]);
                assert(y.contains(k));
                let q = choose|q: int| 0 <= q < x.len() && x[q] == k;
                assert(front[q] == k);
            }
        }
        same_members_same_list(front, other);
        assert(x =~= front.push(a));
        assert(y =~= other.push(b));
    }
}

/// Pages continue where the last one stopped: in either order, the list beyond
/// the last run of a page is the rest of the list. Nothing is shown twice and
/// nothing is left out.
pub proof fn pages_continue(
    items: Seq<RunItem>,
    starts: Seq<Instant>,
    filter: Filter,
    limit: int,
)
    requires
        in_order(items),
        1 <= limit <= listed(items, starts, filter).len(),
    ensures
        ({
            let list = listed(items, starts, filter);
            let next = Filter { cursor: Some(place_of(items[list[limit - 1]])), ..filter };
            listed(items, starts, next) == list.skip(limit)
        }),
{
    let found = matching(items, starts, filter);
    let n = found.len() as int;
    let at = if filter.descending {
        n - limit
    } else {
        limit - 1
    };
    let list = listed(items, starts, filter);
    assert(list[limit - 1] == found[at]);
    let stop = found[at];
    matching_facts(items, starts, filter);
    assert(found.contains(stop));
    assert(passes(items[stop], starts[stop], filter));
    let here = place_of(items[stop]);
    let next = Filter { cursor: Some(here), ..filter };
    matching_facts(items, starts, next);
    let rest = if filter.descending {
        found.take(at)
    } else {
        found.skip(limit)
    };
    assert forall|k: int| rest.contains(k) <==> matching(items, starts, next).contains(k) by {
        if rest.contains(k) {
            let p = choose|p: int| 0 <= p < rest.len() && rest[p] == k;
            let q = if filter.descending {
                p
            } else {
                p + limit
            };
            assert(found[q] == k);
            assert(found.contains(k));
            assert(passes(items[k], starts[k], filter));
            if filter.descending {
                assert(found[q] < found[at]);
                assert(place_before(place_of(items[k]), here));
            } else {
                assert(found[at] < found[q]);
                assert(place_before(here, place_of(items[k])));
            }
            assert(passes(items[k], starts[k], next));
        }
        if matching(items, starts, next).contains(k) {
            assert(passes(items[k], starts[k], next));
            let there = place_of(items[k]);
            match filter.cursor {
                Some(cursor) => {
                    place_order_is_strict(cursor, here, there);
                    place_order_is_strict(there, here, cursor);
                },
                None => {},
            }
            assert(passes(items[k], starts[k], filter));
            assert(found.contains(k));
            let q = choose|q: int| 0 <= q < found.len() && found[q] == k;
            if filter.descending {
                if q >= at {
                    if q > at {
                        assert(found[at] < found[q]);
                        assert(place_before(here, there));
                    }
                    place_order_is_strict(here, there, here);
                }
                assert(rest[q] == k);
            } else {
                if q <= at {
                    if q < at {
                        assert(found[q] < found[at]);
                        assert(place_before(there, here));
                    }
                    place_order_is_strict(here, there, here);
                }
                assert(rest[q - limit] == k);
            }
        }
    }
    assert(ascending(rest)) by {
        assert forall|i: int, j: int| 0 <= i < j < rest.len() implies #[trigger] rest[i]
            < #[trigger] rest[j] by {
            if !filter.descending {
                assert(found[i + limit] < found[j + limit]);
            } else {
                assert(found[i] < found[j]);
            }
        }
    }
    same_members_same_list(rest, matching(items, starts, next));
    if filter.descending {
        assert(found.take(at).reverse() =~= list.skip(limit));
    }
}

/// A cursor names the place it was made from; a start holds no separator.
pub proof fn cursors_round_trip(place: Place)
    requires
        !place.0.contains('|'),
    ensures
        cursor_place(place_cursor(place)) == Some(place),
{
    reveal_strlit("|");
    let cursor = place_cursor(place);
    let at = place.0.len() as int;
    assert(cursor[at] == '|');
    assert forall|j: int| 0 <= j < at implies cursor[j] != '|' by {
        assert(cursor[j] == place.0[j]);
        assert(place.0.contains(place.0[j]));
    }
    text::first_index_found(cursor, '|', at);
    assert(cursor.take(at) =~= place.0);
    assert(cursor.skip(at + 1) =~= place.1);
}

/// The runs of some pages, one page after the other.
pub open spec fn joined(pages: Seq<Page>) -> Seq<int>
    decreases pages.len(),
{
    if pages.len() == 0 {
        Seq::empty()
    } else {
        joined(pages.drop_last()) + position_views(pages.last().picked@)
    }
}

/// A reader fetched these pages of a fixed inventory with these queries: the
/// same filters, order and limit, the first without a cursor and each other
/// with the cursor of the page before it, until there was none.
pub open spec fn fetched(
    items: Seq<RunItem>,
    queries: Seq<RunListQuery>,
    since: Option<Instant>,
    limit: usize,
    pages: Seq<Page>,
) -> bool {
    &&& queries.len() == pages.len() >= 1
    &&& queries[0].cursor is None
    &&& forall|i: int|
        #![trigger queries[i]]
        0 <= i < queries.len() ==> {
            &&& queries[i].state.deep_view() == queries[0].state.deep_view()
            &&& queries[i].generator_id.deep_view() == queries[0].generator_id.deep_view()
            &&& queries[i].descending == queries[0].descending
        }
    &&& forall|i: int|
        #![trigger pages[i]]
        0 <= i < pages.len() ==> {
            &&& is_page(items, query_list(items, queries[i], since), limit, pages[i])
            &&& i + 1 < pages.len() ==> pages[i].next_cursor is Some
                && queries[i + 1].cursor.deep_view() == pages[i].next_cursor.deep_view()
        }
    &&& pages.last().next_cursor is None
}

proof fn queries_go_on(
    items: Seq<RunItem>,
    queries: Seq<RunListQuery>,
    since: Option<Instant>,
    limit: usize,
    pages: Seq<Page>,
    n: int,
)
    requires
        in_order(items),
        forall|i: int| 0 <= i < items.len() ==> !(#[trigger] items[i]).started_at@.contains('|'),
        limit >= 1,
        fetched(items, queries, since, limit, pages),
        0 <= n < pages.len(),
    ensures
        ({
            let list = query_list(items, queries[0], since);
            &&& n * limit <= list.len()
            &&& query_list(items, queries[n], since) == list.skip(n * limit)
            &&& joined(pages.take(n)) == list.take(n * limit)
        }),
    decreases n,
{
    let list = query_list(items, queries[0], since);
    if n == 0 {
        assert(0 * limit == 0) by (nonlinear_arith);
        assert(list.skip(0) =~= list);
        assert(joined(pages.take(0)) =~= list.take(0));
    } else {
        let m = n - 1;
        queries_go_on(items, queries, since, limit, pages, m);
        assert(n * limit == m * limit + limit) by (nonlinear_arith)
            requires
                n == m + 1,
        ;
        let starts = counted_starts(items, since);
        let (query, next) = (queries[m], queries[n]);
        let filter = query_filter(query, since);
        let here = query_list(items, query, since);
        let page = pages[m];
        assert(is_page(items, here, limit, page) && page.next_cursor is Some);
        pages_continue(items, starts, filter, limit as int);
        let stop = here[limit - 1];
        matching_facts(items, starts, filter);
        let found = matching(items, starts, filter);
        assert(found.contains(stop)) by {
            if filter.descending {
                assert(found[found.len() - limit] == stop);
            } else {
                assert(found[limit - 1] == stop);
            }
        }
        assert(passes(items[stop], starts[stop], filter));
        let place = place_of(items[stop]);
        cursors_round_trip(place);
        assert(query_cursor(next) == Some(Some(place)));
        assert(query_filter(next, since) == Filter { cursor: Some(place), ..filter });
        assert(here.skip(limit as int) =~= list.skip(n * limit));
        assert(pages.take(n).drop_last() =~= pages.take(m));
        assert(list.take(m * limit) + here.take(limit as int) =~= list.take(n * limit));
    }
}

/// All pages together are the list: every run that the filters let through,
/// each once, in the order of the list. No page has more runs than the limit,
/// and a page names a next one exactly where runs of the list remain after it.
pub proof fn pages_cover_the_list(
    items: Seq<RunItem>,
    queries: Seq<RunListQuery>,
    since: Option<Instant>,
    limit: usize,
    pages: Seq<Page>,
)
    requires
        in_order(items),
        forall|i: int| 0 <= i < items.len() ==> !(#[trigger] items[i]).started_at@.contains('|'),
        limit >= 1,
        fetched(items, queries, since, limit, pages),
    ensures
        ({
            let starts = counted_starts(items, since);
            let filter = filter_of(queries[0], since, None);
            &&& joined(pages) == listed(items, starts, filter)
            &&& ascending(
                if queries[0].descending {
                    joined(pages).reverse()
                } else {
                    joined(pages)
                },
            )
            &&& forall|k: int|
                joined(pages).contains(k) <==> 0 <= k < items.len() && #[trigger] passes(
                    items[k],
                    starts[k],
                    filter,
                )
        }),
        forall|i: int|
            #![trigger pages[i]]
            0 <= i < pages.len() ==> pages[i].picked@.len() <= limit && (pages[i].next_cursor is Some
                <==> joined(pages.take(i + 1)).len() < joined(pages).len()),
{
    let n = pages.len() - 1;
    let starts = counted_starts(items, since);
    let filter = filter_of(queries[0], since, None);
    let list = listed(items, starts, filter);
    let found = matching(items, starts, filter);
    assert(query_filter(queries[0], since) == filter);
    queries_go_on(items, queries, since, limit, pages, n);
    assert(pages[n] == pages.last());
    assert(pages.take(n) =~= pages.drop_last());
    assert(is_page(items, list.skip(n * limit), limit, pages[n]));
    assert(list.take(n * limit) + list.skip(n * limit) =~= list);
    assert(joined(pages) == list);
    matching_facts(items, starts, filter);
    matching_is_in_range(items, starts, filter);
    if filter.descending {
        assert(list.reverse() =~= found);
        assert forall|k: int| list.contains(k) <==> found.contains(k) by {
            if list.contains(k) {
                let i = choose|i: int| 0 <= i < list.len() && list[i] == k;
                assert(found[found.len() - 1 - i] == k);
            }
            if found.contains(k) {
                let i = choose|i: int| 0 <= i < found.len() && found[i] == k;
                assert(list[found.len() - 1 - i] == k);
            }
        }
    }
    assert forall|k: int|
        joined(pages).contains(k) <==> 0 <= k < items.len() && #[trigger] passes(
            items[k],
            starts[k],
            filter,
        ) by {
        if found.contains(k) {
            let i = choose|i: int| 0 <= i < found.len() && found[i] == k;
            assert(0 <= found[i] < items.len());
            assert(passes(items[k], starts[k], filter));
        }
        assert(list.contains(k) <==> found.contains(k));
    }
    assert forall|i: int| #![trigger pages[i]] 0 <= i < pages.len() implies pages[i].picked@.len()
        <= limit && (pages[i].next_cursor is Some <==> joined(pages.take(i + 1)).len() < joined(
        pages,
    ).len()) by {
        queries_go_on(items, queries, since, limit, pages, i);
        let here = list.skip(i * limit);
        assert(is_page(items, here, limit, pages[i]));
        assert(position_views(pages[i].picked@).len() == pages[i].picked@.len());
        assert(pages.take(i + 1).drop_last() =~= pages.take(i));
        assert(pages.take(i + 1).last() == pages[i]);
    }
}

} // verus!
