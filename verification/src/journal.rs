//! The journal view of a run: two streams of records, one JSON document per
//! line, interleaved by their shared numbering.
use vstd::prelude::*;
use vstd::string::*;
use crate::auth;
use crate::error;
use crate::error::{ApiError, ApiHttpError};
use crate::etag;
use crate::etag::{Head, Reply};
use crate::exporter;
use crate::json;
use crate::order;
use crate::order::Key;

verus! {

/// The byte that ends a line.
pub const NEWLINE: u8 = 10;

/// The media type of the journal view.
pub open spec fn journal_type() -> Seq<char> {
    "application/x-ndjson"@
}

/// A record: its number, and its line as it was written.
#[derive(Debug)]
pub struct Record {
    pub seq: u64,
    pub line: Vec<u8>,
}

/// The same, as values.
pub struct RecordModel {
    pub seq: u64,
    pub line: Seq<u8>,
}

impl View for Record {
    type V = RecordModel;

    open spec fn view(&self) -> RecordModel {
        RecordModel { seq: self.seq, line: self.line@ }
    }
}

/// The records, as values.
pub open spec fn record_views(records: Seq<Record>) -> Seq<RecordModel> {
    records.map_values(|r: Record| r@)
}

/// The lines of a stream, each with the newline that ends it.
pub open spec fn lines(bytes: Seq<u8>) -> Seq<Seq<u8>>
    decreases bytes.len(),
{
    if bytes.len() == 0 {
        Seq::empty()
    } else {
        let front = lines(bytes.drop_last());
        if bytes.len() == 1 || bytes[bytes.len() - 2] == NEWLINE {
            front.push(seq![bytes.last()])
        } else {
            front.drop_last().push(front.last().push(bytes.last()))
        }
    }
}

/// The records that some lines hold; blank lines hold none, and a line without
/// a number is an error.
pub open spec fn records_of(lines: Seq<Seq<u8>>) -> Result<Seq<RecordModel>, ()>
    decreases lines.len(),
{
    if lines.len() == 0 {
        Ok(Seq::empty())
    } else {
        let line = lines.last();
        match records_of(lines.drop_last()) {
            Err(()) => Err(()),
            Ok(front) => if exporter::is_blank(line) {
                Ok(front)
            } else {
                match json::as_unsigned(json::json_at(line, "/seq"@)) {
                    Some(seq) => Ok(front.push(RecordModel { seq, line })),
                    None => Err(()),
                }
            },
        }
    }
}

/// The records of a stream.
pub open spec fn records_in(stream: Seq<u8>) -> Result<Seq<RecordModel>, ()> {
    records_of(lines(stream))
}

/// Some lines, as values.
pub open spec fn line_views(lines: Seq<Vec<u8>>) -> Seq<Seq<u8>> {
    lines.map_values(|l: Vec<u8>| l@)
}

fn lines_of(bytes: &[u8]) -> (r: Vec<Vec<u8>>)
    ensures
        line_views(r@) == lines(bytes@),
{
    let mut done: Vec<Vec<u8>> = Vec::new();
    let mut open: Vec<u8> = Vec::new();
    let mut i: usize = 0;
    assert(bytes@.take(0) =~= Seq::<u8>::empty());
    assert(line_views(done@) =~= Seq::<Seq<u8>>::empty());
    while i < bytes.len()
        invariant
            i <= bytes@.len(),
            open@.len() == 0 <==> (i == 0 || bytes@[i - 1] == NEWLINE),
            lines(bytes@.take(i as int)) == if open@.len() == 0 {
                line_views(done@)
            } else {
                line_views(done@).push(open@)
            },
        decreases bytes.len() - i,
    {
        let ghost here = bytes@.take(i as int);
        let ghost next = bytes@.take(i + 1);
        let ghost start = open@;
        let ghost kept = line_views(done@);
        assert(next.drop_last() =~= here);
        assert(next.last() == bytes@[i as int]);
        assert(i > 0 ==> next[next.len() - 2] == bytes@[i - 1]);
        let b: u8 = bytes[i];
        open.push(b);
        proof {
            if start.len() == 0 {
                assert(open@ =~= seq![b]);
            } else {
                assert(kept.push(start).drop_last() =~= kept);
            }
            assert(lines(next) == kept.push(open@));
        }
        if b == NEWLINE {
            let ghost full = open@;
            done.push(open);
            open = Vec::new();
            assert(line_views(done@) =~= kept.push(full));
        }
        i += 1;
    }
    assert(bytes@.take(bytes@.len() as int) =~= bytes@);
    if open.len() > 0 {
        let ghost kept = line_views(done@);
        let ghost full = open@;
        done.push(open);
        assert(line_views(done@) =~= kept.push(full));
    }
    done
}

proof fn a_bad_line_is_final(lines: Seq<Seq<u8>>, n: int)
    requires
        0 <= n <= lines.len(),
        records_of(lines.take(n)) is Err,
    ensures
        records_of(lines) is Err,
    decreases lines.len() - n,
{
    if n < lines.len() {
        assert(lines.take(n + 1).drop_last() =~= lines.take(n));
        a_bad_line_is_final(lines, n + 1);
    } else {
        assert(lines.take(n) =~= lines);
    }
}

/// Reads the records of a stream.
pub fn decode(stream: &[u8]) -> (r: Result<Vec<Record>, ()>)
    ensures
        match r {
            Ok(records) => records_in(stream@) == Ok::<_, ()>(record_views(records@)),
            Err(()) => records_in(stream@) is Err,
        },
{
    let all = lines_of(stream);
    let ghost views = line_views(all@);
    let mut records: Vec<Record> = Vec::new();
    let mut i: usize = 0;
    assert(views.take(0) =~= Seq::<Seq<u8>>::empty());
    assert(record_views(records@) =~= Seq::<RecordModel>::empty());
    #[verifier::loop_isolation(false)]
    while i < all.len()
        invariant
            i <= all@.len(),
            records_of(views.take(i as int)) == Ok::<_, ()>(record_views(records@)),
        decreases all.len() - i,
    {
        let line = &all[i];
        let ghost next = views.take(i + 1);
        assert(next.drop_last() =~= views.take(i as int));
        assert(next.last() == line@);
        if !exporter::blank(line.as_slice()) {
            match json::unsigned_of(json::lookup(line.as_slice(), "/seq")) {
                Some(seq) => {
                    let ghost before = record_views(records@);
                    let record = Record { seq, line: line.clone() };
                    assert(record.line@ =~= line@);
                    let ghost read = record@;
                    records.push(record);
                    assert(record_views(records@) =~= before.push(read));
                },
                None => {
                    proof {
                        a_bad_line_is_final(views, i + 1);
                    }
                    return Err(());
                },
            }
        }
        i += 1;
    }
    assert(views.take(views.len() as int) =~= views);
    Ok(records)
}

/// The sort keys of some records: their numbers, ties by place.
pub open spec fn keys_of(records: Seq<RecordModel>) -> Seq<Key> {
    Seq::new(records.len(), |i: int| (records[i].seq, i as usize))
}

/// A line with a newline at its end.
pub open spec fn terminated(line: Seq<u8>) -> Seq<u8> {
    if line.len() > 0 && line.last() == NEWLINE {
        line
    } else {
        line.push(NEWLINE)
    }
}

/// The lines of the records that some keys name, one after the other.
pub open spec fn rendered(records: Seq<RecordModel>, keys: Seq<Key>) -> Seq<u8>
    decreases keys.len(),
{
    if keys.len() == 0 {
        Seq::empty()
    } else {
        rendered(records, keys.drop_last()) + terminated(records[keys.last().1 as int].line)
    }
}

/// `bytes` holds the lines of all records, by number, and where numbers are
/// equal in their given order.
pub open spec fn is_merge(records: Seq<RecordModel>, bytes: Seq<u8>) -> bool {
    exists|keys: Seq<Key>|
        #[trigger] order::is_key_arrangement(keys_of(records), keys) && bytes == rendered(records, keys)
}

proof fn arranged_keys_are_places(records: Seq<RecordModel>, keys: Seq<Key>)
    requires
        keys.to_multiset() == keys_of(records).to_multiset(),
        records.len() <= usize::MAX,
    ensures
        forall|i: int| 0 <= i < keys.len() ==> (#[trigger] keys[i]).1 < records.len(),
{
    broadcast use vstd::seq_lib::group_to_multiset_ensures;

    assert forall|i: int| 0 <= i < keys.len() implies (#[trigger] keys[i]).1 < records.len() by {
        assert(keys.contains(keys[i]));
        assert(keys.to_multiset().count(keys[i]) > 0);
        assert(keys_of(records).contains(keys[i]));
        let j = choose|j: int| 0 <= j < keys_of(records).len() && keys_of(records)[j] == keys[i];
        assert(keys_of(records)[j] == (records[j].seq, j as usize));
    }
}

fn push_all(out: &mut Vec<u8>, bytes: &Vec<u8>)
    ensures
        final(out)@ == old(out)@ + bytes@,
{
    let ghost start = out@;
    let mut i: usize = 0;
    assert(start + bytes@.take(0) =~= start);
    while i < bytes.len()
        invariant
            i <= bytes@.len(),
            out@ == start + bytes@.take(i as int),
        decreases bytes.len() - i,
    {
        out.push(bytes[i]);
        i += 1;
        assert(start + bytes@.take(i as int) =~= (start + bytes@.take(i - 1)).push(bytes@[i - 1]));
    }
    assert(bytes@.take(i as int) =~= bytes@);
}

/// Interleaves records by number; records of the same number keep their order.
pub fn merge_records(records: &Vec<Record>) -> (r: Vec<u8>)
    ensures
        is_merge(record_views(records@), r@),
{
    let ghost views = record_views(records@);
    let mut keys: Vec<Key> = Vec::new();
    let mut i: usize = 0;
    while i < records.len()
        invariant
            i <= records@.len(),
            views == record_views(records@),
            keys@.len() == i,
            forall|j: int| 0 <= j < i ==> #[trigger] keys@[j] == (views[j].seq, j as usize),
        decreases records.len() - i,
    {
        keys.push((records[i].seq, i));
        i += 1;
    }
    assert(keys@ =~= keys_of(views));
    let sorted = order::sort_keys(&keys);
    proof {
        arranged_keys_are_places(views, sorted@);
    }
    let mut out: Vec<u8> = Vec::new();
    let mut k: usize = 0;
    assert(sorted@.take(0) =~= Seq::<Key>::empty());
    while k < sorted.len()
        invariant
            k <= sorted@.len(),
            views == record_views(records@),
            forall|j: int| 0 <= j < sorted@.len() ==> (#[trigger] sorted@[j]).1 < records@.len(),
            out@ == rendered(views, sorted@.take(k as int)),
        decreases sorted.len() - k,
    {
        assert(sorted@.take(k + 1).drop_last() =~= sorted@.take(k as int));
        assert(sorted@.take(k + 1).last() == sorted@[k as int]);
        let line = &records[sorted[k].1].line;
        let ghost before = out@;
        push_all(&mut out, line);
        if line.len() == 0 || line[line.len() - 1] != NEWLINE {
            out.push(NEWLINE);
            assert(out@ =~= before + line@.push(NEWLINE));
        }
        assert(views[sorted@[k as int].1 as int].line == line@);
        k += 1;
    }
    assert(sorted@.take(sorted@.len() as int) =~= sorted@);
    out
}

/// Interleaves the durable and the observed records of a run by number. A line
/// that carries no number fails the whole view: it never hides corruption.
pub fn merge_record_streams(durable: &[u8], observed: &[u8]) -> (r: Result<Vec<u8>, ApiHttpError>)
    ensures
        match (records_in(durable@), records_in(observed@)) {
            (Ok(first), Ok(second)) => r matches Ok(bytes) && is_merge(first + second, bytes@),
            _ => r matches Err(refusal) && refusal@ == error::internal_problem(
                "journal line carries no seq"@,
            ),
        },
{
    let mut all = match decode(durable) {
        Ok(records) => records,
        Err(()) => {
            return Err(ApiHttpError::internal("journal line carries no seq".to_owned()));
        },
    };
    let mut rest = match decode(observed) {
        Ok(records) => records,
        Err(()) => {
            return Err(ApiHttpError::internal("journal line carries no seq".to_owned()));
        },
    };
    let ghost first = record_views(all@);
    let ghost second = record_views(rest@);
    all.append(&mut rest);
    assert(record_views(all@) =~= first + second);
    Ok(merge_records(&all))
}

/// How many bytes of a bounded journal are read: one more than the bound, which
/// shows that it is exceeded.
pub fn journal_read_bound(limit: usize) -> (r: u64)
    ensures
        r == (if limit < usize::MAX {
            limit + 1
        } else {
            usize::MAX as int
        }),
{
    if limit < usize::MAX {
        (limit + 1) as u64
    } else {
        usize::MAX as u64
    }
}

/// How a journal is delivered.
#[derive(Debug, Clone, Copy, PartialEq, Eq, Structural)]
pub enum JournalDelivery {
    /// It is read whole before it is answered, at most `most` bytes of it where
    /// there is a bound.
    Whole { most: Option<u64> },
    /// It is streamed as it is.
    Streamed,
}

/// How a journal is delivered, and how much of it is read: one byte more than
/// its bound, which shows that it is exceeded.
pub open spec fn delivered(has_observed: bool, limit: Option<usize>) -> JournalDelivery {
    match limit {
        Some(limit) => JournalDelivery::Whole {
            most: Some(
                (if limit < usize::MAX {
                    limit + 1
                } else {
                    usize::MAX as int
                }) as u64,
            ),
        },
        None => if has_observed {
            JournalDelivery::Whole { most: None }
        } else {
            JournalDelivery::Streamed
        },
    }
}

/// Decides how a journal is delivered: what has to be interleaved with observed
/// records, or held to a bound, is read whole, and everything else is streamed.
pub fn journal_delivery(has_observed: bool, limit: Option<usize>) -> (r: JournalDelivery)
    ensures
        r == delivered(has_observed, limit),
        r is Streamed <==> !has_observed && limit is None,
        r matches JournalDelivery::Whole { most } ==> match (most, limit) {
            (None, None) => true,
            (Some(most), Some(limit)) => most == (if limit < usize::MAX {
                limit + 1
            } else {
                usize::MAX as int
            }),
            _ => false,
        },
{
    match limit {
        Some(limit) => JournalDelivery::Whole { most: Some(journal_read_bound(limit)) },
        None => {
            if has_observed {
                JournalDelivery::Whole { most: None }
            } else {
                JournalDelivery::Streamed
            }
        },
    }
}

/// Refuses a journal that exceeds its bound.
pub fn check_journal_size(actual: usize, limit: Option<usize>) -> (r: Result<(), ApiHttpError>)
    ensures
        r is Err <==> (limit matches Some(max) && actual > max),
        r matches Err(refusal) ==> refusal@ == error::api_problem(
            ApiError::TooLarge { limit_bytes: limit->0 as u64, actual_bytes: actual as u64 },
        ),
{
    if let Some(max) = limit {
        if actual > max {
            return Err(
                ApiHttpError::from_api(
                    ApiError::TooLarge { limit_bytes: max as u64, actual_bytes: actual as u64 },
                ),
            );
        }
    }
    Ok(())
}

/// Serves a journal that was read whole: with an observed stream the two are
/// interleaved, and a bound on the durable one is enforced first.
pub fn read_journal(
    value: Option<&[u8]>,
    durable: Vec<u8>,
    observed: Option<Vec<u8>>,
    limit: Option<usize>,
) -> (r: Result<Reply, ApiHttpError>)
    ensures
        (limit matches Some(max) && durable@.len() > max) ==> (r matches Err(refusal) && refusal@
            == error::api_problem(
            ApiError::TooLarge {
                limit_bytes: limit->0 as u64,
                actual_bytes: durable@.len() as u64,
            },
        )),
        !(limit matches Some(max) && durable@.len() > max) && observed is None ==> serves(
            auth::bytes_view(value),
            durable@,
            r,
        ),
        !(limit matches Some(max) && durable@.len() > max) && observed is Some ==> match (
            records_in(durable@),
            records_in(observed->0@),
        ) {
            (Ok(first), Ok(second)) => exists|bytes: Seq<u8>|
                #[trigger] is_merge(first + second, bytes) && serves(
                    auth::bytes_view(value),
                    bytes,
                    r,
                ),
            _ => r matches Err(refusal) && refusal@ == error::internal_problem(
                "journal line carries no seq"@,
            ),
        },
{
    match check_journal_size(durable.len(), limit) {
        Ok(()) => {},
        Err(refusal) => {
            return Err(refusal);
        },
    }
    match observed {
        None => etag::conditional_response(value, durable, "application/x-ndjson"),
        Some(observed) => match merge_record_streams(durable.as_slice(), observed.as_slice()) {
            Ok(merged) => etag::conditional_response(value, merged, "application/x-ndjson"),
            Err(refusal) => Err(refusal),
        },
    }
}

/// The answer to a conditional read of the journal bytes.
pub open spec fn serves(
    value: Option<Seq<u8>>,
    bytes: Seq<u8>,
    r: Result<Reply, ApiHttpError>,
) -> bool {
    match etag::condition_of(value) {
        Ok(condition) => r matches Ok(reply) && reply@ == etag::conditional_reply(
            condition,
            bytes,
            journal_type(),
            etag::body_tag(bytes),
        ),
        Err(detail) => r matches Err(refusal) && refusal@ == error::bad_request_problem(detail),
    }
}

/// Decides a conditional read of a journal that is streamed: its validator is
/// its size and the time of its last change, both taken when it was opened.
pub fn begin_journal_stream(value: Option<&[u8]>, size: u64, changed_nanos: u128) -> (r: Result<
    Head,
    ApiHttpError,
>)
    ensures
        match etag::condition_of(auth::bytes_view(value)) {
            Ok(condition) => r matches Ok(head) && head@ == etag::conditional_head(
                condition,
                journal_type(),
                etag::revision_tag(size, changed_nanos),
            ),
            Err(detail) => r matches Err(refusal) && refusal@ == error::bad_request_problem(detail),
        },
{
    let revision = etag::revision_etag(size, changed_nanos);
    etag::conditional_read(value, "application/x-ndjson", &revision)
}

/// Records have one interleaving: what a reader sees depends on the records
/// alone.
pub proof fn a_merge_is_unique(records: Seq<RecordModel>, x: Seq<u8>, y: Seq<u8>)
    requires
        is_merge(records, x),
        is_merge(records, y),
    ensures
        x == y,
{
    order::key_order_is_total();
    let leq = |a: Key, b: Key| order::key_leq(a, b);
    let first = choose|keys: Seq<Key>|
        #[trigger] order::is_key_arrangement(keys_of(records), keys) && x == rendered(
            records,
            keys,
        );
    let second = choose|keys: Seq<Key>|
        #[trigger] order::is_key_arrangement(keys_of(records), keys) && y == rendered(
            records,
            keys,
        );
    order::an_arrangement_is_unique(keys_of(records), first, second, leq);
}

/// Records that come in the order of their numbers are rendered as they come.
pub proof fn an_ordered_stream_stays_as_it_is(records: Seq<RecordModel>, bytes: Seq<u8>)
    requires
        records.len() <= usize::MAX,
        forall|i: int, j: int|
            0 <= i < j < records.len() ==> (#[trigger] records[i]).seq <= (#[trigger] records[j]).seq,
        is_merge(records, bytes),
    ensures
        bytes == rendered(records, keys_of(records)),
{
    let leq = |a: Key, b: Key| order::key_leq(a, b);
    let keys = keys_of(records);
    assert forall|i: int, j: int| 0 <= i < j < keys.len() implies #[trigger] leq(
        keys[i],
        keys[j],
    ) by {
        assert(records[i].seq <= records[j].seq);
    }
    assert(order::is_key_arrangement(keys, keys));
    a_merge_is_unique(records, bytes, rendered(records, keys));
}

} // verus!
