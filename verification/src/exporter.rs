//! The export loop's bookkeeping: which records of a run are still to be
//! exported, how far the collector has taken them, and what its reply says.
use vstd::prelude::*;
use vstd::string::*;
use crate::json;
use crate::json::{Json, JsonModel};
use crate::table::TextTable;
use crate::text;

verus! {

/// How many completed runs are remembered before the memory is dropped.
pub const MAX_COMPLETED_RUNS: usize = 4096;

/// How far the export of each run has come.
pub struct ExportProgress {
    cursors: TextTable<u64>,
    completed: TextTable<()>,
}

/// What a tick does with one run.
#[derive(Debug)]
pub enum ExportStep {
    /// Every record of the run was exported, or there is nothing new.
    Skip,
    /// The records at these positions are exported; `max_seq` is the highest
    /// sequence number among them.
    Export { batch: Vec<usize>, max_seq: u64 },
}

/// A record is new when its sequence number is past the cursor; a record
/// without one counts as zero.
pub open spec fn is_new(seq: Option<u64>, cursor: u64) -> bool {
    seq is Some && seq->0 > cursor
}

impl ExportProgress {
    pub closed spec fn wf(self) -> bool {
        self.cursors.wf() && self.completed.wf()
    }

    /// The sequence number up to which a run's records were taken.
    pub closed spec fn cursor(self, run_id: Seq<char>) -> u64 {
        if self.cursors@.contains_key(run_id) {
            self.cursors@[run_id]
        } else {
            0
        }
    }

    /// The run has ended and all of its records were taken.
    pub closed spec fn is_completed(self, run_id: Seq<char>) -> bool {
        self.completed@.contains_key(run_id)
    }

    /// How many runs are remembered as completed.
    pub open spec fn completed_count(self) -> nat {
        Set::new(|run_id: Seq<char>| self.is_completed(run_id)).len()
    }

    proof fn completed_runs_are_the_keys(self)
        ensures
            self.completed_count() == self.completed@.len(),
    {
        assert(Set::new(|run_id: Seq<char>| self.is_completed(run_id)) =~= self.completed@.dom());
    }

    pub fn new() -> (r: Self)
        ensures
            r.wf(),
            r.completed_count() == 0,
            forall|run_id: Seq<char>| #[trigger] r.cursor(run_id) == 0,
            forall|run_id: Seq<char>| !#[trigger] r.is_completed(run_id),
    {
        let r = ExportProgress { cursors: TextTable::new(), completed: TextTable::new() };
        proof {
            r.completed_runs_are_the_keys();
        }
        r
    }

    /// Whether a run needs no look at its records.
    pub fn skips(&self, run_id: &str) -> (r: bool)
        requires
            self.wf(),
        ensures
            r == self.is_completed(run_id@),
    {
        self.completed.get(run_id).is_some()
    }

    /// Plans the export of a run whose records have these sequence numbers. A
    /// run that has ended and has nothing new is completed.
    pub fn plan(&mut self, run_id: &String, terminal: bool, seqs: &Vec<Option<u64>>) -> (r:
        ExportStep)
        requires
            old(self).wf(),
        ensures
            final(self).wf(),
            forall|run: Seq<char>| #[trigger] final(self).cursor(run) == old(self).cursor(run),
            ({
                let cursor = old(self).cursor(run_id@);
                let nothing_new = forall|i: int|
                    0 <= i < seqs@.len() ==> !is_new(#[trigger] seqs@[i], cursor);
                &&& r is Skip <==> nothing_new
                &&& forall|run: Seq<char>| #[trigger]
                    final(self).is_completed(run) <==> old(self).is_completed(run) || (run
                        == run_id@ && nothing_new && terminal)
                &&& r matches ExportStep::Export { batch, max_seq } ==> {
                    &&& forall|j: int|
                        0 <= j < batch@.len() ==> (#[trigger] batch@[j]) < seqs@.len() && is_new(
                            seqs@[batch@[j] as int],
                            cursor,
                        ) && seqs@[batch@[j] as int]->0 <= max_seq
                    &&& forall|i: int|
                        0 <= i < seqs@.len() && is_new(#[trigger] seqs@[i], cursor)
                            ==> batch@.contains(i as usize)
                    &&& forall|a: int, b: int|
                        #![trigger batch@[a], batch@[b]]
                        0 <= a < b < batch@.len() ==> batch@[a] < batch@[b]
                    &&& exists|j: int|
                        0 <= j < batch@.len() && seqs@[(#[trigger] batch@[j]) as int] == Some(
                            max_seq,
                        )
                }
            }),
    {
        let cursor: u64 = match self.cursors.get(run_id.as_str()) {
            Some(at) => *at,
            None => 0,
        };
        let mut batch: Vec<usize> = Vec::new();
        let mut max_seq: u64 = cursor;
        let mut i: usize = 0;
        while i < seqs.len()
            invariant
                i <= seqs@.len(),
                max_seq >= cursor,
                batch@.len() == 0 ==> max_seq == cursor,
                forall|j: int|
                    0 <= j < batch@.len() ==> (#[trigger] batch@[j]) < i && is_new(
                        seqs@[batch@[j] as int],
                        cursor,
                    ) && seqs@[batch@[j] as int]->0 <= max_seq,
                forall|k: int|
                    0 <= k < i && is_new(#[trigger] seqs@[k], cursor) ==> batch@.contains(
                        k as usize,
                    ),
                forall|a: int, b: int|
                    #![trigger batch@[a], batch@[b]]
                    0 <= a < b < batch@.len() ==> batch@[a] < batch@[b],
                batch@.len() > 0 ==> exists|j: int|
                    0 <= j < batch@.len() && seqs@[(#[trigger] batch@[j]) as int] == Some(max_seq),
            decreases seqs.len() - i,
        {
            if let Some(seq) = seqs[i] {
                if seq > cursor {
                    let ghost before = batch@;
                    let ghost top = max_seq;
                    batch.push(i);
                    if seq > max_seq {
                        max_seq = seq;
                    }
                    proof {
                        let n = before.len() as int;
                        assert(batch@[n] == i);
                        assert forall|u: usize| #[trigger]
                            before.contains(u) implies batch@.contains(u) by {
                            let m = choose|m: int| 0 <= m < before.len() && before[m] == u;
                            assert(batch@[m] == u);
                        }
                        assert(batch@.contains(i));
                        if max_seq == seq {
                            assert(seqs@[batch@[n] as int] == Some(max_seq));
                        } else {
                            let j = choose|j: int|
                                0 <= j < before.len() && seqs@[(#[trigger] before[j]) as int]
                                    == Some(top);
                            assert(batch@[j] == before[j]);
                        }
                    }
                }
            }
            i += 1;
        }
        if batch.len() == 0 {
            proof {
                assert forall|k: int| 0 <= k < seqs@.len() implies !is_new(
                    #[trigger] seqs@[k],
                    cursor,
                ) by {
                    if is_new(seqs@[k], cursor) {
                        assert(batch@.contains(k as usize));
                    }
                }
            }
            if terminal {
                self.completed.insert(run_id, ());
            }
            return ExportStep::Skip;
        }
        assert(is_new(seqs@[batch@[0] as int], cursor));
        ExportStep::Export { batch, max_seq }
    }

    /// Notes what became of a batch. Where the collector took it, the run's
    /// cursor moves to its highest sequence number, and a run that has ended is
    /// completed; where it did not, nothing changes, and the batch is planned
    /// again.
    pub fn exported(&mut self, run_id: &String, terminal: bool, max_seq: u64, taken: bool)
        requires
            old(self).wf(),
        ensures
            final(self).wf(),
            !taken ==> *final(self) == *old(self),
            taken ==> final(self).cursor(run_id@) == max_seq,
            forall|run: Seq<char>|
                run != run_id@ ==> #[trigger] final(self).cursor(run) == old(self).cursor(run),
            forall|run: Seq<char>| #[trigger]
                final(self).is_completed(run) <==> old(self).is_completed(run) || (taken && run
                    == run_id@ && terminal),
    {
        if !taken {
            return;
        }
        self.cursors.insert(run_id, max_seq);
        if terminal {
            self.completed.insert(run_id, ());
        }
    }

    /// Ends a tick: beyond its bound the memory of completed runs is dropped,
    /// which costs another look at their records but exports nothing twice,
    /// because the cursors stay.
    pub fn end_tick(&mut self)
        requires
            old(self).wf(),
        ensures
            final(self).wf(),
            forall|run: Seq<char>| #[trigger] final(self).cursor(run) == old(self).cursor(run),
            final(self).completed_count() <= MAX_COMPLETED_RUNS,
            old(self).completed_count() <= MAX_COMPLETED_RUNS ==> *final(self) == *old(self),
            old(self).completed_count() > MAX_COMPLETED_RUNS ==> forall|run: Seq<char>|
                !#[trigger] final(self).is_completed(run),
    {
        proof {
            self.completed.positions_cover_the_map();
            self.completed_runs_are_the_keys();
        }
        if self.completed.len() > MAX_COMPLETED_RUNS {
            self.completed.clear();
        }
        proof {
            self.completed_runs_are_the_keys();
        }
    }
}

/// What a collector reported of a batch that it took.
#[derive(Debug)]
pub struct ExportOutcome {
    pub rejected_spans: i64,
    pub rejected_log_records: i64,
    pub error_message: String,
}

/// The fields of a collector's reply.
#[derive(Debug)]
pub struct CollectorReply {
    pub rejected_spans: Option<Json>,
    pub error_message: Option<Json>,
    pub rejected_log_records: Option<Json>,
}

/// A count that a reply reports as a number or, where `or_text`, as a text;
/// anything else, and anything negative, is zero.
pub open spec fn reported_count(value: Option<JsonModel>, or_text: bool) -> int {
    let count = match value {
        Some(JsonModel::Number { signed, .. }) => match signed {
            Some(n) => n as int,
            None => 0,
        },
        Some(JsonModel::Text(text)) => if or_text && text::signed_value(text) is Some {
            text::signed_value(text)->0
        } else {
            0
        },
        _ => 0,
    };
    if count < 0 {
        0
    } else {
        count
    }
}

fn count_of(value: &Option<Json>, or_text: bool) -> (r: i64)
    ensures
        r == reported_count(json::json_view(*value), or_text),
{
    let count: i64 = match value {
        Some(Json::Number { signed, .. }) => match signed {
            Some(n) => *n,
            None => 0,
        },
        Some(Json::Text(digits)) => {
            if or_text {
                match text::parse_signed(digits.as_str()) {
                    Some(n) => n,
                    None => 0,
                }
            } else {
                0
            }
        },
        _ => 0,
    };
    if count < 0 {
        0
    } else {
        count
    }
}

/// What a collector's reply says of the batch.
pub fn outcome_of(reply: CollectorReply) -> (r: ExportOutcome)
    ensures
        r.rejected_spans == reported_count(json::json_view(reply.rejected_spans), true),
        r.rejected_log_records == reported_count(
            json::json_view(reply.rejected_log_records),
            false,
        ),
        r.error_message@ == (match json::as_text(json::json_view(reply.error_message)) {
            Some(message) => message,
            None => ""@,
        }),
{
    let rejected_spans: i64 = count_of(&reply.rejected_spans, true);
    let rejected_log_records: i64 = count_of(&reply.rejected_log_records, false);
    let error_message = match json::text_of(reply.error_message) {
        Some(message) => message,
        None => "".to_owned(),
    };
    ExportOutcome { rejected_spans, rejected_log_records, error_message }
}

/// The value at the first of two pointers that leads to one.
pub open spec fn either_at(document: Seq<u8>, first: Seq<char>, second: Seq<char>) -> Option<
    JsonModel,
> {
    if json::json_at(document, first) is Some {
        json::json_at(document, first)
    } else {
        json::json_at(document, second)
    }
}

fn lookup_either(document: &[u8], first: &str, second: &str) -> (r: Option<Json>)
    ensures
        json::json_view(r) == either_at(document@, first@, second@),
{
    match json::lookup(document, first) {
        Some(value) => Some(value),
        None => json::lookup(document, second),
    }
}

/// Only white space, or nothing at all.
pub open spec fn is_blank(body: Seq<u8>) -> bool {
    forall|i: int| 0 <= i < body.len() ==> ascii_space(#[trigger] body[i])
}

/// An ASCII white space byte: tab, line feed, form feed, carriage return or
/// space.
pub open spec fn ascii_space(b: u8) -> bool {
    b == 9 || b == 10 || b == 12 || b == 13 || b == 32
}

/// Whether there is only white space.
pub fn blank(body: &[u8]) -> (r: bool)
    ensures
        r == is_blank(body@),
{
    let mut i: usize = 0;
    while i < body.len()
        invariant
            i <= body@.len(),
            forall|j: int| 0 <= j < i ==> ascii_space(#[trigger] body@[j]),
        decreases body.len() - i,
    {
        let b: u8 = body[i];
        if b != 9 && b != 10 && b != 12 && b != 13 && b != 32 {
            return false;
        }
        i += 1;
    }
    true
}

/// The rejected spans of a reply, under either spelling of its keys.
pub open spec fn reply_spans(body: Seq<u8>) -> Option<JsonModel> {
    if json::json_at(body, "/partialSuccess"@) is Some {
        either_at(body, "/partialSuccess/rejectedSpans"@, "/partialSuccess/rejected_spans"@)
    } else {
        either_at(body, "/partial_success/rejectedSpans"@, "/partial_success/rejected_spans"@)
    }
}

/// The message of a reply, under either spelling of its keys.
pub open spec fn reply_message(body: Seq<u8>) -> Option<JsonModel> {
    if json::json_at(body, "/partialSuccess"@) is Some {
        either_at(body, "/partialSuccess/errorMessage"@, "/partialSuccess/error_message"@)
    } else {
        either_at(body, "/partial_success/errorMessage"@, "/partial_success/error_message"@)
    }
}

/// The rejected log records of a reply, under either spelling of its keys.
pub open spec fn reply_logs(body: Seq<u8>) -> Option<JsonModel> {
    if json::json_at(body, "/logsPartialSuccess"@) is Some {
        either_at(
            body,
            "/logsPartialSuccess/rejectedLogRecords"@,
            "/logsPartialSuccess/rejected_log_records"@,
        )
    } else {
        either_at(
            body,
            "/logs_partial_success/rejectedLogRecords"@,
            "/logs_partial_success/rejected_log_records"@,
        )
    }
}

/// Reads a collector's reply to a batch that it took. An empty reply is full
/// success, and so is one that is no JSON document.
pub fn parse_partial_success(body: &[u8]) -> (r: ExportOutcome)
    ensures
        is_blank(body@) ==> r.rejected_spans == 0 && r.rejected_log_records == 0
            && r.error_message@ == ""@,
        !is_blank(body@) ==> r.rejected_spans == reported_count(reply_spans(body@), true)
            && r.rejected_log_records == reported_count(reply_logs(body@), false)
            && r.error_message@ == (match json::as_text(reply_message(body@)) {
            Some(message) => message,
            None => ""@,
        }),
{
    if blank(body) {
        return ExportOutcome {
            rejected_spans: 0,
            rejected_log_records: 0,
            error_message: "".to_owned(),
        };
    }
    let (rejected_spans, error_message) = if json::lookup(body, "/partialSuccess").is_some() {
        (
            lookup_either(
                body,
                "/partialSuccess/rejectedSpans",
                "/partialSuccess/rejected_spans",
            ),
            lookup_either(body, "/partialSuccess/errorMessage", "/partialSuccess/error_message"),
        )
    } else {
        (
            lookup_either(
                body,
                "/partial_success/rejectedSpans",
                "/partial_success/rejected_spans",
            ),
            lookup_either(
                body,
                "/partial_success/errorMessage",
                "/partial_success/error_message",
            ),
        )
    };
    let rejected_log_records = if json::lookup(body, "/logsPartialSuccess").is_some() {
        lookup_either(
            body,
            "/logsPartialSuccess/rejectedLogRecords",
            "/logsPartialSuccess/rejected_log_records",
        )
    } else {
        lookup_either(
            body,
            "/logs_partial_success/rejectedLogRecords",
            "/logs_partial_success/rejected_log_records",
        )
    };
    outcome_of(CollectorReply { rejected_spans, error_message, rejected_log_records })
}

/// How long a collector is waited for, in seconds.
pub const EXPORT_TIMEOUT_SECS: u64 = 30;

/// The most that is read of a collector's reply, in bytes.
pub const MAX_REPLY_BYTES: usize = 65_536;

/// Whether a reply body of `held` bytes takes another chunk: the bytes it then
/// holds, or a refusal beyond the limit.
pub fn read_bounded_body(held: usize, chunk: usize, limit: usize) -> (r: Result<usize, String>)
    ensures
        match r {
            Ok(total) => total == held + chunk && total <= limit,
            Err(detail) => held + chunk > limit && detail@ == "collector response exceeded "@
                + text::decimal(limit as nat) + " bytes"@,
        },
{
    if held > limit || chunk > limit - held {
        let mut detail = "collector response exceeded ".to_owned();
        text::push_decimal(&mut detail, limit as u64);
        detail.append(" bytes");
        return Err(detail);
    }
    Ok(held + chunk)
}

/// No record is exported twice: what is planned after a batch was taken lies
/// past the cursor that the batch moved to.
pub proof fn a_taken_record_is_not_new(seq: u64, cursor: u64, max_seq: u64)
    requires
        is_new(Some(seq), cursor),
        seq <= max_seq,
    ensures
        !is_new(Some(seq), max_seq),
{
}

} // verus!
