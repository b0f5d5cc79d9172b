//! The spans of a batch of run records.
use vstd::prelude::*;
use vstd::string::*;
use crate::otlp;
use crate::otlp::TraceRecord;
use crate::text;

verus! {

/// The instant that an RFC 3339 text denotes: seconds since the Unix epoch and
/// the nanoseconds within that second, or the parser's complaint.
pub uninterp spec fn rfc3339(text: Seq<char>) -> Result<(i64, u32), Seq<char>>;

/// A parsed instant, as values.
pub open spec fn instant_view(parsed: Result<(i64, u32), String>) -> Result<(i64, u32), Seq<char>> {
    match parsed {
        Ok(instant) => Ok(instant),
        Err(detail) => Err(detail@),
    }
}

/// `chrono::DateTime::parse_from_rfc3339`: the instant and the error are a
/// function of the text alone. Which texts parse is not stated further.
#[verifier::external_body]
pub(crate) fn parse_rfc3339(text: &str) -> (r: Result<(i64, u32), String>)
    ensures
        instant_view(r) == rfc3339(text@),
{
    match chrono::DateTime::parse_from_rfc3339(text) {
        Ok(parsed) => Ok((parsed.timestamp(), parsed.timestamp_subsec_nanos())),
        Err(error) => Err(error.to_string()),
    }
}

/// The nanoseconds since the Unix epoch of a record's timestamp.
pub open spec fn unix_nanos(timestamp: Seq<char>, parsed: Result<(i64, u32), Seq<char>>) -> Result<
    nat,
    Seq<char>,
> {
    match parsed {
        Err(detail) => Err("invalid record timestamp `"@ + timestamp + "`: "@ + detail),
        Ok((seconds, nanos)) => if seconds < 0 {
            Err("record timestamp `"@ + timestamp + "` predates the Unix epoch"@)
        } else {
            Ok((seconds * 1_000_000_000 + nanos) as nat)
        },
    }
}

/// The nanoseconds since the Unix epoch of a timestamp that parses so; an
/// earlier one is refused.
pub fn nanos_of(timestamp: &str, parsed: Result<(i64, u32), String>) -> (r: Result<u128, String>)
    ensures
        match r {
            Ok(n) => unix_nanos(timestamp@, instant_view(parsed)) == Ok::<_, Seq<char>>(n as nat)
                && n <= 0x1_0000_0000_0000_0000_0000_0000,
            Err(detail) => unix_nanos(timestamp@, instant_view(parsed)) == Err::<nat, _>(detail@),
        },
{
    match parsed {
        Err(detail) => {
            let mut message = "invalid record timestamp `".to_owned();
            message.append(timestamp);
            message.append("`: ");
            message.append(detail.as_str());
            Err(message)
        },
        Ok((seconds, nanos)) => {
            if seconds < 0 {
                let mut message = "record timestamp `".to_owned();
                message.append(timestamp);
                message.append("` predates the Unix epoch");
                return Err(message);
            }
            Ok(seconds as u128 * 1_000_000_000 + nanos as u128)
        },
    }
}

/// The nanoseconds since the Unix epoch of a record's timestamp.
pub fn unix_nano(timestamp: &str) -> (r: Result<u128, String>)
    ensures
        match r {
            Ok(n) => unix_nanos(timestamp@, rfc3339(timestamp@)) == Ok::<_, Seq<char>>(n as nat)
                && n <= 0x1_0000_0000_0000_0000_0000_0000,
            Err(detail) => unix_nanos(timestamp@, rfc3339(timestamp@)) == Err::<nat, _>(detail@),
        },
{
    nanos_of(timestamp, parse_rfc3339(timestamp))
}

/// The value of a span attribute.
#[derive(Debug)]
pub enum AttributeValue {
    Text(String),
    Int(u64),
}

/// An attribute of a span.
#[derive(Debug)]
pub struct Attribute {
    pub key: String,
    pub value: AttributeValue,
}

/// The span of one record.
#[derive(Debug)]
pub struct Span {
    pub trace_id: String,
    pub span_id: String,
    pub parent_span_id: String,
    pub name: String,
    pub start_unix_nano: u128,
    pub end_unix_nano: u128,
    pub attributes: Vec<Attribute>,
    pub status_code: u8,
    pub status_message: Option<String>,
}

pub enum AttributeModel {
    Text(Seq<char>),
    Int(u64),
}

impl View for Attribute {
    type V = (Seq<char>, AttributeModel);

    open spec fn view(&self) -> (Seq<char>, AttributeModel) {
        (
            self.key@,
            match self.value {
                AttributeValue::Text(text) => AttributeModel::Text(text@),
                AttributeValue::Int(n) => AttributeModel::Int(n),
            },
        )
    }
}

/// A span, as values.
pub struct SpanModel {
    pub trace_id: Seq<char>,
    pub span_id: Seq<char>,
    pub parent_span_id: Seq<char>,
    pub name: Seq<char>,
    pub start: nat,
    pub end: nat,
    pub attributes: Seq<(Seq<char>, AttributeModel)>,
    pub status: (u8, Option<Seq<char>>),
}

pub open spec fn attribute_views(attributes: Seq<Attribute>) -> Seq<(Seq<char>, AttributeModel)> {
    attributes.map_values(|a: Attribute| a@)
}

impl View for Span {
    type V = SpanModel;

    open spec fn view(&self) -> SpanModel {
        SpanModel {
            trace_id: self.trace_id@,
            span_id: self.span_id@,
            parent_span_id: self.parent_span_id@,
            name: self.name@,
            start: self.start_unix_nano as nat,
            end: self.end_unix_nano as nat,
            attributes: attribute_views(self.attributes@),
            status: (self.status_code, self.status_message.deep_view()),
        }
    }
}

/// A text attribute where there is a text, and none where there is not.
pub open spec fn optional_attribute(key: Seq<char>, value: Option<String>) -> Seq<
    (Seq<char>, AttributeModel),
> {
    match value {
        Some(value) => seq![(key, AttributeModel::Text(value@))],
        None => Seq::empty(),
    }
}

/// The attributes that keep a record's own outcome on its span.
pub open spec fn outcome_attributes(record: TraceRecord) -> Seq<(Seq<char>, AttributeModel)> {
    optional_attribute("qcg.status"@, record.status) + (if record.reason is Some {
        optional_attribute("qcg.reason"@, record.reason)
    } else {
        optional_attribute("qcg.reason.code"@, record.reason_code) + optional_attribute(
            "qcg.reason.message"@,
            record.reason_message,
        )
    })
}

/// The attributes of a record's span.
pub open spec fn span_attributes(
    run_id: Seq<char>,
    kind: Seq<char>,
    seq: u64,
    record: TraceRecord,
) -> Seq<(Seq<char>, AttributeModel)> {
    seq![
        ("qcg.run.id"@, AttributeModel::Text(run_id)),
        ("qcg.event.kind"@, AttributeModel::Text(kind)),
        ("qcg.event.seq"@, AttributeModel::Int(seq)),
    ] + optional_attribute("qcg.node.id"@, record.node) + outcome_attributes(record)
}

/// Why a record has no span, if it has none: its kind, its identity and its
/// time are required.
pub open spec fn record_refusal(record: TraceRecord) -> Option<Seq<char>> {
    if record.kind is None {
        Some("record kind is required"@)
    } else {
        let prefix = "record `"@ + record.kind->0@ + "` carries no "@;
        if record.trace_id is None {
            Some(prefix + "trace_id"@)
        } else if record.span_id is None {
            Some(prefix + "span_id"@)
        } else if record.seq is None {
            Some(prefix + "seq"@)
        } else if record.timestamp is None {
            Some(prefix + "timestamp"@)
        } else {
            None
        }
    }
}

/// The span of a complete record that happened at `at`; it lasts a nanosecond.
pub open spec fn span_model(run_id: Seq<char>, record: TraceRecord, at: nat) -> SpanModel {
    SpanModel {
        trace_id: record.trace_id->0@,
        span_id: record.span_id->0@,
        parent_span_id: match record.parent_span_id {
            Some(parent) => parent@,
            None => ""@,
        },
        name: "qcg.event "@ + record.kind->0@,
        start: at,
        end: at + 1,
        attributes: span_attributes(run_id, record.kind->0@, record.seq->0, record),
        status: otlp::span_status(record.kind->0@, record),
    }
}

/// What becomes of a record.
pub open spec fn record_span(run_id: Seq<char>, record: TraceRecord) -> Result<
    SpanModel,
    Seq<char>,
> {
    match record_refusal(record) {
        Some(detail) => Err(detail),
        None => match unix_nanos(record.timestamp->0@, rfc3339(record.timestamp->0@)) {
            Err(detail) => Err(detail),
            Ok(at) => Ok(span_model(run_id, record, at)),
        },
    }
}

fn push_text(attributes: &mut Vec<Attribute>, key: &str, value: &String)
    ensures
        attribute_views(final(attributes)@) == attribute_views(old(attributes)@).push(
            (key@, AttributeModel::Text(value@)),
        ),
{
    attributes.push(
        Attribute { key: key.to_owned(), value: AttributeValue::Text(value.clone()) },
    );
    assert(attribute_views(attributes@) =~= attribute_views(old(attributes)@).push(
        (key@, AttributeModel::Text(value@)),
    ));
}

fn push_optional(attributes: &mut Vec<Attribute>, key: &str, value: &Option<String>)
    ensures
        attribute_views(final(attributes)@) == attribute_views(old(attributes)@)
            + optional_attribute(key@, *value),
{
    match value {
        Some(text) => {
            push_text(attributes, key, text);
            assert(attribute_views(old(attributes)@).push((key@, AttributeModel::Text(text@)))
                =~= attribute_views(old(attributes)@) + optional_attribute(key@, *value));
        },
        None => {
            assert(attribute_views(old(attributes)@) + optional_attribute(key@, *value)
                =~= attribute_views(old(attributes)@));
        },
    }
}

/// Appends the attributes that keep a record's own outcome on its span.
pub fn status_detail_attributes(attributes: &mut Vec<Attribute>, record: &TraceRecord)
    ensures
        attribute_views(final(attributes)@) == attribute_views(old(attributes)@)
            + outcome_attributes(*record),
{
    let ghost start = attribute_views(attributes@);
    push_optional(attributes, "qcg.status", &record.status);
    if record.reason.is_some() {
        push_optional(attributes, "qcg.reason", &record.reason);
    } else {
        push_optional(attributes, "qcg.reason.code", &record.reason_code);
        push_optional(attributes, "qcg.reason.message", &record.reason_message);
    }
    assert(attribute_views(attributes@) =~= start + outcome_attributes(*record));
}

fn missing(kind: &str, what: &str) -> (r: String)
    ensures
        r@ == "record `"@ + kind@ + "` carries no "@ + what@,
{
    let mut detail = "record `".to_owned();
    detail.append(kind);
    detail.append("` carries no ");
    detail.append(what);
    detail
}

/// The span of a complete record that happened at `at`.
pub fn span_at(run_id: &String, record: &TraceRecord, at: u128) -> (r: Span)
    requires
        record_refusal(*record) is None,
        at < u128::MAX,
    ensures
        r@ == span_model(run_id@, *record, at as nat),
{
    let kind: String = match &record.kind {
        Some(kind) => kind.clone(),
        None => "".to_owned(),
    };
    let trace_id: String = match &record.trace_id {
        Some(id) => id.clone(),
        None => "".to_owned(),
    };
    let span_id: String = match &record.span_id {
        Some(id) => id.clone(),
        None => "".to_owned(),
    };
    let seq: u64 = match record.seq {
        Some(seq) => seq,
        None => 0,
    };
    let mut attributes: Vec<Attribute> = Vec::new();
    push_text(&mut attributes, "qcg.run.id", run_id);
    push_text(&mut attributes, "qcg.event.kind", &kind);
    let ghost two = attribute_views(attributes@);
    attributes.push(
        Attribute { key: "qcg.event.seq".to_owned(), value: AttributeValue::Int(seq) },
    );
    assert(attribute_views(attributes@) =~= two.push(("qcg.event.seq"@, AttributeModel::Int(seq))));
    push_optional(&mut attributes, "qcg.node.id", &record.node);
    status_detail_attributes(&mut attributes, record);
    assert(attribute_views(attributes@) =~= span_attributes(run_id@, kind@, seq, *record));
    let (status_code, status_message) = otlp::span_status_for_event(kind.as_str(), record);
    let mut name = "qcg.event ".to_owned();
    name.append(kind.as_str());
    let parent_span_id: String = match &record.parent_span_id {
        Some(parent) => parent.clone(),
        None => "".to_owned(),
    };
    Span {
        trace_id,
        span_id,
        parent_span_id,
        name,
        start_unix_nano: at,
        end_unix_nano: at + 1,
        attributes,
        status_code,
        status_message,
    }
}

fn span_of(run_id: &String, record: &TraceRecord) -> (r: Result<Span, String>)
    ensures
        match r {
            Ok(span) => record_span(run_id@, *record) == Ok::<_, Seq<char>>(span@),
            Err(detail) => record_span(run_id@, *record) == Err::<SpanModel, _>(detail@),
        },
{
    let kind = match &record.kind {
        Some(kind) => kind.as_str(),
        None => {
            return Err("record kind is required".to_owned());
        },
    };
    if record.trace_id.is_none() {
        return Err(missing(kind, "trace_id"));
    }
    if record.span_id.is_none() {
        return Err(missing(kind, "span_id"));
    }
    if record.seq.is_none() {
        return Err(missing(kind, "seq"));
    }
    let timestamp = match &record.timestamp {
        Some(timestamp) => timestamp.as_str(),
        None => {
            return Err(missing(kind, "timestamp"));
        },
    };
    match unix_nano(timestamp) {
        Err(detail) => Err(detail),
        Ok(at) => Ok(span_at(run_id, record, at)),
    }
}

/// The spans of a batch: one per record, in order, unless some record has none.
pub open spec fn batch_spans(run_id: Seq<char>, records: Seq<TraceRecord>) -> Result<
    Seq<SpanModel>,
    Seq<char>,
>
    decreases records.len(),
{
    if records.len() == 0 {
        Ok(Seq::empty())
    } else {
        match batch_spans(run_id, records.drop_last()) {
            Err(detail) => Err(detail),
            Ok(spans) => match record_span(run_id, records.last()) {
                Err(detail) => Err(detail),
                Ok(span) => Ok(spans.push(span)),
            },
        }
    }
}

pub open spec fn span_views(spans: Seq<Span>) -> Seq<SpanModel> {
    spans.map_values(|s: Span| s@)
}

proof fn batch_error_is_final(run_id: Seq<char>, records: Seq<TraceRecord>, n: int)
    requires
        0 <= n <= records.len(),
        batch_spans(run_id, records.take(n)) is Err,
    ensures
        batch_spans(run_id, records) == batch_spans(run_id, records.take(n)),
    decreases records.len() - n,
{
    if n < records.len() {
        assert(records.take(n + 1).drop_last() == records.take(n));
        batch_error_is_final(run_id, records, n + 1);
    } else {
        assert(records.take(n) == records);
    }
}

/// Maps a batch of records to spans. One record without an identity or a time
/// fails the batch: no span is made up.
pub fn event_spans(run_id: &String, records: &Vec<TraceRecord>) -> (r: Result<Vec<Span>, String>)
    ensures
        match r {
            Ok(spans) => batch_spans(run_id@, records@) == Ok::<_, Seq<char>>(span_views(spans@)),
            Err(detail) => batch_spans(run_id@, records@) == Err::<Seq<SpanModel>, _>(detail@),
        },
{
    let mut spans: Vec<Span> = Vec::new();
    let mut i: usize = 0;
    assert(records@.take(0) == Seq::<TraceRecord>::empty());
    assert(span_views(spans@) =~= Seq::<SpanModel>::empty());
    while i < records.len()
        invariant
            i <= records@.len(),
            batch_spans(run_id@, records@.take(i as int)) == Ok::<_, Seq<char>>(
                span_views(spans@),
            ),
        decreases records.len() - i,
    {
        proof {
            assert(records@.take(i + 1).drop_last() == records@.take(i as int));
            assert(records@.take(i + 1).last() == records@[i as int]);
        }
        match span_of(run_id, &records[i]) {
            Ok(span) => {
                let ghost before = span_views(spans@);
                spans.push(span);
                assert(span_views(spans@) =~= before.push(span@));
            },
            Err(detail) => {
                proof {
                    batch_error_is_final(run_id@, records@, i + 1);
                }
                return Err(detail);
            },
        }
        i += 1;
    }
    assert(records@.take(records@.len() as int) == records@);
    Ok(spans)
}

/// A batch maps record by record: it fails exactly when some record has no
/// span, and otherwise has one span per record, each the record's own.
pub proof fn a_batch_maps_record_by_record(run_id: Seq<char>, records: Seq<TraceRecord>)
    ensures
        batch_spans(run_id, records) is Ok <==> forall|i: int|
            0 <= i < records.len() ==> record_span(run_id, #[trigger] records[i]) is Ok,
        batch_spans(run_id, records) matches Ok(spans) ==> spans.len() == records.len() && forall|
            i: int,
        |
            0 <= i < records.len() ==> record_span(run_id, records[i]) == Ok::<_, Seq<char>>(
                #[trigger] spans[i],
            ),
    decreases records.len(),
{
    if records.len() > 0 {
        let front = records.drop_last();
        a_batch_maps_record_by_record(run_id, front);
        let n = records.len() - 1;
        assert(records[n] == records.last());
        assert forall|i: int| 0 <= i < n implies records[i] == front[i] by {}
        if batch_spans(run_id, front) is Err {
            let i = choose|i: int|
                0 <= i < front.len() && record_span(run_id, #[trigger] front[i]) is Err;
            assert(record_span(run_id, records[i]) is Err);
        }
    }
}

} // verus!
