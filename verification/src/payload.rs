//! The document that a batch of spans is sent as: OTLP/HTTP in JSON, compact
//! and with the members of each object in the order of their names.
use vstd::prelude::*;
use vstd::string::*;
use crate::json;
use crate::otlp::TraceRecord;
use crate::spans;
use crate::spans::{Attribute, AttributeModel, AttributeValue, Span, SpanModel};
use crate::text;

verus! {

/// The elements of a list, parted by commas.
pub open spec fn elements(items: Seq<Seq<char>>) -> Seq<char>
    decreases items.len(),
{
    if items.len() == 0 {
        Seq::empty()
    } else if items.len() == 1 {
        items[0]
    } else {
        elements(items.drop_last()) + ","@ + items.last()
    }
}

/// An attribute of a span.
pub open spec fn attribute_json(attribute: (Seq<char>, AttributeModel)) -> Seq<char> {
    "{\"key\":"@ + json::quoted(attribute.0) + (match attribute.1 {
        AttributeModel::Text(value) => ",\"value\":{\"stringValue\":"@ + json::quoted(value),
        AttributeModel::Int(n) => ",\"value\":{\"intValue\":"@ + json::quoted(
            text::decimal(n as nat),
        ),
    }) + "}}"@
}

/// The attributes of a span, each on its own.
pub open spec fn attribute_items(attributes: Seq<(Seq<char>, AttributeModel)>) -> Seq<Seq<char>> {
    attributes.map_values(|a: (Seq<char>, AttributeModel)| attribute_json(a))
}

/// The outcome of a span.
pub open spec fn status_json(status: (u8, Option<Seq<char>>)) -> Seq<char> {
    "{\"code\":"@ + text::decimal(status.0 as nat) + (match status.1 {
        Some(message) => ",\"message\":"@ + json::quoted(message),
        None => Seq::empty(),
    }) + "}"@
}

/// A span.
pub open spec fn span_json(span: SpanModel) -> Seq<char> {
    "{\"attributes\":["@ + elements(attribute_items(span.attributes)) + "],\"endTimeUnixNano\":"@
        + json::quoted(text::decimal(span.end)) + ",\"kind\":1,\"name\":"@ + json::quoted(span.name)
        + ",\"parentSpanId\":"@ + json::quoted(span.parent_span_id) + ",\"spanId\":"@
        + json::quoted(span.span_id) + ",\"startTimeUnixNano\":"@ + json::quoted(
        text::decimal(span.start),
    ) + ",\"status\":"@ + status_json(span.status) + ",\"traceId\":"@ + json::quoted(span.trace_id)
        + "}"@
}

/// The spans of a batch, each on its own.
pub open spec fn span_items(spans: Seq<SpanModel>) -> Seq<Seq<char>> {
    spans.map_values(|s: SpanModel| span_json(s))
}

/// A batch of spans, reported under the harness's `version`.
pub open spec fn payload_json(spans: Seq<SpanModel>, version: Seq<char>) -> Seq<char> {
    "{\"resourceSpans\":[{\"resource\":{\"attributes\":[{\"key\":\"service.name\",\"value\":{\"stringValue\":\"qcg\"}}]},\"scopeSpans\":[{\"scope\":{\"name\":\"qcg.harness\",\"version\":"@
        + json::quoted(version) + "},\"spans\":["@ + elements(span_items(spans)) + "]}]}]}"@
}

fn push_quoted(out: &mut String, value: &str)
    ensures
        final(out)@ == old(out)@ + json::quoted(value@),
{
    let literal = json::quote(value);
    out.append(literal.as_str());
}

fn push_quoted_number(out: &mut String, n: u128)
    ensures
        final(out)@ == old(out)@ + json::quoted(text::decimal(n as nat)),
{
    let mut digits = String::new();
    text::push_decimal_wide(&mut digits, n);
    assert(digits@ =~= text::decimal(n as nat));
    push_quoted(out, digits.as_str());
}

fn push_attribute(out: &mut String, attribute: &Attribute)
    ensures
        final(out)@ == old(out)@ + attribute_json(attribute@),
{
    out.append("{\"key\":");
    push_quoted(out, attribute.key.as_str());
    match &attribute.value {
        AttributeValue::Text(value) => {
            out.append(",\"value\":{\"stringValue\":");
            push_quoted(out, value.as_str());
        },
        AttributeValue::Int(n) => {
            out.append(",\"value\":{\"intValue\":");
            push_quoted_number(out, *n as u128);
        },
    }
    out.append("}}");
    assert(out@ =~= old(out)@ + attribute_json(attribute@));
}

/// One more element ends a list of elements.
proof fn elements_grow(items: Seq<Seq<char>>, n: int)
    requires
        0 <= n < items.len(),
    ensures
        elements(items.take(n + 1)) == if n == 0 {
            items[0]
        } else {
            elements(items.take(n)) + ","@ + items[n]
        },
{
    assert(items.take(n + 1).drop_last() == items.take(n));
}

fn push_attributes(out: &mut String, attributes: &Vec<Attribute>)
    ensures
        final(out)@ == old(out)@ + elements(
            attribute_items(spans::attribute_views(attributes@)),
        ),
{
    let ghost items = attribute_items(spans::attribute_views(attributes@));
    let ghost start = out@;
    let mut i: usize = 0;
    assert(items.take(0) =~= Seq::<Seq<char>>::empty());
    assert(out@ =~= start + elements(items.take(0)));
    while i < attributes.len()
        invariant
            i <= attributes@.len(),
            items == attribute_items(spans::attribute_views(attributes@)),
            out@ == start + elements(items.take(i as int)),
        decreases attributes.len() - i,
    {
        proof {
            elements_grow(items, i as int);
            assert(items[i as int] == attribute_json(attributes@[i as int]@));
        }
        if i > 0 {
            out.append(",");
        } else {
            assert(items.take(0) =~= Seq::<Seq<char>>::empty());
        }
        push_attribute(out, &attributes[i]);
        i += 1;
        assert(out@ =~= start + elements(items.take(i as int)));
    }
    assert(items.take(items.len() as int) =~= items);
}

fn push_status(out: &mut String, code: u8, message: &Option<String>)
    ensures
        final(out)@ == old(out)@ + status_json((code, message.deep_view())),
{
    out.append("{\"code\":");
    text::push_decimal(out, code as u64);
    if let Some(message) = message {
        out.append(",\"message\":");
        push_quoted(out, message.as_str());
    }
    out.append("}");
    assert(out@ =~= old(out)@ + status_json((code, message.deep_view())));
}

fn push_span(out: &mut String, span: &Span)
    ensures
        final(out)@ == old(out)@ + span_json(span@),
{
    out.append("{\"attributes\":[");
    push_attributes(out, &span.attributes);
    out.append("],\"endTimeUnixNano\":");
    push_quoted_number(out, span.end_unix_nano);
    out.append(",\"kind\":1,\"name\":");
    push_quoted(out, span.name.as_str());
    out.append(",\"parentSpanId\":");
    push_quoted(out, span.parent_span_id.as_str());
    out.append(",\"spanId\":");
    push_quoted(out, span.span_id.as_str());
    out.append(",\"startTimeUnixNano\":");
    push_quoted_number(out, span.start_unix_nano);
    out.append(",\"status\":");
    push_status(out, span.status_code, &span.status_message);
    out.append(",\"traceId\":");
    push_quoted(out, span.trace_id.as_str());
    out.append("}");
    assert(out@ =~= old(out)@ + span_json(span@));
}

/// Writes a batch of spans as the document that is sent.
pub fn spans_payload(spans: &Vec<Span>, version: &str) -> (r: String)
    ensures
        r@ == payload_json(spans::span_views(spans@), version@),
{
    let mut out =
        "{\"resourceSpans\":[{\"resource\":{\"attributes\":[{\"key\":\"service.name\",\"value\":{\"stringValue\":\"qcg\"}}]},\"scopeSpans\":[{\"scope\":{\"name\":\"qcg.harness\",\"version\":".to_owned();
    push_quoted(&mut out, version);
    out.append("},\"spans\":[");
    let ghost items = span_items(spans::span_views(spans@));
    let ghost start = out@;
    let mut i: usize = 0;
    assert(items.take(0) =~= Seq::<Seq<char>>::empty());
    assert(out@ =~= start + elements(items.take(0)));
    while i < spans.len()
        invariant
            i <= spans@.len(),
            items == span_items(spans::span_views(spans@)),
            out@ == start + elements(items.take(i as int)),
        decreases spans.len() - i,
    {
        proof {
            elements_grow(items, i as int);
            assert(items[i as int] == span_json(spans@[i as int]@));
        }
        if i > 0 {
            out.append(",");
        } else {
            assert(items.take(0) =~= Seq::<Seq<char>>::empty());
        }
        push_span(&mut out, &spans[i]);
        i += 1;
        assert(out@ =~= start + elements(items.take(i as int)));
    }
    assert(items.take(items.len() as int) =~= items);
    out.append("]}]}]}");
    assert(out@ =~= payload_json(spans::span_views(spans@), version@));
    out
}

/// The document for a batch of records. One record without an identity or a
/// time fails the batch: no span is made up.
pub fn trace_payload(run_id: &String, records: &Vec<TraceRecord>, version: &str) -> (r: Result<
    String,
    String,
>)
    ensures
        match spans::batch_spans(run_id@, records@) {
            Ok(batch) => r matches Ok(document) && document@ == payload_json(batch, version@),
            Err(detail) => r matches Err(refusal) && refusal@ == detail,
        },
{
    match spans::event_spans(run_id, records) {
        Err(detail) => Err(detail),
        Ok(batch) => Ok(spans_payload(&batch, version)),
    }
}

} // verus!
