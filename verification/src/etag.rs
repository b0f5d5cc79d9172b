//! Conditional reads: the validators of served bodies, the `If-None-Match`
//! precondition, and the replies that follow from both.
use vstd::prelude::*;
use vstd::string::*;
use crate::auth;
use crate::digest;
use crate::error;
use crate::error::ApiHttpError;
use crate::header;
use crate::text;

verus! {

/// A weak validator.
pub open spec fn weak(value: Seq<char>) -> Seq<char> {
    "W/\""@ + value + "\""@
}

pub fn weak_etag(value: &str) -> (r: String)
    ensures
        r@ == weak(value@),
{
    let mut tag = "W/\"".to_owned();
    tag.append(value);
    tag.append("\"");
    tag
}

/// The validator of a body: its digest.
pub open spec fn body_tag(body: Seq<u8>) -> Seq<char> {
    weak(digest::hex_text(digest::sha256(body)))
}

pub fn body_etag(body: &[u8]) -> (r: String)
    ensures
        r@ == body_tag(body@),
{
    let digest = digest::digest_hex(body);
    weak_etag(digest.as_str())
}

/// The precondition of a request.
#[derive(Debug)]
pub enum IfNoneMatch {
    Absent,
    Star,
    /// The listed tags, without quotes and weakness marks.
    Tags(Vec<String>),
}

/// The same, as values.
pub enum Condition {
    Absent,
    Star,
    Tags(Seq<Seq<char>>),
}

impl View for IfNoneMatch {
    type V = Condition;

    open spec fn view(&self) -> Condition {
        match self {
            IfNoneMatch::Absent => Condition::Absent,
            IfNoneMatch::Star => Condition::Star,
            IfNoneMatch::Tags(tags) => Condition::Tags(tags.deep_view()),
        }
    }
}

/// A character that a tag may hold between its quotes.
pub open spec fn tag_char(c: char) -> bool {
    c != '"' && c >= '!' && c != '\u{7f}'
}

/// The text between the quotes of a tag.
pub open spec fn is_tag_text(inner: Seq<char>) -> bool {
    inner.len() > 0 && forall|i: int| 0 <= i < inner.len() ==> tag_char(#[trigger] inner[i])
}

/// A tag without its weakness mark.
pub open spec fn without_weakness(tag: Seq<char>) -> Seq<char> {
    if "W/"@.is_prefix_of(tag) {
        tag.skip(2)
    } else {
        tag
    }
}

/// What an entry of the list names: `"text"` or `W/"text"`, white space round
/// it ignored; `None` where it is neither.
pub open spec fn entity_tag(entry: Seq<char>) -> Option<Seq<char>> {
    let tag = without_weakness(text::trimmed(entry));
    let inner = tag.subrange(1, tag.len() - 1);
    if tag.len() >= 2 && tag[0] == '"' && tag.last() == '"' && is_tag_text(inner) {
        Some(inner)
    } else {
        None
    }
}

/// The complaint about a list that is none.
pub open spec fn list_detail() -> Seq<char> {
    "If-None-Match must be `*` or a comma-separated entity-tag list"@
}

/// What `If-None-Match` says: nothing, anything, or a list of tags. A value
/// that is malformed anywhere is refused.
pub open spec fn condition_of(value: Option<Seq<u8>>) -> Result<Condition, Seq<char>> {
    match value {
        None => Ok(Condition::Absent),
        Some(bytes) => if !header::all_visible(bytes) {
            Err("If-None-Match must be valid ASCII"@)
        } else {
            let listed = text::trimmed(header::ascii_text(bytes));
            let entries = text::split(listed, ',');
            if listed == "*"@ {
                Ok(Condition::Star)
            } else if forall|i: int| 0 <= i < entries.len() ==> entity_tag(#[trigger] entries[i]) is Some {
                Ok(Condition::Tags(entries.map_values(|entry: Seq<char>| entity_tag(entry)->0)))
            } else {
                Err(list_detail())
            }
        },
    }
}

fn tag_of(entry: &str) -> (r: Option<String>)
    ensures
        r.deep_view() == entity_tag(entry@),
{
    let trimmed = text::trim(entry);
    let chars = text::chars_of(trimmed.as_str());
    let weak = text::has_prefix(trimmed.as_str(), "W/");
    proof {
        reveal_strlit("W/");
    }
    let from: usize = if weak { 2 } else { 0 };
    let ghost tag = without_weakness(trimmed@);
    assert(tag == trimmed@.skip(from as int));
    let n: usize = chars.len() - from;
    if n < 2 || chars[from] != '"' || chars[chars.len() - 1] != '"' {
        return None;
    }
    let inner = text::text_between(&chars, from + 1, chars.len() - 1);
    assert(inner@ == tag.subrange(1, tag.len() - 1));
    if n == 2 {
        return None;
    }
    let mut i: usize = from + 1;
    #[verifier::loop_isolation(false)]
    while i < chars.len() - 1
        invariant
            from <= 2,
            from + 1 <= i <= chars@.len() - 1,
            inner@ == chars@.subrange(from + 1, chars@.len() - 1),
            forall|j: int| 0 <= j < i - (from + 1) ==> tag_char(#[trigger] inner@[j]),
        decreases chars.len() - i,
    {
        let c = chars[i];
        assert(inner@[i - (from + 1)] == c);
        if c == '"' || c < '!' || c == '\u{7f}' {
            assert(!tag_char(inner@[i - (from + 1)]));
            return None;
        }
        i += 1;
    }
    Some(inner)
}

fn refuse_list() -> (r: ApiHttpError)
    ensures
        r@ == error::bad_request_problem(list_detail()),
{
    ApiHttpError::bad_request(
        "If-None-Match must be `*` or a comma-separated entity-tag list".to_owned(),
    )
}

/// Parses the precondition of a request from the value of its
/// `If-None-Match` header.
pub fn parse_if_none_match(value: Option<&[u8]>) -> (r: Result<IfNoneMatch, ApiHttpError>)
    ensures
        match r {
            Ok(condition) => condition_of(auth::bytes_view(value)) == Ok::<_, Seq<char>>(
                condition@,
            ),
            Err(refusal) => condition_of(auth::bytes_view(value)) matches Err(detail) && refusal@
                == error::bad_request_problem(detail),
        },
{
    let bytes = match value {
        None => {
            return Ok(IfNoneMatch::Absent);
        },
        Some(bytes) => bytes,
    };
    let raw = match header::header_text(bytes) {
        Some(raw) => raw,
        None => {
            return Err(
                ApiHttpError::bad_request("If-None-Match must be valid ASCII".to_owned()),
            );
        },
    };
    let listed = text::trim(raw.as_str());
    if text::same_text(listed.as_str(), "*") {
        return Ok(IfNoneMatch::Star);
    }
    let entries = text::split_at_char(listed.as_str(), ',');
    let ghost all = entries.deep_view();
    let mut tags: Vec<String> = Vec::new();
    let mut i: usize = 0;
    #[verifier::loop_isolation(false)]
    while i < entries.len()
        invariant
            i <= entries@.len(),
            all == entries.deep_view(),
            tags@.len() == i,
            forall|j: int|
                0 <= j < i ==> entity_tag(#[trigger] all[j]) == Some(tags@[j]@),
        decreases entries.len() - i,
    {
        assert(all[i as int] == entries@[i as int]@);
        match tag_of(entries[i].as_str()) {
            Some(tag) => {
                tags.push(tag);
            },
            None => {
                return Err(refuse_list());
            },
        }
        i += 1;
    }
    assert(tags.deep_view() =~= all.map_values(|entry: Seq<char>| entity_tag(entry)->0));
    Ok(IfNoneMatch::Tags(tags))
}

/// Whether a precondition names the current representation.
pub open spec fn names(condition: Condition, current: Seq<char>) -> bool {
    match condition {
        Condition::Absent => false,
        Condition::Star => true,
        Condition::Tags(tags) => tags.contains(current),
    }
}

/// Weak comparison of the current tag with a precondition.
pub fn if_none_match_matches(precondition: &IfNoneMatch, current_opaque: &str) -> (r: bool)
    ensures
        r == names(precondition@, current_opaque@),
{
    match precondition {
        IfNoneMatch::Absent => false,
        IfNoneMatch::Star => true,
        IfNoneMatch::Tags(tags) => {
            let mut i: usize = 0;
            #[verifier::loop_isolation(false)]
            while i < tags.len()
                invariant
                    i <= tags@.len(),
                    forall|j: int| 0 <= j < i ==> (#[trigger] tags@[j])@ != current_opaque@,
                decreases tags.len() - i,
            {
                if text::same_text(tags[i].as_str(), current_opaque) {
                    assert(tags.deep_view()[i as int] == current_opaque@);
                    return true;
                }
                i += 1;
            }
            assert forall|j: int| 0 <= j < tags.deep_view().len() implies tags.deep_view()[j]
                != current_opaque@ by {
                assert(tags.deep_view()[j] == tags@[j]@);
            }
            false
        },
    }
}

/// The text without the weakness marks that it begins with.
pub open spec fn skip_weakness(s: Seq<char>) -> Seq<char>
    decreases s.len(),
{
    if s.len() >= 2 && s[0] == 'W' && s[1] == '/' {
        skip_weakness(s.skip(2))
    } else {
        s
    }
}

/// The text without the quotes that it begins with.
pub open spec fn skip_quotes(s: Seq<char>) -> Seq<char>
    decreases s.len(),
{
    if s.len() > 0 && s[0] == '"' {
        skip_quotes(s.skip(1))
    } else {
        s
    }
}

/// The text without the quotes that it ends with.
pub open spec fn drop_quotes(s: Seq<char>) -> Seq<char>
    decreases s.len(),
{
    if s.len() > 0 && s.last() == '"' {
        drop_quotes(s.drop_last())
    } else {
        s
    }
}

/// The tag that a validator names.
pub open spec fn opaque_of(etag: Seq<char>) -> Seq<char> {
    drop_quotes(skip_quotes(skip_weakness(text::trimmed(etag))))
}

/// The tag that a validator names: without white space, weakness marks and
/// quotes at its ends.
pub fn current_opaque_tag(etag: &str) -> (r: String)
    ensures
        r@ == opaque_of(etag@),
{
    let trimmed = text::trim(etag);
    let chars = text::chars_of(trimmed.as_str());
    let mut from: usize = 0;
    assert(trimmed@.skip(0) == trimmed@);
    while chars.len() - from >= 2 && chars[from] == 'W' && chars[from + 1] == '/'
        invariant
            from <= chars@.len(),
            chars@ == trimmed@,
            skip_weakness(trimmed@) == skip_weakness(trimmed@.skip(from as int)),
        decreases chars.len() - from,
    {
        assert(trimmed@.skip(from as int).skip(2) == trimmed@.skip(from + 2));
        from += 2;
    }
    let ghost marked = trimmed@.skip(from as int);
    assert(skip_weakness(trimmed@) == marked);
    while from < chars.len() && chars[from] == '"'
        invariant
            from <= chars@.len(),
            chars@ == trimmed@,
            skip_quotes(marked) == skip_quotes(trimmed@.skip(from as int)),
        decreases chars.len() - from,
    {
        assert(trimmed@.skip(from as int).skip(1) == trimmed@.skip(from + 1));
        from += 1;
    }
    let ghost quoted = trimmed@.skip(from as int);
    assert(skip_quotes(marked) == quoted);
    let mut to: usize = chars.len();
    assert(quoted == chars@.subrange(from as int, to as int));
    while to > from && chars[to - 1] == '"'
        invariant
            from <= to <= chars@.len(),
            drop_quotes(quoted) == drop_quotes(chars@.subrange(from as int, to as int)),
        decreases to,
    {
        assert(chars@.subrange(from as int, to as int).drop_last() == chars@.subrange(
            from as int,
            to - 1,
        ));
        to -= 1;
    }
    text::text_between(&chars, from, to)
}

/// The status and the headers of a reply.
#[derive(Debug)]
pub struct Head {
    pub status: u16,
    pub headers: Vec<(&'static str, String)>,
}

/// The same, as values.
pub struct HeadModel {
    pub status: u16,
    pub headers: Seq<(Seq<char>, Seq<char>)>,
}

impl View for Head {
    type V = HeadModel;

    open spec fn view(&self) -> HeadModel {
        HeadModel {
            status: self.status,
            headers: self.headers@.map_values(|h: (&'static str, String)| (h.0@, h.1@)),
        }
    }
}

/// A reply with its whole body.
#[derive(Debug)]
pub struct Reply {
    pub head: Head,
    pub body: Vec<u8>,
}

/// The same, as values.
pub struct ReplyModel {
    pub head: HeadModel,
    pub body: Seq<u8>,
}

impl View for Reply {
    type V = ReplyModel;

    open spec fn view(&self) -> ReplyModel {
        ReplyModel { head: self.head@, body: self.body@ }
    }
}

/// The head of a reply that says: what you have is current.
pub open spec fn not_modified(etag: Seq<char>) -> HeadModel {
    HeadModel { status: 304, headers: seq![("etag"@, etag), ("cache-control"@, "no-store"@)] }
}

/// The head of a reply that carries the representation.
pub open spec fn full_head(content_type: Seq<char>, etag: Seq<char>) -> HeadModel {
    HeadModel {
        status: 200,
        headers: seq![
            ("content-type"@, content_type),
            ("etag"@, etag),
            ("cache-control"@, "no-store"@),
        ],
    }
}

pub fn not_modified_head(etag: &String) -> (r: Head)
    ensures
        r@ == not_modified(etag@),
{
    let mut headers: Vec<(&'static str, String)> = Vec::new();
    headers.push(("etag", etag.clone()));
    headers.push(("cache-control", "no-store".to_owned()));
    let head = Head { status: 304, headers };
    assert(head@.headers =~= not_modified(etag@).headers);
    head
}

pub fn full_reply_head(content_type: &str, etag: &String) -> (r: Head)
    ensures
        r@ == full_head(content_type@, etag@),
{
    let mut headers: Vec<(&'static str, String)> = Vec::new();
    headers.push(("content-type", content_type.to_owned()));
    headers.push(("etag", etag.clone()));
    headers.push(("cache-control", "no-store".to_owned()));
    let head = Head { status: 200, headers };
    assert(head@.headers =~= full_head(content_type@, etag@).headers);
    head
}

/// The head of the reply to a conditional read of what `etag` validates.
pub open spec fn conditional_head(
    condition: Condition,
    content_type: Seq<char>,
    etag: Seq<char>,
) -> HeadModel {
    if names(condition, opaque_of(etag)) {
        not_modified(etag)
    } else {
        full_head(content_type, etag)
    }
}

/// Decides a conditional read without a body at hand, as for a file that is
/// streamed: the body is sent exactly where the status is 200.
pub fn conditional_read(value: Option<&[u8]>, content_type: &str, etag: &String) -> (r: Result<
    Head,
    ApiHttpError,
>)
    ensures
        match condition_of(auth::bytes_view(value)) {
            Ok(condition) => r matches Ok(head) && head@ == conditional_head(
                condition,
                content_type@,
                etag@,
            ),
            Err(detail) => r matches Err(refusal) && refusal@ == error::bad_request_problem(detail),
        },
{
    let precondition = match parse_if_none_match(value) {
        Ok(precondition) => precondition,
        Err(refusal) => {
            return Err(refusal);
        },
    };
    let current = current_opaque_tag(etag.as_str());
    if if_none_match_matches(&precondition, current.as_str()) {
        Ok(not_modified_head(etag))
    } else {
        Ok(full_reply_head(content_type, etag))
    }
}

/// The reply to a conditional read of a body with a validator.
pub open spec fn conditional_reply(
    condition: Condition,
    body: Seq<u8>,
    content_type: Seq<char>,
    etag: Seq<char>,
) -> ReplyModel {
    ReplyModel {
        head: conditional_head(condition, content_type, etag),
        body: if names(condition, opaque_of(etag)) {
            Seq::empty()
        } else {
            body
        },
    }
}

/// The reply to a conditional read of a body, under a validator that the
/// caller has computed.
pub fn conditional_response_with_etag(
    value: Option<&[u8]>,
    body: Vec<u8>,
    content_type: &str,
    served: &String,
) -> (r: Result<Reply, ApiHttpError>)
    ensures
        match condition_of(auth::bytes_view(value)) {
            Ok(condition) => r matches Ok(reply) && reply@ == conditional_reply(
                condition,
                body@,
                content_type@,
                served@,
            ),
            Err(detail) => r matches Err(refusal) && refusal@ == error::bad_request_problem(detail),
        },
{
    let precondition = match parse_if_none_match(value) {
        Ok(precondition) => precondition,
        Err(refusal) => {
            return Err(refusal);
        },
    };
    let current = current_opaque_tag(served.as_str());
    if if_none_match_matches(&precondition, current.as_str()) {
        let reply = Reply { head: not_modified_head(served), body: Vec::new() };
        assert(reply.body@ =~= Seq::<u8>::empty());
        Ok(reply)
    } else {
        Ok(Reply { head: full_reply_head(content_type, served), body })
    }
}

/// The reply to a conditional read of a body: its validator is its own digest.
pub fn conditional_response(value: Option<&[u8]>, body: Vec<u8>, content_type: &str) -> (r: Result<
    Reply,
    ApiHttpError,
>)
    ensures
        match condition_of(auth::bytes_view(value)) {
            Ok(condition) => r matches Ok(reply) && reply@ == conditional_reply(
                condition,
                body@,
                content_type@,
                body_tag(body@),
            ),
            Err(detail) => r matches Err(refusal) && refusal@ == error::bad_request_problem(detail),
        },
{
    let served = body_etag(body.as_slice());
    conditional_response_with_etag(value, body, content_type, &served)
}

/// The reply of a mutation: the body with its validator, and where a run was
/// created its location.
pub open spec fn validated_reply(
    status: u16,
    body: Seq<u8>,
    location: Option<Seq<char>>,
) -> ReplyModel {
    let headers = full_head("application/json"@, body_tag(body)).headers;
    ReplyModel {
        head: HeadModel {
            status,
            headers: match location {
                None => headers,
                Some(location) => headers.push(("location"@, location)),
            },
        },
        body,
    }
}

pub fn json_response_with_etag(status: u16, body: Vec<u8>, location: Option<String>) -> (r: Reply)
    ensures
        r@ == validated_reply(status, body@, location.deep_view()),
{
    let etag = body_etag(body.as_slice());
    let mut head = full_reply_head("application/json", &etag);
    head.status = status;
    let ghost start = head@.headers;
    match location {
        None => {},
        Some(location) => {
            let ghost to = location@;
            head.headers.push(("location", location));
            assert(head@.headers =~= start.push(("location"@, to)));
        },
    }
    Reply { head, body }
}

/// The validator of a generator's description.
pub open spec fn generator_tag(serialized: Seq<u8>) -> Seq<char> {
    weak("generator-"@ + digest::hex_text(digest::sha256(serialized)))
}

/// The validator of a generator's description, from its serialised form.
pub fn generator_etag(serialized: &[u8]) -> (r: String)
    ensures
        r@ == generator_tag(serialized@),
{
    let mut value = "generator-".to_owned();
    let digest = digest::digest_hex(serialized);
    value.append(digest.as_str());
    weak_etag(value.as_str())
}

/// The validator of a file that is streamed: its size and the time of its last
/// change.
pub open spec fn revision_tag(size: u64, changed_nanos: u128) -> Seq<char> {
    weak(text::decimal(size as nat) + "-"@ + text::decimal(changed_nanos as nat))
}

pub fn revision_etag(size: u64, changed_nanos: u128) -> (r: String)
    ensures
        r@ == revision_tag(size, changed_nanos),
{
    let mut value = text::decimal_text(size);
    value.append("-");
    text::push_decimal_wide(&mut value, changed_nanos);
    weak_etag(value.as_str())
}

/// The tag in quotes.
pub open spec fn strong(value: Seq<char>) -> Seq<char> {
    "\""@ + value + "\""@
}

proof fn skip_quotes_of_text(s: Seq<char>)
    requires
        is_tag_text(s),
    ensures
        skip_quotes(s) == s,
        drop_quotes(s) == s,
{
    assert(tag_char(s[0]));
    assert(tag_char(s[s.len() - 1]));
}

/// A validator names the text between its quotes.
pub proof fn a_validator_names_its_text(value: Seq<char>)
    requires
        is_tag_text(value),
    ensures
        opaque_of(weak(value)) == value,
        opaque_of(strong(value)) == value,
{
    reveal_strlit("W/\"");
    reveal_strlit("\"");
    let w = weak(value);
    assert(w.len() == value.len() + 4);
    assert(w[0] == 'W');
    assert(w[1] == '/');
    assert(w[2] == '"');
    assert(w.last() == '"');
    text::trimmed_keeps_tight(w);
    let marked = w.skip(2);
    assert(marked == strong(value));
    assert(skip_weakness(marked) == marked);
    let s = strong(value);
    assert(s[0] == '"');
    assert(s.last() == '"');
    text::trimmed_keeps_tight(s);
    let open = s.skip(1);
    assert(open == value.push('"'));
    assert(tag_char(value[0]));
    assert(open[0] == value[0]);
    assert(skip_quotes(open) == open);
    assert(skip_quotes(s) == open);
    assert(open.drop_last() == value);
    skip_quotes_of_text(value);
}

/// A precondition that lists one tag, weak or strong, names exactly that tag:
/// the comparison is weak.
pub proof fn weak_and_strong_preconditions_agree(bytes: Seq<u8>, value: Seq<char>)
    requires
        is_tag_text(value),
        !value.contains(','),
        header::all_visible(bytes),
        header::ascii_text(bytes) == weak(value) || header::ascii_text(bytes) == strong(value),
    ensures
        condition_of(Some(bytes)) == Ok::<_, Seq<char>>(Condition::Tags(seq![value])),
        forall|other: Seq<char>|
            #[trigger] names(Condition::Tags(seq![value]), other) <==> other == value,
{
    reveal_strlit("W/\"");
    reveal_strlit("\"");
    reveal_strlit("W/");
    reveal_strlit("*");
    let listed = header::ascii_text(bytes);
    assert(listed.last() == '"');
    assert(listed[0] == 'W' || listed[0] == '"');
    text::trimmed_keeps_tight(listed);
    assert(!listed.contains(',')) by {
        if listed.contains(',') {
            let i = choose|i: int| 0 <= i < listed.len() && listed[i] == ',';
            let at = if listed == weak(value) { i - 3 } else { i - 1 };
            assert(0 <= at < value.len());
            assert(value[at] == ',');
        }
    }
    text::split_of_one(listed, ',');
    let tag = without_weakness(listed);
    assert(tag == strong(value)) by {
        if listed == weak(value) {
            assert("W/"@.is_prefix_of(listed));
            assert(listed.skip(2) =~= strong(value));
        } else {
            assert(listed[0] == '"');
            assert(!"W/"@.is_prefix_of(listed)) by {
                if "W/"@.is_prefix_of(listed) {
                    assert("W/"@[0] == listed[0]);
                }
            }
        }
    }
    assert(tag.subrange(1, tag.len() - 1) == value);
    assert(entity_tag(listed) == Some(value));
    let entries = text::split(listed, ',');
    assert(entries == seq![listed]);
    assert(listed != "*"@) by {
        assert(listed.len() >= 2);
    }
    assert(entries.map_values(|entry: Seq<char>| entity_tag(entry)->0) =~= seq![value]);
    assert forall|other: Seq<char>|
        #[trigger] names(Condition::Tags(seq![value]), other) <==> other == value by {
        if other == value {
            assert(seq![value][0] == other);
        }
    }
}

/// The hexadecimal form of some bytes can stand in a tag.
pub proof fn digests_are_tag_texts(bytes: Seq<u8>)
    requires
        bytes.len() > 0,
    ensures
        is_tag_text(digest::hex_text(bytes)),
        !digest::hex_text(bytes).contains(','),
{
    let t = digest::hex_text(bytes);
    assert forall|i: int| 0 <= i < t.len() implies tag_char(#[trigger] t[i]) && t[i] != ',' by {
    }
}

/// What a reader was served validates: a conditional read under the validator
/// of the very same content is answered without a body, and one under the
/// validator of content with another digest gets the body.
pub proof fn a_validator_is_good_for_its_own_content_only(
    bytes: Seq<u8>,
    known: Seq<u8>,
    current: Seq<u8>,
    body: Seq<u8>,
    content_type: Seq<char>,
)
    requires
        known.len() > 0,
        current.len() > 0,
        header::all_visible(bytes),
        header::ascii_text(bytes) == weak(digest::hex_text(known)),
    ensures
        condition_of(Some(bytes)) matches Ok(condition) && ({
            let reply = conditional_reply(
                condition,
                body,
                content_type,
                weak(digest::hex_text(current)),
            );
            if known == current {
                reply.head.status == 304 && reply.body.len() == 0
            } else {
                reply.head.status == 200 && reply.body == body
            }
        }),
{
    let value = digest::hex_text(known);
    let now = digest::hex_text(current);
    digests_are_tag_texts(known);
    digests_are_tag_texts(current);
    weak_and_strong_preconditions_agree(bytes, value);
    a_validator_names_its_text(now);
    if value == now {
        digest::hex_text_is_injective(known, current);
    }
}

/// Any representation satisfies `*`, and a read without a precondition always
/// gets the body.
pub proof fn star_and_absence(body: Seq<u8>, content_type: Seq<char>, etag: Seq<char>)
    ensures
        conditional_reply(Condition::Star, body, content_type, etag).head == not_modified(etag),
        conditional_reply(Condition::Star, body, content_type, etag).body.len() == 0,
        conditional_reply(Condition::Absent, body, content_type, etag).head == full_head(
            content_type,
            etag,
        ),
        conditional_reply(Condition::Absent, body, content_type, etag).body == body,
{
}

} // verus!
