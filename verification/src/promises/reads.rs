//! What a reader of runs, artifacts and journals gets.
use vstd::prelude::*;
use crate::artifact;
use crate::artifact::Artifact;
use crate::digest;
use crate::etag;
use crate::etag::{Condition, HeadModel};
use crate::header;
use crate::journal;
use crate::journal::RecordModel;
use crate::json;
use crate::mutation;
use crate::order;
use crate::text;

verus! {

/// A text that can stand in an entity tag: not empty, and without quotation
/// marks, spaces and control characters.
pub open spec fn can_be_tagged(value: Seq<char>) -> bool {
    value.len() > 0 && forall|i: int|
        0 <= i < value.len() ==> #[trigger] value[i] != '"' && value[i] as int >= 33
            && value[i] as int != 127
}

/// A head has this header, once.
pub open spec fn has_header(head: HeadModel, name: Seq<char>, value: Seq<char>) -> bool {
    exists|i: int|
        0 <= i < head.headers.len() && #[trigger] head.headers[i] == (name, value) && forall|j: int|
            0 <= j < head.headers.len() && j != i ==> (#[trigger] head.headers[j]).0 != name
}

/// A reader that names the current tag, or any tag, is told that nothing has
/// changed and gets no body; any other reader gets the body. Either way the
/// answer names the tag, and is not to be stored.
pub proof fn a_body_is_sent_unless_its_tag_is_named(
    condition: Condition,
    body: Seq<u8>,
    content_type: Seq<char>,
    value: Seq<char>,
    weakly: bool,
)
    requires
        can_be_tagged(value),
    ensures
        ({
            let tag = if weakly {
                seq!['W', '/', '"'] + value + seq!['"']
            } else {
                seq!['"'] + value + seq!['"']
            };
            let reply = etag::conditional_reply(condition, body, content_type, tag);
            let known = condition is Star || (condition matches Condition::Tags(tags)
                && tags.contains(value));
            &&& (known ==> reply.head.status == 304 && reply.body.len() == 0
                && reply.head.headers.len() == 2)
            &&& (!known ==> reply.head.status == 200 && reply.body == body && has_header(
                reply.head,
                "content-type"@,
                content_type,
            ) && reply.head.headers.len() == 3)
            &&& has_header(reply.head, "etag"@, tag)
            &&& has_header(reply.head, "cache-control"@, "no-store"@)
        }),
{
    assert(etag::is_tag_text(value)) by {
        assert forall|i: int| 0 <= i < value.len() implies etag::tag_char(#[trigger] value[i]) by {
            assert(value[i] as int >= 33);
        }
    }
    etag::a_validator_names_its_text(value);
    reveal_strlit("W/\"");
    reveal_strlit("\"");
    assert(etag::weak(value) =~= seq!['W', '/', '"'] + value + seq!['"']);
    assert(etag::strong(value) =~= seq!['"'] + value + seq!['"']);
    let tag = if weakly {
        seq!['W', '/', '"'] + value + seq!['"']
    } else {
        seq!['"'] + value + seq!['"']
    };
    names_differ();
    let reply = etag::conditional_reply(condition, body, content_type, tag);
    if reply.head.status == 304 {
        assert(reply.head.headers[0] == ("etag"@, tag));
        assert(reply.head.headers[1] == ("cache-control"@, "no-store"@));
    } else {
        assert(reply.head.headers[0] == ("content-type"@, content_type));
        assert(reply.head.headers[1] == ("etag"@, tag));
        assert(reply.head.headers[2] == ("cache-control"@, "no-store"@));
    }
}

proof fn names_differ()
    ensures
        "etag"@ != "cache-control"@,
        "etag"@ != "content-type"@,
        "etag"@ != "content-disposition"@,
        "etag"@ != "content-length"@,
        "etag"@ != "location"@,
        "cache-control"@ != "content-type"@,
        "cache-control"@ != "content-disposition"@,
        "cache-control"@ != "content-length"@,
        "cache-control"@ != "location"@,
        "content-type"@ != "content-disposition"@,
        "content-type"@ != "content-length"@,
        "content-type"@ != "location"@,
        "content-disposition"@ != "content-length"@,
{
    reveal_strlit("etag");
    reveal_strlit("cache-control");
    reveal_strlit("content-type");
    reveal_strlit("content-disposition");
    reveal_strlit("content-length");
    reveal_strlit("location");
    assert("etag"@.len() == 4);
    assert("cache-control"@.len() == 13);
    assert("content-type"@.len() == 12);
    assert("content-disposition"@.len() == 19);
    assert("content-length"@.len() == 14);
    assert("location"@.len() == 8);
}

/// Without the header there is no condition, a lone star is met by everything,
/// and one tag, weak or strong, is met by itself.
pub proof fn a_condition_is_read(bytes: Seq<u8>, value: Seq<char>)
    ensures
        etag::condition_of(None) == Ok::<Condition, Seq<char>>(Condition::Absent),
        bytes == seq![42u8] ==> etag::condition_of(Some(bytes)) == Ok::<Condition, Seq<char>>(
            Condition::Star,
        ),
        bytes.len() == 0 ==> etag::condition_of(Some(bytes)) is Err,
        can_be_tagged(value) && !value.contains(',') && (forall|i: int|
            0 <= i < bytes.len() ==> 32 <= #[trigger] bytes[i] < 127) && (bytes.map_values(
            |b: u8| b as char,
        ) == seq!['"'] + value + seq!['"'] || bytes.map_values(|b: u8| b as char) == seq![
            'W',
            '/',
            '"',
        ] + value + seq!['"']) ==> etag::condition_of(Some(bytes)) == Ok::<Condition, Seq<char>>(
            Condition::Tags(seq![value]),
        ),
{
    reveal_strlit("*");
    reveal_strlit("W/\"");
    reveal_strlit("\"");
    if bytes == seq![42u8] {
        let chars = header::ascii_text(bytes);
        assert(chars =~= seq!['*']);
        assert(chars =~= "*"@);
        text::trimmed_keeps_tight(chars);
    }
    if bytes.len() == 0 {
        let chars = header::ascii_text(bytes);
        assert(chars =~= Seq::<char>::empty());
        assert(text::trimmed(chars) =~= Seq::<char>::empty());
        text::split_of_one(Seq::<char>::empty(), ',');
        let entries = text::split(Seq::<char>::empty(), ',');
        assert(entries[0] =~= Seq::<char>::empty());
        reveal_strlit("W/");
        assert(text::trimmed(entries[0]).len() == 0);
        assert(etag::without_weakness(text::trimmed(entries[0])).len() == 0);
        assert(etag::entity_tag(entries[0]) is None);
    }
    if can_be_tagged(value) && !value.contains(',') && (forall|i: int|
        0 <= i < bytes.len() ==> 32 <= #[trigger] bytes[i] < 127) {
        assert(etag::is_tag_text(value)) by {
            assert forall|i: int| 0 <= i < value.len() implies etag::tag_char(
                #[trigger] value[i],
            ) by {
                assert(value[i] as int >= 33);
            }
        }
        assert(etag::weak(value) =~= seq!['W', '/', '"'] + value + seq!['"']);
        assert(etag::strong(value) =~= seq!['"'] + value + seq!['"']);
        assert(header::all_visible(bytes)) by {
            assert forall|i: int| 0 <= i < bytes.len() implies header::visible(
                #[trigger] bytes[i],
            ) by {
                assert(32 <= bytes[i] < 127);
            }
        }
        if header::ascii_text(bytes) == etag::weak(value) || header::ascii_text(bytes)
            == etag::strong(value) {
            etag::weak_and_strong_preconditions_agree(bytes, value);
        }
    }
}

/// A tag is read only between two quotation marks, behind an optional mark of
/// weakness, and only where it is not empty and holds no quotation mark, space
/// or control character.
pub proof fn only_quoted_tags_are_read(entry: Seq<char>)
    ensures
        etag::entity_tag(entry) matches Some(value) ==> can_be_tagged(value) && (text::trimmed(entry)
            == seq!['"'] + value + seq!['"'] || text::trimmed(entry) == seq!['W', '/', '"'] + value
            + seq!['"']),
{
    if etag::entity_tag(entry) is Some {
        let value = etag::entity_tag(entry)->0;
        let whole = text::trimmed(entry);
        let tag = etag::without_weakness(whole);
        assert forall|i: int| 0 <= i < value.len() implies #[trigger] value[i] != '"'
            && value[i] as int >= 33 && value[i] as int != 127 by {
            assert(etag::tag_char(value[i]));
        }
        assert(tag =~= seq!['"'] + value + seq!['"']);
        reveal_strlit("W/");
        if "W/"@.is_prefix_of(whole) {
            assert(whole.subrange(0, 2) =~= seq!['W', '/']);
            assert(whole =~= whole.subrange(0, 2) + tag);
            assert(whole =~= seq!['W', '/', '"'] + value + seq!['"']);
        }
    }
}

/// A list of tags is read only where each of its parts is a tag, and gives the
/// tags in order.
pub proof fn a_list_of_tags_is_read_part_by_part(bytes: Seq<u8>, i: int)
    requires
        etag::condition_of(Some(bytes)) matches Ok(Condition::Tags(_)),
    ensures
        ({
            let parts = text::split(text::trimmed(bytes.map_values(|b: u8| b as char)), ',');
            let tags = etag::condition_of(Some(bytes))->Ok_0->Tags_0;
            &&& tags.len() == parts.len()
            &&& (0 <= i < parts.len() ==> etag::entity_tag(parts[i]) == Some(tags[i]))
        }),
{
    let chars = header::ascii_text(bytes);
    assert(chars == bytes.map_values(|b: u8| b as char));
    let parts = text::split(text::trimmed(chars), ',');
    if 0 <= i < parts.len() {
        assert(etag::entity_tag(parts[i]) is Some);
    }
}

/// The tag of a body is the hexadecimal digest of its bytes, two digits for
/// each, the high half first.
pub proof fn a_body_is_tagged_by_its_digest(body: Seq<u8>, i: int)
    ensures
        etag::body_tag(body) == seq!['W', '/', '"'] + digest::hex_text(digest::sha256(body)) + seq![
            '"',
        ],
        digest::hex_text(body).len() == 2 * body.len(),
        0 <= i < body.len() ==> {
            let (high, low) = (digest::hex_text(body)[2 * i], digest::hex_text(body)[2 * i + 1]);
            &&& high as int == (if body[i] / 16 < 10 {
                48 + body[i] / 16
            } else {
                87 + body[i] / 16
            })
            &&& low as int == (if body[i] % 16 < 10 {
                48 + body[i] % 16
            } else {
                87 + body[i] % 16
            })
        },
{
    reveal_strlit("W/\"");
    reveal_strlit("\"");
    assert(etag::body_tag(body) =~= seq!['W', '/', '"'] + digest::hex_text(digest::sha256(body))
        + seq!['"']);
    if 0 <= i < body.len() {
        assert((2 * i) / 2 == i && (2 * i) % 2 == 0);
        assert((2 * i + 1) / 2 == i && (2 * i + 1) % 2 == 1);
    }
}

/// A journal that grows or changes gets another tag: the size and the time of
/// the change are both in it.
pub proof fn a_changed_journal_has_another_tag(size: u64, at: u128, other_size: u64, other_at: u128)
    requires
        etag::revision_tag(size, at) == etag::revision_tag(other_size, other_at),
    ensures
        size == other_size,
        at == other_at,
{
    let (a, b) = (text::decimal(size as nat), text::decimal(other_size as nat));
    let (c, d) = (text::decimal(at as nat), text::decimal(other_at as nat));
    reveal_strlit("W/\"");
    reveal_strlit("\"");
    reveal_strlit("-");
    let x = etag::revision_tag(size, at);
    let y = etag::revision_tag(other_size, other_at);
    super::texts::numbers_are_told_apart(size as nat, other_size as nat);
    super::texts::numbers_are_told_apart(at as nat, other_at as nat);
    super::texts::numbers_are_told_apart(other_size as nat, size as nat);
    assert(x[3 + a.len() as int] == '-');
    assert(y[3 + b.len() as int] == '-');
    if a.len() < b.len() {
        assert(y[3 + a.len() as int] == b[a.len() as int]);
    }
    if b.len() < a.len() {
        assert(x[3 + b.len() as int] == a[b.len() as int]);
    }
    assert(x.subrange(3, 3 + a.len() as int) =~= a);
    assert(y.subrange(3, 3 + a.len() as int) =~= b);
    assert(x.subrange(4 + a.len() as int, x.len() - 1) =~= c);
    assert(y.subrange(4 + a.len() as int, y.len() - 1) =~= d);
}

/// A mutation is answered with the snapshot of its run under the status it
/// ended with; the tag is that of the snapshot, and a new run's place is given.
pub proof fn a_mutation_is_answered_with_its_snapshot(
    status: u16,
    body: Seq<u8>,
    location: Option<Seq<char>>,
)
    ensures
        ({
            let reply = etag::validated_reply(status, body, location);
            &&& reply.head.status == status
            &&& reply.body == body
            &&& has_header(reply.head, "content-type"@, "application/json"@)
            &&& has_header(reply.head, "etag"@, etag::body_tag(body))
            &&& has_header(reply.head, "cache-control"@, "no-store"@)
            &&& (location is Some ==> has_header(reply.head, "location"@, location->0))
            &&& reply.head.headers.len() == (if location is Some {
                4int
            } else {
                3int
            })
        }),
{
    names_differ();
    let reply = etag::validated_reply(status, body, location);
    assert(reply.head.headers[0] == ("content-type"@, "application/json"@));
    assert(reply.head.headers[1] == ("etag"@, etag::body_tag(body)));
    assert(reply.head.headers[2] == ("cache-control"@, "no-store"@));
    if location is Some {
        assert(reply.head.headers[3] == ("location"@, location->0));
    }
}

/// A run is cancelled by its id with `:cancel` behind it, and by nothing else;
/// a run is found under its id.
pub proof fn a_run_is_cancelled_by_its_id(run_id: Seq<char>, segment: Seq<char>)
    ensures
        run_id.len() > 0 ==> mutation::run_to_cancel(run_id + ":cancel"@) == Some(run_id),
        mutation::run_to_cancel(segment) matches Some(id) ==> id.len() > 0 && segment == id
            + ":cancel"@,
        mutation::run_location(run_id) == "/api/runs/"@ + run_id,
{
    reveal_strlit(":cancel");
    let whole = run_id + ":cancel"@;
    let at = whole.len() - ":cancel"@.len();
    assert(at == run_id.len());
    assert(whole.skip(at) =~= ":cancel"@);
    assert(whole.take(at) =~= run_id);
    if mutation::run_to_cancel(segment) is Some {
        let cut = segment.len() - ":cancel"@.len();
        assert(segment =~= segment.take(cut) + segment.skip(cut));
    }
}

/// An artifact is delivered under its own media type, or one that follows from
/// its extension; under the last part of its path; with its size and its
/// digest; and is not to be stored.
pub proof fn an_artifact_is_described(path: Seq<char>, artifact: Artifact)
    ensures
        ({
            let head = artifact::artifact_reply(path, artifact);
            &&& head.status == 200
            &&& head.headers.len() == 5
            &&& (artifact.mime is Some ==> has_header(
                head,
                "content-type"@,
                artifact.mime->0@,
            ))
            &&& (artifact.mime is None ==> has_header(
                head,
                "content-type"@,
                artifact::media_type(text::after_last(artifact.path@, '.')),
            ))
            &&& has_header(
                head,
                "content-disposition"@,
                "attachment; filename=\""@ + artifact::saved_name(path) + "\""@,
            )
            &&& has_header(head, "content-length"@, text::decimal(artifact.bytes as nat))
            &&& has_header(head, "etag"@, seq!['"'] + artifact.sha256@ + seq!['"'])
            &&& has_header(head, "cache-control"@, "no-store"@)
        }),
{
    names_differ();
    reveal_strlit("\"");
    let head = artifact::artifact_reply(path, artifact);
    assert(etag::strong(artifact.sha256@) =~= seq!['"'] + artifact.sha256@ + seq!['"']);
    assert(head.headers[0].0 == "content-type"@);
    assert(head.headers[1] == ("content-disposition"@, artifact::attachment(path)));
    assert(head.headers[2] == ("content-length"@, text::decimal(artifact.bytes as nat)));
    assert(head.headers[3] == ("etag"@, etag::strong(artifact.sha256@)));
    assert(head.headers[4] == ("cache-control"@, "no-store"@));
}

/// The name that an artifact is saved under is the last part of its path,
/// character by character, with an underscore for each quotation mark,
/// backslash, carriage return and line feed.
pub proof fn a_saved_name_is_the_last_part(dir: Seq<char>, name: Seq<char>, i: int)
    requires
        !name.contains('/'),
        0 <= i < name.len(),
    ensures
        artifact::saved_name(dir + seq!['/'] + name).len() == name.len(),
        artifact::saved_name(name).len() == name.len(),
        artifact::saved_name(dir + seq!['/'] + name)[i] == (if name[i] == '"' || name[i] == '\\'
            || name[i] == '\r' || name[i] == '\n' {
            '_'
        } else {
            name[i]
        }),
        artifact::saved_name(name)[i] == artifact::saved_name(dir + seq!['/'] + name)[i],
{
    let path = dir + seq!['/'] + name;
    super::texts::the_tail_follows_the_last_separator(path, '/');
    super::texts::the_tail_follows_the_last_separator(name, '/');
    let tail = text::after_last(path, '/');
    let bare = text::after_last(name, '/');
    let slash = dir.len() as int;
    assert(path[slash] == '/');
    if tail.len() > name.len() {
        let at = slash - (path.len() - tail.len());
        assert(path.skip(path.len() - tail.len())[at] == path[slash]);
        assert(tail[at] == '/');
    }
    if tail.len() < name.len() {
        let at = path.len() - tail.len() - 1;
        assert(path[at] == name[at - slash - 1]);
        assert(name.contains(name[at - slash - 1]));
    }
    assert(path.skip(path.len() - tail.len()) =~= name);
    if bare.len() < name.len() {
        assert(name.contains(name[name.len() - bare.len() - 1]));
    }
    assert(name.skip(name.len() - bare.len()) =~= name);
}

/// An artifact fits exactly where it has the recorded size and is within the
/// bound, and is the recorded one exactly where its size and the digest of its
/// content are the recorded ones.
pub proof fn an_artifact_is_checked_in_full(
    artifact: Artifact,
    actual: u64,
    limit: Option<u64>,
    content: Seq<u8>,
)
    ensures
        artifact::size_fits(artifact, actual, limit) <==> actual == artifact.bytes && (limit is Some
            ==> actual <= limit->0),
        artifact::is_recorded(artifact, content) <==> content.len() == artifact.bytes
            && digest::hex_text(digest::sha256(content)) == artifact.sha256@,
{
}

/// An archive of a run is a zip file named after the run and what it holds.
pub proof fn an_archive_is_described(run_id: Seq<char>, what: Seq<char>)
    ensures
        ({
            let head = artifact::archive_reply(run_id, what);
            &&& head.status == 200
            &&& head.headers.len() == 3
            &&& has_header(head, "content-type"@, "application/zip"@)
            &&& has_header(
                head,
                "content-disposition"@,
                "attachment; filename=\""@ + run_id + "-"@ + what + ".zip\""@,
            )
            &&& has_header(head, "cache-control"@, "no-store"@)
        }),
{
    names_differ();
    let head = artifact::archive_reply(run_id, what);
    assert(head.headers[0] == ("content-type"@, "application/zip"@));
    assert(head.headers[1].0 == "content-disposition"@);
    assert(head.headers[2] == ("cache-control"@, "no-store"@));
}

/// An asset of a generator is shown in place, under the media type of its
/// extension.
pub proof fn an_asset_is_described(path: Seq<char>)
    ensures
        ({
            let head = artifact::asset_reply(path);
            &&& head.status == 200
            &&& head.headers.len() == 3
            &&& has_header(
                head,
                "content-type"@,
                artifact::media_type(text::after_last(path, '.')),
            )
            &&& has_header(head, "content-disposition"@, "inline"@)
            &&& has_header(head, "cache-control"@, "no-store"@)
        }),
{
    names_differ();
    let head = artifact::asset_reply(path);
    assert(head.headers[0].0 == "content-type"@);
    assert(head.headers[1] == ("content-disposition"@, "inline"@));
    assert(head.headers[2] == ("cache-control"@, "no-store"@));
}

/// The media type of a file follows from its extension, whatever stands before
/// it, and is that of plain bytes for an extension that is not known.
pub proof fn a_media_type_follows_the_extension(stem: Seq<char>, ext: Seq<char>)
    requires
        !ext.contains('.'),
    ensures
        ({
            let head = artifact::asset_reply(stem + seq!['.'] + ext);
            &&& (ext == "css"@ ==> has_header(head, "content-type"@, "text/css; charset=utf-8"@))
            &&& (ext == "js"@ || ext == "mjs"@ ==> has_header(head, "content-type"@, "text/javascript; charset=utf-8"@))
            &&& (ext == "json"@ ==> has_header(head, "content-type"@, "application/json; charset=utf-8"@))
            &&& (ext == "svg"@ ==> has_header(head, "content-type"@, "image/svg+xml"@))
            &&& (ext == "png"@ ==> has_header(head, "content-type"@, "image/png"@))
            &&& (ext == "jpg"@ || ext == "jpeg"@ ==> has_header(head, "content-type"@, "image/jpeg"@))
            &&& (ext == "webp"@ ==> has_header(head, "content-type"@, "image/webp"@))
            &&& (ext == "gif"@ ==> has_header(head, "content-type"@, "image/gif"@))
            &&& (ext == "ico"@ ==> has_header(head, "content-type"@, "image/x-icon"@))
            &&& (ext == "html"@ || ext == "htm"@ ==> has_header(head, "content-type"@, "text/html; charset=utf-8"@))
            &&& (ext == "wasm"@ ==> has_header(head, "content-type"@, "application/wasm"@))
            &&& (ext == "woff2"@ ==> has_header(head, "content-type"@, "font/woff2"@))
            &&& (ext == "csv"@ ==> has_header(head, "content-type"@, "text/csv; charset=utf-8"@))
            &&& (ext == "xml"@ ==> has_header(head, "content-type"@, "application/xml; charset=utf-8"@))
            &&& (ext == "yaml"@ || ext == "yml"@ ==> has_header(head, "content-type"@, "application/yaml; charset=utf-8"@))
            &&& (ext == "toml"@ ==> has_header(head, "content-type"@, "application/toml; charset=utf-8"@))
            &&& (ext == "pdf"@ ==> has_header(head, "content-type"@, "application/pdf"@))
            &&& (ext == "zip"@ ==> has_header(head, "content-type"@, "application/zip"@))
            &&& (ext == "md"@ ==> has_header(head, "content-type"@, "text/markdown; charset=utf-8"@))
            &&& (ext == "txt"@ ==> has_header(head, "content-type"@, "text/plain; charset=utf-8"@))
            &&& (ext != "css"@ && ext != "js"@ && ext != "mjs"@ && ext != "json"@ && ext != "svg"@ && ext != "png"@ && ext != "jpg"@ && ext != "jpeg"@ && ext != "webp"@ && ext != "gif"@ && ext != "ico"@ && ext != "html"@ && ext != "htm"@ && ext != "wasm"@ && ext != "woff2"@ && ext != "csv"@ && ext != "xml"@ && ext != "yaml"@ && ext != "yml"@ && ext != "toml"@ && ext != "pdf"@ && ext != "zip"@ && ext != "md"@ && ext != "txt"@ ==> has_header(
                head,
                "content-type"@,
                "application/octet-stream"@,
            ))
        }),
{
    let path = stem + seq!['.'] + ext;
    super::keys::the_tail_is_the_extension(stem, ext);
    an_asset_is_described(path);
    extensions_differ();
}

proof fn extensions_differ()
    ensures
        "js"@ != "css"@,
        "mjs"@ != "css"@,
        "json"@ != "css"@,
        "json"@ != "js"@,
        "json"@ != "mjs"@,
        "svg"@ != "css"@,
        "svg"@ != "js"@,
        "svg"@ != "mjs"@,
        "svg"@ != "json"@,
        "png"@ != "css"@,
        "png"@ != "js"@,
        "png"@ != "mjs"@,
        "png"@ != "json"@,
        "png"@ != "svg"@,
        "jpg"@ != "css"@,
        "jpg"@ != "js"@,
        "jpg"@ != "mjs"@,
        "jpg"@ != "json"@,
        "jpg"@ != "svg"@,
        "jpg"@ != "png"@,
        "jpeg"@ != "css"@,
        "jpeg"@ != "js"@,
        "jpeg"@ != "mjs"@,
        "jpeg"@ != "json"@,
        "jpeg"@ != "svg"@,
        "jpeg"@ != "png"@,
        "webp"@ != "css"@,
        "webp"@ != "js"@,
        "webp"@ != "mjs"@,
        "webp"@ != "json"@,
        "webp"@ != "svg"@,
        "webp"@ != "png"@,
        "webp"@ != "jpg"@,
        "webp"@ != "jpeg"@,
        "gif"@ != "css"@,
        "gif"@ != "js"@,
        "gif"@ != "mjs"@,
        "gif"@ != "json"@,
        "gif"@ != "svg"@,
        "gif"@ != "png"@,
        "gif"@ != "jpg"@,
        "gif"@ != "jpeg"@,
        "gif"@ != "webp"@,
        "ico"@ != "css"@,
        "ico"@ != "js"@,
        "ico"@ != "mjs"@,
        "ico"@ != "json"@,
        "ico"@ != "svg"@,
        "ico"@ != "png"@,
        "ico"@ != "jpg"@,
        "ico"@ != "jpeg"@,
        "ico"@ != "webp"@,
        "ico"@ != "gif"@,
        "html"@ != "css"@,
        "html"@ != "js"@,
        "html"@ != "mjs"@,
        "html"@ != "json"@,
        "html"@ != "svg"@,
        "html"@ != "png"@,
        "html"@ != "jpg"@,
        "html"@ != "jpeg"@,
        "html"@ != "webp"@,
        "html"@ != "gif"@,
        "html"@ != "ico"@,
        "htm"@ != "css"@,
        "htm"@ != "js"@,
        "htm"@ != "mjs"@,
        "htm"@ != "json"@,
        "htm"@ != "svg"@,
        "htm"@ != "png"@,
        "htm"@ != "jpg"@,
        "htm"@ != "jpeg"@,
        "htm"@ != "webp"@,
        "htm"@ != "gif"@,
        "htm"@ != "ico"@,
        "wasm"@ != "css"@,
        "wasm"@ != "js"@,
        "wasm"@ != "mjs"@,
        "wasm"@ != "json"@,
        "wasm"@ != "svg"@,
        "wasm"@ != "png"@,
        "wasm"@ != "jpg"@,
        "wasm"@ != "jpeg"@,
        "wasm"@ != "webp"@,
        "wasm"@ != "gif"@,
        "wasm"@ != "ico"@,
        "wasm"@ != "html"@,
        "wasm"@ != "htm"@,
        "woff2"@ != "css"@,
        "woff2"@ != "js"@,
        "woff2"@ != "mjs"@,
        "woff2"@ != "json"@,
        "woff2"@ != "svg"@,
        "woff2"@ != "png"@,
        "woff2"@ != "jpg"@,
        "woff2"@ != "jpeg"@,
        "woff2"@ != "webp"@,
        "woff2"@ != "gif"@,
        "woff2"@ != "ico"@,
        "woff2"@ != "html"@,
        "woff2"@ != "htm"@,
        "woff2"@ != "wasm"@,
        "csv"@ != "css"@,
        "csv"@ != "js"@,
        "csv"@ != "mjs"@,
        "csv"@ != "json"@,
        "csv"@ != "svg"@,
        "csv"@ != "png"@,
        "csv"@ != "jpg"@,
        "csv"@ != "jpeg"@,
        "csv"@ != "webp"@,
        "csv"@ != "gif"@,
        "csv"@ != "ico"@,
        "csv"@ != "html"@,
        "csv"@ != "htm"@,
        "csv"@ != "wasm"@,
        "csv"@ != "woff2"@,
        "xml"@ != "css"@,
        "xml"@ != "js"@,
        "xml"@ != "mjs"@,
        "xml"@ != "json"@,
        "xml"@ != "svg"@,
        "xml"@ != "png"@,
        "xml"@ != "jpg"@,
        "xml"@ != "jpeg"@,
        "xml"@ != "webp"@,
        "xml"@ != "gif"@,
        "xml"@ != "ico"@,
        "xml"@ != "html"@,
        "xml"@ != "htm"@,
        "xml"@ != "wasm"@,
        "xml"@ != "woff2"@,
        "xml"@ != "csv"@,
        "yaml"@ != "css"@,
        "yaml"@ != "js"@,
        "yaml"@ != "mjs"@,
        "yaml"@ != "json"@,
        "yaml"@ != "svg"@,
        "yaml"@ != "png"@,
        "yaml"@ != "jpg"@,
        "yaml"@ != "jpeg"@,
        "yaml"@ != "webp"@,
        "yaml"@ != "gif"@,
        "yaml"@ != "ico"@,
        "yaml"@ != "html"@,
        "yaml"@ != "htm"@,
        "yaml"@ != "wasm"@,
        "yaml"@ != "woff2"@,
        "yaml"@ != "csv"@,
        "yaml"@ != "xml"@,
        "yml"@ != "css"@,
        "yml"@ != "js"@,
        "yml"@ != "mjs"@,
        "yml"@ != "json"@,
        "yml"@ != "svg"@,
        "yml"@ != "png"@,
        "yml"@ != "jpg"@,
        "yml"@ != "jpeg"@,
        "yml"@ != "webp"@,
        "yml"@ != "gif"@,
        "yml"@ != "ico"@,
        "yml"@ != "html"@,
        "yml"@ != "htm"@,
        "yml"@ != "wasm"@,
        "yml"@ != "woff2"@,
        "yml"@ != "csv"@,
        "yml"@ != "xml"@,
        "toml"@ != "css"@,
        "toml"@ != "js"@,
        "toml"@ != "mjs"@,
        "toml"@ != "json"@,
        "toml"@ != "svg"@,
        "toml"@ != "png"@,
        "toml"@ != "jpg"@,
        "toml"@ != "jpeg"@,
        "toml"@ != "webp"@,
        "toml"@ != "gif"@,
        "toml"@ != "ico"@,
        "toml"@ != "html"@,
        "toml"@ != "htm"@,
        "toml"@ != "wasm"@,
        "toml"@ != "woff2"@,
        "toml"@ != "csv"@,
        "toml"@ != "xml"@,
        "toml"@ != "yaml"@,
        "toml"@ != "yml"@,
        "pdf"@ != "css"@,
        "pdf"@ != "js"@,
        "pdf"@ != "mjs"@,
        "pdf"@ != "json"@,
        "pdf"@ != "svg"@,
        "pdf"@ != "png"@,
        "pdf"@ != "jpg"@,
        "pdf"@ != "jpeg"@,
        "pdf"@ != "webp"@,
        "pdf"@ != "gif"@,
        "pdf"@ != "ico"@,
        "pdf"@ != "html"@,
        "pdf"@ != "htm"@,
        "pdf"@ != "wasm"@,
        "pdf"@ != "woff2"@,
        "pdf"@ != "csv"@,
        "pdf"@ != "xml"@,
        "pdf"@ != "yaml"@,
        "pdf"@ != "yml"@,
        "pdf"@ != "toml"@,
        "zip"@ != "css"@,
        "zip"@ != "js"@,
        "zip"@ != "mjs"@,
        "zip"@ != "json"@,
        "zip"@ != "svg"@,
        "zip"@ != "png"@,
        "zip"@ != "jpg"@,
        "zip"@ != "jpeg"@,
        "zip"@ != "webp"@,
        "zip"@ != "gif"@,
        "zip"@ != "ico"@,
        "zip"@ != "html"@,
        "zip"@ != "htm"@,
        "zip"@ != "wasm"@,
        "zip"@ != "woff2"@,
        "zip"@ != "csv"@,
        "zip"@ != "xml"@,
        "zip"@ != "yaml"@,
        "zip"@ != "yml"@,
        "zip"@ != "toml"@,
        "zip"@ != "pdf"@,
        "md"@ != "css"@,
        "md"@ != "js"@,
        "md"@ != "mjs"@,
        "md"@ != "json"@,
        "md"@ != "svg"@,
        "md"@ != "png"@,
        "md"@ != "jpg"@,
        "md"@ != "jpeg"@,
        "md"@ != "webp"@,
        "md"@ != "gif"@,
        "md"@ != "ico"@,
        "md"@ != "html"@,
        "md"@ != "htm"@,
        "md"@ != "wasm"@,
        "md"@ != "woff2"@,
        "md"@ != "csv"@,
        "md"@ != "xml"@,
        "md"@ != "yaml"@,
        "md"@ != "yml"@,
        "md"@ != "toml"@,
        "md"@ != "pdf"@,
        "md"@ != "zip"@,
        "txt"@ != "css"@,
        "txt"@ != "js"@,
        "txt"@ != "mjs"@,
        "txt"@ != "json"@,
        "txt"@ != "svg"@,
        "txt"@ != "png"@,
        "txt"@ != "jpg"@,
        "txt"@ != "jpeg"@,
        "txt"@ != "webp"@,
        "txt"@ != "gif"@,
        "txt"@ != "ico"@,
        "txt"@ != "html"@,
        "txt"@ != "htm"@,
        "txt"@ != "wasm"@,
        "txt"@ != "woff2"@,
        "txt"@ != "csv"@,
        "txt"@ != "xml"@,
        "txt"@ != "yaml"@,
        "txt"@ != "yml"@,
        "txt"@ != "toml"@,
        "txt"@ != "pdf"@,
        "txt"@ != "zip"@,
        "txt"@ != "md"@,
{
    reveal_strlit("css");
    reveal_strlit("js");
    reveal_strlit("mjs");
    reveal_strlit("json");
    reveal_strlit("svg");
    reveal_strlit("png");
    reveal_strlit("jpg");
    reveal_strlit("jpeg");
    reveal_strlit("webp");
    reveal_strlit("gif");
    reveal_strlit("ico");
    reveal_strlit("html");
    reveal_strlit("htm");
    reveal_strlit("wasm");
    reveal_strlit("woff2");
    reveal_strlit("csv");
    reveal_strlit("xml");
    reveal_strlit("yaml");
    reveal_strlit("yml");
    reveal_strlit("toml");
    reveal_strlit("pdf");
    reveal_strlit("zip");
    reveal_strlit("md");
    reveal_strlit("txt");
    assert("css"@.len() == 3);
    assert("js"@.len() == 2);
    assert("mjs"@.len() == 3);
    assert("json"@.len() == 4);
    assert("svg"@.len() == 3);
    assert("png"@.len() == 3);
    assert("jpg"@.len() == 3);
    assert("jpeg"@.len() == 4);
    assert("webp"@.len() == 4);
    assert("gif"@.len() == 3);
    assert("ico"@.len() == 3);
    assert("html"@.len() == 4);
    assert("htm"@.len() == 3);
    assert("wasm"@.len() == 4);
    assert("woff2"@.len() == 5);
    assert("csv"@.len() == 3);
    assert("xml"@.len() == 3);
    assert("yaml"@.len() == 4);
    assert("yml"@.len() == 3);
    assert("toml"@.len() == 4);
    assert("pdf"@.len() == 3);
    assert("zip"@.len() == 3);
    assert("md"@.len() == 2);
    assert("txt"@.len() == 3);
    assert("mjs"@[0] != "css"@[0]);
    assert("svg"@[0] != "css"@[0]);
    assert("svg"@[0] != "mjs"@[0]);
    assert("png"@[0] != "css"@[0]);
    assert("png"@[0] != "mjs"@[0]);
    assert("png"@[0] != "svg"@[0]);
    assert("jpg"@[0] != "css"@[0]);
    assert("jpg"@[0] != "mjs"@[0]);
    assert("jpg"@[0] != "svg"@[0]);
    assert("jpg"@[0] != "png"@[0]);
    assert("jpeg"@[1] != "json"@[1]);
    assert("webp"@[0] != "json"@[0]);
    assert("webp"@[0] != "jpeg"@[0]);
    assert("gif"@[0] != "css"@[0]);
    assert("gif"@[0] != "mjs"@[0]);
    assert("gif"@[0] != "svg"@[0]);
    assert("gif"@[0] != "png"@[0]);
    assert("gif"@[0] != "jpg"@[0]);
    assert("ico"@[0] != "css"@[0]);
    assert("ico"@[0] != "mjs"@[0]);
    assert("ico"@[0] != "svg"@[0]);
    assert("ico"@[0] != "png"@[0]);
    assert("ico"@[0] != "jpg"@[0]);
    assert("ico"@[0] != "gif"@[0]);
    assert("html"@[0] != "json"@[0]);
    assert("html"@[0] != "jpeg"@[0]);
    assert("html"@[0] != "webp"@[0]);
    assert("htm"@[0] != "css"@[0]);
    assert("htm"@[0] != "mjs"@[0]);
    assert("htm"@[0] != "svg"@[0]);
    assert("htm"@[0] != "png"@[0]);
    assert("htm"@[0] != "jpg"@[0]);
    assert("htm"@[0] != "gif"@[0]);
    assert("htm"@[0] != "ico"@[0]);
    assert("wasm"@[0] != "json"@[0]);
    assert("wasm"@[0] != "jpeg"@[0]);
    assert("wasm"@[1] != "webp"@[1]);
    assert("wasm"@[0] != "html"@[0]);
    assert("csv"@[2] != "css"@[2]);
    assert("csv"@[0] != "mjs"@[0]);
    assert("csv"@[0] != "svg"@[0]);
    assert("csv"@[0] != "png"@[0]);
    assert("csv"@[0] != "jpg"@[0]);
    assert("csv"@[0] != "gif"@[0]);
    assert("csv"@[0] != "ico"@[0]);
    assert("csv"@[0] != "htm"@[0]);
    assert("xml"@[0] != "css"@[0]);
    assert("xml"@[0] != "mjs"@[0]);
    assert("xml"@[0] != "svg"@[0]);
    assert("xml"@[0] != "png"@[0]);
    assert("xml"@[0] != "jpg"@[0]);
    assert("xml"@[0] != "gif"@[0]);
    assert("xml"@[0] != "ico"@[0]);
    assert("xml"@[0] != "htm"@[0]);
    assert("xml"@[0] != "csv"@[0]);
    assert("yaml"@[0] != "json"@[0]);
    assert("yaml"@[0] != "jpeg"@[0]);
    assert("yaml"@[0] != "webp"@[0]);
    assert("yaml"@[0] != "html"@[0]);
    assert("yaml"@[0] != "wasm"@[0]);
    assert("yml"@[0] != "css"@[0]);
    assert("yml"@[0] != "mjs"@[0]);
    assert("yml"@[0] != "svg"@[0]);
    assert("yml"@[0] != "png"@[0]);
    assert("yml"@[0] != "jpg"@[0]);
    assert("yml"@[0] != "gif"@[0]);
    assert("yml"@[0] != "ico"@[0]);
    assert("yml"@[0] != "htm"@[0]);
    assert("yml"@[0] != "csv"@[0]);
    assert("yml"@[0] != "xml"@[0]);
    assert("toml"@[0] != "json"@[0]);
    assert("toml"@[0] != "jpeg"@[0]);
    assert("toml"@[0] != "webp"@[0]);
    assert("toml"@[0] != "html"@[0]);
    assert("toml"@[0] != "wasm"@[0]);
    assert("toml"@[0] != "yaml"@[0]);
    assert("pdf"@[0] != "css"@[0]);
    assert("pdf"@[0] != "mjs"@[0]);
    assert("pdf"@[0] != "svg"@[0]);
    assert("pdf"@[1] != "png"@[1]);
    assert("pdf"@[0] != "jpg"@[0]);
    assert("pdf"@[0] != "gif"@[0]);
    assert("pdf"@[0] != "ico"@[0]);
    assert("pdf"@[0] != "htm"@[0]);
    assert("pdf"@[0] != "csv"@[0]);
    assert("pdf"@[0] != "xml"@[0]);
    assert("pdf"@[0] != "yml"@[0]);
    assert("zip"@[0] != "css"@[0]);
    assert("zip"@[0] != "mjs"@[0]);
    assert("zip"@[0] != "svg"@[0]);
    assert("zip"@[0] != "png"@[0]);
    assert("zip"@[0] != "jpg"@[0]);
    assert("zip"@[0] != "gif"@[0]);
    assert("zip"@[0] != "ico"@[0]);
    assert("zip"@[0] != "htm"@[0]);
    assert("zip"@[0] != "csv"@[0]);
    assert("zip"@[0] != "xml"@[0]);
    assert("zip"@[0] != "yml"@[0]);
    assert("zip"@[0] != "pdf"@[0]);
    assert("md"@[0] != "js"@[0]);
    assert("txt"@[0] != "css"@[0]);
    assert("txt"@[0] != "mjs"@[0]);
    assert("txt"@[0] != "svg"@[0]);
    assert("txt"@[0] != "png"@[0]);
    assert("txt"@[0] != "jpg"@[0]);
    assert("txt"@[0] != "gif"@[0]);
    assert("txt"@[0] != "ico"@[0]);
    assert("txt"@[0] != "htm"@[0]);
    assert("txt"@[0] != "csv"@[0]);
    assert("txt"@[0] != "xml"@[0]);
    assert("txt"@[0] != "yml"@[0]);
    assert("txt"@[0] != "pdf"@[0]);
    assert("txt"@[0] != "zip"@[0]);
}

/// The asset that a path names follows a mark in it, and the path begins as
/// one of a generator.
pub proof fn a_named_asset_follows_its_mark(path: Seq<char>)
    ensures
        artifact::asset_named(path) matches Some(found) ==> "/api/generators/"@.is_prefix_of(path)
            && exists|front: Seq<char>| path == #[trigger] (front + "/assets/"@ + found),
{
    let mark = "/assets/"@;
    let dir = "/api/generators/"@;
    if artifact::asset_named(path) is Some {
        assert(text::occurs(path, mark)) by {
            reveal(text::first_occurrence);
        }
        the_first_place_is_one(path, mark);
        let at = text::first_occurrence(path, mark)->0;
        assert(mark.len() == 8) by {
            reveal_strlit("/assets/");
        }
        assert(path.subrange(at, at + 8) == mark);
        assert(path =~= path.take(at) + path.subrange(at, at + 8) + path.skip(at + 8));
        assert(path == path.take(at) + mark + artifact::asset_named(path)->0);
        assert(path.take(at).subrange(0, dir.len() as int) =~= path.subrange(0, dir.len() as int));
        assert(dir.is_prefix_of(path));
    }
}

/// The asset of a generator is what follows the first mark in the path.
pub proof fn an_asset_is_named_by_what_follows_its_mark(
    front: Seq<char>,
    asset: Seq<char>,
    path: Seq<char>,
)
    requires
        path == front + "/assets/"@ + asset,
        forall|j: int|
            0 <= j < front.len() ==> path.subrange(j, #[trigger] (j + 8)) != "/assets/"@,
    ensures
        "/api/generators/"@.is_prefix_of(front) ==> artifact::asset_named(path) == Some(asset),
        !"/api/generators/"@.is_prefix_of(front) ==> artifact::asset_named(path) is None,
{
    let mark = "/assets/"@;
    let at = front.len() as int;
    assert(mark.len() == 8) by {
        reveal_strlit("/assets/");
    }
    assert(path.subrange(at, at + 8) =~= mark);
    assert(text::occurs_at(path, mark, at));
    assert forall|j: int| 0 <= j < at implies !text::occurs_at(path, mark, j) by {
        assert(path.subrange(j, j + 8) != mark);
    }
    text::first_occurrence_found(path, mark, at);
    assert(path.take(at) =~= front);
    assert(path.skip(at + 8) =~= asset);
}

proof fn the_first_place_is_one(path: Seq<char>, mark: Seq<char>)
    requires
        text::occurs(path, mark),
    ensures
        text::first_occurrence(path, mark) is Some,
        text::occurs_at(path, mark, text::first_occurrence(path, mark)->0),
{
    let any = choose|at: int| text::occurs_at(path, mark, at);
    the_least_place_is_first(path, mark, any);
}

proof fn the_least_place_is_first(path: Seq<char>, mark: Seq<char>, at: int)
    requires
        text::occurs_at(path, mark, at),
    ensures
        text::first_occurrence(path, mark) is Some,
        text::occurs_at(path, mark, text::first_occurrence(path, mark)->0),
    decreases at,
{
    if exists|j: int| 0 <= j < at && text::occurs_at(path, mark, j) {
        let j = choose|j: int| 0 <= j < at && text::occurs_at(path, mark, j);
        the_least_place_is_first(path, mark, j);
    } else {
        text::first_occurrence_found(path, mark, at);
    }
}

/// The lines of a journal put together are the journal; each ends with its
/// line feed, but perhaps for the last, and none holds another.
pub proof fn lines_cover_the_journal(bytes: Seq<u8>)
    ensures
        journal::lines(bytes).flatten() == bytes,
        forall|i: int|
            0 <= i < journal::lines(bytes).len() ==> {
                let line = #[trigger] journal::lines(bytes)[i];
                &&& line.len() > 0
                &&& (i < journal::lines(bytes).len() - 1 ==> line.last() == 10)
                &&& forall|j: int| 0 <= j < line.len() - 1 ==> #[trigger] line[j] != 10
            },
        bytes.len() > 0 ==> journal::lines(bytes).len() > 0 && journal::lines(bytes).last().last()
            == bytes.last(),
    decreases bytes.len(),
{
    let all = journal::lines(bytes);
    if bytes.len() == 0 {
        assert(all.flatten() =~= bytes) by {
            reveal(Seq::flatten);
        }
    } else {
        let front = journal::lines(bytes.drop_last());
        lines_cover_the_journal(bytes.drop_last());
        let last = bytes.last();
        assert(bytes =~= bytes.drop_last().push(last));
        if bytes.len() == 1 || bytes[bytes.len() - 2] == 10 {
            let line = seq![last];
            front.lemma_flatten_push(line);
            assert(all.flatten() =~= bytes);
            if bytes.len() > 1 {
                assert(bytes.drop_last().last() == 10);
                assert(front[front.len() - 1].last() == 10);
            } else {
                assert(front.len() == 0);
            }
            assert forall|i: int| 0 <= i < all.len() implies {
                let line = #[trigger] all[i];
                &&& line.len() > 0
                &&& (i < all.len() - 1 ==> line.last() == 10)
                &&& forall|j: int| 0 <= j < line.len() - 1 ==> #[trigger] line[j] != 10
            } by {
                if i < front.len() {
                    assert(all[i] == front[i]);
                }
            }
        } else {
            let open = front.last();
            let grown = open.push(last);
            let kept = front.drop_last();
            assert(front =~= kept.push(open));
            kept.lemma_flatten_push(open);
            kept.lemma_flatten_push(grown);
            assert(all == kept.push(grown));
            assert(all.flatten() =~= bytes) by {
                assert(kept.flatten() + open == bytes.drop_last());
                assert(kept.flatten() + grown =~= (kept.flatten() + open).push(last));
            }
            assert(front[front.len() - 1] == open);
            assert(open.last() == bytes[bytes.len() - 2]);
            assert forall|i: int| 0 <= i < all.len() implies {
                let line = #[trigger] all[i];
                &&& line.len() > 0
                &&& (i < all.len() - 1 ==> line.last() == 10)
                &&& forall|j: int| 0 <= j < line.len() - 1 ==> #[trigger] line[j] != 10
            } by {
                if i < kept.len() {
                    assert(all[i] == front[i]);
                } else {
                    assert forall|j: int| 0 <= j < grown.len() - 1 implies #[trigger] grown[j]
                        != 10 by {
                        if j < open.len() - 1 {
                            assert(grown[j] == open[j]);
                            assert(front[front.len() - 1][j] != 10);
                        } else {
                            assert(grown[j] == open.last());
                        }
                    }
                }
            }
        }
    }
}

/// Decoding goes line by line: a line of blanks is passed over, a line with a
/// sequence number is a record, and any other line spoils the journal.
pub proof fn records_are_decoded_line_by_line(lines: Seq<Seq<u8>>, line: Seq<u8>)
    ensures
        journal::records_of(Seq::empty()) == Ok::<Seq<RecordModel>, ()>(Seq::empty()),
        journal::records_of(lines) matches Ok(front) ==> {
            let blank = forall|i: int|
                0 <= i < line.len() ==> #[trigger] line[i] == 32 || line[i] == 9 || line[i] == 10
                    || line[i] == 12 || line[i] == 13;
            let after = journal::records_of(lines.push(line));
            &&& (blank ==> after == Ok::<Seq<RecordModel>, ()>(front))
            &&& (!blank ==> match json::json_at(line, "/seq"@) {
                Some(json::JsonModel::Number { unsigned: Some(seq), .. }) => after == Ok::<
                    Seq<RecordModel>,
                    (),
                >(front.push(RecordModel { seq, line })),
                _ => after is Err,
            })
        },
        journal::records_of(lines) is Err ==> journal::records_of(lines.push(line)) is Err,
{
    assert(lines.push(line).drop_last() =~= lines);
    super::spans::a_blank_body_holds_only_spaces(line);
}

/// The records at these places, one after another, each with a line feed at
/// its end.
pub open spec fn laid_out(records: Seq<RecordModel>, places: Seq<int>) -> Seq<u8>
    decreases places.len(),
{
    if places.len() == 0 {
        Seq::empty()
    } else {
        let line = records[places.last()].line;
        laid_out(records, places.drop_last()) + line + (if line.len() > 0 && line.last() == 10 {
            Seq::empty()
        } else {
            seq![10u8]
        })
    }
}

/// A merge holds every record once, by its number, and records of one number in
/// the order that they came in.
pub proof fn a_merge_is_in_order(records: Seq<RecordModel>, bytes: Seq<u8>)
    requires
        records.len() <= usize::MAX,
        journal::is_merge(records, bytes),
    ensures
        exists|places: Seq<int>| #[trigger]
            laid_out(records, places) == bytes && places.len() == records.len() && (forall|k: int|
                0 <= k < records.len() ==> #[trigger] places.contains(k)) && (forall|i: int, j: int|
                0 <= i < j < places.len() ==> {
                    let (a, b) = (#[trigger] places[i], #[trigger] places[j]);
                    0 <= a < records.len() && 0 <= b < records.len() && (records[a].seq
                        < records[b].seq || (records[a].seq == records[b].seq && a < b))
                }),
{
    let given = journal::keys_of(records);
    let keys = choose|keys: Seq<order::Key>| #[trigger]
        order::is_key_arrangement(given, keys) && bytes == journal::rendered(records, keys);
    let leq = |a: order::Key, b: order::Key| order::key_leq(a, b);
    given.to_multiset_ensures();
    keys.to_multiset_ensures();
    assert(keys.len() == keys.to_multiset().len());
    assert(given.len() == given.to_multiset().len());
    let places = keys.map_values(|k: order::Key| k.1 as int);
    assert forall|i: int| 0 <= i < keys.len() implies 0 <= (#[trigger] keys[i]).1 < records.len()
        && keys[i].0 == records[keys[i].1 as int].seq by {
        assert(keys.to_multiset().count(keys[i]) > 0);
        assert(given.to_multiset().count(keys[i]) > 0);
        assert(given.contains(keys[i]));
        let at = choose|at: int| 0 <= at < given.len() && given[at] == keys[i];
        assert(given[at] == (records[at].seq, at as usize));
    }
    assert forall|k: int| 0 <= k < records.len() implies #[trigger] places.contains(k) by {
        assert(given[k] == (records[k].seq, k as usize));
        assert(given.to_multiset().count(given[k]) > 0);
        assert(keys.contains(given[k]));
        let i = choose|i: int| 0 <= i < keys.len() && keys[i] == given[k];
        assert(places[i] == k);
    }
    assert(given.no_duplicates()) by {
        assert forall|i: int, j: int|
            0 <= i < given.len() && 0 <= j < given.len() && i != j implies given[i]
            != given[j] by {
            assert(given[i].1 == i as usize && given[j].1 == j as usize);
        }
    }
    given.lemma_multiset_has_no_duplicates();
    assert forall|i: int, j: int| 0 <= i < j < places.len() implies {
        let (a, b) = (#[trigger] places[i], #[trigger] places[j]);
        0 <= a < records.len() && 0 <= b < records.len() && (records[a].seq < records[b].seq || (
        records[a].seq == records[b].seq && a < b))
    } by {
        assert(leq(keys[i], keys[j]));
        assert(places[i] == keys[i].1 && places[j] == keys[j].1);
        if keys[i] == keys[j] {
            let rest = keys.remove(i);
            rest.to_multiset_ensures();
            assert(rest[j - 1] == keys[j]);
            assert(rest.contains(keys[i]));
            assert(rest.to_multiset() =~= keys.to_multiset().remove(keys[i]));
            assert(rest.to_multiset().count(keys[i]) > 0);
            assert(given.to_multiset().contains(keys[i]));
        }
    }
    rendering_lays_records_out(records, keys, places);
}

proof fn rendering_lays_records_out(
    records: Seq<RecordModel>,
    keys: Seq<order::Key>,
    places: Seq<int>,
)
    requires
        places == keys.map_values(|k: order::Key| k.1 as int),
    ensures
        journal::rendered(records, keys) == laid_out(records, places),
    decreases keys.len(),
{
    if keys.len() > 0 {
        assert(places.drop_last() =~= keys.drop_last().map_values(|k: order::Key| k.1 as int));
        rendering_lays_records_out(records, keys.drop_last(), places.drop_last());
        let line = records[keys.last().1 as int].line;
        assert(places.last() == keys.last().1);
        assert(journal::rendered(records, keys) =~= laid_out(records, places));
    }
}

/// A journal is served like any body: whole, as lines of JSON, under the tag of
/// its bytes, unless the reader names that tag; a condition that cannot be read
/// is refused.
pub proof fn a_journal_is_served_by_its_tag(
    value: Option<Seq<u8>>,
    bytes: Seq<u8>,
    r: Result<etag::Reply, crate::error::ApiHttpError>,
)
    requires
        journal::serves(value, bytes, r),
    ensures
        value is None ==> (r matches Ok(reply) && reply@.head.status == 200 && reply@.body == bytes
            && has_header(reply@.head, "content-type"@, "application/x-ndjson"@) && has_header(
            reply@.head,
            "etag"@,
            etag::body_tag(bytes),
        )),
        value == Some(seq![42u8]) ==> (r matches Ok(reply) && reply@.head.status == 304
            && reply@.body.len() == 0),
        etag::condition_of(value) is Err ==> (r matches Err(refusal) && refusal@.status == 400),
{
    names_differ();
    a_condition_is_read(seq![42u8], Seq::empty());
    if value is None {
        let reply = r->Ok_0@;
        assert(reply.head.headers[0] == ("content-type"@, "application/x-ndjson"@));
        assert(reply.head.headers[1] == ("etag"@, etag::body_tag(bytes)));
        assert(reply.head.headers[2] == ("cache-control"@, "no-store"@));
    }
}

/// The tag of a generator is the digest of its description, marked as one.
pub proof fn a_generator_is_tagged_by_its_description(serialized: Seq<u8>)
    ensures
        etag::generator_tag(serialized) == "W/\"generator-"@ + digest::hex_text(
            digest::sha256(serialized),
        ) + "\""@,
{
    reveal_strlit("W/\"");
    reveal_strlit("generator-");
    reveal_strlit("W/\"generator-");
    assert("W/\""@ + "generator-"@ =~= "W/\"generator-"@);
    let hex = digest::hex_text(digest::sha256(serialized));
    assert("W/\""@ + ("generator-"@ + hex) + "\""@ =~= ("W/\""@ + "generator-"@) + hex + "\""@);
}

/// What is not there is answered with 404, and the answer names the place.
pub proof fn a_missing_route_is_named(detail: Seq<char>, instance: Seq<char>)
    ensures
        mutation::not_found(detail, instance).status == 404,
        mutation::not_found(detail, instance).code == "not_found"@,
        mutation::not_found(detail, instance).title == "Resource not found"@,
        mutation::not_found(detail, instance).detail == detail,
        mutation::not_found(detail, instance).instance == instance,
{
}

/// A text is written in JSON between quotation marks, character by character:
/// quotation marks and backslashes get a backslash, the usual control
/// characters their letter and the others their number, and every other
/// character stays.
pub proof fn a_json_text_is_written_character_by_character(s: Seq<char>, c: char)
    ensures
        json::quoted(Seq::empty()) == seq!['"', '"'],
        ({
            let longer = json::quoted(s.push(c));
            let start = json::quoted(s).drop_last();
            &&& (c == '"' || c == '\\' ==> longer == start + seq!['\\', c, '"'])
            &&& (c == '\n' ==> longer == start + seq!['\\', 'n', '"'])
            &&& (c == '\r' ==> longer == start + seq!['\\', 'r', '"'])
            &&& (c == '\t' ==> longer == start + seq!['\\', 't', '"'])
            &&& (c as int == 8 ==> longer == start + seq!['\\', 'b', '"'])
            &&& (c as int == 12 ==> longer == start + seq!['\\', 'f', '"'])
            &&& (c as int >= 32 && c != '"' && c != '\\' ==> longer == start + seq![c, '"'])
            &&& ((c as int) < 32 && c != '\n' && c != '\r' && c != '\t' && c as int != 8 && c as int
                != 12 ==> longer.len() == start.len() + 7 && longer.take(start.len() as int)
                == start && longer.subrange(start.len() as int, start.len() as int + 4) == seq![
                '\\',
                'u',
                '0',
                '0',
            ] && longer[start.len() as int + 4] as int == 48 + c as int / 16
                && longer[start.len() as int + 5] as int == (if c as int % 16 < 10 {
                48 + c as int % 16
            } else {
                87 + c as int % 16
            }))
        }),
{
    let forms = s.map_values(|c: char| json::string_char(c));
    let form = json::string_char(c);
    assert(s.push(c).map_values(|c: char| json::string_char(c)) =~= forms.push(form));
    forms.lemma_flatten_push(form);
    let none = Seq::<char>::empty().map_values(|c: char| json::string_char(c));
    assert(none.flatten() =~= Seq::<char>::empty()) by {
        reveal(Seq::flatten);
    }
    assert(json::quoted(Seq::<char>::empty()) =~= seq!['"', '"']);
    let start = json::quoted(s).drop_last();
    assert(start =~= seq!['"'] + forms.flatten());
    let longer = json::quoted(s.push(c));
    assert(longer =~= start + form + seq!['"']);
    assert(longer.take(start.len() as int) =~= start);
    if form.len() == 1 {
        assert(longer =~= start + seq![c, '"']);
    } else if form.len() == 2 {
        assert(longer =~= start + seq![form[0], form[1], '"']);
    } else {
        assert(longer.subrange(start.len() as int, start.len() as int + 4) =~= seq![
            '\\',
            'u',
            '0',
            '0',
        ]);
        assert(longer[start.len() as int + 4] == form[4]);
        assert(longer[start.len() as int + 5] == form[5]);
    }
}

/// A value is read as a text only where it is one, and as a number only where
/// it is one that is not negative.
pub proof fn a_json_value_is_read_as_what_it_is(
    s: Seq<char>,
    unsigned: Option<u64>,
    signed: Option<i64>,
)
    ensures
        json::as_text(Some(json::JsonModel::Text(s))) == Some(s),
        json::as_text(Some(json::JsonModel::Number { unsigned, signed })) is None,
        json::as_text(Some(json::JsonModel::Other)) is None,
        json::as_text(None) is None,
        json::as_unsigned(Some(json::JsonModel::Number { unsigned, signed })) == unsigned,
        json::as_unsigned(Some(json::JsonModel::Text(s))) is None,
        json::as_unsigned(Some(json::JsonModel::Other)) is None,
        json::as_unsigned(None) is None,
{
}

/// A journal is streamed exactly where nothing has to be merged into it and it
/// has no bound; where it has one, one byte more than the bound is read.
pub proof fn a_journal_is_read_to_its_bound(has_observed: bool, limit: Option<usize>)
    ensures
        journal::delivered(has_observed, limit) is Streamed <==> !has_observed && limit is None,
        journal::delivered(has_observed, limit) matches journal::JournalDelivery::Whole { most }
            ==> (most is Some <==> limit is Some) && (limit matches Some(bound) ==> (bound
            < usize::MAX ==> most->0 == bound + 1) && (bound == usize::MAX ==> most->0 == bound)),
{
}

} // verus!
