//! Delivery of artifacts, archives and generator assets: what is checked
//! before a byte is sent, and the heads of the replies.
use vstd::prelude::*;
use vstd::string::*;
use crate::auth;
use crate::digest;
use crate::error;
use crate::error::{ApiError, ApiHttpError};
use crate::etag;
use crate::etag::{Head, IfNoneMatch};
use crate::text;

verus! {

/// An artifact as its run's manifest names it.
#[derive(Debug)]
pub struct Artifact {
    pub path: String,
    pub bytes: u64,
    /// The hexadecimal digest of the content.
    pub sha256: String,
    pub mime: Option<String>,
}

/// The complaint about a size that is not the manifest's.
pub open spec fn size_detail(artifact: Artifact, actual: u64) -> Seq<char> {
    "artifact `"@ + artifact.path@ + "` bytes mismatch: manifest="@ + text::decimal(
        artifact.bytes as nat,
    ) + ", actual="@ + text::decimal(actual as nat)
}

/// The complaint about content that is not the manifest's.
pub open spec fn content_detail(artifact: Artifact) -> Seq<char> {
    "artifact `"@ + artifact.path@ + "` content mismatch: manifest sha256 does not match file"@
}

fn size_message(artifact: &Artifact, actual: u64) -> (r: String)
    ensures
        r@ == size_detail(*artifact, actual),
{
    let mut detail = "artifact `".to_owned();
    detail.append(artifact.path.as_str());
    detail.append("` bytes mismatch: manifest=");
    text::push_decimal(&mut detail, artifact.bytes);
    detail.append(", actual=");
    text::push_decimal(&mut detail, actual);
    detail
}

/// Compares what was read with the manifest: the length, and the digest even
/// where the length agrees.
pub fn verify_artifact_measurement(
    artifact: &Artifact,
    actual_len: u64,
    actual_sha256: &str,
) -> (r: Result<(), String>)
    ensures
        match r {
            Ok(()) => actual_len == artifact.bytes && actual_sha256@ == artifact.sha256@,
            Err(detail) => if actual_len != artifact.bytes {
                detail@ == size_detail(*artifact, actual_len)
            } else {
                actual_sha256@ != artifact.sha256@ && detail@ == content_detail(*artifact)
            },
        },
{
    if actual_len != artifact.bytes {
        return Err(size_message(artifact, actual_len));
    }
    if !text::same_text(actual_sha256, artifact.sha256.as_str()) {
        let mut detail = "artifact `".to_owned();
        detail.append(artifact.path.as_str());
        detail.append("` content mismatch: manifest sha256 does not match file");
        return Err(detail);
    }
    Ok(())
}

/// A file of this size may be read for the artifact: it has the manifest's
/// size, within the limit where there is one.
pub open spec fn size_fits(artifact: Artifact, actual: u64, limit: Option<u64>) -> bool {
    actual == artifact.bytes && (limit matches Some(max) ==> actual <= max)
}

/// The content has the length and the digest that the manifest gives.
pub open spec fn is_recorded(artifact: Artifact, content: Seq<u8>) -> bool {
    content.len() == artifact.bytes && digest::hex_text(digest::sha256(content)) == artifact.sha256@
}

/// Checks the size that the file system reports before anything is read.
pub fn check_artifact_size(artifact: &Artifact, actual: u64, limit: Option<u64>) -> (r: Result<
    (),
    ApiHttpError,
>)
    ensures
        r is Ok <==> size_fits(*artifact, actual, limit),
        r matches Err(refusal) ==> refusal@ == (if actual != artifact.bytes {
            error::internal_problem(size_detail(*artifact, actual))
        } else {
            error::api_problem(ApiError::TooLarge { limit_bytes: limit->0, actual_bytes: actual })
        }),
{
    if actual != artifact.bytes {
        return Err(ApiHttpError::internal(size_message(artifact, actual)));
    }
    if let Some(limit_bytes) = limit {
        if actual > limit_bytes {
            return Err(
                ApiHttpError::from_api(ApiError::TooLarge { limit_bytes, actual_bytes: actual }),
            );
        }
    }
    Ok(())
}

/// How much of an artifact is read at a time, in bytes.
pub const READ_CHUNK_BYTES: usize = 65_536;

/// What has been read of an artifact, and how much may still be read.
struct Measured {
    running: digest::RunningDigest,
    seen: u64,
    remaining: u64,
}

/// The measurement of an artifact: how much of it has been read, and the
/// digest of what has been read. Reading stops one byte after the manifest's
/// size, which shows that a file has grown.
pub struct ArtifactMeter {
    measured: Measured,
}

impl ArtifactMeter {
    /// The bytes that have been read, in order.
    pub closed spec fn content(self) -> Seq<u8> {
        digest::absorbed(self.measured.running)
    }

    /// How many bytes have been read.
    pub closed spec fn seen(self) -> nat {
        self.measured.seen as nat
    }

    /// How many bytes may still be read.
    pub closed spec fn remaining(self) -> nat {
        self.measured.remaining as nat
    }

    /// The most that is ever read of an artifact of this size.
    pub open spec fn bound(bytes: u64) -> nat {
        if bytes < u64::MAX {
            (bytes + 1) as nat
        } else {
            u64::MAX as nat
        }
    }

    /// The count is the length of what was read, and never leaves its range.
    #[verifier::type_invariant]
    spec fn counts_its_content(self) -> bool {
        self.content().len() == self.seen() && self.seen() + self.remaining() <= u64::MAX
    }

    pub fn new(artifact: &Artifact) -> (r: Self)
        ensures
            r.content() == Seq::<u8>::empty(),
            r.seen() == 0,
            r.remaining() == Self::bound(artifact.bytes),
    {
        let remaining: u64 = if artifact.bytes < u64::MAX {
            artifact.bytes + 1
        } else {
            u64::MAX
        };
        let running = digest::RunningDigest::start();
        ArtifactMeter { measured: Measured { running, seen: 0, remaining } }
    }

    /// How many bytes the next read may take into a buffer; none when the
    /// measurement is complete.
    pub fn next_read(&self, buffer: usize) -> (r: usize)
        ensures
            r == if buffer <= self.remaining() {
                buffer as int
            } else {
                self.remaining() as int
            },
    {
        if buffer as u64 <= self.measured.remaining {
            buffer
        } else {
            self.measured.remaining as usize
        }
    }

    /// Takes in what a read gave.
    pub fn record(&mut self, chunk: &[u8])
        requires
            chunk@.len() <= old(self).remaining(),
        ensures
            final(self).content() == old(self).content() + chunk@,
            final(self).seen() == old(self).seen() + chunk@.len(),
            final(self).remaining() == old(self).remaining() - chunk@.len(),
    {
        proof {
            use_type_invariant(&*self);
        }
        let running = digest::RunningDigest::start();
        let mut measured = Measured { running, seen: 0, remaining: 0 };
        std::mem::swap(&mut measured, &mut self.measured);
        measured.running.absorb(chunk);
        measured.seen = measured.seen + chunk.len() as u64;
        measured.remaining = measured.remaining - chunk.len() as u64;
        self.measured = measured;
    }

    /// How many bytes have been read.
    pub fn total(&self) -> (r: u64)
        ensures
            r == self.content().len(),
            r == self.seen(),
    {
        proof {
            use_type_invariant(self);
        }
        self.measured.seen
    }

    /// The hexadecimal digest of what has been read.
    fn digest(self) -> (r: String)
        ensures
            r@ == digest::hex_text(digest::sha256(self.content())),
    {
        let bytes = self.measured.running.end();
        digest::hex_encode(bytes.as_slice())
    }
}

/// The media type of a file with this extension.
pub open spec fn media_type(extension: Seq<char>) -> Seq<char> {
    if extension == "css"@ {
        "text/css; charset=utf-8"@
    } else if extension == "js"@ || extension == "mjs"@ {
        "text/javascript; charset=utf-8"@
    } else if extension == "json"@ {
        "application/json; charset=utf-8"@
    } else if extension == "svg"@ {
        "image/svg+xml"@
    } else if extension == "png"@ {
        "image/png"@
    } else if extension == "jpg"@ || extension == "jpeg"@ {
        "image/jpeg"@
    } else if extension == "webp"@ {
        "image/webp"@
    } else if extension == "gif"@ {
        "image/gif"@
    } else if extension == "ico"@ {
        "image/x-icon"@
    } else if extension == "html"@ || extension == "htm"@ {
        "text/html; charset=utf-8"@
    } else if extension == "wasm"@ {
        "application/wasm"@
    } else if extension == "woff2"@ {
        "font/woff2"@
    } else if extension == "csv"@ {
        "text/csv; charset=utf-8"@
    } else if extension == "xml"@ {
        "application/xml; charset=utf-8"@
    } else if extension == "yaml"@ || extension == "yml"@ {
        "application/yaml; charset=utf-8"@
    } else if extension == "toml"@ {
        "application/toml; charset=utf-8"@
    } else if extension == "pdf"@ {
        "application/pdf"@
    } else if extension == "zip"@ {
        "application/zip"@
    } else if extension == "md"@ {
        "text/markdown; charset=utf-8"@
    } else if extension == "txt"@ {
        "text/plain; charset=utf-8"@
    } else {
        "application/octet-stream"@
    }
}

/// The media type of a file, by what follows the last dot of its name.
pub fn content_type_for_name(path: &str) -> (r: &'static str)
    ensures
        r@ == media_type(text::after_last(path@, '.')),
{
    let extension = text::tail_after(path, '.');
    let ext = extension.as_str();
    if text::same_text(ext, "css") {
        "text/css; charset=utf-8"
    } else if text::same_text(ext, "js") || text::same_text(ext, "mjs") {
        "text/javascript; charset=utf-8"
    } else if text::same_text(ext, "json") {
        "application/json; charset=utf-8"
    } else if text::same_text(ext, "svg") {
        "image/svg+xml"
    } else if text::same_text(ext, "png") {
        "image/png"
    } else if text::same_text(ext, "jpg") || text::same_text(ext, "jpeg") {
        "image/jpeg"
    } else if text::same_text(ext, "webp") {
        "image/webp"
    } else if text::same_text(ext, "gif") {
        "image/gif"
    } else if text::same_text(ext, "ico") {
        "image/x-icon"
    } else if text::same_text(ext, "html") || text::same_text(ext, "htm") {
        "text/html; charset=utf-8"
    } else if text::same_text(ext, "wasm") {
        "application/wasm"
    } else if text::same_text(ext, "woff2") {
        "font/woff2"
    } else if text::same_text(ext, "csv") {
        "text/csv; charset=utf-8"
    } else if text::same_text(ext, "xml") {
        "application/xml; charset=utf-8"
    } else if text::same_text(ext, "yaml") || text::same_text(ext, "yml") {
        "application/yaml; charset=utf-8"
    } else if text::same_text(ext, "toml") {
        "application/toml; charset=utf-8"
    } else if text::same_text(ext, "pdf") {
        "application/pdf"
    } else if text::same_text(ext, "zip") {
        "application/zip"
    } else if text::same_text(ext, "md") {
        "text/markdown; charset=utf-8"
    } else if text::same_text(ext, "txt") {
        "text/plain; charset=utf-8"
    } else {
        "application/octet-stream"
    }
}

/// A character as it may stand in a quoted file name.
pub open spec fn file_name_char(c: char) -> char {
    if c == '"' || c == '\\' || c == '\r' || c == '\n' {
        '_'
    } else {
        c
    }
}

/// The file name under which a path is saved.
pub open spec fn saved_name(path: Seq<char>) -> Seq<char> {
    text::after_last(path, '/').map_values(|c: char| file_name_char(c))
}

/// The disposition of a path that is saved under its own file name.
pub open spec fn attachment(path: Seq<char>) -> Seq<char> {
    "attachment; filename=\""@ + saved_name(path) + "\""@
}

pub fn content_disposition_attachment(path: &str) -> (r: String)
    ensures
        r@ == attachment(path@),
{
    let tail = text::tail_after(path, '/');
    let chars = text::chars_of(tail.as_str());
    let mut name = String::new();
    let mut i: usize = 0;
    while i < chars.len()
        invariant
            i <= chars@.len(),
            chars@ == text::after_last(path@, '/'),
            name@ == saved_name(path@).take(i as int),
        decreases chars.len() - i,
    {
        let c = chars[i];
        let kept: char = if c == '"' || c == '\\' || c == '\r' || c == '\n' { '_' } else { c };
        name.push(kept);
        i += 1;
        assert(saved_name(path@).take(i as int) == saved_name(path@).take(i - 1).push(
            saved_name(path@)[i - 1],
        ));
    }
    assert(saved_name(path@).take(i as int) == saved_name(path@));
    let mut value = "attachment; filename=\"".to_owned();
    value.append(name.as_str());
    value.append("\"");
    value
}

/// The name between the quotes cannot end them, escape them, break the line or
/// name a directory.
pub proof fn saved_names_stay_in_their_quotes(path: Seq<char>)
    ensures
        !saved_name(path).contains('"'),
        !saved_name(path).contains('\\'),
        !saved_name(path).contains('\r'),
        !saved_name(path).contains('\n'),
        !saved_name(path).contains('/'),
{
    tail_has_no_separator(path);
    let tail = text::after_last(path, '/');
    assert forall|i: int| 0 <= i < saved_name(path).len() implies saved_name(path)[i] != '/' by {
        assert(saved_name(path)[i] == file_name_char(tail[i]));
        assert(tail.contains(tail[i]));
    }
}

proof fn tail_has_no_separator(path: Seq<char>)
    ensures
        !text::after_last(path, '/').contains('/'),
    decreases path.len(),
{
    if path.len() > 0 && path.last() != '/' {
        tail_has_no_separator(path.drop_last());
        let front = text::after_last(path.drop_last(), '/');
        assert forall|i: int| 0 <= i < front.push(path.last()).len() implies front.push(
            path.last(),
        )[i] != '/' by {
            if i < front.len() {
                assert(front.contains(front[i]));
            }
        }
    }
}

/// The asset that a path under a generator names, if it names one: what
/// follows the first `/assets/`.
pub open spec fn asset_named(path: Seq<char>) -> Option<Seq<char>> {
    match text::first_occurrence(path, "/assets/"@) {
        Some(at) => if "/api/generators/"@.is_prefix_of(path.take(at)) {
            Some(path.skip(at + 8))
        } else {
            None
        },
        None => None,
    }
}

/// The asset that a path under a generator names.
pub fn asset_path(path: &str) -> (r: Option<String>)
    ensures
        r.deep_view() == asset_named(path@),
{
    let chars = text::chars_of(path);
    let mark = text::chars_of("/assets/");
    let end: usize = chars.len();
    proof {
        reveal_strlit("/assets/");
        assert(mark@.len() == 8);
    }
    match text::find_text(&chars, &mark) {
        None => None,
        Some(at) => {
            let prefix = text::text_between(&chars, 0, at);
            assert(prefix@ == path@.take(at as int));
            if text::has_prefix(prefix.as_str(), "/api/generators/") {
                let asset = text::text_between(&chars, at + 8, end);
                assert(asset@ == path@.skip(at + 8));
                Some(asset)
            } else {
                None
            }
        },
    }
}

/// An asset path that hides a dot or a separator behind an encoding.
pub open spec fn has_encoded_part(asset: Seq<char>) -> bool {
    let lower = text::lower(asset);
    text::occurs(lower, "%2e"@) || text::occurs(lower, "%2f"@) || text::occurs(lower, "%5c"@)
}

/// Whether the path of a request names an asset unsafely. `is_safe_relative`
/// is the host's judgement of the asset that the path names.
pub fn unsafe_generator_asset_path(path: &str, is_safe_relative: bool) -> (r: bool)
    ensures
        r == (asset_named(path@) matches Some(asset) && (!is_safe_relative || has_encoded_part(
            asset,
        ))),
{
    match asset_path(path) {
        None => false,
        Some(asset) => {
            let lower = text::to_lower(asset.as_str());
            !is_safe_relative || text::has_text(lower.as_str(), "%2e") || text::has_text(
                lower.as_str(),
                "%2f",
            ) || text::has_text(lower.as_str(), "%5c")
        },
    }
}

/// Refuses a read of an unsafe asset path.
pub fn reject_unsafe_generator_asset_path(is_get: bool, path: &str, is_safe_relative: bool) -> (r:
    Result<(), ApiHttpError>)
    ensures
        r is Err <==> is_get && (asset_named(path@) matches Some(asset) && (!is_safe_relative
            || has_encoded_part(asset))),
        r matches Err(refusal) ==> refusal@ == error::bad_request_problem(
            "generator asset path contains an unsafe path component"@,
        ),
{
    if is_get && unsafe_generator_asset_path(path, is_safe_relative) {
        return Err(
            ApiHttpError::bad_request(
                "generator asset path contains an unsafe path component".to_owned(),
            ),
        );
    }
    Ok(())
}

/// Decides a conditional read of an artifact before its file is touched. The
/// manifest's digest is the validator; `Some` is the head of a reply without a
/// body, `None` lets the read go on.
pub fn begin_artifact_read(value: Option<&[u8]>, artifact: &Artifact) -> (r: Result<
    Option<Head>,
    ApiHttpError,
>)
    ensures
        match etag::condition_of(auth::bytes_view(value)) {
            Err(detail) => r matches Err(refusal) && refusal@ == error::bad_request_problem(detail),
            Ok(condition) => if etag::names(condition, artifact.sha256@) {
                r matches Ok(Some(head)) && head@ == etag::not_modified(
                    etag::strong(artifact.sha256@),
                )
            } else {
                r matches Ok(None)
            },
        },
{
    let precondition = match etag::parse_if_none_match(value) {
        Ok(precondition) => precondition,
        Err(refusal) => {
            return Err(refusal);
        },
    };
    if etag::if_none_match_matches(&precondition, artifact.sha256.as_str()) {
        let tag = strong_etag(artifact.sha256.as_str());
        return Ok(Some(etag::not_modified_head(&tag)));
    }
    Ok(None)
}

/// A strong validator.
pub fn strong_etag(value: &str) -> (r: String)
    ensures
        r@ == etag::strong(value@),
{
    let mut tag = "\"".to_owned();
    tag.append(value);
    tag.append("\"");
    tag
}

/// The head of a reply that carries an artifact, asked for under `path`.
pub open spec fn artifact_reply(path: Seq<char>, artifact: Artifact) -> etag::HeadModel {
    etag::HeadModel {
        status: 200,
        headers: seq![
            (
                "content-type"@,
                match artifact.mime {
                    Some(mime) => mime@,
                    None => media_type(text::after_last(artifact.path@, '.')),
                },
            ),
            ("content-disposition"@, attachment(path)),
            ("content-length"@, text::decimal(artifact.bytes as nat)),
            ("etag"@, etag::strong(artifact.sha256@)),
            ("cache-control"@, "no-store"@),
        ],
    }
}

fn artifact_head(path: &str, artifact: &Artifact) -> (r: Head)
    ensures
        r@ == artifact_reply(path@, *artifact),
{
    let content_type = match &artifact.mime {
        Some(mime) => mime.clone(),
        None => content_type_for_name(artifact.path.as_str()).to_owned(),
    };
    let mut headers: Vec<(&'static str, String)> = Vec::new();
    headers.push(("content-type", content_type));
    headers.push(("content-disposition", content_disposition_attachment(path)));
    headers.push(("content-length", text::decimal_text(artifact.bytes)));
    headers.push(("etag", strong_etag(artifact.sha256.as_str())));
    headers.push(("cache-control", "no-store".to_owned()));
    let head = Head { status: 200, headers };
    assert(head@.headers =~= artifact_reply(path@, *artifact).headers);
    head
}

/// Ends the verification of an artifact that was read from its start, and
/// opens the reply that carries it: only where what was read has the length
/// and the digest that the manifest gives.
pub fn read_artifact(path: &str, artifact: &Artifact, meter: ArtifactMeter) -> (r: Result<
    Head,
    ApiHttpError,
>)
    ensures
        r is Ok <==> is_recorded(*artifact, meter.content()),
        match r {
            Ok(head) => head@ == artifact_reply(path@, *artifact),
            Err(refusal) => refusal@ == error::internal_problem(
                if meter.content().len() != artifact.bytes {
                    size_detail(*artifact, meter.content().len() as u64)
                } else {
                    content_detail(*artifact)
                },
            ),
        },
{
    let measured_len: u64 = meter.total();
    let measured_sha256 = meter.digest();
    match verify_artifact_measurement(artifact, measured_len, measured_sha256.as_str()) {
        Err(detail) => Err(ApiHttpError::internal(detail)),
        Ok(()) => Ok(artifact_head(path, artifact)),
    }
}

/// An artifact is delivered exactly where its file is the recorded one and
/// within the limit. The file is measured until it ends or until the meter
/// takes no more, so a file that has grown is refused as well.
pub proof fn only_recorded_bytes_are_delivered(
    artifact: Artifact,
    file: Seq<u8>,
    limit: Option<u64>,
    content: Seq<u8>,
)
    requires
        file.len() <= u64::MAX,
        content == file.take(
            if file.len() <= ArtifactMeter::bound(artifact.bytes) {
                file.len() as int
            } else {
                ArtifactMeter::bound(artifact.bytes) as int
            },
        ),
    ensures
        is_recorded(artifact, content) <==> is_recorded(artifact, file),
        is_recorded(artifact, content) ==> content == file,
        size_fits(artifact, file.len() as u64, limit) && is_recorded(artifact, content)
            <==> is_recorded(artifact, file) && (limit matches Some(max) ==> file.len() <= max),
{
    if file.len() <= ArtifactMeter::bound(artifact.bytes) {
        assert(content == file);
    }
}

/// The head of a reply that streams an archive of a run. It carries no
/// validator: the bytes are not known before they are sent.
pub open spec fn archive_reply(run_id: Seq<char>, what: Seq<char>) -> etag::HeadModel {
    etag::HeadModel {
        status: 200,
        headers: seq![
            ("content-type"@, "application/zip"@),
            ("content-disposition"@, "attachment; filename=\""@ + run_id + "-"@ + what + ".zip\""@),
            ("cache-control"@, "no-store"@),
        ],
    }
}

fn archive_head(run_id: &str, what: &str) -> (r: Head)
    ensures
        r@ == archive_reply(run_id@, what@),
{
    let mut disposition = "attachment; filename=\"".to_owned();
    disposition.append(run_id);
    disposition.append("-");
    disposition.append(what);
    disposition.append(".zip\"");
    let mut headers: Vec<(&'static str, String)> = Vec::new();
    headers.push(("content-type", "application/zip".to_owned()));
    headers.push(("content-disposition", disposition));
    headers.push(("cache-control", "no-store".to_owned()));
    let head = Head { status: 200, headers };
    assert(head@.headers =~= archive_reply(run_id@, what@).headers);
    head
}

/// The head of a reply that streams a run's bundle.
pub fn bundle_head(run_id: &str) -> (r: Head)
    ensures
        r@ == archive_reply(run_id@, "bundle"@),
{
    archive_head(run_id, "bundle")
}

/// The head of a reply that streams a run's artifacts.
pub fn artifacts_zip_head(run_id: &str) -> (r: Head)
    ensures
        r@ == archive_reply(run_id@, "artifacts"@),
{
    archive_head(run_id, "artifacts")
}

/// The head of a reply that carries a generator's asset.
pub open spec fn asset_reply(path: Seq<char>) -> etag::HeadModel {
    etag::HeadModel {
        status: 200,
        headers: seq![
            ("content-type"@, media_type(text::after_last(path, '.'))),
            ("content-disposition"@, "inline"@),
            ("cache-control"@, "no-store"@),
        ],
    }
}

pub fn generator_asset_head(path: &str) -> (r: Head)
    ensures
        r@ == asset_reply(path@),
{
    let mut headers: Vec<(&'static str, String)> = Vec::new();
    headers.push(("content-type", content_type_for_name(path).to_owned()));
    headers.push(("content-disposition", "inline".to_owned()));
    headers.push(("cache-control", "no-store".to_owned()));
    let head = Head { status: 200, headers };
    assert(head@.headers =~= asset_reply(path@).headers);
    head
}

} // verus!
