//! Who may call what: bearer authentication, the loopback rule for browser
//! authorisation, and the headers that every response carries.
use vstd::prelude::*;
use vstd::string::*;
use crate::digest;
use crate::error;
use crate::error::ApiHttpError;
use crate::header;
use crate::text;

verus! {

/// The credential of an `Authorization` header, if its bytes are text that
/// begins with `Bearer `.
pub open spec fn bearer_token(authorization: Option<Seq<u8>>) -> Option<Seq<char>> {
    match authorization {
        Some(bytes) => if header::all_visible(bytes) && "Bearer "@.is_prefix_of(
            header::ascii_text(bytes),
        ) {
            Some(header::ascii_text(bytes).skip("Bearer "@.len() as int))
        } else {
            None
        },
        None => None,
    }
}

/// An optional byte slice as an optional sequence.
pub open spec fn bytes_view(value: Option<&[u8]>) -> Option<Seq<u8>> {
    match value {
        Some(bytes) => Some(bytes@),
        None => None,
    }
}

/// Reads the credential of an `Authorization` header.
pub fn presented_bearer(authorization: Option<&[u8]>) -> (r: Option<String>)
    ensures
        r.deep_view() == bearer_token(bytes_view(authorization)),
{
    let bytes = match authorization {
        Some(bytes) => bytes,
        None => {
            return None;
        },
    };
    let raw = match header::header_text(bytes) {
        Some(raw) => raw,
        None => {
            return None;
        },
    };
    if !text::has_prefix(raw.as_str(), "Bearer ") {
        return None;
    }
    proof {
        reveal_strlit("Bearer ");
    }
    let chars = text::chars_of(raw.as_str());
    let token = text::text_between(&chars, 7, chars.len());
    assert(token@ == raw@.skip(7));
    Some(token)
}

/// Compares two digests in a time that does not depend on their content.
pub fn constant_time_digest_eq(left: &[u8; 32], right: &[u8; 32]) -> (r: bool)
    ensures
        r == (left@ == right@),
{
    digest::equal_digests(left, right)
}

/// The path of a generator's declared asset.
pub open spec fn is_generator_asset(path: Seq<char>) -> bool {
    "/api/generators/"@.is_prefix_of(path) && text::occurs(path, "/assets/"@)
}

pub fn generator_asset(path: &str) -> (r: bool)
    ensures
        r == is_generator_asset(path@),
{
    text::has_prefix(path, "/api/generators/") && text::has_text(path, "/assets/")
}

/// Requests that need no credential: liveness, the API description, the
/// browser's return from authorisation, and reads of declared assets.
pub open spec fn is_open(is_get: bool, path: Seq<char>) -> bool {
    path == "/healthz"@ || path == "/api/openapi.json"@ || path == "/api/mcp/oauth/callback"@ || (
    is_get && is_generator_asset(path))
}

/// Whether a request passes authentication. `expected` is the digest of the
/// configured token, if one is configured.
pub open spec fn authorized(
    expected: Option<Seq<u8>>,
    is_get: bool,
    path: Seq<char>,
    authorization: Option<Seq<u8>>,
) -> bool {
    ||| expected is None
    ||| is_open(is_get, path)
    ||| bearer_token(authorization) matches Some(token) && digest::sha256(
        vstd::utf8::encode_utf8(token),
    ) == expected->0
}

/// An optional digest as an optional sequence.
pub open spec fn digest_view(value: Option<[u8; 32]>) -> Option<Seq<u8>> {
    match value {
        Some(bytes) => Some(bytes@),
        None => None,
    }
}

/// Authenticates a request.
pub fn require_api_auth(
    expected: &Option<[u8; 32]>,
    is_get: bool,
    path: &str,
    authorization: Option<&[u8]>,
) -> (r: Result<(), ApiHttpError>)
    ensures
        r is Ok == authorized(digest_view(*expected), is_get, path@, bytes_view(authorization)),
        r matches Err(refusal) ==> refusal@ == error::unauthorized_problem(
            "valid bearer token required"@,
        ),
{
    let expected = match expected {
        Some(digest) => digest,
        None => {
            return Ok(());
        },
    };
    if text::same_text(path, "/healthz") || text::same_text(path, "/api/openapi.json")
        || text::same_text(path, "/api/mcp/oauth/callback") || (is_get && generator_asset(path)) {
        return Ok(());
    }
    if let Some(token) = presented_bearer(authorization) {
        let supplied = digest::sha256_bytes(token.as_str());
        if constant_time_digest_eq(&supplied, expected) {
            return Ok(());
        }
    }
    Err(ApiHttpError::unauthorized("valid bearer token required".to_owned()))
}

/// The challenge that accompanies a refused credential.
pub fn authenticate_challenge() -> (r: &'static str)
    ensures
        r@ == "Bearer realm=\"qcg\""@,
{
    "Bearer realm=\"qcg\""
}

/// The content security policy of a response to `path`.
pub open spec fn content_security_policy(path: Seq<char>) -> Seq<char> {
    if is_generator_asset(path) {
        "default-src 'none'; script-src 'self' 'wasm-unsafe-eval'; style-src 'self'; img-src 'self' data: blob:; media-src blob:; frame-src blob:; connect-src 'self'; frame-ancestors 'none'; base-uri 'none'"@
    } else {
        "default-src 'none'; frame-ancestors 'none'"@
    }
}

/// The header names and values that every response to `path` carries.
pub open spec fn security_header_pairs(path: Seq<char>) -> Seq<(Seq<char>, Seq<char>)> {
    seq![
        ("content-security-policy"@, content_security_policy(path)),
        ("x-content-type-options"@, "nosniff"@),
        ("x-frame-options"@, "DENY"@),
        ("referrer-policy"@, "no-referrer"@),
    ]
}

/// Header pairs as text pairs.
pub open spec fn pair_views(pairs: Seq<(&'static str, &'static str)>) -> Seq<
    (Seq<char>, Seq<char>),
> {
    pairs.map_values(|p: (&'static str, &'static str)| (p.0@, p.1@))
}

/// The security headers of a response to `path`.
pub fn security_headers(path: &str) -> (r: Vec<(&'static str, &'static str)>)
    ensures
        pair_views(r@) == security_header_pairs(path@),
{
    let policy: &'static str = if generator_asset(path) {
        "default-src 'none'; script-src 'self' 'wasm-unsafe-eval'; style-src 'self'; img-src 'self' data: blob:; media-src blob:; frame-src blob:; connect-src 'self'; frame-ancestors 'none'; base-uri 'none'"
    } else {
        "default-src 'none'; frame-ancestors 'none'"
    };
    let mut headers: Vec<(&'static str, &'static str)> = Vec::new();
    headers.push(("content-security-policy", policy));
    headers.push(("x-content-type-options", "nosniff"));
    headers.push(("x-frame-options", "DENY"));
    headers.push(("referrer-policy", "no-referrer"));
    assert(pair_views(headers@) =~= security_header_pairs(path@));
    headers
}

/// The origins that a browser on this machine can use for the listener.
pub open spec fn loopback_aliases(address: Seq<char>, port: u16) -> Seq<Seq<char>> {
    let port = text::decimal(port as nat);
    seq![
        "http://"@ + address,
        "http://localhost:"@ + port,
        "http://127.0.0.1:"@ + port,
        "http://[::1]:"@ + port,
    ]
}

fn alias(prefix: &str, port: u16) -> (r: String)
    ensures
        r@ == prefix@ + text::decimal(port as nat),
{
    let mut origin = prefix.to_owned();
    text::push_decimal(&mut origin, port as u64);
    origin
}

/// The origins from which browser authorisation is accepted: the aliases of
/// the bound port on a loopback listener, none on any other. `address` is the
/// listener's address with its port.
pub fn loopback_oauth_origins(address: &str, port: u16, is_loopback: bool) -> (r: Vec<String>)
    ensures
        r.deep_view() == (if is_loopback {
            loopback_aliases(address@, port)
        } else {
            Seq::empty()
        }),
{
    let mut origins: Vec<String> = Vec::new();
    if is_loopback {
        let mut own = "http://".to_owned();
        own.append(address);
        origins.push(own);
        origins.push(alias("http://localhost:", port));
        origins.push(alias("http://127.0.0.1:", port));
        origins.push(alias("http://[::1]:", port));
        assert(origins.deep_view() =~= loopback_aliases(address@, port));
    } else {
        assert(origins.deep_view() =~= Seq::<Seq<char>>::empty());
    }
    origins
}

/// The listener's own origin, on loopback only.
pub open spec fn own_origin(address: Seq<char>, is_loopback: bool) -> Option<Seq<char>> {
    if is_loopback {
        Some("http://"@ + address)
    } else {
        None
    }
}

/// Where the browser returns to after authorisation at an origin.
pub open spec fn callback_at(origin: Option<Seq<char>>) -> Option<Seq<char>> {
    match origin {
        Some(origin) => Some(origin + "/api/mcp/oauth/callback"@),
        None => None,
    }
}

/// The listener's own origin, on loopback only.
pub fn oauth_origin(address: &str, is_loopback: bool) -> (r: Option<String>)
    ensures
        r.deep_view() == own_origin(address@, is_loopback),
{
    if !is_loopback {
        return None;
    }
    let mut origin = "http://".to_owned();
    origin.append(address);
    Some(origin)
}

/// Where the browser returns to after authorisation.
pub fn oauth_callback_url(origin: &Option<String>) -> (r: Option<String>)
    ensures
        r.deep_view() == callback_at(origin.deep_view()),
{
    match origin {
        Some(origin) => {
            let mut url = origin.clone();
            url.append("/api/mcp/oauth/callback");
            Some(url)
        },
        None => None,
    }
}

fn holds_text(list: &Vec<String>, item: &str) -> (r: bool)
    ensures
        r == list.deep_view().contains(item@),
{
    let mut i: usize = 0;
    while i < list.len()
        invariant
            i <= list@.len(),
            forall|j: int| 0 <= j < i ==> (#[trigger] list@[j])@ != item@,
        decreases list.len() - i,
    {
        if text::same_text(list[i].as_str(), item) {
            assert(list.deep_view()[i as int] == item@);
            return true;
        }
        i += 1;
    }
    assert forall|j: int| 0 <= j < list.deep_view().len() implies list.deep_view()[j] != item@ by {
        assert(list.deep_view()[j] == list@[j]@);
    }
    false
}

/// Why browser authorisation is refused to a request, if it is.
pub open spec fn oauth_refusal(
    is_loopback: bool,
    allowed: Seq<Seq<char>>,
    origin: Option<Seq<u8>>,
) -> Option<Seq<char>> {
    if !is_loopback {
        Some("MCP OAuth is available only on a loopback listener"@)
    } else if allowed.len() == 0 {
        Some("MCP OAuth has no allowed loopback origins"@)
    } else {
        match origin {
            None => None,
            Some(bytes) => if !header::all_visible(bytes) {
                Some("request Origin is invalid"@)
            } else if !allowed.contains(header::ascii_text(bytes)) {
                Some("cross-origin MCP authorization is not allowed"@)
            } else {
                None
            },
        }
    }
}

/// Admits browser authorisation only on a loopback listener and only from one
/// of its own origins; a request without an origin is not a browser's.
pub fn require_local_oauth_origin(
    oauth_origin: &Option<String>,
    allowed: &Vec<String>,
    origin: Option<&[u8]>,
) -> (r: Result<(), ApiHttpError>)
    ensures
        match r {
            Ok(()) => oauth_refusal(
                oauth_origin is Some,
                allowed.deep_view(),
                bytes_view(origin),
            ) is None,
            Err(refusal) => oauth_refusal(
                oauth_origin is Some,
                allowed.deep_view(),
                bytes_view(origin),
            ) matches Some(detail) && refusal@ == error::forbidden_problem(detail),
        },
{
    if oauth_origin.is_none() {
        return Err(
            ApiHttpError::forbidden(
                "MCP OAuth is available only on a loopback listener".to_owned(),
            ),
        );
    }
    if allowed.len() == 0 {
        return Err(
            ApiHttpError::forbidden("MCP OAuth has no allowed loopback origins".to_owned()),
        );
    }
    match origin {
        None => Ok(()),
        Some(bytes) => match header::header_text(bytes) {
            None => Err(ApiHttpError::forbidden("request Origin is invalid".to_owned())),
            Some(origin) => {
                if !holds_text(allowed, origin.as_str()) {
                    Err(
                        ApiHttpError::forbidden(
                            "cross-origin MCP authorization is not allowed".to_owned(),
                        ),
                    )
                } else {
                    Ok(())
                }
            },
        },
    }
}

/// Without its exact token nothing but the open requests passes: a request
/// that an authenticated server admits is open or presents a credential whose
/// digest is the configured one.
pub proof fn a_refused_credential_opens_nothing(
    expected: Seq<u8>,
    is_get: bool,
    path: Seq<char>,
    authorization: Option<Seq<u8>>,
)
    requires
        !is_open(is_get, path),
        bearer_token(authorization) is None || digest::sha256(
            vstd::utf8::encode_utf8(bearer_token(authorization)->0),
        ) != expected,
    ensures
        !authorized(Some(expected), is_get, path, authorization),
{
}

/// The accepted origins of two ports have nothing in common but what the
/// listener's own address adds: an alias of one port is no alias of another.
pub proof fn aliases_name_their_port(address: Seq<char>, port: u16, other: u16)
    requires
        port != other,
        "http://localhost:"@ + text::decimal(other as nat) != "http://"@ + address,
    ensures
        !loopback_aliases(address, port).contains("http://localhost:"@ + text::decimal(other as nat)),
{
    let wanted = "http://localhost:"@ + text::decimal(other as nat);
    let list = loopback_aliases(address, port);
    text::decimal_round_trip(port as nat);
    text::decimal_round_trip(other as nat);
    assert forall|i: int| 0 <= i < list.len() implies list[i] != wanted by {
        reveal_strlit("http://localhost:");
        reveal_strlit("http://127.0.0.1:");
        reveal_strlit("http://[::1]:");
        if i == 1 && list[1] == wanted {
            assert(list[1].skip(17) == text::decimal(port as nat));
            assert(wanted.skip(17) == text::decimal(other as nat));
        }
        if i == 2 {
            assert(list[2][7] == '1');
            assert(wanted[7] == 'l');
        }
        if i == 3 {
            assert(list[3][7] == '[');
            assert(wanted[7] == 'l');
        }
    }
}

/// The refusal of browser authorisation away from loopback.
pub open spec fn loopback_detail() -> Seq<char> {
    "MCP OAuth is available only on a loopback listener"@
}

/// The callback that an authorisation starts with.
pub fn authorization_callback(callback: &Option<String>) -> (r: Result<String, ApiHttpError>)
    ensures
        match callback.deep_view() {
            Some(url) => r matches Ok(found) && found@ == url,
            None => r matches Err(refusal) && refusal@ == error::forbidden_problem(
                loopback_detail(),
            ),
        },
{
    match callback {
        Some(url) => Ok(url.clone()),
        None => Err(
            ApiHttpError::forbidden(
                "MCP OAuth is available only on a loopback listener".to_owned(),
            ),
        ),
    }
}

/// The full URL under which the browser came back: the listener's own origin,
/// and the path and query of the request.
pub fn returned_url(origin: &Option<String>, path_and_query: &str) -> (r: Result<
    String,
    ApiHttpError,
>)
    ensures
        match origin.deep_view() {
            Some(origin) => r matches Ok(url) && url@ == origin + path_and_query@,
            None => r matches Err(refusal) && refusal@ == error::forbidden_problem(
                loopback_detail(),
            ),
        },
{
    match origin {
        Some(origin) => {
            let mut url = origin.clone();
            url.append(path_and_query);
            Ok(url)
        },
        None => Err(
            ApiHttpError::forbidden(
                "MCP OAuth is available only on a loopback listener".to_owned(),
            ),
        ),
    }
}

/// The page that a browser sees after a completed authorisation.
pub fn connected_page(server_id: &str) -> (r: String)
    ensures
        r@ == "<!doctype html><meta charset=\"utf-8\"><title>MCP connected</title><p>MCP server <code>"@
            + server_id@ + "</code> is connected. You can close this window.</p>"@,
{
    let mut page =
        "<!doctype html><meta charset=\"utf-8\"><title>MCP connected</title><p>MCP server <code>".to_owned();
    page.append(server_id);
    page.append("</code> is connected. You can close this window.</p>");
    page
}

} // verus!
