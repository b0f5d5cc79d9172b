//! Who may ask the server for what.
use vstd::prelude::*;
use crate::artifact;
use crate::auth;
use crate::cors;
use crate::digest;
use crate::gate;
use crate::gate::{Incoming, Passage};
use crate::header;
use crate::shutdown;
use crate::text;

verus! {

/// The bytes of a header can be read as text: printable characters, spaces and
/// tabs.
pub open spec fn is_readable(bytes: Seq<u8>) -> bool {
    forall|i: int| 0 <= i < bytes.len() ==> (32 <= #[trigger] bytes[i] < 127) || bytes[i] == 9
}

/// A credential is what follows `Bearer ` in a readable header; any other
/// header, and a missing one, carries none.
pub proof fn a_credential_follows_its_scheme(bytes: Seq<u8>, token: Seq<char>)
    ensures
        auth::bearer_token(None) is None,
        is_readable(bytes) && bytes.map_values(|b: u8| b as char) == "Bearer "@ + token
            ==> auth::bearer_token(Some(bytes)) == Some(token),
        !is_readable(bytes) ==> auth::bearer_token(Some(bytes)) is None,
        auth::bearer_token(Some(bytes)) matches Some(found) ==> bytes.map_values(|b: u8| b as char)
            == "Bearer "@ + found,
{
    readable_bytes(bytes);
    let chars = bytes.map_values(|b: u8| b as char);
    let scheme = "Bearer "@;
    assert(header::ascii_text(bytes) == chars);
    if chars == scheme + token {
        assert(chars.subrange(0, scheme.len() as int) =~= scheme);
        assert(chars.skip(scheme.len() as int) =~= token);
    }
    if scheme.is_prefix_of(chars) {
        assert(chars =~= chars.subrange(0, scheme.len() as int) + chars.skip(scheme.len() as int));
    }
}

/// A header is readable where all of its bytes are visible.
pub proof fn readable_bytes(bytes: Seq<u8>)
    ensures
        header::all_visible(bytes) <==> is_readable(bytes),
{
    if header::all_visible(bytes) {
        assert forall|i: int| 0 <= i < bytes.len() implies (32 <= #[trigger] bytes[i] < 127)
            || bytes[i] == 9 by {
            assert(header::visible(bytes[i]));
        }
    }
    if is_readable(bytes) {
        assert forall|i: int| 0 <= i < bytes.len() implies header::visible(#[trigger] bytes[i]) by {
            assert((32 <= bytes[i] < 127) || bytes[i] == 9);
        }
    }
}

/// The path is one of an asset of a generator.
pub open spec fn is_asset_path(path: Seq<char>) -> bool {
    (exists|rest: Seq<char>| path == #[trigger] ("/api/generators/"@ + rest)) && (exists|
        x: Seq<char>,
        y: Seq<char>,
    |
        path == #[trigger] (x + "/assets/"@ + y))
}

proof fn asset_paths(path: Seq<char>)
    ensures
        auth::is_generator_asset(path) <==> is_asset_path(path),
{
    let dir = "/api/generators/"@;
    if dir.is_prefix_of(path) {
        assert(path =~= dir + path.skip(dir.len() as int));
    }
    if exists|rest: Seq<char>| path == #[trigger] (dir + rest) {
        let rest = choose|rest: Seq<char>| path == #[trigger] (dir + rest);
        assert(path.subrange(0, dir.len() as int) =~= dir);
    }
    super::texts::occurring_is_standing_between(path, "/assets/"@, Seq::empty(), Seq::empty());
    if exists|x: Seq<char>, y: Seq<char>| path == #[trigger] (x + "/assets/"@ + y) {
        let (x, y) = choose|x: Seq<char>, y: Seq<char>| path == #[trigger] (x + "/assets/"@ + y);
        super::texts::occurring_is_standing_between(path, "/assets/"@, x, y);
    }
}

/// Where no credential is configured everything is open. Where one is, a
/// request passes exactly where its path is open to all, it reads an asset of
/// a generator, or it carries a credential with the configured digest.
pub proof fn a_request_needs_its_credential(
    expected: Seq<u8>,
    is_get: bool,
    path: Seq<char>,
    authorization: Option<Seq<u8>>,
)
    ensures
        auth::authorized(None, is_get, path, authorization),
        auth::authorized(Some(expected), is_get, path, authorization) <==> {
            ||| path == "/healthz"@
            ||| path == "/api/openapi.json"@
            ||| path == "/api/mcp/oauth/callback"@
            ||| is_get && is_asset_path(path)
            ||| authorization is Some && is_readable(authorization->0) && exists|token: Seq<char>|
                authorization->0.map_values(|b: u8| b as char) == #[trigger] ("Bearer "@ + token)
                    && digest::sha256(vstd::utf8::encode_utf8(token)) == expected
        },
{
    asset_paths(path);
    if authorization is Some {
        let bytes = authorization->0;
        readable_bytes(bytes);
        if is_readable(bytes) && exists|token: Seq<char>|
            bytes.map_values(|b: u8| b as char) == #[trigger] ("Bearer "@ + token)
                && digest::sha256(vstd::utf8::encode_utf8(token)) == expected {
            let token = choose|token: Seq<char>|
                bytes.map_values(|b: u8| b as char) == #[trigger] ("Bearer "@ + token)
                    && digest::sha256(vstd::utf8::encode_utf8(token)) == expected;
            a_credential_follows_its_scheme(bytes, token);
        }
        a_credential_follows_its_scheme(bytes, Seq::empty());
    }
}

/// Every answer forbids sniffing, framing and referrers. An asset of a
/// generator may use what is its own; any other answer may load nothing.
pub proof fn an_answer_is_confined(path: Seq<char>)
    ensures
        auth::security_header_pairs(path).len() == 4,
        auth::security_header_pairs(path).contains(("x-content-type-options"@, "nosniff"@)),
        auth::security_header_pairs(path).contains(("x-frame-options"@, "DENY"@)),
        auth::security_header_pairs(path).contains(("referrer-policy"@, "no-referrer"@)),
        !is_asset_path(path) ==> auth::security_header_pairs(path).contains(
            ("content-security-policy"@, "default-src 'none'; frame-ancestors 'none'"@),
        ),
        is_asset_path(path) ==> auth::security_header_pairs(path).contains(
            (
                "content-security-policy"@,
                "default-src 'none'; script-src 'self' 'wasm-unsafe-eval'; style-src 'self'; img-src 'self' data: blob:; media-src blob:; frame-src blob:; connect-src 'self'; frame-ancestors 'none'; base-uri 'none'"@,
            ),
        ),
{
    asset_paths(path);
    let pairs = auth::security_header_pairs(path);
    assert(pairs[0].0 == "content-security-policy"@);
    assert(pairs[1] == ("x-content-type-options"@, "nosniff"@));
    assert(pairs[2] == ("x-frame-options"@, "DENY"@));
    assert(pairs[3] == ("referrer-policy"@, "no-referrer"@));
}

/// A loopback listener is its own origin, under its address and its three
/// usual names, at its port.
pub proof fn a_loopback_listener_has_four_names(address: Seq<char>, port: u16, origin: Seq<char>)
    ensures
        auth::loopback_aliases(address, port).contains(origin) <==> origin == "http://"@ + address
            || origin == "http://localhost:"@ + text::decimal(port as nat) || origin
            == "http://127.0.0.1:"@ + text::decimal(port as nat) || origin == "http://[::1]:"@
            + text::decimal(port as nat),
{
    let names = auth::loopback_aliases(address, port);
    assert(names[0] == "http://"@ + address);
    assert(names[1] == "http://localhost:"@ + text::decimal(port as nat));
    assert(names[2] == "http://127.0.0.1:"@ + text::decimal(port as nat));
    assert(names[3] == "http://[::1]:"@ + text::decimal(port as nat));
    assert(names.len() == 4);
}

/// An authorisation is begun only on a loopback listener with allowed origins,
/// and only from no origin or from one of those.
pub proof fn an_authorisation_starts_at_home(
    is_loopback: bool,
    allowed: Seq<Seq<char>>,
    origin: Option<Seq<u8>>,
)
    ensures
        auth::oauth_refusal(is_loopback, allowed, origin) is None <==> is_loopback && allowed.len()
            > 0 && (origin is Some ==> is_readable(origin->0) && allowed.contains(
            origin->0.map_values(|b: u8| b as char),
        )),
{
    if origin is Some {
        readable_bytes(origin->0);
        assert(header::ascii_text(origin->0) == origin->0.map_values(|b: u8| b as char));
    }
}

/// An asset path is read as encoded where it holds an encoded dot, slash or
/// backslash, in capital or small letters.
pub proof fn an_encoded_separator_is_seen(
    asset: Seq<char>,
    before: Seq<char>,
    part: Seq<char>,
    after: Seq<char>,
)
    requires
        part.len() == 3,
        part[0] == '%',
        (part[1] == '2' && (part[2] == 'e' || part[2] == 'E' || part[2] == 'f' || part[2] == 'F'))
            || (part[1] == '5' && (part[2] == 'c' || part[2] == 'C')),
        asset == before + part + after,
    ensures
        artifact::has_encoded_part(asset),
{
    let (x, p, y) = (text::lower(before), text::lower(part), text::lower(after));
    assert(text::lower(asset) =~= x + p + y);
    reveal_strlit("%2e");
    reveal_strlit("%2f");
    reveal_strlit("%5c");
    assert(p =~= "%2e"@ || p =~= "%2f"@ || p =~= "%5c"@) by {
        assert(p[0] == '%');
        assert(p[1] == part[1]);
        assert(p.len() == 3);
        if part[2] == 'e' || part[2] == 'E' {
            assert(p =~= "%2e"@);
        } else if part[2] == 'f' || part[2] == 'F' {
            assert(p =~= "%2f"@);
        } else {
            assert(p =~= "%5c"@);
        }
    }
    super::texts::occurring_is_standing_between(text::lower(asset), p, x, y);
}

/// A path without a percent sign holds no encoded part.
pub proof fn a_plain_path_is_not_encoded(asset: Seq<char>)
    requires
        !asset.contains('%'),
    ensures
        !artifact::has_encoded_part(asset),
{
    let lower = text::lower(asset);
    reveal_strlit("%2e");
    reveal_strlit("%2f");
    reveal_strlit("%5c");
    assert forall|part: Seq<char>| part.len() > 0 && part[0] == '%' implies !(#[trigger] text::occurs(
        lower,
        part,
    )) by {
        if text::occurs(lower, part) {
            let at = choose|at: int| text::occurs_at(lower, part, at);
            assert(text::occurs_at(lower, part, at));
            assert(lower.subrange(at, at + part.len())[0] == part[0]);
            assert(lower[at] == '%');
            assert(asset[at] == '%');
        }
    }
}

/// While the server drains it takes no new work: posts, puts, patches and
/// deletions are refused, and nothing else is.
pub proof fn a_drain_refuses_new_work(shutting_down: bool, method: Seq<char>)
    ensures
        shutdown::refused_by_drain(shutting_down, method) <==> shutting_down && (method == "POST"@
            || method == "PUT"@ || method == "PATCH"@ || method == "DELETE"@),
{
}

/// A request without its credential is refused with 401 before anything else of
/// it is looked at; a read of an unsafe asset path is refused with 400; and
/// every other request passes.
pub proof fn the_gates_stand_in_order(request: Incoming, expected: Option<Seq<u8>>, r: Passage)
    requires
        gate::passes_inner_gates(request, expected, r),
    ensures
        ({
            let is_get = request.method@ == "GET"@;
            let known = auth::authorized(
                expected,
                is_get,
                request.path@,
                auth::bytes_view(request.authorization),
            );
            let doubtful = is_get && (artifact::asset_named(request.path@) matches Some(asset) && (
            !request.asset_is_safe || artifact::has_encoded_part(asset)));
            &&& (!known ==> (r matches Passage::Unauthorized(refusal) && refusal@.status == 401))
            &&& (known && doubtful ==> (r matches Passage::UnsafePath(refusal) && refusal@.status
                == 400))
            &&& (known && !doubtful ==> r is Open)
        }),
{
}

/// A scheme of the web.
pub open spec fn is_web_scheme(scheme: Seq<char>) -> bool {
    scheme == "http://"@ || scheme == "https://"@
}

/// A character that no host and no port can hold.
pub open spec fn breaks_an_origin(c: char) -> bool {
    c == '@' || c == '/' || c == '?' || c == '#' || c == ' '
}

/// Digits, at least one.
pub open spec fn is_number(s: Seq<char>) -> bool {
    s.len() > 0 && forall|i: int| 0 <= i < s.len() ==> 48 <= (#[trigger] s[i]) as int <= 57
}

/// What stands behind a host: nothing, or a colon and a number.
pub open spec fn is_port_part(tail: Seq<char>) -> bool {
    tail.len() == 0 || (tail[0] == ':' && is_number(tail.skip(1)))
}

/// A name, or an address of the older kind: not empty, without colons and
/// brackets.
pub open spec fn is_plain_host(host: Seq<char>) -> bool {
    host.len() > 0 && !host.contains(':') && !host.contains('[') && !host.contains(']')
}

/// An address of the newer kind, in brackets.
pub open spec fn is_bracketed_host(host: Seq<char>) -> bool {
    host.len() > 2 && host[0] == '[' && host.last() == ']' && !host.drop_last().contains(']')
}

/// An origin is accepted where it is a scheme of the web, a host and at most a
/// port, in capital or small letters, and can stand in a header.
pub proof fn a_plain_origin_is_accepted(
    origin: Seq<char>,
    scheme: Seq<char>,
    host: Seq<char>,
    tail: Seq<char>,
)
    requires
        header::is_header_value(origin),
        is_web_scheme(scheme),
        is_plain_host(host) || is_bracketed_host(host),
        is_port_part(tail),
        text::lower(origin) == scheme + host + tail,
        forall|i: int| 0 <= i < host.len() ==> !breaks_an_origin(#[trigger] host[i]),
    ensures
        cors::origin_refusal(origin) is None,
{
    let lower = text::lower(origin);
    let rest = host + tail;
    schemes_are_cut_off(lower, scheme, rest);
    assert forall|c: char| #[trigger] breaks_an_origin(c) implies !rest.contains(c) by {
        if rest.contains(c) {
            let i = choose|i: int| 0 <= i < rest.len() && rest[i] == c;
            if i < host.len() {
                assert(!breaks_an_origin(host[i]));
            } else if i > host.len() {
                assert(tail.skip(1)[i - host.len() - 1] == c);
            }
        }
    }
    assert(breaks_an_origin('@') && breaks_an_origin('/') && breaks_an_origin('?'));
    assert(breaks_an_origin('#') && breaks_an_origin(' '));
    assert(!rest.contains('@'));
    assert(!rest.contains('/'));
    assert(!rest.contains('?'));
    assert(!rest.contains('#'));
    assert(!rest.contains(' '));
    a_host_is_parted(host, tail);
    if tail.len() > 0 {
        assert(text::all_digits(tail.skip(1))) by {
            assert forall|i: int| 0 <= i < tail.skip(1).len() implies text::is_digit(
                #[trigger] tail.skip(1)[i],
            ) by {
                assert(48 <= tail.skip(1)[i] as int <= 57);
            }
        }
        if tail.skip(1).contains(':') {
            let i = choose|i: int| 0 <= i < tail.skip(1).len() && tail.skip(1)[i] == ':';
            assert(48 <= tail.skip(1)[i] as int <= 57);
        }
    }
}

/// Nothing else is accepted: an accepted origin is a scheme of the web, a host
/// and at most a port, with no character that breaks it.
pub proof fn only_plain_origins_are_accepted(origin: Seq<char>)
    requires
        cors::origin_refusal(origin) is None,
    ensures
        header::is_header_value(origin),
        exists|scheme: Seq<char>, host: Seq<char>, tail: Seq<char>|
            text::lower(origin) == #[trigger] (scheme + host + tail) && is_web_scheme(scheme) && (
            is_plain_host(host) || is_bracketed_host(host)) && is_port_part(tail) && forall|i: int|
                0 <= i < host.len() ==> !breaks_an_origin(#[trigger] host[i]),
{
    let lower = text::lower(origin);
    let rest = cors::after_scheme(lower)->0;
    let scheme = lower.take(lower.len() - rest.len());
    assert(is_web_scheme(scheme) && lower == scheme + rest) by {
        reveal_strlit("http://");
        reveal_strlit("https://");
        assert(lower =~= scheme + rest);
    }
    let (host, tail) = cors::host_and_tail(rest)->0;
    super::texts::the_first_place_has_none_before(rest, ']');
    super::texts::the_first_place_has_none_before(rest, ':');
    assert(rest =~= host + tail);
    assert forall|i: int| 0 <= i < host.len() implies !breaks_an_origin(#[trigger] host[i]) by {
        assert(rest[i] == host[i]);
        assert(rest.contains(host[i]));
    }
    if rest[0] == '[' {
        let end = text::first_index(rest, ']')->0;
        assert(host.last() == ']');
        assert(!host.drop_last().contains(']')) by {
            if host.drop_last().contains(']') {
                let i = choose|i: int| 0 <= i < host.drop_last().len() && host.drop_last()[i]
                    == ']';
                assert(rest[i] == ']');
            }
        }
        assert(host[0] == '[');
    } else {
        if host.contains(':') {
            let i = choose|i: int| 0 <= i < host.len() && host[i] == ':';
            assert(rest[i] == ':');
            if text::first_index(rest, ':') is None {
                assert(rest.contains(':'));
            }
        }
        assert(host[0] == rest[0]);
    }
    if tail.len() > 0 {
        assert forall|i: int| 0 <= i < tail.skip(1).len() implies 48 <= (
        #[trigger] tail.skip(1)[i]) as int <= 57 by {
            assert(text::is_digit(tail.skip(1)[i]));
        }
    }
    assert(lower =~= scheme + host + tail);
}

/// What follows the scheme of an origin is its host and port.
pub proof fn schemes_are_cut_off(lower: Seq<char>, scheme: Seq<char>, rest: Seq<char>)
    requires
        is_web_scheme(scheme),
        lower =~= scheme + rest,
    ensures
        cors::after_scheme(lower) == Some(rest),
{
    let (plain, secure) = ("http://"@, "https://"@);
    reveal_strlit("http://");
    reveal_strlit("https://");
    assert(lower.subrange(0, scheme.len() as int) =~= scheme);
    if scheme == plain {
        assert(lower.skip(plain.len() as int) =~= rest);
    } else {
        assert(lower[4] == 's');
        assert(!plain.is_prefix_of(lower)) by {
            if plain.is_prefix_of(lower) {
                assert(lower.subrange(0, 7)[4] == plain[4]);
            }
        }
        assert(lower.skip(secure.len() as int) =~= rest);
    }
}

proof fn a_host_is_parted(host: Seq<char>, tail: Seq<char>)
    requires
        is_plain_host(host) || is_bracketed_host(host),
        is_port_part(tail),
    ensures
        cors::host_and_tail(host + tail) == Some((host, tail)),
{
    let rest = host + tail;
    if is_bracketed_host(host) {
        let end = host.len() - 1;
        assert forall|j: int| 0 <= j < end implies rest[j] != ']' by {
            assert(host.drop_last()[j] == rest[j]);
            assert(host.drop_last().contains(host.drop_last()[j]));
        }
        text::first_index_found(rest, ']', end);
        assert(rest.take(end + 1) =~= host);
        assert(rest.skip(end + 1) =~= tail);
    } else {
        assert(rest[0] == host[0]);
        assert(host.contains(host[0]));
        assert forall|j: int| 0 <= j < host.len() implies rest[j] != ':' by {
            assert(host.contains(host[j]));
        }
        if tail.len() == 0 {
            assert(rest =~= host);
            text::first_index_missing(rest, ':');
            assert(tail =~= Seq::<char>::empty());
        } else {
            let end = host.len() as int;
            assert(rest[end] == ':');
            text::first_index_found(rest, ':', end);
            assert(rest.take(end) =~= host);
            assert(rest.skip(end) =~= tail);
        }
    }
}

/// A text can stand in a header exactly where its bytes are no control
/// characters, tabs aside.
pub proof fn a_header_value_holds_no_control_character(s: Seq<char>)
    ensures
        header::is_header_value(s) <==> forall|i: int|
            0 <= i < vstd::utf8::encode_utf8(s).len() ==> ({
                let b = #[trigger] vstd::utf8::encode_utf8(s)[i];
                (b >= 32 && b != 127) || b == 9
            }),
{
    let bytes = vstd::utf8::encode_utf8(s);
    if header::is_header_value(s) {
        assert forall|i: int| 0 <= i < bytes.len() implies ({
            let b = #[trigger] bytes[i];
            (b >= 32 && b != 127) || b == 9
        }) by {
            assert(header::header_byte(bytes[i]));
        }
    }
}

/// Of several origins each is accepted on its own, and the first that is not
/// is reported; the list holds each accepted one once, in small letters.
pub proof fn origins_are_listed_one_by_one(origins: Seq<Seq<char>>, next: Seq<char>)
    ensures
        cors::allowlist(Seq::empty()) == Ok::<Seq<Seq<char>>, Seq<char>>(Seq::empty()),
        cors::allowlist(origins) is Err ==> cors::allowlist(origins.push(next))
            == cors::allowlist(origins),
        cors::allowlist(origins) matches Ok(list) ==> {
            let after = cors::allowlist(origins.push(next));
            &&& (cors::origin_refusal(next) is Some ==> after == Err::<Seq<Seq<char>>, Seq<char>>(
                cors::origin_refusal(next)->0,
            ))
            &&& (cors::origin_refusal(next) is None && list.contains(text::lower(next)) ==> after
                == Ok::<Seq<Seq<char>>, Seq<char>>(list))
            &&& (cors::origin_refusal(next) is None && !list.contains(text::lower(next)) ==> after
                == Ok::<Seq<Seq<char>>, Seq<char>>(list.push(text::lower(next))))
        },
{
    assert(origins.push(next).drop_last() =~= origins);
}

/// A listener on loopback is its own origin, and the browser returns to it; any
/// other listener has none, and there is nowhere to return to.
pub proof fn only_a_loopback_listener_has_a_way_back(address: Seq<char>)
    ensures
        auth::own_origin(address, true) == Some("http://"@ + address),
        auth::own_origin(address, false) is None,
        auth::callback_at(auth::own_origin(address, true)) == Some(
            "http://"@ + address + "/api/mcp/oauth/callback"@,
        ),
        auth::callback_at(auth::own_origin(address, false)) is None,
        auth::loopback_aliases(address, 0).contains(auth::own_origin(address, true)->0),
{
    assert(auth::loopback_aliases(address, 0)[0] == "http://"@ + address);
}

} // verus!
