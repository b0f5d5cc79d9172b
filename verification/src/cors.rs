//! The cross-origin allowlist: configured origins are validated and normalised
//! once, at boot.
use vstd::prelude::*;
use vstd::string::*;
use crate::header;
use crate::text;

verus! {

/// What is said of an origin that is refused.
pub open spec fn origin_detail(origin: Seq<char>, reason: Seq<char>) -> Seq<char> {
    "invalid CORS origin `"@ + origin + "`: "@ + reason
}

/// What follows the scheme of a lowercase origin, if the scheme is known.
pub open spec fn after_scheme(lower: Seq<char>) -> Option<Seq<char>> {
    if "http://"@.is_prefix_of(lower) {
        Some(lower.skip("http://"@.len() as int))
    } else if "https://"@.is_prefix_of(lower) {
        Some(lower.skip("https://"@.len() as int))
    } else {
        None
    }
}

/// The host of an authority, and what follows it: a bracketed literal ends at
/// its bracket, any other host before the first colon. `None` is a literal that
/// does not close.
pub open spec fn host_and_tail(rest: Seq<char>) -> Option<(Seq<char>, Seq<char>)> {
    if rest.len() > 0 && rest[0] == '[' {
        match text::first_index(rest, ']') {
            None => None,
            Some(end) => Some((rest.take(end + 1), rest.skip(end + 1))),
        }
    } else {
        match text::first_index(rest, ':') {
            None => Some((rest, Seq::empty())),
            Some(end) => Some((rest.take(end), rest.skip(end))),
        }
    }
}

/// A host is there, and brackets stand around it or not at all.
pub open spec fn is_host(host: Seq<char>) -> bool {
    if host.len() > 0 && host[0] == '[' {
        host.len() > 2
    } else {
        host.len() > 0 && !host.contains('[') && !host.contains(']')
    }
}

/// Why an authority is refused, if it is: it must be a host, or a host, a colon
/// and digits.
pub open spec fn authority_refusal(rest: Seq<char>) -> Option<Seq<char>> {
    match host_and_tail(rest) {
        None => Some("malformed IPv6 literal"@),
        Some((host, tail)) => if !is_host(host) || (tail.len() > 0 && (tail[0] != ':' || (host[0]
            != '[' && tail.skip(1).contains(':')))) {
            Some("must be scheme + host[:port] without path"@)
        } else if tail.len() > 0 && (tail.len() == 1 || !text::all_digits(tail.skip(1))) {
            Some("port must be numeric"@)
        } else {
            None
        },
    }
}

/// Why an origin is refused, if it is: it must be `http(s)://host[:port]`,
/// with nothing before the host and nothing after the port.
pub open spec fn origin_refusal(origin: Seq<char>) -> Option<Seq<char>> {
    if !header::is_header_value(origin) {
        Some(origin_detail(origin, "failed to parse header value"@))
    } else {
        match after_scheme(text::lower(origin)) {
            None => Some(origin_detail(origin, "must start with http:// or https://"@)),
            Some(rest) => if rest.contains('@') {
                Some(origin_detail(origin, "userinfo is not allowed"@))
            } else if rest.len() == 0 || rest.contains('/') || rest.contains('?') || rest.contains(
                '#',
            ) || rest.contains(' ') {
                Some(origin_detail(origin, "must be scheme + host[:port] without path"@))
            } else {
                match authority_refusal(rest) {
                    Some(reason) => Some(origin_detail(origin, reason)),
                    None => None,
                }
            },
        }
    }
}

/// The allowlist of the configured origins: each in lowercase and once, in the
/// order of first mention, unless one of them is refused.
pub open spec fn allowlist(origins: Seq<Seq<char>>) -> Result<Seq<Seq<char>>, Seq<char>>
    decreases origins.len(),
{
    if origins.len() == 0 {
        Ok(Seq::empty())
    } else {
        match allowlist(origins.drop_last()) {
            Err(detail) => Err(detail),
            Ok(list) => match origin_refusal(origins.last()) {
                Some(detail) => Err(detail),
                None => if list.contains(text::lower(origins.last())) {
                    Ok(list)
                } else {
                    Ok(list.push(text::lower(origins.last())))
                },
            },
        }
    }
}

/// The refusal of origins in a build that cannot serve them.
pub open spec fn cors_disabled_detail() -> Seq<char> {
    "CORS origins are configured, but this build disables the `server-cors` cargo feature"@
}

fn refuse_origin(origin: &str, reason: &str) -> (r: String)
    ensures
        r@ == origin_detail(origin@, reason@),
{
    let mut detail = "invalid CORS origin `".to_owned();
    detail.append(origin);
    detail.append("`: ");
    detail.append(reason);
    detail
}

fn digits_from(v: &Vec<char>, from: usize) -> (r: bool)
    requires
        from <= v@.len(),
    ensures
        r == text::all_digits(v@.skip(from as int)),
{
    let mut i: usize = from;
    while i < v.len()
        invariant
            from <= i <= v@.len(),
            forall|j: int| from <= j < i ==> text::is_digit(#[trigger] v@[j]),
        decreases v.len() - i,
    {
        let c = v[i];
        if c < '0' || c > '9' {
            assert(v@.skip(from as int)[i - from] == c);
            return false;
        }
        i += 1;
    }
    assert forall|j: int| 0 <= j < v@.skip(from as int).len() implies text::is_digit(
        #[trigger] v@.skip(from as int)[j],
    ) by {
        assert(v@.skip(from as int)[j] == v@[from + j]);
    }
    true
}

fn check_authority(origin: &str, rest: &Vec<char>) -> (r: Result<(), String>)
    requires
        rest@.len() > 0,
    ensures
        match r {
            Ok(()) => authority_refusal(rest@) is None,
            Err(detail) => authority_refusal(rest@) matches Some(reason) && detail@
                == origin_detail(origin@, reason),
        },
{
    let form = "must be scheme + host[:port] without path";
    let length: usize = rest.len();
    let bracketed = rest[0] == '[';
    let end: usize = if bracketed {
        match text::find_char(rest, ']', 0) {
            None => {
                proof {
                    text::first_index_missing(rest@, ']');
                }
                return Err(refuse_origin(origin, "malformed IPv6 literal"));
            },
            Some(end) => {
                proof {
                    text::first_index_found(rest@, ']', end as int);
                }
                end + 1
            },
        }
    } else {
        match text::find_char(rest, ':', 0) {
            None => {
                proof {
                    text::first_index_missing(rest@, ':');
                    assert(rest@.skip(rest@.len() as int) == Seq::<char>::empty());
                    assert(rest@.take(rest@.len() as int) == rest@);
                }
                length
            },
            Some(at) => {
                proof {
                    text::first_index_found(rest@, ':', at as int);
                }
                at
            },
        }
    };
    let ghost host = rest@.take(end as int);
    let ghost tail = rest@.skip(end as int);
    assert(host_and_tail(rest@) == Some((host, tail)));
    let host_text = text::text_between(rest, 0, end);
    assert(host_text@ == host);
    let has_host = if bracketed {
        end > 2
    } else {
        end > 0 && !text::has_char(host_text.as_str(), '[') && !text::has_char(
            host_text.as_str(),
            ']',
        )
    };
    assert(has_host == is_host(host));
    if !has_host {
        return Err(refuse_origin(origin, form));
    }
    assert(host[0] == rest@[0]);
    if end == length {
        return Ok(());
    }
    assert(tail[0] == rest@[end as int]);
    assert(tail.skip(1) == rest@.skip(end + 1));
    if rest[end] != ':' {
        return Err(refuse_origin(origin, form));
    }
    let port_text = text::text_between(rest, end + 1, length);
    assert(port_text@ == tail.skip(1));
    if !bracketed && text::has_char(port_text.as_str(), ':') {
        return Err(refuse_origin(origin, form));
    }
    if end + 1 == length || !digits_from(rest, end + 1) {
        return Err(refuse_origin(origin, "port must be numeric"));
    }
    Ok(())
}

fn check_origin(origin: &str, lower: &String) -> (r: Result<(), String>)
    requires
        lower@ == text::lower(origin@),
    ensures
        match r {
            Ok(()) => origin_refusal(origin@) is None,
            Err(detail) => origin_refusal(origin@) == Some(detail@),
        },
{
    if !header::parses_as_header_value(origin) {
        return Err(refuse_origin(origin, "failed to parse header value"));
    }
    let chars = text::chars_of(lower.as_str());
    let start: usize = if text::has_prefix(lower.as_str(), "http://") {
        proof {
            reveal_strlit("http://");
        }
        7
    } else if text::has_prefix(lower.as_str(), "https://") {
        proof {
            reveal_strlit("https://");
        }
        8
    } else {
        return Err(refuse_origin(origin, "must start with http:// or https://"));
    };
    let rest_text = text::text_between(&chars, start, chars.len());
    let rest = text::chars_of(rest_text.as_str());
    assert(rest@ == lower@.skip(start as int));
    let rest_str = rest_text.as_str();
    if text::has_char(rest_str, '@') {
        return Err(refuse_origin(origin, "userinfo is not allowed"));
    }
    if rest.len() == 0 || text::has_char(rest_str, '/') || text::has_char(rest_str, '?')
        || text::has_char(rest_str, '#') || text::has_char(rest_str, ' ') {
        return Err(refuse_origin(origin, "must be scheme + host[:port] without path"));
    }
    check_authority(origin, &rest)
}

proof fn allowlist_error_is_final(origins: Seq<Seq<char>>, n: int)
    requires
        0 <= n <= origins.len(),
        allowlist(origins.take(n)) is Err,
    ensures
        allowlist(origins) == allowlist(origins.take(n)),
    decreases origins.len() - n,
{
    if n < origins.len() {
        assert(origins.take(n + 1).drop_last() == origins.take(n));
        allowlist_error_is_final(origins, n + 1);
    } else {
        assert(origins.take(n) == origins);
    }
}

fn list_contains(list: &Vec<String>, item: &String) -> (r: bool)
    ensures
        r == list.deep_view().contains(item@),
{
    let mut i: usize = 0;
    while i < list.len()
        invariant
            i <= list@.len(),
            forall|j: int| 0 <= j < i ==> (#[trigger] list@[j])@ != item@,
        decreases list.len() - i,
    {
        if text::same_text(list[i].as_str(), item.as_str()) {
            assert(list.deep_view()[i as int] == item@);
            return true;
        }
        i += 1;
    }
    assert forall|j: int| 0 <= j < list.deep_view().len() implies list.deep_view()[j] != item@ by {
        assert(list.deep_view()[j] == list@[j]@);
    }
    false
}

/// Validates the configured origins. A build without cross-origin support
/// refuses any.
pub fn parse_cors_origins(cors_origins: &Vec<String>, cors_enabled: bool) -> (r: Result<
    Vec<String>,
    String,
>)
    ensures
        !cors_enabled && cors_origins@.len() > 0 ==> (r matches Err(detail) && detail@
            == cors_disabled_detail()),
        cors_enabled || cors_origins@.len() == 0 ==> (match r {
            Ok(list) => allowlist(cors_origins.deep_view()) == Ok::<_, Seq<char>>(
                list.deep_view(),
            ),
            Err(detail) => allowlist(cors_origins.deep_view()) == Err::<Seq<Seq<char>>, _>(detail@),
        }),
{
    if !cors_enabled && cors_origins.len() > 0 {
        return Err(
            "CORS origins are configured, but this build disables the `server-cors` cargo feature".to_owned(),
        );
    }
    let ghost all = cors_origins.deep_view();
    let mut validated: Vec<String> = Vec::new();
    let mut i: usize = 0;
    assert(all.take(0) == Seq::<Seq<char>>::empty());
    assert(validated.deep_view() == Seq::<Seq<char>>::empty());
    while i < cors_origins.len()
        invariant
            i <= cors_origins@.len(),
            cors_enabled || cors_origins@.len() == 0,
            all == cors_origins.deep_view(),
            allowlist(all.take(i as int)) == Ok::<_, Seq<char>>(validated.deep_view()),
        decreases cors_origins.len() - i,
    {
        let origin = &cors_origins[i];
        proof {
            assert(all[i as int] == origin@);
            assert(all.take(i + 1).drop_last() == all.take(i as int));
            assert(all.take(i + 1).last() == origin@);
        }
        let lower = text::to_lower(origin.as_str());
        match check_origin(origin.as_str(), &lower) {
            Ok(()) => {},
            Err(detail) => {
                proof {
                    allowlist_error_is_final(all, i + 1);
                }
                return Err(detail);
            },
        }
        if !list_contains(&validated, &lower) {
            let ghost before = validated.deep_view();
            validated.push(lower);
            assert(validated.deep_view() == before.push(lower@));
        }
        i += 1;
    }
    assert(all.take(all.len() as int) == all);
    Ok(validated)
}

/// The allowlist holds each origin once, only normalised configured origins,
/// and all of them.
pub proof fn allowlist_is_the_set_of_normalised_origins(origins: Seq<Seq<char>>)
    requires
        allowlist(origins) is Ok,
    ensures
        allowlist(origins)->Ok_0.no_duplicates(),
        forall|o: Seq<char>| #[trigger]
            allowlist(origins)->Ok_0.contains(o) <==> exists|i: int|
                0 <= i < origins.len() && text::lower(#[trigger] origins[i]) == o,
        forall|i: int|
            0 <= i < origins.len() ==> origin_refusal(#[trigger] origins[i]) is None,
    decreases origins.len(),
{
    if origins.len() > 0 {
        let front = origins.drop_last();
        allowlist_is_the_set_of_normalised_origins(front);
        let before = allowlist(front)->Ok_0;
        let after = allowlist(origins)->Ok_0;
        let last = text::lower(origins.last());
        let n = origins.len() - 1;
        assert(origins[n] == origins.last());
        assert forall|i: int| 0 <= i < n implies front[i] == origins[i] by {}
        assert forall|o: Seq<char>| #[trigger] after.contains(o) <==> (before.contains(o) || o
            == last) by {
            if before.contains(last) {
            } else {
                assert(after == before.push(last));
                assert(after[before.len() as int] == last);
                if before.contains(o) {
                    let j = choose|j: int| 0 <= j < before.len() && before[j] == o;
                    assert(after[j] == o);
                }
                if after.contains(o) && o != last {
                    let j = choose|j: int| 0 <= j < after.len() && after[j] == o;
                    assert(before[j] == o);
                }
            }
        }
        assert forall|o: Seq<char>| #[trigger] after.contains(o) <==> exists|i: int|
            0 <= i < origins.len() && text::lower(#[trigger] origins[i]) == o by {
            if before.contains(o) {
                let i = choose|i: int| 0 <= i < front.len() && text::lower(#[trigger] front[i]) == o;
                assert(text::lower(origins[i]) == o);
            }
            if o == last {
                assert(text::lower(origins[n]) == o);
            }
            if exists|i: int| 0 <= i < origins.len() && text::lower(#[trigger] origins[i]) == o {
                let i = choose|i: int|
                    0 <= i < origins.len() && text::lower(#[trigger] origins[i]) == o;
                if i < n {
                    assert(text::lower(front[i]) == o);
                }
            }
        }
        assert forall|i: int| 0 <= i < origins.len() implies origin_refusal(
            #[trigger] origins[i],
        ) is None by {
            if i < n {
                assert(origin_refusal(front[i]) is None);
            }
        }
    }
}

/// An origin is written as scheme, host and port, where a port is given.
pub open spec fn is_written_as(
    origin: Seq<char>,
    scheme: Seq<char>,
    host: Seq<char>,
    port: Option<Seq<char>>,
) -> bool {
    &&& scheme == "http://"@ || scheme == "https://"@
    &&& is_host(host)
    &&& match port {
        None => origin == scheme + host,
        Some(port) => port.len() > 0 && text::all_digits(port) && origin == scheme + host + seq![
            ':',
        ] + port,
    }
}

/// Only `http(s)://host[:port]` is accepted: an accepted origin names a host,
/// and nothing but a numeric port follows it.
pub proof fn an_accepted_origin_names_a_host(origin: Seq<char>)
    requires
        origin_refusal(origin) is None,
    ensures
        exists|scheme: Seq<char>, host: Seq<char>, port: Option<Seq<char>>| #[trigger]
            is_written_as(text::lower(origin), scheme, host, port),
{
    let lower = text::lower(origin);
    let rest = after_scheme(lower)->0;
    let scheme = lower.take(lower.len() - rest.len());
    reveal_strlit("http://");
    reveal_strlit("https://");
    assert(scheme == "http://"@ || scheme == "https://"@);
    let (host, tail) = host_and_tail(rest)->0;
    assert(authority_refusal(rest) is None);
    text::first_index_is_a_place(rest, ']');
    text::first_index_is_a_place(rest, ':');
    assert(rest =~= host + tail);
    assert(lower =~= scheme + rest);
    if tail.len() == 0 {
        assert(lower =~= scheme + host);
        assert(is_written_as(lower, scheme, host, None));
    } else {
        assert(lower =~= scheme + host + seq![':'] + tail.skip(1));
        assert(is_written_as(lower, scheme, host, Some(tail.skip(1))));
    }
}

} // verus!
