//! Redirects: which responses are followed, and with which request.

use vstd::prelude::*;

use crate::network::service::Request;
use crate::text;

verus! {

/// The URL that `reference` stands for, seen from `base`. See [`join`].
pub uninterp spec fn url_joined(base: Seq<char>, reference: Seq<char>) -> Option<Seq<char>>;

/// Whether the URL that `reference` stands for has the origin of `base`. See
/// [`stays_in_origin`].
pub uninterp spec fn url_keeps_origin(base: Seq<char>, reference: Seq<char>) -> bool;

/// Resolves `reference` against `base`: `url::Url::join`, with `base` read by
/// `Url::parse` and the result written by `Display`. `None` where one of them
/// cannot be read. The result is a function of the two texts, which
/// `url_joined` names.
#[verifier::external_body]
fn join(base: &str, reference: &str) -> (r: Option<String>)
    ensures
        text::opt_view(r) == url_joined(base@, reference@),
{
    let joined = url::Url::parse(base).ok()?.join(reference).ok()?;
    Some(joined.to_string())
}

/// Whether `reference`, resolved against `base`, has the scheme, host and port
/// of `base`: `url::Url::origin` of both, compared. `false` where one of them
/// cannot be read. A URL of a scheme without hosts has an origin that equals no
/// other. The result is a function of the two texts, which `url_keeps_origin`
/// names.
#[verifier::external_body]
fn stays_in_origin(base: &str, reference: &str) -> (r: bool)
    ensures
        r == url_keeps_origin(base@, reference@),
{
    match url::Url::parse(base) {
        Ok(from) => match from.join(reference) {
            Ok(to) => to.origin() == from.origin(),
            Err(_) => false,
        },
        Err(_) => false,
    }
}

/// A name, in any case.
pub open spec fn is_name(given: Seq<char>, name: Seq<char>) -> bool {
    text::lower(given) == text::lower(name)
}

/// A header that describes the body of a request.
pub open spec fn is_body_header(name: Seq<char>) -> bool {
    is_name(name, "content-type"@) || is_name(name, "content-length"@) || is_name(
        name,
        "content-encoding"@,
    ) || is_name(name, "transfer-encoding"@)
}

/// A header that is meant for one server and no other.
pub open spec fn is_credential(name: Seq<char>) -> bool {
    is_name(name, "authorization"@) || is_name(name, "proxy-authorization"@) || is_name(
        name,
        "cookie"@,
    ) || is_name(name, "cookie2"@) || is_name(name, "www-authenticate"@)
}

/// A redirect of this status may be followed.
pub open spec fn is_redirect(status: u16) -> bool {
    status == 301 || status == 302 || status == 303 || status == 307 || status == 308
}

/// A redirect of this status turns a request into one for the resource itself.
pub open spec fn becomes_get(status: u16) -> bool {
    status == 301 || status == 302 || status == 303
}

/// The values of the `Location` headers, over all of them, in order.
pub open spec fn locations(headers: Seq<(String, Vec<String>)>) -> Seq<Seq<char>>
    decreases headers.len(),
{
    if headers.len() == 0 {
        Seq::empty()
    } else {
        let before = locations(headers.drop_last());
        if is_name(headers.last().0@, "location"@) {
            before + text::views(headers.last().1@)
        } else {
            before
        }
    }
}

/// Headers as texts.
pub open spec fn header_views(headers: Seq<(String, String)>) -> Seq<(Seq<char>, Seq<char>)> {
    headers.map_values(|h: (String, String)| (h.0@, h.1@))
}

/// The header goes along with the next request.
pub open spec fn goes_along(name: Seq<char>, get: bool, same_origin: bool) -> bool {
    !(get && is_body_header(name)) && !(!same_origin && is_credential(name))
}

/// The headers that go along with the next request, in order.
pub open spec fn next_headers(
    headers: Seq<(Seq<char>, Seq<char>)>,
    get: bool,
    same_origin: bool,
) -> Seq<(Seq<char>, Seq<char>)>
    decreases headers.len(),
{
    if headers.len() == 0 {
        Seq::empty()
    } else {
        let before = next_headers(headers.drop_last(), get, same_origin);
        if goes_along(headers.last().0, get, same_origin) {
            before.push(headers.last())
        } else {
            before
        }
    }
}

/// The URL to which a response redirects, where it does: it has the status, and
/// exactly one location, which can be resolved.
pub open spec fn redirects_to(
    url: Seq<char>,
    status: u16,
    headers: Seq<(String, Vec<String>)>,
) -> Option<Seq<char>> {
    if is_redirect(status) && locations(headers).len() == 1 {
        url_joined(url, locations(headers)[0])
    } else {
        None
    }
}

/// `next` follows `prev` to `url`.
pub open spec fn follows(
    prev: Request,
    status: u16,
    location: Seq<char>,
    url: Seq<char>,
    next: Request,
) -> bool {
    let get = becomes_get(status);
    let same_origin = url_keeps_origin(prev.url@, location);
    &&& next.url@ == url
    &&& next.method@ == if get && !is_name(prev.method@, "GET"@) && !is_name(
        prev.method@,
        "HEAD"@,
    ) {
        "GET"@
    } else {
        prev.method@
    }
    &&& header_views(next.headers@) == next_headers(header_views(prev.headers@), get, same_origin)
    &&& if get {
        next.body is None
    } else {
        match prev.body {
            None => next.body is None,
            Some(b) => next.body is Some && next.body->0@ == b@,
        }
    }
}

fn name_is(given: &str, name: &str) -> (r: bool)
    ensures
        r == is_name(given@, name@),
{
    text::eq_ignore_ascii_case(given, name)
}

fn stays(name: &str, get: bool, same_origin: bool) -> (r: bool)
    ensures
        r == goes_along(name@, get, same_origin),
{
    if get && (name_is(name, "content-type") || name_is(name, "content-length") || name_is(
        name,
        "content-encoding",
    ) || name_is(name, "transfer-encoding")) {
        return false;
    }
    if !same_origin && (name_is(name, "authorization") || name_is(name, "proxy-authorization")
        || name_is(name, "cookie") || name_is(name, "cookie2") || name_is(
        name,
        "www-authenticate",
    )) {
        return false;
    }
    true
}

fn keep_headers(headers: &Vec<(String, String)>, get: bool, same_origin: bool) -> (r: Vec<
    (String, String),
>)
    ensures
        header_views(r@) == next_headers(header_views(headers@), get, same_origin),
{
    let ghost all = header_views(headers@);
    let mut out: Vec<(String, String)> = Vec::new();
    proof {
        assert(all.take(0) =~= Seq::empty());
        assert(header_views(out@) =~= Seq::empty());
    }
    for i in 0..headers.len()
        invariant
            all == header_views(headers@),
            header_views(out@) == next_headers(all.take(i as int), get, same_origin),
    {
        proof {
            assert(all.take(i + 1).drop_last() =~= all.take(i as int));
            assert(all.take(i + 1).last() == all[i as int]);
        }
        if stays(headers[i].0.as_str(), get, same_origin) {
            let ghost before = header_views(out@);
            out.push((headers[i].0.clone(), headers[i].1.clone()));
            proof {
                assert(header_views(out@) =~= before.push(all[i as int]));
            }
        }
    }
    proof {
        assert(all.take(all.len() as int) =~= all);
    }
    out
}

fn clone_bytes(bytes: &Vec<u8>) -> (r: Vec<u8>)
    ensures
        r@ == bytes@,
{
    let mut out: Vec<u8> = Vec::new();
    for i in 0..bytes.len()
        invariant
            out@ == bytes@.take(i as int),
    {
        out.push(bytes[i]);
        proof {
            assert(bytes@.take(i + 1) =~= bytes@.take(i as int).push(bytes@[i as int]));
        }
    }
    proof {
        assert(bytes@.take(bytes@.len() as int) =~= bytes@);
    }
    out
}

fn list_locations(headers: &Vec<(String, Vec<String>)>) -> (r: Vec<String>)
    ensures
        text::views(r@) == locations(headers@),
{
    let mut out: Vec<String> = Vec::new();
    proof {
        assert(headers@.take(0) =~= Seq::empty());
        assert(text::views(out@) =~= Seq::empty());
    }
    for i in 0..headers.len()
        invariant
            text::views(out@) == locations(headers@.take(i as int)),
    {
        proof {
            assert(headers@.take(i + 1).drop_last() =~= headers@.take(i as int));
            assert(headers@.take(i + 1).last() == headers@[i as int]);
        }
        if name_is(headers[i].0.as_str(), "location") {
            let ghost before = text::views(out@);
            let mut values = text::clone_strings(&headers[i].1);
            let ghost added = text::views(values@);
            out.append(&mut values);
            proof {
                assert(text::views(out@) =~= before + added);
            }
        }
    }
    proof {
        assert(headers@.take(headers@.len() as int) =~= headers@);
    }
    out
}

/// The request to make next where `status` and `headers` answer `prev` with a
/// redirect that is followed: 301, 302, 303, 307 and 308 with exactly one
/// location that can be resolved. Anything else is final.
///
/// As clients do it, 301, 302 and 303 turn any method but `GET` and `HEAD` into
/// `GET`, without a body; 307 and 308 repeat the method and the body. Leaving
/// the origin leaves the credentials behind.
///
/// Whether the caller may go there is not decided here.
pub fn redirect_request(prev: &Request, status: u16, headers: &Vec<(String, Vec<String>)>) -> (r:
    Option<Request>)
    ensures
        match redirects_to(prev.url@, status, headers@) {
            Some(url) => r is Some && follows(
                *prev,
                status,
                locations(headers@)[0],
                url,
                r->0,
            ),
            None => r is None,
        },
{
    let get = status == 301 || status == 302 || status == 303;
    if !get && status != 307 && status != 308 {
        return None;
    }
    let found = list_locations(headers);
    proof {
        assert(found@.len() == locations(headers@).len());
    }
    if found.len() != 1 {
        return None;
    }
    let location = found[0].as_str();
    proof {
        assert(text::views(found@)[0] == location@);
    }
    let url = match join(prev.url.as_str(), location) {
        Some(url) => url,
        None => {
            return None;
        },
    };
    let same_origin = stays_in_origin(prev.url.as_str(), location);
    let method: String = if get && !name_is(prev.method.as_str(), "GET") && !name_is(
        prev.method.as_str(),
        "HEAD",
    ) {
        "GET".to_owned()
    } else {
        prev.method.clone()
    };
    let body: Option<Vec<u8>> = if get {
        None
    } else {
        match &prev.body {
            None => None,
            Some(b) => Some(clone_bytes(b)),
        }
    };
    Some(Request { method, url, headers: keep_headers(&prev.headers, get, same_origin), body })
}

proof fn lemma_kept(
    headers: Seq<(Seq<char>, Seq<char>)>,
    get: bool,
    same_origin: bool,
    h: (Seq<char>, Seq<char>),
)
    ensures
        next_headers(headers, get, same_origin).contains(h) <==> headers.contains(h) && goes_along(
            h.0,
            get,
            same_origin,
        ),
    decreases headers.len(),
{
    if headers.len() > 0 {
        let init = headers.drop_last();
        let before = next_headers(init, get, same_origin);
        lemma_kept(init, get, same_origin, h);
        assert(headers =~= init.push(headers.last()));
        if headers.contains(h) {
            let i = choose|i: int| 0 <= i < headers.len() && headers[i] == h;
            if i < init.len() {
                assert(init[i] == h);
            }
        }
        if init.contains(h) {
            let i = choose|i: int| 0 <= i < init.len() && init[i] == h;
            assert(headers[i] == h);
        }
        if goes_along(headers.last().0, get, same_origin) {
            let after = before.push(headers.last());
            if before.contains(h) {
                let i = choose|i: int| 0 <= i < before.len() && before[i] == h;
                assert(after[i] == h);
            }
            assert(after[before.len() as int] == headers.last());
            if after.contains(h) {
                let i = choose|i: int| 0 <= i < after.len() && after[i] == h;
                if i < before.len() {
                    assert(before[i] == h);
                } else {
                    assert(headers[headers.len() - 1] == h);
                }
            }
        }
        assert(headers[headers.len() - 1] == headers.last());
    }
}

/// Credentials never leave the origin they were sent to: a redirect that does
/// carries none of them, and every other header that does not describe a body
/// goes along.
pub proof fn credentials_stay_in_their_origin(
    prev: Request,
    status: u16,
    location: Seq<char>,
    url: Seq<char>,
    next: Request,
    header: (Seq<char>, Seq<char>),
)
    requires
        follows(prev, status, location, url, next),
        !url_keeps_origin(prev.url@, location),
    ensures
        header_views(next.headers@).contains(header) ==> !is_credential(header.0),
        header_views(prev.headers@).contains(header) && !is_credential(header.0)
            && !is_body_header(header.0) ==> header_views(next.headers@).contains(header),
{
    lemma_kept(header_views(prev.headers@), becomes_get(status), false, header);
}

/// A redirect adds no header.
pub proof fn redirects_add_no_header(
    prev: Request,
    status: u16,
    location: Seq<char>,
    url: Seq<char>,
    next: Request,
    header: (Seq<char>, Seq<char>),
)
    requires
        follows(prev, status, location, url, next),
        header_views(next.headers@).contains(header),
    ensures
        header_views(prev.headers@).contains(header),
{
    lemma_kept(
        header_views(prev.headers@),
        becomes_get(status),
        url_keeps_origin(prev.url@, location),
        header,
    );
}

/// A redirect that repeats the request repeats all of it, within the origin.
pub proof fn repeats_are_whole(
    prev: Request,
    status: u16,
    location: Seq<char>,
    url: Seq<char>,
    next: Request,
)
    requires
        follows(prev, status, location, url, next),
        !becomes_get(status),
        url_keeps_origin(prev.url@, location),
    ensures
        next.method@ == prev.method@,
        header_views(next.headers@) == header_views(prev.headers@),
        prev.body is Some ==> next.body is Some && next.body->0@ == prev.body->0@,
        prev.body is None ==> next.body is None,
{
    lemma_all_kept(header_views(prev.headers@));
}

proof fn lemma_all_kept(headers: Seq<(Seq<char>, Seq<char>)>)
    ensures
        next_headers(headers, false, true) == headers,
    decreases headers.len(),
{
    if headers.len() > 0 {
        lemma_all_kept(headers.drop_last());
        assert(headers =~= headers.drop_last().push(headers.last()));
    } else {
        assert(headers =~= Seq::empty());
    }
}

/// Which responses are followed, and how. Only the five statuses are, and only
/// with one location; the request then goes to the URL that the location stands
/// for. After 301, 302 and 303 it asks for the resource without a body, with
/// `HEAD` where that was asked before; after 307 and 308 it is repeated with its
/// method and body, wherever it goes.
pub proof fn redirects_go_where_the_response_says(
    prev: Request,
    status: u16,
    headers: Vec<(String, Vec<String>)>,
    r: Option<Request>,
)
    requires
        call_ensures(redirect_request, (&prev, status, &headers), r),
    ensures
        !(status == 301 || status == 302 || status == 303 || status == 307 || status == 308)
            ==> r is None,
        locations(headers@).len() != 1 ==> r is None,
        r is Some ==> url_joined(prev.url@, locations(headers@)[0]) == Some(r->0.url@),
        r is Some && (status == 301 || status == 302 || status == 303) ==> r->0.body is None && (
        r->0.method@ == "GET"@ || (r->0.method@ == prev.method@ && text::lower(prev.method@)
            == text::lower("HEAD"@)) || (r->0.method@ == prev.method@ && text::lower(prev.method@)
            == text::lower("GET"@))),
        r is Some && (status == 307 || status == 308) ==> r->0.method@ == prev.method@ && (
        r->0.body is Some <==> prev.body is Some) && (prev.body is Some ==> r->0.body->0@
            == prev.body->0@),
        (status == 301 || status == 302 || status == 303 || status == 307 || status == 308)
            && locations(headers@).len() == 1 && url_joined(
            prev.url@,
            locations(headers@)[0],
        ) is Some ==> r is Some,
{
}

/// A location is read from every header of that name, in any case, and from no
/// other.
pub proof fn locations_are_read_from_their_headers(
    headers: Seq<(String, Vec<String>)>,
    value: Seq<char>,
)
    ensures
        locations(headers).contains(value) <==> exists|i: int|
            0 <= i < headers.len() && text::lower((#[trigger] headers[i]).0@) == text::lower(
                "location"@,
            ) && text::views(headers[i].1@).contains(value),
    decreases headers.len(),
{
    if headers.len() > 0 {
        let init = headers.drop_last();
        let n = headers.len() - 1;
        locations_are_read_from_their_headers(init, value);
        let before = locations(init);
        let own = text::views(headers.last().1@);
        let all = locations(headers);
        assert forall|i: int| 0 <= i < init.len() implies #[trigger] init[i] == headers[i] by {}
        assert(headers[n] == headers.last());
        if all.contains(value) {
            let k = all.index_of(value);
            if k < before.len() {
                assert(before[k] == value);
                assert(before.contains(value));
                let i = choose|i: int|
                    0 <= i < init.len() && text::lower((#[trigger] init[i]).0@) == text::lower(
                        "location"@,
                    ) && text::views(init[i].1@).contains(value);
                assert(headers[i] == init[i]);
            } else {
                assert(own[k - before.len()] == value);
                assert(own.contains(value));
            }
        }
        if exists|i: int|
            0 <= i < headers.len() && text::lower((#[trigger] headers[i]).0@) == text::lower(
                "location"@,
            ) && text::views(headers[i].1@).contains(value) {
            let i = choose|i: int|
                0 <= i < headers.len() && text::lower((#[trigger] headers[i]).0@) == text::lower(
                    "location"@,
                ) && text::views(headers[i].1@).contains(value);
            if i < n {
                assert(init[i] == headers[i]);
                assert(before.contains(value));
                let k = before.index_of(value);
                assert(all[k] == value);
            } else {
                let k = own.index_of(value);
                assert(all[before.len() + k] == value);
            }
        }
    }
}

/// Within the origin every header goes along that does not describe a body
/// which is left behind.
pub proof fn other_headers_go_along(
    prev: Request,
    status: u16,
    location: Seq<char>,
    url: Seq<char>,
    next: Request,
    header: (Seq<char>, Seq<char>),
)
    requires
        follows(prev, status, location, url, next),
        url_keeps_origin(prev.url@, location),
        header_views(prev.headers@).contains(header),
    ensures
        status == 307 || status == 308 ==> header_views(next.headers@).contains(header),
        header_views(next.headers@).contains(header) || is_name(header.0, "content-type"@)
            || is_name(header.0, "content-length"@) || is_name(header.0, "content-encoding"@)
            || is_name(header.0, "transfer-encoding"@),
{
    lemma_kept(header_views(prev.headers@), becomes_get(status), true, header);
}

} // verus!
