//! Which endpoint a request is for.
use vstd::prelude::*;

use crate::response;
use crate::response::{empty_response, response_plain, Body, BodyView, Reply, ReplyView};
use crate::text;

verus! {

/// The methods that endpoints tell apart.
#[derive(Clone, Copy, Debug, PartialEq, Eq, Structural)]
pub enum Method {
    Get,
    Post,
    Options,
    Other,
}

/// What a request is for.
#[derive(Clone, Copy, Debug, PartialEq, Eq, Structural)]
pub enum Route {
    /// Events in JSON
    Event,
    /// Raw data
    Raw,
    /// Whether the service is healthy
    Health,
    /// Whether events were delivered
    Ack,
    /// Which methods an endpoint for sending allows
    OptionsPost,
    /// Which methods an endpoint for asking allows
    OptionsGet,
    /// Nothing, though the path is below that of the service
    NotAllowed,
    /// Nothing
    NotFound,
}

/// The segments of a path, without the slash it starts with and one that it may end with.
pub open spec fn segments(path: Seq<char>) -> Seq<Seq<char>> {
    let rest = if path.len() > 0 && path[0] == '/' {
        path.skip(1)
    } else {
        path
    };
    let pieces = text::split_on(rest, '/');
    if pieces.last().len() == 0 {
        pieces.drop_last()
    } else {
        pieces
    }
}

/// Whether the segments are exactly these.
pub open spec fn are(
    segments: Seq<Seq<char>>,
    first: Seq<char>,
    second: Option<Seq<char>>,
) -> bool {
    match second {
        Some(second) => segments == seq![first, second],
        None => segments == seq![first],
    }
}

/// Whether the segments are of an endpoint with that name, with or without a version.
pub open spec fn is_endpoint(segments: Seq<Seq<char>>, name: Seq<char>) -> bool {
    are(segments, name, None) || are(segments, name, Some("1.0"@))
}

/// What a request is for whose path goes on with these segments below that of the service.
pub open spec fn endpoint(method: Method, segments: Seq<Seq<char>>) -> Route {
    match method {
        Method::Post => if segments.len() == 0 || is_endpoint(segments, "event"@) {
            Route::Event
        } else if is_endpoint(segments, "raw"@) {
            Route::Raw
        } else if are(segments, "ack"@, None) {
            Route::Ack
        } else {
            Route::NotAllowed
        },
        Method::Get => if is_endpoint(segments, "health"@) {
            Route::Health
        } else {
            Route::NotAllowed
        },
        Method::Options => if is_endpoint(segments, "event"@) || is_endpoint(segments, "raw"@) {
            Route::OptionsPost
        } else if is_endpoint(segments, "health"@) {
            Route::OptionsGet
        } else {
            Route::NotAllowed
        },
        Method::Other => Route::NotAllowed,
    }
}

/// What a request is for.
pub open spec fn route_of(method: Method, path: Seq<char>) -> Route {
    let all = segments(path);
    if all.len() >= 2 && all[0] == "services"@ && all[1] == "collector"@ {
        endpoint(method, all.skip(2))
    } else {
        Route::NotFound
    }
}

/// The texts of pieces.
pub open spec fn pieces_view(pieces: Seq<Vec<char>>) -> Seq<Seq<char>> {
    pieces.map_values(|piece: Vec<char>| piece@)
}

/// The segments of a path.
fn segments_of(path: &str) -> (found: Vec<Vec<char>>)
    ensures
        pieces_view(found@) == segments(path@),
{
    let chars = text::chars_of(path);
    let start: usize = if chars.len() > 0 && chars[0] == '/' {
        1
    } else {
        0
    };
    let rest = vstd::slice::slice_subrange(chars.as_slice(), start, chars.len());
    proof {
        assert(start == 0 ==> rest@ =~= path@);
        assert(start == 1 ==> rest@ =~= path@.skip(1));
    }
    let mut pieces = text::split(rest, '/');
    proof {
        lemma_split_is_never_empty(rest@);
        assert(pieces_view(pieces@) =~= text::split_on(rest@, '/'));
    }
    let last = pieces.len() - 1;
    let ghost before = pieces@;
    assert(before[last as int]@ == text::split_on(rest@, '/').last());
    if pieces[last].len() == 0 {
        pieces.pop();
        assert(pieces_view(pieces@) =~= pieces_view(before).drop_last());
    }
    pieces
}

proof fn lemma_split_is_never_empty(s: Seq<char>)
    ensures
        text::split_on(s, '/').len() > 0,
    decreases s.len(),
{
    if s.len() > 0 {
        lemma_split_is_never_empty(s.drop_last());
    }
}

/// Whether a piece is this text.
fn piece_is(piece: &Vec<char>, name: &str) -> (b: bool)
    ensures
        b == (piece@ == name@),
{
    text::str_eq(text::string_of(piece.as_slice()).as_str(), name)
}

/// Whether the pieces below the path of the service are of an endpoint with that name, without a
/// version or, where that is allowed, with one.
fn names_endpoint(pieces: &Vec<Vec<char>>, name: &str, versioned: bool) -> (b: bool)
    requires
        pieces.len() >= 2,
    ensures
        b == (are(pieces_view(pieces@).skip(2), name@, None) || (versioned && are(
            pieces_view(pieces@).skip(2),
            name@,
            Some("1.0"@),
        ))),
{
    let ghost tail = pieces_view(pieces@).skip(2);
    assert(seq![name@].len() == 1 && seq![name@][0] == name@);
    assert(seq![name@, "1.0"@].len() == 2);
    assert(seq![name@, "1.0"@][0] == name@ && seq![name@, "1.0"@][1] == "1.0"@);
    if pieces.len() == 3 {
        proof {
            assert(tail[0] == pieces@[2]@);
            if tail[0] == name@ {
                assert(tail =~= seq![name@]);
            }
        }
        piece_is(&pieces[2], name)
    } else if pieces.len() == 4 && versioned {
        proof {
            assert(tail[0] == pieces@[2]@ && tail[1] == pieces@[3]@);
            if tail[0] == name@ && tail[1] == "1.0"@ {
                assert(tail =~= seq![name@, "1.0"@]);
            }
        }
        piece_is(&pieces[2], name) && piece_is(&pieces[3], "1.0")
    } else {
        false
    }
}

/// What a request is for.
pub fn route(method: Method, path: &str) -> (r: Route)
    ensures
        r == route_of(method, path@),
{
    let pieces = segments_of(path);
    if pieces.len() < 2 || !piece_is(&pieces[0], "services") || !piece_is(
        &pieces[1],
        "collector",
    ) {
        return Route::NotFound;
    }
    match method {
        Method::Post => if pieces.len() == 2 || names_endpoint(&pieces, "event", true) {
            Route::Event
        } else if names_endpoint(&pieces, "raw", true) {
            Route::Raw
        } else if names_endpoint(&pieces, "ack", false) {
            Route::Ack
        } else {
            Route::NotAllowed
        },
        Method::Get => if names_endpoint(&pieces, "health", true) {
            Route::Health
        } else {
            Route::NotAllowed
        },
        Method::Options => if names_endpoint(&pieces, "event", true) || names_endpoint(
            &pieces,
            "raw",
            true,
        ) {
            Route::OptionsPost
        } else if names_endpoint(&pieces, "health", true) {
            Route::OptionsGet
        } else {
            Route::NotAllowed
        },
        Method::Other => Route::NotAllowed,
    }
}

/// The answer to a request that no endpoint need be asked about.
pub open spec fn direct_reply(route: Route) -> Option<ReplyView> {
    match route {
        Route::OptionsPost => Some(
            ReplyView { status: 200, allow: Some("POST"@), body: BodyView::Empty },
        ),
        Route::OptionsGet => Some(
            ReplyView { status: 200, allow: Some("GET"@), body: BodyView::Empty },
        ),
        Route::NotAllowed => Some(
            response::reply(405, BodyView::Plain("HTTP method not allowed"@)),
        ),
        Route::NotFound => Some(response::reply(404, BodyView::Empty)),
        _ => None,
    }
}

/// Answers a request that no endpoint need be asked about.
pub fn answer_directly(route: Route) -> (r: Option<Reply>)
    ensures
        match r {
            Some(r) => direct_reply(route) == Some(r@),
            None => direct_reply(route) is None,
        },
{
    match route {
        Route::OptionsPost => Some(Reply { status: 200, allow: Some("POST"), body: Body::Empty }),
        Route::OptionsGet => Some(Reply { status: 200, allow: Some("GET"), body: Body::Empty }),
        Route::NotAllowed => Some(response_plain(405, "HTTP method not allowed")),
        Route::NotFound => Some(empty_response(404)),
        _ => None,
    }
}

/// One slash at the end of a path makes no difference.
pub proof fn law_one_trailing_slash_is_ignored(method: Method, path: Seq<char>)
    requires
        path.len() > 0,
        path.last() != '/',
    ensures
        route_of(method, path.push('/')) == route_of(method, path),
{
    let longer = path.push('/');
    let start: int = if path[0] == '/' {
        1
    } else {
        0
    };
    let rest = path.skip(start);
    assert(longer[0] == path[0]);
    assert(longer.skip(start) =~= rest.push('/'));
    assert(start == 0 ==> path.skip(0) =~= path && longer.skip(0) =~= longer);
    assert(rest.push('/').drop_last() =~= rest);
    let pieces = text::split_on(rest, '/');
    assert(text::split_on(rest.push('/'), '/') == pieces.push(Seq::empty()));
    assert(pieces.push(Seq::empty()).drop_last() =~= pieces);
    assert(rest.last() == path.last());
    assert(pieces.last().len() > 0);
}

/// An endpoint whose `OPTIONS` name a method is there for that method.
pub proof fn law_options_name_methods_that_work(path: Seq<char>)
    ensures
        route_of(Method::Options, path) is OptionsPost ==> route_of(Method::Post, path) is Event
            || route_of(Method::Post, path) is Raw,
        route_of(Method::Options, path) is OptionsGet ==> route_of(Method::Get, path) is Health,
{
}

} // verus!
