//! Matching an incoming request against the declared routes: paths are
//! compared segment by segment, `:name` segments capture the request's text,
//! and a `*` segment matches one segment — or, at the end of a pattern, the
//! whole rest of the path. The first matching route decides the response.
use vstd::prelude::*;
use vstd::string::StrSliceExecFns;
use vstd::string::StringExecFns;
use vstd::utf8::encode_utf8;
use crate::string_map::StringMap;
use crate::string_map::spec_str_insert;
use crate::text_parse::spec_split;
use crate::text_parse::spec_trim_leading;
use crate::text_parse::split_char;
use crate::text_parse::str_eq;
use crate::text_parse::strings_view;
use crate::text_parse::trim_leading;

verus! {

broadcast use vstd::std_specs::vec::group_vec_axioms;

/// The request method of a route.
#[derive(Clone, Copy, PartialEq, Eq, Structural, Debug)]
pub enum HTTPVerb {
    GET,
    POST,
    UPDATE,
    DELETE,
    HEAD,
}

/// The wire text of a verb.
pub open spec fn spec_verb_text(v: HTTPVerb) -> Seq<char> {
    match v {
        HTTPVerb::GET => "GET"@,
        HTTPVerb::POST => "POST"@,
        HTTPVerb::UPDATE => "UPDATE"@,
        HTTPVerb::DELETE => "DELETE"@,
        HTTPVerb::HEAD => "HEAD"@,
    }
}

impl HTTPVerb {
    /// The wire text of this verb.
    pub fn verb_text(&self) -> (r: &'static str)
        ensures
            r@ == spec_verb_text(*self),
    {
        match self {
            HTTPVerb::GET => "GET",
            HTTPVerb::POST => "POST",
            HTTPVerb::UPDATE => "UPDATE",
            HTTPVerb::DELETE => "DELETE",
            HTTPVerb::HEAD => "HEAD",
        }
    }
}

/// One parsed request: the verb and path as transmitted, the path
/// parameters captured by the matched route (empty until matched), the
/// body, and the headers.
pub struct Request {
    pub verb: String,
    pub path: String,
    pub path_params: StringMap,
    pub body: Option<String>,
    pub headers: StringMap,
}

/// The mathematical value of a [`Request`].
pub struct RequestModel {
    pub verb: Seq<char>,
    pub path: Seq<char>,
    pub path_params: Seq<(Seq<char>, Seq<char>)>,
    pub body: Option<Seq<char>>,
    pub headers: Seq<(Seq<char>, Seq<char>)>,
}

impl View for Request {
    type V = RequestModel;

    open spec fn view(&self) -> RequestModel {
        RequestModel {
            verb: self.verb@,
            path: self.path@,
            path_params: self.path_params@,
            body: match self.body {
                Some(b) => Some(b@),
                None => None,
            },
            headers: self.headers@,
        }
    }
}

impl Request {
    /// Replaces the captured path parameters.
    pub fn set_path_params(&mut self, params: StringMap)
        ensures
            final(self)@ == (RequestModel { path_params: params@, ..old(self)@ }),
    {
        self.path_params = params;
    }
}

impl Clone for Request {
    fn clone(&self) -> (r: Self)
        ensures
            r@ == self@,
    {
        Request {
            verb: self.verb.clone(),
            path: self.path.clone(),
            path_params: self.path_params.clone(),
            body: match &self.body {
                Some(b) => Some(b.clone()),
                None => None,
            },
            headers: self.headers.clone(),
        }
    }
}

/// One response: the payload, the status code, and the headers.
pub struct Response {
    pub bytes: Option<Vec<u8>>,
    pub status_code: u32,
    pub headers: StringMap,
}

/// The mathematical value of a [`Response`].
pub struct ResponseModel {
    pub bytes: Option<Seq<u8>>,
    pub status_code: u32,
    pub headers: Seq<(Seq<char>, Seq<char>)>,
}

impl View for Response {
    type V = ResponseModel;

    open spec fn view(&self) -> ResponseModel {
        ResponseModel {
            bytes: match self.bytes {
                Some(b) => Some(b@),
                None => None,
            },
            status_code: self.status_code,
            headers: self.headers@,
        }
    }
}

/// The UTF-8 bytes of a text.
fn string_to_bytes(s: &str) -> (r: Vec<u8>)
    ensures
        r@ == encode_utf8(s@),
{
    vstd::slice::slice_to_vec(s.as_bytes())
}

impl Response {
    /// A response with the given text payload and status code, and no
    /// headers.
    pub fn new(content: Option<String>, status_code: u32) -> (r: Response)
        ensures
            r@.status_code == status_code,
            r@.headers == Seq::<(Seq<char>, Seq<char>)>::empty(),
            match content {
                Some(s) => r@.bytes == Some(encode_utf8(s@)),
                None => r@.bytes is None,
            },
    {
        let bytes = match content {
            Some(s) => Some(string_to_bytes(s.as_str())),
            None => None,
        };
        let r = Response { bytes, status_code, headers: StringMap::new() };
        proof {
            assert(r@.headers =~= Seq::<(Seq<char>, Seq<char>)>::empty());
        }
        r
    }

    /// A success response with the given text payload and no headers.
    pub fn new_200(content: String) -> (r: Response)
        ensures
            r@.status_code == 200,
            r@.bytes == Some(encode_utf8(content@)),
            r@.headers == Seq::<(Seq<char>, Seq<char>)>::empty(),
    {
        Response::new(Some(content), 200)
    }

    /// Adds one response header.
    pub fn add_header(&mut self, key: &str, value: &str)
        ensures
            final(self)@ == (ResponseModel {
                headers: spec_str_insert(old(self)@.headers, key@, value@),
                ..old(self)@
            }),
    {
        self.headers.insert(key.to_owned(), value.to_owned());
    }
}

/// What a route answers with: a fixed text, fixed bytes, a request handler
/// that the embedding process runs, or a file read from disk by the
/// embedding process.
pub enum ResponseContent {
    Str(String),
    Bytes(Vec<u8>),
    FromRequest,
    FolderAccess,
}

/// The mathematical value of a [`ResponseContent`].
pub enum ContentModel {
    Str(Seq<char>),
    Bytes(Seq<u8>),
    FromRequest,
    FolderAccess,
}

impl View for ResponseContent {
    type V = ContentModel;

    open spec fn view(&self) -> ContentModel {
        match self {
            ResponseContent::Str(s) => ContentModel::Str(s@),
            ResponseContent::Bytes(b) => ContentModel::Bytes(b@),
            ResponseContent::FromRequest => ContentModel::FromRequest,
            ResponseContent::FolderAccess => ContentModel::FolderAccess,
        }
    }
}

/// One declared route: a verb, a path pattern (which may hold `:name`
/// captures and `*` wildcards), what to answer, and extra response headers.
pub struct Route {
    pub verb: HTTPVerb,
    pub path: String,
    pub response: ResponseContent,
    pub returned_headers: StringMap,
}

/// The mathematical value of a [`Route`].
pub struct RouteModel {
    pub verb: HTTPVerb,
    pub path: Seq<char>,
    pub response: ContentModel,
    pub returned_headers: Seq<(Seq<char>, Seq<char>)>,
}

impl View for Route {
    type V = RouteModel;

    open spec fn view(&self) -> RouteModel {
        RouteModel {
            verb: self.verb,
            path: self.path@,
            response: self.response@,
            returned_headers: self.returned_headers@,
        }
    }
}

impl Route {
    /// A route without extra response headers.
    pub fn new(verb: HTTPVerb, path: &str, response: ResponseContent) -> (r: Route)
        ensures
            r@.verb == verb,
            r@.path == path@,
            r@.response == response@,
            r@.returned_headers == Seq::<(Seq<char>, Seq<char>)>::empty(),
    {
        let r = Route { verb, path: path.to_owned(), response, returned_headers: StringMap::new() };
        proof {
            assert(r@.returned_headers =~= Seq::<(Seq<char>, Seq<char>)>::empty());
        }
        r
    }

    /// A route with extra response headers.
    pub fn new_with_headers(
        verb: HTTPVerb,
        path: &str,
        response: ResponseContent,
        headers: StringMap,
    ) -> (r: Route)
        ensures
            r@.verb == verb,
            r@.path == path@,
            r@.response == response@,
            r@.returned_headers == headers@,
    {
        Route { verb, path: path.to_owned(), response, returned_headers: headers }
    }
}

/// The pieces of `s` between occurrences of the separator, with empty pieces
/// dropped.
pub open spec fn spec_nonempty(pieces: Seq<Seq<char>>) -> Seq<Seq<char>>
    decreases pieces.len(),
{
    if pieces.len() == 0 {
        Seq::empty()
    } else if pieces[0].len() == 0 {
        spec_nonempty(pieces.drop_first())
    } else {
        seq![pieces[0]] + spec_nonempty(pieces.drop_first())
    }
}

/// The segments of a path: split on `/`, empty segments (from leading,
/// trailing, or doubled slashes) dropped.
pub open spec fn spec_segments(path: Seq<char>) -> Seq<Seq<char>> {
    spec_nonempty(spec_split(path, '/'))
}

/// Splits a path into its non-empty segments.
#[verifier::loop_isolation(false)]
fn path_segments(path: &str) -> (r: Vec<String>)
    ensures
        strings_view(r@) == spec_segments(path@),
{
    let pieces = split_char(path, '/');
    let ghost pv = strings_view(pieces@);
    let mut out: Vec<String> = Vec::new();
    proof {
        assert(pv.subrange(0, pv.len() as int) =~= pv);
        assert(strings_view(out@) + spec_nonempty(pv) =~= spec_nonempty(pv));
    }
    let mut i: usize = 0;
    while i < pieces.len()
        invariant
            0 <= i <= pieces@.len(),
            pv.len() == pieces@.len(),
            spec_nonempty(pv) == strings_view(out@) + spec_nonempty(
                pv.subrange(i as int, pv.len() as int),
            ),
        decreases pieces@.len() - i,
    {
        proof {
            let rest = pv.subrange(i as int, pv.len() as int);
            assert(rest[0] == pv[i as int]);
            assert(rest.drop_first() =~= pv.subrange(i + 1, pv.len() as int));
        }
        if !pieces[i].as_str().is_empty() {
            let ghost before = out@;
            out.push(pieces[i].clone());
            proof {
                assert(strings_view(out@) =~= strings_view(before) + seq![pv[i as int]]);
                assert((strings_view(before) + seq![pv[i as int]]) + spec_nonempty(
                    pv.subrange(i + 1, pv.len() as int),
                ) =~= strings_view(before) + (seq![pv[i as int]] + spec_nonempty(
                    pv.subrange(i + 1, pv.len() as int),
                )));
            }
        }
        i = i + 1;
    }
    proof {
        assert(pv.subrange(i as int, pv.len() as int).len() == 0);
        assert(strings_view(out@) + Seq::<Seq<char>>::empty() =~= strings_view(out@));
    }
    out
}

/// Whether the remaining pattern segments match the remaining request
/// segments, and the parameters captured along the way. Equal segments
/// match; a `:name` segment matches anything and captures it; a `*` segment
/// matches any one segment; a pattern that runs out of segments fails unless
/// its next segment is exactly `*`; a request that runs out of segments
/// fails unless the raw pattern ends in `*`.
pub open spec fn spec_compare(
    route_segs: Seq<Seq<char>>,
    req_segs: Seq<Seq<char>>,
    last_is_star: bool,
    acc: Seq<(Seq<char>, Seq<char>)>,
) -> (bool, Seq<(Seq<char>, Seq<char>)>)
    decreases route_segs.len() + req_segs.len(),
{
    if route_segs.len() == 0 && req_segs.len() == 0 {
        (true, acc)
    } else if route_segs.len() == 0 {
        (last_is_star, acc)
    } else if req_segs.len() == 0 {
        (route_segs[0] == seq!['*'], acc)
    } else {
        let rp = route_segs[0];
        let qp = req_segs[0];
        if rp.len() > 0 && rp[0] == ':' {
            spec_compare(
                route_segs.drop_first(),
                req_segs.drop_first(),
                last_is_star,
                spec_str_insert(acc, rp.drop_first(), qp),
            )
        } else if rp != qp {
            if rp == seq!['*'] {
                spec_compare(route_segs.drop_first(), req_segs.drop_first(), last_is_star, acc)
            } else {
                (false, acc)
            }
        } else {
            spec_compare(route_segs.drop_first(), req_segs.drop_first(), last_is_star, acc)
        }
    }
}

/// Whether a route pattern matches a request path, and the captured path
/// parameters.
pub open spec fn spec_route_match(route: Seq<char>, req_path: Seq<char>) -> (
    bool,
    Seq<(Seq<char>, Seq<char>)>,
) {
    spec_compare(
        spec_segments(route),
        spec_segments(req_path),
        route.len() > 0 && route.last() == '*',
        Seq::empty(),
    )
}

/// Checks whether the route pattern matches the request path, capturing the
/// path parameters named by `:name` segments along the way.
#[verifier::loop_isolation(false)]
pub fn compare_route_w_path_and_get_path_params(route: &str, req_path: &str) -> (r: (
    bool,
    StringMap,
))
    ensures
        r.0 == spec_route_match(route@, req_path@).0,
        r.1@ == spec_route_match(route@, req_path@).1,
{
    let route_parts = path_segments(route);
    let req_parts = path_segments(req_path);
    let ghost rsegs = spec_segments(route@);
    let ghost qsegs = spec_segments(req_path@);
    let rlen = route.unicode_len();
    let last_is_star = rlen > 0 && route.get_char(rlen - 1) == '*';
    proof {
        reveal_strlit("*");
        assert("*"@ =~= seq!['*']);
        assert(last_is_star == (route@.len() > 0 && route@.last() == '*'));
        assert(rsegs.subrange(0, rsegs.len() as int) =~= rsegs);
        assert(qsegs.subrange(0, qsegs.len() as int) =~= qsegs);
    }
    let ghost target = spec_compare(rsegs, qsegs, last_is_star, Seq::empty());
    let mut params = StringMap::new();
    let mut i: usize = 0;
    loop
        invariant
            0 <= i <= route_parts@.len(),
            0 <= i <= req_parts@.len(),
            target == spec_compare(
                rsegs.subrange(i as int, rsegs.len() as int),
                qsegs.subrange(i as int, qsegs.len() as int),
                last_is_star,
                params@,
            ),
        decreases route_parts@.len() - i,
    {
        proof {
            let rrest = rsegs.subrange(i as int, rsegs.len() as int);
            let qrest = qsegs.subrange(i as int, qsegs.len() as int);
            if i < rsegs.len() {
                assert(rrest[0] == rsegs[i as int]);
                assert(rrest.drop_first() =~= rsegs.subrange(i + 1, rsegs.len() as int));
            }
            if i < qsegs.len() {
                assert(qrest[0] == qsegs[i as int]);
                assert(qrest.drop_first() =~= qsegs.subrange(i + 1, qsegs.len() as int));
            }
        }
        if i >= route_parts.len() && i >= req_parts.len() {
            return (true, params);
        }
        if i >= route_parts.len() {
            return (last_is_star, params);
        }
        let rp = &route_parts[i];
        proof {
            assert(rp@ == rsegs[i as int]);
        }
        if i >= req_parts.len() {
            return (str_eq(rp.as_str(), "*"), params);
        }
        let qp = &req_parts[i];
        proof {
            assert(qp@ == qsegs[i as int]);
        }
        let rplen = rp.as_str().unicode_len();
        if rplen > 0 && rp.as_str().get_char(0) == ':' {
            let name = rp.as_str().substring_char(1, rplen).to_owned();
            proof {
                assert(name@ =~= rsegs[i as int].drop_first());
            }
            params.insert(name, qp.clone());
        } else if !str_eq(rp.as_str(), qp.as_str()) {
            if !str_eq(rp.as_str(), "*") {
                return (false, params);
            }
        }
        i = i + 1;
    }
}

/// What the router decides for one request: a finished response, a request
/// handler the embedding process must run for the matched route, or a file
/// the embedding process must read from disk. A direct response already
/// carries the matched route's extra headers; the handler and file forms
/// carry them alongside, to be merged ahead of the response's own headers.
pub enum RouteResolution {
    Respond(Response),
    RunHandler(usize, Request, StringMap),
    ServeFile(String, StringMap),
}

/// The mathematical value of a [`RouteResolution`].
pub enum ResolutionModel {
    Respond(ResponseModel),
    RunHandler(int, RequestModel, Seq<(Seq<char>, Seq<char>)>),
    ServeFile(Seq<char>, Seq<(Seq<char>, Seq<char>)>),
}

impl View for RouteResolution {
    type V = ResolutionModel;

    open spec fn view(&self) -> ResolutionModel {
        match self {
            RouteResolution::Respond(r) => ResolutionModel::Respond(r@),
            RouteResolution::RunHandler(i, q, h) => ResolutionModel::RunHandler(
                *i as int,
                q@,
                h@,
            ),
            RouteResolution::ServeFile(p, h) => ResolutionModel::ServeFile(p@, h@),
        }
    }
}

/// The models of a route list.
pub open spec fn routes_view(routes: Seq<Route>) -> Seq<RouteModel> {
    Seq::new(routes.len(), |i: int| routes[i]@)
}

/// A 404 response with no payload and no headers.
pub open spec fn spec_not_found() -> ResponseModel {
    ResponseModel { bytes: None, status_code: 404, headers: Seq::empty() }
}

/// The router's decision, scanning the routes from position `i` on: the
/// first route whose verb and path pattern both match decides — a fixed
/// text or fixed bytes becomes a success response carrying the route's
/// extra headers, a handler route names its index and hands over the
/// request with the captured path parameters filled in, and a file route
/// names the request path with its leading slashes removed; the handler and
/// file forms carry the route's extra headers alongside. No matching route
/// is a 404 with no payload and no headers.
pub open spec fn spec_check_routes_from(
    routes: Seq<RouteModel>,
    i: int,
    req: RequestModel,
) -> ResolutionModel
    decreases routes.len() - i,
{
    if i < 0 || i >= routes.len() {
        ResolutionModel::Respond(spec_not_found())
    } else {
        let route = routes[i];
        let m = spec_route_match(route.path, req.path);
        if spec_verb_text(route.verb) == req.verb && m.0 {
            match route.response {
                ContentModel::Str(s) => ResolutionModel::Respond(
                    ResponseModel {
                        bytes: Some(encode_utf8(s)),
                        status_code: 200,
                        headers: route.returned_headers,
                    },
                ),
                ContentModel::Bytes(b) => ResolutionModel::Respond(
                    ResponseModel {
                        bytes: Some(b),
                        status_code: 200,
                        headers: route.returned_headers,
                    },
                ),
                ContentModel::FromRequest => ResolutionModel::RunHandler(
                    i,
                    RequestModel { path_params: m.1, ..req },
                    route.returned_headers,
                ),
                ContentModel::FolderAccess => ResolutionModel::ServeFile(
                    spec_trim_leading(req.path, '/'),
                    route.returned_headers,
                ),
            }
        } else {
            spec_check_routes_from(routes, i + 1, req)
        }
    }
}

/// The router's decision for a request.
pub open spec fn spec_check_routes(routes: Seq<RouteModel>, req: RequestModel) -> ResolutionModel {
    spec_check_routes_from(routes, 0, req)
}

/// Matches the request against the routes in order and decides what to
/// answer: the first route whose verb and path both match wins, and no
/// match is an empty 404.
#[verifier::loop_isolation(false)]
pub fn check_routes(routes: &Vec<Route>, request: Request) -> (r: RouteResolution)
    ensures
        r@ == spec_check_routes(routes_view(routes@), request@),
{
    let ghost rv = routes_view(routes@);
    let mut i: usize = 0;
    while i < routes.len()
        invariant
            0 <= i <= routes@.len(),
            rv.len() == routes@.len(),
            spec_check_routes_from(rv, 0, request@) == spec_check_routes_from(
                rv,
                i as int,
                request@,
            ),
        decreases routes@.len() - i,
    {
        let route = &routes[i];
        proof {
            assert(rv[i as int] == routes@[i as int]@);
        }
        let (matches, params) = compare_route_w_path_and_get_path_params(
            route.path.as_str(),
            request.path.as_str(),
        );
        if str_eq(route.verb.verb_text(), request.verb.as_str()) && matches {
            match &route.response {
                ResponseContent::Str(s) => {
                    let r = Response {
                        bytes: Some(string_to_bytes(s.as_str())),
                        status_code: 200,
                        headers: route.returned_headers.clone(),
                    };
                    return RouteResolution::Respond(r);
                },
                ResponseContent::Bytes(b) => {
                    let bytes = vstd::slice::slice_to_vec(b.as_slice());
                    let r = Response {
                        bytes: Some(bytes),
                        status_code: 200,
                        headers: route.returned_headers.clone(),
                    };
                    return RouteResolution::Respond(r);
                },
                ResponseContent::FromRequest => {
                    let mut modified_request = request.clone();
                    modified_request.set_path_params(params);
                    return RouteResolution::RunHandler(
                        i,
                        modified_request,
                        route.returned_headers.clone(),
                    );
                },
                ResponseContent::FolderAccess => {
                    return RouteResolution::ServeFile(
                        trim_leading(request.path.as_str(), '/'),
                        route.returned_headers.clone(),
                    );
                },
            }
        }
        i = i + 1;
    }
    RouteResolution::Respond(Response::new(None, 404))
}

} // verus!
