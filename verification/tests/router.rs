use unchained::router::check_routes;
use unchained::router::compare_route_w_path_and_get_path_params;
use unchained::router::HTTPVerb;
use unchained::router::Request;
use unchained::router::ResponseContent;
use unchained::router::Route;
use unchained::router::RouteResolution;
use unchained::string_map::StringMap;

#[test]
fn test_single_equal_string_paths_matches() {
    let route_paths = vec![
        ("/path", "/path"),
        ("path", "path"),
        ("/path/", "/path/"),
        ("/path/", "path"),
        ("path", "/path"),
        ("/path", "path"),
        ("/path///", "path"),
    ];
    for (route, path) in route_paths {
        let (matches, _) = compare_route_w_path_and_get_path_params(route, path);
        assert!(matches);
    }
}

#[test]
fn test_matches_w_path_params() {
    let route_paths = vec![
        ("/path/:id", "/path/123"),
        (":id/params", "more/params"),
        ("/:id/:again", "/123/once-more"),
        ("/:id/:id", "/123/once-more"),
    ];
    for (route, path) in route_paths {
        let (matches, _) = compare_route_w_path_and_get_path_params(route, path);
        assert!(matches);
    }
}

#[test]
fn test_non_matching_routes_w_path_params() {
    let route_paths = vec![
        ("some-path", "other-path"),
        ("/*/some-path", "/some-path"),
        ("/:id/some-path", "/some-path"),
        ("/some-path/:id", "/some-path"),
        (":id/some-path/:id", "/some-path"),
    ];
    for (route, path) in route_paths {
        let (matches, _) = compare_route_w_path_and_get_path_params(route, path);
        assert!(!matches);
    }
}

#[test]
fn test_catchall_route() {
    let route = "*";
    let path = "/some-path";
    let (matches, _) = compare_route_w_path_and_get_path_params(route, path);
    assert!(matches);
}

#[test]
fn test_root_route() {
    let route_paths = vec![("/", "/"), ("/*", "/"), ("", "/"), ("/", ""), ("", "")];
    for (route, path) in route_paths {
        let (matches, _) = compare_route_w_path_and_get_path_params(route, path);
        assert!(matches);
    }
}

#[test]
fn test_matching_wildcard_routes() {
    let route_paths = vec![
        ("/*", ""),
        ("*", ""),
        ("*/", ""),
        ("/*/", "/*/"),
        ("path/*", "/path/more-path"),
        ("path/*/", "/path/more-path"),
        ("path/*/*/correct-path", "/path/more/other/correct-path"),
        ("path/*/fixed-path", "/path/more/fixed-path"),
        ("path/*/fixed-path/*/", "/path/more/fixed-path/anything/"),
    ];
    for (route, path) in route_paths {
        let (matches, _) = compare_route_w_path_and_get_path_params(route, path);
        assert!(matches);
    }
}

#[test]
fn test_non_matching_wildcard_routes() {
    let route_paths = vec![
        ("path/*/fixed-path", "/wrong-root/more-path/fixed-path"),
        ("path/*/fixed-path", "/path/more-path/wrong-end"),
        ("path/*/", "wrong-path"),
        ("path/*/*/correct-path", "/path/more-path/other-path/wrong-path"),
        ("path/", "/*"),
        ("path/", "path/*"),
        ("path/more", "path/*"),
        ("/experience/", "/experience/*"),
    ];
    for (route, path) in route_paths {
        let (matches, _) = compare_route_w_path_and_get_path_params(route, path);
        assert!(!matches);
    }
}

#[test]
fn test_path_param_captures_value() {
    let (matches, params) = compare_route_w_path_and_get_path_params("/path/:id", "/path/123");
    assert!(matches);
    assert_eq!(params.get("id").unwrap(), "123");
}

#[test]
fn test_wildcard_middle_and_wrong_end() {
    let (matches, _) = compare_route_w_path_and_get_path_params(
        "path/*/fixed-path",
        "/path/anything/fixed-path",
    );
    assert!(matches);
    let (matches, _) = compare_route_w_path_and_get_path_params(
        "path/*/fixed-path",
        "/path/anything/wrong-end",
    );
    assert!(!matches);
}

fn get_request(path: &str) -> Request {
    Request {
        verb: "GET".to_string(),
        path: path.to_string(),
        path_params: StringMap::new(),
        body: None,
        headers: StringMap::new(),
    }
}

#[test]
fn test_route_str_answers_200_hello() {
    let routes = vec![Route::new(HTTPVerb::GET, "/", ResponseContent::Str("hello".to_string()))];
    match check_routes(&routes, get_request("/")) {
        RouteResolution::Respond(response) => {
            assert_eq!(response.status_code, 200);
            assert_eq!(response.bytes.unwrap(), b"hello".to_vec());
        },
        _ => panic!("expected a direct response"),
    }
}

#[test]
fn test_unmatched_path_answers_empty_404() {
    let routes = vec![Route::new(HTTPVerb::GET, "/", ResponseContent::Str("hello".to_string()))];
    match check_routes(&routes, get_request("/missing")) {
        RouteResolution::Respond(response) => {
            assert_eq!(response.status_code, 404);
            assert!(response.bytes.is_none());
        },
        _ => panic!("expected a direct response"),
    }
}

#[test]
fn test_first_matching_route_wins() {
    let routes = vec![
        Route::new(HTTPVerb::GET, "/a", ResponseContent::Str("first".to_string())),
        Route::new(HTTPVerb::GET, "/*", ResponseContent::Str("second".to_string())),
    ];
    match check_routes(&routes, get_request("/a")) {
        RouteResolution::Respond(response) => {
            assert_eq!(response.bytes.unwrap(), b"first".to_vec());
        },
        _ => panic!("expected a direct response"),
    }
    match check_routes(&routes, get_request("/b")) {
        RouteResolution::Respond(response) => {
            assert_eq!(response.bytes.unwrap(), b"second".to_vec());
        },
        _ => panic!("expected a direct response"),
    }
}

#[test]
fn test_verb_must_match_exactly() {
    let routes = vec![Route::new(HTTPVerb::POST, "/", ResponseContent::Str("hello".to_string()))];
    match check_routes(&routes, get_request("/")) {
        RouteResolution::Respond(response) => {
            assert_eq!(response.status_code, 404);
        },
        _ => panic!("expected a direct response"),
    }
}

#[test]
fn test_handler_route_hands_back_request_with_params() {
    let routes = vec![Route::new(HTTPVerb::GET, "/courses/:courseid", ResponseContent::FromRequest)];
    match check_routes(&routes, get_request("/courses/algebra")) {
        RouteResolution::RunHandler(index, request, _route_headers) => {
            assert_eq!(index, 0);
            assert_eq!(request.path_params.get("courseid").unwrap(), "algebra");
        },
        _ => panic!("expected a handler resolution"),
    }
}

#[test]
fn test_folder_access_route_names_the_file() {
    let routes = vec![Route::new(HTTPVerb::GET, "/images/*", ResponseContent::FolderAccess)];
    match check_routes(&routes, get_request("/images/cat.webp")) {
        RouteResolution::ServeFile(path, _route_headers) => {
            assert_eq!(path, "images/cat.webp");
        },
        _ => panic!("expected a file resolution"),
    }
}

#[test]
fn test_route_headers_reach_the_response() {
    let mut extra = StringMap::new();
    extra.insert("Content-Type".to_string(), "text/plain".to_string());
    let routes = vec![Route::new_with_headers(
        HTTPVerb::GET,
        "/",
        ResponseContent::Str("hello".to_string()),
        extra.clone(),
    )];
    match check_routes(&routes, get_request("/")) {
        RouteResolution::Respond(response) => {
            assert_eq!(response.headers.get("Content-Type").unwrap(), "text/plain");
        },
        _ => panic!("expected a direct response"),
    }
    let routes = vec![Route::new_with_headers(
        HTTPVerb::GET,
        "/files/*",
        ResponseContent::FolderAccess,
        extra,
    )];
    match check_routes(&routes, get_request("/files/a.txt")) {
        RouteResolution::ServeFile(path, route_headers) => {
            assert_eq!(path, "files/a.txt");
            assert_eq!(route_headers.get("Content-Type").unwrap(), "text/plain");
        },
        _ => panic!("expected a file resolution"),
    }
}

#[test]
fn test_merged_headers_prefer_the_response() {
    let mut route_headers = StringMap::new();
    route_headers.insert("Content-Type".to_string(), "text/plain".to_string());
    route_headers.insert("X-Kind".to_string(), "route".to_string());
    let mut response_headers = StringMap::new();
    response_headers.insert("X-Kind".to_string(), "response".to_string());
    let merged = route_headers.merge(&response_headers);
    assert_eq!(merged.get("Content-Type").unwrap(), "text/plain");
    assert_eq!(merged.get("X-Kind").unwrap(), "response");
}

#[test]
fn test_bytes_route_returns_bytes() {
    let routes = vec![Route::new(HTTPVerb::GET, "/raw", ResponseContent::Bytes(vec![1, 2, 3]))];
    match check_routes(&routes, get_request("/raw")) {
        RouteResolution::Respond(response) => {
            assert_eq!(response.status_code, 200);
            assert_eq!(response.bytes.unwrap(), vec![1, 2, 3]);
        },
        _ => panic!("expected a direct response"),
    }
}
