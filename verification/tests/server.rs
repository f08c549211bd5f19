use unchained::numbers::i64_to_string;
use unchained::numbers::parse_u64;
use unchained::numbers::u64_to_string;
use unchained::portfolio::create_skill;
use unchained::portfolio::current_year;
use unchained::context::ContextTree;
use unchained::context::Primitive;
use unchained::server::content_length;
use unchained::server::finalize_headers;
use unchained::server::parse_header_line;
use unchained::server::parse_request_line;
use unchained::server::response_head;
use unchained::server::Server;
use unchained::string_map::StringMap;
use unchained::workers::TaskQueue;

#[test]
fn test_parse_request_line_extracts_verb_and_path() {
    let (verb, path) = parse_request_line("GET /skills HTTP/1.1").unwrap();
    assert_eq!(verb, "GET");
    assert_eq!(path, "/skills");
}

#[test]
fn test_parse_request_line_rejects_short_line() {
    assert!(parse_request_line("GET /skills").is_err());
    assert!(parse_request_line("").is_err());
}

#[test]
fn test_parse_header_line_splits_on_colon_space() {
    let (key, value) = parse_header_line("Content-Length: 42\r\n").unwrap();
    assert_eq!(key, "Content-Length");
    assert_eq!(value, "42");
}

#[test]
fn test_parse_header_line_rejects_blank_and_malformed() {
    assert!(parse_header_line("\r\n").is_none());
    assert!(parse_header_line("NoColonHere").is_none());
    assert!(parse_header_line("a: b: c").is_none());
}

#[test]
fn test_content_length_defaults_to_zero() {
    let mut headers = StringMap::new();
    assert_eq!(content_length(&headers), 0);
    headers.insert("Content-Length".to_string(), "not a number".to_string());
    assert_eq!(content_length(&headers), 0);
    headers.insert("Content-Length".to_string(), "17".to_string());
    assert_eq!(content_length(&headers), 17);
}

#[test]
fn test_response_head_layout() {
    let mut defaults = StringMap::new();
    defaults.insert("Cache-Control".to_string(), "max-age=300".to_string());
    let mut headers = StringMap::new();
    headers.insert("Connection".to_string(), "close".to_string());
    let head = response_head(200, &defaults, &headers);
    assert_eq!(head, "HTTP/1.1 200\r\nCache-Control: max-age=300\r\nConnection: close\r\n\r\n");
}

#[test]
fn test_response_head_with_no_headers() {
    let head = response_head(404, &StringMap::new(), &StringMap::new());
    assert_eq!(head, "HTTP/1.1 404\r\n\r\n\r\n");
}

#[test]
fn test_finalize_headers_adds_length_and_close() {
    let finalized = finalize_headers(&StringMap::new(), 5);
    assert_eq!(finalized.get("Content-Length").unwrap(), "5");
    assert_eq!(finalized.get("Connection").unwrap(), "close");
    let mut given = StringMap::new();
    given.insert("Content-Length".to_string(), "9".to_string());
    let kept = finalize_headers(&given, 5);
    assert_eq!(kept.get("Content-Length").unwrap(), "9");
}

#[test]
fn test_u64_to_string_renders_decimal() {
    assert_eq!(u64_to_string(0), "0");
    assert_eq!(u64_to_string(105), "105");
    assert_eq!(u64_to_string(u64::MAX), "18446744073709551615");
}

#[test]
fn test_i64_to_string_renders_sign() {
    assert_eq!(i64_to_string(-42), "-42");
    assert_eq!(i64_to_string(7), "7");
    assert_eq!(i64_to_string(i64::MIN), "-9223372036854775808");
}

#[test]
fn test_parse_u64_accepts_digits_and_plus() {
    assert_eq!(parse_u64("0"), Some(0));
    assert_eq!(parse_u64("+17"), Some(17));
    assert_eq!(parse_u64("18446744073709551615"), Some(u64::MAX));
}

#[test]
fn test_parse_u64_rejects_junk_and_overflow() {
    assert_eq!(parse_u64(""), None);
    assert_eq!(parse_u64("+"), None);
    assert_eq!(parse_u64("12a"), None);
    assert_eq!(parse_u64("-3"), None);
    assert_eq!(parse_u64("18446744073709551616"), None);
}

#[test]
fn test_server_defaults_and_setters() {
    let mut server = Server::new(Vec::new());
    assert_eq!(server.options.address, "0.0.0.0:8080");
    assert_eq!(server.options.threads, 4);
    server.set_address("127.0.0.1:9000");
    server.set_threads(2);
    server.add_default_header("Cache-Control", "max-age=300");
    assert_eq!(server.options.address, "127.0.0.1:9000");
    assert_eq!(server.options.threads, 2);
    assert_eq!(server.options.default_headers.get("Cache-Control").unwrap(), "max-age=300");
}

#[test]
fn test_task_queue_executes_every_task_exactly_once_in_order() {
    let mut queue: TaskQueue<u32> = TaskQueue::new();
    for task in 0..5u32 {
        queue.post(task);
    }
    let mut taken: Vec<u32> = Vec::new();
    while let Some(task) = queue.take() {
        taken.push(task);
    }
    assert_eq!(taken, vec![0, 1, 2, 3, 4]);
    assert_eq!(queue.len(), 0);
    assert!(queue.take().is_none());
}

#[test]
fn test_current_year_counts_whole_years() {
    assert_eq!(current_year(0), 1970);
    assert_eq!(current_year(31536000), 1971);
    assert_eq!(current_year(31535999), 1970);
}

#[test]
fn test_create_skill_percentage_formula() {
    let skill = create_skill("rust", "Rust", "a language", 2, "rust.webp");
    match skill {
        ContextTree::Branch(map) => {
            match map.get("percentage") {
                Some(ContextTree::Leaf(Primitive::Num(p))) => assert_eq!(*p, 40),
                _ => panic!("expected a numeric percentage"),
            }
            match map.get("score") {
                Some(ContextTree::Leaf(Primitive::Num(s))) => assert_eq!(*s, 2),
                _ => panic!("expected a numeric score"),
            }
        },
        _ => panic!("expected a branch"),
    }
}

#[test]
fn test_context_tree_from_conversions() {
    match ContextTree::from(7i64) {
        ContextTree::Leaf(Primitive::Num(n)) => assert_eq!(n, 7),
        _ => panic!("expected a numeric leaf"),
    }
    match ContextTree::from(true) {
        ContextTree::Leaf(Primitive::Bool(b)) => assert!(b),
        _ => panic!("expected a boolean leaf"),
    }
    match ContextTree::from("hi".to_string()) {
        ContextTree::Leaf(Primitive::Str(s)) => assert_eq!(s, "hi"),
        _ => panic!("expected a string leaf"),
    }
}

#[test]
fn test_zip_longest_pairs_until_both_run_out() {
    let paired = unchained::zip_longest::zip_longest(vec![1, 2, 3], vec!["a"]);
    assert_eq!(
        paired,
        vec![(Some(1), Some("a")), (Some(2), None), (Some(3), None)]
    );
    let empty: Vec<(Option<u8>, Option<u8>)> = unchained::zip_longest::zip_longest(vec![], vec![]);
    assert!(empty.is_empty());
}
