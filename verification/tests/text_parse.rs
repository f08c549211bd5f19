use unchained::text_parse::between_connected_patterns;
use unchained::text_parse::find_between;
use unchained::text_parse::remove_between;

#[test]
fn render_test_get_between_in_one_line_match_w_equal_patterns() {
    let found = find_between("content that | contains patterns |", "|", "|");
    assert!(found.is_some());
    assert_eq!(found.unwrap().content, " contains patterns ");
}

#[test]
fn render_test_get_between_in_two_lines_match_w_equal_patterns() {
    let found = find_between(
        "content that | contains patterns | but this |is \n also content to| get",
        "|",
        "|",
    );
    assert!(found.is_some());
    let found = found.unwrap();
    assert_eq!(found.content, " contains patterns ");
    assert_eq!(found.from, 13);
    assert_eq!(found.to, 33);
}

#[test]
fn render_test_get_between_w_multi_char_pattern() {
    let found = find_between(
        "content that || contains patterns || but this ||is \n also content to|| get",
        "||",
        "||",
    );
    assert!(found.is_some());
    let found = found.unwrap();
    assert_eq!(found.content, " contains patterns ");
    assert_eq!(found.from, 13);
    assert_eq!(found.to, 35);
}

#[test]
fn render_test_assymmetric_pattern() {
    let found = find_between(
        "content that contains patterns but this {{is \n also content to}} get",
        "{{",
        "}}",
    );
    assert!(found.is_some());
    let found = found.unwrap();
    assert_eq!(found.content, "is \n also content to");
    assert_eq!(found.from, 40);
    assert_eq!(found.to, 63);
}

#[test]
fn render_test_no_pattern_found() {
    let found = find_between("content with no pattern", "|", "}");
    assert!(found.is_none());
}

#[test]
fn render_test_no_to_pattern_found() {
    let found = find_between("content with | no pattern", "|", "}");
    assert!(found.is_none());
}

#[test]
fn render_test_remove_single_asymmetric_pattern() {
    let res = remove_between("A string with [a pattern] found", "[", "]");
    assert!(res.is_some());
    let (changed_content, inside_pattern) = res.unwrap();
    assert_eq!(changed_content, "A string with  found".to_string());
    assert_eq!(inside_pattern, "a pattern".to_string());
}

#[test]
fn mod_test_get_between_in_one_line_match_w_equal_patterns() {
    let found = find_between("content that | contains patterns |", "|", "|");
    assert!(found.is_some());
    assert_eq!(found.unwrap().content, " contains patterns ");
}

#[test]
fn mod_test_get_between_in_two_lines_match_w_equal_patterns() {
    let found = find_between(
        "content that | contains patterns | but this |is \n also content to| get",
        "|",
        "|",
    );
    assert!(found.is_some());
    let found = found.unwrap();
    assert_eq!(found.content, " contains patterns ");
    assert_eq!(found.from, 13);
    assert_eq!(found.to, 33);
}

#[test]
fn mod_test_get_between_w_multi_char_pattern() {
    let found = find_between(
        "content that || contains patterns || but this ||is \n also content to|| get",
        "||",
        "||",
    );
    assert!(found.is_some());
    let found = found.unwrap();
    assert_eq!(found.content, " contains patterns ");
    assert_eq!(found.from, 13);
    assert_eq!(found.to, 35);
}

#[test]
fn mod_test_assymmetric_pattern() {
    let found = find_between(
        "content that contains patterns but this {{is \n also content to}} get",
        "{{",
        "}}",
    );
    assert!(found.is_some());
    let found = found.unwrap();
    assert_eq!(found.content, "is \n also content to");
    assert_eq!(found.from, 40);
    assert_eq!(found.to, 63);
}

#[test]
fn mod_test_no_pattern_found() {
    let found = find_between("content with no pattern", "|", "}");
    assert!(found.is_none());
}

#[test]
fn mod_test_no_to_pattern_found() {
    let found = find_between("content with | no pattern", "|", "}");
    assert!(found.is_none());
}

#[test]
fn mod_test_remove_single_asymmetric_pattern() {
    let res = remove_between("A string with [a pattern] found", "[", "]");
    assert!(res.is_some());
    let (changed_content, inside_pattern) = res.unwrap();
    assert_eq!(changed_content, "A string with  found".to_string());
    assert_eq!(inside_pattern, "a pattern".to_string());
}

#[test]
fn text_parse_test_get_between_in_one_line_match_w_equal_patterns() {
    let found = find_between("content that | contains patterns |", "|", "|");
    assert!(found.is_some());
    assert_eq!(found.unwrap().content, " contains patterns ");
}

#[test]
fn text_parse_test_get_between_in_two_lines_match_w_equal_patterns() {
    let found = find_between(
        "content that | contains patterns | but this |is \n also content to| get",
        "|",
        "|",
    );
    assert!(found.is_some());
    let found = found.unwrap();
    assert_eq!(found.content, " contains patterns ");
    assert_eq!(found.from, 13);
    assert_eq!(found.to, 33);
}

#[test]
fn text_parse_test_get_between_w_multi_char_pattern() {
    let found = find_between(
        "content that || contains patterns || but this ||is \n also content to|| get",
        "||",
        "||",
    );
    assert!(found.is_some());
    let found = found.unwrap();
    assert_eq!(found.content, " contains patterns ");
    assert_eq!(found.from, 13);
    assert_eq!(found.to, 35);
}

#[test]
fn text_parse_test_assymmetric_pattern() {
    let found = find_between(
        "content that contains patterns but this {{is \n also content to}} get",
        "{{",
        "}}",
    );
    assert!(found.is_some());
    let found = found.unwrap();
    assert_eq!(found.content, "is \n also content to");
    assert_eq!(found.from, 40);
    assert_eq!(found.to, 63);
}

#[test]
fn text_parse_test_no_pattern_found() {
    let found = find_between("content with no pattern", "|", "}");
    assert!(found.is_none());
}

#[test]
fn text_parse_test_no_to_pattern_found() {
    let found = find_between("content with | no pattern", "|", "}");
    assert!(found.is_none());
}

#[test]
fn text_parse_test_remove_single_asymmetric_pattern() {
    let res = remove_between("A string with [a pattern] found", "[", "]");
    assert!(res.is_some());
    let (changed_content, inside_pattern) = res.unwrap();
    assert_eq!(changed_content, "A string with  found".to_string());
    assert_eq!(inside_pattern, "a pattern".to_string());
}

#[test]
fn text_parse_test_singular_opening_pattern() {
    let content = "content { with a pattern and { another pattern }  }";
    let res = between_connected_patterns(content, "{", "}");
    assert!(res.is_some());
    let res = res.unwrap();
    assert_eq!(res.content, " with a pattern and { another pattern }  ");
    assert_eq!(res.from, 8);
    assert_eq!(res.to, 50);
}

#[test]
fn text_parse_test_multi_char_opening_pattern() {
    let content = "content {* with a pattern and {* another pattern *}  *}";
    let res = between_connected_patterns(content, "{*", "*}");
    assert!(res.is_some());
    let res = res.unwrap();
    assert_eq!(res.content, " with a pattern and {* another pattern *}  ");
    assert_eq!(res.from, 8);
    assert_eq!(res.to, 54);
}

#[test]
fn text_parse_test_no_closing_pattern() {
    let content = "content {* with a pattern and {* another pattern *}";
    let res = between_connected_patterns(content, "{*", "*}");
    assert!(res.is_none());
}

#[test]
fn text_parse_test_closing_bracket_first() {
    let content = "content *} with a pattern and {* another pattern";
    let res = between_connected_patterns(content, "{*", "*}");
    assert!(res.is_none());
}

#[test]
fn text_parse_test_empty_between_opening_and_closing() {
    let content = "{**}";
    let res = between_connected_patterns(content, "{*", "*}");
    assert!(res.is_some());
    let res = res.unwrap();
    assert_eq!(res.content, "");
    assert_eq!(res.from, 0);
    assert_eq!(res.to, 3);
}

#[test]
fn text_parse_test_closing_bracket_first_before_valid_patterns() {
    let content = "content *} with a pattern and {* another pattern {* *}  *}";
    let res = between_connected_patterns(content, "{*", "*}");
    assert!(res.is_some());
    let res = res.unwrap();
    assert_eq!(res.content, " another pattern {* *}  ");
    assert_eq!(res.from, 30);
    assert_eq!(res.to, 57);
}

#[test]
fn test_with_html_content_operation() {
    let content = r#"{* component me.html {
            <div class="my-class">
                <h1>{{ Me }}</h1>
                <p>{* Some text about me *}</p>
            </div>
        } *}"#;
    let res = between_connected_patterns(content, "{*", "*}");
    assert!(res.is_some());
    let res = res.unwrap();
    assert_eq!(res.from, 0);
    assert_eq!(res.to, 170);
}

#[test]
fn text_parse_test_equal_open_and_closing_pattern() {
    let content = "content | with a pattern and | another pattern |";
    let res = between_connected_patterns(content, "|", "|");
    assert!(res.is_some());
    let res = res.unwrap();
    assert_eq!(res.content, " with a pattern and ");
    assert_eq!(res.from, 8);
    assert_eq!(res.to, 29);
}

#[test]
fn test_equal_open_and_closing__() {
    let content = "content | with a pattern and | another pattern |";
    let res = between_connected_patterns(content, "|", "|");
    assert!(res.is_some());
    let res = res.unwrap();
    assert_eq!(res.content, " with a pattern and ");
    assert_eq!(res.from, 8);
    assert_eq!(res.to, 29);
}

#[test]
fn find_replace_with_several_code_points() {
    let mut content = String::from("åüåå[cåüååontent]");
    let res1 = content.find("[").unwrap();
    let res2 = content.find("]").unwrap();
    content.replace_range(res1 + 1..res2, "bruh");
    assert_eq!(content, "åüåå[bruh]");
}

#[test]
fn test_nested_same_length_markers_keep_inner_verbatim() {
    let res = between_connected_patterns("a { b { c } d } e", "{", "}");
    assert!(res.is_some());
    let res = res.unwrap();
    assert_eq!(res.content, " b { c } d ");
}

#[test]
fn test_multibyte_text_around_markers() {
    let res = between_connected_patterns("héllo {* wörld *} ünd", "{*", "*}");
    assert!(res.is_some());
    let res = res.unwrap();
    assert_eq!(res.content, " wörld ");
    assert_eq!(res.from, 6);
    assert_eq!(res.to, 16);
}
