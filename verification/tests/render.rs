use unchained::context::ctx_str;
use unchained::context::ctx_vec;
use unchained::context::ContextMap;
use unchained::context::ContextTree;
use unchained::context::Primitive;
use unchained::error::ErrorKind;
use unchained::portfolio::render_md;
use unchained::render::render_html;
use unchained::render::load_template;
use unchained::render::RenderOptions;
use unchained::render::TemplateStore;

fn list_context() -> ContextMap {
    let mut context = ContextMap::new();
    context.insert(
        "list".to_string(),
        ctx_vec(vec![ctx_str("a"), ctx_str("b"), ctx_str("c")]),
    );
    context
}

#[test]
fn test_text_with_no_markers_is_unchanged() {
    let text = "a perfectly plain <p>document</p> with } stray * characters {".to_string();
    let result = render_html(text.clone(), None, &RenderOptions::empty());
    assert_eq!(result.unwrap(), text);
}

#[test]
fn test_get_renders_attribute_text() {
    let mut context = ContextMap::new();
    context.insert("name".to_string(), ctx_str("world"));
    let result = render_html(
        "hello {* get name *}!".to_string(),
        Some(context),
        &RenderOptions::empty(),
    );
    assert_eq!(result.unwrap(), "hello world!");
}

#[test]
fn test_get_renders_number_and_bool() {
    let mut context = ContextMap::new();
    context.insert("n".to_string(), ContextTree::Leaf(Primitive::Num(-42)));
    context.insert("b".to_string(), ContextTree::Leaf(Primitive::Bool(true)));
    let result = render_html(
        "{* get n *},{* get b *}".to_string(),
        Some(context),
        &RenderOptions::empty(),
    );
    assert_eq!(result.unwrap(), "-42,true");
}

#[test]
fn test_get_dotted_path_descends_branches() {
    let mut inner = ContextMap::new();
    inner.insert("title".to_string(), ctx_str("Pages"));
    let mut context = ContextMap::new();
    context.insert("site".to_string(), ContextTree::Branch(inner));
    let result = render_html(
        "{* get site.title *}".to_string(),
        Some(context),
        &RenderOptions::empty(),
    );
    assert_eq!(result.unwrap(), "Pages");
}

#[test]
fn test_missing_attribute_is_invalid_params() {
    let result = render_html(
        "{* get missing *}".to_string(),
        Some(ContextMap::new()),
        &RenderOptions::empty(),
    );
    assert!(matches!(result.unwrap_err().kind(), ErrorKind::InvalidParams));
}

#[test]
fn test_unknown_operation_is_parse_error() {
    let result = render_html(
        "{* bogus thing *}".to_string(),
        Some(ContextMap::new()),
        &RenderOptions::empty(),
    );
    assert!(matches!(result.unwrap_err().kind(), ErrorKind::ParseTemplate));
}

#[test]
fn test_comment_renders_nothing() {
    let result = render_html(
        "a{* comment anything at all *}b".to_string(),
        None,
        &RenderOptions::empty(),
    );
    assert_eq!(result.unwrap(), "ab");
}

#[test]
fn test_if_true_literal_renders_children() {
    let result = render_html(
        "{* if true {shown} *}".to_string(),
        None,
        &RenderOptions::empty(),
    );
    assert_eq!(result.unwrap(), "shown");
}

#[test]
fn test_if_false_literal_renders_nothing() {
    let result = render_html(
        "{* if false {hidden} *}".to_string(),
        None,
        &RenderOptions::empty(),
    );
    assert_eq!(result.unwrap(), "");
}

#[test]
fn test_if_nonempty_string_is_true_and_empty_is_false() {
    let mut context = ContextMap::new();
    context.insert("full".to_string(), ctx_str("x"));
    context.insert("empty".to_string(), ctx_str(""));
    let result = render_html(
        "{* if full {A} *}{* if empty {B} *}".to_string(),
        Some(context),
        &RenderOptions::empty(),
    );
    assert_eq!(result.unwrap(), "A");
}

#[test]
fn test_if_number_is_true_iff_nonzero() {
    let mut context = ContextMap::new();
    context.insert("zero".to_string(), ContextTree::Leaf(Primitive::Num(0)));
    context.insert("one".to_string(), ContextTree::Leaf(Primitive::Num(1)));
    let result = render_html(
        "{* if zero {Z} *}{* if one {O} *}".to_string(),
        Some(context),
        &RenderOptions::empty(),
    );
    assert_eq!(result.unwrap(), "O");
}

#[test]
fn test_if_array_is_true_iff_empty() {
    let mut context = ContextMap::new();
    context.insert("none".to_string(), ctx_vec(vec![]));
    context.insert("some".to_string(), ctx_vec(vec![ctx_str("x")]));
    let result = render_html(
        "{* if none {N} *}{* if some {S} *}".to_string(),
        Some(context),
        &RenderOptions::empty(),
    );
    assert_eq!(result.unwrap(), "N");
}

#[test]
fn test_for_renders_elements_in_order_and_keeps_outer_context() {
    let context = list_context();
    let result = render_html(
        "<ul>{* for x in list {<li>{* get x *}</li>} *}</ul>".to_string(),
        Some(context.clone()),
        &RenderOptions::empty(),
    );
    assert_eq!(result.unwrap(), "<ul><li>a</li><li>b</li><li>c</li></ul>");
    assert!(context.get("x").is_none());
    assert!(context.get("list").is_some());
}

#[test]
fn test_for_without_children_is_invalid_params() {
    let result = render_html(
        "{* for x in list *}".to_string(),
        Some(list_context()),
        &RenderOptions::empty(),
    );
    assert!(matches!(result.unwrap_err().kind(), ErrorKind::InvalidParams));
}

#[test]
fn test_for_over_non_array_is_invalid_params() {
    let mut context = ContextMap::new();
    context.insert("list".to_string(), ctx_str("not an array"));
    let result = render_html(
        "{* for x in list {y} *}".to_string(),
        Some(context),
        &RenderOptions::empty(),
    );
    assert!(matches!(result.unwrap_err().kind(), ErrorKind::InvalidParams));
}

fn options_with(templates: Vec<(&str, &str)>) -> RenderOptions {
    let mut store = TemplateStore::new();
    for (path, content) in templates {
        store.add(path.to_string(), content.to_string());
    }
    RenderOptions { custom_operations: Vec::new(), templates: store }
}

#[test]
fn test_component_child_block_fills_default_slot() {
    let options = options_with(vec![("comp.html", "<div>{* slot default *}</div>")]);
    let result = render_html(
        "{* component comp.html {Hello} *}".to_string(),
        None,
        &options,
    );
    assert_eq!(result.unwrap(), "<div>Hello</div>");
}

#[test]
fn test_component_omitted_slot_renders_empty() {
    let options = options_with(vec![(
        "comp.html",
        "<a>{* slot given *}</a><b>{* slot omitted *}</b>",
    )]);
    let result = render_html(
        "{* component comp.html {{* slot given {content} *}} *}".to_string(),
        None,
        &options,
    );
    assert_eq!(result.unwrap(), "<a>content</a><b></b>");
}

#[test]
fn test_component_params_replace_context() {
    let options = options_with(vec![("card.html", "<h1>{* get heading *}</h1>")]);
    let mut inner = ContextMap::new();
    inner.insert("title".to_string(), ctx_str("Welcome"));
    let mut context = ContextMap::new();
    context.insert("page".to_string(), ContextTree::Branch(inner));
    let result = render_html(
        "{* component card.html heading=page.title *}".to_string(),
        Some(context),
        &options,
    );
    assert_eq!(result.unwrap(), "<h1>Welcome</h1>");
}

#[test]
fn test_component_path_must_end_in_html() {
    let options = options_with(vec![("comp.txt", "text")]);
    let result = render_html(
        "{* component comp.txt *}".to_string(),
        None,
        &options,
    );
    assert!(matches!(result.unwrap_err().kind(), ErrorKind::InvalidParams));
}

#[test]
fn test_missing_template_is_load_file_error() {
    let result = load_template("absent.html", None, &RenderOptions::empty());
    assert!(matches!(result.unwrap_err().kind(), ErrorKind::LoadFile));
}

#[test]
fn test_load_template_renders_stored_content() {
    let options = options_with(vec![("page.html", "x{* comment c *}y")]);
    let result = load_template("page.html", None, &options);
    assert_eq!(result.unwrap(), "xy");
}

#[test]
fn test_render_md_converts_markdown_to_html() {
    let mut store = TemplateStore::new();
    store.add("t.html".to_string(), "{* md page.md *}".to_string());
    store.add("page.md".to_string(), "# Hi".to_string());
    let result = render_md("t.html", None, &store);
    assert_eq!(result.unwrap(), "<h1>Hi</h1>");
}

#[test]
fn test_render_md_resolves_path_through_context() {
    let mut store = TemplateStore::new();
    store.add("t.html".to_string(), "{* md course_md_path *}".to_string());
    store.add("real.md".to_string(), "*em*".to_string());
    let mut context = ContextMap::new();
    context.insert("course_md_path".to_string(), ctx_str("real.md"));
    let result = render_md("t.html", Some(context), &store);
    assert_eq!(result.unwrap(), "<p><em>em</em></p>");
}

#[test]
fn test_slot_outside_component_marker_false_is_error() {
    let mut context = ContextMap::new();
    context.insert(
        "inside_component_operation_identifier".to_string(),
        ContextTree::Leaf(Primitive::Bool(false)),
    );
    let result = render_html(
        "{* slot default *}".to_string(),
        Some(context),
        &RenderOptions::empty(),
    );
    assert!(matches!(result.unwrap_err().kind(), ErrorKind::InvalidParams));
}

#[test]
fn test_slot_without_marker_renders_empty() {
    let result = render_html(
        "a{* slot default *}b".to_string(),
        None,
        &RenderOptions::empty(),
    );
    assert_eq!(result.unwrap(), "ab");
}
