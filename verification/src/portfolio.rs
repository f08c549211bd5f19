//! The helpers a site built on this runtime uses: rendering a template with
//! the Markdown operation registered, building the context values for
//! pages, and small pieces of page data arithmetic.
use vstd::prelude::*;
use vstd::string::StringExecFns;
use crate::context::ContextMap;
use crate::context::ContextTree;
use crate::context::Primitive;
use crate::context::PrimModel;
use crate::context::TreeModel;
use crate::context::entry_models;
use crate::context::array_models;
use crate::context::spec_insert_all;
use crate::context::ctx_map;
use crate::context::tree_model;
use crate::error::Error;
use crate::error::WebResult;
use crate::operations::CustomOperation;
use crate::operations::res_matches;
use crate::render::OptionsModel;
use crate::render::RenderOptions;
use crate::render::RENDER_FUEL;
use crate::render::TemplateStore;
use crate::render::load_template;
use crate::render::spec_context_of;
use crate::render::spec_load;
use crate::router::HTTPVerb;
use crate::router::ResponseContent;
use crate::router::Route;

verus! {

broadcast use vstd::std_specs::vec::group_vec_axioms,
    crate::context::group_context_model_axioms;

/// Renders the template under `path` with the Markdown operation registered
/// under the name `md`, so that `{* md some.md *}` regions convert their
/// file's rendering from Markdown to HTML.
pub fn render_md(path: &str, context: Option<ContextMap>, templates: &TemplateStore) -> (r:
    WebResult<String>)
    ensures
        res_matches(
            r,
            spec_load(
                path@,
                spec_context_of(context),
                OptionsModel {
                    customs: seq![("md"@, CustomOperation::Markdown)],
                    templates: templates@,
                },
                RENDER_FUEL as nat,
            ),
        ),
{
    let mut custom_operations: Vec<(String, CustomOperation)> = Vec::new();
    custom_operations.push(("md".to_owned(), CustomOperation::Markdown));
    let options = RenderOptions { custom_operations, templates: templates.clone() };
    proof {
        assert(options@.customs =~= seq![("md"@, CustomOperation::Markdown)]);
    }
    load_template(path, context, &options)
}

/// The message carried by an error, whatever its kind.
pub fn handle_error(e: &Error) -> (r: String)
    ensures
        r@ == e.spec_message(),
{
    e.message().clone()
}

/// Renders the template under `path`; a failed render yields the error's
/// message as the page text instead of aborting.
pub fn load_tmpl_and_handle_error(
    path: &str,
    context: Option<ContextMap>,
    options: &RenderOptions,
) -> (r: String)
    ensures
        ({
            let m = spec_load(path@, spec_context_of(context), options@, RENDER_FUEL as nat);
            m is Ok ==> r@ == m->Ok_0
        }),
{
    match load_template(path, context, options) {
        Ok(template) => template,
        Err(e) => handle_error(&e),
    }
}

/// A string leaf.
fn leaf(text: &str) -> (r: ContextTree)
    ensures
        tree_model(r) == TreeModel::Leaf(PrimModel::Str(text@)),
{
    ContextTree::Leaf(Primitive::Str(text.to_owned()))
}

/// The context value describing one skill: its identifier, name,
/// description, score out of five, image path, and the score as a
/// percentage of five.
pub fn create_skill(id: &str, name: &str, description: &str, score: i64, image_path: &str) -> (r:
    ContextTree)
    requires
        -92233720368547758 <= score <= 92233720368547758,
    ensures
        r@ == TreeModel::Branch(
            spec_insert_all(
                Seq::<(Seq<char>, TreeModel)>::empty(),
                seq![
                    ("id"@, TreeModel::Leaf(PrimModel::Str(id@))),
                    ("name"@, TreeModel::Leaf(PrimModel::Str(name@))),
                    ("description"@, TreeModel::Leaf(PrimModel::Str(description@))),
                    ("score"@, TreeModel::Leaf(PrimModel::Num(score as int))),
                    ("image"@, TreeModel::Leaf(PrimModel::Str(image_path@))),
                    ("percentage"@, TreeModel::Leaf(PrimModel::Num(score * 100 / 5))),
                ],
            ),
        ),
{
    proof {
        assert(-9223372036854775800 <= score * 100 <= 9223372036854775800) by (nonlinear_arith)
            requires
                -92233720368547758 <= score <= 92233720368547758,
        ;
    }
    let percentage: i64 = score * 100 / 5;
    let mut entries: Vec<(String, ContextTree)> = Vec::new();
    entries.push(("id".to_owned(), leaf(id)));
    entries.push(("name".to_owned(), leaf(name)));
    entries.push(("description".to_owned(), leaf(description)));
    entries.push(("score".to_owned(), ContextTree::Leaf(Primitive::Num(score))));
    entries.push(("image".to_owned(), leaf(image_path)));
    entries.push(("percentage".to_owned(), ContextTree::Leaf(Primitive::Num(percentage))));
    let r = ctx_map(entries);
    proof {
        assert(entry_models(entries@) =~= seq![
            ("id"@, TreeModel::Leaf(PrimModel::Str(id@))),
            ("name"@, TreeModel::Leaf(PrimModel::Str(name@))),
            ("description"@, TreeModel::Leaf(PrimModel::Str(description@))),
            ("score"@, TreeModel::Leaf(PrimModel::Num(score as int))),
            ("image"@, TreeModel::Leaf(PrimModel::Str(image_path@))),
            ("percentage"@, TreeModel::Leaf(PrimModel::Num(score * 100 / 5))),
        ]);
    }
    r
}

/// The context value describing one experience entry.
pub fn create_experience(
    id: &str,
    title: &str,
    description: &str,
    image_path: &str,
    date_start: &str,
    date_end: &str,
    demo_link: &str,
    source_link: &str,
    tech: Vec<String>,
) -> (r: ContextTree)
    ensures
        r@ == TreeModel::Branch(
            spec_insert_all(
                Seq::<(Seq<char>, TreeModel)>::empty(),
                seq![
                    ("id"@, TreeModel::Leaf(PrimModel::Str(id@))),
                    ("title"@, TreeModel::Leaf(PrimModel::Str(title@))),
                    ("description"@, TreeModel::Leaf(PrimModel::Str(description@))),
                    ("image"@, TreeModel::Leaf(PrimModel::Str(image_path@))),
                    ("date_start"@, TreeModel::Leaf(PrimModel::Str(date_start@))),
                    ("date_end"@, TreeModel::Leaf(PrimModel::Str(date_end@))),
                    ("demo_link"@, TreeModel::Leaf(PrimModel::Str(demo_link@))),
                    ("source_link"@, TreeModel::Leaf(PrimModel::Str(source_link@))),
                    (
                        "tech"@,
                        TreeModel::Array(
                            Seq::new(
                                tech@.len(),
                                |i: int| TreeModel::Leaf(PrimModel::Str(tech@[i]@)),
                            ),
                        ),
                    ),
                ],
            ),
        ),
{
    let ghost tech_view = tech@;
    let mut tech_items: Vec<ContextTree> = Vec::new();
    let mut i: usize = 0;
    while i < tech.len()
        invariant
            0 <= i <= tech@.len(),
            tech@ == tech_view,
            tech_items@.len() == i,
            forall|j: int| 0 <= j < i ==> tree_model(#[trigger] tech_items@[j]) == TreeModel::Leaf(
                PrimModel::Str(tech_view[j]@),
            ),
        decreases tech@.len() - i,
    {
        tech_items.push(ContextTree::Leaf(Primitive::Str(tech[i].clone())));
        i = i + 1;
    }
    let ghost tech_model = TreeModel::Array(
        Seq::new(tech_view.len(), |j: int| TreeModel::Leaf(PrimModel::Str(tech_view[j]@))),
    );
    let tech_tree = ContextTree::Array(tech_items);
    proof {
        assert(array_models(tech_items@) =~= Seq::new(
            tech_view.len(),
            |j: int| TreeModel::Leaf(PrimModel::Str(tech_view[j]@)),
        ));
    }
    let mut entries: Vec<(String, ContextTree)> = Vec::new();
    entries.push(("id".to_owned(), leaf(id)));
    entries.push(("title".to_owned(), leaf(title)));
    entries.push(("description".to_owned(), leaf(description)));
    entries.push(("image".to_owned(), leaf(image_path)));
    entries.push(("date_start".to_owned(), leaf(date_start)));
    entries.push(("date_end".to_owned(), leaf(date_end)));
    entries.push(("demo_link".to_owned(), leaf(demo_link)));
    entries.push(("source_link".to_owned(), leaf(source_link)));
    entries.push(("tech".to_owned(), tech_tree));
    let r = ctx_map(entries);
    proof {
        assert(entry_models(entries@) =~= seq![
            ("id"@, TreeModel::Leaf(PrimModel::Str(id@))),
            ("title"@, TreeModel::Leaf(PrimModel::Str(title@))),
            ("description"@, TreeModel::Leaf(PrimModel::Str(description@))),
            ("image"@, TreeModel::Leaf(PrimModel::Str(image_path@))),
            ("date_start"@, TreeModel::Leaf(PrimModel::Str(date_start@))),
            ("date_end"@, TreeModel::Leaf(PrimModel::Str(date_end@))),
            ("demo_link"@, TreeModel::Leaf(PrimModel::Str(demo_link@))),
            ("source_link"@, TreeModel::Leaf(PrimModel::Str(source_link@))),
            ("tech"@, tech_model),
        ]);
    }
    r
}

/// The context value describing one course page.
pub fn create_course(course_id: &str, title: &str, image_path: &str) -> (r: ContextTree)
    ensures
        r@ == TreeModel::Branch(
            spec_insert_all(
                Seq::<(Seq<char>, TreeModel)>::empty(),
                seq![
                    ("course_id"@, TreeModel::Leaf(PrimModel::Str(course_id@))),
                    ("title"@, TreeModel::Leaf(PrimModel::Str(title@))),
                    ("image"@, TreeModel::Leaf(PrimModel::Str(image_path@))),
                ],
            ),
        ),
{
    let mut entries: Vec<(String, ContextTree)> = Vec::new();
    entries.push(("course_id".to_owned(), leaf(course_id)));
    entries.push(("title".to_owned(), leaf(title)));
    entries.push(("image".to_owned(), leaf(image_path)));
    let r = ctx_map(entries);
    proof {
        assert(entry_models(entries@) =~= seq![
            ("course_id"@, TreeModel::Leaf(PrimModel::Str(course_id@))),
            ("title"@, TreeModel::Leaf(PrimModel::Str(title@))),
            ("image"@, TreeModel::Leaf(PrimModel::Str(image_path@))),
        ]);
    }
    r
}

/// A GET route that serves the matching file from disk.
pub fn folder_access(path: &str) -> (r: Route)
    ensures
        r@.verb == HTTPVerb::GET,
        r@.path == path@,
        r@.response == crate::router::ContentModel::FolderAccess,
        r@.returned_headers == Seq::<(Seq<char>, Seq<char>)>::empty(),
{
    Route::new(HTTPVerb::GET, path, ResponseContent::FolderAccess)
}

/// Seconds in one day.
pub const SEC_PER_DAY: u64 = 60 * 60 * 24;

/// Seconds in one 365-day year.
pub const SEC_PER_YEAR: u64 = 60 * 60 * 24 * 365;

/// The calendar year that the given time falls in, counting from the epoch
/// in whole 365-day years.
pub fn current_year(seconds_since_epoch: u64) -> (r: u64)
    ensures
        r == 1970 + seconds_since_epoch / SEC_PER_YEAR,
{
    let years = seconds_since_epoch / SEC_PER_YEAR;
    proof {
        assert(SEC_PER_YEAR == 31536000);
        assert(seconds_since_epoch as int / 31536000 <= 584942417355int) by (nonlinear_arith)
            requires
                seconds_since_epoch <= 18446744073709551615u64,
        ;
        assert(years <= 584942417355u64);
    }
    1970 + years
}

} // verus!
