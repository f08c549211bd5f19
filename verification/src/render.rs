//! The template evaluator: repeatedly finds the next outermost operation
//! region, dispatches it to its handler, splices the handler's output in
//! place, and rescans from the spliced position — never rescanning the
//! already-emitted text before it. The whole evaluation is specified by a
//! recursive interpreter over sequences of characters, and every handler is
//! proved to agree with it.
use vstd::prelude::*;
use vstd::string::StrSliceExecFns;
use vstd::string::StringExecFns;
use crate::context::ContextMap;
use crate::context::ContextTree;
use crate::context::Primitive;
use crate::context::PrimModel;
use crate::context::TreeModel;
use crate::context::spec_insert;
use crate::context::spec_lookup;
use crate::context::tree_model;
use crate::context::array_models;
use crate::error::Error;
use crate::error::ErrorKind;
use crate::error::WebResult;
use crate::operations::CallModel;
use crate::operations::CustomOperation;
use crate::operations::TemplateOperation;
use crate::operations::TemplateOperationCall;
use crate::operations::customs_view;
use crate::operations::get_template_operation;
use crate::operations::operation_params_and_children;
use crate::operations::res_matches;
use crate::operations::spec_attribute_op;
use crate::operations::spec_attr_resolve;
use crate::operations::spec_comment_op;
use crate::operations::spec_get_operation;
use crate::operations::spec_if_op;
use crate::operations::spec_inside_component_id;
use crate::operations::spec_op_call;
use crate::operations::spec_slot_op;
use crate::operations::op_open;
use crate::operations::op_close;
use crate::operations::template_operation;
use crate::text_parse::is_match_at;
use crate::text_parse::lemma_scan_no_open_none;
use crate::text_parse::lemma_scan_props;
use crate::text_parse::spec_between;
use crate::text_parse::spec_ends_with;
use crate::text_parse::spec_split;
use crate::text_parse::splice;
use crate::text_parse::split_char;
use crate::text_parse::str_eq;
use crate::text_parse::ends_with;
use crate::text_parse::strings_view;

verus! {

/// How many evaluation steps a single render may take before it is aborted
/// with a template-parse error: the interpreter has no other defence against
/// a template whose substitutions never terminate.
pub const RENDER_FUEL: u64 = 0x1000_0000_0000_0000;

/// The templates a render may include, as a mapping from relative path to
/// file content. The process hands the file contents over before rendering
/// starts; the first entry with a given path wins.
pub struct TemplateStore {
    pub entries: Vec<(String, String)>,
}

impl View for TemplateStore {
    type V = Seq<(Seq<char>, Seq<char>)>;

    open spec fn view(&self) -> Seq<(Seq<char>, Seq<char>)> {
        Seq::new(self.entries@.len(), |i: int| (self.entries@[i].0@, self.entries@[i].1@))
    }
}

/// The content stored under `path`: the first entry with that path, if any.
pub open spec fn spec_template_lookup(
    templates: Seq<(Seq<char>, Seq<char>)>,
    path: Seq<char>,
) -> Option<Seq<char>>
    decreases templates.len(),
{
    if templates.len() == 0 {
        None
    } else if templates[0].0 == path {
        Some(templates[0].1)
    } else {
        spec_template_lookup(templates.drop_first(), path)
    }
}

impl TemplateStore {
    /// A store with no templates.
    pub fn new() -> (r: Self)
        ensures
            r@ == Seq::<(Seq<char>, Seq<char>)>::empty(),
    {
        let r = TemplateStore { entries: Vec::new() };
        proof {
            assert(r@ =~= Seq::<(Seq<char>, Seq<char>)>::empty());
        }
        r
    }

    /// Makes `content` available under `path`.
    pub fn add(&mut self, path: String, content: String)
        ensures
            final(self)@ == old(self)@.push((path@, content@)),
    {
        let ghost p = path@;
        let ghost c = content@;
        self.entries.push((path, content));
        proof {
            assert(self@ =~= old(self)@.push((p, c)));
        }
    }

    /// The content stored under `path`, if any.
    pub fn lookup(&self, path: &str) -> (r: Option<&String>)
        ensures
            match spec_template_lookup(self@, path@) {
                Some(c) => r is Some && r->0@ == c,
                None => r is None,
            },
    {
        proof {
            assert(self@.subrange(0, self@.len() as int) =~= self@);
        }
        let mut i: usize = 0;
        while i < self.entries.len()
            invariant
                0 <= i <= self.entries.len(),
                self@.len() == self.entries@.len(),
                spec_template_lookup(self@, path@) == spec_template_lookup(
                    self@.subrange(i as int, self@.len() as int),
                    path@,
                ),
            decreases self.entries.len() - i,
        {
            proof {
                let rest = self@.subrange(i as int, self@.len() as int);
                assert(rest[0] == self@[i as int]);
                assert(rest.drop_first() =~= self@.subrange(i + 1, self@.len() as int));
            }
            if str_eq(self.entries[i].0.as_str(), path) {
                return Some(&self.entries[i].1);
            }
            i = i + 1;
        }
        None
    }
}

impl Clone for TemplateStore {
    fn clone(&self) -> (r: Self)
        ensures
            r@ == self@,
    {
        let mut out: Vec<(String, String)> = Vec::new();
        let mut i: usize = 0;
        while i < self.entries.len()
            invariant
                0 <= i <= self.entries.len(),
                out@.len() == i,
                forall|j: int| 0 <= j < i ==> #[trigger] out@[j].0@ == self.entries@[j].0@
                    && out@[j].1@ == self.entries@[j].1@,
            decreases self.entries.len() - i,
        {
            out.push((self.entries[i].0.clone(), self.entries[i].1.clone()));
            i = i + 1;
        }
        let r = TemplateStore { entries: out };
        proof {
            assert(r@ =~= self@);
        }
        r
    }
}

/// What a render has access to besides the document and the context: the
/// caller-registered custom operations, and the template files a component
/// inclusion may load.
pub struct RenderOptions {
    pub custom_operations: Vec<(String, CustomOperation)>,
    pub templates: TemplateStore,
}

/// The mathematical value of [`RenderOptions`].
pub struct OptionsModel {
    pub customs: Seq<(Seq<char>, CustomOperation)>,
    pub templates: Seq<(Seq<char>, Seq<char>)>,
}

impl View for RenderOptions {
    type V = OptionsModel;

    open spec fn view(&self) -> OptionsModel {
        OptionsModel { customs: customs_view(self.custom_operations@), templates: self.templates@ }
    }
}

impl RenderOptions {
    /// Options with no custom operations and no templates.
    pub fn empty() -> (r: Self)
        ensures
            r@.customs == Seq::<(Seq<char>, CustomOperation)>::empty(),
            r@.templates == Seq::<(Seq<char>, Seq<char>)>::empty(),
    {
        let r = RenderOptions { custom_operations: Vec::new(), templates: TemplateStore::new() };
        proof {
            assert(r@.customs =~= Seq::<(Seq<char>, CustomOperation)>::empty());
        }
        r
    }
}

/// The result of converting Markdown text to HTML with the GitHub-flavored
/// options: named here, defined by the conversion itself.
pub uninterp spec fn gfm_html_of(s: Seq<char>) -> Seq<char>;

/// Relies on markdown::to_html_with_options with Options::gfm(): the
/// resulting HTML depends on the input text alone, and with non-MDX options
/// the conversion never fails, so the error branch is never taken.
#[verifier::external_body]
fn markdown_to_html_gfm(s: &str) -> (r: String)
    ensures
        r@ == gfm_html_of(s@),
{
    markdown::to_html_with_options(s, &markdown::Options::gfm()).unwrap_or_default()
}

/// The scope after resolving one `key=attribute.path` component parameter
/// after another into an initially empty scope; a malformed pair (not
/// exactly one `=`) is skipped, an unresolved attribute path is an error.
pub open spec fn spec_params_ctx(
    orig: Seq<(Seq<char>, TreeModel)>,
    params: Seq<Seq<char>>,
    acc: Seq<(Seq<char>, TreeModel)>,
) -> Result<Seq<(Seq<char>, TreeModel)>, ErrorKind>
    decreases params.len(),
{
    if params.len() == 0 {
        Ok(acc)
    } else {
        let parts = spec_split(params[0], '=');
        if parts.len() != 2 {
            spec_params_ctx(orig, params.drop_first(), acc)
        } else {
            match spec_attr_resolve(orig, spec_split(parts[1], '.')) {
                None => Err(ErrorKind::InvalidParams),
                Some(v) => spec_params_ctx(
                    orig,
                    params.drop_first(),
                    spec_insert(acc, parts[0], v),
                ),
            }
        }
    }
}

/// The scope and slot count after scanning a component's child block for
/// top-level slot operations: each slot found binds its name to its raw
/// content as a slot value, and the scanned region is removed (the removal
/// keeps the final character of the closing marker, as the scan only needs
/// the remaining text for further matches). A slot operation without exactly
/// one parameter is an error; any other operation region is removed and
/// ignored.
pub open spec fn spec_collect_slots(
    content: Seq<char>,
    ctx: Seq<(Seq<char>, TreeModel)>,
) -> Result<(Seq<(Seq<char>, TreeModel)>, int), ErrorKind>
    decreases content.len(),
    via spec_collect_slots_decreases
{
    match spec_between(content, op_open(), op_close()) {
        None => Ok((ctx, 0)),
        Some(fc) => {
            let inner = content.subrange(fc.0 + 2, fc.1);
            let rest = content.subrange(0, fc.0) + content.subrange(
                fc.1 + 1,
                content.len() as int,
            );
            match spec_op_call(inner) {
                Some(call) => if call.name == "slot"@ {
                    if call.parameters.len() != 1 {
                        Err(ErrorKind::InvalidParams)
                    } else {
                        let slot_content = match call.children {
                            Some(c) => c,
                            None => Seq::empty(),
                        };
                        match spec_collect_slots(
                            rest,
                            spec_insert(
                                ctx,
                                call.parameters[0],
                                TreeModel::Slot(PrimModel::Str(slot_content)),
                            ),
                        ) {
                            Ok((e, n)) => Ok((e, n + 1)),
                            Err(k) => Err(k),
                        }
                    }
                } else {
                    spec_collect_slots(rest, ctx)
                },
                None => spec_collect_slots(rest, ctx),
            }
        },
    }
}

#[via_fn]
proof fn spec_collect_slots_decreases(content: Seq<char>, ctx: Seq<(Seq<char>, TreeModel)>) {
    match spec_between(content, op_open(), op_close()) {
        None => {},
        Some(fc) => {
            assert(op_open()[0] == '{');
            assert(op_close()[0] == '*');
            assert(op_open() != op_close());
            lemma_scan_props(content, op_open(), op_close(), 0, 0, None);
        },
    }
}

/// One evaluation step budget short of forever: what the interpreter
/// answers when its step budget runs out.
pub open spec fn spec_fuel_error() -> Result<Seq<char>, ErrorKind> {
    Err(ErrorKind::ParseTemplate)
}

/// The rendered document: from `offset` on, the next outermost operation
/// region is found, parsed, resolved, dispatched, and its output spliced
/// over the region; rendering then resumes at the start of the spliced
/// text, so the literal text before it is never rescanned. A document with
/// no further region is finished. An unparsable region, an unresolved
/// operation name, or a failing handler aborts the evaluation with that
/// error, and an evaluation that runs out of steps aborts with a
/// template-parse error.
pub open spec fn spec_render(
    content: Seq<char>,
    offset: int,
    ctx: Seq<(Seq<char>, TreeModel)>,
    opts: OptionsModel,
    fuel: nat,
) -> Result<Seq<char>, ErrorKind>
    decreases fuel, 4int, 0int,
{
    if fuel == 0 {
        spec_fuel_error()
    } else {
        let tail = content.subrange(offset, content.len() as int);
        match spec_between(tail, op_open(), op_close()) {
            None => Ok(content),
            Some(fc) => {
                let from = offset + fc.0;
                let to = offset + fc.1 + 1;
                let inner = tail.subrange(fc.0 + 2, fc.1);
                match spec_op_call(inner) {
                    None => Err(ErrorKind::ParseTemplate),
                    Some(call) => match spec_get_operation(call.name, opts.customs) {
                        None => Err(ErrorKind::ParseTemplate),
                        Some(op) => match spec_dispatch(op, call, ctx, opts, (fuel - 1) as nat) {
                            Err(k) => Err(k),
                            Ok(replacement) => spec_render(
                                content.subrange(0, from) + replacement + content.subrange(
                                    to + 1,
                                    content.len() as int,
                                ),
                                from,
                                ctx,
                                opts,
                                (fuel - 1) as nat,
                            ),
                        },
                    },
                }
            },
        }
    }
}

/// The output of one operation: the built-ins first, then the registered
/// custom operations.
pub open spec fn spec_dispatch(
    op: TemplateOperation,
    call: CallModel,
    ctx: Seq<(Seq<char>, TreeModel)>,
    opts: OptionsModel,
    fuel: nat,
) -> Result<Seq<char>, ErrorKind>
    decreases fuel, 3int, 0int,
{
    match op {
        TemplateOperation::Get => spec_attribute_op(call, ctx),
        TemplateOperation::If => spec_if_op(call, ctx),
        TemplateOperation::Slot => spec_slot_op(call, ctx),
        TemplateOperation::Comment => spec_comment_op(),
        TemplateOperation::For => spec_for_op(call, ctx, opts, fuel),
        TemplateOperation::Component => spec_component_op(call, ctx, opts, fuel),
        TemplateOperation::Custom(CustomOperation::Markdown) => spec_markdown_op(
            call,
            ctx,
            opts,
            fuel,
        ),
    }
}

/// What the iteration operation renders: its three parameters must be a
/// binding name, the word `in`, and an attribute path resolving to an array;
/// a child block is required. Each element is bound to the name in a copy of
/// the scope and the child block rendered with it, the results concatenated
/// in array order. The scope itself is never changed.
pub open spec fn spec_for_op(
    call: CallModel,
    ctx: Seq<(Seq<char>, TreeModel)>,
    opts: OptionsModel,
    fuel: nat,
) -> Result<Seq<char>, ErrorKind>
    decreases fuel, 2int, 0int,
{
    if call.parameters.len() != 3 {
        Err(ErrorKind::InvalidParams)
    } else if call.parameters[1] != "in"@ {
        Err(ErrorKind::InvalidParams)
    } else {
        match spec_attr_resolve(ctx, spec_split(call.parameters[2], '.')) {
            None => Err(ErrorKind::InvalidParams),
            Some(TreeModel::Array(elems)) => match call.children {
                None => Err(ErrorKind::InvalidParams),
                Some(children) => spec_for_iter(
                    children,
                    elems,
                    ctx,
                    call.parameters[0],
                    opts,
                    fuel,
                ),
            },
            Some(_) => Err(ErrorKind::InvalidParams),
        }
    }
}

/// The concatenation of the child block rendered once per element, each time
/// with the element bound to the binding name in a copy of the scope.
pub open spec fn spec_for_iter(
    children: Seq<char>,
    elems: Seq<TreeModel>,
    ctx: Seq<(Seq<char>, TreeModel)>,
    name: Seq<char>,
    opts: OptionsModel,
    fuel: nat,
) -> Result<Seq<char>, ErrorKind>
    decreases fuel, 1int, elems.len(),
{
    if elems.len() == 0 {
        Ok(Seq::empty())
    } else if fuel == 0 {
        spec_fuel_error()
    } else {
        match spec_render(children, 0, spec_insert(ctx, name, elems[0]), opts, (fuel - 1) as nat) {
            Err(k) => Err(k),
            Ok(s) => match spec_for_iter(children, elems.drop_first(), ctx, name, opts, fuel) {
                Err(k) => Err(k),
                Ok(rest) => Ok(s + rest),
            },
        }
    }
}

/// What the component operation renders: its first parameter is a template
/// path that must end in `.html`. Further `key=attribute.path` parameters
/// replace the scope by one built solely from them; a child block registers
/// its top-level slots (or, with none, the whole block under the reserved
/// name `default`) and marks the scope as inside a component. The template
/// is then loaded and rendered with that scope.
pub open spec fn spec_component_op(
    call: CallModel,
    ctx: Seq<(Seq<char>, TreeModel)>,
    opts: OptionsModel,
    fuel: nat,
) -> Result<Seq<char>, ErrorKind>
    decreases fuel, 2int, 0int,
{
    if call.parameters.len() == 0 {
        Err(ErrorKind::InvalidParams)
    } else if !spec_ends_with(call.parameters[0], ".html"@) {
        Err(ErrorKind::InvalidParams)
    } else {
        let base = if call.parameters.len() > 1 {
            spec_params_ctx(
                ctx,
                call.parameters.drop_first(),
                Seq::<(Seq<char>, TreeModel)>::empty(),
            )
        } else {
            Ok(ctx)
        };
        match base {
            Err(k) => Err(k),
            Ok(base_ctx) => {
                let filled = match call.children {
                    None => Ok(base_ctx),
                    Some(children) => {
                        let marked = spec_insert(
                            base_ctx,
                            spec_inside_component_id(),
                            TreeModel::Leaf(PrimModel::Bool(true)),
                        );
                        match spec_collect_slots(children, marked) {
                            Err(k) => Err(k),
                            Ok((e, n)) => Ok(
                                if n == 0 {
                                    spec_insert(
                                        e,
                                        "default"@,
                                        TreeModel::Slot(PrimModel::Str(children)),
                                    )
                                } else {
                                    e
                                },
                            ),
                        }
                    },
                };
                match filled {
                    Err(k) => Err(k),
                    Ok(component_ctx) => if fuel == 0 {
                        spec_fuel_error()
                    } else {
                        spec_load(call.parameters[0], component_ctx, opts, (fuel - 1) as nat)
                    },
                }
            },
        }
    }
}

/// What the Markdown custom operation renders: its single parameter names a
/// template, either directly or through a string bound in the scope; the
/// template is loaded, rendered, and the result converted from Markdown to
/// HTML.
pub open spec fn spec_markdown_op(
    call: CallModel,
    ctx: Seq<(Seq<char>, TreeModel)>,
    opts: OptionsModel,
    fuel: nat,
) -> Result<Seq<char>, ErrorKind>
    decreases fuel, 2int, 0int,
{
    if call.parameters.len() != 1 {
        Err(ErrorKind::InvalidParams)
    } else {
        let path = match spec_lookup(ctx, call.parameters[0]) {
            Some(TreeModel::Leaf(PrimModel::Str(s))) => s,
            _ => call.parameters[0],
        };
        if fuel == 0 {
            spec_fuel_error()
        } else {
            match spec_load(path, ctx, opts, (fuel - 1) as nat) {
                Err(k) => Err(k),
                Ok(c) => Ok(gfm_html_of(c)),
            }
        }
    }
}

/// What loading a template renders: the stored content under the path,
/// rendered with the given scope; a path with no stored content is a
/// load-file error.
pub open spec fn spec_load(
    path: Seq<char>,
    ctx: Seq<(Seq<char>, TreeModel)>,
    opts: OptionsModel,
    fuel: nat,
) -> Result<Seq<char>, ErrorKind>
    decreases fuel, 5int, 0int,
{
    match spec_template_lookup(opts.templates, path) {
        None => Err(ErrorKind::LoadFile),
        Some(content) => spec_render(content, 0, ctx, opts, fuel),
    }
}

/// The scope a render starts from: the given one, or an empty scope.
pub open spec fn spec_context_of(context: Option<ContextMap>) -> Seq<(Seq<char>, TreeModel)> {
    match context {
        Some(c) => c@,
        None => Seq::empty(),
    }
}

/// For any text with no operation markers at all, the evaluator returns it
/// unchanged.
pub proof fn lemma_render_no_markers_unchanged(
    content: Seq<char>,
    offset: int,
    ctx: Seq<(Seq<char>, TreeModel)>,
    opts: OptionsModel,
    fuel: nat,
)
    requires
        fuel > 0,
        0 <= offset <= content.len(),
        forall|i: int| !is_match_at(content, op_open(), i),
    ensures
        spec_render(content, offset, ctx, opts, fuel) == Ok::<Seq<char>, ErrorKind>(content),
{
    let tail = content.subrange(offset, content.len() as int);
    assert forall|j: int| 0 <= j implies !is_match_at(tail, op_open(), j) by {
        if is_match_at(tail, op_open(), j) {
            assert(content.subrange(offset + j, offset + j + 2) =~= tail.subrange(j, j + 2));
            assert(is_match_at(content, op_open(), offset + j));
        }
    }
    lemma_scan_no_open_none(tail, op_open(), op_close(), 0);
    assert(op_open()[0] == '{');
    assert(op_close()[0] == '*');
    assert(op_open() != op_close());
    assert(spec_between(tail, op_open(), op_close()) is None);
}

} // verus!

verus! {

/// The outcome `r` with `prefix` prepended to a successful rendering.
pub open spec fn spec_prepend(prefix: Seq<char>, r: Result<Seq<char>, ErrorKind>) -> Result<
    Seq<char>,
    ErrorKind,
> {
    match r {
        Ok(s) => Ok(prefix + s),
        Err(k) => Err(k),
    }
}

/// Renders one document with a step budget, resuming scans at `min_look`.
fn render_with_fuel(
    content: String,
    min_look: usize,
    context: &ContextMap,
    options: &RenderOptions,
    fuel: u64,
) -> (r: WebResult<String>)
    requires
        min_look <= content@.len(),
    ensures
        res_matches(r, spec_render(content@, min_look as int, context@, options@, fuel as nat)),
    decreases fuel, 4int, 0int,
{
    if fuel == 0 {
        return Err(Error::ParseTemplate("template evaluation step budget exhausted".to_owned()));
    }
    let len = content.as_str().unicode_len();
    let tail: String = content.as_str().substring_char(min_look, len).to_owned();
    let ghost tail_view = content@.subrange(min_look as int, content@.len() as int);
    let mut result = match template_operation(tail.as_str()) {
        None => {
            return Ok(content);
        },
        Some(m) => m,
    };
    proof {
        assert(op_open()[0] == '{');
        assert(op_close()[0] == '*');
        assert(op_open() != op_close());
        lemma_scan_props(tail_view, op_open(), op_close(), 0, 0, None);
    }
    result.push(min_look);
    let op_call = match operation_params_and_children(result.content.as_str()) {
        Some(c) => c,
        None => {
            return Err(
                Error::ParseTemplate("Could not create operation from content".to_owned()),
            );
        },
    };
    let op = match get_template_operation(op_call.name.as_str(), &options.custom_operations) {
        Some(op) => op,
        None => {
            let mut msg: String = "No template operation specified for ".to_owned();
            msg.append(op_call.name.as_str());
            return Err(Error::ParseTemplate(msg));
        },
    };
    let replacement = match dispatch_operation(op, op_call, context, options, fuel - 1) {
        Ok(s) => s,
        Err(e) => {
            return Err(e);
        },
    };
    let new_content = splice(content.as_str(), result.from, result.to + 1, replacement.as_str());
    render_with_fuel(new_content, result.from, context, options, fuel - 1)
}

/// Runs one resolved operation.
fn dispatch_operation(
    op: TemplateOperation,
    call: TemplateOperationCall,
    context: &ContextMap,
    options: &RenderOptions,
    fuel: u64,
) -> (r: WebResult<String>)
    ensures
        res_matches(r, spec_dispatch(op, call@, context@, options@, fuel as nat)),
    decreases fuel, 3int, 0int,
{
    match op {
        TemplateOperation::Get => crate::operations::attribute_operation(call, context),
        TemplateOperation::If => crate::operations::if_operation(call, context),
        TemplateOperation::Slot => crate::operations::slot(call, context),
        TemplateOperation::Comment => crate::operations::comment_operation(call, context),
        TemplateOperation::For => for_loop_operation(call, context, options, fuel),
        TemplateOperation::Component => component_operation(call, context, options, fuel),
        TemplateOperation::Custom(CustomOperation::Markdown) => markdown_operation(
            call,
            context,
            options,
            fuel,
        ),
    }
}

/// Renders the child block once per element of the range array, binding the
/// element name in a copy of the scope each time; the scope itself is
/// untouched.
#[verifier::loop_isolation(false)]
pub fn for_loop_operation(
    call: TemplateOperationCall,
    context: &ContextMap,
    options: &RenderOptions,
    fuel: u64,
) -> (r: WebResult<String>)
    ensures
        res_matches(r, spec_for_op(call@, context@, options@, fuel as nat)),
    decreases fuel, 2int, 0int,
{
    broadcast use crate::context::group_context_model_axioms;

    if let Err(e) = crate::operations::unwrap_n_params(&call.parameters, 3) {
        return Err(e);
    }
    proof {
        assert(call@.parameters[0] == call.parameters@[0]@);
        assert(call@.parameters[1] == call.parameters@[1]@);
        assert(call@.parameters[2] == call.parameters@[2]@);
    }
    if !str_eq(call.parameters[1].as_str(), "in") {
        return Err(Error::InvalidParams("Expected a 'for element in range' form".to_owned()));
    }
    let range = match crate::operations::attribute_from_context(
        call.parameters[2].as_str(),
        context,
    ) {
        Err(e) => {
            return Err(e);
        },
        Ok(ContextTree::Array(arr)) => arr,
        Ok(_) => {
            return Err(Error::InvalidParams("Range has to be a context array".to_owned()));
        },
    };
    let children = match call.children {
        Some(children) => children,
        None => {
            return Err(
                Error::InvalidParams("A for loop needs to have children to iterate.".to_owned()),
            );
        },
    };
    let element = &call.parameters[0];
    let ghost elems = array_models(range@);
    let ghost name = element@;
    let ghost full = spec_for_iter(children@, elems, context@, name, options@, fuel as nat);
    proof {
        assert(elems.subrange(0, elems.len() as int) =~= elems);
    }
    let mut iterated_content = String::new();
    let mut i: usize = 0;
    while i < range.len()
        invariant
            0 <= i <= range@.len(),
            elems.len() == range@.len(),
            full == spec_prepend(
                iterated_content@,
                spec_for_iter(
                    children@,
                    elems.subrange(i as int, elems.len() as int),
                    context@,
                    name,
                    options@,
                    fuel as nat,
                ),
            ),
        decreases range@.len() - i,
    {
        proof {
            let rest = elems.subrange(i as int, elems.len() as int);
            assert(rest[0] == elems[i as int]);
            assert(rest.drop_first() =~= elems.subrange(i + 1, elems.len() as int));
            assert(elems[i as int] == tree_model(range@[i as int]));
        }
        if fuel == 0 {
            return Err(
                Error::ParseTemplate("template evaluation step budget exhausted".to_owned()),
            );
        }
        let mut new_context = context.clone();
        let item = range[i].clone();
        new_context.insert(element.clone(), item);
        match render_with_fuel(children.clone(), 0, &new_context, options, fuel - 1) {
            Err(e) => {
                return Err(e);
            },
            Ok(s) => {
                let ghost prev = iterated_content@;
                iterated_content.append(s.as_str());
                proof {
                    let rest2 = elems.subrange(i + 1, elems.len() as int);
                    let r2 = spec_for_iter(children@, rest2, context@, name, options@, fuel as nat);
                    if r2 is Ok {
                        assert(prev + (s@ + r2->Ok_0) =~= (prev + s@) + r2->Ok_0);
                    }
                }
            },
        }
        i = i + 1;
    }
    proof {
        assert(elems.subrange(i as int, elems.len() as int).len() == 0);
        assert(iterated_content@ + Seq::<char>::empty() =~= iterated_content@);
    }
    Ok(iterated_content)
}

/// Loads another template by path, with a scope built from the component's
/// parameters and its slot-bearing child block, and renders it.
#[verifier::loop_isolation(false)]
#[verifier::rlimit(100)]
#[verifier::spinoff_prover]
pub fn component_operation(
    call: TemplateOperationCall,
    context: &ContextMap,
    options: &RenderOptions,
    fuel: u64,
) -> (r: WebResult<String>)
    ensures
        res_matches(r, spec_component_op(call@, context@, options@, fuel as nat)),
    decreases fuel, 2int, 0int,
{
    let ghost cm = call@;
    let parameters = call.parameters;
    if parameters.len() == 0 {
        return Err(Error::InvalidParams("File path not specified".to_owned()));
    }
    proof {
        assert(forall|j: int| 0 <= j < parameters@.len() ==> cm.parameters[j] == #[trigger] parameters@[j]@);
    }
    if !ends_with(parameters[0].as_str(), ".html") {
        return Err(Error::InvalidParams("Invalid file path".to_owned()));
    }
    let file_path = parameters[0].clone();
    let mut new_context = context.clone();
    if parameters.len() > 1 {
        new_context = ContextMap::new();
        let ghost target = spec_params_ctx(
            context@,
            cm.parameters.drop_first(),
            Seq::<(Seq<char>, TreeModel)>::empty(),
        );
        proof {
            assert(cm.parameters.subrange(1, cm.parameters.len() as int) =~= cm.parameters.drop_first());
        }
        let mut i: usize = 1;
        while i < parameters.len()
            invariant
                1 <= i <= parameters@.len(),
                cm.parameters.len() == parameters@.len(),
                forall|j: int| 0 <= j < parameters@.len() ==> cm.parameters[j] == #[trigger] parameters@[j]@,
                target == spec_params_ctx(
                    context@,
                    cm.parameters.subrange(i as int, cm.parameters.len() as int),
                    new_context@,
                ),
                target == spec_params_ctx(
                    context@,
                    cm.parameters.drop_first(),
                    Seq::<(Seq<char>, TreeModel)>::empty(),
                ),
            decreases parameters@.len() - i,
        {
            proof {
                let rest = cm.parameters.subrange(i as int, cm.parameters.len() as int);
                assert(rest[0] == cm.parameters[i as int]);
                assert(rest.drop_first() =~= cm.parameters.subrange(
                    i + 1,
                    cm.parameters.len() as int,
                ));
            }
            let parts = split_char(parameters[i].as_str(), '=');
            proof {
                assert(strings_view(parts@) == spec_split(parameters@[i as int]@, '='));
            }
            if parts.len() == 2 {
                proof {
                    assert(parts@[0]@ == spec_split(parameters@[i as int]@, '=')[0]);
                    assert(parts@[1]@ == spec_split(parameters@[i as int]@, '=')[1]);
                }
                let item = match crate::operations::attribute_from_context(
                    parts[1].as_str(),
                    context,
                ) {
                    Err(e) => {
                        return Err(e);
                    },
                    Ok(item) => item,
                };
                new_context.insert(parts[0].clone(), item);
            }
            i = i + 1;
        }
        proof {
            assert(cm.parameters.subrange(i as int, cm.parameters.len() as int).len() == 0);
        }
    }
    let mut slot_count: usize = 0;
    if let Some(children) = call.children {
        new_context.insert(
            crate::operations::inside_component_id().to_owned(),
            ContextTree::Leaf(Primitive::Bool(true)),
        );
        let ghost marked = new_context@;
        let ghost target_slots = spec_collect_slots(children@, marked);
        let children_len = children.as_str().unicode_len();
        let mut content_w_slots: String = children.clone();
        loop
            invariant
                slot_count + content_w_slots@.len() <= children@.len(),
                match spec_collect_slots(content_w_slots@, new_context@) {
                    Ok((e, n)) => target_slots == Ok::<(Seq<(Seq<char>, TreeModel)>, int), ErrorKind>(
                        (e, n + slot_count),
                    ),
                    Err(k) => target_slots == Err::<(Seq<(Seq<char>, TreeModel)>, int), ErrorKind>(
                        k,
                    ),
                },
            decreases content_w_slots@.len(),
        {
            let op = match template_operation(content_w_slots.as_str()) {
                None => {
                    break ;
                },
                Some(op) => op,
            };
            proof {
                reveal_strlit("");
                assert(""@ =~= Seq::<char>::empty());
                assert(op_open()[0] == '{');
                assert(op_close()[0] == '*');
                assert(op_open() != op_close());
                lemma_scan_props(content_w_slots@, op_open(), op_close(), 0, 0, None);
            }
            if let Some(operation_call) = operation_params_and_children(op.content.as_str()) {
                if str_eq(operation_call.name.as_str(), "slot") {
                    if let Err(e) = crate::operations::unwrap_n_params(
                        &operation_call.parameters,
                        1,
                    ) {
                        return Err(e);
                    }
                    proof {
                        assert(operation_call@.parameters[0] == operation_call.parameters@[0]@);
                    }
                    let slot_name = operation_call.parameters[0].clone();
                    let slot_content = match operation_call.children {
                        Some(c) => c,
                        None => String::new(),
                    };
                    new_context.insert(slot_name, ContextTree::Slot(Primitive::Str(slot_content)));
                    slot_count = slot_count + 1;
                }
            }
            content_w_slots = splice(content_w_slots.as_str(), op.from, op.to, "");
        }
        if slot_count == 0 {
            new_context.insert("default".to_owned(), ContextTree::Slot(Primitive::Str(children)));
        }
    }
    if fuel == 0 {
        return Err(Error::ParseTemplate("template evaluation step budget exhausted".to_owned()));
    }
    load_template_with_fuel(file_path.as_str(), new_context, options, fuel - 1)
}

/// Loads the named template, renders it, and converts the result from
/// Markdown to HTML.
pub fn markdown_operation(
    call: TemplateOperationCall,
    context: &ContextMap,
    options: &RenderOptions,
    fuel: u64,
) -> (r: WebResult<String>)
    ensures
        res_matches(r, spec_markdown_op(call@, context@, options@, fuel as nat)),
    decreases fuel, 2int, 0int,
{
    if let Err(e) = crate::operations::unwrap_n_params(&call.parameters, 1) {
        return Err(e);
    }
    proof {
        assert(call@.parameters[0] == call.parameters@[0]@);
    }
    let file_path = &call.parameters[0];
    let path: String = match context.get(file_path.as_str()) {
        Some(ContextTree::Leaf(Primitive::Str(s))) => s.clone(),
        _ => file_path.clone(),
    };
    if fuel == 0 {
        return Err(Error::ParseTemplate("template evaluation step budget exhausted".to_owned()));
    }
    match load_template_with_fuel(path.as_str(), context.clone(), options, fuel - 1) {
        Err(e) => Err(e),
        Ok(c) => Ok(markdown_to_html_gfm(c.as_str())),
    }
}

/// Renders the stored template under `path` with the given scope.
fn load_template_with_fuel(
    path: &str,
    context: ContextMap,
    options: &RenderOptions,
    fuel: u64,
) -> (r: WebResult<String>)
    ensures
        res_matches(r, spec_load(path@, context@, options@, fuel as nat)),
    decreases fuel, 5int, 0int,
{
    let content = match options.templates.lookup(path) {
        Some(c) => c.clone(),
        None => {
            let mut msg: String = "Could not read file ".to_owned();
            msg.append(path);
            return Err(Error::LoadFile(msg));
        },
    };
    render_with_fuel(content, 0, &context, options, fuel)
}

/// Turns a document with template operations into its final text, using the
/// given scope for data access. Operations are found and spliced leftmost,
/// outermost first; already-emitted text before the splice point is never
/// rescanned.
pub fn render_html(content: String, context: Option<ContextMap>, options: &RenderOptions) -> (r:
    WebResult<String>)
    ensures
        res_matches(
            r,
            spec_render(content@, 0, spec_context_of(context), options@, RENDER_FUEL as nat),
        ),
{
    let ctx = match context {
        Some(c) => c,
        None => ContextMap::new(),
    };
    render_with_fuel(content, 0, &ctx, options, RENDER_FUEL)
}

/// Renders the stored template under `path` with the given scope; a path
/// with no stored content is a load-file error.
pub fn load_template(path: &str, context: Option<ContextMap>, options: &RenderOptions) -> (r:
    WebResult<String>)
    ensures
        res_matches(
            r,
            spec_load(path@, spec_context_of(context), options@, RENDER_FUEL as nat),
        ),
{
    let ctx = match context {
        Some(c) => c,
        None => ContextMap::new(),
    };
    load_template_with_fuel(path, ctx, options, RENDER_FUEL)
}

} // verus!
