//! Parsing one operation region into a call — a name, parameters, and an
//! optional child block — and the built-in operation vocabulary that needs no
//! recursion into the evaluator: attribute lookup, conditionals, slots, and
//! comments.
use vstd::prelude::*;
use vstd::string::StrSliceExecFns;
use vstd::string::StringExecFns;
use crate::context::ContextMap;
use crate::context::ContextTree;
use crate::context::TreeModel;
use crate::context::PrimModel;
use crate::context::spec_lookup;
use crate::context::spec_prim_text;
use crate::context::tree_model;
use crate::error::Error;
use crate::error::ErrorKind;
use crate::error::WebResult;
use crate::numbers::u64_to_string;
use crate::text_parse::Match;
use crate::text_parse::between_connected_patterns;
use crate::text_parse::spec_between;
use crate::text_parse::spec_split;
use crate::text_parse::spec_trim;
use crate::text_parse::split_char;
use crate::text_parse::splice;
use crate::text_parse::str_eq;
use crate::text_parse::strings_view;
use crate::text_parse::trim;

verus! {

/// The opening marker of an operation region.
pub open spec fn op_open() -> Seq<char> {
    seq!['{', '*']
}

/// The closing marker of an operation region.
pub open spec fn op_close() -> Seq<char> {
    seq!['*', '}']
}

/// The opening marker of a child block inside an operation region.
pub open spec fn child_open() -> Seq<char> {
    seq!['{']
}

/// The closing marker of a child block inside an operation region.
pub open spec fn child_close() -> Seq<char> {
    seq!['}']
}

/// Finds the first outermost operation region of `content`.
pub fn template_operation(content: &str) -> (r: Option<Match>)
    ensures
        match spec_between(content@, op_open(), op_close()) {
            Some(fc) => r is Some && r->0.from == fc.0 && r->0.to == fc.1 + 1 && r->0.content@
                == content@.subrange(fc.0 + 2, fc.1),
            None => r is None,
        },
{
    proof {
        reveal_strlit("{*");
        reveal_strlit("*}");
        assert("{*"@ =~= op_open());
        assert("*}"@ =~= op_close());
    }
    between_connected_patterns(content, "{*", "*}")
}

/// One parsed operation invocation: its name, its space-separated
/// parameters, and the raw text of its child block, if any.
pub struct TemplateOperationCall {
    pub name: String,
    pub parameters: Vec<String>,
    pub children: Option<String>,
}

/// The mathematical value of a [`TemplateOperationCall`].
pub struct CallModel {
    pub name: Seq<char>,
    pub parameters: Seq<Seq<char>>,
    pub children: Option<Seq<char>>,
}

impl View for TemplateOperationCall {
    type V = CallModel;

    open spec fn view(&self) -> CallModel {
        CallModel {
            name: self.name@,
            parameters: strings_view(self.parameters@),
            children: match self.children {
                Some(c) => Some(c@),
                None => None,
            },
        }
    }
}

/// The head of an operation region parsed without a child block: trimmed,
/// split on spaces; the first token is the name (empty name means no
/// operation), the remaining tokens are the parameters.
pub open spec fn spec_childless_call(op_content: Seq<char>) -> Option<CallModel> {
    let tokens = spec_split(spec_trim(op_content), ' ');
    if tokens[0].len() == 0 {
        None
    } else {
        Some(CallModel { name: tokens[0], parameters: tokens.drop_first(), children: None })
    }
}

fn childless_templ_op_call(op_content: &str) -> (r: Option<TemplateOperationCall>)
    ensures
        match spec_childless_call(op_content@) {
            Some(c) => r is Some && r->0@ == c,
            None => r is None,
        },
{
    let trimmed = trim(op_content);
    let mut tokens = split_char(trimmed.as_str(), ' ');
    let ghost spec_tokens = spec_split(spec_trim(op_content@), ' ');
    proof {
        assert(spec_tokens[0] == strings_view(tokens@)[0]);
    }
    if tokens[0].as_str().is_empty() {
        return None;
    }
    let name = tokens.remove(0);
    proof {
        assert(strings_view(tokens@) =~= spec_tokens.drop_first());
    }
    Some(TemplateOperationCall { name, parameters: tokens, children: None })
}

/// An operation region's content parsed into a call: a child block delimited
/// by a balanced `{ ... }` pair, if present, is stripped out of the head and
/// kept raw; the remaining head text gives the name and the parameters.
pub open spec fn spec_op_call(operation: Seq<char>) -> Option<CallModel> {
    match spec_between(operation, child_open(), child_close()) {
        Some(fc) => {
            let remaining = operation.subrange(0, fc.0) + operation.subrange(
                fc.1 + 1,
                operation.len() as int,
            );
            let children = operation.subrange(fc.0 + 1, fc.1);
            match spec_childless_call(remaining) {
                None => None,
                Some(call) => Some(
                    CallModel {
                        name: call.name,
                        parameters: call.parameters,
                        children: Some(children),
                    },
                ),
            }
        },
        None => spec_childless_call(operation),
    }
}

/// Parses the inner content of one matched operation region into a call.
pub fn operation_params_and_children(operation: &str) -> (r: Option<TemplateOperationCall>)
    ensures
        match spec_op_call(operation@) {
            Some(c) => r is Some && r->0@ == c,
            None => r is None,
        },
{
    proof {
        reveal_strlit("{");
        reveal_strlit("}");
        reveal_strlit("");
        assert("{"@ =~= child_open());
        assert("}"@ =~= child_close());
        assert(""@ =~= Seq::<char>::empty());
    }
    let find = match between_connected_patterns(operation, "{", "}") {
        Some(find) => find,
        None => {
            return childless_templ_op_call(operation);
        },
    };
    proof {
        assert(child_open()[0] == '{');
        assert(child_close()[0] == '}');
        assert(child_open() != child_close());
        crate::text_parse::lemma_scan_props(operation@, child_open(), child_close(), 0, 0, None);
    }
    let oplen = operation.unicode_len();
    let remaining = splice(operation, find.from, find.to + 1, "");
    proof {
        let fc = spec_between(operation@, child_open(), child_close())->0;
        assert(remaining@ =~= operation@.subrange(0, fc.0) + operation@.subrange(
            fc.1 + 1,
            operation@.len() as int,
        ));
    }
    let op_call = match childless_templ_op_call(remaining.as_str()) {
        None => {
            return None;
        },
        Some(mut op_call) => {
            op_call.children = Some(find.content);
            op_call
        },
    };
    Some(op_call)
}

/// An operation that a caller registers by name, checked after the
/// built-ins. The registerable operations form this closed set rather than
/// arbitrary caller-supplied functions: a stored function value has no
/// contract the verifier could hold its callers to, so each extension
/// operation is a verified variant here instead.
#[derive(Clone, Copy, PartialEq, Eq, Structural, Debug)]
pub enum CustomOperation {
    /// Load the named template, render it, and convert the result from
    /// Markdown to HTML.
    Markdown,
}

/// One of the built-in template operations, or a registered custom one.
#[derive(Clone, Copy, PartialEq, Eq, Structural, Debug)]
pub enum TemplateOperation {
    Get,
    For,
    If,
    Component,
    Slot,
    Comment,
    Custom(CustomOperation),
}

/// The views of a registry of named custom operations.
pub open spec fn customs_view(v: Seq<(String, CustomOperation)>) -> Seq<(Seq<char>, CustomOperation)> {
    Seq::new(v.len(), |i: int| (v[i].0@, v[i].1))
}

/// The custom operation registered under `name`: the first entry with that
/// name, if any.
pub open spec fn spec_lookup_custom(
    customs: Seq<(Seq<char>, CustomOperation)>,
    name: Seq<char>,
) -> Option<CustomOperation>
    decreases customs.len(),
{
    if customs.len() == 0 {
        None
    } else if customs[0].0 == name {
        Some(customs[0].1)
    } else {
        spec_lookup_custom(customs.drop_first(), name)
    }
}

/// The operation resolved for a name: built-ins first, then the custom
/// registry; an unknown name resolves to nothing.
pub open spec fn spec_get_operation(
    name: Seq<char>,
    customs: Seq<(Seq<char>, CustomOperation)>,
) -> Option<TemplateOperation> {
    if name == "get"@ {
        Some(TemplateOperation::Get)
    } else if name == "for"@ {
        Some(TemplateOperation::For)
    } else if name == "if"@ {
        Some(TemplateOperation::If)
    } else if name == "component"@ {
        Some(TemplateOperation::Component)
    } else if name == "slot"@ {
        Some(TemplateOperation::Slot)
    } else if name == "comment"@ {
        Some(TemplateOperation::Comment)
    } else {
        match spec_lookup_custom(customs, name) {
            Some(c) => Some(TemplateOperation::Custom(c)),
            None => None,
        }
    }
}

/// Resolves an operation name: built-ins first, then the custom registry.
#[verifier::loop_isolation(false)]
pub fn get_template_operation(op_name: &str, custom_operations: &Vec<(String, CustomOperation)>) -> (r:
    Option<TemplateOperation>)
    ensures
        r == spec_get_operation(op_name@, customs_view(custom_operations@)),
{
    if str_eq(op_name, "get") {
        return Some(TemplateOperation::Get);
    }
    if str_eq(op_name, "for") {
        return Some(TemplateOperation::For);
    }
    if str_eq(op_name, "if") {
        return Some(TemplateOperation::If);
    }
    if str_eq(op_name, "component") {
        return Some(TemplateOperation::Component);
    }
    if str_eq(op_name, "slot") {
        return Some(TemplateOperation::Slot);
    }
    if str_eq(op_name, "comment") {
        return Some(TemplateOperation::Comment);
    }
    let ghost customs = customs_view(custom_operations@);
    proof {
        assert(customs.subrange(0, customs.len() as int) =~= customs);
    }
    let mut i: usize = 0;
    while i < custom_operations.len()
        invariant
            0 <= i <= custom_operations.len(),
            customs == customs_view(custom_operations@),
            customs.len() == custom_operations@.len(),
            spec_lookup_custom(customs, op_name@) == spec_lookup_custom(
                customs.subrange(i as int, customs.len() as int),
                op_name@,
            ),
        decreases custom_operations.len() - i,
    {
        proof {
            let rest = customs.subrange(i as int, customs.len() as int);
            assert(rest[0] == customs[i as int]);
            assert(rest.drop_first() =~= customs.subrange(i + 1, customs.len() as int));
        }
        if str_eq(custom_operations[i].0.as_str(), op_name) {
            proof {
                let rest = customs.subrange(i as int, customs.len() as int);
                assert(customs[i as int] == (
                    custom_operations@[i as int].0@,
                    custom_operations@[i as int].1,
                ));
                assert(rest[0].0 == op_name@);
                assert(spec_lookup_custom(rest, op_name@) == Some(rest[0].1));
            }
            return Some(TemplateOperation::Custom(custom_operations[i].1));
        }
        i = i + 1;
    }
    None
}

/// Checks that a call carries exactly `n` parameters.
pub fn unwrap_n_params(params: &Vec<String>, n: usize) -> (r: WebResult<()>)
    ensures
        r is Ok <==> params@.len() == n,
        r is Err ==> r->Err_0.spec_kind() == ErrorKind::InvalidParams,
{
    if params.len() == n {
        Ok(())
    } else {
        let mut msg: String = "Expected ".to_owned();
        msg.append(u64_to_string(n as u64).as_str());
        msg.append(" parameters, got ");
        msg.append(u64_to_string(params.len() as u64).as_str());
        Err(Error::InvalidParams(msg))
    }
}

/// The value that a dotted attribute path resolves to, if any. Each segment
/// is looked up in the current scope; a branch is descended into (unless the
/// segment is the last, which returns the branch intact), any other value
/// leaves the scope unchanged, and the last segment's value is the result.
/// An absent segment resolves to nothing.
pub open spec fn spec_attr_resolve(
    ctx: Seq<(Seq<char>, TreeModel)>,
    segs: Seq<Seq<char>>,
) -> Option<TreeModel>
    decreases segs.len(),
{
    if segs.len() == 0 {
        None
    } else {
        match spec_lookup(ctx, segs[0]) {
            None => None,
            Some(v) => if segs.len() == 1 {
                Some(v)
            } else {
                match v {
                    TreeModel::Branch(b) => spec_attr_resolve(b, segs.drop_first()),
                    _ => spec_attr_resolve(ctx, segs.drop_first()),
                }
            },
        }
    }
}

/// Resolves a dotted attribute path in a scope.
pub fn attribute_from_context(attribute: &str, context: &ContextMap) -> (r: WebResult<ContextTree>)
    ensures
        match spec_attr_resolve(context@, spec_split(attribute@, '.')) {
            Some(m) => r is Ok && tree_model(r->Ok_0) == m,
            None => r is Err && r->Err_0.spec_kind() == ErrorKind::InvalidParams,
        },
{
    let segments = split_char(attribute, '.');
    let ghost segs = spec_split(attribute@, '.');
    let n = segments.len();
    let mut current: ContextMap = context.clone();
    proof {
        assert(segs.subrange(0, segs.len() as int) =~= segs);
        assert(strings_view(segments@).len() == segs.len());
    }
    let mut i: usize = 0;
    while i < n
        invariant
            0 <= i <= n,
            n == segments@.len(),
            segs == spec_split(attribute@, '.'),
            segs.len() == n,
            forall|j: int| 0 <= j < n ==> #[trigger] segs[j] == segments@[j]@,
            spec_attr_resolve(context@, segs) == spec_attr_resolve(
                current@,
                segs.subrange(i as int, segs.len() as int),
            ),
        decreases n - i,
    {
        proof {
            let rest = segs.subrange(i as int, segs.len() as int);
            assert(rest[0] == segs[i as int]);
            assert(rest.drop_first() =~= segs.subrange(i + 1, segs.len() as int));
        }
        let next: Option<ContextMap> = match current.get(segments[i].as_str()) {
            None => {
                let mut msg: String = "Invalid attribute: ".to_owned();
                msg.append(attribute);
                msg.append(" not found in context");
                return Err(Error::InvalidParams(msg));
            },
            Some(t) => {
                if i == n - 1 {
                    return Ok(t.clone());
                }
                match t {
                    ContextTree::Branch(b) => Some(b.clone()),
                    _ => None,
                }
            },
        };
        if let Some(b) = next {
            current = b;
        }
        i = i + 1;
    }
    proof {
        assert(segs.subrange(i as int, segs.len() as int).len() == 0);
    }
    let mut msg: String = "Attribute ".to_owned();
    msg.append(attribute);
    msg.append(" not found in context");
    Err(Error::InvalidParams(msg))
}

/// Whether an executed handler's outcome is the one the specification gives:
/// the same rendered text on success, an error of the same kind on failure.
pub open spec fn res_matches(r: WebResult<String>, m: Result<Seq<char>, ErrorKind>) -> bool {
    match m {
        Ok(s) => r is Ok && r->Ok_0@ == s,
        Err(k) => r is Err && r->Err_0.spec_kind() == k,
    }
}

/// What the attribute-lookup operation renders: the textual form of the
/// scalar the single parameter resolves to. A missing or extra parameter, an
/// unresolved path, or a branch or array at the end is an error.
pub open spec fn spec_attribute_op(
    call: CallModel,
    ctx: Seq<(Seq<char>, TreeModel)>,
) -> Result<Seq<char>, ErrorKind> {
    if call.parameters.len() != 1 {
        Err(ErrorKind::InvalidParams)
    } else {
        match spec_attr_resolve(ctx, spec_split(call.parameters[0], '.')) {
            None => Err(ErrorKind::InvalidParams),
            Some(TreeModel::Leaf(p)) => Ok(spec_prim_text(p)),
            Some(TreeModel::Slot(p)) => Ok(spec_prim_text(p)),
            Some(TreeModel::Branch(_)) => Err(ErrorKind::InvalidParams),
            Some(TreeModel::Array(_)) => Err(ErrorKind::InvalidParams),
        }
    }
}

/// Renders the scalar that the single parameter's attribute path resolves
/// to.
pub fn attribute_operation(call: TemplateOperationCall, context: &ContextMap) -> (r: WebResult<
    String,
>)
    ensures
        res_matches(r, spec_attribute_op(call@, context@)),
{
    if let Err(e) = unwrap_n_params(&call.parameters, 1) {
        return Err(e);
    }
    let attribute = &call.parameters[0];
    proof {
        assert(call@.parameters[0] == call.parameters@[0]@);
    }
    match attribute_from_context(attribute.as_str(), context) {
        Ok(a) => match a {
            ContextTree::Leaf(s) => Ok(s.to_text()),
            ContextTree::Slot(s) => Ok(s.to_text()),
            ContextTree::Branch(_) => {
                let mut msg: String = "Attribute ".to_owned();
                msg.append(attribute.as_str());
                msg.append(" is a nested object. Retrieve a primitive instead.");
                Err(Error::InvalidParams(msg))
            },
            ContextTree::Array(_) => {
                let mut msg: String = "Attribute ".to_owned();
                msg.append(attribute.as_str());
                msg.append(" is an array. Retrieve a primitive instead.");
                Err(Error::InvalidParams(msg))
            },
        },
        Err(e) => Err(e),
    }
}

/// The truth value that the conditional operation gives its parameter: the
/// literals `true` and `false` short-circuit; otherwise the attribute is
/// resolved and coerced — a boolean is itself, a string is true when
/// non-empty, a number is true when non-zero, and an array is true when
/// empty. Any other shape is an error.
pub open spec fn spec_if_condition(
    param: Seq<char>,
    ctx: Seq<(Seq<char>, TreeModel)>,
) -> Result<bool, ErrorKind> {
    if param == "true"@ {
        Ok(true)
    } else if param == "false"@ {
        Ok(false)
    } else {
        match spec_attr_resolve(ctx, spec_split(param, '.')) {
            None => Err(ErrorKind::InvalidParams),
            Some(TreeModel::Leaf(PrimModel::Bool(b))) => Ok(b),
            Some(TreeModel::Leaf(PrimModel::Str(s))) => Ok(s.len() > 0),
            Some(TreeModel::Leaf(PrimModel::Num(n))) => Ok(n != 0),
            Some(TreeModel::Array(a)) => Ok(a.len() == 0),
            Some(_) => Err(ErrorKind::InvalidParams),
        }
    }
}

/// What the conditional operation renders: the raw child block when the
/// condition holds (re-scanned later by the evaluator), the empty string
/// when it does not.
pub open spec fn spec_if_op(call: CallModel, ctx: Seq<(Seq<char>, TreeModel)>) -> Result<
    Seq<char>,
    ErrorKind,
> {
    if call.parameters.len() != 1 {
        Err(ErrorKind::InvalidParams)
    } else {
        match spec_if_condition(call.parameters[0], ctx) {
            Err(k) => Err(k),
            Ok(true) => Ok(
                match call.children {
                    Some(c) => c,
                    None => Seq::empty(),
                },
            ),
            Ok(false) => Ok(Seq::empty()),
        }
    }
}

/// Renders the child block when the single parameter's condition holds.
pub fn if_operation(call: TemplateOperationCall, context: &ContextMap) -> (r: WebResult<String>)
    ensures
        res_matches(r, spec_if_op(call@, context@)),
{
    if let Err(e) = unwrap_n_params(&call.parameters, 1) {
        return Err(e);
    }
    let first_param = &call.parameters[0];
    proof {
        assert(call@.parameters[0] == call.parameters@[0]@);
    }
    let display_content: bool = if str_eq(first_param.as_str(), "true") {
        true
    } else if str_eq(first_param.as_str(), "false") {
        false
    } else {
        match attribute_from_context(first_param.as_str(), context) {
            Err(e) => {
                return Err(e);
            },
            Ok(ContextTree::Leaf(crate::context::Primitive::Bool(b))) => b,
            Ok(ContextTree::Leaf(crate::context::Primitive::Str(s))) => !s.as_str().is_empty(),
            Ok(ContextTree::Leaf(crate::context::Primitive::Num(n))) => n != 0,
            Ok(ContextTree::Array(a)) => a.len() == 0,
            Ok(_) => {
                let msg: String = "Expected value to resolve to a boolean".to_owned();
                return Err(Error::InvalidParams(msg));
            },
        }
    };
    if display_content {
        return Ok(
            match call.children {
                Some(c) => c,
                None => String::new(),
            },
        );
    }
    Ok(String::new())
}

/// The reserved name under which the rendering of a component marks that
/// slot lookups are legal.
pub open spec fn spec_inside_component_id() -> Seq<char> {
    "inside_component_operation_identifier"@
}

/// The reserved name under which the rendering of a component marks that
/// slot lookups are legal.
pub fn inside_component_id() -> (r: &'static str)
    ensures
        r@ == spec_inside_component_id(),
{
    "inside_component_operation_identifier"
}

/// What the slot operation renders: the text held by the slot value bound to
/// the single parameter, or the empty string when the name is not bound to a
/// slot. A scope whose inside-component marker is explicitly false is an
/// error.
pub open spec fn spec_slot_op(call: CallModel, ctx: Seq<(Seq<char>, TreeModel)>) -> Result<
    Seq<char>,
    ErrorKind,
> {
    if call.parameters.len() != 1 {
        Err(ErrorKind::InvalidParams)
    } else if spec_lookup(ctx, spec_inside_component_id()) matches Some(
        TreeModel::Leaf(PrimModel::Bool(false)),
    ) {
        Err(ErrorKind::InvalidParams)
    } else {
        match spec_lookup(ctx, call.parameters[0]) {
            Some(TreeModel::Slot(p)) => Ok(spec_prim_text(p)),
            _ => Ok(Seq::empty()),
        }
    }
}

/// Emits the slot content registered for the single parameter's name.
pub fn slot(call: TemplateOperationCall, context: &ContextMap) -> (r: WebResult<String>)
    ensures
        res_matches(r, spec_slot_op(call@, context@)),
{
    if let Err(e) = unwrap_n_params(&call.parameters, 1) {
        return Err(e);
    }
    let slot_name = &call.parameters[0];
    proof {
        assert(call@.parameters[0] == call.parameters@[0]@);
    }
    if let Some(ContextTree::Leaf(crate::context::Primitive::Bool(inside))) = context.get(
        inside_component_id(),
    ) {
        if !*inside {
            let msg: String = "Slot function is not loaded from component".to_owned();
            return Err(Error::InvalidParams(msg));
        }
    }
    match context.get(slot_name.as_str()) {
        Some(ContextTree::Slot(a)) => Ok(a.to_text()),
        _ => Ok(String::new()),
    }
}

/// What the comment operation renders: nothing, always.
pub open spec fn spec_comment_op() -> Result<Seq<char>, ErrorKind> {
    Ok(Seq::empty())
}

/// Emits nothing: suppresses its content from the output.
pub fn comment_operation(_call: TemplateOperationCall, _context: &ContextMap) -> (r: WebResult<
    String,
>)
    ensures
        res_matches(r, spec_comment_op()),
{
    Ok(String::new())
}

} // verus!
