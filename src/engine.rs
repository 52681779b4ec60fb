//! The template engine's side: its types, the values handed to it and back,
//! and the helpers as it calls them.
use vstd::prelude::*;

use handlebars::{
    Context, Decorator, Handlebars, Helper, HelperDef, RenderContext, RenderError, ScopedJson,
};
use serde_json::Value;

use crate::helpers::{ConcatHelper, HelperError, InlineIfHelper, StyleHelper};
use crate::indent::IndentHelper;
use crate::json::{Json, JsonNumber};

verus! {

#[verifier::external_type_specification]
#[verifier::external_body]
pub struct ExHandlebars<'reg>(Handlebars<'reg>);

#[verifier::external_type_specification]
#[verifier::external_body]
pub struct ExHelper<'reg, 'rc>(Helper<'reg, 'rc>);

#[verifier::external_type_specification]
#[verifier::external_body]
pub struct ExContext(Context);

#[verifier::external_type_specification]
#[verifier::external_body]
pub struct ExRenderContext<'reg, 'rc>(RenderContext<'reg, 'rc>);

#[verifier::external_type_specification]
#[verifier::external_body]
pub struct ExScopedJson<'reg, 'rc>(ScopedJson<'reg, 'rc>);

#[verifier::external_type_specification]
#[verifier::external_body]
pub struct ExRenderError(RenderError);

#[verifier::external_type_specification]
#[verifier::external_body]
pub struct ExDecorator<'reg, 'rc>(Decorator<'reg, 'rc>);

#[verifier::external_type_specification]
#[verifier::external_body]
pub struct ExValue(Value);

/// The name under which a hook's template is registered.
pub const TEMPLATE_NAME: &'static str = "eyre";

/// Relies on the variants of `serde_json::Value` and on `Number::as_u64`: moves
/// a value into the library's value, variant for variant.
#[verifier::external_body]
pub(crate) fn from_value(v: &Value) -> Json {
    match v {
        Value::Null => Json::Null,
        Value::Bool(b) => Json::Bool(*b),
        Value::Number(n) => Json::Number(match n.as_u64() {
            Some(u) => JsonNumber::Unsigned(u),
            None => JsonNumber::Other(n.clone()),
        }),
        Value::String(s) => Json::String(s.clone()),
        Value::Array(a) => Json::Array(a.iter().map(from_value).collect()),
        Value::Object(m) => Json::Object(m.iter().map(|(k, x)| (k.clone(), from_value(x))).collect()),
    }
}

/// Relies on the variants of `serde_json::Value`: moves the library's value
/// into one, variant for variant; `serde_json::Map` keeps the last entry of a
/// repeated key.
#[verifier::external_body]
pub(crate) fn to_value(j: &Json) -> Value {
    match j {
        Json::Null => Value::Null,
        Json::Bool(b) => Value::Bool(*b),
        Json::Number(JsonNumber::Unsigned(u)) => Value::from(*u),
        Json::Number(JsonNumber::Other(n)) => Value::Number(n.clone()),
        Json::String(s) => Value::String(s.clone()),
        Json::Array(a) => Value::Array(a.iter().map(to_value).collect()),
        Json::Object(e) => Value::Object(e.iter().map(|(k, x)| (k.clone(), to_value(x))).collect()),
    }
}

/// Relies on `handlebars::Helper::params`: the arguments of a helper call, in order.
#[verifier::external_body]
fn params_of(h: &Helper) -> Vec<Json> {
    h.params().iter().map(|p| from_value(p.value())).collect()
}

/// Relies on `handlebars::Helper::params`: argument `i` of a helper call, as it
/// came, where there is one.
#[verifier::external_body]
fn param_at<'reg, 'rc>(h: &Helper<'reg, 'rc>, i: usize) -> Option<ScopedJson<'reg, 'rc>> {
    h.params().get(i).map(|p| ScopedJson::Derived(p.value().clone()))
}

/// Relies on `handlebars::RenderError::new`: a render error with the given message.
#[verifier::external_body]
pub(crate) fn render_error(message: String) -> RenderError {
    RenderError::new(message)
}

/// Relies on `handlebars::ScopedJson::Derived`: a helper's result, the string `s`.
#[verifier::external_body]
fn derived_string<'reg, 'rc>(s: String) -> ScopedJson<'reg, 'rc> {
    ScopedJson::Derived(Value::String(s))
}

/// What handlebars receives from a helper: its text, or a render error with its message.
fn helper_output<'reg, 'rc>(r: Result<String, HelperError>) -> Result<ScopedJson<'reg, 'rc>, RenderError> {
    match r {
        Ok(s) => Ok(derived_string(s)),
        Err(e) => Err(render_error(e.message())),
    }
}

/// Relies on `handlebars::Handlebars::new`: an empty registry.
#[verifier::external_body]
pub(crate) fn new_registry() -> Handlebars<'static> {
    Handlebars::new()
}

/// Relies on `handlebars::Handlebars::register_escape_fn`: values are written
/// through `id_escape`, as they are, without HTML escaping.
#[verifier::external_body]
pub(crate) fn write_unescaped(hb: &mut Handlebars<'static>) {
    hb.register_escape_fn(crate::id_escape)
}

/// Relies on `handlebars::Handlebars::register_helper`.
#[verifier::external_body]
pub(crate) fn add_helper<H: HelperDef + Send + Sync + 'static>(hb: &mut Handlebars<'static>, name: &str, helper: H) {
    hb.register_helper(name, Box::new(helper))
}

/// Relies on `handlebars::Handlebars::register_decorator`, for the `set` decorator.
#[verifier::external_body]
pub(crate) fn add_set_decorator(hb: &mut Handlebars<'static>) {
    hb.register_decorator("set", Box::new(crate::helpers::set_decorator))
}

/// Whether handlebars parses the template text `t`.
pub uninterp spec fn parses(t: Seq<char>) -> bool;

/// Relies on `handlebars::Handlebars::register_template_string`: registers the
/// template under `name` when it parses, which depends on its text alone, and
/// says why not when it does not.
#[verifier::external_body]
pub(crate) fn register_template(hb: &mut Handlebars<'static>, name: &str, template: &str) -> (r: Result<(), RenderError>)
    ensures
        r is Ok <==> parses(template@),
{
    hb.register_template_string(name, template).map_err(RenderError::from)
}

/// Relies on `handlebars::Handlebars::render`: renders the template `name` against `data`.
#[verifier::external_body]
pub(crate) fn render(hb: &Handlebars<'static>, name: &str, data: &Json) -> Result<String, RenderError> {
    hb.render(name, &to_value(data))
}

/// Relies on `handlebars::Decorator::hash`: the bindings of a decorator call.
#[verifier::external_body]
pub(crate) fn bindings_of(d: &Decorator) -> Vec<(String, Json)> {
    d.hash().iter().map(|(k, v)| (k.to_string(), from_value(v.value()))).collect()
}

/// Relies on `handlebars::Context::data`: the data that the block sees.
#[verifier::external_body]
pub(crate) fn data_of(ctx: &Context) -> Json {
    from_value(ctx.data())
}

/// Relies on `handlebars::Context::wraps`: a context over `data`, or why not.
#[verifier::external_body]
pub(crate) fn wrap_context(data: &Json) -> Result<Context, RenderError> {
    Context::wraps(to_value(data))
}

/// Relies on `handlebars::RenderContext::set_context`: the rest of the block
/// sees `ctx`.
#[verifier::external_body]
pub(crate) fn use_context(rc: &mut RenderContext, ctx: Context) {
    rc.set_context(ctx)
}

/// Relies on `Clone` of `handlebars::Handlebars`: a registry with the same
/// templates and helpers.
#[verifier::external_body]
pub(crate) fn copy_registry(hb: &Handlebars<'static>) -> Handlebars<'static> {
    hb.clone()
}

impl HelperDef for IndentHelper {
    /// Called by handlebars for `{{indent ...}}`: indents the arguments.
    fn call_inner<'reg: 'rc, 'rc>(
        &self,
        h: &Helper<'reg, 'rc>,
        _registry: &'reg Handlebars<'reg>,
        _context: &'rc Context,
        _render: &mut RenderContext<'reg, 'rc>,
    ) -> Result<ScopedJson<'reg, 'rc>, RenderError> {
        helper_output(self.render_params(&params_of(h)))
    }
}

impl HelperDef for ConcatHelper {
    /// Called by handlebars for `{{concat ...}}`: joins the arguments.
    fn call_inner<'reg: 'rc, 'rc>(
        &self,
        h: &Helper<'reg, 'rc>,
        _registry: &'reg Handlebars<'reg>,
        _context: &'rc Context,
        _render: &mut RenderContext<'reg, 'rc>,
    ) -> Result<ScopedJson<'reg, 'rc>, RenderError> {
        helper_output(self.render_params(&params_of(h)))
    }
}

impl HelperDef for StyleHelper {
    /// Called by handlebars for `{{style path text}}`: styles the text.
    fn call_inner<'reg: 'rc, 'rc>(
        &self,
        h: &Helper<'reg, 'rc>,
        _registry: &'reg Handlebars<'reg>,
        _context: &'rc Context,
        _render: &mut RenderContext<'reg, 'rc>,
    ) -> Result<ScopedJson<'reg, 'rc>, RenderError> {
        helper_output(self.render_params(&params_of(h)))
    }
}

impl HelperDef for InlineIfHelper {
    /// Called by handlebars for `{{_if condition a b}}`: yields the chosen argument.
    fn call_inner<'reg: 'rc, 'rc>(
        &self,
        h: &Helper<'reg, 'rc>,
        _registry: &'reg Handlebars<'reg>,
        _context: &'rc Context,
        _render: &mut RenderContext<'reg, 'rc>,
    ) -> Result<ScopedJson<'reg, 'rc>, RenderError> {
        match self.pick(&params_of(h)) {
            Ok(i) => match param_at(h, i) {
                Some(v) => Ok(v),
                None => Err(render_error(HelperError::MissingParam.message())),
            },
            Err(e) => Err(render_error(e.message())),
        }
    }
}

} // verus!
