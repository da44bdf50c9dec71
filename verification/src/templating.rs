//! Jinja templates over a context snapshot, whose output is read back as
//! JSON when it is JSON and kept as text otherwise.
use vstd::prelude::*;
use crate::ctx::{snapshot_of, Ctx};
use crate::json::{Json, JsonV};
use crate::json_text::{json_text_parse, parse_json, to_serde};

verus! {

/// A template that failed to compile or to render (`minijinja::Error`), kept as is.
#[verifier::external_type_specification]
#[verifier::external_body]
pub struct ExTemplateError(minijinja::Error);

/// The text minijinja renders from a template over some data, or nothing when
/// the template is invalid or fails to render.
pub uninterp spec fn minijinja_render(template: Seq<char>, data: JsonV) -> Option<Seq<char>>;


/// `minijinja::Environment::new().render_str(template, data)`: renders a
/// template over data with the default settings. The text rendered depends on
/// the template and the data alone.
#[verifier::external_body]
fn render_str(template: &str, data: &Json) -> (r: Result<String, minijinja::Error>)
    ensures
        match r {
            Ok(s) => minijinja_render(template@, data@) == Some(s@),
            Err(_) => minijinja_render(template@, data@) is None,
        },
{
    minijinja::Environment::new().render_str(template, to_serde(data))
}

/// What a rendered text stands for: the JSON it holds, or the text itself.
pub open spec fn rendered_value(text: Seq<char>) -> JsonV {
    match json_text_parse(text) {
        Some(v) => v,
        None => JsonV::Str(text),
    }
}

/// What rendering a template over some data yields, if it renders.
pub open spec fn render_result(template: Seq<char>, data: JsonV) -> Option<JsonV> {
    match minijinja_render(template, data) {
        Some(text) => Some(rendered_value(text)),
        None => None,
    }
}

/// Reads a rendered text back: as JSON when it is JSON, as a string otherwise.
pub fn value_from_rendered(text: String) -> (v: Json)
    ensures
        v@ == rendered_value(text@),
{
    match parse_json(text.as_str()) {
        Some(v) => v,
        None => Json::String(text),
    }
}

/// Renders templates; every template is compiled on use.
#[derive(Debug)]
pub struct TemplateEngine {}

impl Default for TemplateEngine {
    fn default() -> (e: TemplateEngine)
        ensures
            e == (TemplateEngine {}),
    {
        TemplateEngine {}
    }
}

impl TemplateEngine {
    pub fn new() -> (e: TemplateEngine)
        ensures
            e == (TemplateEngine {}),
    {
        TemplateEngine {}
    }

    /// Renders `template` over the snapshot of `ctx`.
    pub fn render_value(&self, template: &str, ctx: &Ctx) -> (r: Result<Json, minijinja::Error>)
        ensures
            match r {
                Ok(v) => render_result(template@, snapshot_of(*ctx)) == Some(v@),
                Err(_) => render_result(template@, snapshot_of(*ctx)) is None,
            },
    {
        let snapshot = ctx.template_snapshot();
        self.render_with_data(template, &snapshot)
    }

    /// Renders `template` over `data` and reads the text back.
    pub fn render_with_data(&self, template: &str, data: &Json) -> (r: Result<Json, minijinja::Error>)
        ensures
            match r {
                Ok(v) => render_result(template@, data@) == Some(v@),
                Err(_) => render_result(template@, data@) is None,
            },
    {
        match render_str(template, data) {
            Ok(text) => Ok(value_from_rendered(text)),
            Err(e) => Err(e),
        }
    }
}

}
