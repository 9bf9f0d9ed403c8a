//! The template collaborator: minijinja's environment and value types,
//! declared for the verifier, and the trusted wrappers through which the
//! library builds render contexts and renders templates. A template is
//! loaded from disk by the environment's loader, so nothing is assumed
//! about a render's outcome beyond its shape.

use vstd::prelude::*;
use crate::frontmatter::FrontMatter;
use minijinja::Value;

verus! {

#[verifier::external_type_specification]
#[verifier::external_body]
pub struct ExEnvironment<'a>(minijinja::Environment<'a>);

#[verifier::external_type_specification]
#[verifier::external_body]
pub struct ExValue(minijinja::Value);

/// Why a render failed: the named template could not be resolved, or the
/// template engine failed while expanding it.
#[derive(Clone, Copy, Debug, PartialEq, Eq, Structural)]
pub enum RenderError {
    TemplateNotFound,
    RenderFailed,
}

/// Relies on minijinja::Environment::new, Environment::set_loader and
/// minijinja::path_loader: a fresh environment that resolves template
/// names against files under the given directory.
#[verifier::external_body]
pub(crate) fn fresh_template_env(template_dir: &str) -> minijinja::Environment<'static> {
    let mut env = minijinja::Environment::new();
    env.set_loader(minijinja::path_loader(template_dir));
    env
}

/// Relies on minijinja::Environment::get_template and Template::render:
/// resolution failure (the template could not be found, loaded or
/// compiled) and expansion failure are told apart by which call failed.
#[verifier::external_body]
pub(crate) fn render_template(
    env: &minijinja::Environment<'static>,
    name: &str,
    ctx: &minijinja::Value,
) -> Result<String, RenderError> {
    match env.get_template(name) {
        Ok(t) => match t.render(ctx) {
            Ok(s) => Ok(s),
            Err(_) => Err(RenderError::RenderFailed),
        },
        Err(_) => Err(RenderError::TemplateNotFound),
    }
}

/// Relies on serde_json::from_str and minijinja::Value::from_serialize:
/// the free-form metadata text as a structured value where it parses as
/// JSON, undefined otherwise.
#[verifier::external_body]
fn meta_value(meta: &Option<String>) -> minijinja::Value {
    match meta {
        Some(s) => serde_json::from_str::<serde_json::Value>(s)
            .map(|j| Value::from_serialize(&j))
            .unwrap_or(Value::UNDEFINED),
        None => Value::UNDEFINED,
    }
}

/// Relies on minijinja::Value::from_serialize over a string map: the
/// frontmatter fields under their own names, with the metadata slot
/// taken from the given value.
#[verifier::external_body]
fn fm_fields_value(fm: &FrontMatter, meta: minijinja::Value) -> minijinja::Value {
    let mut m = std::collections::BTreeMap::new();
    m.insert("title", Value::from_serialize(&fm.title));
    m.insert("description", Value::from_serialize(&fm.description));
    m.insert("date", Value::from_serialize(&fm.date));
    m.insert("tags", Value::from_serialize(&fm.tags));
    m.insert("collections", Value::from_serialize(&fm.collections));
    m.insert("wip", Value::from_serialize(&fm.wip));
    m.insert("template", Value::from_serialize(&fm.template));
    m.insert("link", Value::from_serialize(&fm.link));
    m.insert("meta", meta);
    Value::from_serialize(&m)
}

/// The render-context value of a frontmatter: its fields under their own
/// names, the metadata text parsed as JSON where it parses.
pub(crate) fn fm_value(fm: &FrontMatter) -> minijinja::Value {
    let meta = meta_value(&fm.meta);
    fm_fields_value(fm, meta)
}

/// Relies on minijinja::Value::from_serialize over a string slice.
#[verifier::external_body]
pub(crate) fn str_value(s: &str) -> minijinja::Value {
    minijinja::Value::from_serialize(s)
}

/// Relies on minijinja::Value::from_serialize over a string map built
/// from the given pairs.
#[verifier::external_body]
pub(crate) fn value_from_pairs(pairs: Vec<(String, minijinja::Value)>) -> minijinja::Value {
    let m: std::collections::BTreeMap<String, minijinja::Value> = pairs.into_iter().collect();
    minijinja::Value::from_serialize(&m)
}

/// Relies on minijinja::Value::from_serialize over a list of values.
#[verifier::external_body]
pub(crate) fn value_from_list(items: Vec<minijinja::Value>) -> minijinja::Value {
    minijinja::Value::from_serialize(&items)
}

/// Relies on minijinja::Value::clone.
pub assume_specification[ <minijinja::Value as Clone>::clone ](v: &minijinja::Value) -> (r:
    minijinja::Value);

} // verus!
