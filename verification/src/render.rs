//! The boundary to the templating engine. The engine's environment carries
//! the target's templates and filters; the library hands it a template name
//! and a JSON context and takes back rendered text or an error message.
//! What text a template produces depends on the environment, so these calls
//! promise nothing about their results.

use vstd::prelude::*;

verus! {

#[verifier::external_type_specification]
#[verifier::external_body]
pub struct ExEnvironment<'source>(minijinja::Environment<'source>);

/// Relies on minijinja's `Environment::get_template` and `Template::render`,
/// with `serde_json::from_str` turning the context text into the engine's
/// value type. Failures come back as the engine's message.
#[verifier::external_body]
pub fn render_template(
    env: &minijinja::Environment,
    name: &str,
    ctx_json: &str,
) -> (r: Result<String, String>) {
    let ctx: serde_json::Value = match serde_json::from_str(ctx_json) {
        Ok(v) => v,
        Err(e) => return Err(format!("{e}")),
    };
    let tmpl = match env.get_template(name) {
        Ok(t) => t,
        Err(e) => return Err(format!("{e}")),
    };
    match tmpl.render(&ctx) {
        Ok(s) => Ok(s),
        Err(e) => Err(format!("{e}")),
    }
}

/// Relies on minijinja's `Environment::render_named_str` for one-off
/// template bodies, with `serde_json::from_str` for the context. Failures
/// come back as the engine's message.
#[verifier::external_body]
pub fn render_named(
    env: &minijinja::Environment,
    name: &str,
    content: &str,
    ctx_json: &str,
) -> (r: Result<String, String>) {
    let ctx: serde_json::Value = match serde_json::from_str(ctx_json) {
        Ok(v) => v,
        Err(e) => return Err(format!("{e}")),
    };
    match env.render_named_str(name, content, &ctx) {
        Ok(s) => Ok(s),
        Err(e) => Err(format!("{e}")),
    }
}

} // verus!
