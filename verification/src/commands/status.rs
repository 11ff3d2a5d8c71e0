//! The status command.
use super::dashboard::{dashboard_json, dashboard_text, render_json, render_text, Dashboard};
use crate::json::Json;
use crate::text::{cat3, contains_spec, part_occurs, same};
use vstd::prelude::*;
use vstd::string::*;

verus! {

/// A dashboard in the form in which it was asked for.
#[derive(Debug, PartialEq)]
pub enum StatusOutput {
    /// A JSON document.
    Document(Json),
    /// Plain text.
    Plain(String),
}

/// Whether `r` is the dashboard in the form that is asked for.
pub open spec fn shown_as(
    dash: Dashboard,
    format: Seq<char>,
    r: Result<StatusOutput, String>,
) -> bool {
    if format == "json"@ {
        r matches Ok(StatusOutput::Document(v)) && v@ == dashboard_json(dash)
    } else if format == "text"@ || format.len() == 0 {
        r matches Ok(StatusOutput::Plain(t)) && t@ == dashboard_text(dash)
    } else {
        r matches Err(e) && e@ == "unknown --format '"@ + format
            + "' (expected 'text' or 'json')"@
    }
}

/// The dashboard in a format: `json`, `text`, or text where none is named.
pub fn handle(dash: &Dashboard, format: &str) -> (r: Result<StatusOutput, String>)
    ensures
        shown_as(*dash, format@, r),
{
    if same(format, "json") {
        Ok(StatusOutput::Document(render_json(dash)))
    } else if same(format, "text") || format.is_empty() {
        Ok(StatusOutput::Plain(render_text(dash)))
    } else {
        Err(cat3("unknown --format '", format, "' (expected 'text' or 'json')"))
    }
}

/// There is a form for `json` and one for `text`, which is also that of no name; any other
/// name is refused, and the complaint holds it.
pub proof fn two_forms_are_known(dash: Dashboard, format: Seq<char>, r: Result<StatusOutput, String>)
    requires
        shown_as(dash, format, r),
    ensures
        r is Ok <==> format == "json"@ || format == "text"@ || format.len() == 0,
        format == "json"@ ==> r->Ok_0 is Document,
        format == "text"@ || format.len() == 0 ==> r->Ok_0 is Plain,
        r matches Err(e) ==> contains_spec(e@, format),
{
    reveal_strlit("json");
    reveal_strlit("text");
    assert("json"@[0] != "text"@[0]);
    if r is Err {
        part_occurs("unknown --format '"@, format, "' (expected 'text' or 'json')"@);
    }
}

} // verus!
