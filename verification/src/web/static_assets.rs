//! The static assets of the dashboard. They are served from the same origin, so
//! that pages need no other.
use vstd::prelude::*;

verus! {

/// The content type of scripts.
pub const JS_CONTENT_TYPE: &'static str = "application/javascript; charset=utf-8";

/// The content type of stylesheets.
pub const CSS_CONTENT_TYPE: &'static str = "text/css; charset=utf-8";

/// How long browsers may keep an asset.
pub const STATIC_CACHE_CONTROL: &'static str = "public, max-age=3600";

/// An answer with an asset.
#[derive(Debug, Clone, PartialEq)]
pub struct StaticReply {
    pub status: u16,
    pub content_type: &'static str,
    pub cache_control: &'static str,
    pub body: &'static str,
}

/// The answer with an asset of the given type.
pub open spec fn asset_reply(body: &'static str, content_type: &'static str) -> StaticReply {
    StaticReply { status: 200, content_type, cache_control: STATIC_CACHE_CONTROL, body }
}

/// The answer with an asset of the given type.
pub fn static_response(body: &'static str, content_type: &'static str) -> (r: StaticReply)
    ensures
        r == asset_reply(body, content_type),
{
    StaticReply { status: 200, content_type, cache_control: STATIC_CACHE_CONTROL, body }
}

/// The answer with the main script.
pub fn htmx_js(body: &'static str) -> (r: StaticReply)
    ensures
        r == asset_reply(body, JS_CONTENT_TYPE),
{
    static_response(body, JS_CONTENT_TYPE)
}

/// The answer with the script for server-sent events.
pub fn htmx_sse_js(body: &'static str) -> (r: StaticReply)
    ensures
        r == asset_reply(body, JS_CONTENT_TYPE),
{
    static_response(body, JS_CONTENT_TYPE)
}

/// The answer with the stylesheet of the dashboard.
pub fn dashboard_css(body: &'static str) -> (r: StaticReply)
    ensures
        r == asset_reply(body, CSS_CONTENT_TYPE),
{
    static_response(body, CSS_CONTENT_TYPE)
}

/// An asset is answered as it is, under its type, and may be kept for an hour.
pub proof fn assets_are_handed_out(body: &'static str, content_type: &'static str)
    ensures
        asset_reply(body, content_type).status == 200,
        asset_reply(body, content_type).body == body,
        asset_reply(body, content_type).content_type == content_type,
        asset_reply(body, content_type).cache_control@ == "public, max-age=3600"@,
{
}

} // verus!
