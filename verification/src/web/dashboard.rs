//! The dashboard request.
use super::templates::{
    dashboard_page, DASHBOARD_CSS, DASHBOARD_GAP, DASHBOARD_HEAD, DASHBOARD_LOGOUT, DASHBOARD_MAIN,
    DASHBOARD_TAIL, DASHBOARD_TOPBAR,
};
use super::view::escape_html;
use crate::decimal::decimal_int;
use crate::text::{both_parts_occur, cat, contains_spec};
use vstd::prelude::*;
use vstd::string::*;

verus! {

/// The name of the session cookie.
pub const SESSION_COOKIE_NAME: &'static str = "deskd_session";

/// The attributes with which a cookie expires at once.
pub const EXPIRED_COOKIE: &'static str = "=; HttpOnly; Secure; SameSite=Strict; Path=/; Max-Age=0";

/// The value of a cookie header that ends the session.
pub fn expire_cookie_value() -> (r: String)
    ensures
        r@ == SESSION_COOKIE_NAME@ + EXPIRED_COOKIE@,
{
    cat(SESSION_COOKIE_NAME, EXPIRED_COOKIE)
}

/// A session that was verified.
#[derive(Debug, Clone)]
pub struct SessionPayload {
    pub telegram_id: i64,
    pub csrf: String,
}

/// The answer to a request for the dashboard.
#[derive(Debug)]
pub enum DashboardReply {
    /// The page.
    Page(String),
    /// A redirect to the login page that ends the session.
    Login { location: String, set_cookie: String },
}

/// Whether `r` answers a request for the dashboard.
pub open spec fn answers_dashboard(
    session: Option<&SessionPayload>,
    strip: Seq<char>,
    agents: Seq<char>,
    r: DashboardReply,
) -> bool {
    match session {
        Some(s) => r matches DashboardReply::Page(html) && html@ == DASHBOARD_HEAD@
            + DASHBOARD_CSS@ + DASHBOARD_TOPBAR@ + decimal_int(s.telegram_id as int)
            + DASHBOARD_LOGOUT@ + escape_html(s.csrf@) + DASHBOARD_MAIN@ + strip
            + DASHBOARD_GAP@ + agents + DASHBOARD_TAIL@,
        None => r matches DashboardReply::Login { location, set_cookie } && location@
            == "/login"@ && set_cookie@ == SESSION_COOKIE_NAME@ + EXPIRED_COOKIE@,
    }
}

/// The answer to a request for the dashboard: the page for a verified session,
/// else a redirect to the login page that ends the session.
pub fn dashboard(
    session: Option<&SessionPayload>,
    strip_html: &str,
    agents_html: &str,
) -> (r: DashboardReply)
    ensures
        answers_dashboard(session, strip_html@, agents_html@, r),
{
    match session {
        Some(s) => DashboardReply::Page(
            dashboard_page(s.telegram_id, &s.csrf, strip_html, agents_html),
        ),
        None => DashboardReply::Login {
            location: String::from_str("/login"),
            set_cookie: expire_cookie_value(),
        },
    }
}

/// The dashboard is shown exactly in a session; without one the answer leads to the login
/// and takes the cookie away.
pub proof fn dashboard_needs_a_session(
    session: Option<&SessionPayload>,
    strip: Seq<char>,
    agents: Seq<char>,
    r: DashboardReply,
)
    requires
        answers_dashboard(session, strip, agents, r),
    ensures
        r is Page <==> session is Some,
        r matches DashboardReply::Login { location, set_cookie } ==> location@ == "/login"@
            && contains_spec(set_cookie@, "deskd_session"@) && set_cookie@.len() > 13,
{
    both_parts_occur(SESSION_COOKIE_NAME@, EXPIRED_COOKIE@);
    reveal_strlit("deskd_session");
    reveal_strlit("=; HttpOnly; Secure; SameSite=Strict; Path=/; Max-Age=0");
}

} // verus!
