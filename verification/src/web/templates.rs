//! The pages of the web adapter.
use super::view::{escape_html, html_escape};
use crate::decimal::{decimal_int, show_i64};
use crate::text::{both_parts_occur, cat3, contains_spec, part_occurs};
use vstd::prelude::*;
use vstd::string::*;

verus! {

/// The login page up to the CSRF token.
pub const LOGIN_HEAD: &'static str = r#"<!doctype html>
<html lang="en">
<head>
<meta charset="utf-8">
<title>deskd · login</title>
<meta name="viewport" content="width=device-width, initial-scale=1">
</head>
<body>
<main>
  <h1>deskd</h1>
  <p>Sign in via Telegram. We will send a one-time link to your configured account.</p>
  <form method="post" action="/login/request">
    <input type="hidden" name="_csrf" value=""#;

/// The login page after the CSRF token.
pub const LOGIN_TAIL: &'static str = r#"">
    <button type="submit">Send link to Telegram</button>
  </form>
</main>
</body>
</html>"#;

/// The dashboard page up to its style sheet.
pub const DASHBOARD_HEAD: &'static str = r#"<!doctype html>
<html lang="en">
<head>
<meta charset="utf-8">
<title>deskd · dashboard</title>
<meta name="viewport" content="width=device-width, initial-scale=1">
<style>"#;

/// The dashboard page from its style sheet to the user.
pub const DASHBOARD_TOPBAR: &'static str = r#"</style>
<script src="/static/htmx.min.js"></script>
<script src="/static/htmx-sse.js"></script>
</head>
<body>
<header class="topbar">
  <h1>deskd</h1>
  <span class="topbar__user">tg:"#;

/// The dashboard page from the user to the CSRF token.
pub const DASHBOARD_LOGOUT: &'static str = r#"</span>
  <form class="topbar__logout" method="post" action="/logout">
    <input type="hidden" name="_csrf" value=""#;

/// The dashboard page from the CSRF token to the overview strip.
pub const DASHBOARD_MAIN: &'static str = r#"">
    <button type="submit">Log out</button>
  </form>
</header>
<main>
  "#;

/// The dashboard page from the overview strip to the agents.
pub const DASHBOARD_GAP: &'static str = r#"
  "#;

/// The dashboard page after the agents.
pub const DASHBOARD_TAIL: &'static str = r#"
</main>
</body>
</html>"#;

/// The style sheet of the dashboard.
pub const DASHBOARD_CSS: &'static str = r#"
* { box-sizing: border-box; }
body { margin: 0; font: 14px/1.45 -apple-system, BlinkMacSystemFont, "Segoe UI", system-ui, sans-serif; color: #1a1a1a; background: #f6f7fa; }
.topbar { display: flex; align-items: center; gap: 0.6rem; padding: 0.5rem 1rem; background: #1a1a1a; color: #f6f7fa; }
.topbar h1 { margin: 0; font-size: 1.1rem; flex: 0 0 auto; }
.topbar__user { font-size: 0.8rem; opacity: 0.7; flex: 1 1 auto; }
.topbar__logout { margin: 0; }
.topbar__logout button { background: transparent; color: inherit; border: 1px solid #555; border-radius: 4px; padding: 0.25rem 0.6rem; font: inherit; }
main { padding: 0.75rem; max-width: 720px; margin: 0 auto; }
.vps-strip { display: flex; flex-wrap: wrap; gap: 0.5rem 1rem; padding: 0.6rem 0.75rem; margin-bottom: 0.75rem; background: #fff; border: 1px solid #e0e3eb; border-radius: 8px; font-size: 0.85rem; }
.vps-strip__item strong { color: #555; font-weight: 600; margin-right: 0.25rem; }
.agents { display: flex; flex-direction: column; gap: 0.6rem; }
.agents--empty .agents__empty { padding: 1.5rem 1rem; text-align: center; background: #fff; border: 1px dashed #c5c9d4; border-radius: 8px; color: #666; }
.agent-card { background: #fff; border: 1px solid #e0e3eb; border-radius: 8px; padding: 0.75rem 0.9rem; }
.agent-card__head { display: flex; flex-wrap: wrap; align-items: center; gap: 0.4rem 0.6rem; margin-bottom: 0.4rem; }
.agent-card__name { margin: 0; font-size: 1rem; font-weight: 600; }
.agent-card__status { font-size: 0.75rem; padding: 0.1rem 0.45rem; border-radius: 999px; font-weight: 600; text-transform: uppercase; letter-spacing: 0.04em; }
.agent-card__status--idle { background: #eef0f5; color: #555; }
.agent-card__status--working { background: #e6f4ea; color: #1e7e34; }
.agent-card__status--offline { background: #fbeaea; color: #b02929; }
.agent-card__model { font-size: 0.75rem; color: #777; margin-left: auto; font-family: ui-monospace, "SF Mono", Menlo, monospace; }
.agent-card__rows { margin: 0; display: grid; grid-template-columns: max-content 1fr; gap: 0.2rem 0.75rem; font-size: 0.85rem; }
.agent-card__rows dt { color: #666; }
.agent-card__rows dd { margin: 0; }
.ctx-numbers { font-variant-numeric: tabular-nums; }
.ctx-bar { display: inline-block; width: 100px; height: 6px; background: #e0e3eb; border-radius: 3px; vertical-align: middle; margin: 0 0.4rem; overflow: hidden; }
.ctx-bar__fill { display: block; height: 100%; background: #4a72d9; transition: width 0.3s ease; }
.ctx-pct { font-variant-numeric: tabular-nums; color: #555; }
.em { color: #aaa; }
small { color: #777; }
@media (max-width: 420px) {
  .agent-card__rows { grid-template-columns: 1fr; gap: 0.05rem 0; }
  .agent-card__rows dt { font-size: 0.7rem; text-transform: uppercase; letter-spacing: 0.04em; margin-top: 0.3rem; }
  .ctx-bar { width: 80px; }
}
"#;

/// The page that says that the login link was sent.
pub const LINK_SENT: &'static str = r#"<!doctype html>
<html lang="en">
<head>
<meta charset="utf-8">
<title>deskd · link sent</title>
<meta name="viewport" content="width=device-width, initial-scale=1">
</head>
<body>
<main>
  <h1>Login link sent</h1>
  <p>Check Telegram for a one-time login link. It is single-use and expires shortly.</p>
</main>
</body>
</html>"#;

/// Whether `r` is the page to log in.
pub open spec fn shows_login(
    csrf: Seq<char>,
    r: Seq<char>,
) -> bool {
    r == LOGIN_HEAD@ + escape_html(csrf) + LOGIN_TAIL@
}

/// The login page. The CSRF token is escaped.
pub fn login_page(csrf: &str) -> (r: String)
    ensures
        shows_login(csrf@, r@),
{
    cat3(LOGIN_HEAD, &html_escape(csrf), LOGIN_TAIL)
}

/// Whether `r` is the page of the dashboard.
pub open spec fn shows_dashboard(
    telegram_id: int,
    csrf: Seq<char>,
    strip: Seq<char>,
    agents: Seq<char>,
    r: Seq<char>,
) -> bool {
    r == DASHBOARD_HEAD@ + DASHBOARD_CSS@ + DASHBOARD_TOPBAR@ + decimal_int(
        telegram_id,
    ) + DASHBOARD_LOGOUT@ + escape_html(csrf) + DASHBOARD_MAIN@ + strip
        + DASHBOARD_GAP@ + agents + DASHBOARD_TAIL@
}

/// The dashboard page. The CSRF token is escaped; the two sections are HTML
/// already.
pub fn dashboard_page(
    telegram_id: i64,
    csrf: &str,
    vps_strip_html: &str,
    agents_section_html: &str,
) -> (r: String)
    ensures
        shows_dashboard(telegram_id as int, csrf@, vps_strip_html@, agents_section_html@, r@),
{
    let mut out = cat3(DASHBOARD_HEAD, DASHBOARD_CSS, DASHBOARD_TOPBAR);
    let id = show_i64(telegram_id);
    out.append(&id);
    out.append(DASHBOARD_LOGOUT);
    let token = html_escape(csrf);
    out.append(&token);
    out.append(DASHBOARD_MAIN);
    out.append(vps_strip_html);
    out.append(DASHBOARD_GAP);
    out.append(agents_section_html);
    out.append(DASHBOARD_TAIL);
    out
}

/// The page that says that the login link was sent.
pub fn link_sent_page() -> (r: &'static str)
    ensures
        r@ == LINK_SENT@,
{
    LINK_SENT
}

/// The pages hold what they are given: the token with its markup escaped, the number of
/// the user, and the parts of the dashboard as they are.
pub proof fn pages_hold_what_they_are_given(
    telegram_id: int,
    csrf: Seq<char>,
    strip: Seq<char>,
    agents: Seq<char>,
    login: Seq<char>,
    page: Seq<char>,
)
    requires
        shows_login(csrf, login),
        shows_dashboard(telegram_id, csrf, strip, agents, page),
    ensures
        contains_spec(login, escape_html(csrf)),
        contains_spec(page, escape_html(csrf)),
        contains_spec(page, decimal_int(telegram_id)),
        contains_spec(page, strip),
        contains_spec(page, agents),
{
    part_occurs(LOGIN_HEAD@, escape_html(csrf), LOGIN_TAIL@);
    let a = DASHBOARD_HEAD@ + DASHBOARD_CSS@ + DASHBOARD_TOPBAR@;
    let user = decimal_int(telegram_id);
    both_parts_occur(a, user);
    both_parts_occur(a + user, DASHBOARD_LOGOUT@);
    let b = a + user + DASHBOARD_LOGOUT@ + escape_html(csrf);
    both_parts_occur(a + user + DASHBOARD_LOGOUT@, escape_html(csrf));
    both_parts_occur(b, DASHBOARD_MAIN@);
    let c = b + DASHBOARD_MAIN@ + strip;
    both_parts_occur(b + DASHBOARD_MAIN@, strip);
    both_parts_occur(c, DASHBOARD_GAP@);
    both_parts_occur(c + DASHBOARD_GAP@, agents);
    both_parts_occur(c + DASHBOARD_GAP@ + agents, DASHBOARD_TAIL@);
}

} // verus!
