//! The pages that the station serves itself.
//!
//! Every fresh document pulls the boot payload, so that a reload hours into a
//! shift starts from current truth. The fault page is what the watchdog leaves
//! up past its cap: no scripts, no reload, one statement.

use crate::text::same_text;
use vstd::prelude::*;

verus! {

#[derive(Debug, Clone, Copy, PartialEq, Eq, Structural)]
pub enum Route {
    Boot,
    Fault,
    NotFound,
}

pub open spec fn route_of(path: Seq<char>) -> Route {
    if path == "/boot"@ {
        Route::Boot
    } else if path == "/fault"@ {
        Route::Fault
    } else {
        Route::NotFound
    }
}

/// Which page a path is.
pub fn route(path: &str) -> (route: Route)
    ensures
        route == route_of(path@),
{
    if same_text(path, "/boot") {
        Route::Boot
    } else if same_text(path, "/fault") {
        Route::Fault
    } else {
        Route::NotFound
    }
}

#[derive(Debug)]
pub struct PageResponse {
    pub status: u16,
    pub headers: Vec<(&'static str, &'static str)>,
    pub body: String,
}

/// The boot payload, as it was serialized. The page comes from another origin,
/// and nothing may answer from a cache.
pub fn boot_response(json: String) -> (response: PageResponse)
    ensures
        response.status == 200,
        response.body == json,
        response.headers@ == seq![
            ("Content-Type", "application/json"),
            ("Access-Control-Allow-Origin", "*"),
            ("Cache-Control", "no-store"),
        ],
{
    PageResponse {
        status: 200,
        headers: vec![
            ("Content-Type", "application/json"),
            ("Access-Control-Allow-Origin", "*"),
            ("Cache-Control", "no-store"),
        ],
        body: json,
    }
}

pub fn not_found() -> (response: PageResponse)
    ensures
        response.status == 404,
        response.body@.len() == 0,
        response.headers@ == seq![("Access-Control-Allow-Origin", "*")],
{
    PageResponse {
        status: 404,
        headers: vec![("Access-Control-Allow-Origin", "*")],
        body: String::new(),
    }
}

/// The fault page.
pub const FAULT_HTML: &'static str = "<!doctype html><html lang=\"en\" style=\"background:#131619\">
<head><meta charset=\"utf-8\"><title>Station</title><style>
  body{margin:0;height:100vh;display:flex;flex-direction:column;align-items:center;
       justify-content:center;gap:28px;background:#131619;color:#8b949e;
       font:600 34px/1.2 \"Segoe UI\",sans-serif;letter-spacing:.12em}
  .glyph{display:flex;gap:14px}.glyph i{width:22px;height:72px;background:#8b949e;border-radius:6px}
</style></head>
<body><div class=\"glyph\"><i></i><i></i></div><div>LINE PAUSED</div></body></html>";

pub fn fault_page() -> (response: PageResponse)
    ensures
        response.status == 200,
        response.body@ == FAULT_HTML@,
        response.headers@ == seq![("Content-Type", "text/html; charset=utf-8")],
{
    PageResponse {
        status: 200,
        headers: vec![("Content-Type", "text/html; charset=utf-8")],
        body: FAULT_HTML.to_owned(),
    }
}

/// The two pages are at their own paths and nowhere else.
pub proof fn law_each_page_is_at_its_path(path: Seq<char>)
    ensures
        route_of(path) == Route::Boot <==> path == "/boot"@,
        route_of(path) == Route::Fault <==> path == "/fault"@,
        route_of(path) == Route::NotFound <==> path != "/boot"@ && path != "/fault"@,
{
    reveal_strlit("/boot");
    reveal_strlit("/fault");
    assert("/boot"@.len() != "/fault"@.len());
}

/// A document boots from exactly the payload that is there, and no cache may
/// answer in its place.
pub proof fn law_the_boot_payload_is_served_fresh(json: String, response: PageResponse)
    requires
        call_ensures(boot_response, (json,), response),
    ensures
        response.status == 200,
        response.body@ == json@,
        response.headers@.contains(("Cache-Control", "no-store")),
        response.headers@.contains(("Access-Control-Allow-Origin", "*")),
{
    assert(response.headers@[2] == ("Cache-Control", "no-store"));
    assert(response.headers@[1] == ("Access-Control-Allow-Origin", "*"));
}

/// What is not there is answered with nothing, and a fault with its page.
pub proof fn law_other_pages_are_plain(missing: PageResponse, fault: PageResponse)
    requires
        call_ensures(not_found, (), missing),
        call_ensures(fault_page, (), fault),
    ensures
        missing.status == 404,
        missing.body@.len() == 0,
        fault.status == 200,
        fault.body@ == FAULT_HTML@,
        fault.headers@ == seq![("Content-Type", "text/html; charset=utf-8")],
{
}

}
