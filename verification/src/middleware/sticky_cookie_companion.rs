//! The response half of cookie affinity: stamps every response with the
//! session cookie of the backend that served it.

use vstd::prelude::*;
use std::sync::Arc;
use hyper::header::HeaderMap;
use hyper::header::HeaderValue;
use crate::health::Healthiness;
use crate::lb_strategy::RequestCookie;
use crate::lb_strategy::StickyCookieConfig;
use crate::lb_strategy::set_cookie_text;
use crate::lb_strategy::SameSite;
use crate::middleware::has_room;
use crate::middleware::header_value_ok;
use crate::middleware::header_value_ok_of_parts;
use crate::middleware::put_set_cookie;
use crate::middleware::RequestHandler;
use crate::middleware::RequestHandlerContext;
use crate::server::BackendPool;
use crate::server::RoutingDecision;

verus! {

/// The handler that belongs to a pool with cookie affinity. It holds the
/// pool's cookie attributes.
#[derive(Debug)]
pub struct StickyCookieCompanion {
    pub config: Arc<StickyCookieConfig>,
}

impl RequestHandler for StickyCookieCompanion {
    open spec fn request_effect(
        &self,
        lines: Map<Seq<char>, Seq<Seq<u8>>>,
        context: &RequestHandlerContext,
    ) -> Map<Seq<char>, Seq<Seq<u8>>> {
        lines
    }

    open spec fn response_effect(
        &self,
        lines: Map<Seq<char>, Seq<Seq<u8>>>,
        context: &RequestHandlerContext,
    ) -> Map<Seq<char>, Seq<Seq<u8>>> {
        lines.insert(
            "set-cookie"@,
            seq![vstd::utf8::encode_utf8(self.config.session_cookie_text(context.backend_authority@))],
        )
    }

    /// The request is left as it is, which never fails.
    open spec fn request_is_sure(
        &self,
        lines: Map<Seq<char>, Seq<Seq<u8>>>,
        context: &RequestHandlerContext,
    ) -> bool {
        true
    }

    /// The cookie is stored where its text is a header value and the header
    /// map has room for one more header.
    open spec fn response_is_sure(
        &self,
        lines: Map<Seq<char>, Seq<Seq<u8>>>,
        context: &RequestHandlerContext,
    ) -> bool {
        header_value_ok(self.config.session_cookie_text(context.backend_authority@)) && has_room(
            lines,
        )
    }

    /// Leaves the request as it is.
    fn modify_request(&self, headers: &mut HeaderMap<HeaderValue>, context: &RequestHandlerContext) -> (done:
        bool)
        ensures
            done,
    {
        true
    }

    /// Sets the response's `set-cookie` header to the session cookie of the
    /// backend that the context names, in place of whatever values the header
    /// had. Returns whether the header map took the cookie; where it did not,
    /// the headers are as they were. It takes the cookie where its text is a
    /// header value and the map has room, and takes none that holds a
    /// character which no header value may hold.
    fn modify_response(&self, headers: &mut HeaderMap<HeaderValue>, context: &RequestHandlerContext) -> (done:
        bool)
        ensures
            !header_value_ok(self.config.session_cookie_text(context.backend_authority@))
                ==> !done,
    {
        let cookie = self.config.session_cookie(context.backend_authority.as_str());
        put_set_cookie(headers, cookie.as_str())
    }
}

/// Whatever path the selection took, the cookie that the companion stamps on
/// the response names the backend that the request was routed to: the header
/// `set-cookie` has one value, the session cookie of that backend's address,
/// which begins with the cookie's name, `=` and that address; every other
/// header is as it was.
pub proof fn cookie_names_backend_used(
    companion: StickyCookieCompanion,
    pool: BackendPool,
    position: usize,
    healths: Seq<Healthiness>,
    cookies: Seq<RequestCookie>,
    ticket: u64,
    decision: RoutingDecision,
    lines: Map<Seq<char>, Seq<Seq<u8>>>,
)
    requires
        healths.len() == pool.addresses@.len(),
        pool.routes(position, healths, cookies, ticket, decision),
        decision is Forward,
    ensures
        pool.strategy.choice(pool.addresses@, healths, cookies, ticket) matches Some(chosen)
            && decision matches RoutingDecision::Forward(context) && ({
            let address = pool.addresses@[chosen].address@;
            let name = companion.config.cookie_name@;
            let text = companion.config.session_cookie_text(address);
            let after = companion.response_effect(lines, &context);
            &&& after.dom() == lines.dom().insert("set-cookie"@)
            &&& after["set-cookie"@] == seq![vstd::utf8::encode_utf8(text)]
            &&& (name + "="@ + address).is_prefix_of(text)
            &&& forall|header: Seq<char>|
                header != "set-cookie"@ && lines.dom().contains(header) ==> after[header]
                    == lines[header]
        }),
{
}

/// A cookie's text is a header value exactly where its name and its value
/// are: what is written between and after them always is.
pub proof fn cookie_text_is_header_value(
    name: Seq<char>,
    value: Seq<char>,
    http_only: bool,
    secure: bool,
    same_site: SameSite,
)
    ensures
        header_value_ok(set_cookie_text(name, value, http_only, secure, same_site))
            <==> header_value_ok(name) && header_value_ok(value),
{
    reveal_strlit("=");
    reveal_strlit("; HttpOnly");
    reveal_strlit("; SameSite=");
    reveal_strlit("Strict");
    reveal_strlit("Lax");
    reveal_strlit("None");
    reveal_strlit("; Secure");
    let empty = Seq::<char>::empty();
    let flag = if http_only {
        "; HttpOnly"@
    } else {
        empty
    };
    let site = crate::lb_strategy::same_site_text(same_site);
    let lock = if secure {
        "; Secure"@
    } else {
        empty
    };
    assert(header_value_ok("="@));
    assert(header_value_ok(flag));
    assert(header_value_ok("; SameSite="@));
    assert(header_value_ok(site));
    assert(header_value_ok(lock));
    header_value_ok_of_parts(name, "="@);
    header_value_ok_of_parts(name + "="@, value);
    header_value_ok_of_parts(name + "="@ + value, flag);
    header_value_ok_of_parts(name + "="@ + value + flag, "; SameSite="@);
    header_value_ok_of_parts(name + "="@ + value + flag + "; SameSite="@, site);
    header_value_ok_of_parts(name + "="@ + value + flag + "; SameSite="@ + site, lock);
}

/// On headers with room, the companion is sure to stamp the response where
/// the cookie's name and the backend's address are header values. With the
/// contract of `modify_response` this says that the call then returns `true`
/// and leaves the header `set-cookie` with one value, the session cookie of
/// that backend.
pub proof fn companion_is_sure(
    companion: StickyCookieCompanion,
    lines: Map<Seq<char>, Seq<Seq<u8>>>,
    context: RequestHandlerContext,
)
    requires
        has_room(lines),
        header_value_ok(companion.config.cookie_name@),
        header_value_ok(context.backend_authority@),
    ensures
        companion.response_is_sure(lines, &context),
{
    cookie_text_is_header_value(
        companion.config.cookie_name@,
        context.backend_authority@,
        companion.config.http_only,
        companion.config.secure,
        companion.config.same_site,
    );
}

} // verus!
