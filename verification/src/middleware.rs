//! The handler pipeline: an ordered chain of handlers that may change the
//! headers of the outbound request and of the response.

use vstd::prelude::*;
use vstd::string::StrSliceExecFns;
use vstd::string::StringSliceAdditionalSpecFns;
use hyper::header::HeaderMap;
use hyper::header::HeaderValue;
use hyper::header::SET_COOKIE;

pub mod sticky_cookie_companion;

verus! {

/// `http::HeaderMap`, the headers of a request or a response. Proofs see
/// nothing inside it; `header_lines` names what it holds.
#[verifier::external_type_specification]
#[verifier::external_body]
#[verifier::reject_recursive_types(T)]
pub struct ExHeaderMap<T>(HeaderMap<T>);

/// `http::HeaderValue`, one value of a header, as the type of a header map's
/// values. Nothing is stated of it.
#[verifier::external_type_specification]
#[verifier::external_body]
pub struct ExHeaderValue(HeaderValue);

/// What a header map holds: for each header name (in lower case) that is
/// present, the bytes of its values, in the order in which they were added.
pub uninterp spec fn header_lines(headers: HeaderMap<HeaderValue>) -> Map<Seq<char>, Seq<Seq<u8>>>;

/// Whether a header map takes `text` as a value: every byte of it is a tab or
/// is neither a control byte nor DEL.
pub open spec fn header_value_ok(text: Seq<char>) -> bool {
    forall|i: int| 0 <= i < text.len() ==> #[trigger] header_char_ok(text[i])
}

/// Whether a character may stand in a header value.
pub open spec fn header_char_ok(c: char) -> bool {
    (c as u32 >= 32 && c as u32 != 127) || c == '\t'
}

/// A header map with fewer names than this takes one more header: the `http`
/// crate refuses an insertion only in a map of 32768 slots that holds at least
/// a fifth as many names.
pub const HEADER_NAMES_BOUND: usize = 6554;

/// Whether a header map that holds `lines` is sure to take one more header.
pub open spec fn has_room(lines: Map<Seq<char>, Seq<Seq<u8>>>) -> bool {
    lines.dom().finite() && lines.dom().len() < HEADER_NAMES_BOUND
}

/// Whether `lines` has finitely many header names, `count` of them.
pub open spec fn has_names(lines: Map<Seq<char>, Seq<Seq<u8>>>, count: usize) -> bool {
    lines.dom().finite() && lines.dom().len() == count
}

/// `HeaderMap::keys_len`: the number of header names in the map, of which
/// there are finitely many.
#[verifier::external_body]
fn count_header_names(headers: &HeaderMap<HeaderValue>) -> (count: usize)
    ensures
        has_names(header_lines(*headers), count),
{
    headers.keys_len()
}

/// Tells whether the header map is sure to take one more header.
pub fn headers_have_room(headers: &HeaderMap<HeaderValue>) -> (room: bool)
    ensures
        room == has_room(header_lines(*headers)),
{
    count_header_names(headers) < HEADER_NAMES_BOUND
}

/// Tells whether a header map takes `text` as a value.
pub fn is_header_value(text: &str) -> (ok: bool)
    ensures
        ok == header_value_ok(text@),
{
    let ascii = text.is_ascii();
    let length = text.unicode_len();
    let mut i: usize = 0;
    while i < length
        invariant
            length == text@.len(),
            ascii == text.is_ascii(),
            i <= length,
            forall|j: int| 0 <= j < i ==> header_char_ok(#[trigger] text@[j]),
        decreases length - i,
    {
        let ok = if ascii {
            let byte = text.get_ascii(i);
            (byte >= 32 && byte != 127) || byte == 9
        } else {
            let c = text.get_char(i);
            (c as u32 >= 32 && c as u32 != 127) || c == '\t'
        };
        assert(ok == header_char_ok(text@[i as int]));
        if !ok {
            return false;
        }
        i += 1;
    }
    true
}

/// A text made of two parts is a header value exactly where both parts are.
pub proof fn header_value_ok_of_parts(first: Seq<char>, second: Seq<char>)
    ensures
        header_value_ok(first + second) <==> header_value_ok(first) && header_value_ok(second),
{
    let whole = first + second;
    if header_value_ok(whole) {
        assert forall|i: int| 0 <= i < first.len() implies header_char_ok(#[trigger] first[i]) by {
            assert(whole[i] == first[i]);
        }
        assert forall|i: int| 0 <= i < second.len() implies header_char_ok(
            #[trigger] second[i],
        ) by {
            assert(whole[first.len() + i] == second[i]);
        }
    }
    if header_value_ok(first) && header_value_ok(second) {
        assert forall|i: int| 0 <= i < whole.len() implies header_char_ok(#[trigger] whole[i]) by {
            if i < first.len() {
                assert(whole[i] == first[i]);
            } else {
                assert(whole[i] == second[i - first.len()]);
            }
        }
    }
}

/// What belongs to one forwarded request: the pool that the request matched,
/// and the backend that was chosen for it.
#[derive(Debug)]
pub struct RequestHandlerContext {
    /// Position of the matched pool in the routing snapshot.
    pub pool: usize,
    /// Position of the chosen backend in the pool.
    pub backend: usize,
    /// Host and port of the chosen backend.
    pub backend_authority: String,
}

/// `HeaderValue::from_str` on `value`, then `HeaderMap::try_insert` of the
/// result under `set-cookie`. Returns whether the value was stored.
/// - Where it was, the value had only bytes that a header value may hold, and
///   the header now has this one value, whatever it had before; all other
///   headers are as they were.
/// - Where it was not, the map holds what it held: `from_str` fails before the
///   map is touched, and `try_insert` reports a full map before it adds or
///   replaces an entry.
/// - It is stored where the value is a header value and the map has room:
///   `from_str` refuses only a byte that no header value may hold, and
///   `try_insert` fails only where the map cannot grow, which takes 32768
///   slots and at least 6554 names.
#[verifier::external_body]
pub(crate) fn put_set_cookie(headers: &mut HeaderMap<HeaderValue>, value: &str) -> (stored: bool)
    ensures
        stored ==> header_value_ok(value@),
        stored ==> header_lines(*final(headers)) == header_lines(*old(headers)).insert(
            "set-cookie"@,
            seq![value.spec_bytes()],
        ),
        !stored ==> header_lines(*final(headers)) == header_lines(*old(headers)),
        header_value_ok(value@) && has_room(header_lines(*old(headers))) ==> stored,
{
    match HeaderValue::from_str(value) {
        Ok(header_value) => headers.try_insert(SET_COOKIE, header_value).is_ok(),
        Err(_) => false,
    }
}

/// A handler of the pipeline, with one hook for the outbound request and one
/// for the response. A hook makes its whole change or none, and says which. A
/// handler with nothing to do in one direction leaves the headers as they are
/// there, which is a change that is sure to be made.
pub trait RequestHandler {
    /// What `modify_request` makes of the outbound request's headers.
    spec fn request_effect(
        &self,
        lines: Map<Seq<char>, Seq<Seq<u8>>>,
        context: &RequestHandlerContext,
    ) -> Map<Seq<char>, Seq<Seq<u8>>>;

    /// What `modify_response` makes of the response's headers.
    spec fn response_effect(
        &self,
        lines: Map<Seq<char>, Seq<Seq<u8>>>,
        context: &RequestHandlerContext,
    ) -> Map<Seq<char>, Seq<Seq<u8>>>;

    /// Whether `modify_request` is sure to make its change to headers that
    /// hold `lines`.
    spec fn request_is_sure(
        &self,
        lines: Map<Seq<char>, Seq<Seq<u8>>>,
        context: &RequestHandlerContext,
    ) -> bool;

    /// Whether `modify_response` is sure to make its change to headers that
    /// hold `lines`.
    spec fn response_is_sure(
        &self,
        lines: Map<Seq<char>, Seq<Seq<u8>>>,
        context: &RequestHandlerContext,
    ) -> bool;

    /// Changes the headers of the outbound request. Returns whether the change
    /// was made; where it was not, the headers are as they were.
    fn modify_request(&self, headers: &mut HeaderMap<HeaderValue>, context: &RequestHandlerContext) -> (done:
        bool)
        ensures
            done ==> header_lines(*final(headers)) == self.request_effect(
                header_lines(*old(headers)),
                context,
            ),
            !done ==> header_lines(*final(headers)) == header_lines(*old(headers)),
            self.request_is_sure(header_lines(*old(headers)), context) ==> done,
    ;

    /// Changes the headers of the response. Returns whether the change was
    /// made; where it was not, the headers are as they were.
    fn modify_response(&self, headers: &mut HeaderMap<HeaderValue>, context: &RequestHandlerContext) -> (done:
        bool)
        ensures
            done ==> header_lines(*final(headers)) == self.response_effect(
                header_lines(*old(headers)),
                context,
            ),
            !done ==> header_lines(*final(headers)) == header_lines(*old(headers)),
            self.response_is_sure(header_lines(*old(headers)), context) ==> done,
    ;
}

/// The request headers after the first `n` handlers of the chain ran, each on
/// what the one before it left.
pub open spec fn request_chain_effect<H: RequestHandler>(
    handlers: Seq<H>,
    n: int,
    lines: Map<Seq<char>, Seq<Seq<u8>>>,
    context: &RequestHandlerContext,
) -> Map<Seq<char>, Seq<Seq<u8>>>
    decreases n,
{
    if n <= 0 {
        lines
    } else {
        handlers[n - 1].request_effect(
            request_chain_effect(handlers, n - 1, lines, context),
            context,
        )
    }
}

/// The response headers after the first `n` handlers of the chain ran, each on
/// what the one before it left.
pub open spec fn response_chain_effect<H: RequestHandler>(
    handlers: Seq<H>,
    n: int,
    lines: Map<Seq<char>, Seq<Seq<u8>>>,
    context: &RequestHandlerContext,
) -> Map<Seq<char>, Seq<Seq<u8>>>
    decreases n,
{
    if n <= 0 {
        lines
    } else {
        handlers[n - 1].response_effect(
            response_chain_effect(handlers, n - 1, lines, context),
            context,
        )
    }
}

/// Whether every handler of a run made its change.
pub open spec fn all_made(made: Seq<bool>) -> bool {
    forall|i: int| 0 <= i < made.len() ==> made[i]
}

/// The request headers after the first `n` handlers of the chain ran, of which
/// those marked in `made` made their change and the others none.
pub open spec fn request_chain_effect_of<H: RequestHandler>(
    handlers: Seq<H>,
    made: Seq<bool>,
    n: int,
    lines: Map<Seq<char>, Seq<Seq<u8>>>,
    context: &RequestHandlerContext,
) -> Map<Seq<char>, Seq<Seq<u8>>>
    decreases n,
{
    if n <= 0 {
        lines
    } else if made[n - 1] {
        handlers[n - 1].request_effect(
            request_chain_effect_of(handlers, made, n - 1, lines, context),
            context,
        )
    } else {
        request_chain_effect_of(handlers, made, n - 1, lines, context)
    }
}

/// The response headers after the first `n` handlers of the chain ran, of
/// which those marked in `made` made their change and the others none.
pub open spec fn response_chain_effect_of<H: RequestHandler>(
    handlers: Seq<H>,
    made: Seq<bool>,
    n: int,
    lines: Map<Seq<char>, Seq<Seq<u8>>>,
    context: &RequestHandlerContext,
) -> Map<Seq<char>, Seq<Seq<u8>>>
    decreases n,
{
    if n <= 0 {
        lines
    } else if made[n - 1] {
        handlers[n - 1].response_effect(
            response_chain_effect_of(handlers, made, n - 1, lines, context),
            context,
        )
    } else {
        response_chain_effect_of(handlers, made, n - 1, lines, context)
    }
}

/// Whether every handler of the chain is sure to make its change to the
/// request, each to what the handlers before it make of `lines`.
pub open spec fn request_chain_is_sure<H: RequestHandler>(
    handlers: Seq<H>,
    lines: Map<Seq<char>, Seq<Seq<u8>>>,
    context: &RequestHandlerContext,
) -> bool {
    forall|i: int|
        0 <= i < handlers.len() ==> (#[trigger] handlers[i]).request_is_sure(
            request_chain_effect(handlers, i, lines, context),
            context,
        )
}

/// Whether every handler of the chain is sure to make its change to the
/// response, each to what the handlers before it make of `lines`.
pub open spec fn response_chain_is_sure<H: RequestHandler>(
    handlers: Seq<H>,
    lines: Map<Seq<char>, Seq<Seq<u8>>>,
    context: &RequestHandlerContext,
) -> bool {
    forall|i: int|
        0 <= i < handlers.len() ==> (#[trigger] handlers[i]).response_is_sure(
            response_chain_effect(handlers, i, lines, context),
            context,
        )
}

/// A run with one more handler made every change exactly where the run before
/// did and the new handler made its own.
proof fn all_made_with_one_more(made: Seq<bool>, mark: bool)
    ensures
        all_made(made.push(mark)) == (all_made(made) && mark),
{
    let longer = made.push(mark);
    if all_made(made) && mark {
        assert forall|j: int| 0 <= j < longer.len() implies longer[j] by {
            if j < made.len() {
                assert(made[j]);
            }
        }
    } else if all_made(longer) {
        assert(longer[made.len() as int]);
        assert forall|j: int| 0 <= j < made.len() implies made[j] by {
            assert(longer[j]);
        }
    }
}

/// What the first `n` handlers make of the request does not depend on the
/// marks of later handlers.
proof fn request_marks_beyond_are_idle<H: RequestHandler>(
    handlers: Seq<H>,
    made: Seq<bool>,
    mark: bool,
    n: int,
    lines: Map<Seq<char>, Seq<Seq<u8>>>,
    context: &RequestHandlerContext,
)
    requires
        n <= made.len(),
    ensures
        request_chain_effect_of(handlers, made.push(mark), n, lines, context)
            == request_chain_effect_of(handlers, made, n, lines, context),
    decreases n,
{
    if n > 0 {
        request_marks_beyond_are_idle(handlers, made, mark, n - 1, lines, context);
    }
}

/// What the first `n` handlers make of the response does not depend on the
/// marks of later handlers.
proof fn response_marks_beyond_are_idle<H: RequestHandler>(
    handlers: Seq<H>,
    made: Seq<bool>,
    mark: bool,
    n: int,
    lines: Map<Seq<char>, Seq<Seq<u8>>>,
    context: &RequestHandlerContext,
)
    requires
        n <= made.len(),
    ensures
        response_chain_effect_of(handlers, made.push(mark), n, lines, context)
            == response_chain_effect_of(handlers, made, n, lines, context),
    decreases n,
{
    if n > 0 {
        response_marks_beyond_are_idle(handlers, made, mark, n - 1, lines, context);
    }
}

/// Runs the `modify_request` hook of every handler, in the order of the chain,
/// each on what the handlers before it left. No handler is skipped, also after
/// one that could not make its change. Returns whether every handler made its
/// change, which is so where each is sure to make it to what it finds.
/// The headers are then what the whole chain makes of them; in any case they
/// are what those handlers make of them that made their change.
pub fn run_request_handlers<H: RequestHandler>(
    handlers: &Vec<H>,
    headers: &mut HeaderMap<HeaderValue>,
    context: &RequestHandlerContext,
) -> (done: bool)
    ensures
        done ==> header_lines(*final(headers)) == request_chain_effect(
            handlers@,
            handlers@.len() as int,
            header_lines(*old(headers)),
            context,
        ),
        request_chain_is_sure(handlers@, header_lines(*old(headers)), context) ==> done,
        exists|made: Seq<bool>|
            made.len() == handlers@.len() && done == all_made(made) && header_lines(*final(headers))
                == #[trigger] request_chain_effect_of(
                handlers@,
                made,
                handlers@.len() as int,
                header_lines(*old(headers)),
                context,
            ),
{
    let mut done = true;
    let ghost mut made: Seq<bool> = Seq::empty();
    let mut i: usize = 0;
    while i < handlers.len()
        invariant
            i <= handlers.len(),
            made.len() == i,
            done == all_made(made),
            done ==> header_lines(*headers) == request_chain_effect(
                handlers@,
                i as int,
                header_lines(*old(headers)),
                context,
            ),
            request_chain_is_sure(handlers@, header_lines(*old(headers)), context) ==> done,
            header_lines(*headers) == request_chain_effect_of(
                handlers@,
                made,
                i as int,
                header_lines(*old(headers)),
                context,
            ),
        decreases handlers.len() - i,
    {
        let changed = handlers[i].modify_request(headers, context);
        proof {
            request_marks_beyond_are_idle(
                handlers@,
                made,
                changed,
                i as int,
                header_lines(*old(headers)),
                context,
            );
            all_made_with_one_more(made, changed);
            made = made.push(changed);
        }
        done = done && changed;
        i += 1;
    }
    done
}

/// Runs the `modify_response` hook of every handler, in the order of the
/// chain, each on what the handlers before it left, whatever the response's
/// status. No handler is skipped, also after one that could not make its
/// change. Returns whether every handler made its change, which is so where
/// each is sure to make it to what it finds. The headers are then what the
/// whole chain makes of them; in any case they are what those handlers make of
/// them that made their change.
pub fn run_response_handlers<H: RequestHandler>(
    handlers: &Vec<H>,
    headers: &mut HeaderMap<HeaderValue>,
    context: &RequestHandlerContext,
) -> (done: bool)
    ensures
        done ==> header_lines(*final(headers)) == response_chain_effect(
            handlers@,
            handlers@.len() as int,
            header_lines(*old(headers)),
            context,
        ),
        response_chain_is_sure(handlers@, header_lines(*old(headers)), context) ==> done,
        exists|made: Seq<bool>|
            made.len() == handlers@.len() && done == all_made(made) && header_lines(*final(headers))
                == #[trigger] response_chain_effect_of(
                handlers@,
                made,
                handlers@.len() as int,
                header_lines(*old(headers)),
                context,
            ),
{
    let mut done = true;
    let ghost mut made: Seq<bool> = Seq::empty();
    let mut i: usize = 0;
    while i < handlers.len()
        invariant
            i <= handlers.len(),
            made.len() == i,
            done == all_made(made),
            done ==> header_lines(*headers) == response_chain_effect(
                handlers@,
                i as int,
                header_lines(*old(headers)),
                context,
            ),
            response_chain_is_sure(handlers@, header_lines(*old(headers)), context) ==> done,
            header_lines(*headers) == response_chain_effect_of(
                handlers@,
                made,
                i as int,
                header_lines(*old(headers)),
                context,
            ),
        decreases handlers.len() - i,
    {
        let changed = handlers[i].modify_response(headers, context);
        proof {
            response_marks_beyond_are_idle(
                handlers@,
                made,
                changed,
                i as int,
                header_lines(*old(headers)),
                context,
            );
            all_made_with_one_more(made, changed);
            made = made.push(changed);
        }
        done = done && changed;
        i += 1;
    }
    done
}

} // verus!
