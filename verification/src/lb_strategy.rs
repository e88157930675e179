//! Choosing a backend for a request: the eligibility rule, the base rule that
//! picks among the eligible backends by a ticket, and cookie affinity.

use vstd::prelude::*;
use std::sync::Arc;
use cookie::Cookie;
use vstd::string::StrSliceExecFns;
use crate::health::Healthiness;
use crate::server::BackendAddress;

verus! {

/// The `SameSite` attribute of the session cookie.
#[derive(Debug, Clone, Copy, PartialEq, Eq, Structural)]
pub enum SameSite {
    Strict,
    Lax,
    /// Written `None` in the header: the cookie goes with cross-site requests.
    Unrestricted,
}

/// The fixed attributes of a pool's session cookie.
#[derive(Debug)]
pub struct StickyCookieConfig {
    pub cookie_name: String,
    pub http_only: bool,
    pub secure: bool,
    pub same_site: SameSite,
}

/// How a `SameSite` attribute is written in a header.
pub open spec fn same_site_text(same_site: SameSite) -> Seq<char> {
    match same_site {
        SameSite::Strict => "Strict"@,
        SameSite::Lax => "Lax"@,
        SameSite::Unrestricted => "None"@,
    }
}

/// The `Set-Cookie` header value of a cookie with these attributes: the name,
/// `=`, the value, then `; HttpOnly` if set, the `SameSite` attribute, and
/// `; Secure` if set.
pub open spec fn set_cookie_text(
    name: Seq<char>,
    value: Seq<char>,
    http_only: bool,
    secure: bool,
    same_site: SameSite,
) -> Seq<char> {
    name + "="@ + value + (if http_only {
        "; HttpOnly"@
    } else {
        Seq::<char>::empty()
    }) + "; SameSite="@ + same_site_text(same_site) + (if secure {
        "; Secure"@
    } else {
        Seq::<char>::empty()
    })
}

/// `cookie::Cookie::build(name, value)`, with `http_only`, `secure` and
/// `same_site` set on the builder, finished and formatted by the cookie's
/// `Display`. The contract is that formatting as the crate's source has it for
/// a cookie on which exactly these three attributes were set: nothing is
/// encoded, and `; Secure` is written only for `secure == true`.
#[verifier::external_body]
fn render_cookie(name: &str, value: &str, http_only: bool, secure: bool, same_site: SameSite) -> (text:
    String)
    ensures
        text@ == set_cookie_text(name@, value@, http_only, secure, same_site),
{
    let same_site = match same_site {
        SameSite::Strict => cookie::SameSite::Strict,
        SameSite::Lax => cookie::SameSite::Lax,
        SameSite::Unrestricted => cookie::SameSite::None,
    };
    Cookie::build(name, value).http_only(http_only).secure(secure).same_site(same_site).finish().to_string()
}

impl StickyCookieConfig {
    /// The `Set-Cookie` value that binds a client to the backend at `backend`.
    pub open spec fn session_cookie_text(&self, backend: Seq<char>) -> Seq<char> {
        set_cookie_text(self.cookie_name@, backend, self.http_only, self.secure, self.same_site)
    }

    /// Renders the session cookie that names `backend`.
    pub fn session_cookie(&self, backend: &str) -> (text: String)
        ensures
            text@ == self.session_cookie_text(backend@),
    {
        render_cookie(
            self.cookie_name.as_str(),
            backend,
            self.http_only,
            self.secure,
            self.same_site,
        )
    }
}

/// One cookie that a request carries.
#[derive(Debug)]
pub struct RequestCookie {
    pub name: String,
    pub value: String,
}

/// The name and value of an optional cookie.
pub open spec fn pair_of(cookie: Option<RequestCookie>) -> Option<(Seq<char>, Seq<char>)> {
    match cookie {
        Some(c) => Some((c.name@, c.value@)),
        None => None,
    }
}

/// The names and values of a list of cookies.
pub open spec fn pairs_of(cookies: Seq<RequestCookie>) -> Seq<(Seq<char>, Seq<char>)> {
    cookies.map_values(|c: RequestCookie| (c.name@, c.value@))
}

/// The name and value that one piece of a `Cookie` header stands for, or
/// `None` where the piece has no `=` or no name.
pub uninterp spec fn cookie_pair(piece: Seq<char>) -> Option<(Seq<char>, Seq<char>)>;

/// `cookie::Cookie::parse` on one piece of a `Cookie` header, a text without
/// `;`: the cookie's name and value as the crate reads them, `None` where it
/// reports an error.
#[verifier::external_body]
fn parse_cookie_pair(piece: &str) -> (cookie: Option<RequestCookie>)
    requires
        !piece@.contains(';'),
    ensures
        pair_of(cookie) == cookie_pair(piece@),
{
    match Cookie::parse(piece) {
        Ok(cookie) => Some(
            RequestCookie { name: cookie.name().to_string(), value: cookie.value().to_string() },
        ),
        Err(_) => None,
    }
}

/// The pieces of a `Cookie` header: the texts before, between and after its
/// semicolons, in order. A header without a semicolon is one piece.
pub open spec fn header_pieces(text: Seq<char>) -> Seq<Seq<char>>
    decreases text.len(),
{
    if text.len() == 0 {
        seq![Seq::<char>::empty()]
    } else {
        let before = header_pieces(text.drop_last());
        if text.last() == ';' {
            before.push(Seq::<char>::empty())
        } else {
            before.drop_last().push(before.last().push(text.last()))
        }
    }
}

/// The cookies that a list of pieces stands for: the pair of every piece that
/// is one, in the order of the pieces.
pub open spec fn cookies_of_pieces(pieces: Seq<Seq<char>>) -> Seq<(Seq<char>, Seq<char>)>
    decreases pieces.len(),
{
    if pieces.len() == 0 {
        Seq::<(Seq<char>, Seq<char>)>::empty()
    } else {
        let before = cookies_of_pieces(pieces.drop_last());
        match cookie_pair(pieces.last()) {
            Some(pair) => before.push(pair),
            None => before,
        }
    }
}

/// Reads the cookies of one `Cookie` header: splits it at its semicolons and
/// keeps every piece that is a cookie.
pub fn parse_cookie_header(header: &str) -> (cookies: Vec<RequestCookie>)
    ensures
        pairs_of(cookies@) == cookies_of_pieces(header_pieces(header@)),
{
    let ascii = header.is_ascii();
    let length = header.unicode_len();
    let mut cookies: Vec<RequestCookie> = Vec::new();
    let ghost mut complete: Seq<Seq<char>> = Seq::empty();
    let mut start: usize = 0;
    let mut i: usize = 0;
    assert(header@.subrange(0, 0) =~= Seq::<char>::empty());
    while i < length
        invariant
            length == header@.len(),
            ascii == header.is_ascii(),
            start <= i <= length,
            header_pieces(header@.take(i as int)) == complete.push(
                header@.subrange(start as int, i as int),
            ),
            !header@.subrange(start as int, i as int).contains(';'),
            pairs_of(cookies@) == cookies_of_pieces(complete),
        decreases length - i,
    {
        let at_semicolon = if ascii {
            let byte = header.get_ascii(i);
            assert(header@[i as int] == ';' <==> byte == 59u8);
            byte == 59u8
        } else {
            header.get_char(i) == ';'
        };
        let ghost current = header@.subrange(start as int, i as int);
        assert(header@.take(i + 1).drop_last() =~= header@.take(i as int));
        if at_semicolon {
            let piece = if ascii {
                header.substring_ascii(start, i)
            } else {
                header.substring_char(start, i)
            };
            match parse_cookie_pair(piece) {
                Some(cookie) => {
                    cookies.push(cookie);
                },
                None => {},
            }
            proof {
                assert(complete.push(current).drop_last() =~= complete);
                complete = complete.push(current);
                assert(header@.subrange(i + 1, i + 1) =~= Seq::<char>::empty());
            }
            start = i + 1;
        } else {
            assert(header@.subrange(start as int, i + 1) =~= current.push(header@[i as int]));
        }
        i += 1;
    }
    assert(header@.take(length as int) =~= header@);
    let piece = if ascii {
        header.substring_ascii(start, length)
    } else {
        header.substring_char(start, length)
    };
    assert(complete.push(piece@).drop_last() =~= complete);
    match parse_cookie_pair(piece) {
        Some(cookie) => {
            cookies.push(cookie);
        },
        None => {},
    }
    cookies
}

/// The rule that picks among the eligible backends. Each takes the backend
/// whose rank among the eligible ones is the ticket modulo their number; they
/// differ in where the ticket comes from: a counter that the caller advances
/// by one per request, a random draw, or a hash of the client's address.
#[derive(Debug, Clone, Copy, PartialEq, Eq, Structural)]
pub enum BaseStrategy {
    RoundRobin,
    Random,
    IpHash,
}

/// The selection policy of a pool.
#[derive(Debug)]
pub enum LoadBalancingStrategy {
    RoundRobin,
    Random,
    IpHash,
    /// Cookie affinity, with the rule to fall back on.
    StickyCookie { config: Arc<StickyCookieConfig>, inner: BaseStrategy },
}

/// The positions of the eligible backends, in pool order.
pub open spec fn eligible_indices(healths: Seq<Healthiness>) -> Seq<int>
    decreases healths.len(),
{
    if healths.len() == 0 {
        Seq::<int>::empty()
    } else if healths.last().eligible() {
        eligible_indices(healths.drop_last()).push(healths.len() - 1)
    } else {
        eligible_indices(healths.drop_last())
    }
}

/// The base rule: none where no backend is eligible, else the eligible backend
/// whose rank is the ticket modulo the number of eligible backends.
pub open spec fn base_choice(healths: Seq<Healthiness>, ticket: u64) -> Option<int> {
    let eligible = eligible_indices(healths);
    if eligible.len() == 0 {
        None
    } else {
        Some(eligible[ticket as int % eligible.len() as int])
    }
}

/// The value of the first cookie called `name` among `cookies[from..]`.
pub open spec fn cookie_value(cookies: Seq<RequestCookie>, name: Seq<char>, from: int) -> Option<
    Seq<char>,
>
    decreases cookies.len() - from,
{
    if from < 0 || from >= cookies.len() {
        None
    } else if cookies[from].name@ == name {
        Some(cookies[from].value@)
    } else {
        cookie_value(cookies, name, from + 1)
    }
}

/// The first position at or after `from` of an eligible backend whose address
/// is `wanted`.
pub open spec fn eligible_address(
    addresses: Seq<BackendAddress>,
    healths: Seq<Healthiness>,
    wanted: Seq<char>,
    from: int,
) -> Option<int>
    decreases addresses.len() - from,
{
    if from < 0 || from >= addresses.len() || from >= healths.len() {
        None
    } else if addresses[from].address@ == wanted && healths[from].eligible() {
        Some(from)
    } else {
        eligible_address(addresses, healths, wanted, from + 1)
    }
}

/// The backend that the request's session cookie asks for, where it carries
/// one and that backend is eligible.
pub open spec fn affinity_choice(
    config: StickyCookieConfig,
    addresses: Seq<BackendAddress>,
    healths: Seq<Healthiness>,
    cookies: Seq<RequestCookie>,
) -> Option<int> {
    match cookie_value(cookies, config.cookie_name@, 0) {
        Some(wanted) => eligible_address(addresses, healths, wanted, 0),
        None => None,
    }
}

impl LoadBalancingStrategy {
    /// The position of the backend that this policy chooses, or `None` where no
    /// backend is eligible.
    pub open spec fn choice(
        self,
        addresses: Seq<BackendAddress>,
        healths: Seq<Healthiness>,
        cookies: Seq<RequestCookie>,
        ticket: u64,
    ) -> Option<int> {
        match self {
            LoadBalancingStrategy::StickyCookie { config, inner } => {
                match affinity_choice(*config, addresses, healths, cookies) {
                    Some(i) => Some(i),
                    None => base_choice(healths, ticket),
                }
            },
            _ => base_choice(healths, ticket),
        }
    }
}

/// Collects the positions of the eligible backends, in pool order.
pub fn eligible_positions(healths: &Vec<Healthiness>) -> (positions: Vec<usize>)
    ensures
        positions@.map_values(|i: usize| i as int) == eligible_indices(healths@),
{
    let mut positions: Vec<usize> = Vec::new();
    let mut i: usize = 0;
    while i < healths.len()
        invariant
            i <= healths.len(),
            positions@.map_values(|i: usize| i as int) =~= eligible_indices(healths@.take(i as int)),
        decreases healths.len() - i,
    {
        assert(healths@.take(i + 1).drop_last() =~= healths@.take(i as int));
        if healths[i].is_eligible() {
            positions.push(i);
        }
        i += 1;
    }
    assert(healths@.take(i as int) =~= healths@);
    positions
}

/// Applies the base rule to a pool's health view.
pub fn pick_by_ticket(healths: &Vec<Healthiness>, ticket: u64) -> (chosen: Option<usize>)
    ensures
        chosen is Some <==> base_choice(healths@, ticket) is Some,
        chosen matches Some(i) ==> base_choice(healths@, ticket) == Some(i as int),
{
    let positions = eligible_positions(healths);
    let count: usize = positions.len();
    if count == 0 {
        None
    } else {
        let rank: usize = (ticket % (count as u64)) as usize;
        assert(positions@.map_values(|i: usize| i as int)[rank as int] == positions@[rank as int]
            as int);
        Some(positions[rank])
    }
}

/// Looks up the request's first cookie called `name`.
pub fn find_cookie<'a>(cookies: &'a Vec<RequestCookie>, name: &String) -> (found: Option<
    &'a String,
>)
    ensures
        found is Some <==> cookie_value(cookies@, name@, 0) is Some,
        found matches Some(value) ==> cookie_value(cookies@, name@, 0) == Some(value@),
{
    let mut i: usize = 0;
    while i < cookies.len()
        invariant
            i <= cookies.len(),
            cookie_value(cookies@, name@, 0) == cookie_value(cookies@, name@, i as int),
        decreases cookies.len() - i,
    {
        if cookies[i].name == *name {
            return Some(&cookies[i].value);
        }
        i += 1;
    }
    None
}

/// Looks up the first eligible backend whose address is `wanted`.
pub fn find_eligible_address(
    addresses: &Vec<BackendAddress>,
    healths: &Vec<Healthiness>,
    wanted: &String,
) -> (found: Option<usize>)
    requires
        addresses.len() == healths.len(),
    ensures
        found is Some <==> eligible_address(addresses@, healths@, wanted@, 0) is Some,
        found matches Some(i) ==> eligible_address(addresses@, healths@, wanted@, 0) == Some(
            i as int,
        ),
{
    let mut i: usize = 0;
    while i < addresses.len()
        invariant
            i <= addresses.len(),
            addresses.len() == healths.len(),
            eligible_address(addresses@, healths@, wanted@, 0) == eligible_address(
                addresses@,
                healths@,
                wanted@,
                i as int,
            ),
        decreases addresses.len() - i,
    {
        if addresses[i].address == *wanted && healths[i].is_eligible() {
            return Some(i);
        }
        i += 1;
    }
    None
}

impl LoadBalancingStrategy {
    /// Chooses a backend for a request. `healths` is the pool's health as read
    /// once for this selection, `cookies` are the request's cookies, and
    /// `ticket` is what the base rule picks by.
    pub fn select(
        &self,
        addresses: &Vec<BackendAddress>,
        healths: &Vec<Healthiness>,
        cookies: &Vec<RequestCookie>,
        ticket: u64,
    ) -> (chosen: Option<usize>)
        requires
            addresses.len() == healths.len(),
        ensures
            chosen is Some <==> self.choice(addresses@, healths@, cookies@, ticket) is Some,
            chosen matches Some(i) ==> self.choice(addresses@, healths@, cookies@, ticket) == Some(
                i as int,
            ),
            chosen matches Some(i) ==> i < healths.len() && healths[i as int].eligible(),
    {
        proof {
            chosen_backend_is_eligible(*self, addresses@, healths@, cookies@, ticket);
        }
        match self {
            LoadBalancingStrategy::StickyCookie { config, inner } => {
                match find_cookie(cookies, &config.cookie_name) {
                    Some(wanted) => {
                        match find_eligible_address(addresses, healths, wanted) {
                            Some(i) => Some(i),
                            None => pick_by_ticket(healths, ticket),
                        }
                    },
                    None => pick_by_ticket(healths, ticket),
                }
            },
            _ => pick_by_ticket(healths, ticket),
        }
    }
}

/// Every entry of `eligible_indices` is the position of an eligible backend,
/// the entries ascend, and every eligible position is among them.
pub proof fn eligible_indices_are_exact(healths: Seq<Healthiness>)
    ensures
        forall|k: int|
            0 <= k < eligible_indices(healths).len() ==> 0 <= #[trigger] eligible_indices(
                healths,
            )[k] < healths.len() && healths[eligible_indices(healths)[k]].eligible(),
        forall|j: int, k: int|
            0 <= j < k < eligible_indices(healths).len() ==> eligible_indices(healths)[j]
                < eligible_indices(healths)[k],
        forall|i: int|
            0 <= i < healths.len() && (#[trigger] healths[i]).eligible() ==> eligible_indices(
                healths,
            ).contains(i),
    decreases healths.len(),
{
    if healths.len() > 0 {
        let shorter = healths.drop_last();
        eligible_indices_are_exact(shorter);
        let rest = eligible_indices(shorter);
        let all = eligible_indices(healths);
        assert forall|i: int| 0 <= i < healths.len() && (#[trigger] healths[i]).eligible() implies all.contains(
            i,
        ) by {
            if i < healths.len() - 1 {
                assert(shorter[i].eligible());
                let k = choose|k: int| 0 <= k < rest.len() && rest[k] == i;
                assert(all[k] == i);
            } else {
                assert(all[all.len() - 1] == i);
            }
        }
    }
}

/// What `eligible_address` finds is the first eligible backend at or after
/// `from` with the wanted address, and it finds none only where there is none.
pub proof fn eligible_address_is_first(
    addresses: Seq<BackendAddress>,
    healths: Seq<Healthiness>,
    wanted: Seq<char>,
    from: int,
)
    requires
        addresses.len() == healths.len(),
        0 <= from,
    ensures
        eligible_address(addresses, healths, wanted, from) matches Some(i) ==> (from <= i
            < addresses.len() && addresses[i].address@ == wanted && healths[i].eligible()
            && forall|j: int|
            from <= j < i ==> !(addresses[j].address@ == wanted && (#[trigger] healths[j]).eligible())),
        eligible_address(addresses, healths, wanted, from) is None ==> forall|j: int|
            from <= j < addresses.len() ==> !(addresses[j].address@ == wanted && (
            #[trigger] healths[j]).eligible()),
    decreases addresses.len() - from,
{
    if from < addresses.len() && !(addresses[from].address@ == wanted && healths[from].eligible()) {
        eligible_address_is_first(addresses, healths, wanted, from + 1);
    }
}

/// No policy ever chooses an unresponsive backend: what is chosen is a
/// position of the pool whose backend is eligible.
pub proof fn chosen_backend_is_eligible(
    strategy: LoadBalancingStrategy,
    addresses: Seq<BackendAddress>,
    healths: Seq<Healthiness>,
    cookies: Seq<RequestCookie>,
    ticket: u64,
)
    requires
        addresses.len() == healths.len(),
    ensures
        strategy.choice(addresses, healths, cookies, ticket) matches Some(i) ==> 0 <= i
            < healths.len() && healths[i].eligible() && !(healths[i] is Unresponsive),
{
    eligible_indices_are_exact(healths);
    let eligible = eligible_indices(healths);
    if eligible.len() > 0 {
        let rank = ticket as int % eligible.len() as int;
        assert(healths[eligible[rank]].eligible());
    }
    if let LoadBalancingStrategy::StickyCookie { config, inner } = strategy {
        if let Some(wanted) = cookie_value(cookies, config.cookie_name@, 0) {
            eligible_address_is_first(addresses, healths, wanted, 0);
        }
    }
}

/// Selection succeeds exactly where some backend of the pool is eligible.
pub proof fn selection_succeeds_iff_some_eligible(
    strategy: LoadBalancingStrategy,
    addresses: Seq<BackendAddress>,
    healths: Seq<Healthiness>,
    cookies: Seq<RequestCookie>,
    ticket: u64,
)
    requires
        addresses.len() == healths.len(),
    ensures
        strategy.choice(addresses, healths, cookies, ticket) is Some <==> exists|i: int|
            0 <= i < healths.len() && (#[trigger] healths[i]).eligible(),
{
    eligible_indices_are_exact(healths);
    chosen_backend_is_eligible(strategy, addresses, healths, cookies, ticket);
    if exists|i: int| 0 <= i < healths.len() && (#[trigger] healths[i]).eligible() {
        let i = choose|i: int| 0 <= i < healths.len() && (#[trigger] healths[i]).eligible();
        assert(eligible_indices(healths).contains(i));
    }
}

/// A pool whose backends are all slow still serves: selection succeeds.
pub proof fn slow_pool_still_serves(
    strategy: LoadBalancingStrategy,
    addresses: Seq<BackendAddress>,
    healths: Seq<Healthiness>,
    cookies: Seq<RequestCookie>,
    ticket: u64,
)
    requires
        addresses.len() == healths.len(),
        healths.len() > 0,
        forall|i: int| 0 <= i < healths.len() ==> (#[trigger] healths[i]) is Slow,
    ensures
        strategy.choice(addresses, healths, cookies, ticket) is Some,
{
    selection_succeeds_iff_some_eligible(strategy, addresses, healths, cookies, ticket);
    assert(healths[0].eligible());
}

/// A request whose session cookie names the address of an eligible backend
/// is routed to a backend with that address, whatever the ticket.
pub proof fn affinity_is_honored(
    config: Arc<StickyCookieConfig>,
    inner: BaseStrategy,
    addresses: Seq<BackendAddress>,
    healths: Seq<Healthiness>,
    cookies: Seq<RequestCookie>,
    ticket: u64,
    target: int,
)
    requires
        addresses.len() == healths.len(),
        0 <= target < addresses.len(),
        healths[target].eligible(),
        cookie_value(cookies, config.cookie_name@, 0) == Some(addresses[target].address@),
    ensures
        (LoadBalancingStrategy::StickyCookie { config, inner }).choice(
            addresses,
            healths,
            cookies,
            ticket,
        ) matches Some(i) && 0 <= i <= target && addresses[i].address@
            == addresses[target].address@ && healths[i].eligible(),
{
    eligible_address_is_first(addresses, healths, addresses[target].address@, 0);
}

/// A request without the session cookie, or whose cookie names no eligible
/// backend, gets what the base rule picks.
pub proof fn affinity_falls_back(
    config: Arc<StickyCookieConfig>,
    inner: BaseStrategy,
    addresses: Seq<BackendAddress>,
    healths: Seq<Healthiness>,
    cookies: Seq<RequestCookie>,
    ticket: u64,
)
    requires
        addresses.len() == healths.len(),
        cookie_value(cookies, config.cookie_name@, 0) matches Some(wanted) ==> forall|i: int|
            0 <= i < addresses.len() && addresses[i].address@ == wanted ==> !(
            #[trigger] healths[i]).eligible(),
    ensures
        (LoadBalancingStrategy::StickyCookie { config, inner }).choice(
            addresses,
            healths,
            cookies,
            ticket,
        ) == base_choice(healths, ticket),
{
    if let Some(wanted) = cookie_value(cookies, config.cookie_name@, 0) {
        eligible_address_is_first(addresses, healths, wanted, 0);
    }
}

/// Over an unchanged health view the base rule rotates: the next ticket
/// takes the eligible backend after the one that this ticket takes, and the
/// first again after the last.
pub proof fn consecutive_tickets_rotate(healths: Seq<Healthiness>, ticket: u64)
    requires
        eligible_indices(healths).len() > 0,
        ticket < u64::MAX,
    ensures
        ({
            let eligible = eligible_indices(healths);
            let count = eligible.len() as int;
            let rank = ticket as int % count;
            &&& 0 <= rank < count
            &&& base_choice(healths, ticket) == Some(eligible[rank])
            &&& base_choice(healths, (ticket + 1) as u64) == Some(
                eligible[if rank + 1 == count {
                    0
                } else {
                    rank + 1
                }],
            )
        }),
{
    let count = eligible_indices(healths).len() as int;
    let t = ticket as int;
    assert((t + 1) % count == (if t % count + 1 == count {
        0
    } else {
        t % count + 1
    })) by (nonlinear_arith)
        requires
            count > 0,
            t >= 0,
    ;
}

} // verus!
