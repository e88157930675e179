//! Backend pools: the addresses of a pool, each with the cell that holds its
//! published health.

use vstd::prelude::*;
use std::sync::Arc;
use arc_swap::ArcSwap;
use hyper::http::uri::Authority;
use hyper::Uri;
use crate::health::health_change;
use crate::health::change_notice;
use crate::health::health_log_line;
use crate::health::text_of;
use crate::health::HealthConfig;
use crate::health::Healthiness;
use crate::lb_strategy::LoadBalancingStrategy;
use crate::lb_strategy::RequestCookie;
use crate::middleware::RequestHandlerContext;

verus! {

/// The published health of one backend, in an `arc_swap::ArcSwap`: one writer
/// stores whole values, any number of readers load them, and neither waits for
/// the other. Its content is not visible to proofs, since it may change between
/// any two steps of a reader.
#[verifier::external_body]
#[derive(Debug)]
pub struct HealthCell {
    inner: ArcSwap<Healthiness>,
}

/// `ArcSwap::from_pointee`: a new cell that holds `initial`.
#[verifier::external_body]
fn cell_new(initial: Healthiness) -> HealthCell {
    HealthCell { inner: ArcSwap::from_pointee(initial) }
}

/// `ArcSwap::load`: the value that was stored last, as far as this thread can
/// tell. Nothing is claimed of it.
#[verifier::external_body]
fn cell_load(cell: &HealthCell) -> Healthiness {
    **cell.inner.load()
}

/// `ArcSwap::store`: replaces the cell's value.
#[verifier::external_body]
fn cell_store(cell: &HealthCell, state: Healthiness) {
    cell.inner.store(Arc::new(state))
}

/// The text of the URI with scheme `http`, this authority and this path and
/// query; `None` where the first is no authority or the second no path and
/// query.
pub uninterp spec fn http_uri_text(authority: Seq<char>, path_and_query: Seq<char>) -> Option<
    Seq<char>,
>;

/// `Authority::from_maybe_shared` on the authority, then `Uri::builder()` with
/// scheme `http`, the path and query and that authority, built and written out
/// by the URI's `Display`. `None` where one of the two refuses its input.
#[verifier::external_body]
fn build_http_uri(authority: &str, path_and_query: &str) -> (uri: Option<String>)
    ensures
        text_of(uri) == http_uri_text(authority@, path_and_query@),
{
    let authority = match Authority::from_maybe_shared(authority.to_string()) {
        Ok(authority) => authority,
        Err(_) => return None,
    };
    match Uri::builder().scheme("http").path_and_query(path_and_query).authority(authority).build() {
        Ok(uri) => Some(uri.to_string()),
        Err(_) => None,
    }
}

/// A backend's network address (host and port) with its health cell.
#[derive(Debug)]
pub struct BackendAddress {
    pub address: String,
    pub healthiness: HealthCell,
}

impl BackendAddress {
    /// A backend at `address` whose published health starts as `initial`.
    pub fn new(address: String, initial: Healthiness) -> (backend: BackendAddress)
        ensures
            backend.address == address,
    {
        BackendAddress { address, healthiness: cell_new(initial) }
    }

    /// The URI of `path_and_query` at this backend, over plain HTTP, or `None`
    /// where the address and the path make none.
    pub fn uri(&self, path_and_query: &str) -> (uri: Option<String>)
        ensures
            text_of(uri) == http_uri_text(self.address@, path_and_query@),
    {
        build_http_uri(self.address.as_str(), path_and_query)
    }

    /// Reads the published health once.
    pub fn current_health(&self) -> Healthiness {
        cell_load(&self.healthiness)
    }

    /// Handles one probe result: compares it with the published health and,
    /// only where it differs, stores it and returns the log event of the
    /// change. Which of the two happens depends on what the cell held: the
    /// outcome is what `change_notice` gives for some published state.
    pub fn publish_if_changed(&self, result: Healthiness) -> (notice: Option<String>)
        ensures
            notice matches Some(line) ==> line@ == health_log_line(self.address@, result),
            exists|published: Healthiness|
                text_of(notice) == #[trigger] change_notice(self.address@, published, result),
    {
        let previous = cell_load(&self.healthiness);
        let notice = health_change(self.address.as_str(), &previous, &result);
        if notice.is_some() {
            cell_store(&self.healthiness, result);
        }
        notice
    }
}

/// A group of backends that serve the same requests, with the parameters of
/// their health checks and the policy that chooses among them.
#[derive(Debug)]
pub struct BackendPool {
    pub addresses: Vec<BackendAddress>,
    pub health_config: HealthConfig,
    pub strategy: LoadBalancingStrategy,
}

/// What the dispatcher does with a request that matched a pool.
#[derive(Debug)]
pub enum RoutingDecision {
    /// Forward it to the backend that the context names.
    Forward(RequestHandlerContext),
    /// Answer that no backend is available.
    NoEligibleBackend,
}

impl BackendPool {
    /// Whether `decision` is what the pool's policy makes of a request, the
    /// pool standing at position `pool` of the snapshot and its backends having
    /// the healths `healths`: no backend where the policy chooses none, else a
    /// context that names the pool, the chosen backend and its address.
    pub open spec fn routes(
        self,
        pool: usize,
        healths: Seq<Healthiness>,
        cookies: Seq<RequestCookie>,
        ticket: u64,
        decision: RoutingDecision,
    ) -> bool {
        match self.strategy.choice(self.addresses@, healths, cookies, ticket) {
            Some(i) => {
                &&& decision matches RoutingDecision::Forward(context)
                &&& context.pool == pool
                &&& context.backend == i
                &&& context.backend_authority@ == self.addresses@[i].address@
            },
            None => decision is NoEligibleBackend,
        }
    }

    /// Reads the published health of every backend of the pool, each once, in
    /// the order of the addresses.
    pub fn health_view(&self) -> (healths: Vec<Healthiness>)
        ensures
            healths@.len() == self.addresses@.len(),
    {
        let mut healths: Vec<Healthiness> = Vec::new();
        let mut i: usize = 0;
        while i < self.addresses.len()
            invariant
                i <= self.addresses.len(),
                healths@.len() == i,
            decreases self.addresses.len() - i,
        {
            healths.push(self.addresses[i].current_health());
            i += 1;
        }
        healths
    }

    /// Routes a request over a given view of the pool's health.
    pub fn route(
        &self,
        pool: usize,
        healths: &Vec<Healthiness>,
        cookies: &Vec<RequestCookie>,
        ticket: u64,
    ) -> (decision: RoutingDecision)
        requires
            healths@.len() == self.addresses@.len(),
        ensures
            self.routes(pool, healths@, cookies@, ticket, decision),
    {
        match self.strategy.select(&self.addresses, healths, cookies, ticket) {
            Some(i) => {
                RoutingDecision::Forward(
                    RequestHandlerContext {
                        pool,
                        backend: i,
                        backend_authority: self.addresses[i].address.clone(),
                    },
                )
            },
            None => RoutingDecision::NoEligibleBackend,
        }
    }

    /// Routes a request: reads the pool's health once, then decides over what
    /// was read.
    pub fn dispatch(&self, pool: usize, cookies: &Vec<RequestCookie>, ticket: u64) -> (decision:
        RoutingDecision)
        ensures
            exists|healths: Seq<Healthiness>|
                healths.len() == self.addresses@.len() && #[trigger] self.routes(
                    pool,
                    healths,
                    cookies@,
                    ticket,
                    decision,
                ),
    {
        let healths = self.health_view();
        let decision = self.route(pool, &healths, cookies, ticket);
        decision
    }
}

} // verus!
