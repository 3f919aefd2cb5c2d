//! Routing of HTTP requests by domain.
//!
//! - A request is routed by the domain of its Host header.
//! - A pattern such as `*.example.com` stands for every domain below
//!   `example.com`.
//! - The services that domains lead to can change at any time.

use crate::headers::{field_text, header_fields, header_text, lower_field_name};
use crate::text::{
    before_first, concat, decimal, decimal_text, has_prefix, has_suffix, lemma_first_place, lower,
    text_after, text_before, to_lower,
};
use axum::http::{HeaderMap, HeaderValue};
use vstd::hash_map::StringHashMap;
use vstd::prelude::*;
use vstd::string::*;

verus! {

/// Service information for routing.
#[derive(Debug, Clone)]
pub struct ProxyServiceInfo {
    pub name: String,
    pub bind_addr: String,
    pub domains: Vec<String>,
}

/// What a service is to the router.
#[verifier::ext_equal]
pub struct ProxyServiceView {
    pub name: Seq<char>,
    pub bind_addr: Seq<char>,
    pub domains: Seq<Seq<char>>,
}

impl View for ProxyServiceInfo {
    type V = ProxyServiceView;

    open spec fn view(&self) -> ProxyServiceView {
        ProxyServiceView {
            name: self.name@,
            bind_addr: self.bind_addr@,
            domains: self.domains@.map_values(|d: String| d@),
        }
    }
}

/// Whether a pattern stands for the domains below another: it starts with `*.`.
pub open spec fn is_wildcard(pattern: Seq<char>) -> bool {
    pattern.len() >= 2 && pattern[0] == '*' && pattern[1] == '.'
}

/// The ending by which a wildcard pattern is known: `.example.com` for
/// `*.Example.com`.
pub open spec fn wildcard_suffix(pattern: Seq<char>) -> Seq<char> {
    lower(pattern.skip(1))
}

/// The host that a requested domain names: in lower case and without the port.
pub open spec fn requested_host(domain: Seq<char>) -> Seq<char> {
    if domain.contains(':') {
        before_first(lower(domain), ':')
    } else {
        lower(domain)
    }
}

/// The address of the first wildcard whose suffix ends the host.
pub open spec fn first_wildcard(
    wildcards: Seq<(Seq<char>, Seq<char>)>,
    host: Seq<char>,
) -> Option<Seq<char>>
    decreases wildcards.len(),
{
    if wildcards.len() == 0 {
        None
    } else if wildcards[0].0.is_suffix_of(host) {
        Some(wildcards[0].1)
    } else {
        first_wildcard(wildcards.drop_first(), host)
    }
}

/// Picks the wildcards whose suffix is another than the given one.
pub open spec fn has_other_suffix(suffix: Seq<char>) -> spec_fn((Seq<char>, Seq<char>)) -> bool {
    |w: (Seq<char>, Seq<char>)| w.0 != suffix
}

/// What a matcher knows: the address of each exact domain, and the addresses of
/// the wildcard suffixes in the order in which they were added.
#[verifier::ext_equal]
pub struct MatcherView {
    pub exact: Map<Seq<char>, Seq<char>>,
    pub wildcards: Seq<(Seq<char>, Seq<char>)>,
}

impl MatcherView {
    /// The matcher that knows no domain.
    pub open spec fn empty() -> MatcherView {
        MatcherView { exact: Map::empty(), wildcards: Seq::empty() }
    }

    /// The matcher once all its mappings are cleared.
    pub open spec fn cleared(self) -> MatcherView {
        MatcherView::empty()
    }

    /// The matcher once a pattern leads to an address.
    pub open spec fn add(self, pattern: Seq<char>, bind_addr: Seq<char>) -> MatcherView {
        if is_wildcard(pattern) {
            MatcherView {
                wildcards: self.wildcards.push((wildcard_suffix(pattern), bind_addr)),
                ..self
            }
        } else {
            MatcherView { exact: self.exact.insert(lower(pattern), bind_addr), ..self }
        }
    }

    /// The matcher once several patterns lead to one address.
    pub open spec fn add_all(self, patterns: Seq<Seq<char>>, bind_addr: Seq<char>) -> MatcherView
        decreases patterns.len(),
    {
        if patterns.len() == 0 {
            self
        } else {
            self.add_all(patterns.drop_last(), bind_addr).add(patterns.last(), bind_addr)
        }
    }

    /// The matcher without a pattern, whatever address it led to.
    pub open spec fn forget(self, pattern: Seq<char>) -> MatcherView {
        if is_wildcard(pattern) {
            MatcherView {
                wildcards: self.wildcards.filter(has_other_suffix(wildcard_suffix(pattern))),
                ..self
            }
        } else {
            MatcherView { exact: self.exact.remove(lower(pattern)), ..self }
        }
    }

    /// The matcher without several patterns.
    pub open spec fn forget_all(self, patterns: Seq<Seq<char>>) -> MatcherView
        decreases patterns.len(),
    {
        if patterns.len() == 0 {
            self
        } else {
            self.forget_all(patterns.drop_last()).forget(patterns.last())
        }
    }

    /// The address that a host leads to: that of the exact domain, else that of
    /// the first wildcard that covers it.
    pub open spec fn lookup_host(self, host: Seq<char>) -> Option<Seq<char>> {
        if self.exact.contains_key(host) {
            Some(self.exact[host])
        } else {
            first_wildcard(self.wildcards, host)
        }
    }

    /// The address that a requested domain leads to.
    pub open spec fn lookup(self, domain: Seq<char>) -> Option<Seq<char>> {
        self.lookup_host(requested_host(domain))
    }
}

/// Domain matcher with wildcard support.
pub struct DomainMatcher {
    /// Exact domains and the addresses of their services.
    exact: StringHashMap<String>,
    /// Wildcard suffixes and the addresses of their services, such as
    /// `.example.com` for `*.example.com`.
    wildcards: Vec<(String, String)>,
}

impl View for DomainMatcher {
    type V = MatcherView;

    closed spec fn view(&self) -> MatcherView {
        MatcherView {
            exact: self.exact@.map_values(|a: String| a@),
            wildcards: self.wildcards@.map_values(|w: (String, String)| (w.0@, w.1@)),
        }
    }
}

impl DomainMatcher {
    /// A matcher that knows no domain.
    pub fn new() -> (r: Self)
        ensures
            r@ == MatcherView::empty(),
    {
        let r = DomainMatcher { exact: StringHashMap::new(), wildcards: Vec::new() };
        assert(r@ =~= MatcherView::empty());
        r
    }

    /// Add a domain pattern for a service.
    pub fn add(&mut self, pattern: &str, bind_addr: &str)
        ensures
            final(self)@ == old(self)@.add(pattern@, bind_addr@),
    {
        if wildcard_pattern(pattern) {
            let suffix = to_lower(text_after(pattern, 1));
            self.wildcards.push((suffix, bind_addr.to_owned()));
        } else {
            self.exact.insert(to_lower(pattern), bind_addr.to_owned());
        }
        assert(self@ =~= old(self)@.add(pattern@, bind_addr@));
    }

    /// Match a domain and return the service bind address.
    pub fn match_domain(&self, domain: &str) -> (r: Option<&str>)
        ensures
            match r {
                Some(addr) => self@.lookup(domain@) == Some(addr@),
                None => self@.lookup(domain@) is None,
            },
    {
        let lowered = to_lower(domain);
        let host = text_before(lowered.as_str(), ':');
        proof {
            lemma_first_place(lowered@, ':');
            if !domain@.contains(':') {
                assert(host@ =~= lowered@);
            }
        }
        if let Some(addr) = self.exact.get(host) {
            return Some(addr.as_str());
        }
        let ghost all = self@.wildcards;
        assert(all.skip(0) =~= all);
        let mut i: usize = 0;
        while i < self.wildcards.len()
            invariant
                i <= self.wildcards@.len(),
                all == self@.wildcards,
                host@ == requested_host(domain@),
                !self@.exact.contains_key(host@),
                first_wildcard(all, host@) == first_wildcard(all.skip(i as int), host@),
            decreases self.wildcards@.len() - i,
        {
            assert(all.skip(i as int)[0] == (self.wildcards@[i as int].0@, self.wildcards@[
                i as int
            ].1@));
            if has_suffix(host, self.wildcards[i].0.as_str()) {
                return Some(self.wildcards[i].1.as_str());
            }
            assert(all.skip(i as int).drop_first() =~= all.skip(i + 1));
            i = i + 1;
        }
        None
    }

    /// Clear all mappings.
    pub fn clear(&mut self)
        ensures
            final(self)@ == MatcherView::empty(),
            final(self)@ == old(self)@.cleared(),
    {
        self.exact.clear();
        self.wildcards.clear();
        assert(self@ =~= MatcherView::empty());
    }

    /// Take a pattern out, whatever service it led to.
    fn forget(&mut self, pattern: &str)
        ensures
            final(self)@ == old(self)@.forget(pattern@),
    {
        if wildcard_pattern(pattern) {
            let suffix = to_lower(text_after(pattern, 1));
            let ghost before = self@.wildcards;
            let ghost keep = has_other_suffix(suffix@);
            let ghost view = |w: (String, String)| (w.0@, w.1@);
            let mut kept: Vec<(String, String)> = Vec::new();
            let mut i: usize = 0;
            proof {
                reveal(Seq::filter);
                assert(before.take(0).filter(keep) =~= Seq::empty());
                assert(kept@.map_values(view) =~= Seq::empty());
            }
            while i < self.wildcards.len()
                invariant
                    i <= self.wildcards@.len(),
                    before == self@.wildcards,
                    self@ == old(self)@,
                    keep == has_other_suffix(suffix@),
                    view == (|w: (String, String)| (w.0@, w.1@)),
                    kept@.map_values(view) == before.take(i as int).filter(keep),
                decreases self.wildcards@.len() - i,
            {
                let ghost so_far = kept@.map_values(view);
                proof {
                    reveal(Seq::filter);
                    assert(before.take(i + 1).drop_last() =~= before.take(i as int));
                    assert(before.take(i + 1).last() == before[i as int]);
                }
                if !(self.wildcards[i].0 == suffix) {
                    kept.push((self.wildcards[i].0.clone(), self.wildcards[i].1.clone()));
                    assert(kept@.map_values(view) =~= so_far.push(before[i as int]));
                }
                i = i + 1;
            }
            assert(before.take(i as int) =~= before);
            self.wildcards = kept;
        } else {
            self.exact.remove(to_lower(pattern).as_str());
        }
        assert(self@ =~= old(self)@.forget(pattern@));
    }

    /// Add the patterns of a service.
    fn add_all(&mut self, patterns: &Vec<String>, bind_addr: &str)
        ensures
            final(self)@ == old(self)@.add_all(patterns@.map_values(|d: String| d@), bind_addr@),
    {
        let ghost all = patterns@.map_values(|d: String| d@);
        let mut i: usize = 0;
        assert(all.take(0) =~= Seq::empty());
        while i < patterns.len()
            invariant
                i <= patterns@.len(),
                all == patterns@.map_values(|d: String| d@),
                self@ == old(self)@.add_all(all.take(i as int), bind_addr@),
            decreases patterns@.len() - i,
        {
            assert(all.take(i + 1).drop_last() =~= all.take(i as int));
            self.add(patterns[i].as_str(), bind_addr);
            i = i + 1;
        }
        assert(all.take(i as int) =~= all);
    }

    /// Take the patterns of a service out.
    fn forget_all(&mut self, patterns: &Vec<String>)
        ensures
            final(self)@ == old(self)@.forget_all(patterns@.map_values(|d: String| d@)),
    {
        let ghost all = patterns@.map_values(|d: String| d@);
        let mut i: usize = 0;
        assert(all.take(0) =~= Seq::empty());
        while i < patterns.len()
            invariant
                i <= patterns@.len(),
                all == patterns@.map_values(|d: String| d@),
                self@ == old(self)@.forget_all(all.take(i as int)),
            decreases patterns@.len() - i,
        {
            assert(all.take(i + 1).drop_last() =~= all.take(i as int));
            self.forget(patterns[i].as_str());
            i = i + 1;
        }
        assert(all.take(i as int) =~= all);
    }
}

impl Default for DomainMatcher {
    fn default() -> (r: Self)
        ensures
            r@ == MatcherView::empty(),
    {
        DomainMatcher::new()
    }
}

fn wildcard_pattern(pattern: &str) -> (r: bool)
    ensures
        r == is_wildcard(pattern@),
{
    proof {
        reveal_strlit("*.");
        assert("*."@.is_prefix_of(pattern@) <==> is_wildcard(pattern@)) by {
            if is_wildcard(pattern@) {
                assert("*."@ =~= pattern@.subrange(0, 2));
            }
            if "*."@.is_prefix_of(pattern@) {
                assert(pattern@.subrange(0, 2)[0] == '*' && pattern@.subrange(0, 2)[1] == '.');
            }
        }
    }
    has_prefix(pattern, "*.")
}

/// What the proxy routes by: its matcher, and the services under their names.
#[verifier::ext_equal]
pub struct ProxyView {
    pub matcher: MatcherView,
    pub services: Map<Seq<char>, ProxyServiceView>,
}

impl ProxyView {
    /// The proxy that routes nothing.
    pub open spec fn empty() -> ProxyView {
        ProxyView { matcher: MatcherView::empty(), services: Map::empty() }
    }

    /// The proxy once a service is under its name and its domains lead to it.
    pub open spec fn install(self, svc: ProxyServiceView) -> ProxyView {
        ProxyView {
            matcher: self.matcher.add_all(svc.domains, svc.bind_addr),
            services: self.services.insert(svc.name, svc),
        }
    }

    /// The proxy once several services are installed, one behind the other.
    pub open spec fn install_all(self, services: Seq<ProxyServiceView>) -> ProxyView
        decreases services.len(),
    {
        if services.len() == 0 {
            self
        } else {
            self.install_all(services.drop_last()).install(services.last())
        }
    }

    /// The proxy once these services take the place of all former ones.
    pub open spec fn updated(self, services: Seq<ProxyServiceView>) -> ProxyView {
        ProxyView::empty().install_all(services)
    }

    /// The proxy without the routes of the service of that name.
    pub open spec fn unroute(self, name: Seq<char>) -> ProxyView {
        if self.services.contains_key(name) {
            ProxyView { matcher: self.matcher.forget_all(self.services[name].domains), ..self }
        } else {
            self
        }
    }

    /// The proxy once a service is added, or replaces the one of its name.
    pub open spec fn upsert(self, svc: ProxyServiceView) -> ProxyView {
        self.unroute(svc.name).install(svc)
    }

    /// The proxy without the service of that name and without its domains.
    pub open spec fn remove(self, name: Seq<char>) -> ProxyView {
        ProxyView { services: self.services.remove(name), ..self.unroute(name) }
    }
}

/// Why a request cannot be routed.
#[derive(Debug, Clone, Copy, PartialEq, Eq, Structural)]
pub enum RouteError {
    /// The request has no readable Host header.
    MissingHost,
    /// No service has the requested domain.
    UnknownDomain,
}

/// The HTTP status that answers a request that cannot be routed.
pub open spec fn route_status(e: RouteError) -> u16 {
    match e {
        RouteError::MissingHost => 400u16,
        RouteError::UnknownDomain => 404u16,
    }
}

impl RouteError {
    /// The HTTP status that answers such a request.
    pub fn status(&self) -> (r: u16)
        ensures
            r == (match *self {
                RouteError::MissingHost => 400u16,
                RouteError::UnknownDomain => 404u16,
            }),
            r == route_status(*self),
    {
        match *self {
            RouteError::MissingHost => 400,
            RouteError::UnknownDomain => 404,
        }
    }
}

/// Where a request with these header fields goes.
pub open spec fn route(matcher: MatcherView, fields: Map<Seq<char>, Seq<Seq<u8>>>) -> Result<
    Seq<char>,
    RouteError,
> {
    match field_text(fields, "host"@) {
        None => Err(RouteError::MissingHost),
        Some(host) => match matcher.lookup(host) {
            None => Err(RouteError::UnknownDomain),
            Some(addr) => Ok(addr),
        },
    }
}

/// State of the HTTP proxy.
pub struct HttpProxyState {
    pub matcher: DomainMatcher,
    pub services: StringHashMap<ProxyServiceInfo>,
}

impl View for HttpProxyState {
    type V = ProxyView;

    open spec fn view(&self) -> ProxyView {
        ProxyView {
            matcher: self.matcher@,
            services: self.services@.map_values(|s: ProxyServiceInfo| s@),
        }
    }
}

impl HttpProxyState {
    /// The state of a proxy that routes nothing.
    pub fn new() -> (r: Self)
        ensures
            r@ == ProxyView::empty(),
    {
        let r = HttpProxyState { matcher: DomainMatcher::new(), services: StringHashMap::new() };
        assert(r@ =~= ProxyView::empty());
        r
    }

    /// Put a service under its name and lead its domains to it.
    fn install(&mut self, svc: ProxyServiceInfo)
        ensures
            final(self)@ == old(self)@.install(svc@),
    {
        self.matcher.add_all(&svc.domains, svc.bind_addr.as_str());
        self.services.insert(svc.name.clone(), svc);
        assert(self@ =~= old(self)@.install(svc@));
    }

    /// Update service mappings: these services take the place of all former
    /// ones.
    pub fn update_services(&mut self, services: Vec<ProxyServiceInfo>)
        ensures
            final(self)@ == ProxyView::empty().install_all(
                services@.map_values(|s: ProxyServiceInfo| s@),
            ),
            final(self)@ == old(self)@.updated(services@.map_values(|s: ProxyServiceInfo| s@)),
    {
        let ghost all = services@.map_values(|s: ProxyServiceInfo| s@);
        self.matcher.clear();
        self.services.clear();
        assert(self@ =~= ProxyView::empty());
        assert(all.take(0) =~= Seq::empty());
        for svc in it: services
            invariant
                all == it.seq().map_values(|s: ProxyServiceInfo| s@),
                self@ == ProxyView::empty().install_all(all.take(it.index() as int)),
        {
            assert(all.take(it.index() + 1).drop_last() =~= all.take(it.index() as int));
            self.install(svc);
        }
        assert(all.take(all.len() as int) =~= all);
    }

    /// Take the domains of a service out of the matcher.
    fn unroute(&mut self, name: &str)
        ensures
            final(self)@ == old(self)@.unroute(name@),
    {
        if let Some(svc) = self.services.get(name) {
            self.matcher.forget_all(&svc.domains);
        }
        assert(self@ =~= old(self)@.unroute(name@));
    }

    /// Add or update a single service.
    pub fn upsert_service(&mut self, svc: ProxyServiceInfo)
        ensures
            final(self)@ == old(self)@.upsert(svc@),
    {
        self.unroute(svc.name.as_str());
        self.install(svc);
    }

    /// Remove a service.
    pub fn remove_service(&mut self, name: &str)
        ensures
            final(self)@ == old(self)@.remove(name@),
    {
        self.unroute(name);
        self.services.remove(name);
        assert(self@ =~= old(self)@.remove(name@));
    }

    /// The address that a request with these headers goes to.
    pub fn upstream_peer(&self, headers: &HeaderMap<HeaderValue>) -> (r: Result<String, RouteError>)
        ensures
            match r {
                Ok(addr) => route(self@.matcher, header_fields(*headers)) == Ok::<
                    Seq<char>,
                    RouteError,
                >(addr@),
                Err(e) => route(self@.matcher, header_fields(*headers)) == Err::<
                    Seq<char>,
                    RouteError,
                >(e),
            },
    {
        proof {
            reveal_strlit("host");
            assert(lower_field_name("host"@));
        }
        match header_text(headers, "host") {
            None => Err(RouteError::MissingHost),
            Some(host) => match self.matcher.match_domain(host) {
                None => Err(RouteError::UnknownDomain),
                Some(addr) => Ok(addr.to_owned()),
            },
        }
    }
}

impl Default for HttpProxyState {
    fn default() -> (r: Self)
        ensures
            r@ == ProxyView::empty(),
    {
        HttpProxyState::new()
    }
}

/// The log line of a request that was answered. A host that is not named is `-`,
/// and the status of an answer that was not written is 0.
pub open spec fn log_line(
    method: Seq<char>,
    host: Option<Seq<char>>,
    path: Seq<char>,
    status: Option<u16>,
) -> Seq<char> {
    "HTTP proxy: "@ + method + " "@ + (match host {
        Some(host) => host,
        None => "-"@,
    }) + " "@ + path + " -> "@ + decimal(
        (match status {
            Some(code) => code as nat,
            None => 0,
        }),
    )
}

/// The log line of a request with these header fields that was answered.
pub open spec fn request_log(
    method: Seq<char>,
    fields: Map<Seq<char>, Seq<Seq<u8>>>,
    path: Seq<char>,
    status: Option<u16>,
) -> Seq<char> {
    log_line(method, field_text(fields, "host"@), path, status)
}

/// The log line of a request that was answered: its method, the host that it
/// asked for (`-` where it names none), its path and the status of the answer
/// (0 where none was written).
pub fn access_log(method: &str, headers: &HeaderMap<HeaderValue>, path: &str, status: Option<u16>) -> (r:
    String)
    ensures
        r@ == "HTTP proxy: "@ + method@ + " "@ + (match field_text(
            header_fields(*headers),
            "host"@,
        ) {
            Some(host) => host,
            None => "-"@,
        }) + " "@ + path@ + " -> "@ + decimal(
            (match status {
                Some(code) => code as nat,
                None => 0,
            }),
        ),
        r@ == request_log(method@, header_fields(*headers), path@, status),
{
    proof {
        reveal_strlit("host");
        assert(lower_field_name("host"@));
    }
    let host = match header_text(headers, "host") {
        Some(host) => host,
        None => "-",
    };
    let code: u16 = match status {
        Some(code) => code,
        None => 0,
    };
    let mut line = concat("HTTP proxy: ", method);
    line.append(" ");
    line.append(host);
    line.append(" ");
    line.append(path);
    line.append(" -> ");
    line.append(decimal_text(code as usize).as_str());
    line
}

}
