//! What holds of routing by domain, whatever the services are.

use crate::api::{status_number, StatusCode};
use crate::api_client_laws::{law_decimal_is_read_back, lemma_decimal};
use crate::headers::field_text;
use crate::http_proxy::{
    first_wildcard, has_other_suffix, is_wildcard, log_line, request_log, requested_host, route,
    route_status, wildcard_suffix, HttpProxyState, MatcherView, ProxyServiceInfo, ProxyServiceView,
    ProxyView, RouteError,
};
use crate::text::{
    ascii_lower, ascii_lower_char, before_first, decimal, first_place, lemma_first_place,
    lemma_first_place_is, lower, parse_number, white_space, words,
};
use crate::text_laws::{law_words, lemma_regroup};
use vstd::prelude::*;
use vstd::utf8::is_ascii_chars;

verus! {

/// Whether a pattern bears on a host: it is that host, or it is a wildcard that
/// covers it.
pub open spec fn covers(pattern: Seq<char>, host: Seq<char>) -> bool {
    if is_wildcard(pattern) {
        wildcard_suffix(pattern).is_suffix_of(host)
    } else {
        lower(pattern) == host
    }
}

/// Whether one of several patterns bears on a host.
pub open spec fn any_covers(patterns: Seq<Seq<char>>, host: Seq<char>) -> bool {
    exists|i: int| 0 <= i < patterns.len() && covers(#[trigger] patterns[i], host)
}

proof fn lemma_first_wildcard_push(
    ws: Seq<(Seq<char>, Seq<char>)>,
    w: (Seq<char>, Seq<char>),
    host: Seq<char>,
)
    ensures
        first_wildcard(ws.push(w), host) == (match first_wildcard(ws, host) {
            Some(a) => Some(a),
            None => if w.0.is_suffix_of(host) {
                Some(w.1)
            } else {
                None
            },
        }),
    decreases ws.len(),
{
    reveal_with_fuel(first_wildcard, 2);
    if ws.len() == 0 {
        assert(ws.push(w).drop_first() =~= Seq::empty());
    } else {
        assert(ws.push(w).drop_first() =~= ws.drop_first().push(w));
        lemma_first_wildcard_push(ws.drop_first(), w, host);
    }
}

proof fn lemma_first_wildcard_filter(
    ws: Seq<(Seq<char>, Seq<char>)>,
    suffix: Seq<char>,
    host: Seq<char>,
)
    requires
        !suffix.is_suffix_of(host),
    ensures
        first_wildcard(ws.filter(has_other_suffix(suffix)), host) == first_wildcard(ws, host),
    decreases ws.len(),
{
    reveal(Seq::filter);
    if ws.len() > 0 {
        let rest = ws.drop_last();
        lemma_first_wildcard_filter(rest, suffix, host);
        lemma_first_wildcard_push(rest, ws.last(), host);
        lemma_first_wildcard_push(rest.filter(has_other_suffix(suffix)), ws.last(), host);
        assert(rest.push(ws.last()) =~= ws);
    }
}

proof fn lemma_add_elsewhere(m: MatcherView, pattern: Seq<char>, addr: Seq<char>, host: Seq<char>)
    requires
        !covers(pattern, host),
    ensures
        m.add(pattern, addr).lookup_host(host) == m.lookup_host(host),
{
    if is_wildcard(pattern) {
        lemma_first_wildcard_push(m.wildcards, (wildcard_suffix(pattern), addr), host);
    }
}

proof fn lemma_forget_elsewhere(m: MatcherView, pattern: Seq<char>, host: Seq<char>)
    requires
        !covers(pattern, host),
    ensures
        m.forget(pattern).lookup_host(host) == m.lookup_host(host),
{
    if is_wildcard(pattern) {
        lemma_first_wildcard_filter(m.wildcards, wildcard_suffix(pattern), host);
    }
}

proof fn lemma_any_covers_drop_last(patterns: Seq<Seq<char>>, host: Seq<char>)
    requires
        patterns.len() > 0,
    ensures
        any_covers(patterns, host) <==> any_covers(patterns.drop_last(), host) || covers(
            patterns.last(),
            host,
        ),
{
    let rest = patterns.drop_last();
    if any_covers(rest, host) {
        let i = choose|i: int| 0 <= i < rest.len() && covers(#[trigger] rest[i], host);
        assert(patterns[i] == rest[i]);
    }
    if any_covers(patterns, host) && !covers(patterns.last(), host) {
        let i = choose|i: int| 0 <= i < patterns.len() && covers(#[trigger] patterns[i], host);
        assert(rest[i] == patterns[i]);
    }
}

proof fn lemma_add_all_elsewhere(
    m: MatcherView,
    patterns: Seq<Seq<char>>,
    addr: Seq<char>,
    host: Seq<char>,
)
    requires
        !any_covers(patterns, host),
    ensures
        m.add_all(patterns, addr).lookup_host(host) == m.lookup_host(host),
    decreases patterns.len(),
{
    if patterns.len() > 0 {
        lemma_any_covers_drop_last(patterns, host);
        lemma_add_all_elsewhere(m, patterns.drop_last(), addr, host);
        lemma_add_elsewhere(m.add_all(patterns.drop_last(), addr), patterns.last(), addr, host);
    }
}

proof fn lemma_forget_all_elsewhere(m: MatcherView, patterns: Seq<Seq<char>>, host: Seq<char>)
    requires
        !any_covers(patterns, host),
    ensures
        m.forget_all(patterns).lookup_host(host) == m.lookup_host(host),
    decreases patterns.len(),
{
    if patterns.len() > 0 {
        lemma_any_covers_drop_last(patterns, host);
        lemma_forget_all_elsewhere(m, patterns.drop_last(), host);
        lemma_forget_elsewhere(m.forget_all(patterns.drop_last()), patterns.last(), host);
    }
}

/// A matcher that was cleared, or is new, leads no domain anywhere.
pub proof fn law_empty_matches_nothing(domain: Seq<char>)
    ensures
        MatcherView::empty().lookup(domain) is None,
{
}

/// An exact match takes precedence: once an exact domain leads to an address,
/// every request for that domain goes there, whatever wildcards the matcher
/// has.
pub proof fn law_exact_domain_first(
    m: MatcherView,
    pattern: Seq<char>,
    addr: Seq<char>,
    domain: Seq<char>,
)
    requires
        !is_wildcard(pattern),
        requested_host(domain) == lower(pattern),
    ensures
        m.add(pattern, addr).lookup(domain) == Some(addr),
{
}

/// A wildcard leads every domain below its own to its address, where neither an
/// exact domain nor a wildcard added earlier already leads that domain
/// somewhere; where one does, nothing changes for that domain.
pub proof fn law_wildcard_covers_subdomains(
    m: MatcherView,
    pattern: Seq<char>,
    addr: Seq<char>,
    domain: Seq<char>,
)
    requires
        is_wildcard(pattern),
        wildcard_suffix(pattern).is_suffix_of(requested_host(domain)),
    ensures
        m.lookup(domain) is None ==> m.add(pattern, addr).lookup(domain) == Some(addr),
        m.lookup(domain) is Some ==> m.add(pattern, addr).lookup(domain) == m.lookup(domain),
{
    lemma_first_wildcard_push(
        m.wildcards,
        (wildcard_suffix(pattern), addr),
        requested_host(domain),
    );
}

/// The lower case of an ASCII text is ASCII, of the same length, and its own
/// lower case; a colon stays where it is.
proof fn lemma_ascii_lower(s: Seq<char>)
    requires
        is_ascii_chars(s),
    ensures
        lower(s) == ascii_lower(s),
        lower(s).len() == s.len(),
        is_ascii_chars(lower(s)),
        lower(lower(s)) == lower(s),
        first_place(lower(s), ':') == first_place(s, ':'),
{
    let l = ascii_lower(s);
    assert forall|i: int| 0 <= i < s.len() implies (l[i] == ':' <==> s[i] == ':') && ascii_lower_char(
        l[i],
    ) == l[i] && (l[i] as u32) < 128 by {
        assert((s[i] as u32) < 128);
    }
    assert(is_ascii_chars(l)) by {
        assert forall|i: int| 0 <= i < l.len() implies '\0' <= #[trigger] l[i] <= '\u{7f}' by {}
    }
    assert(ascii_lower(l) =~= l);
    lemma_first_place(s, ':');
    lemma_first_place_is(l, ':', first_place(s, ':'));
}

/// A wildcard does not match the root domain: `*.example.com` leads
/// `example.com` nowhere, with or without a port. The lower case of the root
/// domain is longer with a dot before it, as that of every ASCII domain is.
pub proof fn law_wildcard_is_not_root(
    m: MatcherView,
    root: Seq<char>,
    addr: Seq<char>,
    domain: Seq<char>,
)
    requires
        is_ascii_chars(root) || lower(seq!['.'] + root).len() > lower(root).len(),
        requested_host(domain) == lower(root),
    ensures
        m.add(seq!['*', '.'] + root, addr).lookup(domain) == m.lookup(domain),
{
    let pattern = seq!['*', '.'] + root;
    assert(pattern.skip(1) =~= seq!['.'] + root);
    if is_ascii_chars(root) {
        assert(is_ascii_chars(seq!['.'] + root));
        lemma_ascii_lower(root);
        lemma_ascii_lower(seq!['.'] + root);
    }
    lemma_add_elsewhere(m, pattern, addr, requested_host(domain));
}

/// Domains are matched without regard to case: two spellings of an ASCII domain
/// that differ in case alone lead to the same address, and as a pattern each
/// does what the other does.
pub proof fn law_case_insensitive(m: MatcherView, a: Seq<char>, b: Seq<char>, addr: Seq<char>)
    requires
        is_ascii_chars(a),
        is_ascii_chars(b),
        ascii_lower(a) == ascii_lower(b),
    ensures
        m.lookup(a) == m.lookup(b),
        m.add(a, addr) == m.add(b, addr),
        m.forget(a) == m.forget(b),
{
    assert(a.len() == b.len()) by {
        assert(ascii_lower(a).len() == a.len());
        assert(ascii_lower(b).len() == b.len());
    }
    assert forall|i: int| 0 <= i < a.len() implies ascii_lower_char(a[i]) == ascii_lower_char(
        b[i],
    ) by {
        assert(ascii_lower(a)[i] == ascii_lower_char(a[i]));
        assert(ascii_lower(b)[i] == ascii_lower_char(b[i]));
    }
    if a.len() >= 2 {
        assert(ascii_lower_char(a[0]) == ascii_lower_char(b[0]));
        assert(ascii_lower_char(a[1]) == ascii_lower_char(b[1]));
        assert((a[0] as u32) < 128 && (b[0] as u32) < 128);
        assert((a[1] as u32) < 128 && (b[1] as u32) < 128);
        assert(is_wildcard(a) == is_wildcard(b));
        assert(ascii_lower(a.skip(1)) =~= ascii_lower(b.skip(1)));
        assert(is_ascii_chars(a.skip(1)) && is_ascii_chars(b.skip(1)));
    }
}

/// Two domains of one lower case, ASCII or not, lead to the same address where
/// both name a port or neither does, and as exact patterns each does what the
/// other does.
pub proof fn law_lower_case_decides(m: MatcherView, a: Seq<char>, b: Seq<char>, addr: Seq<char>)
    requires
        lower(a) == lower(b),
    ensures
        a.contains(':') == b.contains(':') ==> m.lookup(a) == m.lookup(b),
        !is_wildcard(a) && !is_wildcard(b) ==> {
            &&& m.add(a, addr) == m.add(b, addr)
            &&& m.forget(a) == m.forget(b)
        },
{
}

/// The port of the requested domain makes no difference, unless it changes the
/// lower case of what stands before it. That it never does in ASCII.
pub proof fn law_port_is_ignored(m: MatcherView, domain: Seq<char>, port: Seq<char>)
    requires
        !domain.contains(':'),
        (is_ascii_chars(domain) && is_ascii_chars(port)) || before_first(
            lower(domain + seq![':'] + port),
            ':',
        ) == lower(domain),
    ensures
        m.lookup(domain + seq![':'] + port) == m.lookup(domain),
{
    let whole = domain + seq![':'] + port;
    assert(whole[domain.len() as int] == ':');
    if is_ascii_chars(domain) && is_ascii_chars(port) {
        assert(is_ascii_chars(whole));
        lemma_ascii_lower(domain);
        lemma_ascii_lower(whole);
        assert forall|i: int| 0 <= i < domain.len() implies whole[i] != ':' by {
            assert(whole[i] == domain[i]);
        }
        lemma_first_place_is(whole, ':', domain.len() as int);
        assert(before_first(lower(whole), ':') =~= lower(domain));
    }
}

/// Adding or replacing a service changes nothing for the hosts that neither its
/// domains nor the domains it had before bear on.
pub proof fn law_upsert_leaves_other_hosts(st: ProxyView, svc: ProxyServiceView, host: Seq<char>)
    requires
        !any_covers(svc.domains, host),
        st.services.contains_key(svc.name) ==> !any_covers(st.services[svc.name].domains, host),
    ensures
        st.upsert(svc).matcher.lookup_host(host) == st.matcher.lookup_host(host),
        forall|n: Seq<char>|
            n != svc.name && st.services.contains_key(n) ==> {
                &&& #[trigger] st.upsert(svc).services.contains_key(n)
                &&& st.upsert(svc).services[n] == st.services[n]
            },
{
    if st.services.contains_key(svc.name) {
        lemma_forget_all_elsewhere(st.matcher, st.services[svc.name].domains, host);
    }
    lemma_add_all_elsewhere(st.unroute(svc.name).matcher, svc.domains, svc.bind_addr, host);
}

/// Removing a service changes nothing for the hosts that its domains do not
/// bear on; removing a name that no service has changes nothing at all.
pub proof fn law_remove_leaves_other_hosts(st: ProxyView, name: Seq<char>, host: Seq<char>)
    requires
        st.services.contains_key(name) ==> !any_covers(st.services[name].domains, host),
    ensures
        st.remove(name).matcher.lookup_host(host) == st.matcher.lookup_host(host),
        !st.services.contains_key(name) ==> st.remove(name) == st,
{
    if st.services.contains_key(name) {
        lemma_forget_all_elsewhere(st.matcher, st.services[name].domains, host);
    } else {
        assert(st.services.remove(name) =~= st.services);
    }
}

/// Whether a matcher knows a pattern.
pub open spec fn knows(m: MatcherView, pattern: Seq<char>) -> bool {
    if is_wildcard(pattern) {
        exists|i: int|
            0 <= i < m.wildcards.len() && (#[trigger] m.wildcards[i]).0 == wildcard_suffix(pattern)
    } else {
        m.exact.contains_key(lower(pattern))
    }
}

/// What a filter keeps is picked by it, and was there before.
proof fn lemma_filtered<A>(s: Seq<A>, p: spec_fn(A) -> bool, i: int)
    requires
        0 <= i < s.filter(p).len(),
    ensures
        p(s.filter(p)[i]),
        s.contains(s.filter(p)[i]),
    decreases s.len(),
{
    reveal(Seq::filter);
    let rest = s.drop_last();
    if i < rest.filter(p).len() {
        lemma_filtered(rest, p, i);
        let j = choose|j: int| 0 <= j < rest.len() && rest[j] == rest.filter(p)[i];
        assert(s[j] == rest.filter(p)[i]);
    } else {
        assert(s.filter(p)[i] == s.last());
        assert(s[s.len() - 1] == s.last());
    }
}

/// A suffix that a filter keeps is another than the one it drops, and was there
/// before.
proof fn lemma_kept_suffixes(ws: Seq<(Seq<char>, Seq<char>)>, suffix: Seq<char>, i: int)
    requires
        0 <= i < ws.filter(has_other_suffix(suffix)).len(),
    ensures
        ws.filter(has_other_suffix(suffix))[i].0 != suffix,
        ws.contains(ws.filter(has_other_suffix(suffix))[i]),
{
    lemma_filtered(ws, has_other_suffix(suffix), i);
}

proof fn lemma_forget_unlearns(m: MatcherView, forgotten: Seq<char>, pattern: Seq<char>)
    ensures
        !knows(m.forget(forgotten), forgotten),
        knows(m.forget(forgotten), pattern) ==> knows(m, pattern),
{
    let suffix = wildcard_suffix(forgotten);
    if is_wildcard(forgotten) {
        let kept = m.wildcards.filter(has_other_suffix(suffix));
        assert forall|i: int| 0 <= i < kept.len() implies #[trigger] kept[i].0 != suffix
            && m.wildcards.contains(kept[i]) by {
            lemma_kept_suffixes(m.wildcards, suffix, i);
        }
        if knows(m.forget(forgotten), pattern) && is_wildcard(pattern) {
            let i = choose|i: int|
                0 <= i < kept.len() && (#[trigger] kept[i]).0 == wildcard_suffix(pattern);
            let j = choose|j: int| 0 <= j < m.wildcards.len() && m.wildcards[j] == kept[i];
            assert(m.wildcards[j].0 == wildcard_suffix(pattern));
        }
    }
}

proof fn lemma_forget_all_unlearns(m: MatcherView, patterns: Seq<Seq<char>>, pattern: Seq<char>)
    ensures
        patterns.contains(pattern) ==> !knows(m.forget_all(patterns), pattern),
        knows(m.forget_all(patterns), pattern) ==> knows(m, pattern),
    decreases patterns.len(),
{
    if patterns.len() > 0 {
        let rest = patterns.drop_last();
        lemma_forget_all_unlearns(m, rest, pattern);
        lemma_forget_unlearns(m.forget_all(rest), patterns.last(), pattern);
        if patterns.contains(pattern) && pattern != patterns.last() {
            let i = choose|i: int| 0 <= i < patterns.len() && patterns[i] == pattern;
            assert(rest[i] == pattern);
        }
    }
}

/// Removing a service takes it off the list and takes all of its domains out of
/// the matcher.
pub proof fn law_remove_forgets_domains(st: ProxyView, name: Seq<char>, pattern: Seq<char>)
    requires
        st.services.contains_key(name),
        st.services[name].domains.contains(pattern),
    ensures
        !st.remove(name).services.contains_key(name),
        !knows(st.remove(name).matcher, pattern),
{
    lemma_forget_all_unlearns(st.matcher, st.services[name].domains, pattern);
}

/// The wildcards that the patterns of a service add.
spec fn added_wildcards(patterns: Seq<Seq<char>>, addr: Seq<char>) -> Seq<(Seq<char>, Seq<char>)>
    decreases patterns.len(),
{
    if patterns.len() == 0 {
        Seq::empty()
    } else if is_wildcard(patterns.last()) {
        added_wildcards(patterns.drop_last(), addr).push((wildcard_suffix(patterns.last()), addr))
    } else {
        added_wildcards(patterns.drop_last(), addr)
    }
}

/// Whether a host is the exact domain of one of several patterns.
pub open spec fn names_exactly(patterns: Seq<Seq<char>>, host: Seq<char>) -> bool {
    exists|i: int|
        0 <= i < patterns.len() && !is_wildcard(#[trigger] patterns[i]) && lower(patterns[i]) == host
}

/// Whether a suffix is that of one of several wildcard patterns.
spec fn names_suffix(patterns: Seq<Seq<char>>, suffix: Seq<char>) -> bool {
    exists|i: int|
        0 <= i < patterns.len() && is_wildcard(#[trigger] patterns[i]) && wildcard_suffix(
            patterns[i],
        ) == suffix
}

proof fn lemma_names_drop_last(patterns: Seq<Seq<char>>, text: Seq<char>)
    requires
        patterns.len() > 0,
    ensures
        names_exactly(patterns, text) <==> names_exactly(patterns.drop_last(), text) || (
        !is_wildcard(patterns.last()) && lower(patterns.last()) == text),
        names_suffix(patterns, text) <==> names_suffix(patterns.drop_last(), text) || (is_wildcard(
            patterns.last(),
        ) && wildcard_suffix(patterns.last()) == text),
{
    let rest = patterns.drop_last();
    let last = patterns.len() - 1;
    if names_exactly(rest, text) {
        let i = choose|i: int|
            0 <= i < rest.len() && !is_wildcard(#[trigger] rest[i]) && lower(rest[i]) == text;
        assert(patterns[i] == rest[i]);
    }
    if names_suffix(rest, text) {
        let i = choose|i: int|
            0 <= i < rest.len() && is_wildcard(#[trigger] rest[i]) && wildcard_suffix(rest[i])
                == text;
        assert(patterns[i] == rest[i]);
    }
    if names_exactly(patterns, text) {
        let i = choose|i: int|
            0 <= i < patterns.len() && !is_wildcard(#[trigger] patterns[i]) && lower(patterns[i])
                == text;
        if i < last {
            assert(rest[i] == patterns[i]);
        }
    }
    if names_suffix(patterns, text) {
        let i = choose|i: int|
            0 <= i < patterns.len() && is_wildcard(#[trigger] patterns[i]) && wildcard_suffix(
                patterns[i],
            ) == text;
        if i < last {
            assert(rest[i] == patterns[i]);
        }
    }
}

/// What a matcher holds once patterns were added.
proof fn lemma_add_all_contents(m: MatcherView, patterns: Seq<Seq<char>>, addr: Seq<char>)
    ensures
        m.add_all(patterns, addr).wildcards == m.wildcards + added_wildcards(patterns, addr),
        forall|k: Seq<char>|
            #[trigger] m.add_all(patterns, addr).exact.contains_key(k) <==> m.exact.contains_key(k)
                || names_exactly(patterns, k),
        forall|k: Seq<char>|
            #[trigger] m.add_all(patterns, addr).exact.contains_key(k) ==> m.add_all(
                patterns,
                addr,
            ).exact[k] == (if names_exactly(patterns, k) {
                addr
            } else {
                m.exact[k]
            }),
        forall|i: int|
            0 <= i < added_wildcards(patterns, addr).len() ==> names_suffix(
                patterns,
                (#[trigger] added_wildcards(patterns, addr)[i]).0,
            ) && added_wildcards(patterns, addr)[i].1 == addr,
    decreases patterns.len(),
{
    let added = m.add_all(patterns, addr);
    if patterns.len() == 0 {
        assert(m.wildcards + added_wildcards(patterns, addr) =~= m.wildcards);
    } else {
        let rest = patterns.drop_last();
        lemma_add_all_contents(m, rest, addr);
        assert(added.wildcards =~= m.wildcards + added_wildcards(patterns, addr));
        assert forall|k: Seq<char>|
            #[trigger] added.exact.contains_key(k) <==> m.exact.contains_key(k) || names_exactly(
                patterns,
                k,
            ) by {
            lemma_names_drop_last(patterns, k);
            assert(m.add_all(rest, addr).exact.contains_key(k) <==> m.exact.contains_key(k)
                || names_exactly(rest, k));
        }
        assert forall|k: Seq<char>| #[trigger] added.exact.contains_key(k) implies added.exact[k]
            == (if names_exactly(patterns, k) {
            addr
        } else {
            m.exact[k]
        }) by {
            lemma_names_drop_last(patterns, k);
            assert(m.add_all(rest, addr).exact.contains_key(k) <==> m.exact.contains_key(k)
                || names_exactly(rest, k));
        }
        let more = added_wildcards(patterns, addr);
        assert forall|i: int| 0 <= i < more.len() implies names_suffix(
            patterns,
            (#[trigger] more[i]).0,
        ) && more[i].1 == addr by {
            lemma_names_drop_last(patterns, more[i].0);
            if i < added_wildcards(rest, addr).len() {
                assert(more[i] == added_wildcards(rest, addr)[i]);
            }
        }
    }
}

/// What a matcher holds once patterns were taken out.
proof fn lemma_forget_all_contents(m: MatcherView, patterns: Seq<Seq<char>>)
    ensures
        forall|k: Seq<char>|
            #[trigger] m.forget_all(patterns).exact.contains_key(k) <==> m.exact.contains_key(k)
                && !names_exactly(patterns, k),
        forall|k: Seq<char>|
            #[trigger] m.forget_all(patterns).exact.contains_key(k) ==> m.forget_all(
                patterns,
            ).exact[k] == m.exact[k],
        m.forget_all(patterns).wildcards == m.wildcards.filter(
            |w: (Seq<char>, Seq<char>)| !names_suffix(patterns, w.0),
        ),
    decreases patterns.len(),
{
    let pred = |w: (Seq<char>, Seq<char>)| !names_suffix(patterns, w.0);
    if patterns.len() == 0 {
        lemma_filter_all(m.wildcards, pred);
    } else {
        let rest = patterns.drop_last();
        let last = patterns.last();
        let rest_pred = |w: (Seq<char>, Seq<char>)| !names_suffix(rest, w.0);
        lemma_forget_all_contents(m, rest);
        let mid = m.forget_all(rest);
        assert forall|k: Seq<char>|
            #[trigger] m.forget_all(patterns).exact.contains_key(k) <==> m.exact.contains_key(k)
                && !names_exactly(patterns, k) by {
            lemma_names_drop_last(patterns, k);
            assert(mid.exact.contains_key(k) <==> m.exact.contains_key(k) && !names_exactly(
                rest,
                k,
            ));
        }
        assert forall|k: Seq<char>| #[trigger]
            m.forget_all(patterns).exact.contains_key(k) implies m.forget_all(patterns).exact[k]
            == m.exact[k] by {
            assert(mid.exact.contains_key(k));
        }
        assert forall|w: (Seq<char>, Seq<char>)| #[trigger]
            pred(w) <==> rest_pred(w) && (is_wildcard(last) ==> has_other_suffix(
                wildcard_suffix(last),
            )(w)) by {
            lemma_names_drop_last(patterns, w.0);
        }
        if is_wildcard(last) {
            lemma_filter_twice(
                m.wildcards,
                rest_pred,
                has_other_suffix(wildcard_suffix(last)),
                pred,
            );
        } else {
            lemma_filter_same(m.wildcards, rest_pred, pred);
        }
    }
}

proof fn lemma_filter_all<A>(s: Seq<A>, p: spec_fn(A) -> bool)
    requires
        forall|i: int| 0 <= i < s.len() ==> p(#[trigger] s[i]),
    ensures
        s.filter(p) == s,
    decreases s.len(),
{
    reveal(Seq::filter);
    if s.len() > 0 {
        lemma_filter_all(s.drop_last(), p);
        assert(s.drop_last().push(s.last()) =~= s);
    }
}

proof fn lemma_filter_none<A>(s: Seq<A>, p: spec_fn(A) -> bool)
    requires
        forall|i: int| 0 <= i < s.len() ==> !p(#[trigger] s[i]),
    ensures
        s.filter(p) == Seq::<A>::empty(),
    decreases s.len(),
{
    reveal(Seq::filter);
    if s.len() > 0 {
        lemma_filter_none(s.drop_last(), p);
    }
}

proof fn lemma_filter_same<A>(s: Seq<A>, p: spec_fn(A) -> bool, q: spec_fn(A) -> bool)
    requires
        forall|a: A| #[trigger] p(a) <==> q(a),
    ensures
        s.filter(p) == s.filter(q),
    decreases s.len(),
{
    reveal(Seq::filter);
    if s.len() > 0 {
        lemma_filter_same(s.drop_last(), p, q);
        assert(p(s.last()) <==> q(s.last()));
    }
}

proof fn lemma_filter_twice<A>(
    s: Seq<A>,
    p: spec_fn(A) -> bool,
    q: spec_fn(A) -> bool,
    both: spec_fn(A) -> bool,
)
    requires
        forall|a: A| #[trigger] both(a) <==> p(a) && q(a),
    ensures
        s.filter(p).filter(q) == s.filter(both),
    decreases s.len(),
{
    reveal(Seq::filter);
    if s.len() > 0 {
        let rest = s.drop_last();
        lemma_filter_twice(rest, p, q, both);
        assert(both(s.last()) <==> p(s.last()) && q(s.last()));
        if p(s.last()) {
            assert(rest.filter(p).push(s.last()).drop_last() =~= rest.filter(p));
        }
    }
}

/// Removing a service undoes adding it: where neither its name nor any of its
/// domains was there before, the proxy is again as it was.
pub proof fn law_remove_undoes_upsert(st: ProxyView, svc: ProxyServiceView)
    requires
        !st.services.contains_key(svc.name),
        forall|i: int|
            0 <= i < svc.domains.len() ==> !knows(st.matcher, #[trigger] svc.domains[i]),
    ensures
        st.upsert(svc).remove(svc.name) == st,
{
    let m = st.matcher;
    let ds = svc.domains;
    let added = m.add_all(ds, svc.bind_addr);
    let back = added.forget_all(ds);
    lemma_add_all_contents(m, ds, svc.bind_addr);
    lemma_forget_all_contents(added, ds);
    assert forall|k: Seq<char>| m.exact.contains_key(k) implies !names_exactly(ds, k) by {
        if names_exactly(ds, k) {
            let i = choose|i: int|
                0 <= i < ds.len() && !is_wildcard(#[trigger] ds[i]) && lower(ds[i]) == k;
            assert(!knows(m, ds[i]));
        }
    }
    assert forall|k: Seq<char>| back.exact.contains_key(k) <==> m.exact.contains_key(k) by {
        assert(added.exact.contains_key(k) <==> m.exact.contains_key(k) || names_exactly(ds, k));
    }
    assert forall|k: Seq<char>| back.exact.contains_key(k) implies back.exact[k] == m.exact[k] by {
        assert(added.exact.contains_key(k));
    }
    assert(back.exact =~= m.exact);
    let pred = |w: (Seq<char>, Seq<char>)| !names_suffix(ds, w.0);
    assert forall|i: int| 0 <= i < m.wildcards.len() implies pred(#[trigger] m.wildcards[i]) by {
        if names_suffix(ds, m.wildcards[i].0) {
            let j = choose|j: int|
                0 <= j < ds.len() && is_wildcard(#[trigger] ds[j]) && wildcard_suffix(ds[j])
                    == m.wildcards[i].0;
            assert(!knows(m, ds[j]));
        }
    }
    let more = added_wildcards(ds, svc.bind_addr);
    assert forall|i: int| 0 <= i < more.len() implies !pred(#[trigger] more[i]) by {
        assert(names_suffix(ds, more[i].0));
    }
    lemma_filter_all(m.wildcards, pred);
    lemma_filter_none(more, pred);
    Seq::filter_distributes_over_add(m.wildcards, more, pred);
    assert(m.wildcards + Seq::empty() =~= m.wildcards);
    assert(back.wildcards == m.wildcards);
    assert(st.services.insert(svc.name, svc).remove(svc.name) =~= st.services);
}

/// Whether a service has an exact domain and this address.
pub open spec fn serves_exact(svc: ProxyServiceView, host: Seq<char>, addr: Seq<char>) -> bool {
    &&& svc.bind_addr == addr
    &&& exists|i: int|
        0 <= i < svc.domains.len() && !is_wildcard(#[trigger] svc.domains[i]) && lower(
            svc.domains[i],
        ) == host
}

/// Whether a service has the wildcard of a suffix and this address.
pub open spec fn serves_suffix(svc: ProxyServiceView, suffix: Seq<char>, addr: Seq<char>) -> bool {
    &&& svc.bind_addr == addr
    &&& exists|i: int|
        0 <= i < svc.domains.len() && is_wildcard(#[trigger] svc.domains[i]) && wildcard_suffix(
            svc.domains[i],
        ) == suffix
}

/// Whether the route of an exact domain leads to a service that is on the list
/// and has that domain.
pub open spec fn exact_is_owned(st: ProxyView, host: Seq<char>) -> bool {
    exists|n: Seq<char>| #[trigger]
        st.services.contains_key(n) && serves_exact(st.services[n], host, st.matcher.exact[host])
}

/// Whether a wildcard route leads to a service that is on the list and has that
/// wildcard.
pub open spec fn wildcard_is_owned(st: ProxyView, w: (Seq<char>, Seq<char>)) -> bool {
    exists|n: Seq<char>| #[trigger]
        st.services.contains_key(n) && serves_suffix(st.services[n], w.0, w.1)
}

/// No route is stale: every domain and every wildcard that the matcher knows
/// leads to the address of a service that is on the list and has that domain.
pub open spec fn routes_are_owned(st: ProxyView) -> bool {
    &&& forall|host: Seq<char>| #[trigger]
        st.matcher.exact.contains_key(host) ==> exact_is_owned(st, host)
    &&& forall|i: int|
        0 <= i < st.matcher.wildcards.len() ==> wildcard_is_owned(
            st,
            #[trigger] st.matcher.wildcards[i],
        )
}

/// A new proxy has no stale route.
pub proof fn law_no_stale_routes_at_first()
    ensures
        routes_are_owned(ProxyView::empty()),
{
}

/// Without the routes of a service, no route needs that service.
proof fn lemma_unroute_frees(st: ProxyView, name: Seq<char>)
    requires
        routes_are_owned(st),
    ensures
        routes_are_owned(
            ProxyView { services: st.services.remove(name), matcher: st.unroute(name).matcher },
        ),
{
    let after = ProxyView {
        services: st.services.remove(name),
        matcher: st.unroute(name).matcher,
    };
    if st.services.contains_key(name) {
        let ds = st.services[name].domains;
        lemma_forget_all_contents(st.matcher, ds);
        assert forall|k: Seq<char>| #[trigger]
            after.matcher.exact.contains_key(k) implies exact_is_owned(after, k) by {
            assert(st.matcher.exact.contains_key(k));
            assert(exact_is_owned(st, k));
            let n = choose|n: Seq<char>| #[trigger]
                st.services.contains_key(n) && serves_exact(
                    st.services[n],
                    k,
                    st.matcher.exact[k],
                );
            assert(n != name);
            assert(after.services.contains_key(n));
        }
        let pred = |w: (Seq<char>, Seq<char>)| !names_suffix(ds, w.0);
        let kept = st.matcher.wildcards.filter(pred);
        assert forall|i: int| 0 <= i < after.matcher.wildcards.len() implies wildcard_is_owned(
            after,
            #[trigger] after.matcher.wildcards[i],
        ) by {
            lemma_filtered(st.matcher.wildcards, pred, i);
            let j = choose|j: int|
                0 <= j < st.matcher.wildcards.len() && st.matcher.wildcards[j] == kept[i];
            assert(wildcard_is_owned(st, st.matcher.wildcards[j]));
            let n = choose|n: Seq<char>| #[trigger]
                st.services.contains_key(n) && serves_suffix(st.services[n], kept[i].0, kept[i].1);
            assert(n != name);
            assert(after.services.contains_key(n));
        }
    } else {
        assert(after =~= st);
    }
}

/// A service under a name that no route needs makes no route stale.
proof fn lemma_install_keeps_owned(st: ProxyView, svc: ProxyServiceView)
    requires
        routes_are_owned(ProxyView { services: st.services.remove(svc.name), ..st }),
    ensures
        routes_are_owned(st.install(svc)),
{
    let before = ProxyView { services: st.services.remove(svc.name), ..st };
    let after = st.install(svc);
    lemma_add_all_contents(st.matcher, svc.domains, svc.bind_addr);
    assert forall|k: Seq<char>| #[trigger]
        after.matcher.exact.contains_key(k) implies exact_is_owned(after, k) by {
        if names_exactly(svc.domains, k) {
            assert(after.services.contains_key(svc.name));
            assert(serves_exact(after.services[svc.name], k, after.matcher.exact[k]));
        } else {
            assert(before.matcher.exact.contains_key(k));
            assert(exact_is_owned(before, k));
            let n = choose|n: Seq<char>| #[trigger]
                before.services.contains_key(n) && serves_exact(
                    before.services[n],
                    k,
                    before.matcher.exact[k],
                );
            assert(after.services.contains_key(n));
        }
    }
    assert forall|i: int| 0 <= i < after.matcher.wildcards.len() implies wildcard_is_owned(
        after,
        #[trigger] after.matcher.wildcards[i],
    ) by {
        let old_len = st.matcher.wildcards.len();
        let w = after.matcher.wildcards[i];
        if i < old_len {
            assert(w == before.matcher.wildcards[i]);
            assert(wildcard_is_owned(before, before.matcher.wildcards[i]));
            let n = choose|n: Seq<char>| #[trigger]
                before.services.contains_key(n) && serves_suffix(before.services[n], w.0, w.1);
            assert(after.services.contains_key(n));
        } else {
            let more = added_wildcards(svc.domains, svc.bind_addr);
            assert(w == more[i - old_len]);
            assert(names_suffix(svc.domains, w.0));
            assert(after.services.contains_key(svc.name));
            assert(serves_suffix(after.services[svc.name], w.0, w.1));
        }
    }
}

/// Adding or replacing a service leaves no stale route behind.
pub proof fn law_upsert_leaves_no_stale_routes(st: ProxyView, svc: ProxyServiceView)
    requires
        routes_are_owned(st),
    ensures
        routes_are_owned(st.upsert(svc)),
{
    lemma_unroute_frees(st, svc.name);
    lemma_install_keeps_owned(st.unroute(svc.name), svc);
}

/// Removing a service leaves no stale route behind.
pub proof fn law_remove_leaves_no_stale_routes(st: ProxyView, name: Seq<char>)
    requires
        routes_are_owned(st),
    ensures
        routes_are_owned(st.remove(name)),
{
    lemma_unroute_frees(st, name);
}

/// Updating to services of different names leaves no stale route behind.
pub proof fn law_update_leaves_no_stale_routes(services: Seq<ProxyServiceView>)
    requires
        forall|i: int, j: int|
            0 <= i < j < services.len() ==> (#[trigger] services[i]).name != (
            #[trigger] services[j]).name,
    ensures
        routes_are_owned(ProxyView::empty().install_all(services)),
        forall|n: Seq<char>| #[trigger]
            ProxyView::empty().install_all(services).services.contains_key(n) ==> exists|i: int|
                0 <= i < services.len() && (#[trigger] services[i]).name == n,
    decreases services.len(),
{
    if services.len() > 0 {
        let rest = services.drop_last();
        let last = services.last();
        let before = ProxyView::empty().install_all(rest);
        let after = ProxyView::empty().install_all(services);
        law_update_leaves_no_stale_routes(rest);
        if before.services.contains_key(last.name) {
            let i = choose|i: int| 0 <= i < rest.len() && (#[trigger] rest[i]).name == last.name;
            assert(services[i] == rest[i]);
        }
        assert(before.services.remove(last.name) =~= before.services);
        lemma_install_keeps_owned(before, last);
        assert forall|n: Seq<char>| #[trigger] after.services.contains_key(n) implies exists|i: int|
            0 <= i < services.len() && (#[trigger] services[i]).name == n by {
            if n == last.name {
                assert(services[services.len() - 1].name == n);
            } else {
                assert(before.services.contains_key(n));
                let i = choose|i: int| 0 <= i < rest.len() && (#[trigger] rest[i]).name == n;
                assert(services[i] == rest[i]);
            }
        }
    }
}

/// A host that is an exact domain among the patterns, or that one of their
/// wildcards covers, leads somewhere once the patterns were added; an exact
/// domain leads to their address.
proof fn lemma_added_patterns_route(
    m: MatcherView,
    patterns: Seq<Seq<char>>,
    addr: Seq<char>,
    pattern: Seq<char>,
    host: Seq<char>,
)
    requires
        patterns.contains(pattern),
        covers(pattern, host),
    ensures
        m.add_all(patterns, addr).lookup_host(host) is Some,
        !is_wildcard(pattern) ==> m.add_all(patterns, addr).lookup_host(host) == Some(addr),
    decreases patterns.len(),
{
    let rest = patterns.drop_last();
    let mid = m.add_all(rest, addr);
    if is_wildcard(patterns.last()) {
        lemma_first_wildcard_push(mid.wildcards, (wildcard_suffix(patterns.last()), addr), host);
    }
    if pattern != patterns.last() {
        let i = choose|i: int| 0 <= i < patterns.len() && patterns[i] == pattern;
        assert(rest[i] == pattern);
        lemma_added_patterns_route(m, rest, addr, pattern, host);
    }
}

/// Once a service was added or replaced, each of its exact domains leads to its
/// address, and every domain below one of its wildcards leads somewhere.
pub proof fn law_upserted_service_is_routed(
    st: ProxyView,
    svc: ProxyServiceView,
    pattern: Seq<char>,
    domain: Seq<char>,
)
    requires
        svc.domains.contains(pattern),
        covers(pattern, requested_host(domain)),
    ensures
        st.upsert(svc).matcher.lookup(domain) is Some,
        !is_wildcard(pattern) ==> st.upsert(svc).matcher.lookup(domain) == Some(svc.bind_addr),
{
    lemma_added_patterns_route(
        st.unroute(svc.name).matcher,
        svc.domains,
        svc.bind_addr,
        pattern,
        requested_host(domain),
    );
}

/// Once the services were updated, an exact domain of a service leads to its
/// address, where no service behind it on the list bears on that host.
pub proof fn law_updated_service_is_routed(
    services: Seq<ProxyServiceView>,
    at: int,
    pattern: Seq<char>,
    domain: Seq<char>,
)
    requires
        0 <= at < services.len(),
        services[at].domains.contains(pattern),
        !is_wildcard(pattern),
        requested_host(domain) == lower(pattern),
        forall|j: int|
            at < j < services.len() ==> !any_covers(
                (#[trigger] services[j]).domains,
                requested_host(domain),
            ),
    ensures
        ProxyView::empty().install_all(services).matcher.lookup(domain) == Some(
            services[at].bind_addr,
        ),
    decreases services.len(),
{
    let rest = services.drop_last();
    let last = services.last();
    let mid = ProxyView::empty().install_all(rest).matcher;
    let host = requested_host(domain);
    if at == services.len() - 1 {
        lemma_added_patterns_route(mid, last.domains, last.bind_addr, pattern, host);
    } else {
        assert forall|j: int| at < j < rest.len() implies !any_covers(
            (#[trigger] rest[j]).domains,
            host,
        ) by {
            assert(rest[j] == services[j]);
        }
        law_updated_service_is_routed(rest, at, pattern, domain);
        assert(!any_covers(services[services.len() - 1].domains, host));
        lemma_add_all_elsewhere(mid, last.domains, last.bind_addr, host);
    }
}

/// An exact domain keeps its address when a service is added or replaced that
/// neither has nor had that very domain, whatever its wildcards cover.
pub proof fn law_upsert_keeps_exact_domains(st: ProxyView, svc: ProxyServiceView, host: Seq<char>)
    requires
        st.matcher.exact.contains_key(host),
        !names_exactly(svc.domains, host),
        st.services.contains_key(svc.name) ==> !names_exactly(
            st.services[svc.name].domains,
            host,
        ),
    ensures
        st.upsert(svc).matcher.lookup_host(host) == Some(st.matcher.exact[host]),
{
    if st.services.contains_key(svc.name) {
        lemma_forget_all_contents(st.matcher, st.services[svc.name].domains);
    }
    let mid = st.unroute(svc.name).matcher;
    assert(mid.exact.contains_key(host));
    lemma_add_all_contents(mid, svc.domains, svc.bind_addr);
    assert(st.upsert(svc).matcher.exact.contains_key(host));
}

/// Whether two services have no exact domain in common.
pub open spec fn domains_apart(a: ProxyServiceView, b: ProxyServiceView) -> bool {
    forall|host: Seq<char>|
        !(#[trigger] names_exactly(a.domains, host) && names_exactly(b.domains, host))
}

/// Whether no two services on the list have an exact domain in common.
pub open spec fn services_apart(st: ProxyView) -> bool {
    forall|m: Seq<char>, n: Seq<char>|
        m != n && #[trigger] st.services.contains_key(m) && #[trigger] st.services.contains_key(n)
            ==> domains_apart(st.services[m], st.services[n])
}

/// Whether a service has no exact domain in common with those on the list that
/// have another name.
pub open spec fn apart_from_others(st: ProxyView, svc: ProxyServiceView) -> bool {
    forall|n: Seq<char>|
        n != svc.name && #[trigger] st.services.contains_key(n) ==> domains_apart(
            st.services[n],
            svc,
        ) && domains_apart(svc, st.services[n])
}

/// Whether every exact domain of every service on the list leads to that service.
pub open spec fn domains_lead(st: ProxyView) -> bool {
    forall|n: Seq<char>, host: Seq<char>|
        #![trigger st.services.contains_key(n), names_exactly(st.services[n].domains, host)]
        st.services.contains_key(n) && names_exactly(st.services[n].domains, host) ==> {
            &&& st.matcher.exact.contains_key(host)
            &&& st.matcher.exact[host] == st.services[n].bind_addr
        }
}

/// In a new proxy every exact domain leads to its service: there is none.
pub proof fn law_domains_lead_at_first()
    ensures
        domains_lead(ProxyView::empty()),
        services_apart(ProxyView::empty()),
{
}

/// When a service is added or replaced that shares no exact domain with another,
/// every exact domain of every service leads to that service, as before.
pub proof fn law_upsert_keeps_domains_leading(st: ProxyView, svc: ProxyServiceView)
    requires
        domains_lead(st),
        services_apart(st),
        apart_from_others(st, svc),
    ensures
        st.upsert(svc).services == st.services.insert(svc.name, svc),
        domains_lead(st.upsert(svc)),
        services_apart(st.upsert(svc)),
{
    let after = st.upsert(svc);
    let mid = st.unroute(svc.name).matcher;
    lemma_add_all_contents(mid, svc.domains, svc.bind_addr);
    assert forall|n: Seq<char>, host: Seq<char>|
        #![trigger after.services.contains_key(n), names_exactly(after.services[n].domains, host)]
        after.services.contains_key(n) && names_exactly(
            after.services[n].domains,
            host,
        ) implies after.matcher.exact.contains_key(host) && after.matcher.exact[host]
        == after.services[n].bind_addr by {
        if n == svc.name {
            assert(after.matcher.exact.contains_key(host));
        } else {
            assert(st.services.contains_key(n));
            assert(after.services[n] == st.services[n]);
            assert(names_exactly(st.services[n].domains, host));
            assert(domains_apart(st.services[n], svc));
            assert(!names_exactly(svc.domains, host));
            assert(st.matcher.exact.contains_key(host));
            if st.services.contains_key(svc.name) {
                assert(domains_apart(st.services[n], st.services[svc.name]));
                lemma_forget_all_contents(st.matcher, st.services[svc.name].domains);
            }
            assert(mid.exact.contains_key(host));
            assert(after.matcher.exact.contains_key(host));
        }
    }
    assert forall|m: Seq<char>, n: Seq<char>|
        m != n && #[trigger] after.services.contains_key(m) && #[trigger] after.services.contains_key(
            n,
        ) implies domains_apart(after.services[m], after.services[n]) by {
        if m != svc.name {
            assert(st.services.contains_key(m));
        }
        if n != svc.name {
            assert(st.services.contains_key(n));
        }
    }
}

/// When a service is removed, every exact domain of every other service leads to
/// that service, as before.
pub proof fn law_remove_keeps_domains_leading(st: ProxyView, name: Seq<char>)
    requires
        domains_lead(st),
        services_apart(st),
    ensures
        st.remove(name).services == st.services.remove(name),
        domains_lead(st.remove(name)),
        services_apart(st.remove(name)),
{
    let after = st.remove(name);
    assert forall|n: Seq<char>, host: Seq<char>|
        #![trigger after.services.contains_key(n), names_exactly(after.services[n].domains, host)]
        after.services.contains_key(n) && names_exactly(
            after.services[n].domains,
            host,
        ) implies after.matcher.exact.contains_key(host) && after.matcher.exact[host]
        == after.services[n].bind_addr by {
        assert(st.services.contains_key(n) && n != name);
        assert(after.services[n] == st.services[n]);
        assert(names_exactly(st.services[n].domains, host));
        assert(st.matcher.exact.contains_key(host));
        if st.services.contains_key(name) {
            assert(domains_apart(st.services[n], st.services[name]));
            lemma_forget_all_contents(st.matcher, st.services[name].domains);
        }
        assert(after.matcher.exact.contains_key(host));
    }
    assert forall|m: Seq<char>, n: Seq<char>|
        m != n && #[trigger] after.services.contains_key(m) && #[trigger] after.services.contains_key(
            n,
        ) implies domains_apart(after.services[m], after.services[n]) by {
        assert(st.services.contains_key(m) && st.services.contains_key(n));
    }
}

/// A change of the services of a proxy.
pub enum ServiceChange {
    Upsert(ProxyServiceView),
    Remove(Seq<char>),
}

/// The proxy that has seen these changes, and nothing else.
pub open spec fn changed_proxy(changes: Seq<ServiceChange>) -> ProxyView
    decreases changes.len(),
{
    if changes.len() == 0 {
        ProxyView::empty()
    } else {
        let before = changed_proxy(changes.drop_last());
        match changes.last() {
            ServiceChange::Upsert(svc) => before.upsert(svc),
            ServiceChange::Remove(name) => before.remove(name),
        }
    }
}

/// Whether no two services of different names ever have an exact domain in
/// common.
pub open spec fn never_shared(changes: Seq<ServiceChange>) -> bool {
    forall|i: int, j: int|
        0 <= i < changes.len() && 0 <= j < changes.len() ==> ((#[trigger] changes[i]) matches
            ServiceChange::Upsert(a) ==> ((#[trigger] changes[j]) matches ServiceChange::Upsert(b)
            ==> (a.name != b.name ==> domains_apart(a, b))))
}

/// As long as no two services of different names share an exact domain, every
/// exact domain of every service leads to that service, whatever services came,
/// were replaced and went, and a request for such a domain without a colon goes
/// there. Every service on the list came by a change, under its name.
pub proof fn law_services_keep_their_domains(changes: Seq<ServiceChange>)
    requires
        never_shared(changes),
    ensures
        domains_lead(changed_proxy(changes)),
        services_apart(changed_proxy(changes)),
        forall|n: Seq<char>, pattern: Seq<char>|
            #![trigger changed_proxy(changes).services.contains_key(n), is_wildcard(pattern)]
            changed_proxy(changes).services.contains_key(n) && changed_proxy(
                changes,
            ).services[n].domains.contains(pattern) && !is_wildcard(pattern) && !pattern.contains(
                ':',
            ) ==> changed_proxy(changes).matcher.lookup(pattern) == Some(
                changed_proxy(changes).services[n].bind_addr,
            ),
        forall|n: Seq<char>| #[trigger]
            changed_proxy(changes).services.contains_key(n) ==> changed_proxy(
                changes,
            ).services[n].name == n && changes.contains(
                ServiceChange::Upsert(changed_proxy(changes).services[n]),
            ),
    decreases changes.len(),
{
    if changes.len() > 0 {
        let rest = changes.drop_last();
        let before = changed_proxy(rest);
        let after = changed_proxy(changes);
        let last = changes.len() - 1;
        assert forall|i: int, j: int| 0 <= i < rest.len() && 0 <= j < rest.len() implies ((
        #[trigger] rest[i]) matches ServiceChange::Upsert(a) ==> ((#[trigger] rest[j]) matches
            ServiceChange::Upsert(b) ==> (a.name != b.name ==> domains_apart(a, b)))) by {
            assert(rest[i] == changes[i] && rest[j] == changes[j]);
        }
        law_services_keep_their_domains(rest);
        match changes.last() {
            ServiceChange::Upsert(svc) => {
                assert forall|n: Seq<char>|
                    n != svc.name && #[trigger] before.services.contains_key(
                        n,
                    ) implies domains_apart(before.services[n], svc) && domains_apart(
                    svc,
                    before.services[n],
                ) by {
                    let i = choose|i: int|
                        0 <= i < rest.len() && rest[i] == ServiceChange::Upsert(before.services[n]);
                    assert(changes[i] == rest[i]);
                    assert(changes[last] == ServiceChange::Upsert(svc));
                }
                law_upsert_keeps_domains_leading(before, svc);
            },
            ServiceChange::Remove(name) => {
                law_remove_keeps_domains_leading(before, name);
            },
        }
        assert forall|n: Seq<char>| #[trigger] after.services.contains_key(n) implies after.services[n].name
            == n && changes.contains(ServiceChange::Upsert(after.services[n])) by {
            assert(changes[last] == changes.last());
            if !(changes.last() matches ServiceChange::Upsert(svc) && n == svc.name) {
                assert(before.services.contains_key(n));
                let i = choose|i: int|
                    0 <= i < rest.len() && rest[i] == ServiceChange::Upsert(before.services[n]);
                assert(changes[i] == rest[i]);
            }
        }
    }    let st = changed_proxy(changes);
    assert forall|n: Seq<char>, pattern: Seq<char>|
        #![trigger st.services.contains_key(n), is_wildcard(pattern)]
        st.services.contains_key(n) && st.services[n].domains.contains(pattern) && !is_wildcard(
            pattern,
        ) && !pattern.contains(':') implies st.matcher.lookup(pattern) == Some(
        st.services[n].bind_addr,
    ) by {
        law_domain_leads_to_its_service(st, n, pattern);
    }
}

/// Where the exact domains lead to their services, a request for such a domain
/// goes to the service that has it. The domain has no colon, behind which a port
/// would be looked for.
pub proof fn law_domain_leads_to_its_service(st: ProxyView, name: Seq<char>, pattern: Seq<char>)
    requires
        domains_lead(st),
        st.services.contains_key(name),
        st.services[name].domains.contains(pattern),
        !is_wildcard(pattern),
        !pattern.contains(':'),
    ensures
        st.matcher.lookup(pattern) == Some(st.services[name].bind_addr),
{
    let host = lower(pattern);
    let i = choose|i: int|
        0 <= i < st.services[name].domains.len() && st.services[name].domains[i] == pattern;
    assert(names_exactly(st.services[name].domains, host));
}

/// A pattern is a wildcard exactly where it is `*.` and a root domain behind it.
pub proof fn law_what_is_a_wildcard(pattern: Seq<char>, root: Seq<char>)
    ensures
        is_wildcard(seq!['*', '.'] + root),
        is_wildcard(pattern) ==> exists|r: Seq<char>| pattern == seq!['*', '.'] + r,
{
    if is_wildcard(pattern) {
        assert(pattern =~= seq!['*', '.'] + pattern.skip(2));
    }
}

/// A request goes to an address exactly where its Host header leads there. Without
/// a readable Host header it is refused for that, and with one that leads nowhere
/// for an unknown domain, and for nothing else.
pub proof fn law_request_goes_where_its_host_leads(
    m: MatcherView,
    fields: Map<Seq<char>, Seq<Seq<u8>>>,
    addr: Seq<char>,
)
    ensures
        route(m, fields) == Err::<Seq<char>, RouteError>(RouteError::MissingHost) <==> field_text(
            fields,
            "host"@,
        ) is None,
        field_text(fields, "host"@) matches Some(host) ==> {
            &&& route(m, fields) == Ok::<Seq<char>, RouteError>(addr) <==> m.lookup(host) == Some(
                addr,
            )
            &&& route(m, fields) == Err::<Seq<char>, RouteError>(RouteError::UnknownDomain)
                <==> m.lookup(host) is None
        },
{
}

proof fn lemma_first_wildcard_is_one(wildcards: Seq<(Seq<char>, Seq<char>)>, host: Seq<char>)
    ensures
        first_wildcard(wildcards, host) matches Some(a) ==> exists|i: int|
            0 <= i < wildcards.len() && (#[trigger] wildcards[i]).1 == a,
    decreases wildcards.len(),
{
    if wildcards.len() > 0 {
        let rest = wildcards.drop_first();
        lemma_first_wildcard_is_one(rest, host);
        if wildcards[0].0.is_suffix_of(host) {
            assert(wildcards[0].1 == first_wildcard(wildcards, host)->Some_0);
        } else if first_wildcard(rest, host) is Some {
            let a = first_wildcard(rest, host)->Some_0;
            let i = choose|i: int| 0 <= i < rest.len() && (#[trigger] rest[i]).1 == a;
            assert(wildcards[i + 1] == rest[i]);
        }
    }
}

/// Where no route is stale, a request leads only to the address of a service that
/// is on the list.
pub proof fn law_requests_lead_to_listed_services(st: ProxyView, domain: Seq<char>)
    requires
        routes_are_owned(st),
    ensures
        st.matcher.lookup(domain) matches Some(a) ==> exists|n: Seq<char>| #[trigger]
            st.services.contains_key(n) && st.services[n].bind_addr == a,
{
    let host = requested_host(domain);
    if st.matcher.exact.contains_key(host) {
        assert(exact_is_owned(st, host));
    } else if st.matcher.lookup(domain) is Some {
        let a = st.matcher.lookup(domain)->Some_0;
        lemma_first_wildcard_is_one(st.matcher.wildcards, host);
        let i = choose|i: int|
            0 <= i < st.matcher.wildcards.len() && (#[trigger] st.matcher.wildcards[i]).1 == a;
        assert(wildcard_is_owned(st, st.matcher.wildcards[i]));
    }
}

/// In a proxy with one service, a request for a domain below one of its wildcards,
/// or for one of its exact domains, in any case, is answered with the address of
/// that service.
pub proof fn law_request_reaches_the_only_service(
    svc: ProxyServiceView,
    label: Seq<char>,
    root: Seq<char>,
    wildcard_request: Map<Seq<char>, Seq<Seq<u8>>>,
    exact_request: Map<Seq<char>, Seq<Seq<u8>>>,
)
    requires
        is_ascii_chars(label),
        is_ascii_chars(root),
        !label.contains(':'),
        !root.contains(':'),
    ensures
        svc.domains.contains(seq!['*', '.'] + root) && (field_text(
            wildcard_request,
            "host"@,
        ) matches Some(host) && is_ascii_chars(host) && ascii_lower(host) == ascii_lower(
            label + seq!['.'] + root,
        )) ==> route(ProxyView::empty().upsert(svc).matcher, wildcard_request) == Ok::<
            Seq<char>,
            RouteError,
        >(svc.bind_addr),
        svc.domains.contains(root) && !is_wildcard(root) && (field_text(
            exact_request,
            "host"@,
        ) matches Some(host) && is_ascii_chars(host) && ascii_lower(host) == ascii_lower(root))
            ==> route(ProxyView::empty().upsert(svc).matcher, exact_request) == Ok::<
            Seq<char>,
            RouteError,
        >(svc.bind_addr),
{
    let st = ProxyView::empty().upsert(svc);
    law_no_stale_routes_at_first();
    law_upsert_leaves_no_stale_routes(ProxyView::empty(), svc);
    let name = label + seq!['.'] + root;
    assert(is_ascii_chars(name));
    if let Some(host) = field_text(wildcard_request, "host"@) {
        let pattern = seq!['*', '.'] + root;
        if svc.domains.contains(pattern) && is_ascii_chars(host) && ascii_lower(host)
            == ascii_lower(name) {
            assert(!name.contains(':')) by {
                if name.contains(':') {
                    let i = choose|i: int| 0 <= i < name.len() && name[i] == ':';
                    if i < label.len() {
                        assert(label[i] == ':');
                    } else {
                        assert(root[i - label.len() - 1] == ':');
                    }
                }
            }
            law_case_insensitive(st.matcher, host, name, svc.bind_addr);
            assert(pattern.skip(1) =~= seq!['.'] + root);
            assert(is_ascii_chars(seq!['.'] + root));
            let low = ascii_lower(name);
            let suffix = ascii_lower(seq!['.'] + root);
            assert(low.subrange(low.len() - suffix.len(), low.len() as int) =~= suffix);
            assert(covers(pattern, requested_host(name)));
            law_upserted_service_is_routed(ProxyView::empty(), svc, pattern, name);
            law_requests_lead_to_listed_services(st, name);
        }
    }
    if let Some(host) = field_text(exact_request, "host"@) {
        if svc.domains.contains(root) && !is_wildcard(root) && is_ascii_chars(host) && ascii_lower(
            host,
        ) == ascii_lower(root) {
            law_case_insensitive(st.matcher, host, root, svc.bind_addr);
            law_upserted_service_is_routed(ProxyView::empty(), svc, root, root);
        }
    }
}

/// After an update the list holds each of the services under its name: of two with
/// one name the later one. Nothing else is on the list.
pub proof fn law_update_lists_the_services(services: Seq<ProxyServiceView>, i: int)
    requires
        0 <= i < services.len(),
        forall|j: int| i < j < services.len() ==> (#[trigger] services[j]).name != services[i].name,
    ensures
        ({
            let st = ProxyView::empty().install_all(services);
            &&& st.services.contains_key(services[i].name)
            &&& st.services[services[i].name] == services[i]
            &&& forall|n: Seq<char>| #[trigger]
                st.services.contains_key(n) ==> exists|k: int|
                    0 <= k < services.len() && (#[trigger] services[k]).name == n
        }),
    decreases services.len(),
{
    let rest = services.drop_last();
    let before = ProxyView::empty().install_all(rest);
    let st = ProxyView::empty().install_all(services);
    let last = services.len() - 1;
    assert(services[last] == services.last());
    if i < last {
        assert(services[last].name != services[i].name);
        assert(rest[i] == services[i]);
        assert forall|j: int| i < j < rest.len() implies (#[trigger] rest[j]).name
            != rest[i].name by {
            assert(rest[j] == services[j]);
        }
        law_update_lists_the_services(rest, i);
    }
    lemma_installed_names(services);
}

proof fn lemma_installed_names(services: Seq<ProxyServiceView>)
    ensures
        forall|n: Seq<char>| #[trigger]
            ProxyView::empty().install_all(services).services.contains_key(n) ==> exists|k: int|
                0 <= k < services.len() && (#[trigger] services[k]).name == n,
    decreases services.len(),
{
    if services.len() > 0 {
        let rest = services.drop_last();
        lemma_installed_names(rest);
        let st = ProxyView::empty().install_all(services);
        assert forall|n: Seq<char>| #[trigger] st.services.contains_key(n) implies exists|k: int|
            0 <= k < services.len() && (#[trigger] services[k]).name == n by {
            if n == services.last().name {
                assert(services[services.len() - 1].name == n);
            } else {
                assert(ProxyView::empty().install_all(rest).services.contains_key(n));
                let k = choose|k: int| 0 <= k < rest.len() && (#[trigger] rest[k]).name == n;
                assert(services[k] == rest[k]);
            }
        }
    }
}

/// The log line of a request has, as its words, the method, the host, the path and
/// the status in decimal in this order, where the first three have no white space.
pub proof fn law_log_line_says_what_was_answered(
    method: Seq<char>,
    host: Option<Seq<char>>,
    path: Seq<char>,
    status: Option<u16>,
)
    requires
        one_word(method),
        host matches Some(h) ==> one_word(h),
        one_word(path),
    ensures
        ({
            let w = words(log_line(method, host, path, status));
            &&& w.len() == 7
            &&& w[2] == method
            &&& host matches Some(h) ==> w[3] == h
            &&& host is None ==> w[3] == seq!['-']
            &&& w[4] == path
            &&& parse_number(w[6], 10, 65535) == Some(
                match status {
                    Some(code) => code as nat,
                    None => 0,
                },
            )
        }),
{
    let named = match host {
        Some(h) => h,
        None => "-"@,
    };
    let code = match status {
        Some(code) => code as nat,
        None => 0,
    };
    let digits = decimal(code);
    lemma_decimal(code);
    law_decimal_is_read_back(code, 65535);
    lemma_log_words();
    assert(one_word(digits));
    let w = seq!["HTTP"@, "proxy:"@, method, named, path, "->"@, digits];
    lemma_spaced_words(w);
    lemma_spaced_line(w);
    assert(log_line(method, host, path, status) == "HTTP"@ + seq![' '] + "proxy:"@ + seq![' ']
        + method + seq![' '] + named + seq![' '] + path + (seq![' '] + "->"@ + seq![' ']) + digits);
}

proof fn lemma_log_words()
    ensures
        "HTTP proxy: "@ == "HTTP"@ + seq![' '] + "proxy:"@ + seq![' '],
        " "@ == seq![' '],
        " -> "@ == seq![' '] + "->"@ + seq![' '],
        "-"@ == seq!['-'],
        one_word("HTTP"@),
        one_word("proxy:"@),
        one_word("->"@),
        one_word("-"@),
{
    reveal_strlit("HTTP proxy: ");
    reveal_strlit("HTTP");
    reveal_strlit("proxy:");
    reveal_strlit(" ");
    reveal_strlit(" -> ");
    reveal_strlit("->");
    reveal_strlit("-");
    assert("HTTP proxy: "@ =~= "HTTP"@ + seq![' '] + "proxy:"@ + seq![' ']);
    assert(" "@ =~= seq![' ']);
    assert(" -> "@ =~= seq![' '] + "->"@ + seq![' ']);
    assert("-"@ =~= seq!['-']);
}

/// Words with a space between each two.
spec fn spaced(w: Seq<Seq<char>>) -> Seq<char>
    decreases w.len(),
{
    if w.len() == 0 {
        Seq::empty()
    } else if w.len() == 1 {
        w[0]
    } else {
        w[0] + seq![' '] + spaced(w.drop_first())
    }
}

proof fn lemma_spaced_words(w: Seq<Seq<char>>)
    requires
        w.len() > 0,
        forall|i: int| 0 <= i < w.len() ==> one_word(#[trigger] w[i]),
    ensures
        words(spaced(w)) == w,
    decreases w.len(),
{
    assert(one_word(w[0]));
    let rest = w.drop_first();
    law_words(w[0], ' ', spaced(rest));
    if w.len() > 1 {
        assert forall|i: int| 0 <= i < rest.len() implies one_word(#[trigger] rest[i]) by {
            assert(rest[i] == w[i + 1]);
        }
        lemma_spaced_words(rest);
        assert(seq![w[0]] + rest =~= w);
    } else {
        assert(seq![w[0]] =~= w);
    }
}

proof fn lemma_spaced_line(w: Seq<Seq<char>>)
    requires
        w.len() == 7,
    ensures
        spaced(w) == w[0] + seq![' '] + w[1] + seq![' '] + w[2] + seq![' '] + w[3] + seq![' '] + w[4]
            + (seq![' '] + w[5] + seq![' ']) + w[6],
{
    let s = seq![' '];
    let w1 = w.drop_first();
    let w2 = w1.drop_first();
    let w3 = w2.drop_first();
    let w4 = w3.drop_first();
    let w5 = w4.drop_first();
    let w6 = w5.drop_first();
    assert(w1[0] == w[1] && w2[0] == w[2] && w3[0] == w[3] && w4[0] == w[4] && w5[0] == w[5]
        && w6[0] == w[6]);
    assert(spaced(w6) == w[6]);
    assert(spaced(w5) == w[5] + s + spaced(w6));
    assert(spaced(w4) == w[4] + s + spaced(w5));
    assert(spaced(w3) == w[3] + s + spaced(w4));
    assert(spaced(w2) == w[2] + s + spaced(w3));
    assert(spaced(w1) == w[1] + s + spaced(w2));
    let x1 = w[0] + s;
    lemma_regroup(x1, w[1], s, spaced(w2));
    let x2 = x1 + w[1] + s;
    lemma_regroup(x2, w[2], s, spaced(w3));
    let x3 = x2 + w[2] + s;
    lemma_regroup(x3, w[3], s, spaced(w4));
    let x4 = x3 + w[3] + s;
    lemma_regroup(x4, w[4], s, spaced(w5));
    let x5 = x4 + w[4] + s;
    lemma_regroup(x5, w[5], s, w[6]);
    lemma_regroup(x4 + w[4], s, w[5], s);
}

/// Whether a text is one word: not empty, and without white space.
pub open spec fn one_word(s: Seq<char>) -> bool {
    s.len() > 0 && forall|i: int| 0 <= i < s.len() ==> !white_space(#[trigger] s[i])
}

/// A service of the proxy, and the proxy itself, stand for their fields.
pub proof fn law_proxy_fields(svc: ProxyServiceInfo, i: int, st: HttpProxyState)
    ensures
        svc@.name == svc.name@,
        svc@.bind_addr == svc.bind_addr@,
        svc@.domains.len() == svc.domains@.len(),
        0 <= i < svc.domains@.len() ==> svc@.domains[i] == svc.domains@[i]@,
        st@.matcher == st.matcher@,
        st@.services.dom() == st.services@.dom(),
        forall|n: Seq<char>| #[trigger]
            st.services@.contains_key(n) ==> st@.services[n] == st.services@[n]@,
{
    assert(st@.services.dom() =~= st.services@.dom());
}

/// What a pattern bears on, in ASCII: an exact domain on that domain alone, and a
/// wildcard on the domains below its root alone, each in any case.
pub proof fn law_what_a_pattern_covers(pattern: Seq<char>, root: Seq<char>, domain: Seq<char>)
    requires
        is_ascii_chars(pattern),
        is_ascii_chars(root),
        is_ascii_chars(domain),
        !domain.contains(':'),
    ensures
        !is_wildcard(pattern) ==> (covers(pattern, requested_host(domain)) <==> ascii_lower(pattern)
            == ascii_lower(domain)),
        covers(seq!['*', '.'] + root, requested_host(domain)) <==> exists|label: Seq<char>|
            ascii_lower(domain) == #[trigger] (label + seq!['.'] + ascii_lower(root)),
{
    let low = ascii_lower(domain);
    let wild = seq!['*', '.'] + root;
    assert(wild.skip(1) =~= seq!['.'] + root);
    assert(is_ascii_chars(seq!['.'] + root));
    let suffix = seq!['.'] + ascii_lower(root);
    assert(ascii_lower(seq!['.'] + root) =~= suffix);
    if suffix.is_suffix_of(low) {
        let label = low.take(low.len() - suffix.len());
        assert(low =~= label + low.subrange(low.len() - suffix.len(), low.len() as int));
        assert(label + suffix =~= label + seq!['.'] + ascii_lower(root));
    }
    if exists|label: Seq<char>| low == #[trigger] (label + seq!['.'] + ascii_lower(root)) {
        let label = choose|label: Seq<char>|
            low == #[trigger] (label + seq!['.'] + ascii_lower(root));
        assert(low.subrange(low.len() - suffix.len(), low.len() as int) =~= suffix);
    }
}

/// A pattern that is added leads the domains that it bears on to its address: an
/// exact one always, a wildcard where nothing led them anywhere before. For all
/// other domains nothing changes.
pub proof fn law_adding_a_pattern(
    m: MatcherView,
    pattern: Seq<char>,
    addr: Seq<char>,
    domain: Seq<char>,
)
    ensures
        ({
            let before = m.lookup(domain);
            let after = m.add(pattern, addr).lookup(domain);
            let bears = covers(pattern, requested_host(domain));
            &&& !bears ==> after == before
            &&& bears && !is_wildcard(pattern) ==> after == Some(addr)
            &&& bears && is_wildcard(pattern) ==> after == (if before is Some {
                before
            } else {
                Some(addr)
            })
        }),
{
    let host = requested_host(domain);
    if !covers(pattern, host) {
        lemma_add_elsewhere(m, pattern, addr, host);
    } else if is_wildcard(pattern) {
        law_wildcard_covers_subdomains(m, pattern, addr, domain);
    }
}

/// A pattern that is taken out leaves all domains that it does not bear on as they
/// were, and is itself no longer known.
pub proof fn law_forgetting_a_pattern(m: MatcherView, pattern: Seq<char>, domain: Seq<char>)
    ensures
        !covers(pattern, requested_host(domain)) ==> m.forget(pattern).lookup(domain) == m.lookup(
            domain,
        ),
        !knows(m.forget(pattern), pattern),
{
    if !covers(pattern, requested_host(domain)) {
        lemma_forget_elsewhere(m, pattern, requested_host(domain));
    }
    lemma_forget_unlearns(m, pattern, pattern);
}

/// A request without a host is a bad one, and one for an unknown domain is answered
/// as not found.
pub proof fn law_route_statuses(e: RouteError)
    ensures
        route_status(RouteError::MissingHost) == status_number(StatusCode::BadRequest),
        route_status(RouteError::UnknownDomain) == status_number(StatusCode::NotFound),
        route_status(e) / 100 == 4,
{
}

/// A matcher that was cleared leads no domain anywhere, whatever it knew before.
pub proof fn law_cleared_matches_nothing(m: MatcherView, pattern: Seq<char>, domain: Seq<char>)
    ensures
        m.cleared().lookup(domain) is None,
        !knows(m.cleared(), pattern),
{
}

/// An update takes the place of all that was before: after it the proxy is the
/// same, whatever it was. The service of each name is the last one of that name,
/// its domains lead somewhere, no domain leads but to one of the services, and no
/// other name has a service.
pub proof fn law_update_replaces_everything(
    st: ProxyView,
    other: ProxyView,
    services: Seq<ProxyServiceView>,
    i: int,
    pattern: Seq<char>,
    domain: Seq<char>,
)
    ensures
        st.updated(services) == other.updated(services),
        services.len() == 0 ==> st.updated(services).matcher.lookup(domain) is None,
        0 <= i < services.len() && (forall|j: int|
            i < j < services.len() ==> (#[trigger] services[j]).name != services[i].name) ==> {
            &&& st.updated(services).services.contains_key(services[i].name)
            &&& st.updated(services).services[services[i].name] == services[i]
        },
        0 <= i < services.len() && services[i].domains.contains(pattern) && covers(
            pattern,
            requested_host(domain),
        ) ==> st.updated(services).matcher.lookup(domain) is Some,
        st.updated(services).matcher.lookup(domain) matches Some(a) ==> exists|k: int|
            0 <= k < services.len() && (#[trigger] services[k]).bind_addr == a,
        forall|n: Seq<char>| #[trigger]
            st.updated(services).services.contains_key(n) ==> exists|k: int|
                0 <= k < services.len() && (#[trigger] services[k]).name == n,
{
    lemma_installed_names(services);
    lemma_installed_addresses(services, requested_host(domain));
    if 0 <= i < services.len() && (forall|j: int|
        i < j < services.len() ==> (#[trigger] services[j]).name != services[i].name) {
        law_update_lists_the_services(services, i);
    }
    if 0 <= i < services.len() && services[i].domains.contains(pattern) && covers(
        pattern,
        requested_host(domain),
    ) {
        lemma_installed_domains_lead(services, i, pattern, requested_host(domain));
    }
}

proof fn lemma_installed_domains_lead(
    services: Seq<ProxyServiceView>,
    i: int,
    pattern: Seq<char>,
    host: Seq<char>,
)
    requires
        0 <= i < services.len(),
        services[i].domains.contains(pattern),
        covers(pattern, host),
    ensures
        ProxyView::empty().install_all(services).matcher.lookup_host(host) is Some,
    decreases services.len(),
{
    let rest = services.drop_last();
    let last = services.last();
    let mid = ProxyView::empty().install_all(rest).matcher;
    if i == services.len() - 1 {
        lemma_added_patterns_route(mid, last.domains, last.bind_addr, pattern, host);
    } else {
        assert(rest[i] == services[i]);
        lemma_installed_domains_lead(rest, i, pattern, host);
        lemma_add_all_leads(mid, last.domains, last.bind_addr, host);
    }
}

proof fn lemma_add_all_leads(
    m: MatcherView,
    patterns: Seq<Seq<char>>,
    addr: Seq<char>,
    host: Seq<char>,
)
    ensures
        m.add_all(patterns, addr).lookup_host(host) == m.lookup_host(host) || m.add_all(
            patterns,
            addr,
        ).lookup_host(host) == Some(addr),
    decreases patterns.len(),
{
    if patterns.len() > 0 {
        let mid = m.add_all(patterns.drop_last(), addr);
        lemma_add_all_leads(m, patterns.drop_last(), addr, host);
        lemma_first_wildcard_push(mid.wildcards, (wildcard_suffix(patterns.last()), addr), host);
    }
}

proof fn lemma_installed_addresses(services: Seq<ProxyServiceView>, host: Seq<char>)
    ensures
        ProxyView::empty().install_all(services).matcher.lookup_host(host) matches Some(a)
            ==> exists|k: int| 0 <= k < services.len() && (#[trigger] services[k]).bind_addr == a,
    decreases services.len(),
{
    if services.len() > 0 {
        let rest = services.drop_last();
        let last = services.last();
        let mid = ProxyView::empty().install_all(rest).matcher;
        lemma_installed_addresses(rest, host);
        lemma_add_all_leads(mid, last.domains, last.bind_addr, host);
        assert(services[services.len() - 1] == last);
        if mid.lookup_host(host) is Some {
            let a = mid.lookup_host(host)->Some_0;
            let k = choose|k: int| 0 <= k < rest.len() && (#[trigger] rest[k]).bind_addr == a;
            assert(services[k] == rest[k]);
        }
    }
}

/// The host in the log line of a request is the one by which it is routed, where it
/// is one word, and a dash where it is refused for the want of one.
pub proof fn law_logged_host_is_the_routed_one(
    m: MatcherView,
    fields: Map<Seq<char>, Seq<Seq<u8>>>,
    method: Seq<char>,
    path: Seq<char>,
    status: Option<u16>,
    addr: Seq<char>,
)
    requires
        one_word(method),
        one_word(path),
        field_text(fields, "host"@) matches Some(h) ==> one_word(h),
    ensures
        ({
            let w = words(request_log(method, fields, path, status));
            &&& w.len() == 7
            &&& w[2] == method
            &&& w[4] == path
            &&& route(m, fields) == Ok::<Seq<char>, RouteError>(addr) ==> m.lookup(w[3]) == Some(
                addr,
            )
            &&& route(m, fields) == Err::<Seq<char>, RouteError>(RouteError::UnknownDomain)
                ==> m.lookup(w[3]) is None
            &&& route(m, fields) == Err::<Seq<char>, RouteError>(RouteError::MissingHost) ==> w[3]
                == seq!['-']
        }),
{
    law_log_line_says_what_was_answered(method, field_text(fields, "host"@), path, status);
}

/// What a pattern bears on, in any script: an exact one on the host that is its
/// lower case, and a wildcard on the hosts that end with the lower case of a dot
/// and its root. A requested domain names its lower case up to the first colon.
pub proof fn law_lower_case_is_matched(
    pattern: Seq<char>,
    root: Seq<char>,
    host: Seq<char>,
    domain: Seq<char>,
)
    ensures
        !is_wildcard(pattern) ==> (covers(pattern, host) <==> lower(pattern) == host),
        covers(seq!['*', '.'] + root, host) <==> exists|label: Seq<char>|
            host == #[trigger] (label + lower(seq!['.'] + root)),
        !domain.contains(':') ==> requested_host(domain) == lower(domain),
        domain.contains(':') ==> requested_host(domain) == before_first(lower(domain), ':'),
{
    let wild = seq!['*', '.'] + root;
    assert(wild.skip(1) =~= seq!['.'] + root);
    let suffix = lower(seq!['.'] + root);
    if suffix.is_suffix_of(host) {
        let label = host.take(host.len() - suffix.len());
        assert(host =~= label + host.subrange(host.len() - suffix.len(), host.len() as int));
    }
    if exists|label: Seq<char>| host == #[trigger] (label + suffix) {
        let label = choose|label: Seq<char>| host == #[trigger] (label + suffix);
        assert(host.subrange(host.len() - suffix.len(), host.len() as int) =~= suffix);
    }
}

/// Whatever the parts of a log line hold, the method stands at its start, the path
/// and the status at its end, and the host between them.
pub proof fn law_log_line_parts(
    method: Seq<char>,
    host: Seq<char>,
    path: Seq<char>,
    status: u16,
)
    ensures
        ({
            let line = log_line(method, Some(host), path, Some(status));
            let start = "HTTP proxy: "@ + method + " "@;
            let end = " "@ + path + " -> "@ + decimal(status as nat);
            &&& start.is_prefix_of(line)
            &&& end.is_suffix_of(line)
            &&& line.len() == start.len() + host.len() + end.len()
            &&& line.subrange(start.len() as int, line.len() - end.len()) == host
            &&& log_line(method, None, path, Some(status)) == log_line(
                method,
                Some(seq!['-']),
                path,
                Some(status),
            )
            &&& log_line(method, Some(host), path, None) == log_line(
                method,
                Some(host),
                path,
                Some(0),
            )
        }),
{
    lemma_log_words();
    let line = log_line(method, Some(host), path, Some(status));
    let start = "HTTP proxy: "@ + method + " "@;
    let end = " "@ + path + " -> "@ + decimal(status as nat);
    assert(line =~= start + host + end);
    assert(line.subrange(0, start.len() as int) =~= start);
    assert(line.subrange(line.len() - end.len(), line.len() as int) =~= end);
    assert(line.subrange(start.len() as int, line.len() - end.len()) =~= host);
}

}
