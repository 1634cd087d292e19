//! Relaying HTTP requests to the supervised programs by path prefix.
use vstd::prelude::*;
use vstd::string::*;

use crate::config::HttpRelay;
pub mod handler;

use crate::text::{lemma_trimmed_ends, append_decimal, strip_prefix, trim_start_matches_char, decimal, lemma_last_index_of_bounds, rsplit_once, rsplit_once_char, str_eq, trim_char, trim_matches_char, trim_start_char};

verus! {

/// Where a request is relayed to: the scheme, the authority and the path with
/// its query, each accepted by the HTTP library.
#[derive(Debug, Clone)]
pub struct UpstreamTarget {
    pub https: bool,
    pub authority: String,
    pub path_and_query: String,
}

/// A character that may stand in the path of a URI as it is.
pub open spec fn is_path_char(c: char) -> bool {
    c == '!' || ('$' <= c && c <= ';') || c == '=' || ('@' <= c && c <= '_') || ('a' <= c && c <= 'z')
        || c == '|' || c == '~' || c == '"' || c == '{' || c == '}'
}

/// A character that may stand in the query of a URI as it is.
pub open spec fn is_query_char(c: char) -> bool {
    c == '!' || ('$' <= c && c <= ';') || c == '=' || ('?' <= c && c <= '~')
}

/// Whether the rest of a query is accepted: its characters up to a `#`, if
/// any, may stand in a query; what follows a `#` is a fragment and is dropped.
pub open spec fn query_accepted(s: Seq<char>) -> bool
    decreases s.len(),
{
    if s.len() == 0 {
        true
    } else if s[0] == '#' {
        true
    } else {
        is_query_char(s[0]) && query_accepted(s.drop_first())
    }
}

/// Whether the path of `s`, from character `i` on, is accepted: it runs to
/// the first `?` or `#` and holds only path characters. After a `?` the query
/// is checked, unless the library's 16-bit record of the `?`'s position
/// equals its "no query" marker (a position of 65535 modulo 65536), in which
/// case the query goes unchecked. What follows a `#` is a fragment and is
/// dropped. Every character before the `?` is ASCII, so its position in
/// characters is its position in bytes.
pub open spec fn path_accepted_from(s: Seq<char>, i: int) -> bool
    decreases s.len() - i,
{
    if i < 0 || i >= s.len() {
        true
    } else if s[i] == '?' {
        i % 65536 == 65535 || query_accepted(s.skip(i + 1))
    } else if s[i] == '#' {
        true
    } else {
        is_path_char(s[i]) && path_accepted_from(s, i + 1)
    }
}

/// Whether the HTTP library accepts `s` as the path and query of a URI.
pub open spec fn path_and_query_accepted(s: Seq<char>) -> bool {
    path_accepted_from(s, 0)
}

/// Whether the HTTP library accepts `s` as the authority of a URI.
pub uninterp spec fn authority_accepted(s: Seq<char>) -> bool;

/// Asks `http::uri::PathAndQuery::try_from` (re-exported by `awc`) whether `s`
/// is a valid path and query. The contract states the library's character
/// rules (`PathAndQuery::from_shared`), read over characters (a character
/// outside ASCII is made of bytes that no rule admits), with the query left
/// unchecked where the library's 16-bit record of the `?`'s byte position
/// collides with its "no query" marker.
#[verifier::external_body]
fn path_and_query_valid(s: &str) -> (b: bool)
    ensures
        b == path_and_query_accepted(s@),
{
    awc::http::uri::PathAndQuery::try_from(s).is_ok()
}

/// Asks `http::uri::Authority::try_from` (re-exported by `awc`) whether `s` is
/// a valid authority. The answer is named: the library's parser decides it.
#[verifier::external_body]
fn authority_valid(s: &str) -> (b: bool)
    ensures
        b == authority_accepted(s@),
{
    awc::http::uri::Authority::try_from(s).is_ok()
}

/// The authority of a program that listens on the loopback interface.
pub open spec fn loopback_authority(port: u16) -> Seq<char> {
    "127.0.0.1:"@ + decimal(port as nat)
}

/// The authority of a program that listens on `port` of the loopback interface.
pub fn loopback(port: u16) -> (s: String)
    ensures
        s@ == loopback_authority(port),
{
    let mut s = String::from_str("127.0.0.1:");
    append_decimal(&mut s, port as u64);
    s
}

/// The target built from a scheme, a port on the loopback interface and a
/// path with query, where the HTTP library accepts each part.
pub fn loopback_target(https: bool, port: u16, path_and_query: String) -> (r: Option<UpstreamTarget>)
    ensures
        r is Some <==> authority_accepted(loopback_authority(port)) && path_and_query_accepted(path_and_query@),
        r matches Some(t) ==> t.https == https && t.authority@ == loopback_authority(port)
            && t.path_and_query@ == path_and_query@,
{
    let authority = loopback(port);
    if !authority_valid(authority.as_str()) {
        return None;
    }
    if !path_and_query_valid(path_and_query.as_str()) {
        return None;
    }
    Some(UpstreamTarget { https, authority, path_and_query })
}

/// A proxy upstream: where a path prefix is relayed.
#[derive(Debug, Clone)]
pub struct ProxyEntry {
    pub port: u16,
    pub secure: bool,
    /// The path that replaces the matched prefix, with its slashes trimmed
    /// at both ends.
    pub prefix_path: String,
}

/// A proxy upstream as plain values: port, whether it speaks HTTPS, prefix path.
pub type EntryView = (u16, bool, Seq<char>);

impl ProxyEntry {
    pub open spec fn view(self) -> EntryView {
        (self.port, self.secure, self.prefix_path@)
    }

    /// The upstream of a relay: its port and scheme, and its path with the
    /// slashes at both ends trimmed, unless the relay strips it.
    pub fn from_relay(relay: &HttpRelay) -> (e: ProxyEntry)
        ensures
            e.view() == relay_entry(*relay),
    {
        ProxyEntry {
            port: relay.port,
            secure: relay.https,
            prefix_path: if relay.strip_path {
                String::new()
            } else {
                trim_matches_char(relay.path.as_str(), '/').to_owned()
            },
        }
    }
}

/// The upstream of a relay, as plain values: its prefix path has its
/// slashes trimmed at both ends.
pub open spec fn relay_entry(relay: HttpRelay) -> EntryView {
    (relay.port, relay.https, if relay.strip_path { Seq::<char>::empty() } else { trim_char(relay.path@, '/') })
}

/// The prefix path of an upstream neither starts nor ends with a slash.
pub proof fn lemma_prefix_path_trimmed(relay: HttpRelay)
    ensures
        relay_entry(relay).2.len() > 0 ==> relay_entry(relay).2[0] != '/' && relay_entry(relay).2.last() != '/',
{
    lemma_trimmed_ends(relay.path@, '/');
}

/// The key under which a relay is found: its path without slashes at either end.
pub open spec fn relay_key(relay: HttpRelay) -> Seq<char> {
    trim_char(relay.path@, '/')
}

/// The routing table built from keyed entries in order: a later entry under
/// the same key replaces an earlier one.
pub open spec fn table_of(s: Seq<(Seq<char>, EntryView)>) -> Map<Seq<char>, EntryView>
    decreases s.len(),
{
    if s.len() == 0 {
        Map::empty()
    } else {
        table_of(s.drop_last()).insert(s.last().0, s.last().1)
    }
}

/// The keyed entries of relays, in order.
pub open spec fn relay_pairs(relays: Seq<HttpRelay>) -> Seq<(Seq<char>, EntryView)> {
    relays.map_values(|r: HttpRelay| (relay_key(r), relay_entry(r)))
}

proof fn lemma_table_of_tail(s: Seq<(Seq<char>, EntryView)>, key: Seq<char>, j: int)
    requires
        0 <= j <= s.len(),
        forall|k: int| j <= k < s.len() ==> s[k].0 != key,
    ensures
        table_of(s).contains_key(key) == table_of(s.take(j)).contains_key(key),
        table_of(s).contains_key(key) ==> table_of(s)[key] == table_of(s.take(j))[key],
    decreases s.len() - j,
{
    if j < s.len() {
        lemma_table_of_tail(s.drop_last(), key, j);
        assert(s.drop_last().take(j) =~= s.take(j));
    } else {
        assert(s.take(j) =~= s);
    }
}

/// Ancestors of a path, itself first, then each parent obtained by cutting at
/// the last slash, down to the part before the first slash.
pub open spec fn ancestors_of(path: Seq<char>) -> Seq<Seq<char>>
    decreases path.len(),
{
    match rsplit_once_char(path, '/') {
        Some((parent, _)) => {
            proof { lemma_last_index_of_bounds(path, '/'); }
            seq![path] + ancestors_of(parent)
        },
        None => seq![path],
    }
}

/// The first of `candidates` under which the table holds an entry.
pub open spec fn first_routed(table: Map<Seq<char>, EntryView>, candidates: Seq<Seq<char>>) -> Option<Seq<char>>
    decreases candidates.len(),
{
    if candidates.len() == 0 {
        None
    } else if table.contains_key(candidates[0]) {
        Some(candidates[0])
    } else {
        first_routed(table, candidates.drop_first())
    }
}

/// The path an upstream's requests start with: its prefix path with a slash
/// before it, or nothing where the prefix path is empty.
pub open spec fn upstream_base(prefix: Seq<char>) -> Seq<char> {
    if prefix.len() == 0 {
        Seq::empty()
    } else {
        seq!['/'] + prefix
    }
}

/// Where a request for `path` with `query` is relayed: the scheme, port and
/// path with query of the upstream. The deepest registered ancestor of the
/// path (leading slashes trimmed) is matched; the matched prefix, with one
/// slash before it, is cut from the path and the upstream's base path and a
/// slash are put in its place.
pub open spec fn route_of(table: Map<Seq<char>, EntryView>, path: Seq<char>, query: Option<Seq<char>>) -> Option<EntryView> {
    match first_routed(table, ancestors_of(trim_start_char(path, '/'))) {
        None => None,
        Some(matched) => {
            let cut = seq!['/'] + matched;
            if cut.len() <= path.len() && path.take(cut.len() as int) == cut {
                let entry = table[matched];
                let new_path = upstream_base(entry.2) + seq!['/'] + path.skip(cut.len() as int);
                Some((entry.0, entry.1, match query {
                    Some(q) => new_path + seq!['?'] + q,
                    None => new_path,
                }))
            } else {
                None
            }
        },
    }
}

/// A query travels with the request: a request with a query is routed
/// exactly where the same request without it is, to the same port and
/// scheme, and its upstream path and query is the routed path followed by
/// `?` and the query, whatever the upstream's prefix path.
pub proof fn lemma_query_follows_routed_path(table: Map<Seq<char>, EntryView>, path: Seq<char>, q: Seq<char>)
    ensures
        route_of(table, path, Some(q)) is Some <==> route_of(table, path, None) is Some,
        route_of(table, path, Some(q)) matches Some(x) ==> (route_of(table, path, None) matches Some(y)
            && x.0 == y.0 && x.1 == y.1 && x.2 == y.2 + seq!['?'] + q),
{
}

/// Every ancestor of a path is a prefix of it, the path itself comes first,
/// each ancestor is shorter than the one before, and the last holds no slash.
pub proof fn lemma_ancestors_are_shrinking_prefixes(path: Seq<char>)
    ensures
        ancestors_of(path).len() >= 1,
        ancestors_of(path)[0] == path,
        forall|i: int| 0 <= i < ancestors_of(path).len() ==> {
            let a = #[trigger] ancestors_of(path)[i];
            a.len() <= path.len() && path.take(a.len() as int) == a
        },
        forall|i: int| 0 < i < ancestors_of(path).len() ==>
            #[trigger] ancestors_of(path)[i].len() < ancestors_of(path)[i - 1].len(),
        rsplit_once_char(ancestors_of(path).last(), '/') is None,
    decreases path.len(),
{
    lemma_last_index_of_bounds(path, '/');
    match rsplit_once_char(path, '/') {
        Some((parent, _)) => {
            lemma_ancestors_are_shrinking_prefixes(parent);
            let rest = ancestors_of(parent);
            let all = ancestors_of(path);
            assert(all == seq![path] + rest);
            assert forall|i: int| 0 <= i < all.len() implies {
                let a = #[trigger] all[i];
                a.len() <= path.len() && path.take(a.len() as int) == a
            } by {
                if i > 0 {
                    let a = rest[i - 1];
                    assert(parent.take(a.len() as int) == a);
                    assert(path.take(a.len() as int) =~= parent.take(a.len() as int));
                } else {
                    assert(path.take(path.len() as int) =~= path);
                }
            }
            assert forall|i: int| 0 < i < all.len() implies #[trigger] all[i].len() < all[i - 1].len() by {
                if i > 1 {
                    assert(all[i] == rest[i - 1]);
                    assert(all[i - 1] == rest[i - 2]);
                }
            }
        },
        None => {
            assert(path.take(path.len() as int) =~= path);
        },
    }
}

proof fn lemma_first_routed(table: Map<Seq<char>, EntryView>, candidates: Seq<Seq<char>>)
    ensures
        first_routed(table, candidates) matches Some(m) ==> exists|i: int| {
            &&& 0 <= i < candidates.len()
            &&& #[trigger] candidates[i] == m
            &&& table.contains_key(m)
            &&& forall|j: int| 0 <= j < i ==> !table.contains_key(#[trigger] candidates[j])
        },
        first_routed(table, candidates) is None ==> forall|j: int| 0 <= j < candidates.len()
            ==> !table.contains_key(#[trigger] candidates[j]),
    decreases candidates.len(),
{
    if candidates.len() > 0 && !table.contains_key(candidates[0]) {
        let rest = candidates.drop_first();
        lemma_first_routed(table, rest);
        match first_routed(table, rest) {
            Some(m) => {
                let i = choose|i: int| {
                    &&& 0 <= i < rest.len()
                    &&& #[trigger] rest[i] == m
                    &&& table.contains_key(m)
                    &&& forall|j: int| 0 <= j < i ==> !table.contains_key(#[trigger] rest[j])
                };
                assert(candidates[i + 1] == m);
                assert forall|j: int| 0 <= j < i + 1 implies !table.contains_key(#[trigger] candidates[j]) by {
                    if j > 0 {
                        assert(candidates[j] == rest[j - 1]);
                    }
                }
            },
            None => {
                assert forall|j: int| 0 <= j < candidates.len() implies !table.contains_key(#[trigger] candidates[j]) by {
                    if j > 0 {
                        assert(candidates[j] == rest[j - 1]);
                    }
                }
            },
        }
    } else if candidates.len() > 0 {
        assert(candidates[0] == candidates[0]);
    }
}

/// The route of a request goes to the deepest ancestor of its path (leading
/// slashes trimmed) that the table holds: no deeper ancestor is registered.
/// Where no ancestor is registered, the request has no route.
pub proof fn lemma_route_picks_deepest_prefix(table: Map<Seq<char>, EntryView>, path: Seq<char>, query: Option<Seq<char>>)
    ensures
        ({
            let candidates = ancestors_of(trim_start_char(path, '/'));
            &&& first_routed(table, candidates) matches Some(m) ==> exists|i: int| {
                &&& 0 <= i < candidates.len()
                &&& #[trigger] candidates[i] == m
                &&& table.contains_key(m)
                &&& forall|j: int| 0 <= j < i ==> !table.contains_key(#[trigger] candidates[j])
            }
            &&& first_routed(table, candidates) is None ==> route_of(table, path, query) is None
                && forall|j: int| 0 <= j < candidates.len() ==> !table.contains_key(#[trigger] candidates[j])
        }),
{
    lemma_first_routed(table, ancestors_of(trim_start_char(path, '/')));
}

/// Ancestors iterator like one in Path, but without extra checks.
///
/// `path` must have prefix and suffix slash trimmed.
pub fn ancestors(path: &str) -> (r: Vec<&str>)
    ensures
        r@.map_values(|s: &str| s@) == ancestors_of(path@),
{
    let mut r: Vec<&str> = Vec::new();
    let mut cur = path;
    loop
        invariant
            r@.map_values(|s: &str| s@) + ancestors_of(cur@) == ancestors_of(path@),
        decreases cur@.len(),
    {
        let ghost before = r@;
        r.push(cur);
        assert(r@.map_values(|s: &str| s@) =~= before.map_values(|s: &str| s@).push(cur@));
        match rsplit_once(cur, '/') {
            Some((parent, _)) => {
                proof { lemma_last_index_of_bounds(cur@, '/'); }
                assert(ancestors_of(cur@) == seq![cur@] + ancestors_of(parent@));
                assert(r@.map_values(|s: &str| s@) + ancestors_of(parent@) =~= before.map_values(|s: &str| s@) + ancestors_of(cur@));
                cur = parent;
            },
            None => {
                assert(r@.map_values(|s: &str| s@) =~= before.map_values(|s: &str| s@) + ancestors_of(cur@));
                return r;
            },
        }
    }
}

/// The routing table of the proxy, and the address it serves on.
pub struct ProxyConfig {
    /// Keyed upstreams in the order of the relays; a later key wins.
    entries: Vec<(String, ProxyEntry)>,
    interface: String,
}

impl ProxyConfig {
    /// The routing table: path prefix (slashes trimmed) to upstream.
    pub closed spec fn table(self) -> Map<Seq<char>, EntryView> {
        table_of(self.entries@.map_values(|p: (String, ProxyEntry)| (p.0@, p.1.view())))
    }

    /// The address the proxy serves on.
    pub closed spec fn interface_view(self) -> Seq<char> {
        self.interface@
    }

    /// The routing table of the given relays: each relay is found under its
    /// path with slashes trimmed; where two relays share a key, the later wins.
    pub fn new(relays: &Vec<HttpRelay>, interface: String) -> (c: Self)
        ensures
            c.table() == table_of(relay_pairs(relays@)),
            c.interface_view() == interface@,
    {
        let mut entries: Vec<(String, ProxyEntry)> = Vec::new();
        let n = relays.len();
        let mut i: usize = 0;
        while i < n
            invariant
                i <= n,
                n == relays@.len(),
                entries@.map_values(|p: (String, ProxyEntry)| (p.0@, p.1.view())) == relay_pairs(relays@).take(i as int),
            decreases n - i,
        {
            let relay = &relays[i];
            let key = trim_matches_char(relay.path.as_str(), '/').to_owned();
            let entry = ProxyEntry::from_relay(relay);
            assert(key@ == relay_key(relays@[i as int]));
            assert(entry.view() == relay_entry(relays@[i as int]));
            let ghost before = entries@;
            assert(before.map_values(|p: (String, ProxyEntry)| (p.0@, p.1.view())).len() == before.len());
            assert(before.len() == i);
            entries.push((key, entry));
            assert(entries@[i as int].0@ == key@);
            assert(entries@.map_values(|p: (String, ProxyEntry)| (p.0@, p.1.view()))
                =~= relay_pairs(relays@).take(i + 1));
            i = i + 1;
        }
        assert(relay_pairs(relays@).take(n as int) =~= relay_pairs(relays@));
        ProxyConfig { entries, interface }
    }

    /// The address the proxy serves on.
    pub fn interface(&self) -> (s: &String)
        ensures
            s@ == self.interface_view(),
    {
        &self.interface
    }

    /// The upstream registered under `key`.
    pub fn lookup(&self, key: &str) -> (r: Option<&ProxyEntry>)
        ensures
            r is Some <==> self.table().contains_key(key@),
            r matches Some(e) ==> self.table()[key@] == e.view(),
    {
        let ghost s = self.entries@.map_values(|p: (String, ProxyEntry)| (p.0@, p.1.view()));
        let mut j = self.entries.len();
        while j > 0
            invariant
                j <= self.entries@.len(),
                s == self.entries@.map_values(|p: (String, ProxyEntry)| (p.0@, p.1.view())),
                forall|k: int| j <= k < s.len() ==> s[k].0 != key@,
            decreases j,
        {
            if str_eq(self.entries[j - 1].0.as_str(), key) {
                proof {
                    lemma_table_of_tail(s, key@, j as int);
                    assert(s.take(j as int).drop_last() =~= s.take(j - 1));
                }
                return Some(&self.entries[j - 1].1);
            }
            j = j - 1;
        }
        proof { lemma_table_of_tail(s, key@, 0); }
        None
    }

    /// Where a request for `path` with `query` is relayed, as plain values:
    /// port, scheme and path with query of the upstream.
    pub fn resolve(&self, path: &str, query: Option<&str>) -> (r: Option<(u16, bool, String)>)
        ensures
            r is Some <==> route_of(self.table(), path@, query_view(query)) is Some,
            r matches Some(x) ==> route_of(self.table(), path@, query_view(query)) == Some((x.0, x.1, x.2@)),
            r matches Some(x) ==> (query matches Some(q) ==> (route_of(self.table(), path@, None) matches Some(y)
                && x.0 == y.0 && x.1 == y.1 && x.2@ == y.2 + seq!['?'] + q@)),
    {
        proof {
            if let Some(q) = query {
                lemma_query_follows_routed_path(self.table(), path@, q@);
            }
        }
        let trimmed = trim_start_matches_char(path, '/');
        let candidates = ancestors(trimmed);
        let ghost cs = candidates@.map_values(|s: &str| s@);
        let n = candidates.len();
        let mut i: usize = 0;
        let mut found: Option<&ProxyEntry> = None;
        assert(cs.skip(0) =~= cs);
        while i < n
            invariant_except_break
                found is None,
                i <= n,
                n == cs.len(),
                cs == candidates@.map_values(|s: &str| s@),
                first_routed(self.table(), cs) == first_routed(self.table(), cs.skip(i as int)),
            ensures
                i <= n,
                found matches Some(e) ==> i < n && first_routed(self.table(), cs) == Some(cs[i as int])
                    && self.table()[cs[i as int]] == e.view(),
                found is None ==> first_routed(self.table(), cs) is None,
            decreases n - i,
        {
            assert(cs.skip(i as int)[0] == cs[i as int]);
            assert(cs.skip(i as int).len() > 0);
            match self.lookup(candidates[i]) {
                Some(e) => {
                    found = Some(e);
                    break;
                },
                None => {
                    assert(cs.skip(i as int).drop_first() =~= cs.skip(i + 1));
                    i = i + 1;
                    if i == n {
                        assert(cs.skip(i as int) =~= Seq::<Seq<char>>::empty());
                    }
                },
            }
        }
        match found {
            None => None,
            Some(entry) => {
                let matched = candidates[i];
                let mut cut = String::from_str("/");
                cut.append(matched);
                proof { reveal_strlit("/"); }
                assert(cut@ =~= seq!['/'] + matched@);
                match strip_prefix(path, cut.as_str()) {
                    None => None,
                    Some(rest) => {
                        let mut new_path = String::new();
                        if entry.prefix_path.as_str().unicode_len() > 0 {
                            new_path.append("/");
                            new_path.append(entry.prefix_path.as_str());
                        }
                        new_path.append("/");
                        new_path.append(rest);
                        match query {
                            Some(q) => {
                                proof { reveal_strlit("?"); }
                                new_path.append("?");
                                new_path.append(q);
                            },
                            None => {},
                        }
                        assert(new_path@ =~= route_of(self.table(), path@, query_view(query)).unwrap().2);
                        Some((entry.port, entry.secure, new_path))
                    },
                }
            },
        }
    }

    /// The upstream URI parts for a request for `path` with `query`: the route
    /// of the request, where the HTTP library accepts the loopback authority of
    /// its port and its path with query.
    pub fn get(&self, path: &str, query: Option<&str>) -> (r: Option<UpstreamTarget>)
        ensures
            r is Some <==> (route_of(self.table(), path@, query_view(query)) matches Some(x)
                && authority_accepted(loopback_authority(x.0)) && path_and_query_accepted(x.2)),
            r matches Some(t) ==> (route_of(self.table(), path@, query_view(query)) matches Some(x)
                && t.https == x.1 && t.authority@ == loopback_authority(x.0) && t.path_and_query@ == x.2),
            r matches Some(t) ==> (query matches Some(q) ==> (route_of(self.table(), path@, None) matches Some(y)
                && t.authority@ == loopback_authority(y.0) && t.https == y.1
                && t.path_and_query@ == y.2 + seq!['?'] + q@)),
    {
        match self.resolve(path, query) {
            Some((port, secure, path_and_query)) => loopback_target(secure, port, path_and_query),
            None => None,
        }
    }
}

/// The text of an optional query.
pub open spec fn query_view(query: Option<&str>) -> Option<Seq<char>> {
    match query {
        Some(q) => Some(q@),
        None => None,
    }
}

} // verus!
