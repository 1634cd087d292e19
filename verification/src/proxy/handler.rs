//! The headers that the proxy adds to a relayed request, and the headers of
//! the upstream's answer that it passes on.
use vstd::prelude::*;
use vstd::string::*;

verus! {

/// The name under which a client without a known address is recorded.
pub open spec fn peer_label_of(peer: Option<Seq<char>>) -> Seq<char> {
    match peer {
        Some(p) => p,
        None => "unknown"@,
    }
}

/// The client's address, or `unknown`.
pub fn peer_label(peer: Option<&str>) -> (s: String)
    ensures
        s@ == peer_label_of(match peer { Some(p) => Some(p@), None => None }),
{
    match peer {
        Some(p) => p.to_owned(),
        None => String::from_str("unknown"),
    }
}

/// The `Via` header of a relayed request: the previous one, if any, then the
/// protocol version and this proxy's name.
pub open spec fn via_of(previous: Option<Seq<char>>, version: Seq<char>) -> Seq<char> {
    match previous {
        Some(v) => v + ", "@ + version + " blahaj"@,
        None => version + " blahaj"@,
    }
}

/// The `Via` header of a relayed request.
pub fn via_value(previous: Option<&str>, version: &str) -> (s: String)
    ensures
        s@ == via_of(match previous { Some(p) => Some(p@), None => None }, version@),
{
    let mut s = match previous {
        Some(v) => {
            let mut s = v.to_owned();
            s.append(", ");
            s
        },
        None => String::new(),
    };
    s.append(version);
    s.append(" blahaj");
    proof {
        if previous is None {
            assert(s@ =~= version@ + " blahaj"@);
        }
    }
    s
}

/// The `X-Forwarded-For` header of a relayed request: the previous list, if
/// any, with the client's address appended.
pub open spec fn x_forwarded_for_of(previous: Option<Seq<char>>, peer: Seq<char>) -> Seq<char> {
    match previous {
        Some(v) => v + ", "@ + peer,
        None => peer,
    }
}

/// The `X-Forwarded-For` header of a relayed request.
pub fn x_forwarded_for_value(previous: Option<&str>, peer: &str) -> (s: String)
    ensures
        s@ == x_forwarded_for_of(match previous { Some(p) => Some(p@), None => None }, peer@),
{
    match previous {
        Some(v) => {
            let mut s = v.to_owned();
            s.append(", ");
            s.append(peer);
            s
        },
        None => peer.to_owned(),
    }
}

/// A character that may stand unquoted in a parameter of the `Forwarded`
/// header: a token character of HTTP.
pub open spec fn is_tchar(c: char) -> bool {
    ('a' <= c && c <= 'z') || ('A' <= c && c <= 'Z') || ('0' <= c && c <= '9')
        || c == '!' || c == '#' || c == '$' || c == '%' || c == '&' || c == '\'' || c == '*'
        || c == '+' || c == '-' || c == '.' || c == '^' || c == '_' || c == '`' || c == '|' || c == '~'
}

/// Whether a value is a non-empty token.
pub open spec fn is_token(v: Seq<char>) -> bool {
    v.len() > 0 && forall|i: int| 0 <= i < v.len() ==> is_tchar(#[trigger] v[i])
}

/// The text of a value inside quotes: quotes and backslashes escaped with a backslash.
pub open spec fn escaped(v: Seq<char>) -> Seq<char>
    decreases v.len(),
{
    if v.len() == 0 {
        Seq::empty()
    } else {
        let c = v.last();
        escaped(v.drop_last()) + if c == '"' || c == '\\' { seq!['\\', c] } else { seq![c] }
    }
}

/// A parameter value of the `Forwarded` header: a token as it is, anything
/// else as a quoted string.
pub open spec fn param_value_of(v: Seq<char>) -> Seq<char> {
    if is_token(v) {
        v
    } else {
        seq!['"'] + escaped(v) + seq!['"']
    }
}

/// A node of the `Forwarded` header: an IPv6 address (it holds a colon) in brackets.
pub open spec fn node_of(address: Seq<char>) -> Seq<char> {
    if address.contains(':') {
        seq!['['] + address + seq![']']
    } else {
        address
    }
}

/// One element of the `Forwarded` header: the client, the proxy's interface,
/// the host the client asked for, and the protocol it used.
pub open spec fn forwarded_element_of(peer: Seq<char>, by: Seq<char>, host: Seq<char>, proto: Seq<char>) -> Seq<char> {
    "for="@ + param_value_of(node_of(peer)) + ";by="@ + param_value_of(node_of(by))
        + ";host="@ + param_value_of(host) + ";proto="@ + param_value_of(proto)
}

/// The `Forwarded` header of a relayed request: the previous elements, if
/// any, then this proxy's element.
pub open spec fn forwarded_of(peer: Seq<char>, by: Seq<char>, previous: Seq<char>, host: Seq<char>, proto: Seq<char>) -> Seq<char> {
    if previous.len() == 0 {
        forwarded_element_of(peer, by, host, proto)
    } else {
        previous + ", "@ + forwarded_element_of(peer, by, host, proto)
    }
}

fn is_token_str(v: &str) -> (b: bool)
    ensures
        b == is_token(v@),
{
    let n = v.unicode_len();
    if n == 0 {
        return false;
    }
    let mut i: usize = 0;
    while i < n
        invariant
            i <= n,
            n == v@.len(),
            forall|k: int| 0 <= k < i ==> is_tchar(#[trigger] v@[k]),
        decreases n - i,
    {
        let c = v.get_char(i);
        let ok = ('a' <= c && c <= 'z') || ('A' <= c && c <= 'Z') || ('0' <= c && c <= '9')
            || c == '!' || c == '#' || c == '$' || c == '%' || c == '&' || c == '\'' || c == '*'
            || c == '+' || c == '-' || c == '.' || c == '^' || c == '_' || c == '`' || c == '|' || c == '~';
        if !ok {
            return false;
        }
        i = i + 1;
    }
    true
}

fn append_param_value(s: &mut String, v: &str)
    ensures
        final(s)@ == old(s)@ + param_value_of(v@),
{
    if is_token_str(v) {
        s.append(v);
        return;
    }
    proof {
        reveal_strlit("\"");
        reveal_strlit("\\\"");
        reveal_strlit("\\\\");
    }
    s.append("\"");
    let ghost start = s@;
    let n = v.unicode_len();
    let mut i: usize = 0;
    while i < n
        invariant
            i <= n,
            n == v@.len(),
            s@ == start + escaped(v@.take(i as int)),
        decreases n - i,
    {
        proof {
            reveal_strlit("\\\"");
            reveal_strlit("\\\\");
        }
        assert(v@.take(i + 1).drop_last() =~= v@.take(i as int));
        let c = v.get_char(i);
        if c == '"' {
            s.append("\\\"");
        } else if c == '\\' {
            s.append("\\\\");
        } else {
            s.append(v.substring_char(i, i + 1));
        }
        assert(s@ =~= start + escaped(v@.take(i + 1)));
        i = i + 1;
    }
    assert(v@.take(n as int) =~= v@);
    proof { reveal_strlit("\""); }
    s.append("\"");
    assert(final(s)@ =~= old(s)@ + param_value_of(v@));
}

fn contains_colon(v: &str) -> (b: bool)
    ensures
        b == v@.contains(':'),
{
    let n = v.unicode_len();
    let mut i: usize = 0;
    while i < n
        invariant
            i <= n,
            n == v@.len(),
            forall|k: int| 0 <= k < i ==> v@[k] != ':',
        decreases n - i,
    {
        if v.get_char(i) == ':' {
            assert(v@[i as int] == ':');
            return true;
        }
        i = i + 1;
    }
    false
}

fn node(address: &str) -> (s: String)
    ensures
        s@ == node_of(address@),
{
    if contains_colon(address) {
        proof {
            reveal_strlit("[");
            reveal_strlit("]");
        }
        let mut s = String::from_str("[");
        s.append(address);
        s.append("]");
        assert(s@ =~= node_of(address@));
        s
    } else {
        address.to_owned()
    }
}

/// The `Forwarded` header of a relayed request, built from the client's
/// address, the proxy's interface, the previous header, the host the client
/// asked for and its protocol.
pub fn forwarded_value(peer: &str, by: &str, previous: &str, host: &str, proto: &str) -> (s: String)
    ensures
        s@ == forwarded_of(peer@, by@, previous@, host@, proto@),
{
    let mut s = if previous.unicode_len() == 0 {
        String::new()
    } else {
        let mut s = previous.to_owned();
        s.append(", ");
        s
    };
    let ghost start = s@;
    s.append("for=");
    let peer_node = node(peer);
    append_param_value(&mut s, peer_node.as_str());
    s.append(";by=");
    let by_node = node(by);
    append_param_value(&mut s, by_node.as_str());
    s.append(";host=");
    append_param_value(&mut s, host);
    s.append(";proto=");
    append_param_value(&mut s, proto);
    assert(s@ =~= start + forwarded_element_of(peer@, by@, host@, proto@));
    proof {
        if previous@.len() == 0 {
            assert(start =~= Seq::<char>::empty());
        }
    }
    assert(s@ =~= forwarded_of(peer@, by@, previous@, host@, proto@));
    s
}

/// The code of a character in ASCII lower case.
pub open spec fn ascii_lower(c: char) -> u32 {
    if 'A' <= c && c <= 'Z' { ((c as u32) + 32) as u32 } else { c as u32 }
}

fn lower(c: char) -> (l: u32)
    ensures
        l == ascii_lower(c),
{
    if 'A' <= c && c <= 'Z' {
        (c as u32) + 32
    } else {
        c as u32
    }
}

/// Whether two names are equal, ignoring ASCII case, as header names compare.
pub open spec fn same_header_name(a: Seq<char>, b: Seq<char>) -> bool {
    a.len() == b.len() && forall|i: int| 0 <= i < a.len() ==> ascii_lower(#[trigger] a[i]) == ascii_lower(b[i])
}

/// A text with its ASCII capitals made small, character by character.
pub open spec fn lowered(s: Seq<char>) -> Seq<u32> {
    s.map_values(|c: char| ascii_lower(c))
}

/// Two header names are the same name exactly when they read alike once
/// ASCII capitals are made small: a name that differs from another in any
/// character other than by case, or in length, is another name.
pub proof fn lemma_same_header_name_is_equal_lowered(a: Seq<char>, b: Seq<char>)
    ensures
        same_header_name(a, b) <==> lowered(a) == lowered(b),
{
    if same_header_name(a, b) {
        assert(lowered(a) =~= lowered(b));
    }
    if lowered(a) == lowered(b) {
        assert(lowered(a).len() == a.len() && lowered(b).len() == b.len());
        assert forall|i: int| 0 <= i < a.len() implies ascii_lower(#[trigger] a[i]) == ascii_lower(b[i]) by {
            assert(lowered(a)[i] == lowered(b)[i]);
        }
    }
}

fn same_header_name_str(a: &str, b: &str) -> (r: bool)
    ensures
        r == same_header_name(a@, b@),
{
    let n = a.unicode_len();
    if n != b.unicode_len() {
        return false;
    }
    let mut i: usize = 0;
    while i < n
        invariant
            i <= n,
            n == a@.len(),
            n == b@.len(),
            forall|k: int| 0 <= k < i ==> ascii_lower(#[trigger] a@[k]) == ascii_lower(b@[k]),
        decreases n - i,
    {
        let x = a.get_char(i);
        let y = b.get_char(i);
        if lower(x) != lower(y) {
            return false;
        }
        i = i + 1;
    }
    true
}

/// Whether a header of the upstream's answer is passed on to the client:
/// every header but `Connection` and `Transfer-Encoding`.
pub fn keeps_response_header(name: &str) -> (keep: bool)
    ensures
        keep == !(same_header_name(name@, "connection"@) || same_header_name(name@, "transfer-encoding"@)),
        keep <==> lowered(name@) != lowered("connection"@) && lowered(name@) != lowered("transfer-encoding"@),
{
    proof {
        lemma_same_header_name_is_equal_lowered(name@, "connection"@);
        lemma_same_header_name_is_equal_lowered(name@, "transfer-encoding"@);
    }
    !(same_header_name_str(name, "connection") || same_header_name_str(name, "transfer-encoding"))
}

} // verus!
