//! The grammar of the `Host` header:
//! `[<key>.]<network>-v<version>.kupo-<qualifier><suffix>`.
use vstd::prelude::*;
use crate::text::chars_of;

verus! {

/// A letter, a digit or an underscore.
pub open spec fn is_word(c: char) -> bool {
    ('a' <= c && c <= 'z') || ('A' <= c && c <= 'Z') || ('0' <= c && c <= '9') || c == '_'
}

/// A character of an embedded key: a word character or a hyphen.
pub open spec fn is_key_char(c: char) -> bool {
    is_word(c) || c == '-'
}

/// What every embedded key starts with.
pub open spec fn key_prefix() -> Seq<char> {
    seq!['d', 'm', 't', 'r', '_']
}

/// What separates the network from the version.
pub open spec fn version_mark() -> Seq<char> {
    seq!['-', 'v']
}

/// What separates the version from the instance qualifier.
pub open spec fn service_mark() -> Seq<char> {
    seq!['.', 'k', 'u', 'p', 'o', '-']
}

/// Whether `s` holds `part` at position `at`.
pub open spec fn holds_at(s: Seq<char>, at: int, part: Seq<char>) -> bool {
    0 <= at && at + part.len() <= s.len() && s.subrange(at, at + part.len()) == part
}

/// Where the longest run of word characters that starts at `from` ends.
pub open spec fn word_end(s: Seq<char>, from: int) -> int
    decreases s.len() - from,
{
    if 0 <= from < s.len() && is_word(s[from]) {
        word_end(s, from + 1)
    } else {
        from
    }
}

/// Where the longest run of key characters that starts at `from` ends.
pub open spec fn key_chars_end(s: Seq<char>, from: int) -> int
    decreases s.len() - from,
{
    if 0 <= from < s.len() && is_key_char(s[from]) {
        key_chars_end(s, from + 1)
    } else {
        from
    }
}

/// The parts that a host name carries, as plain values.
pub struct HostView {
    pub key: Option<Seq<char>>,
    pub network: Seq<char>,
    pub version: Seq<char>,
    pub qualifier: Seq<char>,
}

/// The route that starts at `start`: a network, `-v`, a version, `.kupo-`, a
/// qualifier, each a non-empty run of word characters, and then a suffix that
/// is not empty. The result holds network, version and qualifier.
pub open spec fn route_at(s: Seq<char>, start: int) -> Option<(Seq<char>, Seq<char>, Seq<char>)> {
    let network_end = word_end(s, start);
    let version_start = network_end + 2;
    let version_end = word_end(s, version_start);
    let qualifier_start = version_end + 6;
    let qualifier_end = word_end(s, qualifier_start);
    if 0 <= start < network_end && holds_at(s, network_end, version_mark()) && version_start
        < version_end && holds_at(s, version_end, service_mark()) && qualifier_start
        < qualifier_end && qualifier_end < s.len() {
        Some(
            (
                s.subrange(start, network_end),
                s.subrange(version_start, version_end),
                s.subrange(qualifier_start, qualifier_end),
            ),
        )
    } else {
        None
    }
}

/// Where an embedded key ends, if the host starts with one: `dmtr_`, at
/// least one key character, and then a dot.
pub open spec fn embedded_key_end(s: Seq<char>) -> Option<int> {
    let end = key_chars_end(s, 5);
    if holds_at(s, 0, key_prefix()) && 5 < end && end < s.len() && s[end] == '.' {
        Some(end)
    } else {
        None
    }
}

/// The parts of a host name. A leading key is taken as one wherever a route
/// follows its dot; otherwise the route has to start the host.
pub open spec fn host_parts(s: Seq<char>) -> Option<HostView> {
    let keyed = match embedded_key_end(s) {
        Some(end) => match route_at(s, end + 1) {
            Some(route) => Some(
                HostView {
                    key: Some(s.subrange(0, end)),
                    network: route.0,
                    version: route.1,
                    qualifier: route.2,
                },
            ),
            None => None,
        },
        None => None,
    };
    if keyed is Some {
        keyed
    } else {
        match route_at(s, 0) {
            Some(route) => Some(
                HostView { key: None, network: route.0, version: route.1, qualifier: route.2 },
            ),
            None => None,
        }
    }
}

/// The parts of a host name.
#[derive(Debug)]
pub struct HostParts {
    pub key: Option<String>,
    pub network: String,
    pub version: String,
    pub qualifier: String,
}

impl View for HostParts {
    type V = HostView;

    open spec fn view(&self) -> HostView {
        HostView {
            key: match self.key {
                Some(k) => Some(k@),
                None => None,
            },
            network: self.network@,
            version: self.version@,
            qualifier: self.qualifier@,
        }
    }
}

/// Why a host name was turned down.
#[derive(Clone, Copy, Debug, PartialEq, Eq, Structural)]
pub enum ParseError {
    /// The host does not follow the grammar.
    MalformedHost,
}

fn word_char(c: char) -> (yes: bool)
    ensures
        yes == is_word(c),
{
    ('a' <= c && c <= 'z') || ('A' <= c && c <= 'Z') || ('0' <= c && c <= '9') || c == '_'
}

fn scan_word(s: &Vec<char>, from: usize) -> (end: usize)
    requires
        from <= s@.len(),
    ensures
        end == word_end(s@, from as int),
        from <= end <= s@.len(),
{
    let mut end = from;
    while end < s.len() && word_char(s[end])
        invariant
            from <= end <= s@.len(),
            word_end(s@, from as int) == word_end(s@, end as int),
        decreases s@.len() - end,
    {
        end += 1;
    }
    end
}

fn scan_key(s: &Vec<char>, from: usize) -> (end: usize)
    requires
        from <= s@.len(),
    ensures
        end == key_chars_end(s@, from as int),
        from <= end <= s@.len(),
{
    let mut end = from;
    while end < s.len() && (word_char(s[end]) || s[end] == '-')
        invariant
            from <= end <= s@.len(),
            key_chars_end(s@, from as int) == key_chars_end(s@, end as int),
        decreases s@.len() - end,
    {
        end += 1;
    }
    end
}

fn has_version_mark(s: &Vec<char>, at: usize) -> (yes: bool)
    requires
        at <= s@.len(),
    ensures
        yes == holds_at(s@, at as int, version_mark()),
{
    if s.len() - at < 2 {
        return false;
    }
    let yes = s[at] == '-' && s[at + 1] == 'v';
    proof {
        let part = s@.subrange(at as int, at + 2);
        if yes {
            assert(part =~= version_mark());
        } else {
            assert(part[0] == s@[at as int] && part[1] == s@[at + 1]);
        }
    }
    yes
}

fn has_service_mark(s: &Vec<char>, at: usize) -> (yes: bool)
    requires
        at <= s@.len(),
    ensures
        yes == holds_at(s@, at as int, service_mark()),
{
    if s.len() - at < 6 {
        return false;
    }
    let yes = s[at] == '.' && s[at + 1] == 'k' && s[at + 2] == 'u' && s[at + 3] == 'p' && s[at
        + 4] == 'o' && s[at + 5] == '-';
    proof {
        let part = s@.subrange(at as int, at + 6);
        if yes {
            assert(part =~= service_mark());
        } else {
            assert(part[0] == s@[at as int] && part[1] == s@[at + 1] && part[2] == s@[at + 2]
                && part[3] == s@[at + 3] && part[4] == s@[at + 4] && part[5] == s@[at + 5]);
        }
    }
    yes
}

fn has_key_prefix(s: &Vec<char>) -> (yes: bool)
    ensures
        yes == holds_at(s@, 0, key_prefix()),
{
    if s.len() < 5 {
        return false;
    }
    let yes = s[0] == 'd' && s[1] == 'm' && s[2] == 't' && s[3] == 'r' && s[4] == '_';
    proof {
        let part = s@.subrange(0, 5);
        if yes {
            assert(part =~= key_prefix());
        } else {
            assert(part[0] == s@[0] && part[1] == s@[1] && part[2] == s@[2] && part[3] == s@[3]
                && part[4] == s@[4]);
        }
    }
    yes
}

/// The bounds of the three parts of the route that starts at `start`.
fn route_bounds(s: &Vec<char>, start: usize) -> (bounds: Option<(usize, usize, usize, usize)>)
    requires
        start <= s@.len(),
    ensures
        match bounds {
            Some((network_end, version_start, version_end, qualifier_start)) => {
                &&& route_at(s@, start as int) == Some(
                    (
                        s@.subrange(start as int, network_end as int),
                        s@.subrange(version_start as int, version_end as int),
                        s@.subrange(
                            qualifier_start as int,
                            word_end(s@, qualifier_start as int),
                        ),
                    ),
                )
                &&& start < network_end < version_start < version_end < qualifier_start
                    < word_end(s@, qualifier_start as int) < s@.len()
            },
            None => route_at(s@, start as int) is None,
        },
{
    let total = s.len();
    let network_end = scan_word(s, start);
    if network_end == start {
        return None;
    }
    let versioned = has_version_mark(s, network_end);
    if !versioned {
        return None;
    }
    assert(version_mark().len() == 2);
    let version_start = network_end + 2;
    let version_end = scan_word(s, version_start);
    if version_end == version_start {
        return None;
    }
    let served = has_service_mark(s, version_end);
    if !served {
        return None;
    }
    assert(service_mark().len() == 6);
    let qualifier_start = version_end + 6;
    let qualifier_end = scan_word(s, qualifier_start);
    if qualifier_end == qualifier_start || qualifier_end >= total {
        return None;
    }
    Some((network_end, version_start, version_end, qualifier_start))
}

/// Splits a host name into its parts, or says that it is malformed.
pub fn parse_host(host: &str) -> (parsed: Result<HostParts, ParseError>)
    ensures
        match parsed {
            Ok(parts) => host_parts(host@) == Some(parts@),
            Err(_) => host_parts(host@) is None,
        },
{
    let s = chars_of(host);
    if has_key_prefix(&s) {
        let key_end = scan_key(&s, 5);
        if 5 < key_end && key_end < s.len() && s[key_end] == '.' {
            if let Some((network_end, version_start, version_end, qualifier_start)) = route_bounds(
                &s,
                key_end + 1,
            ) {
                let qualifier_end = scan_word(&s, qualifier_start);
                return Ok(
                    HostParts {
                        key: Some(String::from_str(host.substring_char(0, key_end))),
                        network: String::from_str(host.substring_char(key_end + 1, network_end)),
                        version: String::from_str(host.substring_char(version_start, version_end)),
                        qualifier: String::from_str(
                            host.substring_char(qualifier_start, qualifier_end),
                        ),
                    },
                );
            }
        }
    }
    match route_bounds(&s, 0) {
        Some((network_end, version_start, version_end, qualifier_start)) => {
            let qualifier_end = scan_word(&s, qualifier_start);
            Ok(
                HostParts {
                    key: None,
                    network: String::from_str(host.substring_char(0, network_end)),
                    version: String::from_str(host.substring_char(version_start, version_end)),
                    qualifier: String::from_str(
                        host.substring_char(qualifier_start, qualifier_end),
                    ),
                },
            )
        },
        None => Err(ParseError::MalformedHost),
    }
}

/// A non-empty run of word characters.
pub open spec fn is_word_run(s: Seq<char>) -> bool {
    s.len() > 0 && forall|i: int| 0 <= i < s.len() ==> is_word(#[trigger] s[i])
}

/// An embedded key: `dmtr_` and then at least one key character.
pub open spec fn is_key(s: Seq<char>) -> bool {
    &&& s.len() > 5
    &&& s.subrange(0, 5) == key_prefix()
    &&& forall|i: int| 5 <= i < s.len() ==> is_key_char(#[trigger] s[i])
}

/// The host name that carries `parts` and ends in `suffix`.
pub open spec fn composed(parts: HostView, suffix: Seq<char>) -> Seq<char> {
    (match parts.key {
        Some(key) => key + seq!['.'],
        None => Seq::<char>::empty(),
    }) + parts.network + version_mark() + parts.version + service_mark() + parts.qualifier
        + suffix
}

/// Whether `parts` and `suffix` are what the grammar lets a host be made
/// of.
pub open spec fn well_formed(parts: HostView, suffix: Seq<char>) -> bool {
    &&& parts.key matches Some(key) ==> is_key(key)
    &&& is_word_run(parts.network)
    &&& is_word_run(parts.version)
    &&& is_word_run(parts.qualifier)
    &&& suffix.len() > 0
    &&& !is_word(suffix[0])
}

proof fn lemma_word_end(s: Seq<char>, from: int)
    requires
        0 <= from <= s.len(),
    ensures
        from <= word_end(s, from) <= s.len(),
        forall|i: int| from <= i < word_end(s, from) ==> is_word(#[trigger] s[i]),
        word_end(s, from) < s.len() ==> !is_word(s[word_end(s, from)]),
    decreases s.len() - from,
{
    if from < s.len() && is_word(s[from]) {
        lemma_word_end(s, from + 1);
    }
}

proof fn lemma_key_chars_end(s: Seq<char>, from: int)
    requires
        0 <= from <= s.len(),
    ensures
        from <= key_chars_end(s, from) <= s.len(),
        forall|i: int| from <= i < key_chars_end(s, from) ==> is_key_char(#[trigger] s[i]),
    decreases s.len() - from,
{
    if from < s.len() && is_key_char(s[from]) {
        lemma_key_chars_end(s, from + 1);
    }
}

/// The suffix of a host that has parts: what follows the qualifier.
pub open spec fn suffix_of(s: Seq<char>) -> Seq<char> {
    let start = match embedded_key_end(s) {
        Some(end) => if route_at(s, end + 1) is Some {
            end + 1
        } else {
            0
        },
        None => 0,
    };
    let version_start = word_end(s, start) + 2;
    let qualifier_start = word_end(s, version_start) + 6;
    s.subrange(word_end(s, qualifier_start), s.len() as int)
}

/// A host that has parts is made of them as the grammar says: the key with
/// its dot where there is one, the network, `-v`, the version, `.kupo-`, the
/// qualifier and a suffix, each part of its kind.
pub proof fn law_parsed_host_is_composed(s: Seq<char>)
    requires
        host_parts(s) is Some,
    ensures
        well_formed(host_parts(s).unwrap(), suffix_of(s)),
        s == composed(host_parts(s).unwrap(), suffix_of(s)),
{
    let parts = host_parts(s).unwrap();
    let keyed = embedded_key_end(s) is Some && route_at(s, embedded_key_end(s).unwrap() + 1)
        is Some;
    let start = if keyed { embedded_key_end(s).unwrap() + 1 } else { 0 };
    assert(route_at(s, start) is Some);
    let network_end = word_end(s, start);
    let version_start = network_end + 2;
    let version_end = word_end(s, version_start);
    let qualifier_start = version_end + 6;
    let qualifier_end = word_end(s, qualifier_start);
    lemma_word_end(s, start);
    lemma_word_end(s, version_start);
    lemma_word_end(s, qualifier_start);
    assert(is_word_run(parts.network)) by {
        assert forall|i: int| 0 <= i < parts.network.len() implies is_word(
            #[trigger] parts.network[i],
        ) by {
            assert(parts.network[i] == s[start + i]);
        }
    }
    assert(is_word_run(parts.version)) by {
        assert forall|i: int| 0 <= i < parts.version.len() implies is_word(
            #[trigger] parts.version[i],
        ) by {
            assert(parts.version[i] == s[version_start + i]);
        }
    }
    assert(is_word_run(parts.qualifier)) by {
        assert forall|i: int| 0 <= i < parts.qualifier.len() implies is_word(
            #[trigger] parts.qualifier[i],
        ) by {
            assert(parts.qualifier[i] == s[qualifier_start + i]);
        }
    }
    let suffix = suffix_of(s);
    assert(suffix[0] == s[qualifier_end]);
    let route = parts.network + version_mark() + parts.version + service_mark()
        + parts.qualifier + suffix;
    assert(route =~= s.subrange(start, s.len() as int)) by {
        assert(s.subrange(network_end, network_end + 2) == version_mark());
        assert(s.subrange(version_end, version_end + 6) == service_mark());
        assert forall|i: int| 0 <= i < route.len() implies route[i] == s[start + i] by {
            if start + i < network_end {
            } else if start + i < version_start {
                assert(s.subrange(network_end, network_end + 2)[start + i - network_end]
                    == s[start + i]);
            } else if start + i < version_end {
            } else if start + i < qualifier_start {
                assert(s.subrange(version_end, version_end + 6)[start + i - version_end]
                    == s[start + i]);
            } else if start + i < qualifier_end {
            } else {
            }
        }
    }
    if keyed {
        let end = embedded_key_end(s).unwrap();
        let key = s.subrange(0, end);
        lemma_key_chars_end(s, 5);
        assert(key.subrange(0, 5) =~= s.subrange(0, 5));
        assert forall|i: int| 5 <= i < key.len() implies is_key_char(#[trigger] key[i]) by {
            assert(key[i] == s[i]);
        }
        assert(composed(parts, suffix) =~= key + seq!['.'] + s.subrange(start, s.len() as int));
        assert(key + seq!['.'] + s.subrange(start, s.len() as int) =~= s);
    } else {
        assert(composed(parts, suffix) =~= s.subrange(0, s.len() as int));
        assert(s.subrange(0, s.len() as int) =~= s);
    }
}

proof fn lemma_word_run_ends(s: Seq<char>, from: int, end: int)
    requires
        0 <= from <= end <= s.len(),
        forall|i: int| from <= i < end ==> is_word(#[trigger] s[i]),
        end == s.len() || !is_word(s[end]),
    ensures
        word_end(s, from) == end,
    decreases end - from,
{
    if from < end {
        assert(is_word(s[from]));
        lemma_word_run_ends(s, from + 1, end);
    }
}

proof fn lemma_key_run_ends(s: Seq<char>, from: int, end: int)
    requires
        0 <= from <= end <= s.len(),
        forall|i: int| from <= i < end ==> is_key_char(#[trigger] s[i]),
        end == s.len() || !is_key_char(s[end]),
    ensures
        key_chars_end(s, from) == end,
    decreases end - from,
{
    if from < end {
        assert(is_key_char(s[from]));
        lemma_key_run_ends(s, from + 1, end);
    }
}

/// The route that is written at `start` is read back from there.
proof fn lemma_route_is_read(
    s: Seq<char>,
    start: int,
    network: Seq<char>,
    version: Seq<char>,
    qualifier: Seq<char>,
    suffix: Seq<char>,
)
    requires
        0 <= start <= s.len(),
        s.subrange(start, s.len() as int) == network + version_mark() + version + service_mark()
            + qualifier + suffix,
        is_word_run(network),
        is_word_run(version),
        is_word_run(qualifier),
        suffix.len() > 0,
        !is_word(suffix[0]),
    ensures
        route_at(s, start) == Some((network, version, qualifier)),
{
    let tail = s.subrange(start, s.len() as int);
    let network_end = start + network.len();
    let version_start = network_end + 2;
    let version_end = version_start + version.len();
    let qualifier_start = version_end + 6;
    let qualifier_end = qualifier_start + qualifier.len();
    assert(tail.len() == network.len() + 2 + version.len() + 6 + qualifier.len() + suffix.len());
    assert forall|i: int| start <= i < s.len() implies s[i] == #[trigger] tail[i - start] by {}
    assert forall|i: int| start <= i < network_end implies is_word(#[trigger] s[i]) by {
        assert(tail[i - start] == network[i - start]);
    }
    assert(s[network_end] == '-' && s[network_end + 1] == 'v') by {
        assert(tail[network_end - start] == version_mark()[0]);
        assert(tail[network_end + 1 - start] == version_mark()[1]);
    }
    lemma_word_run_ends(s, start, network_end);
    assert(s.subrange(network_end, network_end + 2) =~= version_mark());
    assert forall|i: int| version_start <= i < version_end implies is_word(#[trigger] s[i]) by {
        assert(tail[i - start] == version[i - version_start]);
    }
    assert(s[version_end] == '.' && s[version_end + 1] == 'k' && s[version_end + 2] == 'u'
        && s[version_end + 3] == 'p' && s[version_end + 4] == 'o' && s[version_end + 5] == '-')
        by {
        assert(tail[version_end - start] == service_mark()[0]);
        assert(tail[version_end + 1 - start] == service_mark()[1]);
        assert(tail[version_end + 2 - start] == service_mark()[2]);
        assert(tail[version_end + 3 - start] == service_mark()[3]);
        assert(tail[version_end + 4 - start] == service_mark()[4]);
        assert(tail[version_end + 5 - start] == service_mark()[5]);
    }
    lemma_word_run_ends(s, version_start, version_end);
    assert(s.subrange(version_end, version_end + 6) =~= service_mark());
    assert forall|i: int| qualifier_start <= i < qualifier_end implies is_word(#[trigger] s[i]) by {
        assert(tail[i - start] == qualifier[i - qualifier_start]);
    }
    assert(s[qualifier_end] == suffix[0]) by {
        assert(tail[qualifier_end - start] == suffix[0]);
    }
    lemma_word_run_ends(s, qualifier_start, qualifier_end);
    assert(s.subrange(start, network_end) =~= network) by {
        assert forall|i: int| 0 <= i < network.len() implies s[start + i] == network[i] by {
            assert(tail[i] == network[i]);
        }
    }
    assert(s.subrange(version_start, version_end) =~= version) by {
        assert forall|i: int| 0 <= i < version.len() implies s[version_start + i] == version[i] by {
            assert(tail[version_start + i - start] == version[i]);
        }
    }
    assert(s.subrange(qualifier_start, qualifier_end) =~= qualifier) by {
        assert forall|i: int| 0 <= i < qualifier.len() implies s[qualifier_start + i]
            == qualifier[i] by {
            assert(tail[qualifier_start + i - start] == qualifier[i]);
        }
    }
}

/// A host that is made of a key and a route as the grammar says is read
/// back as exactly these parts.
pub proof fn law_keyed_host_is_parsed(parts: HostView, suffix: Seq<char>)
    requires
        well_formed(parts, suffix),
        parts.key is Some,
    ensures
        host_parts(composed(parts, suffix)) == Some(parts),
{
    let s = composed(parts, suffix);
    let key = parts.key.unwrap();
    let end = key.len() as int;
    let route = parts.network + version_mark() + parts.version + service_mark()
        + parts.qualifier + suffix;
    assert(s =~= key + seq!['.'] + route);
    assert(s.subrange(end + 1, s.len() as int) =~= route);
    assert(s.subrange(0, 5) =~= key.subrange(0, 5));
    assert forall|i: int| 5 <= i < end implies is_key_char(#[trigger] s[i]) by {
        assert(s[i] == key[i]);
    }
    assert(s[end] == '.');
    lemma_key_run_ends(s, 5, end);
    lemma_route_is_read(s, end + 1, parts.network, parts.version, parts.qualifier, suffix);
    assert(s.subrange(0, end) =~= key);
}

/// A host that is made of a route alone is read back as a host, and as
/// exactly this route unless its first label reads as a key.
pub proof fn law_plain_host_is_parsed(parts: HostView, suffix: Seq<char>)
    requires
        well_formed(parts, suffix),
        parts.key is None,
    ensures
        host_parts(composed(parts, suffix)) is Some,
        host_parts(composed(parts, suffix)).unwrap().key is None ==> host_parts(
            composed(parts, suffix),
        ) == Some(parts),
{
    let s = composed(parts, suffix);
    let route = parts.network + version_mark() + parts.version + service_mark()
        + parts.qualifier + suffix;
    assert(s =~= route);
    assert(s.subrange(0, s.len() as int) =~= s);
    lemma_route_is_read(s, 0, parts.network, parts.version, parts.qualifier, suffix);
}

} // verus!
