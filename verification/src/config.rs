//! From configuration entries to mappings.
//!
//! An entry is a name and a value. A name that starts with `VPROXY_` is one
//! mapping: the part of the name after its last underscore is the port, in
//! decimal, and the value is the upstream base URL. So
//! `VPROXY_API_8080=http://localhost:9000` maps port 8080 to
//! `http://localhost:9000`. Other names are not the proxy's and are passed
//! over.

use vstd::prelude::*;
use vstd::slice::slice_subrange;
use crate::mapping::{MappingView, ProxyMapping};
use crate::text::{chars_of, parse_u16, text_to_u16};
use crate::uri::{is_well_formed, uri_well_formed};

verus! {

/// Why an entry gives no mapping.
#[derive(Clone, Copy, Debug, PartialEq, Eq, Structural)]
pub enum ConfigError {
    /// The name does not end in a port number.
    InvalidPort,
    /// The value is empty.
    EmptyUpstream,
    /// The value is not a URI.
    MalformedUpstream,
}

/// The entry that stopped the loading, and why.
#[derive(Clone, Copy, Debug, PartialEq, Eq, Structural)]
pub struct LoadError {
    /// The position of the entry among those given.
    pub index: usize,
    pub cause: ConfigError,
}

/// An entry as mathematical values: its name and its value.
pub type EntryView = (Seq<char>, Seq<char>);

/// The prefix that marks a name as a mapping.
pub open spec fn mapping_prefix() -> Seq<char> {
    seq!['V', 'P', 'R', 'O', 'X', 'Y', '_']
}

/// Whether `name` names a mapping.
pub open spec fn is_mapping_name(name: Seq<char>) -> bool {
    name.len() >= 7 && name.take(7) == mapping_prefix()
}

/// Where the port token of `name` starts: behind its last underscore, or at
/// the front where it has none.
pub open spec fn token_start(name: Seq<char>) -> int
    decreases name.len(),
{
    if name.len() == 0 {
        0
    } else if name.last() == '_' {
        name.len() as int
    } else {
        token_start(name.drop_last())
    }
}

/// The port token of `name`: what follows its last underscore.
pub open spec fn port_token(name: Seq<char>) -> Seq<char> {
    name.skip(token_start(name))
}

/// What an entry gives, once it is known whether its value is a URI.
pub open spec fn mapping_of(name: Seq<char>, value: Seq<char>, value_is_uri: bool) -> Result<
    MappingView,
    ConfigError,
> {
    match text_to_u16(port_token(name)) {
        None => Err(ConfigError::InvalidPort),
        Some(port) => if value.len() == 0 {
            Err(ConfigError::EmptyUpstream)
        } else if !value_is_uri {
            Err(ConfigError::MalformedUpstream)
        } else {
            Ok(MappingView { port, upstream_base_url: value })
        },
    }
}

/// What an entry gives.
pub open spec fn entry_outcome(e: EntryView) -> Result<MappingView, ConfigError> {
    mapping_of(e.0, e.1, uri_well_formed(e.1))
}

/// Whether the entry at `i` names a mapping and gives none.
pub open spec fn rejected_at(entries: Seq<EntryView>, i: int) -> bool {
    0 <= i < entries.len() && is_mapping_name(entries[i].0) && entry_outcome(entries[i]) is Err
}

/// The mappings of the entries that name one, in the order of the entries.
pub open spec fn selected(entries: Seq<EntryView>) -> Seq<MappingView>
    decreases entries.len(),
{
    if entries.len() == 0 {
        Seq::empty()
    } else if is_mapping_name(entries.last().0) && entry_outcome(entries.last()) is Ok {
        selected(entries.drop_last()).push(entry_outcome(entries.last())->Ok_0)
    } else {
        selected(entries.drop_last())
    }
}

/// The entries of `vars` as mathematical values.
pub open spec fn entry_views(vars: Seq<(String, String)>) -> Seq<EntryView> {
    Seq::new(vars.len(), |i: int| (vars[i].0@, vars[i].1@))
}

/// The mappings of `ms` as mathematical values.
pub open spec fn mapping_views(ms: Seq<ProxyMapping>) -> Seq<MappingView> {
    Seq::new(ms.len(), |i: int| ms[i]@)
}

/// The port token starts behind an underscore or at the front, and holds no
/// underscore itself: it is what follows the last one.
pub proof fn lemma_port_token_is_last_segment(name: Seq<char>)
    ensures
        0 <= token_start(name) <= name.len(),
        token_start(name) > 0 ==> name[token_start(name) - 1] == '_',
        forall|i: int| token_start(name) <= i < name.len() ==> name[i] != '_',
        (forall|i: int| 0 <= i < name.len() ==> name[i] != '_') ==> token_start(name) == 0,
    decreases name.len(),
{
    if name.len() > 0 && name.last() != '_' {
        let front = name.drop_last();
        lemma_port_token_is_last_segment(front);
        assert forall|i: int| token_start(name) <= i < name.len() implies name[i] != '_' by {
            if i < front.len() {
                assert(name[i] == front[i]);
            }
        }
        if forall|i: int| 0 <= i < name.len() ==> name[i] != '_' {
            assert forall|i: int| 0 <= i < front.len() implies front[i] != '_' by {
                assert(front[i] == name[i]);
            }
        }
    }
}

/// Whether `name` starts with `VPROXY_`.
pub fn names_mapping(name: &str) -> (b: bool)
    ensures
        b == is_mapping_name(name@),
{
    let chars = chars_of(name);
    starts_with_prefix(chars.as_slice())
}

/// Whether the characters start with those of `VPROXY_`.
fn starts_with_prefix(name: &[char]) -> (b: bool)
    ensures
        b == is_mapping_name(name@),
{
    let b = name.len() >= 7 && name[0] == 'V' && name[1] == 'P' && name[2] == 'R' && name[3] == 'O'
        && name[4] == 'X' && name[5] == 'Y' && name[6] == '_';
    proof {
        if name@.len() >= 7 {
            let head = name@.take(7);
            if b {
                assert(head =~= mapping_prefix());
            } else {
                assert(head[0] == name@[0] && head[1] == name@[1] && head[2] == name@[2]
                    && head[3] == name@[3] && head[4] == name@[4] && head[5] == name@[5]
                    && head[6] == name@[6]);
            }
        }
    }
    b
}

/// The index at which the port token of `name` starts.
fn find_token_start(name: &[char]) -> (k: usize)
    ensures
        k == token_start(name@),
        k <= name@.len(),
{
    let mut k: usize = name.len();
    assert(name@.take(k as int) =~= name@);
    while k > 0 && name[k - 1] != '_'
        invariant
            k <= name@.len(),
            token_start(name@) == token_start(name@.take(k as int)),
        decreases k,
    {
        proof {
            let upto = name@.take(k as int);
            assert(upto.last() == name@[k - 1]);
            assert(upto.drop_last() =~= name@.take(k - 1));
        }
        k -= 1;
    }
    proof {
        let upto = name@.take(k as int);
        if k > 0 {
            assert(upto.last() == name@[k - 1]);
        }
    }
    k
}

/// The port that `name` ends in.
pub fn port_of_name(name: &str) -> (r: Option<u16>)
    ensures
        r == text_to_u16(port_token(name@)),
{
    let chars = chars_of(name);
    let k = find_token_start(chars.as_slice());
    let token = slice_subrange(chars.as_slice(), k, chars.len());
    assert(token@ =~= port_token(name@));
    parse_u16(token)
}

/// Makes the mapping of one entry, given whether its value is a URI.
///
/// The port is judged first, then the value: an entry with a bad port and an
/// empty value is refused for its port.
pub fn build_mapping(name: &str, value: &str, value_is_uri: bool) -> (r: Result<
    ProxyMapping,
    ConfigError,
>)
    ensures
        match r {
            Ok(m) => mapping_of(name@, value@, value_is_uri) == Ok::<MappingView, ConfigError>(m@),
            Err(e) => mapping_of(name@, value@, value_is_uri) == Err::<MappingView, ConfigError>(e),
        },
{
    match port_of_name(name) {
        None => Err(ConfigError::InvalidPort),
        Some(port) => {
            if value.is_empty() {
                Err(ConfigError::EmptyUpstream)
            } else if !value_is_uri {
                Err(ConfigError::MalformedUpstream)
            } else {
                Ok(ProxyMapping::new(port, value))
            }
        },
    }
}

/// Makes the mapping of one entry.
pub fn parse_mapping(name: &str, value: &str) -> (r: Result<ProxyMapping, ConfigError>)
    ensures
        match r {
            Ok(m) => entry_outcome((name@, value@)) == Ok::<MappingView, ConfigError>(m@),
            Err(e) => entry_outcome((name@, value@)) == Err::<MappingView, ConfigError>(e),
        },
{
    let value_is_uri = is_well_formed(value);
    build_mapping(name, value, value_is_uri)
}

/// Makes the mappings of all entries that name one, in their order.
///
/// One entry that names a mapping and gives none stops the loading: the
/// error is that of the first such entry, with its position.
pub fn load_mappings(vars: &Vec<(String, String)>) -> (r: Result<Vec<ProxyMapping>, LoadError>)
    ensures
        match r {
            Ok(ms) => {
                &&& forall|i: int| !rejected_at(entry_views(vars@), i)
                &&& mapping_views(ms@) == selected(entry_views(vars@))
            },
            Err(e) => {
                &&& rejected_at(entry_views(vars@), e.index as int)
                &&& forall|i: int| 0 <= i < e.index ==> !rejected_at(entry_views(vars@), i)
                &&& entry_outcome(entry_views(vars@)[e.index as int]) == Err::<
                    MappingView,
                    ConfigError,
                >(e.cause)
            },
        },
{
    let ghost entries = entry_views(vars@);
    let mut out: Vec<ProxyMapping> = Vec::new();
    let mut i: usize = 0;
    while i < vars.len()
        invariant
            i <= vars@.len(),
            entries == entry_views(vars@),
            forall|j: int| 0 <= j < i ==> !rejected_at(entries, j),
            mapping_views(out@) == selected(entries.take(i as int)),
        decreases vars@.len() - i,
    {
        let name = vars[i].0.as_str();
        let value = vars[i].1.as_str();
        let ghost upto = entries.take(i + 1);
        proof {
            assert(entries[i as int] == (name@, value@));
            assert(upto.last() == entries[i as int]);
            assert(upto.drop_last() =~= entries.take(i as int));
        }
        if names_mapping(name) {
            match parse_mapping(name, value) {
                Ok(m) => {
                    let ghost before = out@;
                    out.push(m);
                    assert(mapping_views(out@) =~= mapping_views(before).push(m@));
                },
                Err(cause) => {
                    return Err(LoadError { index: i, cause });
                },
            }
        }
        i += 1;
    }
    assert(entries.take(vars@.len() as int) =~= entries);
    Ok(out)
}

} // verus!
