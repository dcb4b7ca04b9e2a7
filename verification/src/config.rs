//! The membership registry: an immutable, validated view of a configuration
//! document mapping network identifiers to their authorized member sets.
//!
//! A network identifier is a 64-bit value written as exactly 16 hexadecimal
//! digits; its high bits embed the address of the authority that provisioned
//! the network.  A member address is a 40-bit value written as exactly 10
//! hexadecimal digits.  Identifier fields are read as UTF-8 bytes, so every
//! specification here speaks of the byte view of a field.

use crate::hex::all_hex_digits;
use crate::hex::hex_value;
use crate::hex::lemma_hex_value_bound;
use crate::hex::parse_hex_u64;
use crate::hex::pow16;
use std::collections::HashMap;
use std::collections::HashSet;
use vstd::prelude::*;
use vstd::string::StringSliceAdditionalSpecFns;
use vstd::utf8::encode_utf8;

verus! {

broadcast use vstd::std_specs::hash::group_hash_axioms;

/// One entry of the configuration document: a network identifier and the
/// addresses authorized to join that network, all as hexadecimal strings.
#[derive(Debug, Clone)]
pub struct NetworkConfig {
    pub id: String,
    pub members: Vec<String>,
}

/// The configuration document: a list of network entries.
#[derive(Debug, Clone)]
pub struct Config {
    pub networks: Vec<NetworkConfig>,
}

impl NetworkConfig {
    /// The identifier field as the bytes of its UTF-8 encoding.
    pub open spec fn id_bytes(&self) -> Seq<u8> {
        encode_utf8(self.id@)
    }

    /// The member address fields, each as the bytes of its UTF-8 encoding.
    pub open spec fn member_bytes(&self) -> Seq<Seq<u8>> {
        self.members@.map_values(|m: String| encode_utf8(m@))
    }
}

/// A well-formed network identifier field: exactly 16 hexadecimal digits.
pub open spec fn valid_network_id(s: Seq<u8>) -> bool {
    s.len() == 16 && all_hex_digits(s)
}

/// A well-formed member address field: exactly 10 hexadecimal digits.
pub open spec fn valid_member_address(s: Seq<u8>) -> bool {
    s.len() == 10 && all_hex_digits(s)
}

/// A field of the configuration document that failed validation; the raw
/// field value is kept for the operator-visible diagnostic.
#[derive(Debug, Clone)]
pub enum ValidationError {
    /// A network identifier that is not exactly 16 hexadecimal digits.
    MalformedIdentifier { raw: String },
    /// A member address that is not exactly 10 hexadecimal digits.
    MalformedAddress { raw: String },
}

/// Specification-level image of a `ValidationError`: the same variant over
/// the byte view of the offending field.
pub enum ValidationErrorView {
    MalformedIdentifier { raw: Seq<u8> },
    MalformedAddress { raw: Seq<u8> },
}

impl View for ValidationError {
    type V = ValidationErrorView;

    open spec fn view(&self) -> ValidationErrorView {
        match self {
            ValidationError::MalformedIdentifier { raw } => {
                ValidationErrorView::MalformedIdentifier { raw: encode_utf8(raw@) }
            },
            ValidationError::MalformedAddress { raw } => {
                ValidationErrorView::MalformedAddress { raw: encode_utf8(raw@) }
            },
        }
    }
}

/// The first invalid member address of a list, scanning in order.
pub open spec fn first_bad_member(ms: Seq<Seq<u8>>) -> Option<Seq<u8>>
    decreases ms.len(),
{
    if ms.len() == 0 {
        None
    } else if !valid_member_address(ms[0]) {
        Some(ms[0])
    } else {
        first_bad_member(ms.drop_first())
    }
}

/// The validation error of one entry, if any: a malformed identifier is
/// reported before any member address of the same entry.
pub open spec fn entry_error(n: NetworkConfig) -> Option<ValidationErrorView> {
    if !valid_network_id(n.id_bytes()) {
        Some(ValidationErrorView::MalformedIdentifier { raw: n.id_bytes() })
    } else {
        match first_bad_member(n.member_bytes()) {
            Some(raw) => Some(ValidationErrorView::MalformedAddress { raw }),
            None => None,
        }
    }
}

/// The first validation error of the document, scanning entries in order.
pub open spec fn config_error(ns: Seq<NetworkConfig>) -> Option<ValidationErrorView>
    decreases ns.len(),
{
    if ns.len() == 0 {
        None
    } else {
        match entry_error(ns[0]) {
            Some(e) => Some(e),
            None => config_error(ns.drop_first()),
        }
    }
}

/// Every identifier and every address of the document is well-formed.
pub open spec fn config_valid(ns: Seq<NetworkConfig>) -> bool {
    config_error(ns) is None
}

/// The 64-bit network identifier an entry denotes.
pub open spec fn entry_id_value(n: NetworkConfig) -> u64 {
    hex_value(n.id_bytes()) as u64
}

/// The set of member addresses a list of address fields denotes.  Duplicate
/// addresses collapse: the result is a set.
pub open spec fn member_set(ms: Seq<Seq<u8>>) -> Set<u64>
    decreases ms.len(),
{
    if ms.len() == 0 {
        Set::empty()
    } else {
        member_set(ms.drop_last()).insert(hex_value(ms.last()) as u64)
    }
}

/// The registry a configuration document denotes: entries in order, a later
/// entry replacing an earlier one with the same identifier (last write wins).
pub open spec fn registry_map(ns: Seq<NetworkConfig>) -> Map<u64, Set<u64>>
    decreases ns.len(),
{
    if ns.len() == 0 {
        Map::empty()
    } else {
        registry_map(ns.drop_last()).insert(
            entry_id_value(ns.last()),
            member_set(ns.last().member_bytes()),
        )
    }
}

/// Scanning for the first bad member may start after any prefix of
/// well-formed addresses.
proof fn lemma_first_bad_member_skip(ms: Seq<Seq<u8>>, k: int)
    requires
        0 <= k <= ms.len(),
        forall|j: int| 0 <= j < k ==> valid_member_address(#[trigger] ms[j]),
    ensures
        first_bad_member(ms) == first_bad_member(ms.skip(k)),
    decreases k,
{
    if k == 0 {
        assert(ms.skip(0) =~= ms);
    } else {
        assert(valid_member_address(ms[0]));
        lemma_first_bad_member_skip(ms.drop_first(), k - 1);
        assert(ms.drop_first().skip(k - 1) =~= ms.skip(k));
    }
}

/// Scanning for the first bad entry may start after any prefix of entries
/// without errors.
proof fn lemma_config_error_skip(ns: Seq<NetworkConfig>, i: int)
    requires
        0 <= i <= ns.len(),
        forall|j: int| 0 <= j < i ==> entry_error(#[trigger] ns[j]) is None,
    ensures
        config_error(ns) == config_error(ns.skip(i)),
    decreases i,
{
    if i == 0 {
        assert(ns.skip(0) =~= ns);
    } else {
        assert(entry_error(ns[0]) is None);
        lemma_config_error_skip(ns.drop_first(), i - 1);
        assert(ns.drop_first().skip(i - 1) =~= ns.skip(i));
    }
}

/// Entry `i` is the one that determines network `nwid` in the built
/// registry: it denotes that identifier and no later entry does (last
/// write wins).
pub open spec fn is_governing_entry(ns: Seq<NetworkConfig>, i: int, nwid: u64) -> bool {
    &&& 0 <= i < ns.len()
    &&& entry_id_value(ns[i]) == nwid
    &&& forall|j: int| i < j < ns.len() ==> entry_id_value(#[trigger] ns[j]) != nwid
}

/// Some field of the entry's member list denotes this address.
pub open spec fn entry_lists_member(n: NetworkConfig, addr: u64) -> bool {
    exists|k: int|
        0 <= k < n.member_bytes().len() && (hex_value(#[trigger] n.member_bytes()[k]) as u64)
            == addr
}

/// The set a member list denotes contains exactly the values its fields
/// denote.
pub proof fn lemma_member_set_membership(ms: Seq<Seq<u8>>, a: u64)
    ensures
        member_set(ms).contains(a) <==> exists|k: int|
            0 <= k < ms.len() && (hex_value(#[trigger] ms[k]) as u64) == a,
    decreases ms.len(),
{
    if ms.len() > 0 {
        lemma_member_set_membership(ms.drop_last(), a);
        let last_val = hex_value(ms.last()) as u64;
        if member_set(ms).contains(a) {
            if a == last_val {
                assert((hex_value(ms[ms.len() - 1]) as u64) == a);
            } else {
                let k = choose|k: int|
                    0 <= k < ms.drop_last().len() && (hex_value(
                        #[trigger] ms.drop_last()[k],
                    ) as u64) == a;
                assert((hex_value(ms[k]) as u64) == a);
            }
        }
        if exists|k: int| 0 <= k < ms.len() && (hex_value(#[trigger] ms[k]) as u64) == a {
            let k = choose|k: int| 0 <= k < ms.len() && (hex_value(#[trigger] ms[k]) as u64) == a;
            if k == ms.len() - 1 {
                assert(member_set(ms).contains(a));
            } else {
                assert((hex_value(ms.drop_last()[k]) as u64) == a);
                assert(member_set(ms.drop_last()).contains(a));
            }
        }
    }
}

/// Building, then asking: a member address is authorized for a network
/// exactly when it appears (case-insensitively, as the decoded value) in
/// the member list of the entry that governs that network's identifier.
pub proof fn lemma_build_then_authorized(ns: Seq<NetworkConfig>, nwid: u64, addr: u64)
    ensures
        (registry_map(ns).contains_key(nwid) && registry_map(ns)[nwid].contains(addr))
            <==> exists|i: int|
            #[trigger] is_governing_entry(ns, i, nwid) && entry_lists_member(ns[i], addr),
    decreases ns.len(),
{
    if ns.len() == 0 {
        assert(!registry_map(ns).contains_key(nwid));
        if exists|i: int| #[trigger] is_governing_entry(ns, i, nwid) && entry_lists_member(
            ns[i],
            addr,
        ) {
            let i = choose|i: int|
                #[trigger] is_governing_entry(ns, i, nwid) && entry_lists_member(ns[i], addr);
            assert(false);
        }
    } else {
        let pre = ns.drop_last();
        let last_entry = ns.last();
        let lid = entry_id_value(last_entry);
        lemma_build_then_authorized(pre, nwid, addr);
        assert(forall|j: int| 0 <= j < pre.len() ==> pre[j] == ns[j]);
        if nwid == lid {
            lemma_member_set_membership(last_entry.member_bytes(), addr);
            assert(registry_map(ns)[nwid] == member_set(last_entry.member_bytes()));
            if entry_lists_member(last_entry, addr) {
                assert(is_governing_entry(ns, ns.len() - 1, nwid));
                assert(ns[ns.len() - 1] == last_entry);
            }
            if exists|i: int| #[trigger] is_governing_entry(ns, i, nwid) && entry_lists_member(
                ns[i],
                addr,
            ) {
                let i = choose|i: int|
                    #[trigger] is_governing_entry(ns, i, nwid) && entry_lists_member(ns[i], addr);
                if i < ns.len() - 1 {
                    assert(entry_id_value(ns[ns.len() - 1]) != nwid);
                    assert(false);
                }
                assert(entry_lists_member(last_entry, addr));
            }
        } else {
            assert(registry_map(ns).contains_key(nwid) == registry_map(pre).contains_key(nwid));
            if registry_map(pre).contains_key(nwid) {
                assert(registry_map(ns)[nwid] == registry_map(pre)[nwid]);
            }
            if exists|i: int| #[trigger] is_governing_entry(pre, i, nwid) && entry_lists_member(
                pre[i],
                addr,
            ) {
                let i = choose|i: int|
                    #[trigger] is_governing_entry(pre, i, nwid) && entry_lists_member(pre[i], addr);
                assert(entry_id_value(ns[ns.len() - 1]) != nwid);
                assert(is_governing_entry(ns, i, nwid));
                assert(entry_lists_member(ns[i], addr));
            }
            if exists|i: int| #[trigger] is_governing_entry(ns, i, nwid) && entry_lists_member(
                ns[i],
                addr,
            ) {
                let i = choose|i: int|
                    #[trigger] is_governing_entry(ns, i, nwid) && entry_lists_member(ns[i], addr);
                assert(i != ns.len() - 1);
                assert(is_governing_entry(pre, i, nwid));
                assert(entry_lists_member(pre[i], addr));
            }
        }
    }
}

/// A network identifier whose embedded authority differs from the given
/// address is never managed, whatever the registry holds: already a
/// difference between the identifier's top 24 bits and the top 24 bits of
/// the 40-bit authority address rules it out.
pub proof fn lemma_foreign_authority_never_manages(
    reg: Map<u64, Set<u64>>,
    nwid: u64,
    authority: u64,
)
    requires
        nwid >> 40 != authority >> 16,
    ensures
        !spec_manages(reg, nwid, authority),
{
    assert(((nwid >> 24) == authority) ==> ((nwid >> 40) == (authority >> 16))) by (bit_vector);
}

/// Parses a network identifier field: exactly 16 hexadecimal digits,
/// case-insensitive.  Any other length or any non-hexadecimal byte is a
/// `MalformedIdentifier` carrying the raw field.
pub fn parse_network_id(s: &str) -> (r: Result<u64, ValidationError>)
    ensures
        r is Ok <==> valid_network_id(encode_utf8(s@)),
        r is Ok ==> r == Ok::<u64, ValidationError>((hex_value(encode_utf8(s@)) as u64)),
        r matches Err(e) ==> e@ == (ValidationErrorView::MalformedIdentifier {
            raw: encode_utf8(s@),
        }),
{
    let bytes = s.as_bytes();
    if bytes.len() != 16 {
        return Err(ValidationError::MalformedIdentifier { raw: s.to_owned() });
    }
    match parse_hex_u64(bytes) {
        Some(v) => Ok(v),
        None => Err(ValidationError::MalformedIdentifier { raw: s.to_owned() }),
    }
}

/// Parses a member address field: exactly 10 hexadecimal digits,
/// case-insensitive.  The decoded value fits in 40 bits.  Any other length or
/// any non-hexadecimal byte is a `MalformedAddress` carrying the raw field.
pub fn parse_address(s: &str) -> (r: Result<u64, ValidationError>)
    ensures
        r is Ok <==> valid_member_address(encode_utf8(s@)),
        r is Ok ==> r == Ok::<u64, ValidationError>((hex_value(encode_utf8(s@)) as u64)),
        r matches Ok(v) ==> v < 0x100_0000_0000,
        r matches Err(e) ==> e@ == (ValidationErrorView::MalformedAddress {
            raw: encode_utf8(s@),
        }),
{
    let bytes = s.as_bytes();
    if bytes.len() != 10 {
        return Err(ValidationError::MalformedAddress { raw: s.to_owned() });
    }
    match parse_hex_u64(bytes) {
        Some(v) => {
            proof {
                lemma_hex_value_bound(bytes@);
                reveal_with_fuel(pow16, 11);
                assert(pow16(10) == 0x100_0000_0000);
            }
            Ok(v)
        },
        None => Err(ValidationError::MalformedAddress { raw: s.to_owned() }),
    }
}

/// An immutable registry mapping each configured network identifier to the
/// set of member addresses authorized to join it.
#[derive(Debug, Clone)]
pub struct ControllerConfig {
    networks: HashMap<u64, HashSet<u64>>,
}

/// The abstract registry a table of member sets denotes: each set replaced
/// by its view.
spec fn set_views(m: Map<u64, HashSet<u64>>) -> Map<u64, Set<u64>> {
    m.map_values(|s: HashSet<u64>| s@)
}

impl View for ControllerConfig {
    type V = Map<u64, Set<u64>>;

    closed spec fn view(&self) -> Map<u64, Set<u64>> {
        set_views(self.networks@)
    }
}

/// The given authority address is the one embedded in the identifier's high
/// bits: shifting the 64-bit identifier right by 24 yields the 40-bit
/// address of the authority that provisioned the network.
pub open spec fn embedded_authority(nwid: u64) -> u64 {
    nwid >> 24
}

/// A registry manages a network only when the identifier embeds the given
/// authority address and the network is explicitly configured.
pub open spec fn spec_manages(reg: Map<u64, Set<u64>>, nwid: u64, authority: u64) -> bool {
    embedded_authority(nwid) == authority && reg.contains_key(nwid)
}

impl ControllerConfig {
    /// Builds a registry from a configuration document, validating every
    /// identifier and every address.  A later entry with the same network
    /// identifier replaces an earlier one; duplicate member addresses within
    /// one entry collapse into the set.  On the first malformed field the
    /// build fails with that field's error and nothing is registered.
    #[verifier::loop_isolation(false)]
    pub fn from_config(config: &Config) -> (r: Result<ControllerConfig, ValidationError>)
        ensures
            r is Ok <==> config_valid(config.networks@),
            r matches Ok(c) ==> c@ == registry_map(config.networks@),
            r matches Err(e) ==> config_error(config.networks@) == Some(e@),
    {
        let ghost ns = config.networks@;
        let mut networks: HashMap<u64, HashSet<u64>> = HashMap::new();
        proof {
            assert(set_views(networks@) =~= registry_map(ns.take(0)));
        }
        let n = config.networks.len();
        let mut i: usize = 0;
        while i < n
            invariant
                n == ns.len(),
                ns == config.networks@,
                0 <= i <= n,
                forall|j: int| 0 <= j < i ==> entry_error(#[trigger] ns[j]) is None,
                set_views(networks@) == registry_map(ns.take(i as int)),
            decreases n - i,
        {
            let entry = &config.networks[i];
            let ghost mb = entry.member_bytes();
            let nwid = match parse_network_id(entry.id.as_str()) {
                Ok(v) => v,
                Err(e) => {
                    proof {
                        assert(entry_error(ns[i as int]) == Some(e@));
                        lemma_config_error_skip(ns, i as int);
                        assert(ns.skip(i as int)[0] == ns[i as int]);
                    }
                    return Err(e);
                },
            };
            let mut members: HashSet<u64> = HashSet::new();
            proof {
                assert(mb.take(0) =~= Seq::<Seq<u8>>::empty());
            }
            let m = entry.members.len();
            let mut k: usize = 0;
            while k < m
                invariant
                    m == entry.members@.len(),
                    mb == entry.member_bytes(),
                    valid_network_id(entry.id_bytes()),
                    0 <= k <= m,
                    mb.len() == m,
                    forall|j: int| 0 <= j < k ==> valid_member_address(#[trigger] mb[j]),
                    members@ == member_set(mb.take(k as int)),
                decreases m - k,
            {
                let addr = match parse_address(entry.members[k].as_str()) {
                    Ok(a) => a,
                    Err(e) => {
                        proof {
                            assert(mb[k as int] == encode_utf8(entry.members@[k as int]@));
                            lemma_first_bad_member_skip(mb, k as int);
                            assert(mb.skip(k as int)[0] == mb[k as int]);
                            assert(first_bad_member(mb) == Some(mb[k as int]));
                            assert(entry_error(ns[i as int]) == Some(e@));
                            lemma_config_error_skip(ns, i as int);
                            assert(ns.skip(i as int)[0] == ns[i as int]);
                        }
                        return Err(e);
                    },
                };
                proof {
                    assert(mb[k as int] == encode_utf8(entry.members@[k as int]@));
                    assert(mb.take(k + 1).drop_last() =~= mb.take(k as int));
                    assert(mb.take(k + 1).last() == mb[k as int]);
                }
                members.insert(addr);
                k = k + 1;
            }
            proof {
                assert(mb.take(m as int) =~= mb);
                lemma_first_bad_member_skip(mb, m as int);
                assert(first_bad_member(mb) is None);
                assert(entry_error(ns[i as int]) is None);
            }
            let ghost pre = networks@;
            networks.insert(nwid, members);
            proof {
                assert(nwid == entry_id_value(ns[i as int]));
                assert(networks@ == pre.insert(nwid, members));
                assert(set_views(pre.insert(nwid, members)) =~= set_views(pre).insert(
                    nwid,
                    members@,
                ));
                assert(ns.take(i + 1).drop_last() =~= ns.take(i as int));
                assert(ns.take(i + 1).last() == ns[i as int]);
                assert(set_views(networks@) == registry_map(ns.take(i + 1)));
            }
            i = i + 1;
        }
        proof {
            lemma_config_error_skip(ns, n as int);
            assert(config_error(ns) is None);
            assert(ns.take(n as int) =~= ns);
        }
        Ok(ControllerConfig { networks })
    }

    /// True iff the network is configured and the address is in its member
    /// set.  An absent network authorizes nobody.
    pub fn is_authorized(&self, nwid: u64, member_addr: u64) -> (r: bool)
        ensures
            r == (self@.contains_key(nwid) && self@[nwid].contains(member_addr)),
    {
        match self.networks.get(&nwid) {
            Some(members) => members.contains(&member_addr),
            None => false,
        }
    }

    /// True iff the identifier's embedded authority equals the given address
    /// and the network is present in the registry: a well-formed identifier
    /// that this authority never provisioned is not managed.
    pub fn manages_network(&self, nwid: u64, controller_addr: u64) -> (r: bool)
        ensures
            r == spec_manages(self@, nwid, controller_addr),
    {
        let nwid_controller = nwid >> 24;
        nwid_controller == controller_addr && self.networks.contains_key(&nwid)
    }
}

} // verus!
