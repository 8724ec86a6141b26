//! Address resolution: deriving a concrete IP value for every configured
//! address identifier, from local network interfaces, from the externally
//! supplied address map, or from a static literal. A failure on any one
//! identifier fails the whole resolution: a partially resolved map would
//! let URL rendering silently drop placeholders.

use vstd::prelude::*;

use crate::addresses::AddressMap;
use crate::config::{AddressSourceEntry, IpAddress, IpVersion};

verus! {

/// One address carried by a local network interface, reduced to the plain
/// values resolution reads: the protocol version, the raw octets (4 for
/// IPv4, 16 for IPv6) and the canonical textual form.
#[derive(Clone, Debug)]
pub struct InterfaceAddress {
    pub is_v4: bool,
    pub octets: Vec<u8>,
    pub text: String,
}

/// A local network interface: its name and the addresses bound to it.
#[derive(Clone, Debug)]
pub struct NetworkInterfaceInfo {
    pub name: String,
    pub addresses: Vec<InterfaceAddress>,
}

/// Why resolution failed.
#[derive(Clone, Copy, Debug, PartialEq, Eq, Structural)]
pub enum ResolutionErrorKind {
    InterfaceNotFound,
    NoMatchingAddress,
    MissingParameter,
}

/// A resolution failure, carrying the interface pattern or parameter name
/// it is about.
#[derive(Clone, Debug, PartialEq)]
pub enum ResolutionError {
    /// No local interface name matches the configured pattern (or the
    /// pattern is not a valid regular expression).
    InterfaceNotFound { interface: String },
    /// A matching interface exists, but none of its addresses qualifies.
    NoMatchingAddress { interface: String },
    /// The named parameter is absent from the supplied address map.
    MissingParameter { parameter: String },
}

impl ResolutionError {
    pub open spec fn kind(&self) -> ResolutionErrorKind {
        match self {
            ResolutionError::InterfaceNotFound { .. } => ResolutionErrorKind::InterfaceNotFound,
            ResolutionError::NoMatchingAddress { .. } => ResolutionErrorKind::NoMatchingAddress,
            ResolutionError::MissingParameter { .. } => ResolutionErrorKind::MissingParameter,
        }
    }

    /// The interface pattern or parameter name the failure is about.
    pub open spec fn subject(&self) -> Seq<char> {
        match self {
            ResolutionError::InterfaceNotFound { interface } => interface@,
            ResolutionError::NoMatchingAddress { interface } => interface@,
            ResolutionError::MissingParameter { parameter } => parameter@,
        }
    }

    /// A human-readable description of the failure.
    pub fn message(&self) -> (r: String)
        ensures
            r@ == spec_resolution_error_message(self.kind(), self.subject()),
    {
        match self {
            ResolutionError::InterfaceNotFound { interface } => {
                let mut r = String::from_str("no interface matching ");
                r.append(interface.as_str());
                r
            },
            ResolutionError::NoMatchingAddress { interface } => {
                let mut r = String::from_str("no suitable address on interface ");
                r.append(interface.as_str());
                r
            },
            ResolutionError::MissingParameter { parameter } => {
                let mut r = String::from_str("missing parameter ");
                r.append(parameter.as_str());
                r
            },
        }
    }
}

/// The text that describes a resolution failure.
pub open spec fn spec_resolution_error_message(
    kind: ResolutionErrorKind,
    subject: Seq<char>,
) -> Seq<char> {
    match kind {
        ResolutionErrorKind::InterfaceNotFound => "no interface matching "@ + subject,
        ResolutionErrorKind::NoMatchingAddress => "no suitable address on interface "@ + subject,
        ResolutionErrorKind::MissingParameter => "missing parameter "@ + subject,
    }
}

/// Whether `pattern` is a valid regular expression; decided by the pattern
/// alone.
pub uninterp spec fn regex_valid(pattern: Seq<char>) -> bool;

/// Whether the regular expression `pattern` matches somewhere in `text`;
/// decided by pattern and text alone.
pub uninterp spec fn regex_matches(pattern: Seq<char>, text: Seq<char>) -> bool;

/// Relies on regex::Regex::new and regex::Regex::is_match: whether a
/// pattern compiles is a function of the pattern alone, and whether it
/// matches is a function of pattern and text alone; `None` is returned
/// exactly when the pattern does not compile.
#[verifier::external_body]
fn regex_match(pattern: &str, text: &str) -> (r: Option<bool>)
    ensures
        r is Some <==> regex_valid(pattern@),
        r matches Some(b) ==> b == regex_matches(pattern@, text@),
{
    regex::Regex::new(pattern).ok().map(|re| re.is_match(text))
}

#[verifier::external_type_specification]
#[verifier::external_body]
pub struct ExNetworkInterface(pnet::datalink::NetworkInterface);

/// Relies on pnet's datalink::interfaces to enumerate the host's network
/// interfaces. The result depends on the machine's state; nothing is
/// assumed of it.
#[verifier::external_body]
fn pnet_interfaces() -> Vec<pnet::datalink::NetworkInterface> {
    pnet::datalink::interfaces()
}

/// Relies on pnet's NetworkInterface fields `name` and `ips`, and on
/// ipnetwork's `ip`, std's `octets` and the canonical Display form of an
/// IP address, to copy one interface into plain values.
#[verifier::external_body]
fn interface_info(ni: &pnet::datalink::NetworkInterface) -> NetworkInterfaceInfo {
    let mut addresses = Vec::new();
    for ipn in ni.ips.iter() {
        let a = match ipn {
            pnet::ipnetwork::IpNetwork::V4(n) =>
                InterfaceAddress { is_v4: true, octets: n.ip().octets().to_vec(), text: n.ip().to_string() },
            pnet::ipnetwork::IpNetwork::V6(n) =>
                InterfaceAddress { is_v4: false, octets: n.ip().octets().to_vec(), text: n.ip().to_string() },
        };
        addresses.push(a);
    }
    NetworkInterfaceInfo { name: ni.name.clone(), addresses }
}

/// A snapshot of the host's network interfaces, taken fresh for one
/// resolution; an interface's addresses may change between cycles.
pub fn host_interfaces() -> Vec<NetworkInterfaceInfo> {
    let raw = pnet_interfaces();
    let mut out: Vec<NetworkInterfaceInfo> = Vec::new();
    let mut i: usize = 0;
    while i < raw.len()
        decreases raw.len() - i,
    {
        out.push(interface_info(&raw[i]));
        i = i + 1;
    }
    out
}

/// The IPv4 loopback net 127.0.0.0/8, or the IPv6 loopback address ::1.
pub open spec fn spec_is_loopback(a: InterfaceAddress) -> bool {
    if a.is_v4 {
        a.octets@.len() == 4 && a.octets@[0] == 127
    } else {
        a.octets@.len() == 16 && (forall|j: int| 0 <= j < 15 ==> a.octets@[j] == 0)
            && a.octets@[15] == 1
    }
}

/// The IPv4 link-local net 169.254.0.0/16, or the IPv6 link-local net
/// fe80::/10.
pub open spec fn spec_is_link_local(a: InterfaceAddress) -> bool {
    if a.is_v4 {
        a.octets@.len() == 4 && a.octets@[0] == 169 && a.octets@[1] == 254
    } else {
        a.octets@.len() == 16 && a.octets@[0] == 0xfe && (a.octets@[1] & 0xc0) == 0x80
    }
}

/// Whether an interface address may be selected automatically: it must
/// match the requested IP version, and loopback and link-local addresses
/// are excluded. An operator who does want such an address requests it
/// explicitly, as a `Static` literal or a supplied parameter.
pub open spec fn spec_qualifies(a: InterfaceAddress, version: IpVersion) -> bool {
    (match version {
        IpVersion::V4 => a.is_v4,
        IpVersion::V6 => !a.is_v4,
        IpVersion::Any => true,
    }) && !spec_is_loopback(a) && !spec_is_link_local(a)
}

/// The first interface whose name the pattern matches, in snapshot order.
pub open spec fn spec_find_interface(
    ifaces: Seq<NetworkInterfaceInfo>,
    pattern: Seq<char>,
) -> Option<NetworkInterfaceInfo>
    decreases ifaces.len(),
{
    if ifaces.len() == 0 {
        None
    } else if regex_matches(pattern, ifaces[0].name@) {
        Some(ifaces[0])
    } else {
        spec_find_interface(ifaces.drop_first(), pattern)
    }
}

/// The first qualifying address of an interface, in address order.
pub open spec fn spec_find_address(
    addresses: Seq<InterfaceAddress>,
    version: IpVersion,
) -> Option<InterfaceAddress>
    decreases addresses.len(),
{
    if addresses.len() == 0 {
        None
    } else if spec_qualifies(addresses[0], version) {
        Some(addresses[0])
    } else {
        spec_find_address(addresses.drop_first(), version)
    }
}

/// What resolving one source produces, given the supplied address map and
/// the interface snapshot.
pub open spec fn spec_resolve_one(
    source: IpAddress,
    supplied: Map<Seq<char>, Seq<char>>,
    ifaces: Seq<NetworkInterfaceInfo>,
) -> Result<Seq<char>, (ResolutionErrorKind, Seq<char>)> {
    match source {
        IpAddress::Static { address } => Ok(address@),
        IpAddress::FromParameter { parameter } => if supplied.contains_key(parameter@) {
            Ok(supplied[parameter@])
        } else {
            Err((ResolutionErrorKind::MissingParameter, parameter@))
        },
        IpAddress::FromInterface { interface, version } => if !regex_valid(interface@) {
            Err((ResolutionErrorKind::InterfaceNotFound, interface@))
        } else {
            match spec_find_interface(ifaces, interface@) {
                None => Err((ResolutionErrorKind::InterfaceNotFound, interface@)),
                Some(info) => match spec_find_address(info.addresses@, version) {
                    None => Err((ResolutionErrorKind::NoMatchingAddress, interface@)),
                    Some(a) => Ok(a.text@),
                },
            }
        },
    }
}

/// What resolving a whole source list produces: the map binding every
/// identifier, or the first failure in configuration order.
pub open spec fn spec_resolve(
    sources: Seq<AddressSourceEntry>,
    supplied: Map<Seq<char>, Seq<char>>,
    ifaces: Seq<NetworkInterfaceInfo>,
) -> Result<Map<Seq<char>, Seq<char>>, (ResolutionErrorKind, Seq<char>)>
    decreases sources.len(),
{
    if sources.len() == 0 {
        Ok(Map::empty())
    } else {
        match spec_resolve(sources.drop_last(), supplied, ifaces) {
            Err(e) => Err(e),
            Ok(m) => match spec_resolve_one(sources.last().source, supplied, ifaces) {
                Err(e) => Err(e),
                Ok(v) => Ok(m.insert(sources.last().name@, v)),
            },
        }
    }
}

/// Relates an executable resolution result to the specified one.
pub open spec fn spec_one_result_matches(
    r: Result<String, ResolutionError>,
    s: Result<Seq<char>, (ResolutionErrorKind, Seq<char>)>,
) -> bool {
    match r {
        Ok(v) => s matches Ok(sv) && v@ == sv,
        Err(e) => s matches Err(se) && e.kind() == se.0 && e.subject() == se.1,
    }
}

/// Relates an executable whole-map resolution result to the specified one.
pub open spec fn spec_resolve_result_matches(
    r: Result<AddressMap, ResolutionError>,
    s: Result<Map<Seq<char>, Seq<char>>, (ResolutionErrorKind, Seq<char>)>,
) -> bool {
    match r {
        Ok(m) => s matches Ok(sm) && m@ == sm,
        Err(e) => s matches Err(se) && e.kind() == se.0 && e.subject() == se.1,
    }
}

/// Whether all first 15 octets are zero; part of the IPv6 loopback test.
fn all_zero_prefix(octets: &Vec<u8>) -> (r: bool)
    requires
        octets@.len() == 16,
    ensures
        r <==> (forall|j: int| 0 <= j < 15 ==> octets@[j] == 0),
{
    let mut k: usize = 0;
    let mut allz = true;
    while k < 15
        invariant
            k <= 15,
            octets@.len() == 16,
            allz <==> (forall|j: int| 0 <= j < k ==> #[trigger] octets@[j] == 0),
        decreases 15 - k,
    {
        if octets[k] != 0 {
            allz = false;
        }
        k = k + 1;
    }
    allz
}

/// Whether an interface address may be selected for the requested version.
fn address_qualifies(a: &InterfaceAddress, version: IpVersion) -> (r: bool)
    ensures
        r == spec_qualifies(*a, version),
{
    let version_ok = match version {
        IpVersion::V4 => a.is_v4,
        IpVersion::V6 => !a.is_v4,
        IpVersion::Any => true,
    };
    if !version_ok {
        return false;
    }
    if a.is_v4 {
        if a.octets.len() == 4 {
            if a.octets[0] == 127 {
                return false;
            }
            if a.octets[0] == 169 && a.octets[1] == 254 {
                return false;
            }
        }
        true
    } else {
        if a.octets.len() == 16 {
            if a.octets[0] == 0xfe && (a.octets[1] & 0xc0) == 0x80 {
                return false;
            }
            if a.octets[15] == 1 && all_zero_prefix(&a.octets) {
                return false;
            }
        }
        true
    }
}

/// Resolves one source. `Static` always succeeds with the literal;
/// `FromParameter` returns exactly the supplied value and fails with
/// `MissingParameter` when the parameter is absent; `FromInterface` picks
/// the first qualifying address of the first interface whose name the
/// pattern matches.
#[verifier::loop_isolation(false)]
pub fn resolve_one(
    source: &IpAddress,
    supplied: &AddressMap,
    ifaces: &Vec<NetworkInterfaceInfo>,
) -> (r: Result<String, ResolutionError>)
    ensures
        spec_one_result_matches(r, spec_resolve_one(*source, supplied@, ifaces@)),
{
    match source {
        IpAddress::Static { address } => Ok(address.clone()),
        IpAddress::FromParameter { parameter } => match supplied.get(parameter) {
            Some(v) => Ok(v.clone()),
            None => Err(ResolutionError::MissingParameter { parameter: parameter.clone() }),
        },
        IpAddress::FromInterface { interface, version } => {
            let mut i: usize = 0;
            let mut sel: Option<&NetworkInterfaceInfo> = None;
            proof {
                assert(ifaces@.skip(0) =~= ifaces@);
            }
            while i < ifaces.len() && sel.is_none()
                invariant
                    i <= ifaces@.len(),
                    sel is None ==> spec_find_interface(ifaces@, interface@)
                        == spec_find_interface(ifaces@.skip(i as int), interface@),
                    sel matches Some(f) ==> regex_valid(interface@) && spec_find_interface(
                        ifaces@,
                        interface@,
                    ) == Some(*f),
                decreases ifaces@.len() - i + (if sel is Some {
                    0int
                } else {
                    1int
                }),
            {
                match regex_match(interface.as_str(), ifaces[i].name.as_str()) {
                    None => {
                        return Err(
                            ResolutionError::InterfaceNotFound { interface: interface.clone() },
                        );
                    },
                    Some(true) => {
                        proof {
                            assert(ifaces@.skip(i as int)[0] == ifaces@[i as int]);
                        }
                        sel = Some(&ifaces[i]);
                    },
                    Some(false) => {
                        proof {
                            assert(ifaces@.skip(i as int)[0] == ifaces@[i as int]);
                            assert(ifaces@.skip(i as int).drop_first() =~= ifaces@.skip(i + 1));
                        }
                        i = i + 1;
                    },
                }
            }
            match sel {
                Some(info) => {
                    let mut k: usize = 0;
                    proof {
                        assert(info.addresses@.skip(0) =~= info.addresses@);
                    }
                    while k < info.addresses.len()
                        invariant
                            k <= info.addresses@.len(),
                            spec_find_address(info.addresses@, *version) == spec_find_address(
                                info.addresses@.skip(k as int),
                                *version,
                            ),
                        decreases info.addresses@.len() - k,
                    {
                        proof {
                            assert(info.addresses@.skip(k as int)[0] == info.addresses@[k as int]);
                        }
                        if address_qualifies(&info.addresses[k], *version) {
                            return Ok(info.addresses[k].text.clone());
                        }
                        proof {
                            assert(info.addresses@.skip(k as int).drop_first()
                                =~= info.addresses@.skip(k + 1));
                        }
                        k = k + 1;
                    }
                    Err(ResolutionError::NoMatchingAddress { interface: interface.clone() })
                },
                None => Err(ResolutionError::InterfaceNotFound { interface: interface.clone() }),
            }
        },
    }
}

/// A resolution failure in any prefix of the source list decides the
/// whole resolution.
proof fn lemma_resolve_prefix_error(
    sources: Seq<AddressSourceEntry>,
    supplied: Map<Seq<char>, Seq<char>>,
    ifaces: Seq<NetworkInterfaceInfo>,
    i: int,
)
    requires
        0 <= i <= sources.len(),
        spec_resolve(sources.take(i), supplied, ifaces) is Err,
    ensures
        spec_resolve(sources, supplied, ifaces) == spec_resolve(sources.take(i), supplied, ifaces),
    decreases sources.len() - i,
{
    if i == sources.len() {
        assert(sources.take(i) =~= sources);
    } else {
        assert(sources.take(i + 1).drop_last() =~= sources.take(i));
        lemma_resolve_prefix_error(sources, supplied, ifaces, i + 1);
    }
}

/// Resolves every configured source against a given interface snapshot.
/// Succeeds with the full map iff every identifier resolves; otherwise
/// fails with the first failure in configuration order.
pub fn resolve_with_interfaces(
    sources: &Vec<AddressSourceEntry>,
    supplied: &AddressMap,
    ifaces: &Vec<NetworkInterfaceInfo>,
) -> (r: Result<AddressMap, ResolutionError>)
    ensures
        spec_resolve_result_matches(r, spec_resolve(sources@, supplied@, ifaces@)),
{
    let mut out = AddressMap::new();
    let mut i: usize = 0;
    proof {
        assert(sources@.take(0) =~= Seq::<AddressSourceEntry>::empty());
    }
    while i < sources.len()
        invariant
            i <= sources@.len(),
            spec_resolve(sources@.take(i as int), supplied@, ifaces@) matches Ok(m) && m == out@,
        decreases sources@.len() - i,
    {
        proof {
            assert(sources@.take(i + 1).drop_last() =~= sources@.take(i as int));
            assert(sources@.take(i + 1).last() == sources@[i as int]);
        }
        match resolve_one(&sources[i].source, supplied, ifaces) {
            Ok(v) => {
                out.insert(sources[i].name.clone(), v);
            },
            Err(e) => {
                proof {
                    lemma_resolve_prefix_error(sources@, supplied@, ifaces@, i + 1);
                }
                return Err(e);
            },
        }
        i = i + 1;
    }
    proof {
        assert(sources@.take(sources@.len() as int) =~= sources@);
    }
    Ok(out)
}

/// Resolves every configured source against a snapshot of the host's
/// interfaces taken now. The snapshot depends on the machine's state;
/// everything after it is the deterministic resolution above.
pub fn resolve(sources: &Vec<AddressSourceEntry>, supplied: &AddressMap) -> (r: Result<
    AddressMap,
    ResolutionError,
>)
    ensures
        exists|ifs: Seq<NetworkInterfaceInfo>|
            spec_resolve_result_matches(r, spec_resolve(sources@, supplied@, ifs)),
{
    let ifaces = host_interfaces();
    let r = resolve_with_interfaces(sources, supplied, &ifaces);
    proof {
        assert(spec_resolve_result_matches(r, spec_resolve(sources@, supplied@, ifaces@)));
    }
    r
}

/// Resolution of a `Static` source is deterministic: it ignores the
/// supplied address map and the interface snapshot, and always succeeds
/// with the configured literal.
pub proof fn lemma_static_resolution_deterministic(
    source: IpAddress,
    supplied1: Map<Seq<char>, Seq<char>>,
    supplied2: Map<Seq<char>, Seq<char>>,
    ifaces1: Seq<NetworkInterfaceInfo>,
    ifaces2: Seq<NetworkInterfaceInfo>,
)
    requires
        source is Static,
    ensures
        spec_resolve_one(source, supplied1, ifaces1) == spec_resolve_one(
            source,
            supplied2,
            ifaces2,
        ),
        spec_resolve_one(source, supplied1, ifaces1) is Ok,
{
}

/// A configuration without interface sources resolves the same way under
/// any interface snapshot: only `FromInterface` reads the host's state.
pub proof fn lemma_resolve_without_interfaces(
    sources: Seq<AddressSourceEntry>,
    supplied: Map<Seq<char>, Seq<char>>,
    ifaces1: Seq<NetworkInterfaceInfo>,
    ifaces2: Seq<NetworkInterfaceInfo>,
)
    requires
        forall|i: int| 0 <= i < sources.len() ==> !(#[trigger] sources[i].source is FromInterface),
    ensures
        spec_resolve(sources, supplied, ifaces1) == spec_resolve(sources, supplied, ifaces2),
    decreases sources.len(),
{
    if sources.len() > 0 {
        assert(forall|i: int|
            0 <= i < sources.len() - 1 ==> sources.drop_last()[i] == sources[i]);
        lemma_resolve_without_interfaces(sources.drop_last(), supplied, ifaces1, ifaces2);
        assert(sources.last() == sources[sources.len() - 1]);
    }
}

} // verus!
