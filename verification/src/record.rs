//! The mDNS service record a node registers, together with what it holds,
//! read back as plain values when it is built.

use vstd::prelude::*;
use mdns_sd::ServiceInfo;
use vstd::utf8::is_ascii_chars;

verus! {

#[verifier::external_type_specification]
#[verifier::external_body]
pub struct ExServiceInfo(mdns_sd::ServiceInfo);

#[verifier::external_type_specification]
#[verifier::external_body]
pub struct ExMdnsError(mdns_sd::Error);

/// An instance name as it stands in a full service name: every `.` and `\`
/// preceded by a `\`.
pub open spec fn escape_instance(s: Seq<char>) -> Seq<char>
    decreases s.len(),
{
    if s.len() == 0 {
        Seq::empty()
    } else {
        let c = s.last();
        escape_instance(s.drop_last()) + if c == '.' {
            seq!['\\', '.']
        } else if c == '\\' {
            seq!['\\', '\\']
        } else {
            seq![c]
        }
    }
}

/// Whether `p` occurs in `s`.
pub open spec fn contains_text(s: Seq<char>, p: Seq<char>) -> bool {
    exists|i: int| 0 <= i && i + p.len() <= s.len() && #[trigger] s.subrange(i, i + p.len()) == p
}

/// The marker of a service subtype in a service type.
pub open spec fn subtype_marker() -> Seq<char> {
    seq!['.', '_', 's', 'u', 'b', '.']
}

/// A host name with a doubled `.local.` ending reduced to one.
pub open spec fn normalized_host(h: Seq<char>) -> Seq<char> {
    let doubled = seq!['.', 'l', 'o', 'c', 'a', 'l', '.', 'l', 'o', 'c', 'a', 'l', '.'];
    if h.len() >= doubled.len() && h.skip(h.len() - doubled.len()) == doubled {
        h.take(h.len() - 6)
    } else {
        h
    }
}

/// The addresses (each as `IpAddr` prints it) that `mdns_sd` parses from an
/// address text: comma-separated IP addresses, each trimmed, none for an
/// empty text; `None` when a part does not parse.
pub uninterp spec fn ip_addresses(ip: Seq<char>) -> Option<Set<Seq<char>>>;

/// How many bytes UTF-8 takes for one character.
pub open spec fn utf8_width(c: char) -> nat {
    let n = c as u32;
    if n < 0x80 {
        1
    } else if n < 0x800 {
        2
    } else if n < 0x10000 {
        3
    } else {
        4
    }
}

/// How many bytes UTF-8 takes for a string (what `str::len` returns).
pub open spec fn utf8_len(s: Seq<char>) -> nat
    decreases s.len(),
{
    if s.len() == 0 {
        0
    } else {
        utf8_width(s[0]) + utf8_len(s.drop_first())
    }
}

/// Whether one TXT property `key=value` is acceptable: an ASCII key without
/// `=`, and at most 255 bytes for key, `=` and value together.
pub open spec fn property_fits(key: Seq<char>, value: Seq<char>) -> bool {
    &&& is_ascii_chars(key)
    &&& !key.contains('=')
    &&& utf8_len(key) + utf8_len(value) + 1 <= 255
}

/// Whether a text takes at most `limit` bytes in UTF-8.
pub fn fits_in_bytes(s: &str, limit: u32) -> (b: bool)
    requires
        limit <= 0x1000_0000,
    ensures
        b == (utf8_len(s@) <= limit),
{
    let v = crate::text::chars_of(s);
    let mut total: u32 = 0;
    let mut i: usize = 0;
    assert(s@.skip(0) =~= s@);
    while i < v.len()
        invariant
            v@ == s@,
            i <= v.len(),
            total <= limit,
            limit <= 0x1000_0000,
            utf8_len(s@) == total + utf8_len(s@.skip(i as int)),
        decreases v.len() - i,
    {
        let n = v[i] as u32;
        let w: u32 = if n < 0x80 {
            1
        } else if n < 0x800 {
            2
        } else if n < 0x10000 {
            3
        } else {
            4
        };
        assert(s@.skip(i as int).drop_first() =~= s@.skip(i + 1));
        assert(s@.skip(i as int)[0] == v@[i as int]);
        total = total + w;
        i = i + 1;
        if total > limit {
            proof {
                lemma_utf8_len_nonneg(s@.skip(i as int));
            }
            return false;
        }
    }
    assert(s@.skip(v.len() as int) =~= Seq::<char>::empty());
    true
}

/// A length is never negative (stated for the arithmetic that uses it).
proof fn lemma_utf8_len_nonneg(s: Seq<char>)
    ensures
        utf8_len(s) >= 0,
{
}

/// What a service record holds, as plain values.
pub struct RecordView {
    /// The service type with its domain.
    pub ty_domain: Seq<char>,
    /// The full service name.
    pub fullname: Seq<char>,
    /// The host the service is on.
    pub host: Seq<char>,
    /// The addresses, each as `IpAddr` prints it, in no given order.
    pub addresses: Seq<Seq<char>>,
    /// The port.
    pub port: u16,
    /// The TXT properties in order, each as key and value text.
    pub properties: Seq<(Seq<char>, Seq<char>)>,
}

/// A service record ready to register, with what it holds.
pub struct ServiceRecord {
    info: ServiceInfo,
    ty_domain: String,
    fullname: String,
    host: String,
    addresses: Vec<String>,
    port: u16,
    properties: Vec<(String, String)>,
}

impl View for ServiceRecord {
    type V = RecordView;

    closed spec fn view(&self) -> RecordView {
        RecordView {
            ty_domain: self.ty_domain@,
            fullname: self.fullname@,
            host: self.host@,
            addresses: self.addresses@.map_values(|a: String| a@),
            port: self.port,
            properties: self.properties@.map_values(|p: (String, String)| (p.0@, p.1@)),
        }
    }
}

/// Builds a record with `mdns_sd::ServiceInfo::new` and one TXT property,
/// and reads back what it holds. As the source of `ServiceInfo::new` shows,
/// it succeeds exactly when the address text parses and the property fits;
/// the record then holds the service type as given (when it names no
/// subtype), the escaped instance name, a dot and that type as full name, the
/// host with a doubled `.local.` reduced, the parsed addresses, the port, and
/// the one property.
#[verifier::external_body]
pub(crate) fn new_service_record(
    ty_domain: &str,
    instance: &str,
    host: &str,
    ip: &str,
    port: u16,
    key: &str,
    value: &str,
) -> (r: Result<ServiceRecord, mdns_sd::Error>)
    ensures
        r is Ok <==> (ip_addresses(ip@) is Some && property_fits(key@, value@)),
        (r is Ok && !contains_text(ty_domain@, subtype_marker())) ==> r->Ok_0@.ty_domain
            == ty_domain@,
        r is Ok ==> r->Ok_0@.fullname == escape_instance(instance@) + seq!['.'] + r->Ok_0@.ty_domain,
        r is Ok ==> r->Ok_0@.host == normalized_host(host@),
        r is Ok ==> r->Ok_0@.addresses.to_set() == ip_addresses(ip@)->0,
        r is Ok ==> r->Ok_0@.port == port,
        r is Ok ==> r->Ok_0@.properties == seq![(key@, value@)],
{
    let info = ServiceInfo::new(ty_domain, instance, host, ip, port, &[(key, value)][..])?;
    Ok(ServiceRecord {
        ty_domain: info.get_type().to_string(),
        fullname: info.get_fullname().to_string(),
        host: info.get_hostname().to_string(),
        addresses: info.get_addresses().iter().map(|a| a.to_string()).collect(),
        port: info.get_port(),
        properties: info.get_properties().iter().map(|p| (p.key().to_string(), p.val_str().to_string())).collect(),
        info,
    })
}

impl ServiceRecord {
    /// The service type with its domain.
    pub fn ty_domain(&self) -> (r: &str)
        ensures
            r@ == self@.ty_domain,
    {
        self.ty_domain.as_str()
    }

    /// The full service name.
    pub fn fullname(&self) -> (r: &str)
        ensures
            r@ == self@.fullname,
    {
        self.fullname.as_str()
    }

    /// The host the service is on.
    pub fn host(&self) -> (r: &str)
        ensures
            r@ == self@.host,
    {
        self.host.as_str()
    }

    /// The addresses, in no given order.
    pub fn addresses(&self) -> (r: &Vec<String>)
        ensures
            r@.map_values(|a: String| a@) == self@.addresses,
    {
        &self.addresses
    }

    /// The port.
    pub fn port(&self) -> (r: u16)
        ensures
            r == self@.port,
    {
        self.port
    }

    /// The TXT properties in order.
    pub fn properties(&self) -> (r: &Vec<(String, String)>)
        ensures
            r@.map_values(|p: (String, String)| (p.0@, p.1@)) == self@.properties,
    {
        &self.properties
    }

    /// The record to hand to the mDNS daemon.
    pub fn into_info(self) -> ServiceInfo {
        self.info
    }
}

} // verus!
