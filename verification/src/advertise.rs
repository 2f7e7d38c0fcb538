//! The record under which a node announces its pairing service.

use vstd::prelude::*;
use crate::node::BroadcastPlan;
use crate::record::{
    contains_text, escape_instance, fits_in_bytes, utf8_len, ip_addresses, new_service_record, normalized_host,
    property_fits, subtype_marker, ServiceRecord,
};
use crate::text::push_char;
use vstd::utf8::is_ascii_chars;

verus! {

/// The service type, with its domain, under which nodes announce themselves.
pub open spec fn service_type_text() -> Seq<char> {
    seq![
        '_', 'f', 'o', 'r', 's', 'y', 't', 'h', '.', '_', 't', 'c', 'p', '.', 'l', 'o', 'c', 'a',
        'l', '.',
    ]
}

/// The service type that nodes announce and browse for.
pub fn service_type() -> (r: &'static str)
    ensures
        r@ == service_type_text(),
{
    let r = "_forsyth._tcp.local.";
    proof {
        reveal_strlit("_forsyth._tcp.local.");
    }
    assert(r@ =~= service_type_text());
    r
}

/// The suffix that turns a host name into a local DNS name.
pub open spec fn local_suffix() -> Seq<char> {
    seq!['.', 'l', 'o', 'c', 'a', 'l', '.']
}

/// The local DNS name of a host: its name followed by `.local.`.
pub fn local_host_name(host: &str) -> (r: String)
    ensures
        r@ == host@ + local_suffix(),
{
    let mut r = String::from_str(host);
    push_char(&mut r, '.');
    push_char(&mut r, 'l');
    push_char(&mut r, 'o');
    push_char(&mut r, 'c');
    push_char(&mut r, 'a');
    push_char(&mut r, 'l');
    push_char(&mut r, '.');
    assert(r@ =~= host@ + local_suffix());
    r
}

/// The name of the property that carries a node's name.
pub open spec fn name_key() -> Seq<char> {
    seq!['n', 'a', 'm', 'e']
}

/// Why a node could not build its announcement.
#[derive(Debug, Clone, Copy, PartialEq, Eq)]
pub enum AdvertiseError {
    /// The address text does not parse as IP addresses.
    InvalidAddress,
    /// The node's name is too long for a TXT property (over 250 bytes).
    PropertyTooLong,
}

/// The record when the service library built one, else why not, given
/// whether the property fits.
pub fn advertisement_outcome(r: Result<ServiceRecord, mdns_sd::Error>, fits: bool) -> (out: Result<
    ServiceRecord,
    AdvertiseError,
>)
    ensures
        match r {
            Ok(x) => out == Ok::<ServiceRecord, AdvertiseError>(x),
            Err(_) => out == Err::<ServiceRecord, AdvertiseError>(
                if fits {
                    AdvertiseError::InvalidAddress
                } else {
                    AdvertiseError::PropertyTooLong
                },
            ),
        },
{
    match r {
        Ok(x) => Ok(x),
        Err(_) => Err(
            if fits {
                AdvertiseError::InvalidAddress
            } else {
                AdvertiseError::PropertyTooLong
            },
        ),
    }
}

/// The service type names no subtype.
proof fn lemma_service_type_plain()
    ensures
        !contains_text(service_type_text(), subtype_marker()),
{
    let t = service_type_text();
    let m = subtype_marker();
    assert forall|i: int| 0 <= i && i + m.len() <= t.len() implies #[trigger] t.subrange(i, i + m.len())
        != m by {
        if t.subrange(i, i + m.len()) == m {
            assert(t[i] == '.');
            assert(t[i + 1] == '_');
            assert(t[i + 2] == 's');
        }
    }
}

/// The announcement of a node's pairing service: the node's instance name
/// under the service type, on the local DNS name of `host`, at the addresses
/// of `ip` and at `port`, with the node's name as its one property, `name`.
/// It is refused when the name is too long for a property, or else when the
/// address text does not parse.
pub fn service_info(plan: &BroadcastPlan, host: &str, ip: &str, port: u16) -> (r: Result<
    ServiceRecord,
    AdvertiseError,
>)
    ensures
        r is Ok <==> ip_addresses(ip@) is Some && property_fits(name_key(), plan.name@),
        r == Err::<ServiceRecord, AdvertiseError>(AdvertiseError::PropertyTooLong) <==> !property_fits(
            name_key(),
            plan.name@,
        ),
        r == Err::<ServiceRecord, AdvertiseError>(AdvertiseError::InvalidAddress) <==> (
        property_fits(name_key(), plan.name@) && ip_addresses(ip@) is None),
        r is Ok ==> {
            let v = r->Ok_0@;
            &&& v.ty_domain == service_type_text()
            &&& v.fullname == escape_instance(plan.instance@) + seq!['.'] + service_type_text()
            &&& v.host == normalized_host(host@ + local_suffix())
            &&& v.addresses.to_set() == ip_addresses(ip@)->0
            &&& v.port == port
            &&& v.properties == seq![(name_key(), plan.name@)]
        },
{
    let host_name = local_host_name(host);
    let key = "name";
    proof {
        reveal_strlit("name");
        lemma_service_type_plain();
    }
    assert(key@ =~= name_key());
    assert(is_ascii_chars(name_key()));
    assert(!name_key().contains('='));
    assert(utf8_len(name_key()) == 4) by {
        reveal_with_fuel(utf8_len, 5);
    }
    let fits = fits_in_bytes(plan.name.as_str(), 250);
    assert(fits == property_fits(name_key(), plan.name@));
    let built = new_service_record(
        service_type(),
        plan.instance.as_str(),
        host_name.as_str(),
        ip,
        port,
        key,
        plan.name.as_str(),
    );
    advertisement_outcome(built, fits)
}

} // verus!
