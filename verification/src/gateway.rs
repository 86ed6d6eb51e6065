//! The gateway's configuration record.
//!
//! A one-shot lookup against the gateway's REST surface returns a JSON
//! object describing the gateway itself; the engine reads it to learn the
//! gateway's identity (served as the `gateway_info` gauge) and the port
//! of the event stream.  Fetching the text is the transport's concern;
//! decoding it is verified here.

use vstd::prelude::*;

use crate::event::{
    flat_get, flat_get_x, flat_view, fv_view, key_modelid, key_name, key_swversion, parse_flat_object,
    spec_flat_object, DecodeError, FlatVal, FlatValV,
};
use crate::json::{at, spec_ws, skip_ws};
use crate::util::copy_bytes;

verus! {

/// The object key `"apiversion"`.
pub open spec fn key_apiversion() -> Seq<u8> {
    seq![97u8, 112, 105, 118, 101, 114, 115, 105, 111, 110]
}

/// The object key `"bridgeid"`.
pub open spec fn key_bridgeid() -> Seq<u8> {
    seq![98u8, 114, 105, 100, 103, 101, 105, 100]
}

/// The object key `"devicename"`.
pub open spec fn key_devicename() -> Seq<u8> {
    seq![100u8, 101, 118, 105, 99, 101, 110, 97, 109, 101]
}

/// The object key `"dhcp"`.
pub open spec fn key_dhcp() -> Seq<u8> {
    seq![100u8, 104, 99, 112]
}

/// The object key `"gateway"`.
pub open spec fn key_gateway() -> Seq<u8> {
    seq![103u8, 97, 116, 101, 119, 97, 121]
}

/// The object key `"ipaddress"`.
pub open spec fn key_ipaddress() -> Seq<u8> {
    seq![105u8, 112, 97, 100, 100, 114, 101, 115, 115]
}

/// The object key `"linkbutton"`.
pub open spec fn key_linkbutton() -> Seq<u8> {
    seq![108u8, 105, 110, 107, 98, 117, 116, 116, 111, 110]
}

/// The object key `"mac"`.
pub open spec fn key_mac() -> Seq<u8> {
    seq![109u8, 97, 99]
}

/// The object key `"websocketport"`.
pub open spec fn key_websocketport() -> Seq<u8> {
    seq![119u8, 101, 98, 115, 111, 99, 107, 101, 116, 112, 111, 114, 116]
}

/// The object key `"zigbeechannel"`.
pub open spec fn key_zigbeechannel() -> Seq<u8> {
    seq![122u8, 105, 103, 98, 101, 101, 99, 104, 97, 110, 110, 101, 108]
}

pub(crate) fn key_apiversion_x() -> (r: Vec<u8>)
    ensures
        r@ == key_apiversion(),
{
    let v: Vec<u8> = vec![97, 112, 105, 118, 101, 114, 115, 105, 111, 110];
    proof {
        assert(v@ =~= key_apiversion());
    }
    v
}

fn key_bridgeid_x() -> (r: Vec<u8>)
    ensures
        r@ == key_bridgeid(),
{
    let v: Vec<u8> = vec![98, 114, 105, 100, 103, 101, 105, 100];
    proof {
        assert(v@ =~= key_bridgeid());
    }
    v
}

fn key_devicename_x() -> (r: Vec<u8>)
    ensures
        r@ == key_devicename(),
{
    let v: Vec<u8> = vec![100, 101, 118, 105, 99, 101, 110, 97, 109, 101];
    proof {
        assert(v@ =~= key_devicename());
    }
    v
}

fn key_dhcp_x() -> (r: Vec<u8>)
    ensures
        r@ == key_dhcp(),
{
    let v: Vec<u8> = vec![100, 104, 99, 112];
    proof {
        assert(v@ =~= key_dhcp());
    }
    v
}

fn key_gateway_x() -> (r: Vec<u8>)
    ensures
        r@ == key_gateway(),
{
    let v: Vec<u8> = vec![103, 97, 116, 101, 119, 97, 121];
    proof {
        assert(v@ =~= key_gateway());
    }
    v
}

fn key_ipaddress_x() -> (r: Vec<u8>)
    ensures
        r@ == key_ipaddress(),
{
    let v: Vec<u8> = vec![105, 112, 97, 100, 100, 114, 101, 115, 115];
    proof {
        assert(v@ =~= key_ipaddress());
    }
    v
}

fn key_linkbutton_x() -> (r: Vec<u8>)
    ensures
        r@ == key_linkbutton(),
{
    let v: Vec<u8> = vec![108, 105, 110, 107, 98, 117, 116, 116, 111, 110];
    proof {
        assert(v@ =~= key_linkbutton());
    }
    v
}

fn key_mac_x() -> (r: Vec<u8>)
    ensures
        r@ == key_mac(),
{
    let v: Vec<u8> = vec![109, 97, 99];
    proof {
        assert(v@ =~= key_mac());
    }
    v
}

fn key_modelid_x() -> (r: Vec<u8>)
    ensures
        r@ == key_modelid(),
{
    let v: Vec<u8> = vec![109, 111, 100, 101, 108, 105, 100];
    proof {
        assert(v@ =~= key_modelid());
    }
    v
}

fn key_name_x() -> (r: Vec<u8>)
    ensures
        r@ == key_name(),
{
    let v: Vec<u8> = vec![110, 97, 109, 101];
    proof {
        assert(v@ =~= key_name());
    }
    v
}

fn key_swversion_x() -> (r: Vec<u8>)
    ensures
        r@ == key_swversion(),
{
    let v: Vec<u8> = vec![115, 119, 118, 101, 114, 115, 105, 111, 110];
    proof {
        assert(v@ =~= key_swversion());
    }
    v
}

fn key_websocketport_x() -> (r: Vec<u8>)
    ensures
        r@ == key_websocketport(),
{
    let v: Vec<u8> = vec![119, 101, 98, 115, 111, 99, 107, 101, 116, 112, 111, 114, 116];
    proof {
        assert(v@ =~= key_websocketport());
    }
    v
}

fn key_zigbeechannel_x() -> (r: Vec<u8>)
    ensures
        r@ == key_zigbeechannel(),
{
    let v: Vec<u8> = vec![122, 105, 103, 98, 101, 101, 99, 104, 97, 110, 110, 101, 108];
    proof {
        assert(v@ =~= key_zigbeechannel());
    }
    v
}

/// The gateway's own configuration record.
#[derive(Debug)]
pub struct Gateway {
    pub apiversion: Vec<u8>,
    pub bridgeid: Vec<u8>,
    pub devicename: Vec<u8>,
    pub dhcp: bool,
    pub gateway: Vec<u8>,
    pub ipaddress: Vec<u8>,
    pub linkbutton: bool,
    pub mac: Vec<u8>,
    pub modelid: Vec<u8>,
    pub name: Vec<u8>,
    pub swversion: Vec<u8>,
    pub websocketport: u16,
    pub zigbeechannel: u8,
}

/// Specification twin of [`Gateway`].
pub struct GatewayV {
    pub apiversion: Seq<u8>,
    pub bridgeid: Seq<u8>,
    pub devicename: Seq<u8>,
    pub dhcp: bool,
    pub gateway: Seq<u8>,
    pub ipaddress: Seq<u8>,
    pub linkbutton: bool,
    pub mac: Seq<u8>,
    pub modelid: Seq<u8>,
    pub name: Seq<u8>,
    pub swversion: Seq<u8>,
    pub websocketport: u16,
    pub zigbeechannel: u8,
}

impl View for Gateway {
    type V = GatewayV;

    open spec fn view(&self) -> GatewayV {
        GatewayV {
            apiversion: self.apiversion@,
            bridgeid: self.bridgeid@,
            devicename: self.devicename@,
            dhcp: self.dhcp,
            gateway: self.gateway@,
            ipaddress: self.ipaddress@,
            linkbutton: self.linkbutton,
            mac: self.mac@,
            modelid: self.modelid@,
            name: self.name@,
            swversion: self.swversion@,
            websocketport: self.websocketport,
            zigbeechannel: self.zigbeechannel,
        }
    }
}

/// A required string field of the flattened record.
pub open spec fn flat_str(f: Seq<(Seq<u8>, FlatValV)>, k: Seq<u8>) -> Option<Seq<u8>> {
    match flat_get(f, k) {
        Some(FlatValV::S(v)) => Some(v),
        _ => None,
    }
}

/// A required boolean field of the flattened record.
pub open spec fn flat_bool(f: Seq<(Seq<u8>, FlatValV)>, k: Seq<u8>) -> Option<bool> {
    match flat_get(f, k) {
        Some(FlatValV::B(v)) => Some(v),
        _ => None,
    }
}

/// A required whole-number field of the flattened record, at most `cap`.
pub open spec fn flat_int(f: Seq<(Seq<u8>, FlatValV)>, k: Seq<u8>, cap: int) -> Option<int> {
    match flat_get(f, k) {
        Some(FlatValV::N(n)) => if n.scale == 0 && 0 <= n.mant <= cap {
            Some(n.mant as int)
        } else {
            None
        },
        _ => None,
    }
}

/// A gateway record read off a flattened object: eleven required strings
/// and booleans, the stream port, and the radio channel.
pub open spec fn gateway_of_flat(f: Seq<(Seq<u8>, FlatValV)>) -> Option<GatewayV> {
    match (
        flat_str(f, key_apiversion()),
        flat_str(f, key_bridgeid()),
        flat_str(f, key_devicename()),
        flat_bool(f, key_dhcp()),
        flat_str(f, key_gateway()),
        flat_str(f, key_ipaddress()),
        flat_bool(f, key_linkbutton()),
        flat_str(f, key_mac()),
        flat_str(f, key_modelid()),
        flat_str(f, key_name()),
        flat_str(f, key_swversion()),
        flat_int(f, key_websocketport(), 0xffff),
        flat_int(f, key_zigbeechannel(), 0xff),
    ) {
        (
            Some(av),
            Some(bid),
            Some(dn),
            Some(dh),
            Some(gw),
            Some(ip),
            Some(lb),
            Some(mc),
            Some(mo),
            Some(nm),
            Some(sw),
            Some(wp),
            Some(zc),
        ) => Some(
            GatewayV {
                apiversion: av,
                bridgeid: bid,
                devicename: dn,
                dhcp: dh,
                gateway: gw,
                ipaddress: ip,
                linkbutton: lb,
                mac: mc,
                modelid: mo,
                name: nm,
                swversion: sw,
                websocketport: wp as u16,
                zigbeechannel: zc as u8,
            },
        ),
        _ => None,
    }
}

/// The decoded gateway record of a whole configuration text.
pub open spec fn spec_gateway(s: Seq<u8>) -> Option<GatewayV> {
    let i = spec_ws(s, 0);
    match spec_flat_object(s, i, (s.len() + 1) as nat) {
        None => None,
        Some((f, j)) => {
            if spec_ws(s, j) == s.len() {
                gateway_of_flat(f)
            } else {
                None
            }
        },
    }
}

fn flat_str_x(f: &Vec<(Vec<u8>, FlatVal)>, k: &Vec<u8>) -> (r: Option<Vec<u8>>)
    ensures
        match r {
            Some(v) => flat_str(flat_view(f@), k@) == Some(v@),
            None => flat_str(flat_view(f@), k@) is None,
        },
{
    match flat_get_x(f, k) {
        Some(FlatVal::S(v)) => Some(copy_bytes(v)),
        _ => None,
    }
}

fn flat_bool_x(f: &Vec<(Vec<u8>, FlatVal)>, k: &Vec<u8>) -> (r: Option<bool>)
    ensures
        r == flat_bool(flat_view(f@), k@),
{
    match flat_get_x(f, k) {
        Some(FlatVal::B(v)) => Some(*v),
        _ => None,
    }
}

fn flat_u16_x(f: &Vec<(Vec<u8>, FlatVal)>, k: &Vec<u8>) -> (r: Option<u16>)
    ensures
        match r {
            Some(v) => flat_int(flat_view(f@), k@, 0xffff) == Some(v as int),
            None => flat_int(flat_view(f@), k@, 0xffff) is None,
        },
{
    match flat_get_x(f, k) {
        Some(FlatVal::N(n)) => {
            if n.scale == 0 && 0 <= n.mant && n.mant <= 0xffff {
                Some(n.mant as u16)
            } else {
                None
            }
        },
        _ => None,
    }
}

fn flat_u8_x(f: &Vec<(Vec<u8>, FlatVal)>, k: &Vec<u8>) -> (r: Option<u8>)
    ensures
        match r {
            Some(v) => flat_int(flat_view(f@), k@, 0xff) == Some(v as int),
            None => flat_int(flat_view(f@), k@, 0xff) is None,
        },
{
    match flat_get_x(f, k) {
        Some(FlatVal::N(n)) => {
            if n.scale == 0 && 0 <= n.mant && n.mant <= 0xff {
                Some(n.mant as u8)
            } else {
                None
            }
        },
        _ => None,
    }
}

/// Decode the configuration text into a gateway record, or reject it.
/// Exactly the texts accepted by [`spec_gateway`] decode; every other
/// text yields [`DecodeError::Malformed`].
pub fn gateway_from_text(s: &Vec<u8>) -> (r: Result<Gateway, DecodeError>)
    requires
        s@.len() < usize::MAX,
    ensures
        match r {
            Ok(gw) => spec_gateway(s@) == Some(gw@),
            Err(e) => spec_gateway(s@) is None && e == DecodeError::Malformed,
        },
{
    let i = skip_ws(s, 0);
    match parse_flat_object(s, i, s.len() + 1) {
        None => Err(DecodeError::Malformed),
        Some((f, j)) => {
            if skip_ws(s, j) != s.len() {
                return Err(DecodeError::Malformed);
            }
            let kav = key_apiversion_x();
            let kbid = key_bridgeid_x();
            let kdn = key_devicename_x();
            let kdh = key_dhcp_x();
            let kgw = key_gateway_x();
            let kip = key_ipaddress_x();
            let klb = key_linkbutton_x();
            let kmc = key_mac_x();
            let kmo = key_modelid_x();
            let knm = key_name_x();
            let ksw = key_swversion_x();
            let kwp = key_websocketport_x();
            let kzc = key_zigbeechannel_x();
            match (
                flat_str_x(&f, &kav),
                flat_str_x(&f, &kbid),
                flat_str_x(&f, &kdn),
                flat_bool_x(&f, &kdh),
                flat_str_x(&f, &kgw),
                flat_str_x(&f, &kip),
                flat_bool_x(&f, &klb),
                flat_str_x(&f, &kmc),
                flat_str_x(&f, &kmo),
                flat_str_x(&f, &knm),
                flat_str_x(&f, &ksw),
                flat_u16_x(&f, &kwp),
                flat_u8_x(&f, &kzc),
            ) {
                (
                    Some(av),
                    Some(bid),
                    Some(dn),
                    Some(dh),
                    Some(gw),
                    Some(ip),
                    Some(lb),
                    Some(mc),
                    Some(mo),
                    Some(nm),
                    Some(sw),
                    Some(wp),
                    Some(zc),
                ) => Ok(
                    Gateway {
                        apiversion: av,
                        bridgeid: bid,
                        devicename: dn,
                        dhcp: dh,
                        gateway: gw,
                        ipaddress: ip,
                        linkbutton: lb,
                        mac: mc,
                        modelid: mo,
                        name: nm,
                        swversion: sw,
                        websocketport: wp,
                        zigbeechannel: zc,
                    },
                ),
                _ => Err(DecodeError::Malformed),
            }
        },
    }
}

} // verus!
