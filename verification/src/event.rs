//! The event envelope and its decoder.
//!
//! A frame is one JSON object.  The engine reads the envelope fields it
//! acts on — message kind `t`, action `e`, resource `r`, the identifiers,
//! and the three optional payload sections `attr` (device identity),
//! `config` (device configuration) and `state` (raw readings) — and
//! tolerates any other field, whatever its value.  A frame that is not
//! well-formed JSON, or whose required or recognized fields have the
//! wrong shape, yields a decode error and nothing else.

use vstd::prelude::*;

use crate::json::{
    at, is_digit, spec_false_at, spec_null_at, spec_number, spec_skip_value, spec_string,
    spec_true_at, spec_ws, false_at, null_at, parse_number, parse_string, skip_value, skip_ws,
    true_at,
};
use crate::num::Num;
use crate::util::{copy_bytes, eq_bytes};

verus! {

/// A flattened member value: strings, readings and booleans are kept;
/// nested containers are passed over; anything else is malformed.
pub enum FlatVal {
    S(Vec<u8>),
    N(Num),
    B(bool),
    Null,
    Other,
}

/// Specification twin of [`FlatVal`].
pub enum FlatValV {
    S(Seq<u8>),
    N(Num),
    B(bool),
    Null,
    Other,
}

/// The view of a flattened member value.
pub open spec fn fv_view(v: FlatVal) -> FlatValV {
    match v {
        FlatVal::S(b) => FlatValV::S(b@),
        FlatVal::N(n) => FlatValV::N(n),
        FlatVal::B(b) => FlatValV::B(b),
        FlatVal::Null => FlatValV::Null,
        FlatVal::Other => FlatValV::Other,
    }
}

/// The view of a flattened object: keys and values, in order of appearance.
pub open spec fn flat_view(f: Seq<(Vec<u8>, FlatVal)>) -> Seq<(Seq<u8>, FlatValV)> {
    f.map_values(|p: (Vec<u8>, FlatVal)| (p.0@, fv_view(p.1)))
}

/// Well-formedness of a flattened value: any reading in it fits the
/// engine's decimal form.
pub open spec fn fv_wf(v: FlatVal) -> bool {
    match v {
        FlatVal::N(n) => n.wf() && n.scale <= crate::num::MAX_SCALE_IN,
        _ => true,
    }
}

/// One flattened member value at `i`: a string, a literal, a reading, or
/// a passed-over container.
pub open spec fn spec_flat_val(s: Seq<u8>, i: int, fuel: nat) -> Option<(FlatValV, int)> {
    if at(s, i, 34) {
        match spec_string(s, i) {
            Some((v, j)) => Some((FlatValV::S(v), j)),
            None => None,
        }
    } else if at(s, i, 116) {
        if spec_true_at(s, i) {
            Some((FlatValV::B(true), i + 4))
        } else {
            None
        }
    } else if at(s, i, 102) {
        if spec_false_at(s, i) {
            Some((FlatValV::B(false), i + 5))
        } else {
            None
        }
    } else if at(s, i, 110) {
        if spec_null_at(s, i) {
            Some((FlatValV::Null, i + 4))
        } else {
            None
        }
    } else if at(s, i, 45) || (0 <= i < s.len() && is_digit(s[i])) {
        match spec_number(s, i) {
            Some((n, j)) => Some((FlatValV::N(n), j)),
            None => None,
        }
    } else {
        match spec_skip_value(s, i, fuel) {
            Some(j) => Some((FlatValV::Other, j)),
            None => None,
        }
    }
}

/// Read one flattened member value at `i`.
pub fn flat_val(s: &Vec<u8>, i: usize, fuel: usize) -> (r: Option<(FlatVal, usize)>)
    requires
        i <= s.len(),
    ensures
        match r {
            Some((v, j)) => spec_flat_val(s@, i as int, fuel as nat) == Some(
                (fv_view(v), j as int),
            ) && j <= s.len() && fv_wf(v),
            None => spec_flat_val(s@, i as int, fuel as nat) is None,
        },
{
    if i < s.len() && s[i] == 34 {
        match parse_string(s, i) {
            Some((v, j)) => Some((FlatVal::S(v), j)),
            None => None,
        }
    } else if i < s.len() && s[i] == 116 {
        if true_at(s, i) {
            Some((FlatVal::B(true), i + 4))
        } else {
            None
        }
    } else if i < s.len() && s[i] == 102 {
        if false_at(s, i) {
            Some((FlatVal::B(false), i + 5))
        } else {
            None
        }
    } else if i < s.len() && s[i] == 110 {
        if null_at(s, i) {
            Some((FlatVal::Null, i + 4))
        } else {
            None
        }
    } else if i < s.len() && (s[i] == 45 || (48 <= s[i] && s[i] <= 57)) {
        match parse_number(s, i) {
            Some((n, j)) => Some((FlatVal::N(n), j)),
            None => None,
        }
    } else {
        match skip_value(s, i, fuel) {
            Some(j) => Some((FlatVal::Other, j)),
            None => None,
        }
    }
}

/// The value of the last member named `k`, if any: a later member of the
/// same name overwrites an earlier one.
pub open spec fn flat_get(f: Seq<(Seq<u8>, FlatValV)>, k: Seq<u8>) -> Option<FlatValV>
    decreases f.len(),
{
    if f.len() == 0 {
        None
    } else if f.last().0 == k {
        Some(f.last().1)
    } else {
        flat_get(f.drop_last(), k)
    }
}

/// Find the last member named `k`.
pub fn flat_get_x<'a>(f: &'a Vec<(Vec<u8>, FlatVal)>, k: &Vec<u8>) -> (r: Option<&'a FlatVal>)
    ensures
        match r {
            Some(v) => flat_get(flat_view(f@), k@) == Some(fv_view(*v)) && (exists|ix: int|
                0 <= ix < f@.len() && f@[ix].1 == *v),
            None => flat_get(flat_view(f@), k@) is None,
        },
{
    let mut i: usize = f.len();
    proof {
        assert(flat_view(f@).subrange(0, f@.len() as int) =~= flat_view(f@));
    }
    while i > 0
        invariant
            i <= f.len(),
            flat_view(f@).len() == f@.len(),
            flat_get(flat_view(f@), k@) == flat_get(flat_view(f@).subrange(0, i as int), k@),
        decreases i,
    {
        i = i - 1;
        proof {
            assert(flat_view(f@).subrange(0, (i + 1) as int).drop_last() =~= flat_view(
                f@,
            ).subrange(0, i as int));
            assert(flat_view(f@).subrange(0, (i + 1) as int).last() == flat_view(f@)[i as int]);
        }
        if eq_bytes(&f[i].0, k) {
            return Some(&f[i].1);
        }
    }
    None
}

/// The members of a flattened object, from the first byte of a key,
/// appended to `acc`; the result is all members and the position after
/// the closing brace.
pub open spec fn spec_flat_members(
    s: Seq<u8>,
    i: int,
    fuel: nat,
    acc: Seq<(Seq<u8>, FlatValV)>,
) -> Option<(Seq<(Seq<u8>, FlatValV)>, int)>
    decreases fuel,
{
    if fuel == 0 {
        None
    } else {
        match spec_string(s, i) {
            None => None,
            Some((k, j)) => {
                let j2 = spec_ws(s, j);
                if !at(s, j2, 58) {
                    None
                } else {
                    match spec_flat_val(s, spec_ws(s, j2 + 1), fuel) {
                        None => None,
                        Some((v, j3)) => {
                            let j4 = spec_ws(s, j3);
                            if at(s, j4, 44) {
                                spec_flat_members(
                                    s,
                                    spec_ws(s, j4 + 1),
                                    (fuel - 1) as nat,
                                    acc.push((k, v)),
                                )
                            } else if at(s, j4, 125) {
                                Some((acc.push((k, v)), j4 + 1))
                            } else {
                                None
                            }
                        },
                    }
                }
            },
        }
    }
}

/// A whole flattened object at `i`: `{`, members, `}`.
pub open spec fn spec_flat_object(s: Seq<u8>, i: int, fuel: nat) -> Option<
    (Seq<(Seq<u8>, FlatValV)>, int),
> {
    if !at(s, i, 123) {
        None
    } else {
        let j = spec_ws(s, i + 1);
        if at(s, j, 125) {
            Some((Seq::empty(), j + 1))
        } else {
            spec_flat_members(s, j, fuel, Seq::empty())
        }
    }
}

fn flat_members(s: &Vec<u8>, i: usize, fuel: usize, acc: Vec<(Vec<u8>, FlatVal)>) -> (r: Option<
    (Vec<(Vec<u8>, FlatVal)>, usize),
>)
    requires
        i <= s.len(),
        forall|ix: int| 0 <= ix < acc@.len() ==> fv_wf(acc@[ix].1),
    ensures
        match r {
            Some((f, j)) => spec_flat_members(s@, i as int, fuel as nat, flat_view(acc@)) == Some(
                (flat_view(f@), j as int),
            ) && j <= s.len() && (forall|ix: int| 0 <= ix < f@.len() ==> fv_wf(f@[ix].1)),
            None => spec_flat_members(s@, i as int, fuel as nat, flat_view(acc@)) is None,
        },
    decreases fuel,
{
    if fuel == 0 {
        return None;
    }
    match parse_string(s, i) {
        None => None,
        Some((k, j)) => {
            let j2 = skip_ws(s, j);
            if !(j2 < s.len() && s[j2] == 58) {
                None
            } else {
                match flat_val(s, skip_ws(s, j2 + 1), fuel) {
                    None => None,
                    Some((v, j3)) => {
                        let j4 = skip_ws(s, j3);
                        let ghost acc0 = flat_view(acc@);
                        let ghost kv = (k@, fv_view(v));
                        let mut acc2 = acc;
                        acc2.push((k, v));
                        proof {
                            assert(flat_view(acc2@) =~= acc0.push(kv));
                        }
                        if j4 < s.len() && s[j4] == 44 {
                            flat_members(s, skip_ws(s, j4 + 1), fuel - 1, acc2)
                        } else if j4 < s.len() && s[j4] == 125 {
                            Some((acc2, j4 + 1))
                        } else {
                            None
                        }
                    },
                }
            }
        },
    }
}

/// Read a whole flattened object at `i`.
pub fn parse_flat_object(s: &Vec<u8>, i: usize, fuel: usize) -> (r: Option<
    (Vec<(Vec<u8>, FlatVal)>, usize),
>)
    requires
        i <= s.len(),
    ensures
        match r {
            Some((f, j)) => spec_flat_object(s@, i as int, fuel as nat) == Some(
                (flat_view(f@), j as int),
            ) && j <= s.len() && (forall|ix: int| 0 <= ix < f@.len() ==> fv_wf(f@[ix].1)),
            None => spec_flat_object(s@, i as int, fuel as nat) is None,
        },
{
    if !(i < s.len() && s[i] == 123) {
        return None;
    }
    let j = skip_ws(s, i + 1);
    if j < s.len() && s[j] == 125 {
        let f: Vec<(Vec<u8>, FlatVal)> = Vec::new();
        proof {
            assert(flat_view(f@) =~= Seq::<(Seq<u8>, FlatValV)>::empty());
        }
        Some((f, j + 1))
    } else {
        let f: Vec<(Vec<u8>, FlatVal)> = Vec::new();
        proof {
            assert(flat_view(f@) =~= Seq::<(Seq<u8>, FlatValV)>::empty());
        }
        flat_members(s, j, fuel, f)
    }
}

/// The object key `"t"`.
pub open spec fn key_t() -> Seq<u8> {
    seq![116u8]
}

/// The object key `"e"`.
pub open spec fn key_e() -> Seq<u8> {
    seq![101u8]
}

/// The object key `"r"`.
pub open spec fn key_r() -> Seq<u8> {
    seq![114u8]
}

/// The object key `"id"`.
pub open spec fn key_id() -> Seq<u8> {
    seq![105u8, 100]
}

/// The object key `"uniqueid"`.
pub open spec fn key_uniqueid() -> Seq<u8> {
    seq![117u8, 110, 105, 113, 117, 101, 105, 100]
}

/// The object key `"attr"`.
pub open spec fn key_attr() -> Seq<u8> {
    seq![97u8, 116, 116, 114]
}

/// The object key `"config"`.
pub open spec fn key_config() -> Seq<u8> {
    seq![99u8, 111, 110, 102, 105, 103]
}

/// The object key `"state"`.
pub open spec fn key_state() -> Seq<u8> {
    seq![115u8, 116, 97, 116, 101]
}

/// The object key `"manufacturername"`.
pub open spec fn key_manufacturername() -> Seq<u8> {
    seq![109u8, 97, 110, 117, 102, 97, 99, 116, 117, 114, 101, 114, 110, 97, 109, 101]
}

/// The object key `"modelid"`.
pub open spec fn key_modelid() -> Seq<u8> {
    seq![109u8, 111, 100, 101, 108, 105, 100]
}

/// The object key `"name"`.
pub open spec fn key_name() -> Seq<u8> {
    seq![110u8, 97, 109, 101]
}

/// The object key `"swversion"`.
pub open spec fn key_swversion() -> Seq<u8> {
    seq![115u8, 119, 118, 101, 114, 115, 105, 111, 110]
}

/// The object key `"type"`.
pub open spec fn key_type() -> Seq<u8> {
    seq![116u8, 121, 112, 101]
}

/// The object key `"battery"`.
pub open spec fn key_battery() -> Seq<u8> {
    seq![98u8, 97, 116, 116, 101, 114, 121]
}

/// The object key `"offset"`.
pub open spec fn key_offset() -> Seq<u8> {
    seq![111u8, 102, 102, 115, 101, 116]
}

/// The object key `"on"`.
pub open spec fn key_on() -> Seq<u8> {
    seq![111u8, 110]
}

/// The object key `"reachable"`.
pub open spec fn key_reachable() -> Seq<u8> {
    seq![114u8, 101, 97, 99, 104, 97, 98, 108, 101]
}

fn key_t_x() -> (r: Vec<u8>)
    ensures
        r@ == key_t(),
{
    let v: Vec<u8> = vec![116];
    proof {
        assert(v@ =~= key_t());
    }
    v
}

fn key_e_x() -> (r: Vec<u8>)
    ensures
        r@ == key_e(),
{
    let v: Vec<u8> = vec![101];
    proof {
        assert(v@ =~= key_e());
    }
    v
}

fn key_r_x() -> (r: Vec<u8>)
    ensures
        r@ == key_r(),
{
    let v: Vec<u8> = vec![114];
    proof {
        assert(v@ =~= key_r());
    }
    v
}

fn key_id_x() -> (r: Vec<u8>)
    ensures
        r@ == key_id(),
{
    let v: Vec<u8> = vec![105, 100];
    proof {
        assert(v@ =~= key_id());
    }
    v
}

fn key_uniqueid_x() -> (r: Vec<u8>)
    ensures
        r@ == key_uniqueid(),
{
    let v: Vec<u8> = vec![117, 110, 105, 113, 117, 101, 105, 100];
    proof {
        assert(v@ =~= key_uniqueid());
    }
    v
}

fn key_attr_x() -> (r: Vec<u8>)
    ensures
        r@ == key_attr(),
{
    let v: Vec<u8> = vec![97, 116, 116, 114];
    proof {
        assert(v@ =~= key_attr());
    }
    v
}

fn key_config_x() -> (r: Vec<u8>)
    ensures
        r@ == key_config(),
{
    let v: Vec<u8> = vec![99, 111, 110, 102, 105, 103];
    proof {
        assert(v@ =~= key_config());
    }
    v
}

fn key_state_x() -> (r: Vec<u8>)
    ensures
        r@ == key_state(),
{
    let v: Vec<u8> = vec![115, 116, 97, 116, 101];
    proof {
        assert(v@ =~= key_state());
    }
    v
}

pub(crate) fn key_manufacturername_x() -> (r: Vec<u8>)
    ensures
        r@ == key_manufacturername(),
{
    let v: Vec<u8> = vec![109, 97, 110, 117, 102, 97, 99, 116, 117, 114, 101, 114, 110, 97, 109,
        101];
    proof {
        assert(v@ =~= key_manufacturername());
    }
    v
}

pub(crate) fn key_modelid_x() -> (r: Vec<u8>)
    ensures
        r@ == key_modelid(),
{
    let v: Vec<u8> = vec![109, 111, 100, 101, 108, 105, 100];
    proof {
        assert(v@ =~= key_modelid());
    }
    v
}

pub(crate) fn key_name_x() -> (r: Vec<u8>)
    ensures
        r@ == key_name(),
{
    let v: Vec<u8> = vec![110, 97, 109, 101];
    proof {
        assert(v@ =~= key_name());
    }
    v
}

pub(crate) fn key_swversion_x() -> (r: Vec<u8>)
    ensures
        r@ == key_swversion(),
{
    let v: Vec<u8> = vec![115, 119, 118, 101, 114, 115, 105, 111, 110];
    proof {
        assert(v@ =~= key_swversion());
    }
    v
}

pub(crate) fn key_type_x() -> (r: Vec<u8>)
    ensures
        r@ == key_type(),
{
    let v: Vec<u8> = vec![116, 121, 112, 101];
    proof {
        assert(v@ =~= key_type());
    }
    v
}

fn key_battery_x() -> (r: Vec<u8>)
    ensures
        r@ == key_battery(),
{
    let v: Vec<u8> = vec![98, 97, 116, 116, 101, 114, 121];
    proof {
        assert(v@ =~= key_battery());
    }
    v
}

fn key_offset_x() -> (r: Vec<u8>)
    ensures
        r@ == key_offset(),
{
    let v: Vec<u8> = vec![111, 102, 102, 115, 101, 116];
    proof {
        assert(v@ =~= key_offset());
    }
    v
}

fn key_on_x() -> (r: Vec<u8>)
    ensures
        r@ == key_on(),
{
    let v: Vec<u8> = vec![111, 110];
    proof {
        assert(v@ =~= key_on());
    }
    v
}

fn key_reachable_x() -> (r: Vec<u8>)
    ensures
        r@ == key_reachable(),
{
    let v: Vec<u8> = vec![114, 101, 97, 99, 104, 97, 98, 108, 101];
    proof {
        assert(v@ =~= key_reachable());
    }
    v
}

/// The last-known identity of a sensor: human-readable labels stored when
/// an identity event arrives and attached to every later reading.
#[derive(Debug)]
pub struct Sensor {
    pub manufacturername: Vec<u8>,
    pub modelid: Vec<u8>,
    pub name: Vec<u8>,
    pub swversion: Option<Vec<u8>>,
    pub tipe: Vec<u8>,
    pub uniqueid: Vec<u8>,
}

/// Specification twin of [`Sensor`].
pub struct SensorV {
    pub manufacturername: Seq<u8>,
    pub modelid: Seq<u8>,
    pub name: Seq<u8>,
    pub swversion: Option<Seq<u8>>,
    pub tipe: Seq<u8>,
    pub uniqueid: Seq<u8>,
}

impl View for Sensor {
    type V = SensorV;

    open spec fn view(&self) -> SensorV {
        SensorV {
            manufacturername: self.manufacturername@,
            modelid: self.modelid@,
            name: self.name@,
            swversion: match self.swversion {
                Some(v) => Some(v@),
                None => None,
            },
            tipe: self.tipe@,
            uniqueid: self.uniqueid@,
        }
    }
}

/// A sensor's configuration section: battery percentage, calibration
/// offset, and the on/reachable flags.
#[derive(Clone, Copy, Debug, PartialEq, Eq, Structural)]
pub struct SensorConfig {
    pub battery: Num,
    pub offset: Num,
    pub on: bool,
    pub reachable: bool,
}

/// The view of a state section: reading keys in order of appearance, each
/// with its numeric value, or nothing where the value is not a number.
pub open spec fn state_view(v: Seq<(Vec<u8>, Option<Num>)>) -> Seq<(Seq<u8>, Option<Num>)> {
    v.map_values(|p: (Vec<u8>, Option<Num>)| (p.0@, p.1))
}

/// A decoded event envelope.
#[derive(Debug)]
pub struct Event {
    /// Message kind (`t`); the engine acts only on `"event"`.
    pub type_: Vec<u8>,
    /// Action (`e`): `added`, `changed`, `deleted` or `scene-called`.
    pub event: Vec<u8>,
    /// Resource kind (`r`): `groups`, `lights`, `scenes` or `sensors`.
    pub resource: Vec<u8>,
    /// Device identifier the message relates to.
    pub id: Vec<u8>,
    /// Stable hardware identifier.
    pub uniqueid: Vec<u8>,
    /// Identity payload, when the frame carries one.
    pub attr: Option<Sensor>,
    /// Configuration payload, when the frame carries one.
    pub config: Option<SensorConfig>,
    /// State payload: raw readings keyed by reading kind.
    pub state: Vec<(Vec<u8>, Option<Num>)>,
}

/// Specification twin of [`Event`].
pub struct EventV {
    pub type_: Seq<u8>,
    pub event: Seq<u8>,
    pub resource: Seq<u8>,
    pub id: Seq<u8>,
    pub uniqueid: Seq<u8>,
    pub attr: Option<SensorV>,
    pub config: Option<SensorConfig>,
    pub state: Seq<(Seq<u8>, Option<Num>)>,
}

impl View for Event {
    type V = EventV;

    open spec fn view(&self) -> EventV {
        EventV {
            type_: self.type_@,
            event: self.event@,
            resource: self.resource@,
            id: self.id@,
            uniqueid: self.uniqueid@,
            attr: match self.attr {
                Some(sn) => Some(sn@),
                None => None,
            },
            config: self.config,
            state: state_view(self.state@),
        }
    }
}

impl EventV {
    /// Every reading carried by the envelope fits the engine's decimal
    /// form and may still be normalized.
    pub open spec fn wf(self) -> bool {
        &&& forall|i: int|
            0 <= i < self.state.len() ==> (#[trigger] self.state[i].1 matches Some(n) ==> n.wf()
                && n.scale <= crate::num::MAX_SCALE_IN)
        &&& self.config matches Some(c) ==> (c.battery.wf() && c.battery.scale
            <= crate::num::MAX_SCALE_IN && c.offset.wf() && c.offset.scale
            <= crate::num::MAX_SCALE_IN)
    }
}

/// A sensor identity read off a flattened `attr` object: the five label
/// fields are required strings; the firmware version may be missing or
/// null.
pub open spec fn sensor_of_flat(f: Seq<(Seq<u8>, FlatValV)>) -> Option<SensorV> {
    match (
        flat_get(f, key_manufacturername()),
        flat_get(f, key_modelid()),
        flat_get(f, key_name()),
        flat_get(f, key_type()),
        flat_get(f, key_uniqueid()),
    ) {
        (
            Some(FlatValV::S(ma)),
            Some(FlatValV::S(mo)),
            Some(FlatValV::S(nm)),
            Some(FlatValV::S(tp)),
            Some(FlatValV::S(uq)),
        ) => {
            match flat_get(f, key_swversion()) {
                None => Some(
                    SensorV {
                        manufacturername: ma,
                        modelid: mo,
                        name: nm,
                        swversion: None,
                        tipe: tp,
                        uniqueid: uq,
                    },
                ),
                Some(FlatValV::Null) => Some(
                    SensorV {
                        manufacturername: ma,
                        modelid: mo,
                        name: nm,
                        swversion: None,
                        tipe: tp,
                        uniqueid: uq,
                    },
                ),
                Some(FlatValV::S(sw)) => Some(
                    SensorV {
                        manufacturername: ma,
                        modelid: mo,
                        name: nm,
                        swversion: Some(sw),
                        tipe: tp,
                        uniqueid: uq,
                    },
                ),
                Some(_) => None,
            }
        },
        _ => None,
    }
}

/// A configuration section read off a flattened `config` object: battery
/// and offset are required readings, the two flags required booleans.
pub open spec fn config_of_flat(f: Seq<(Seq<u8>, FlatValV)>) -> Option<SensorConfig> {
    match (
        flat_get(f, key_battery()),
        flat_get(f, key_offset()),
        flat_get(f, key_on()),
        flat_get(f, key_reachable()),
    ) {
        (
            Some(FlatValV::N(b)),
            Some(FlatValV::N(o)),
            Some(FlatValV::B(on)),
            Some(FlatValV::B(re)),
        ) => Some(SensorConfig { battery: b, offset: o, on: on, reachable: re }),
        _ => None,
    }
}

/// A state section read off a flattened `state` object: every member is
/// kept in order, numeric values as readings, any other value as nothing.
pub open spec fn state_of_flat(f: Seq<(Seq<u8>, FlatValV)>) -> Seq<(Seq<u8>, Option<Num>)> {
    f.map_values(
        |p: (Seq<u8>, FlatValV)|
            (
                p.0,
                match p.1 {
                    FlatValV::N(n) => Some(n),
                    _ => None,
                },
            ),
    )
}

fn sensor_of_flat_x(f: &Vec<(Vec<u8>, FlatVal)>) -> (r: Option<Sensor>)
    ensures
        match r {
            Some(sn) => sensor_of_flat(flat_view(f@)) == Some(sn@),
            None => sensor_of_flat(flat_view(f@)) is None,
        },
{
    let kma = key_manufacturername_x();
    let ma: Vec<u8> = match flat_get_x(f, &kma) {
        Some(FlatVal::S(v)) => copy_bytes(v),
        _ => {
            return None;
        },
    };
    let kmo = key_modelid_x();
    let mo: Vec<u8> = match flat_get_x(f, &kmo) {
        Some(FlatVal::S(v)) => copy_bytes(v),
        _ => {
            return None;
        },
    };
    let knm = key_name_x();
    let nm: Vec<u8> = match flat_get_x(f, &knm) {
        Some(FlatVal::S(v)) => copy_bytes(v),
        _ => {
            return None;
        },
    };
    let ktp = key_type_x();
    let tp: Vec<u8> = match flat_get_x(f, &ktp) {
        Some(FlatVal::S(v)) => copy_bytes(v),
        _ => {
            return None;
        },
    };
    let kuq = key_uniqueid_x();
    let uq: Vec<u8> = match flat_get_x(f, &kuq) {
        Some(FlatVal::S(v)) => copy_bytes(v),
        _ => {
            return None;
        },
    };
    let ksw = key_swversion_x();
    let sw: Option<Vec<u8>> = match flat_get_x(f, &ksw) {
        None => None,
        Some(FlatVal::Null) => None,
        Some(FlatVal::S(v)) => Some(copy_bytes(v)),
        Some(_) => {
            return None;
        },
    };
    Some(
        Sensor {
            manufacturername: ma,
            modelid: mo,
            name: nm,
            swversion: sw,
            tipe: tp,
            uniqueid: uq,
        },
    )
}

fn config_of_flat_x(f: &Vec<(Vec<u8>, FlatVal)>) -> (r: Option<SensorConfig>)
    requires
        forall|ix: int| 0 <= ix < f@.len() ==> fv_wf(#[trigger] f@[ix].1),
    ensures
        match r {
            Some(c) => config_of_flat(flat_view(f@)) == Some(c) && c.battery.wf()
                && c.battery.scale <= crate::num::MAX_SCALE_IN && c.offset.wf() && c.offset.scale
                <= crate::num::MAX_SCALE_IN,
            None => config_of_flat(flat_view(f@)) is None,
        },
{
    let kb = key_battery_x();
    let b: Num = match flat_get_x(f, &kb) {
        Some(FlatVal::N(n)) => *n,
        _ => {
            return None;
        },
    };
    let ko = key_offset_x();
    let o: Num = match flat_get_x(f, &ko) {
        Some(FlatVal::N(n)) => *n,
        _ => {
            return None;
        },
    };
    let kon = key_on_x();
    let on: bool = match flat_get_x(f, &kon) {
        Some(FlatVal::B(v)) => *v,
        _ => {
            return None;
        },
    };
    let kre = key_reachable_x();
    let re: bool = match flat_get_x(f, &kre) {
        Some(FlatVal::B(v)) => *v,
        _ => {
            return None;
        },
    };
    Some(SensorConfig { battery: b, offset: o, on: on, reachable: re })
}

fn state_of_flat_x(f: Vec<(Vec<u8>, FlatVal)>) -> (r: Vec<(Vec<u8>, Option<Num>)>)
    requires
        forall|ix: int| 0 <= ix < f@.len() ==> fv_wf(#[trigger] f@[ix].1),
    ensures
        state_view(r@) == state_of_flat(flat_view(f@)),
        forall|ix: int|
            0 <= ix < r@.len() ==> (#[trigger] r@[ix].1 matches Some(n) ==> n.wf() && n.scale
                <= crate::num::MAX_SCALE_IN),
{
    let mut out: Vec<(Vec<u8>, Option<Num>)> = Vec::new();
    let mut i: usize = 0;
    proof {
        assert(state_view(out@) =~= state_of_flat(flat_view(f@).subrange(0, 0)));
    }
    while i < f.len()
        invariant
            i <= f.len(),
            forall|ix: int| 0 <= ix < f@.len() ==> fv_wf(#[trigger] f@[ix].1),
            state_view(out@) == state_of_flat(flat_view(f@).subrange(0, i as int)),
            forall|ix: int|
                0 <= ix < out@.len() ==> (#[trigger] out@[ix].1 matches Some(n) ==> n.wf()
                    && n.scale <= crate::num::MAX_SCALE_IN),
        decreases f.len() - i,
    {
        let k: Vec<u8> = copy_bytes(&f[i].0);
        let nv: Option<Num> = match &f[i].1 {
            FlatVal::N(n) => Some(*n),
            _ => None,
        };
        out.push((k, nv));
        i = i + 1;
        proof {
            let fv = flat_view(f@);
            assert(fv.subrange(0, i as int) =~= fv.subrange(0, (i - 1) as int).push(
                fv[(i - 1) as int],
            ));
            assert(state_of_flat(fv.subrange(0, i as int)) =~= state_of_flat(
                fv.subrange(0, (i - 1) as int),
            ).push(state_of_flat(fv.subrange(0, i as int)).last()));
            assert(state_view(out@) =~= state_of_flat(fv.subrange(0, i as int)));
        }
    }
    proof {
        assert(flat_view(f@).subrange(0, f@.len() as int) =~= flat_view(f@));
    }
    out
}

/// A sensor identity section at `i`: a flattened object holding a valid
/// identity.
pub open spec fn spec_sensor_at(s: Seq<u8>, i: int, fuel: nat) -> Option<(SensorV, int)> {
    match spec_flat_object(s, i, fuel) {
        Some((f, j)) => match sensor_of_flat(f) {
            Some(sv) => Some((sv, j)),
            None => None,
        },
        None => None,
    }
}

/// A configuration section at `i`: a flattened object holding a valid
/// configuration.
pub open spec fn spec_config_at(s: Seq<u8>, i: int, fuel: nat) -> Option<(SensorConfig, int)> {
    match spec_flat_object(s, i, fuel) {
        Some((f, j)) => match config_of_flat(f) {
            Some(c) => Some((c, j)),
            None => None,
        },
        None => None,
    }
}

/// A state section at `i`: any flattened object.
pub open spec fn spec_state_at(s: Seq<u8>, i: int, fuel: nat) -> Option<
    (Seq<(Seq<u8>, Option<Num>)>, int),
> {
    match spec_flat_object(s, i, fuel) {
        Some((f, j)) => Some((state_of_flat(f), j)),
        None => None,
    }
}

/// What has been gathered from an envelope's members so far.
pub struct EventAccV {
    pub t: Option<Seq<u8>>,
    pub e: Option<Seq<u8>>,
    pub r: Option<Seq<u8>>,
    pub id: Option<Seq<u8>>,
    pub uniqueid: Option<Seq<u8>>,
    pub attr: Option<SensorV>,
    pub config: Option<SensorConfig>,
    pub state: Option<Seq<(Seq<u8>, Option<Num>)>>,
}

/// The empty gathering.
pub open spec fn event_acc0() -> EventAccV {
    EventAccV {
        t: None,
        e: None,
        r: None,
        id: None,
        uniqueid: None,
        attr: None,
        config: None,
        state: None,
    }
}

/// The members of an envelope, from the first byte of a key.  Recognized
/// fields must have their shape; any other field is tolerated with any
/// value; a later field overwrites an earlier one of the same name.
pub open spec fn spec_event_members(s: Seq<u8>, i: int, fuel: nat, acc: EventAccV) -> Option<
    (EventAccV, int),
>
    decreases fuel,
{
    if fuel == 0 {
        None
    } else {
        match spec_string(s, i) {
            None => None,
            Some((k, j)) => {
                let j2 = spec_ws(s, j);
                if !at(s, j2, 58) {
                    None
                } else {
                    let v0 = spec_ws(s, j2 + 1);
                    let step: Option<(EventAccV, int)> = if k == key_t() {
                        match spec_string(s, v0) {
                            Some((v, j3)) => Some((EventAccV { t: Some(v), ..acc }, j3)),
                            None => None,
                        }
                    } else if k == key_e() {
                        match spec_string(s, v0) {
                            Some((v, j3)) => Some((EventAccV { e: Some(v), ..acc }, j3)),
                            None => None,
                        }
                    } else if k == key_r() {
                        match spec_string(s, v0) {
                            Some((v, j3)) => Some((EventAccV { r: Some(v), ..acc }, j3)),
                            None => None,
                        }
                    } else if k == key_id() {
                        match spec_string(s, v0) {
                            Some((v, j3)) => Some((EventAccV { id: Some(v), ..acc }, j3)),
                            None => None,
                        }
                    } else if k == key_uniqueid() {
                        match spec_string(s, v0) {
                            Some((v, j3)) => Some((EventAccV { uniqueid: Some(v), ..acc }, j3)),
                            None => None,
                        }
                    } else if k == key_attr() {
                        if spec_null_at(s, v0) {
                            Some((EventAccV { attr: None, ..acc }, v0 + 4))
                        } else {
                            match spec_sensor_at(s, v0, fuel) {
                                Some((sv, j3)) => Some((EventAccV { attr: Some(sv), ..acc }, j3)),
                                None => None,
                            }
                        }
                    } else if k == key_config() {
                        if spec_null_at(s, v0) {
                            Some((EventAccV { config: None, ..acc }, v0 + 4))
                        } else {
                            match spec_config_at(s, v0, fuel) {
                                Some((c, j3)) => Some((EventAccV { config: Some(c), ..acc }, j3)),
                                None => None,
                            }
                        }
                    } else if k == key_state() {
                        match spec_state_at(s, v0, fuel) {
                            Some((st, j3)) => Some((EventAccV { state: Some(st), ..acc }, j3)),
                            None => None,
                        }
                    } else {
                        match spec_skip_value(s, v0, fuel) {
                            Some(j3) => Some((acc, j3)),
                            None => None,
                        }
                    };
                    match step {
                        None => None,
                        Some((acc2, j3)) => {
                            let j4 = spec_ws(s, j3);
                            if at(s, j4, 44) {
                                spec_event_members(s, spec_ws(s, j4 + 1), (fuel - 1) as nat, acc2)
                            } else if at(s, j4, 125) {
                                Some((acc2, j4 + 1))
                            } else {
                                None
                            }
                        },
                    }
                }
            },
        }
    }
}

/// Close a gathering: kind, action, resource and the two identifiers are
/// required; a missing state section is an empty one.
pub open spec fn finalize_event(a: EventAccV) -> Option<EventV> {
    match (a.t, a.e, a.r, a.id, a.uniqueid) {
        (Some(t), Some(e), Some(r), Some(id), Some(uq)) => Some(
            EventV {
                type_: t,
                event: e,
                resource: r,
                id: id,
                uniqueid: uq,
                attr: a.attr,
                config: a.config,
                state: match a.state {
                    Some(st) => st,
                    None => Seq::empty(),
                },
            },
        ),
        _ => None,
    }
}

/// The decoded envelope of a whole frame, if the frame is one well-formed
/// JSON object whose recognized fields have their shape.
pub open spec fn spec_event(s: Seq<u8>) -> Option<EventV> {
    let i = spec_ws(s, 0);
    if !at(s, i, 123) {
        None
    } else {
        let j = spec_ws(s, i + 1);
        let body: Option<(EventAccV, int)> = if at(s, j, 125) {
            Some((event_acc0(), j + 1))
        } else {
            spec_event_members(s, j, (s.len() + 1) as nat, event_acc0())
        };
        match body {
            None => None,
            Some((a, j2)) => {
                if spec_ws(s, j2) == s.len() {
                    finalize_event(a)
                } else {
                    None
                }
            },
        }
    }
}

struct EventAcc {
    t: Option<Vec<u8>>,
    e: Option<Vec<u8>>,
    r: Option<Vec<u8>>,
    id: Option<Vec<u8>>,
    uniqueid: Option<Vec<u8>>,
    attr: Option<Sensor>,
    config: Option<SensorConfig>,
    state: Option<Vec<(Vec<u8>, Option<Num>)>>,
}

spec fn opt_bytes_view(v: Option<Vec<u8>>) -> Option<Seq<u8>> {
    match v {
        Some(b) => Some(b@),
        None => None,
    }
}

spec fn acc_view(a: EventAcc) -> EventAccV {
    EventAccV {
        t: opt_bytes_view(a.t),
        e: opt_bytes_view(a.e),
        r: opt_bytes_view(a.r),
        id: opt_bytes_view(a.id),
        uniqueid: opt_bytes_view(a.uniqueid),
        attr: match a.attr {
            Some(sn) => Some(sn@),
            None => None,
        },
        config: a.config,
        state: match a.state {
            Some(st) => Some(state_view(st@)),
            None => None,
        },
    }
}

spec fn acc_wf(a: EventAcc) -> bool {
    &&& a.config matches Some(c) ==> (c.battery.wf() && c.battery.scale
        <= crate::num::MAX_SCALE_IN && c.offset.wf() && c.offset.scale
        <= crate::num::MAX_SCALE_IN)
    &&& a.state matches Some(st) ==> (forall|ix: int|
        0 <= ix < st@.len() ==> (#[trigger] st@[ix].1 matches Some(n) ==> n.wf() && n.scale
            <= crate::num::MAX_SCALE_IN))
}

fn sensor_at(s: &Vec<u8>, i: usize, fuel: usize) -> (r: Option<(Sensor, usize)>)
    requires
        i <= s.len(),
    ensures
        match r {
            Some((sn, j)) => spec_sensor_at(s@, i as int, fuel as nat) == Some((sn@, j as int))
                && j <= s.len(),
            None => spec_sensor_at(s@, i as int, fuel as nat) is None,
        },
{
    match parse_flat_object(s, i, fuel) {
        Some((f, j)) => match sensor_of_flat_x(&f) {
            Some(sn) => Some((sn, j)),
            None => None,
        },
        None => None,
    }
}

fn config_at(s: &Vec<u8>, i: usize, fuel: usize) -> (r: Option<(SensorConfig, usize)>)
    requires
        i <= s.len(),
    ensures
        match r {
            Some((c, j)) => spec_config_at(s@, i as int, fuel as nat) == Some((c, j as int)) && j
                <= s.len() && c.battery.wf() && c.battery.scale <= crate::num::MAX_SCALE_IN
                && c.offset.wf() && c.offset.scale <= crate::num::MAX_SCALE_IN,
            None => spec_config_at(s@, i as int, fuel as nat) is None,
        },
{
    match parse_flat_object(s, i, fuel) {
        Some((f, j)) => match config_of_flat_x(&f) {
            Some(c) => Some((c, j)),
            None => None,
        },
        None => None,
    }
}

fn state_at(s: &Vec<u8>, i: usize, fuel: usize) -> (r: Option<(Vec<(Vec<u8>, Option<Num>)>, usize)>)
    requires
        i <= s.len(),
    ensures
        match r {
            Some((st, j)) => spec_state_at(s@, i as int, fuel as nat) == Some(
                (state_view(st@), j as int),
            ) && j <= s.len() && (forall|ix: int|
                0 <= ix < st@.len() ==> (#[trigger] st@[ix].1 matches Some(n) ==> n.wf()
                    && n.scale <= crate::num::MAX_SCALE_IN)),
            None => spec_state_at(s@, i as int, fuel as nat) is None,
        },
{
    match parse_flat_object(s, i, fuel) {
        Some((f, j)) => Some((state_of_flat_x(f), j)),
        None => None,
    }
}

fn ev_members(s: &Vec<u8>, i: usize, fuel: usize, acc: EventAcc) -> (r: Option<(EventAcc, usize)>)
    requires
        i <= s.len(),
        acc_wf(acc),
    ensures
        match r {
            Some((a, j)) => spec_event_members(s@, i as int, fuel as nat, acc_view(acc)) == Some(
                (acc_view(a), j as int),
            ) && j <= s.len() && acc_wf(a),
            None => spec_event_members(s@, i as int, fuel as nat, acc_view(acc)) is None,
        },
    decreases fuel,
{
    if fuel == 0 {
        return None;
    }
    match parse_string(s, i) {
        None => None,
        Some((k, j)) => {
            let j2 = skip_ws(s, j);
            if !(j2 < s.len() && s[j2] == 58) {
                None
            } else {
                let v0 = skip_ws(s, j2 + 1);
                let kt = key_t_x();
                let ke = key_e_x();
                let kr = key_r_x();
                let kid = key_id_x();
                let kuq = key_uniqueid_x();
                let kat = key_attr_x();
                let kcf = key_config_x();
                let kst = key_state_x();
                let step: Option<(EventAcc, usize)> = if eq_bytes(&k, &kt) {
                    match parse_string(s, v0) {
                        Some((v, j3)) => Some((EventAcc { t: Some(v), ..acc }, j3)),
                        None => None,
                    }
                } else if eq_bytes(&k, &ke) {
                    match parse_string(s, v0) {
                        Some((v, j3)) => Some((EventAcc { e: Some(v), ..acc }, j3)),
                        None => None,
                    }
                } else if eq_bytes(&k, &kr) {
                    match parse_string(s, v0) {
                        Some((v, j3)) => Some((EventAcc { r: Some(v), ..acc }, j3)),
                        None => None,
                    }
                } else if eq_bytes(&k, &kid) {
                    match parse_string(s, v0) {
                        Some((v, j3)) => Some((EventAcc { id: Some(v), ..acc }, j3)),
                        None => None,
                    }
                } else if eq_bytes(&k, &kuq) {
                    match parse_string(s, v0) {
                        Some((v, j3)) => Some((EventAcc { uniqueid: Some(v), ..acc }, j3)),
                        None => None,
                    }
                } else if eq_bytes(&k, &kat) {
                    if null_at(s, v0) {
                        Some((EventAcc { attr: None, ..acc }, v0 + 4))
                    } else {
                        match sensor_at(s, v0, fuel) {
                            Some((sn, j3)) => Some((EventAcc { attr: Some(sn), ..acc }, j3)),
                            None => None,
                        }
                    }
                } else if eq_bytes(&k, &kcf) {
                    if null_at(s, v0) {
                        Some((EventAcc { config: None, ..acc }, v0 + 4))
                    } else {
                        match config_at(s, v0, fuel) {
                            Some((c, j3)) => Some((EventAcc { config: Some(c), ..acc }, j3)),
                            None => None,
                        }
                    }
                } else if eq_bytes(&k, &kst) {
                    match state_at(s, v0, fuel) {
                        Some((st, j3)) => Some((EventAcc { state: Some(st), ..acc }, j3)),
                        None => None,
                    }
                } else {
                    match skip_value(s, v0, fuel) {
                        Some(j3) => Some((acc, j3)),
                        None => None,
                    }
                };
                match step {
                    None => None,
                    Some((acc2, j3)) => {
                        let j4 = skip_ws(s, j3);
                        if j4 < s.len() && s[j4] == 44 {
                            ev_members(s, skip_ws(s, j4 + 1), fuel - 1, acc2)
                        } else if j4 < s.len() && s[j4] == 125 {
                            Some((acc2, j4 + 1))
                        } else {
                            None
                        }
                    },
                }
            }
        },
    }
}

/// Why a frame was rejected: it is not a well-formed envelope.
#[derive(Clone, Copy, Debug, PartialEq, Eq, Structural)]
pub enum DecodeError {
    Malformed,
}

fn ev_acc0_x() -> (r: EventAcc)
    ensures
        acc_view(r) == event_acc0(),
        acc_wf(r),
{
    EventAcc {
        t: None,
        e: None,
        r: None,
        id: None,
        uniqueid: None,
        attr: None,
        config: None,
        state: None,
    }
}

/// Decode one frame into an event envelope, or reject it.  Exactly the
/// frames accepted by [`spec_event`] decode; every other frame yields
/// [`DecodeError::Malformed`] and nothing else.
pub fn decode(s: &Vec<u8>) -> (r: Result<Event, DecodeError>)
    requires
        s@.len() < usize::MAX,
    ensures
        match r {
            Ok(ev) => spec_event(s@) == Some(ev@) && ev@.wf(),
            Err(e) => spec_event(s@) is None && e == DecodeError::Malformed,
        },
{
    let i = skip_ws(s, 0);
    if !(i < s.len() && s[i] == 123) {
        return Err(DecodeError::Malformed);
    }
    let j = skip_ws(s, i + 1);
    let body: Option<(EventAcc, usize)> = if j < s.len() && s[j] == 125 {
        Some((ev_acc0_x(), j + 1))
    } else {
        ev_members(s, j, s.len() + 1, ev_acc0_x())
    };
    match body {
        None => Err(DecodeError::Malformed),
        Some((acc, j2)) => {
            if skip_ws(s, j2) != s.len() {
                return Err(DecodeError::Malformed);
            }
            let ghost av = acc_view(acc);
            match (acc.t, acc.e, acc.r, acc.id, acc.uniqueid) {
                (Some(t), Some(e), Some(rr), Some(id), Some(uq)) => {
                    let st: Vec<(Vec<u8>, Option<Num>)> = match acc.state {
                        Some(v) => v,
                        None => Vec::new(),
                    };
                    proof {
                        if av.state is None {
                            assert(state_view(st@) =~= Seq::<(Seq<u8>, Option<Num>)>::empty());
                        }
                    }
                    let ev = Event {
                        type_: t,
                        event: e,
                        resource: rr,
                        id: id,
                        uniqueid: uq,
                        attr: acc.attr,
                        config: acc.config,
                        state: st,
                    };
                    proof {
                        assert(finalize_event(av) == Some(ev@));
                    }
                    Ok(ev)
                },
                _ => Err(DecodeError::Malformed),
            }
        },
    }
}

impl Sensor {
    /// A fresh copy of the identity, holding the same bytes.
    pub fn duplicate(&self) -> (r: Sensor)
        ensures
            r@ == self@,
    {
        Sensor {
            manufacturername: copy_bytes(&self.manufacturername),
            modelid: copy_bytes(&self.modelid),
            name: copy_bytes(&self.name),
            swversion: match &self.swversion {
                Some(v) => Some(copy_bytes(v)),
                None => None,
            },
            tipe: copy_bytes(&self.tipe),
            uniqueid: copy_bytes(&self.uniqueid),
        }
    }
}

} // verus!
