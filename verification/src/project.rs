//! The metric projector and the process-scoped state.
//!
//! One [`State`] object is built at startup and shared between the
//! stream-processing routine, which feeds every decoded frame through
//! [`process`], and the serving routine, which only reads the rendered
//! snapshot through [`metrics`].  Per event, exactly one of three effects
//! fires, tried in this order: an identity payload is stored in the
//! cache; a non-empty state payload is projected into reading gauges; a
//! configuration payload is projected into the battery gauge.  A reading
//! or configuration for a device whose identity was never seen is
//! dropped, and an event matching none of the effects is expected
//! traffic and ignored.

use vstd::prelude::*;

use crate::cache::SensorCache;
use crate::event::{
    decode, key_manufacturername, key_manufacturername_x, key_modelid, key_modelid_x, key_name,
    key_name_x, key_swversion, key_swversion_x, key_type, key_type_x, spec_event, DecodeError,
    Event, EventV, Sensor, SensorV,
};
use crate::util::eq_bytes;
use crate::gateway::{key_apiversion, key_apiversion_x, Gateway};
use crate::registry::{
    find_metric, labels_view, lemma_find_metric, spec_observe, spec_render_registry, spec_upsert,
    MetricV, Registry,
};
use crate::num::Num;
use crate::util::copy_bytes;

verus! {

/// The message kind `"event"`.
pub open spec fn lit_event() -> Seq<u8> {
    seq![101u8, 118, 101, 110, 116]
}

/// The action `"changed"`.
pub open spec fn lit_changed() -> Seq<u8> {
    seq![99u8, 104, 97, 110, 103, 101, 100]
}

/// The state payload key `"temperature"`.
pub open spec fn key_temperature() -> Seq<u8> {
    seq![116u8, 101, 109, 112, 101, 114, 97, 116, 117, 114, 101]
}

/// The state payload key `"humidity"`.
pub open spec fn key_humidity() -> Seq<u8> {
    seq![104u8, 117, 109, 105, 100, 105, 116, 121]
}

/// The state payload key `"pressure"`.
pub open spec fn key_pressure() -> Seq<u8> {
    seq![112u8, 114, 101, 115, 115, 117, 114, 101]
}

/// The gauge name `gateway_info`.
pub open spec fn name_info() -> Seq<u8> {
    seq![103u8, 97, 116, 101, 119, 97, 121, 95, 105, 110, 102, 111]
}

/// The gauge name `battery`.
pub open spec fn name_battery() -> Seq<u8> {
    seq![98u8, 97, 116, 116, 101, 114, 121]
}

/// The gauge name `temperature_celsius`.
pub open spec fn name_temperature() -> Seq<u8> {
    seq![116u8, 101, 109, 112, 101, 114, 97, 116, 117, 114, 101, 95, 99, 101, 108, 115, 105, 117,
        115]
}

/// The gauge name `pressure_hpa`.
pub open spec fn name_pressure() -> Seq<u8> {
    seq![112u8, 114, 101, 115, 115, 117, 114, 101, 95, 104, 112, 97]
}

/// The gauge name `humidity_ratio`.
pub open spec fn name_humidity() -> Seq<u8> {
    seq![104u8, 117, 109, 105, 100, 105, 116, 121, 95, 114, 97, 116, 105, 111]
}

/// The help text of `gateway_info`.
pub open spec fn help_info() -> Seq<u8> {
    seq![71u8, 97, 116, 101, 119, 97, 121, 32, 115, 116, 97, 116, 105, 99, 32, 105, 110, 102, 111]
}

/// The help text of `battery`.
pub open spec fn help_battery() -> Seq<u8> {
    seq![66u8, 97, 116, 116, 101, 114, 121, 32, 108, 101, 118, 101, 108, 32, 105, 110, 32, 112,
        101, 114, 99, 101, 110, 116, 97, 103, 101]
}

/// The help text of `temperature_celsius`.
pub open spec fn help_temperature() -> Seq<u8> {
    seq![84u8, 101, 109, 112, 101, 114, 97, 116, 117, 114, 101, 32, 105, 110, 32, 100, 101, 103,
        114, 101, 101, 32, 67, 101, 108, 115, 105, 117, 115]
}

/// The help text of `pressure_hpa`.
pub open spec fn help_pressure() -> Seq<u8> {
    seq![80u8, 114, 101, 115, 115, 117, 114, 101, 32, 105, 110, 32, 104, 80, 97]
}

/// The help text of `humidity_ratio`.
pub open spec fn help_humidity() -> Seq<u8> {
    seq![82u8, 101, 108, 97, 116, 105, 118, 101, 32, 104, 117, 109, 105, 100, 105, 116, 121, 32,
        105, 110, 32, 112, 101, 114, 99, 101, 110, 116, 97, 103, 101]
}

fn lit_event_x() -> (r: Vec<u8>)
    ensures
        r@ == lit_event(),
{
    let v: Vec<u8> = vec![101, 118, 101, 110, 116];
    proof {
        assert(v@ =~= lit_event());
    }
    v
}

fn lit_changed_x() -> (r: Vec<u8>)
    ensures
        r@ == lit_changed(),
{
    let v: Vec<u8> = vec![99, 104, 97, 110, 103, 101, 100];
    proof {
        assert(v@ =~= lit_changed());
    }
    v
}

fn key_temperature_x() -> (r: Vec<u8>)
    ensures
        r@ == key_temperature(),
{
    let v: Vec<u8> = vec![116, 101, 109, 112, 101, 114, 97, 116, 117, 114, 101];
    proof {
        assert(v@ =~= key_temperature());
    }
    v
}

fn key_humidity_x() -> (r: Vec<u8>)
    ensures
        r@ == key_humidity(),
{
    let v: Vec<u8> = vec![104, 117, 109, 105, 100, 105, 116, 121];
    proof {
        assert(v@ =~= key_humidity());
    }
    v
}

fn key_pressure_x() -> (r: Vec<u8>)
    ensures
        r@ == key_pressure(),
{
    let v: Vec<u8> = vec![112, 114, 101, 115, 115, 117, 114, 101];
    proof {
        assert(v@ =~= key_pressure());
    }
    v
}

fn name_info_x() -> (r: Vec<u8>)
    ensures
        r@ == name_info(),
{
    let v: Vec<u8> = vec![103, 97, 116, 101, 119, 97, 121, 95, 105, 110, 102, 111];
    proof {
        assert(v@ =~= name_info());
    }
    v
}

fn name_battery_x() -> (r: Vec<u8>)
    ensures
        r@ == name_battery(),
{
    let v: Vec<u8> = vec![98, 97, 116, 116, 101, 114, 121];
    proof {
        assert(v@ =~= name_battery());
    }
    v
}

fn name_temperature_x() -> (r: Vec<u8>)
    ensures
        r@ == name_temperature(),
{
    let v: Vec<u8> = vec![116, 101, 109, 112, 101, 114, 97, 116, 117, 114, 101, 95, 99, 101, 108,
        115, 105, 117, 115];
    proof {
        assert(v@ =~= name_temperature());
    }
    v
}

fn name_pressure_x() -> (r: Vec<u8>)
    ensures
        r@ == name_pressure(),
{
    let v: Vec<u8> = vec![112, 114, 101, 115, 115, 117, 114, 101, 95, 104, 112, 97];
    proof {
        assert(v@ =~= name_pressure());
    }
    v
}

fn name_humidity_x() -> (r: Vec<u8>)
    ensures
        r@ == name_humidity(),
{
    let v: Vec<u8> = vec![104, 117, 109, 105, 100, 105, 116, 121, 95, 114, 97, 116, 105, 111];
    proof {
        assert(v@ =~= name_humidity());
    }
    v
}

fn help_info_x() -> (r: Vec<u8>)
    ensures
        r@ == help_info(),
{
    let v: Vec<u8> = vec![71, 97, 116, 101, 119, 97, 121, 32, 115, 116, 97, 116, 105, 99, 32, 105,
        110, 102, 111];
    proof {
        assert(v@ =~= help_info());
    }
    v
}

fn help_battery_x() -> (r: Vec<u8>)
    ensures
        r@ == help_battery(),
{
    let v: Vec<u8> = vec![66, 97, 116, 116, 101, 114, 121, 32, 108, 101, 118, 101, 108, 32, 105,
        110, 32, 112, 101, 114, 99, 101, 110, 116, 97, 103, 101];
    proof {
        assert(v@ =~= help_battery());
    }
    v
}

fn help_temperature_x() -> (r: Vec<u8>)
    ensures
        r@ == help_temperature(),
{
    let v: Vec<u8> = vec![84, 101, 109, 112, 101, 114, 97, 116, 117, 114, 101, 32, 105, 110, 32,
        100, 101, 103, 114, 101, 101, 32, 67, 101, 108, 115, 105, 117, 115];
    proof {
        assert(v@ =~= help_temperature());
    }
    v
}

fn help_pressure_x() -> (r: Vec<u8>)
    ensures
        r@ == help_pressure(),
{
    let v: Vec<u8> = vec![80, 114, 101, 115, 115, 117, 114, 101, 32, 105, 110, 32, 104, 80, 97];
    proof {
        assert(v@ =~= help_pressure());
    }
    v
}

fn help_humidity_x() -> (r: Vec<u8>)
    ensures
        r@ == help_humidity(),
{
    let v: Vec<u8> = vec![82, 101, 108, 97, 116, 105, 118, 101, 32, 104, 117, 109, 105, 100, 105,
        116, 121, 32, 105, 110, 32, 112, 101, 114, 99, 101, 110, 116, 97, 103, 101];
    proof {
        assert(v@ =~= help_humidity());
    }
    v
}

/// The label names of the reading gauges, device type included.
pub open spec fn labels_full() -> Seq<Seq<u8>> {
    seq![key_manufacturername(), key_modelid(), key_name(), key_swversion(), key_type()]
}

/// The label names of the battery gauge: the device type is omitted,
/// since battery charge is not specific to a reading kind.
pub open spec fn labels_nt() -> Seq<Seq<u8>> {
    seq![key_manufacturername(), key_modelid(), key_name(), key_swversion()]
}

/// The label names of the gateway identity gauge.
pub open spec fn labels_info() -> Seq<Seq<u8>> {
    seq![key_name(), key_apiversion()]
}

fn labels_full_x() -> (r: Vec<Vec<u8>>)
    ensures
        labels_view(r@) == labels_full(),
{
    let mut v: Vec<Vec<u8>> = Vec::new();
    v.push(key_manufacturername_x());
    v.push(key_modelid_x());
    v.push(key_name_x());
    v.push(key_swversion_x());
    v.push(key_type_x());
    proof {
        assert(labels_view(v@) =~= labels_full());
    }
    v
}

fn labels_nt_x() -> (r: Vec<Vec<u8>>)
    ensures
        labels_view(r@) == labels_nt(),
{
    let mut v: Vec<Vec<u8>> = Vec::new();
    v.push(key_manufacturername_x());
    v.push(key_modelid_x());
    v.push(key_name_x());
    v.push(key_swversion_x());
    proof {
        assert(labels_view(v@) =~= labels_nt());
    }
    v
}

fn labels_info_x() -> (r: Vec<Vec<u8>>)
    ensures
        labels_view(r@) == labels_info(),
{
    let mut v: Vec<Vec<u8>> = Vec::new();
    v.push(key_name_x());
    v.push(key_apiversion_x());
    proof {
        assert(labels_view(v@) =~= labels_info());
    }
    v
}

/// The label values a cached identity attaches to its samples, in the
/// order of the gauges' label names; a missing firmware version is an
/// empty value.
pub open spec fn spec_labels(sn: SensorV, with_type: bool) -> Seq<Seq<u8>> {
    let sw: Seq<u8> = match sn.swversion {
        Some(v) => v,
        None => Seq::empty(),
    };
    if with_type {
        seq![sn.manufacturername, sn.modelid, sn.name, sw, sn.tipe]
    } else {
        seq![sn.manufacturername, sn.modelid, sn.name, sw]
    }
}

impl Sensor {
    /// The label values this identity attaches to a sample: with the
    /// device type for reading gauges, without it for the battery gauge.
    pub fn labels(&self, with_type: bool) -> (r: Vec<Vec<u8>>)
        ensures
            labels_view(r@) == spec_labels(self@, with_type),
    {
        let mut v: Vec<Vec<u8>> = Vec::new();
        v.push(copy_bytes(&self.manufacturername));
        v.push(copy_bytes(&self.modelid));
        v.push(copy_bytes(&self.name));
        match &self.swversion {
            Some(sw) => v.push(copy_bytes(sw)),
            None => v.push(Vec::new()),
        }
        if with_type {
            v.push(copy_bytes(&self.tipe));
        }
        proof {
            assert(labels_view(v@) =~= spec_labels(self@, with_type));
        }
        v
    }
}

/// Whether the table holds a gauge of this name with `n` label names.
pub open spec fn has_gauge(m: Seq<MetricV>, name: Seq<u8>, n: int) -> bool {
    match find_metric(m, name) {
        Some(i) => m[i].labels.len() == n,
        None => false,
    }
}

/// Whether the five gauges of the engine are registered with their
/// shapes.
pub open spec fn gauges_ready(m: Seq<MetricV>) -> bool {
    &&& has_gauge(m, name_info(), 2)
    &&& has_gauge(m, name_battery(), 4)
    &&& has_gauge(m, name_temperature(), 5)
    &&& has_gauge(m, name_pressure(), 5)
    &&& has_gauge(m, name_humidity(), 5)
}

/// The table the engine starts with: the five gauges, no samples yet.
pub open spec fn initial_registry() -> Seq<MetricV> {
    seq![
        MetricV { name: name_info(), help: help_info(), labels: labels_info(), samples: Seq::empty() },
        MetricV {
            name: name_battery(),
            help: help_battery(),
            labels: labels_nt(),
            samples: Seq::empty(),
        },
        MetricV {
            name: name_temperature(),
            help: help_temperature(),
            labels: labels_full(),
            samples: Seq::empty(),
        },
        MetricV {
            name: name_pressure(),
            help: help_pressure(),
            labels: labels_full(),
            samples: Seq::empty(),
        },
        MetricV {
            name: name_humidity(),
            help: help_humidity(),
            labels: labels_full(),
            samples: Seq::empty(),
        },
    ]
}

/// The five gauge names differ pairwise (they differ in their first
/// byte already).
proof fn lemma_names_distinct()
    ensures
        name_info() != name_battery(),
        name_info() != name_temperature(),
        name_info() != name_pressure(),
        name_info() != name_humidity(),
        name_battery() != name_temperature(),
        name_battery() != name_pressure(),
        name_battery() != name_humidity(),
        name_temperature() != name_pressure(),
        name_temperature() != name_humidity(),
        name_pressure() != name_humidity(),
{
    assert(name_info()[0] == 103);
    assert(name_battery()[0] == 98);
    assert(name_temperature()[0] == 116);
    assert(name_pressure()[0] == 112);
    assert(name_humidity()[0] == 104);
    assert(name_battery().len() != name_temperature().len());
}

/// An update that keeps a gauge's name in place does not move any gauge.
proof fn lemma_find_update(m: Seq<MetricV>, i: int, mm: MetricV, k: Seq<u8>)
    requires
        0 <= i < m.len(),
        mm.name == m[i].name,
    ensures
        find_metric(m.update(i, mm), k) == find_metric(m, k),
    decreases m.len(),
{
    let u = m.update(i, mm);
    assert(u.len() == m.len());
    if i == m.len() - 1 {
        assert(u.last() == mm);
        assert(u.drop_last() =~= m.drop_last());
    } else {
        assert(u.last() == m.last());
        assert(u.drop_last() =~= m.drop_last().update(i, mm));
        lemma_find_update(m.drop_last(), i, mm, k);
    }
}

/// An observation never unregisters a gauge or changes its shape.
proof fn lemma_observe_keeps_gauge(
    m: Seq<MetricV>,
    name: Seq<u8>,
    lv: Seq<Seq<u8>>,
    v: Num,
    gname: Seq<u8>,
    n: int,
)
    requires
        has_gauge(m, gname, n),
    ensures
        has_gauge(spec_observe(m, name, lv, v), gname, n),
{
    lemma_find_metric(m, name);
    lemma_find_metric(m, gname);
    match find_metric(m, name) {
        Some(i) => {
            if m[i].labels.len() == lv.len() {
                let mm = MetricV { samples: spec_upsert(m[i].samples, lv, v), ..m[i] };
                lemma_find_update(m, i, mm, gname);
                match find_metric(m, gname) {
                    Some(j) => {
                        if j == i {
                            assert(m.update(i, mm)[j].labels == m[i].labels);
                        } else {
                            assert(m.update(i, mm)[j] == m[j]);
                        }
                    },
                    None => {},
                }
            }
        },
        None => {},
    }
}

/// An observation keeps all five gauges ready.
pub proof fn lemma_observe_keeps_ready(m: Seq<MetricV>, name: Seq<u8>, lv: Seq<Seq<u8>>, v: Num)
    requires
        gauges_ready(m),
    ensures
        gauges_ready(spec_observe(m, name, lv, v)),
{
    lemma_observe_keeps_gauge(m, name, lv, v, name_info(), 2);
    lemma_observe_keeps_gauge(m, name, lv, v, name_battery(), 4);
    lemma_observe_keeps_gauge(m, name, lv, v, name_temperature(), 5);
    lemma_observe_keeps_gauge(m, name, lv, v, name_pressure(), 5);
    lemma_observe_keeps_gauge(m, name, lv, v, name_humidity(), 5);
}

/// The initial table has its five gauges ready.
proof fn lemma_initial_ready()
    ensures
        gauges_ready(initial_registry()),
{
    let m = initial_registry();
    lemma_names_distinct();
    lemma_find_metric(m, name_info());
    lemma_find_metric(m, name_battery());
    lemma_find_metric(m, name_temperature());
    lemma_find_metric(m, name_pressure());
    lemma_find_metric(m, name_humidity());
    assert(m[0].name == name_info());
    assert(m[1].name == name_battery());
    assert(m[2].name == name_temperature());
    assert(m[3].name == name_pressure());
    assert(m[4].name == name_humidity());
}

/// The process-scoped state: the identity cache and the gauge table,
/// built once at startup and shared between the stream-processing and
/// serving routines.
pub struct State {
    sensors: SensorCache,
    registry: Registry,
}

/// Specification twin of [`State`].
pub struct StateV {
    pub sensors: Map<Seq<u8>, SensorV>,
    pub registry: Seq<MetricV>,
}

impl View for State {
    type V = StateV;

    closed spec fn view(&self) -> StateV {
        StateV { sensors: self.sensors@, registry: self.registry@ }
    }
}

impl State {
    /// The cache holds one identity per identifier, the gauge table is
    /// well-formed, and the five gauges are registered.
    pub closed spec fn wf(&self) -> bool {
        &&& self.sensors.wf()
        &&& self.registry.wf()
        &&& gauges_ready(self.registry@)
    }

    /// A fresh state: an empty cache and the five gauges, no samples.
    pub fn new() -> (r: State)
        ensures
            r.wf(),
            r@.sensors =~= Map::<Seq<u8>, SensorV>::empty(),
            r@.registry =~= initial_registry(),
    {
        let mut registry = Registry::new();
        let ghost r0 = registry@;
        proof {
            lemma_names_distinct();
            lemma_find_metric(r0, name_info());
        }
        let c1 = registry.register(name_info_x(), help_info_x(), labels_info_x());
        let ghost r1 = registry@;
        proof {
            assert(c1 is Ok);
            assert(r1 =~= initial_registry().subrange(0, 1));
            lemma_find_metric(r1, name_battery());
            match find_metric(r1, name_battery()) {
                Some(i) => {
                    assert(r1[i].name == name_battery());
                    assert(false);
                },
                None => {},
            }
        }
        let c2 = registry.register(name_battery_x(), help_battery_x(), labels_nt_x());
        let ghost r2 = registry@;
        proof {
            assert(c2 is Ok);
            assert(r2 =~= initial_registry().subrange(0, 2));
            lemma_find_metric(r2, name_temperature());
            match find_metric(r2, name_temperature()) {
                Some(i) => {
                    assert(r2[i].name == name_temperature());
                    assert(false);
                },
                None => {},
            }
        }
        let c3 = registry.register(name_temperature_x(), help_temperature_x(), labels_full_x());
        let ghost r3 = registry@;
        proof {
            assert(c3 is Ok);
            assert(r3 =~= initial_registry().subrange(0, 3));
            lemma_find_metric(r3, name_pressure());
            match find_metric(r3, name_pressure()) {
                Some(i) => {
                    assert(r3[i].name == name_pressure());
                    assert(false);
                },
                None => {},
            }
        }
        let c4 = registry.register(name_pressure_x(), help_pressure_x(), labels_full_x());
        let ghost r4 = registry@;
        proof {
            assert(c4 is Ok);
            assert(r4 =~= initial_registry().subrange(0, 4));
            lemma_find_metric(r4, name_humidity());
            match find_metric(r4, name_humidity()) {
                Some(i) => {
                    assert(r4[i].name == name_humidity());
                    assert(false);
                },
                None => {},
            }
        }
        let c5 = registry.register(name_humidity_x(), help_humidity_x(), labels_full_x());
        proof {
            assert(c5 is Ok);
            assert(registry@ =~= initial_registry());
            lemma_initial_ready();
        }
        State { sensors: SensorCache::new(), registry }
    }

    /// Render the current snapshot of the gauge table.
    pub fn metrics(&self) -> (r: Vec<u8>)
        requires
            self.wf(),
        ensures
            r@ == spec_render_registry(self@.registry),
    {
        self.registry.render()
    }
}

/// Export the current metric snapshot as exposition text.
pub fn metrics(st: &State) -> (r: Vec<u8>)
    requires
        st.wf(),
    ensures
        r@ == spec_render_registry(st@.registry),
{
    st.metrics()
}

/// Record the gateway's identity: the `gateway_info` gauge is set to one
/// for the gateway's name and interface version.
pub fn record_gateway(st: &mut State, gw: &Gateway)
    requires
        old(st).wf(),
    ensures
        final(st).wf(),
        final(st)@.sensors == old(st)@.sensors,
        final(st)@.registry == spec_observe(
            old(st)@.registry,
            name_info(),
            seq![gw@.name, gw@.apiversion],
            Num { mant: 1, scale: 0 },
        ),
{
    let mut lv: Vec<Vec<u8>> = Vec::new();
    lv.push(copy_bytes(&gw.name));
    lv.push(copy_bytes(&gw.apiversion));
    proof {
        assert(labels_view(lv@) =~= seq![gw@.name, gw@.apiversion]);
        lemma_observe_keeps_ready(
            st@.registry,
            name_info(),
            labels_view(lv@),
            Num { mant: 1, scale: 0 },
        );
    }
    let name = name_info_x();
    let _ = st.registry.observe(&name, lv, Num { mant: 1, scale: 0 });
}

/// What one projection call did; the caller may log a warning for
/// [`Outcome::UnknownSensor`].
#[derive(Clone, Copy, Debug, PartialEq, Eq, Structural)]
pub enum Outcome {
    /// An identity payload was stored in the cache; no sample emitted.
    IdentityStored,
    /// A state payload's recognized readings were projected.
    StateApplied,
    /// A configuration payload's battery level was projected.
    ConfigApplied,
    /// A state or configuration payload arrived for an identifier with no
    /// cached identity; the event was dropped.
    UnknownSensor,
    /// The event matched no effect; expected traffic, dropped.
    Ignored,
}

/// Whether an envelope is a change notification the engine acts on.
pub open spec fn is_changed_event(e: EventV) -> bool {
    e.type_ == lit_event() && e.event == lit_changed()
}

/// The gauge table after one state payload entry: a recognized reading is
/// observed — temperature and humidity normalized, pressure raw, with the
/// full label set — and any other entry changes nothing.  Keeping to this
/// fixed set of reading kinds mirrors the gauges the engine declares up
/// front; a variant that lazily registers a gauge per unseen numeric key
/// would tolerate more firmware variation and could be built on
/// [`Registry::register`], whose registration is idempotent.
pub open spec fn spec_apply_one(reg: Seq<MetricV>, sn: SensorV, entry: (Seq<u8>, Option<Num>)) -> Seq<
    MetricV,
> {
    match entry.1 {
        Some(n) => {
            if entry.0 == key_temperature() {
                spec_observe(reg, name_temperature(), spec_labels(sn, true), n.spec_normalize())
            } else if entry.0 == key_humidity() {
                spec_observe(reg, name_humidity(), spec_labels(sn, true), n.spec_normalize())
            } else if entry.0 == key_pressure() {
                spec_observe(reg, name_pressure(), spec_labels(sn, true), n)
            } else {
                reg
            }
        },
        None => reg,
    }
}

/// The gauge table after the state payload entries from `k` on, applied
/// in payload order — all recognized readings in the payload, not only
/// the first.
pub open spec fn spec_apply_state(
    reg: Seq<MetricV>,
    sn: SensorV,
    st: Seq<(Seq<u8>, Option<Num>)>,
    k: int,
) -> Seq<MetricV>
    decreases st.len() - k,
{
    if 0 <= k < st.len() {
        spec_apply_state(spec_apply_one(reg, sn, st[k]), sn, st, k + 1)
    } else {
        reg
    }
}

/// What processing one event yields: exactly one of three effects, tried
/// in this order.  An identity payload on a change notification is stored
/// whole in the cache, keyed by the device identifier, and nothing is
/// emitted.  Otherwise a non-empty state payload is projected through the
/// cached identity, or dropped when no identity is cached.  Otherwise a
/// configuration payload sets the battery gauge, with the label set that
/// omits the device type, or is dropped when no identity is cached.  Any
/// other event is expected traffic and changes nothing.
pub open spec fn spec_project(e: EventV, s: StateV) -> (StateV, Outcome) {
    if is_changed_event(e) && e.attr is Some {
        (
            StateV { sensors: s.sensors.insert(e.id, e.attr->0), registry: s.registry },
            Outcome::IdentityStored,
        )
    } else if is_changed_event(e) && e.state.len() > 0 {
        if s.sensors.contains_key(e.id) {
            (
                StateV {
                    sensors: s.sensors,
                    registry: spec_apply_state(s.registry, s.sensors[e.id], e.state, 0),
                },
                Outcome::StateApplied,
            )
        } else {
            (s, Outcome::UnknownSensor)
        }
    } else if is_changed_event(e) && e.config is Some {
        if s.sensors.contains_key(e.id) {
            (
                StateV {
                    sensors: s.sensors,
                    registry: spec_observe(
                        s.registry,
                        name_battery(),
                        spec_labels(s.sensors[e.id], false),
                        (e.config->0).battery,
                    ),
                },
                Outcome::ConfigApplied,
            )
        } else {
            (s, Outcome::UnknownSensor)
        }
    } else {
        (s, Outcome::Ignored)
    }
}

/// Feed one decoded event through the projector: apply its one effect to
/// the shared state and say what happened.
#[verifier::loop_isolation(false)]
pub fn process(e: &Event, st: &mut State) -> (o: Outcome)
    requires
        old(st).wf(),
        e@.wf(),
    ensures
        final(st).wf(),
        final(st)@ == spec_project(e@, old(st)@).0,
        o == spec_project(e@, old(st)@).1,
{
    let levent = lit_event_x();
    let lchanged = lit_changed_x();
    let changed = eq_bytes(&e.type_, &levent) && eq_bytes(&e.event, &lchanged);
    proof {
        assert(changed == is_changed_event(e@));
    }
    if changed {
        match &e.attr {
            Some(a) => {
                st.sensors.put(copy_bytes(&e.id), a.duplicate());
                proof {
                    assert(e@.attr == Some(a@));
                    assert(final(st)@ == spec_project(e@, old(st)@).0);
                }
                return Outcome::IdentityStored;
            },
            None => {},
        }
    }
    if changed && e.state.len() > 0 {
        let sn: Sensor = match st.sensors.get(&e.id) {
            Some(s) => s.duplicate(),
            None => {
                return Outcome::UnknownSensor;
            },
        };
        let ghost reg0 = st.registry@;
        let ghost snv = sn@;
        let ghost stv = e@.state;
        proof {
            assert(snv == old(st)@.sensors[e@.id]);
        }
        let ktemp = key_temperature_x();
        let khum = key_humidity_x();
        let kpres = key_pressure_x();
        let ntemp = name_temperature_x();
        let nhum = name_humidity_x();
        let npres = name_pressure_x();
        let mut k: usize = 0;
        while k < e.state.len()
            invariant
                k <= e.state.len(),
                st.registry.wf(),
                gauges_ready(st.registry@),
                st.sensors@ == old(st)@.sensors,
                st.sensors.wf(),
                spec_apply_state(reg0, snv, stv, 0) == spec_apply_state(
                    st.registry@,
                    snv,
                    stv,
                    k as int,
                ),
            decreases e.state.len() - k,
        {
            let ghost regk = st.registry@;
            let key = &e.state[k].0;
            let nv: Option<Num> = e.state[k].1;
            proof {
                assert(stv[k as int] == (key@, nv));
            }
            match nv {
                Some(n) => {
                    proof {
                        assert(e@.state[k as int].1 == Some(n));
                        assert(n.wf() && n.scale <= crate::num::MAX_SCALE_IN);
                    }
                    if eq_bytes(key, &ktemp) {
                        let lv = sn.labels(true);
                        let vv = n.normalize();
                        proof {
                            lemma_observe_keeps_ready(
                                st.registry@,
                                name_temperature(),
                                labels_view(lv@),
                                vv,
                            );
                        }
                        let _ = st.registry.observe(&ntemp, lv, vv);
                    } else if eq_bytes(key, &khum) {
                        let lv = sn.labels(true);
                        let vv = n.normalize();
                        proof {
                            lemma_observe_keeps_ready(
                                st.registry@,
                                name_humidity(),
                                labels_view(lv@),
                                vv,
                            );
                        }
                        let _ = st.registry.observe(&nhum, lv, vv);
                    } else if eq_bytes(key, &kpres) {
                        let lv = sn.labels(true);
                        proof {
                            lemma_observe_keeps_ready(
                                st.registry@,
                                name_pressure(),
                                labels_view(lv@),
                                n,
                            );
                        }
                        let _ = st.registry.observe(&npres, lv, n);
                    }
                },
                None => {},
            }
            proof {
                assert(st.registry@ == spec_apply_one(regk, snv, stv[k as int]));
            }
            k = k + 1;
        }
        proof {
            assert(st.registry@ == spec_apply_state(reg0, snv, stv, 0));
            assert(final(st)@ == spec_project(e@, old(st)@).0);
        }
        return Outcome::StateApplied;
    }
    if changed {
        match e.config {
            Some(cfg) => {
                let sn: Sensor = match st.sensors.get(&e.id) {
                    Some(s) => s.duplicate(),
                    None => {
                        return Outcome::UnknownSensor;
                    },
                };
                let lv = sn.labels(false);
                proof {
                    assert(e@.config == Some(cfg));
                    assert(cfg.battery.wf());
                    lemma_observe_keeps_ready(
                        st.registry@,
                        name_battery(),
                        labels_view(lv@),
                        cfg.battery,
                    );
                }
                let nb = name_battery_x();
                let _ = st.registry.observe(&nb, lv, cfg.battery);
                proof {
                    assert(final(st)@ == spec_project(e@, old(st)@).0);
                }
                return Outcome::ConfigApplied;
            },
            None => {},
        }
    }
    Outcome::Ignored
}

/// What one raw frame does to the state: a decodable frame is projected;
/// a malformed frame is rejected and changes nothing.
pub open spec fn spec_process_frame(frame: Seq<u8>, s: StateV) -> (StateV, Result<
    Outcome,
    DecodeError,
>) {
    match spec_event(frame) {
        Some(ev) => (spec_project(ev, s).0, Ok(spec_project(ev, s).1)),
        None => (s, Err(DecodeError::Malformed)),
    }
}

/// Decode one raw frame and feed it through the projector.  A malformed
/// frame is reported and changes nothing; decoding resumes on the next
/// frame with the state untouched.
pub fn process_frame(frame: &Vec<u8>, st: &mut State) -> (r: Result<Outcome, DecodeError>)
    requires
        old(st).wf(),
        frame@.len() < usize::MAX,
    ensures
        final(st).wf(),
        final(st)@ == spec_process_frame(frame@, old(st)@).0,
        r == spec_process_frame(frame@, old(st)@).1,
{
    match decode(frame) {
        Ok(ev) => Ok(process(&ev, st)),
        Err(err) => Err(err),
    }
}

/// Law: before any identity event for an identifier, no event for that
/// identifier mutates the gauge table; one that carries no identity
/// payload changes nothing at all, and when it is a change notification
/// bearing a state or configuration payload it is answered by the
/// unknown-sensor outcome — the warning — and nothing else.
pub proof fn lemma_unknown_sensor_no_effect(e: EventV, s: StateV)
    requires
        !s.sensors.contains_key(e.id),
    ensures
        spec_project(e, s).0.registry == s.registry,
        e.attr is None ==> spec_project(e, s).0 == s,
        e.attr is None && is_changed_event(e) && (e.state.len() > 0 || e.config is Some)
            ==> spec_project(e, s).1 == Outcome::UnknownSensor,
{
}

/// Law: identity events overwrite, never merge.  After two identity
/// events for the same identifier, the cache holds exactly the second
/// identity, whatever the first said — so only the second identity's
/// labels appear in anything emitted afterwards — and the result is the
/// same as if the first event had never happened.
pub proof fn lemma_identity_overwrites(e1: EventV, e2: EventV, s: StateV)
    requires
        is_changed_event(e1),
        e1.attr is Some,
        is_changed_event(e2),
        e2.attr is Some,
        e1.id == e2.id,
    ensures
        spec_project(e2, spec_project(e1, s).0).0.sensors[e2.id] == e2.attr->0,
        spec_project(e2, spec_project(e1, s).0).0 == spec_project(e2, s).0,
{
    assert(s.sensors.insert(e1.id, e1.attr->0).insert(e2.id, e2.attr->0) =~= s.sensors.insert(
        e2.id,
        e2.attr->0,
    ));
}

/// Law: a malformed frame is inert.  Processing any malformed frame
/// changes nothing, so a well-formed frame after it is processed exactly
/// as it would have been without the malformed frame.
pub proof fn lemma_malformed_frame_inert(bad: Seq<u8>, good: Seq<u8>, s: StateV)
    requires
        spec_event(bad) is None,
    ensures
        spec_process_frame(bad, s).0 == s,
        spec_process_frame(good, spec_process_frame(bad, s).0) == spec_process_frame(good, s),
{
}

} // verus!
