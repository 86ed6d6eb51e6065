//! The metric registry: a process-wide table of named, labeled gauges.
//!
//! A gauge holds, per combination of label values, the latest observed
//! reading — observations overwrite, they never accumulate.  Registration
//! is idempotent: registering a name again with the same label names
//! succeeds and changes nothing, while a conflicting label shape is
//! refused.  The whole table renders into the plaintext exposition
//! format: two `#` comment lines per metric, then one line per labeled
//! sample.

use vstd::prelude::*;

use crate::num::Num;
use crate::util::{eq_bytes, push_bytes};

verus! {

/// One registered gauge.
pub struct Metric {
    /// The metric name.
    pub name: Vec<u8>,
    /// The help text shown in the exposition comment line.
    pub help: Vec<u8>,
    /// The label names, in exposition order.
    pub labels: Vec<Vec<u8>>,
    /// Per label-value combination, the latest reading.
    pub samples: Vec<(Vec<Vec<u8>>, Num)>,
}

/// Specification twin of [`Metric`].
pub struct MetricV {
    pub name: Seq<u8>,
    pub help: Seq<u8>,
    pub labels: Seq<Seq<u8>>,
    pub samples: Seq<(Seq<Seq<u8>>, Num)>,
}

/// The view of a list of byte strings.
pub open spec fn labels_view(v: Seq<Vec<u8>>) -> Seq<Seq<u8>> {
    v.map_values(|b: Vec<u8>| b@)
}

/// The view of a sample list.
pub open spec fn samples_view(v: Seq<(Vec<Vec<u8>>, Num)>) -> Seq<(Seq<Seq<u8>>, Num)> {
    v.map_values(|p: (Vec<Vec<u8>>, Num)| (labels_view(p.0@), p.1))
}

impl View for Metric {
    type V = MetricV;

    open spec fn view(&self) -> MetricV {
        MetricV {
            name: self.name@,
            help: self.help@,
            labels: labels_view(self.labels@),
            samples: samples_view(self.samples@),
        }
    }
}

/// Well-formedness of one gauge: every sample has one value per label
/// name, a reading fit for rendering, and no two samples share their
/// label values.
pub open spec fn metric_wf(m: MetricV) -> bool {
    &&& forall|i: int|
        0 <= i < m.samples.len() ==> (#[trigger] m.samples[i]).0.len() == m.labels.len()
    &&& forall|i: int| 0 <= i < m.samples.len() ==> (#[trigger] m.samples[i]).1.wf()
    &&& forall|i: int, j: int|
        0 <= i < j < m.samples.len() ==> (#[trigger] m.samples[i]).0 != (
        #[trigger] m.samples[j]).0
}

/// Well-formedness of the whole table: gauge names are unique and each
/// gauge is well-formed.
pub open spec fn reg_wf(m: Seq<MetricV>) -> bool {
    &&& forall|i: int, j: int|
        0 <= i < j < m.len() ==> (#[trigger] m[i]).name != (#[trigger] m[j]).name
    &&& forall|i: int| 0 <= i < m.len() ==> metric_wf(#[trigger] m[i])
}

/// The index of the gauge named `name`, if any.
pub open spec fn find_metric(m: Seq<MetricV>, name: Seq<u8>) -> Option<int>
    decreases m.len(),
{
    if m.len() == 0 {
        None
    } else if m.last().name == name {
        Some(m.len() - 1)
    } else {
        find_metric(m.drop_last(), name)
    }
}

/// What `find_metric` finds: an in-range index bearing the name, and
/// nothing when no gauge bears it.
pub proof fn lemma_find_metric(m: Seq<MetricV>, name: Seq<u8>)
    ensures
        match find_metric(m, name) {
            Some(i) => 0 <= i < m.len() && m[i].name == name,
            None => forall|i: int| 0 <= i < m.len() ==> (#[trigger] m[i]).name != name,
        },
    decreases m.len(),
{
    if m.len() > 0 && m.last().name != name {
        lemma_find_metric(m.drop_last(), name);
        match find_metric(m.drop_last(), name) {
            Some(i) => {
                assert(m.drop_last()[i] == m[i]);
            },
            None => {
                assert forall|i: int| 0 <= i < m.len() implies (#[trigger] m[i]).name != name by {
                    if i < m.len() - 1 {
                        assert(m.drop_last()[i] == m[i]);
                        assert(m.drop_last()[i].name != name);
                    } else {
                        assert(m[i] == m.last());
                    }
                }
            },
        }
    }
}

/// The index of the sample with label values `lv`, if any.
pub open spec fn find_sample(s: Seq<(Seq<Seq<u8>>, Num)>, lv: Seq<Seq<u8>>) -> Option<int>
    decreases s.len(),
{
    if s.len() == 0 {
        None
    } else if s.last().0 == lv {
        Some(s.len() - 1)
    } else {
        find_sample(s.drop_last(), lv)
    }
}

/// What `find_sample` finds.
pub proof fn lemma_find_sample(s: Seq<(Seq<Seq<u8>>, Num)>, lv: Seq<Seq<u8>>)
    ensures
        match find_sample(s, lv) {
            Some(i) => 0 <= i < s.len() && s[i].0 == lv,
            None => forall|i: int| 0 <= i < s.len() ==> (#[trigger] s[i]).0 != lv,
        },
    decreases s.len(),
{
    if s.len() > 0 && s.last().0 != lv {
        lemma_find_sample(s.drop_last(), lv);
        match find_sample(s.drop_last(), lv) {
            Some(i) => {
                assert(s.drop_last()[i] == s[i]);
            },
            None => {
                assert forall|i: int| 0 <= i < s.len() implies (#[trigger] s[i]).0 != lv by {
                    if i < s.len() - 1 {
                        assert(s.drop_last()[i] == s[i]);
                        assert(s.drop_last()[i].0 != lv);
                    } else {
                        assert(s[i] == s.last());
                    }
                }
            },
        }
    }
}

/// Whether registering `name` with `labels` conflicts with the table: the
/// name is taken by a gauge with a different label shape.
pub open spec fn reg_conflict(m: Seq<MetricV>, name: Seq<u8>, labels: Seq<Seq<u8>>) -> bool {
    match find_metric(m, name) {
        Some(i) => m[i].labels != labels,
        None => false,
    }
}

/// The table after registering a gauge: appended when the name is free,
/// unchanged otherwise.
pub open spec fn spec_register(
    m: Seq<MetricV>,
    name: Seq<u8>,
    help: Seq<u8>,
    labels: Seq<Seq<u8>>,
) -> Seq<MetricV> {
    match find_metric(m, name) {
        Some(_i) => m,
        None => m.push(MetricV { name, help, labels, samples: Seq::empty() }),
    }
}

/// A sample list with the reading for `lv` set to `v`: overwritten in
/// place when `lv` is present, appended otherwise.
pub open spec fn spec_upsert(s: Seq<(Seq<Seq<u8>>, Num)>, lv: Seq<Seq<u8>>, v: Num) -> Seq<
    (Seq<Seq<u8>>, Num),
> {
    match find_sample(s, lv) {
        Some(k) => s.update(k, (lv, v)),
        None => s.push((lv, v)),
    }
}

/// Whether an observation lands: its gauge exists and the label value
/// count matches the gauge's shape.
pub open spec fn spec_observe_hits(m: Seq<MetricV>, name: Seq<u8>, lv: Seq<Seq<u8>>) -> bool {
    match find_metric(m, name) {
        Some(i) => m[i].labels.len() == lv.len(),
        None => false,
    }
}

/// The table after an observation: the addressed gauge's sample for `lv`
/// becomes `v`; a miss leaves the table unchanged.
pub open spec fn spec_observe(m: Seq<MetricV>, name: Seq<u8>, lv: Seq<Seq<u8>>, v: Num) -> Seq<
    MetricV,
> {
    match find_metric(m, name) {
        Some(i) => {
            if m[i].labels.len() == lv.len() {
                m.update(i, MetricV { samples: spec_upsert(m[i].samples, lv, v), ..m[i] })
            } else {
                m
            }
        },
        None => m,
    }
}

/// Why a registration was refused: the name is taken with another shape.
#[derive(Clone, Copy, Debug, PartialEq, Eq, Structural)]
pub enum RegistryError {
    Conflict,
}

fn find_metric_x(m: &Vec<Metric>, name: &Vec<u8>) -> (r: Option<usize>)
    ensures
        match r {
            Some(i) => find_metric(m@.map_values(|x: Metric| x@), name@) == Some(i as int) && i
                < m.len(),
            None => find_metric(m@.map_values(|x: Metric| x@), name@) is None,
        },
{
    let ghost mv = m@.map_values(|x: Metric| x@);
    let mut i: usize = m.len();
    proof {
        assert(mv.subrange(0, m@.len() as int) =~= mv);
    }
    while i > 0
        invariant
            i <= m.len(),
            mv == m@.map_values(|x: Metric| x@),
            mv.len() == m@.len(),
            find_metric(mv, name@) == find_metric(mv.subrange(0, i as int), name@),
        decreases i,
    {
        i = i - 1;
        proof {
            assert(mv.subrange(0, (i + 1) as int).drop_last() =~= mv.subrange(0, i as int));
            assert(mv.subrange(0, (i + 1) as int).last() == mv[i as int]);
        }
        if eq_bytes(&m[i].name, name) {
            return Some(i);
        }
    }
    None
}

/// Whether two lists of byte strings hold the same strings.
pub fn eq_label_values(a: &Vec<Vec<u8>>, b: &Vec<Vec<u8>>) -> (r: bool)
    ensures
        r == (labels_view(a@) == labels_view(b@)),
{
    if a.len() != b.len() {
        proof {
            assert(labels_view(a@).len() != labels_view(b@).len());
        }
        return false;
    }
    let mut i: usize = 0;
    while i < a.len()
        invariant
            i <= a.len(),
            a@.len() == b@.len(),
            forall|k: int| 0 <= k < i ==> labels_view(a@)[k] == labels_view(b@)[k],
        decreases a.len() - i,
    {
        if !eq_bytes(&a[i], &b[i]) {
            proof {
                assert(labels_view(a@)[i as int] != labels_view(b@)[i as int]);
            }
            return false;
        }
        i = i + 1;
    }
    proof {
        assert(labels_view(a@) =~= labels_view(b@));
    }
    true
}

fn find_sample_x(s: &Vec<(Vec<Vec<u8>>, Num)>, lv: &Vec<Vec<u8>>) -> (r: Option<usize>)
    ensures
        match r {
            Some(i) => find_sample(samples_view(s@), labels_view(lv@)) == Some(i as int) && i
                < s.len(),
            None => find_sample(samples_view(s@), labels_view(lv@)) is None,
        },
{
    let ghost sv = samples_view(s@);
    let mut i: usize = s.len();
    proof {
        assert(sv.subrange(0, s@.len() as int) =~= sv);
    }
    while i > 0
        invariant
            i <= s.len(),
            sv == samples_view(s@),
            sv.len() == s@.len(),
            find_sample(sv, labels_view(lv@)) == find_sample(
                sv.subrange(0, i as int),
                labels_view(lv@),
            ),
        decreases i,
    {
        i = i - 1;
        proof {
            assert(sv.subrange(0, (i + 1) as int).drop_last() =~= sv.subrange(0, i as int));
            assert(sv.subrange(0, (i + 1) as int).last() == sv[i as int]);
        }
        if eq_label_values(&s[i].0, lv) {
            return Some(i);
        }
    }
    None
}

/// The process-wide table of gauges.
pub struct Registry {
    metrics: Vec<Metric>,
}

impl View for Registry {
    type V = Seq<MetricV>;

    closed spec fn view(&self) -> Seq<MetricV> {
        self.metrics@.map_values(|x: Metric| x@)
    }
}

impl Registry {
    /// Whether the table is well-formed.
    pub open spec fn wf(&self) -> bool {
        reg_wf(self@)
    }

    /// An empty table.
    pub fn new() -> (r: Registry)
        ensures
            r@ =~= Seq::<MetricV>::empty(),
            r.wf(),
    {
        let r = Registry { metrics: Vec::new() };
        proof {
            assert(r@ =~= Seq::<MetricV>::empty());
        }
        r
    }

    /// Register a gauge.  Registering a taken name with the same label
    /// names succeeds and changes nothing; with a different label shape
    /// it is refused and changes nothing; a free name is appended with no
    /// samples.
    pub fn register(&mut self, name: Vec<u8>, help: Vec<u8>, labels: Vec<Vec<u8>>) -> (r: Result<
        (),
        RegistryError,
    >)
        requires
            old(self).wf(),
        ensures
            final(self).wf(),
            r matches Ok(()) ==> final(self)@ == spec_register(
                old(self)@,
                name@,
                help@,
                labels_view(labels@),
            ),
            r matches Err(e) ==> final(self)@ == old(self)@ && e == RegistryError::Conflict,
            (r is Err) == reg_conflict(old(self)@, name@, labels_view(labels@)),
    {
        proof {
            lemma_find_metric(self@, name@);
        }
        match find_metric_x(&self.metrics, &name) {
            Some(i) => {
                if eq_label_values(&self.metrics[i].labels, &labels) {
                    Ok(())
                } else {
                    Err(RegistryError::Conflict)
                }
            },
            None => {
                let ghost old_view = self@;
                let m = Metric { name, help, labels, samples: Vec::new() };
                let ghost mv = m@;
                self.metrics.push(m);
                proof {
                    assert(self@ =~= old_view.push(mv));
                    assert(mv.samples =~= Seq::<(Seq<Seq<u8>>, Num)>::empty());
                    assert(metric_wf(mv));
                }
                Ok(())
            },
        }
    }

    /// Record an observation: the addressed gauge's sample for the label
    /// values `lv` becomes `v`, overwriting any earlier reading for the
    /// same combination.  The result says whether it landed; a miss — an
    /// unregistered name, or a label count that does not match the
    /// gauge's shape — changes nothing.
    pub fn observe(&mut self, name: &Vec<u8>, lv: Vec<Vec<u8>>, v: Num) -> (r: bool)
        requires
            old(self).wf(),
            v.wf(),
        ensures
            final(self).wf(),
            final(self)@ == spec_observe(old(self)@, name@, labels_view(lv@), v),
            r == spec_observe_hits(old(self)@, name@, labels_view(lv@)),
    {
        proof {
            lemma_find_metric(self@, name@);
        }
        match find_metric_x(&self.metrics, name) {
            None => false,
            Some(i) => {
                if self.metrics[i].labels.len() != lv.len() {
                    return false;
                }
                let ghost old_view = self@;
                let ghost old_m = self@[i as int];
                let mut m = self.metrics.remove(i);
                proof {
                    lemma_find_sample(old_m.samples, labels_view(lv@));
                }
                match find_sample_x(&m.samples, &lv) {
                    Some(k) => {
                        let ghost old_samples = samples_view(m.samples@);
                        let _ = m.samples.remove(k);
                        m.samples.insert(k, (lv, v));
                        proof {
                            assert(samples_view(m.samples@) =~= old_samples.update(
                                k as int,
                                (labels_view(lv@), v),
                            ));
                        }
                    },
                    None => {
                        let ghost old_samples = samples_view(m.samples@);
                        m.samples.push((lv, v));
                        proof {
                            assert(samples_view(m.samples@) =~= old_samples.push(
                                (labels_view(lv@), v),
                            ));
                        }
                    },
                }
                let ghost new_m = m@;
                self.metrics.insert(i, m);
                proof {
                    assert(self@ =~= old_view.update(i as int, new_m));
                    assert(metric_wf(new_m));
                    assert(self@ == spec_observe(old_view, name@, labels_view(lv@), v));
                }
                true
            },
        }
    }
}

/// The escape of one byte inside a quoted label value.
pub open spec fn esc1(c: u8) -> Seq<u8> {
    if c == 92 {
        seq![92u8, 92]
    } else if c == 34 {
        seq![92u8, 34]
    } else if c == 10 {
        seq![92u8, 110]
    } else {
        seq![c]
    }
}

/// The escaped text of a label value, from byte `k` on.
pub open spec fn esc_from(v: Seq<u8>, k: int) -> Seq<u8>
    decreases v.len() - k,
{
    if 0 <= k < v.len() {
        esc1(v[k]) + esc_from(v, k + 1)
    } else {
        Seq::empty()
    }
}

/// The text `# HELP `.
pub open spec fn lit_help() -> Seq<u8> {
    seq![35u8, 32, 72, 69, 76, 80, 32]
}

/// The text `# TYPE `.
pub open spec fn lit_type() -> Seq<u8> {
    seq![35u8, 32, 84, 89, 80, 69, 32]
}

/// The text ` gauge` and a line break.
pub open spec fn lit_gauge() -> Seq<u8> {
    seq![32u8, 103, 97, 117, 103, 101, 10]
}

/// The comma-separated `name="value"` pairs from position `k` on.
pub open spec fn pairs_from(names: Seq<Seq<u8>>, vals: Seq<Seq<u8>>, k: int) -> Seq<u8>
    decreases names.len() - k,
{
    if 0 <= k < names.len() && k < vals.len() {
        names[k] + seq![61u8, 34] + esc_from(vals[k], 0) + seq![34u8] + (if k + 1 < names.len() {
            seq![44u8] + pairs_from(names, vals, k + 1)
        } else {
            Seq::empty()
        })
    } else {
        Seq::empty()
    }
}

/// One sample line: the metric name, the braced label pairs when there
/// are labels, a space, the reading, a line break.
pub open spec fn sample_render(name: Seq<u8>, labels: Seq<Seq<u8>>, smp: (Seq<Seq<u8>>, Num)) -> Seq<
    u8,
> {
    name + (if labels.len() == 0 {
        Seq::<u8>::empty()
    } else {
        seq![123u8] + pairs_from(labels, smp.0, 0) + seq![125u8]
    }) + seq![32u8] + crate::num::spec_render(smp.1) + seq![10u8]
}

/// The sample lines from position `k` on.
pub open spec fn samples_from(
    name: Seq<u8>,
    labels: Seq<Seq<u8>>,
    samples: Seq<(Seq<Seq<u8>>, Num)>,
    k: int,
) -> Seq<u8>
    decreases samples.len() - k,
{
    if 0 <= k < samples.len() {
        sample_render(name, labels, samples[k]) + samples_from(name, labels, samples, k + 1)
    } else {
        Seq::empty()
    }
}

/// One gauge's exposition block: its two comment lines, then its samples.
pub open spec fn metric_render(m: MetricV) -> Seq<u8> {
    lit_help() + m.name + seq![32u8] + m.help + seq![10u8] + lit_type() + m.name + lit_gauge()
        + samples_from(m.name, m.labels, m.samples, 0)
}

/// The exposition blocks from gauge `k` on.
pub open spec fn metrics_from(m: Seq<MetricV>, k: int) -> Seq<u8>
    decreases m.len() - k,
{
    if 0 <= k < m.len() {
        metric_render(m[k]) + metrics_from(m, k + 1)
    } else {
        Seq::empty()
    }
}

/// The whole table's exposition text, gauges in registration order.
pub open spec fn spec_render_registry(m: Seq<MetricV>) -> Seq<u8> {
    metrics_from(m, 0)
}

#[verifier::loop_isolation(false)]
fn push_esc(out: &mut Vec<u8>, v: &Vec<u8>)
    ensures
        final(out)@ == old(out)@ + esc_from(v@, 0),
{
    let mut k: usize = 0;
    while k < v.len()
        invariant
            k <= v.len(),
            out@ + esc_from(v@, k as int) == old(out)@ + esc_from(v@, 0),
        decreases v.len() - k,
    {
        let c = v[k];
        let ghost pre = out@;
        if c == 92 {
            out.push(92);
            out.push(92);
        } else if c == 34 {
            out.push(92);
            out.push(34);
        } else if c == 10 {
            out.push(92);
            out.push(110);
        } else {
            out.push(c);
        }
        proof {
            assert(out@ =~= pre + esc1(v@[k as int]));
            assert(out@ + esc_from(v@, (k + 1) as int) =~= pre + esc_from(v@, k as int));
        }
        k = k + 1;
    }
    proof {
        assert(out@ =~= out@ + esc_from(v@, v@.len() as int));
    }
}

#[verifier::loop_isolation(false)]
fn push_pairs(out: &mut Vec<u8>, names: &Vec<Vec<u8>>, vals: &Vec<Vec<u8>>)
    requires
        names@.len() == vals@.len(),
    ensures
        final(out)@ == old(out)@ + pairs_from(labels_view(names@), labels_view(vals@), 0),
{
    let ghost nv = labels_view(names@);
    let ghost vv = labels_view(vals@);
    let mut k: usize = 0;
    while k < names.len()
        invariant
            k <= names.len(),
            out@ + pairs_from(nv, vv, k as int) == old(out)@ + pairs_from(nv, vv, 0),
        decreases names.len() - k,
    {
        let ghost pre = out@;
        push_bytes(out, &names[k]);
        out.push(61);
        out.push(34);
        push_esc(out, &vals[k]);
        out.push(34);
        if k + 1 < names.len() {
            out.push(44);
        }
        proof {
            assert(out@ + pairs_from(nv, vv, (k + 1) as int) =~= pre + pairs_from(
                nv,
                vv,
                k as int,
            ));
        }
        k = k + 1;
    }
    proof {
        assert(out@ =~= out@ + pairs_from(nv, vv, names@.len() as int));
    }
}

fn push_sample(out: &mut Vec<u8>, name: &Vec<u8>, labels: &Vec<Vec<u8>>, lv: &Vec<Vec<u8>>, value: &Num)
    requires
        labels@.len() == lv@.len(),
        value.wf(),
    ensures
        final(out)@ == old(out)@ + sample_render(
            name@,
            labels_view(labels@),
            (labels_view(lv@), *value),
        ),
{
    push_bytes(out, name);
    if labels.len() > 0 {
        out.push(123);
        push_pairs(out, labels, lv);
        out.push(125);
    }
    out.push(32);
    let txt = value.to_text();
    push_bytes(out, &txt);
    out.push(10);
    proof {
        assert(final(out)@ =~= old(out)@ + sample_render(
            name@,
            labels_view(labels@),
            (labels_view(lv@), *value),
        ));
    }
}

impl Registry {
    /// Render the whole table in the exposition format: per gauge, a
    /// `# HELP` line, a `# TYPE` line naming it a gauge, and one line per
    /// labeled sample holding its latest reading.
    #[verifier::loop_isolation(false)]
    #[verifier::rlimit(60)]
    pub fn render(&self) -> (r: Vec<u8>)
        requires
            self.wf(),
        ensures
            r@ == spec_render_registry(self@),
    {
        let mut out: Vec<u8> = Vec::new();
        let mut i: usize = 0;
        proof {
            assert(self@.len() == self.metrics@.len());
        }
        while i < self.metrics.len()
            invariant
                i <= self.metrics.len(),
                out@ + metrics_from(self@, i as int) == metrics_from(self@, 0),
            decreases self.metrics.len() - i,
        {
            let ghost pre = out@;
            let m = &self.metrics[i];
            proof {
                assert(self@[i as int] == m@);
                assert(metric_wf(m@));
            }
            out.push(35);
            out.push(32);
            out.push(72);
            out.push(69);
            out.push(76);
            out.push(80);
            out.push(32);
            proof {
                assert(out@ =~= pre + lit_help());
            }
            push_bytes(&mut out, &m.name);
            out.push(32);
            push_bytes(&mut out, &m.help);
            out.push(10);
            out.push(35);
            out.push(32);
            out.push(84);
            out.push(89);
            out.push(80);
            out.push(69);
            out.push(32);
            push_bytes(&mut out, &m.name);
            out.push(32);
            out.push(103);
            out.push(97);
            out.push(117);
            out.push(103);
            out.push(101);
            out.push(10);
            let ghost hdr = pre + lit_help() + m@.name + seq![32u8] + m@.help + seq![10u8]
                + lit_type() + m@.name + lit_gauge();
            proof {
                assert(out@ =~= hdr);
            }
            let mut k: usize = 0;
            while k < m.samples.len()
                invariant
                    k <= m.samples.len(),
                    out@ + samples_from(m@.name, m@.labels, m@.samples, k as int) == hdr
                        + samples_from(m@.name, m@.labels, m@.samples, 0),
                decreases m.samples.len() - k,
            {
                let ghost pre2 = out@;
                proof {
                    assert(m@.samples[k as int] == (
                        labels_view(m.samples@[k as int].0@),
                        m.samples@[k as int].1,
                    ));
                    assert(m@.samples[k as int].0.len() == m@.labels.len());
                    assert(m@.samples[k as int].1.wf());
                    assert(labels_view(m.samples@[k as int].0@).len() == labels_view(
                        m.labels@,
                    ).len());
                }
                push_sample(&mut out, &m.name, &m.labels, &m.samples[k].0, &m.samples[k].1);
                proof {
                    assert(out@ + samples_from(m@.name, m@.labels, m@.samples, (k + 1) as int)
                        =~= pre2 + samples_from(m@.name, m@.labels, m@.samples, k as int));
                }
                k = k + 1;
            }
            proof {
                assert(out@ =~= out@ + samples_from(
                    m@.name,
                    m@.labels,
                    m@.samples,
                    m@.samples.len() as int,
                ));
                assert(out@ =~= pre + metric_render(self@[i as int]));
                assert(out@ + metrics_from(self@, (i + 1) as int) =~= pre + metrics_from(
                    self@,
                    i as int,
                ));
            }
            i = i + 1;
        }
        proof {
            assert(out@ =~= out@ + metrics_from(self@, self@.len() as int));
        }
        out
    }
}

} // verus!
