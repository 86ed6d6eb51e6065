//! The sensor identity cache.
//!
//! A mapping from device identifier to the last-known identity of the
//! device.  An identity is stored whole and replaced whole: a later entry
//! for the same identifier overwrites the earlier one, never merges with
//! it.  Entries live for the process lifetime; nothing evicts them.

use vstd::prelude::*;

use crate::event::{Sensor, SensorV};
use crate::util::eq_bytes;

verus! {

/// The mapping an entry list stands for: entries applied left to right,
/// each overwriting its identifier.
pub open spec fn assoc_map(c: Seq<(Vec<u8>, Sensor)>) -> Map<Seq<u8>, SensorV>
    decreases c.len(),
{
    if c.len() == 0 {
        Map::empty()
    } else {
        assoc_map(c.drop_last()).insert(c.last().0@, c.last().1@)
    }
}

/// Removing one entry leaves the mapping unchanged at every other
/// identifier.
proof fn lemma_assoc_remove(c: Seq<(Vec<u8>, Sensor)>, ix: int, k: Seq<u8>)
    requires
        0 <= ix < c.len(),
        k != c[ix].0@,
    ensures
        assoc_map(c.remove(ix)).contains_key(k) == assoc_map(c).contains_key(k),
        assoc_map(c).contains_key(k) ==> assoc_map(c.remove(ix))[k] == assoc_map(c)[k],
    decreases c.len(),
{
    if ix == c.len() - 1 {
        assert(c.remove(ix) =~= c.drop_last());
    } else {
        let d = c.drop_last();
        assert(c.remove(ix).drop_last() =~= d.remove(ix));
        assert(c.remove(ix).last() == c.last());
        lemma_assoc_remove(d, ix, k);
    }
}

/// The identity cache.
pub struct SensorCache {
    entries: Vec<(Vec<u8>, Sensor)>,
}

impl View for SensorCache {
    type V = Map<Seq<u8>, SensorV>;

    closed spec fn view(&self) -> Map<Seq<u8>, SensorV> {
        assoc_map(self.entries@)
    }
}

impl SensorCache {
    /// At most one entry per identifier.
    pub closed spec fn wf(&self) -> bool {
        forall|i: int, j: int|
            0 <= i < j < self.entries@.len() ==> (#[trigger] self.entries@[i]).0@ != (
            #[trigger] self.entries@[j]).0@
    }

    /// An empty cache.
    pub fn new() -> (r: SensorCache)
        ensures
            r@ =~= Map::<Seq<u8>, SensorV>::empty(),
            r.wf(),
    {
        SensorCache { entries: Vec::new() }
    }

    /// The last-known identity for `id`, if one was ever stored.
    #[verifier::loop_isolation(false)]
    pub fn get<'a>(&'a self, id: &Vec<u8>) -> (r: Option<&'a Sensor>)
        ensures
            match r {
                Some(sn) => self@.contains_key(id@) && self@[id@] == sn@,
                None => !self@.contains_key(id@),
            },
    {
        let c = &self.entries;
        let mut i: usize = c.len();
        proof {
            assert(self@ == assoc_map(self.entries@));
            assert(c@ == self.entries@);
            assert(c@.subrange(0, c@.len() as int) =~= c@);
        }
        while i > 0
            invariant
                i <= c.len(),
                assoc_map(c@).contains_key(id@) == assoc_map(
                    c@.subrange(0, i as int),
                ).contains_key(id@),
                assoc_map(c@).contains_key(id@) ==> assoc_map(c@)[id@] == assoc_map(
                    c@.subrange(0, i as int),
                )[id@],
            decreases i,
        {
            i = i - 1;
            proof {
                assert(c@.subrange(0, (i + 1) as int).drop_last() =~= c@.subrange(0, i as int));
                assert(c@.subrange(0, (i + 1) as int).last() == c@[i as int]);
            }
            if eq_bytes(&c[i].0, id) {
                proof {
                    assert(assoc_map(c@.subrange(0, (i + 1) as int)) == assoc_map(
                        c@.subrange(0, i as int),
                    ).insert(c@[i as int].0@, c@[i as int].1@));
                    assert(assoc_map(c@.subrange(0, (i + 1) as int)).contains_key(id@));
                    assert(assoc_map(c@.subrange(0, (i + 1) as int))[id@] == c@[i as int].1@);
                }
                return Some(&c[i].1);
            }
        }
        proof {
            assert(!assoc_map(c@.subrange(0, 0)).contains_key(id@));
        }
        None
    }

    /// Store the identity for `id`, overwriting whole any identity stored
    /// earlier for the same identifier.
    pub fn put(&mut self, id: Vec<u8>, sn: Sensor)
        requires
            old(self).wf(),
        ensures
            final(self).wf(),
            final(self)@ == old(self)@.insert(id@, sn@),
    {
        let ghost c0 = self.entries@;
        let mut found: Option<usize> = None;
        let mut i: usize = 0;
        while i < self.entries.len()
            invariant
                i <= self.entries@.len(),
                self.entries@ == c0,
                found is None ==> forall|j: int| 0 <= j < i ==> (#[trigger] c0[j]).0@ != id@,
                found matches Some(ix) ==> 0 <= ix < c0.len() && c0[ix as int].0@ == id@,
            decreases self.entries@.len() - i,
        {
            if found.is_none() && eq_bytes(&self.entries[i].0, &id) {
                found = Some(i);
            }
            i = i + 1;
        }
        let ghost base: Seq<(Vec<u8>, Sensor)>;
        match found {
            Some(ix) => {
                let _ = self.entries.remove(ix);
                proof {
                    base = c0.remove(ix as int);
                }
            },
            None => {
                proof {
                    base = c0;
                }
            },
        }
        proof {
            assert(self.entries@ == base);
            assert forall|j: int| 0 <= j < base.len() implies (#[trigger] base[j]).0@ != id@ by {
                match found {
                    Some(ix) => {
                        if j < ix {
                            assert(base[j] == c0[j]);
                        } else {
                            assert(base[j] == c0[j + 1]);
                        }
                    },
                    None => {},
                }
            }
            assert forall|p: int, q: int|
                0 <= p < q < base.len() implies (#[trigger] base[p]).0@ != (
            #[trigger] base[q]).0@ by {
                match found {
                    Some(ix) => {
                        let p0: int = if p < ix {
                            p
                        } else {
                            p + 1
                        };
                        let q0: int = if q < ix {
                            q
                        } else {
                            q + 1
                        };
                        assert(base[p] == c0[p0]);
                        assert(base[q] == c0[q0]);
                    },
                    None => {},
                }
            }
        }
        self.entries.push((id, sn));
        proof {
            assert(self.entries@.drop_last() =~= base);
            assert(self.entries@.last() == (id, sn));
            assert(assoc_map(self.entries@) == assoc_map(base).insert(id@, sn@));
            let m1 = assoc_map(base).insert(id@, sn@);
            let m2 = assoc_map(c0).insert(id@, sn@);
            assert forall|k: Seq<u8>| #[trigger] m2.contains_key(k) implies m1.contains_key(k)
                && m1[k] == m2[k] by {
                if k != id@ {
                    match found {
                        Some(ix) => {
                            lemma_assoc_remove(c0, ix as int, k);
                        },
                        None => {},
                    }
                }
            }
            assert forall|k: Seq<u8>| #[trigger] m1.contains_key(k) implies m2.contains_key(k) by {
                if k != id@ {
                    match found {
                        Some(ix) => {
                            lemma_assoc_remove(c0, ix as int, k);
                        },
                        None => {},
                    }
                }
            }
            assert(m1 =~= m2);
            assert forall|p: int, q: int|
                0 <= p < q < self.entries@.len() implies (#[trigger] self.entries@[p]).0@ != (
            #[trigger] self.entries@[q]).0@ by {
                if q < self.entries@.len() - 1 {
                    assert(self.entries@[p] == base[p]);
                    assert(self.entries@[q] == base[q]);
                } else {
                    assert(self.entries@[p] == base[p]);
                    assert(base[p].0@ != id@);
                }
            }
        }
    }
}

} // verus!
