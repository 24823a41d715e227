//! The circuit registry: an immutable, process-wide map from circuit
//! identifier (the proving-key file name) to the circuit's declared signals,
//! field modulus and witness generator.  It is populated once, through a
//! builder that is consumed, and only read afterwards.

use vstd::prelude::*;

use crate::numerals::is_numeral;
use crate::strutil::str_eq;

verus! {

/// The declared shape of one input signal: a scalar or an array of the
/// given length.
#[derive(Clone, Copy, PartialEq, Eq, Structural)]
pub enum SignalShape {
    Scalar,
    Array(usize),
}

/// One declared input signal of a circuit.
pub struct SignalSpec {
    pub name: String,
    pub shape: SignalShape,
}

/// Everything registered for one circuit.  `circuit_id` is the proving-key
/// file name; `witness_fn` is the compiled witness generator; `signals` are
/// the inputs the circuit requires; `field_modulus` is the decimal modulus
/// of the circuit's scalar field, bounding every input and public value;
/// `base_field_modulus` is the decimal modulus of the base field of the
/// curve the proving key was compiled for, bounding every proof-point
/// coordinate.
pub struct CircuitDescriptor {
    pub circuit_id: String,
    pub signals: Vec<SignalSpec>,
    pub field_modulus: String,
    pub base_field_modulus: String,
    pub witness_fn: circom_prover::witness::WitnessFn,
}

impl CircuitDescriptor {
    /// Validity: both moduli are numerals, every signal name is well
    /// formed, and signal names do not repeat.
    pub open spec fn wf(self) -> bool {
        &&& is_numeral(self.field_modulus@)
        &&& is_numeral(self.base_field_modulus@)
        &&& forall|i: int|
            0 <= i < self.signals@.len() ==> crate::inputs::is_name(
                (#[trigger] self.signals@[i]).name@,
            )
        &&& forall|i: int, j: int|
            0 <= i < j < self.signals@.len() ==> self.signals@[i].name@ != self.signals@[j].name@
    }
}

/// Read-only registry of circuits; built once, then only looked up.
pub struct CircomRegistry {
    entries: Vec<CircuitDescriptor>,
}

/// Builder for the registry; registration of a duplicate circuit_id is a
/// configuration error and is rejected at once.
pub struct CircomRegistryBuilder {
    entries: Vec<CircuitDescriptor>,
}

pub open spec fn ids_unique(es: Seq<CircuitDescriptor>) -> bool {
    forall|i: int, j: int|
        0 <= i < j < es.len() ==> (#[trigger] es[i]).circuit_id@ != (#[trigger] es[j]).circuit_id@
}

pub open spec fn all_wf(es: Seq<CircuitDescriptor>) -> bool {
    forall|i: int| 0 <= i < es.len() ==> (#[trigger] es[i]).wf()
}

pub open spec fn seq_contains_id(es: Seq<CircuitDescriptor>, id: Seq<char>) -> bool {
    exists|i: int| 0 <= i < es.len() && (#[trigger] es[i]).circuit_id@ == id
}

pub open spec fn seq_descriptor_of(es: Seq<CircuitDescriptor>, id: Seq<char>) -> CircuitDescriptor {
    es[choose|i: int| 0 <= i < es.len() && (#[trigger] es[i]).circuit_id@ == id]
}

impl CircomRegistryBuilder {
    pub closed spec fn wf(self) -> bool {
        ids_unique(self.entries@) && all_wf(self.entries@)
    }

    pub closed spec fn contains_id(self, id: Seq<char>) -> bool {
        seq_contains_id(self.entries@, id)
    }

    pub closed spec fn descriptor_of(self, id: Seq<char>) -> CircuitDescriptor {
        seq_descriptor_of(self.entries@, id)
    }

    pub fn new() -> (r: Self)
        ensures
            r.wf(),
            forall|id: Seq<char>| !r.contains_id(id),
    {
        CircomRegistryBuilder { entries: Vec::new() }
    }

    /// Registers a circuit.  Fails, changing nothing, exactly when the
    /// identifier is already taken or the descriptor is not well formed.
    pub fn register(&mut self, d: CircuitDescriptor) -> (r: Result<(), String>)
        requires
            old(self).wf(),
        ensures
            final(self).wf(),
            match r {
                Ok(()) => {
                    &&& d.wf()
                    &&& !old(self).contains_id(d.circuit_id@)
                    &&& forall|id: Seq<char>|
                        final(self).contains_id(id) == (old(self).contains_id(id) || id
                            == d.circuit_id@)
                    &&& final(self).descriptor_of(d.circuit_id@) == d
                    &&& forall|id: Seq<char>|
                        id != d.circuit_id@ && old(self).contains_id(id)
                            ==> final(self).descriptor_of(id) == old(self).descriptor_of(id)
                },
                Err(_) => (!d.wf() || old(self).contains_id(d.circuit_id@))
                    && *final(self) == *old(self),
            },
    {
        if !crate::numerals::check_numeral(d.field_modulus.as_str()) {
            return Err("field modulus is not a decimal numeral".to_owned());
        }
        if !crate::numerals::check_numeral(d.base_field_modulus.as_str()) {
            return Err("base field modulus is not a decimal numeral".to_owned());
        }
        let mut i: usize = 0;
        while i < d.signals.len()
            invariant
                0 <= i <= d.signals@.len(),
                *self == *old(self),
                old(self).wf(),
                forall|p: int|
                    0 <= p < i ==> crate::inputs::is_name((#[trigger] d.signals@[p]).name@),
                forall|p: int, q: int|
                    0 <= p < q < i ==> d.signals@[p].name@ != d.signals@[q].name@,
            decreases d.signals@.len() - i,
        {
            if !crate::inputs::check_name(d.signals[i].name.as_str()) {
                return Err("a signal name may hold only name characters".to_owned());
            }
            let mut j: usize = 0;
            while j < i
                invariant
                    0 <= j <= i < d.signals@.len(),
                    *self == *old(self),
                    old(self).wf(),
                    forall|q: int| 0 <= q < j ==> d.signals@[q].name@ != d.signals@[i as int].name@,
                decreases i - j,
            {
                if str_eq(d.signals[j].name.as_str(), d.signals[i].name.as_str()) {
                    return Err("duplicate signal name in circuit declaration".to_owned());
                }
                j += 1;
            }
            i += 1;
        }
        let mut k: usize = 0;
        while k < self.entries.len()
            invariant
                0 <= k <= self.entries@.len(),
                *self == *old(self),
                old(self).wf(),
                forall|p: int|
                    0 <= p < k ==> (#[trigger] self.entries@[p]).circuit_id@ != d.circuit_id@,
            decreases self.entries@.len() - k,
        {
            if str_eq(self.entries[k].circuit_id.as_str(), d.circuit_id.as_str()) {
                return Err("circuit already registered under this identifier".to_owned());
            }
            k += 1;
        }
        proof {
            assert(d.wf());
            assert(!seq_contains_id(self.entries@, d.circuit_id@));
        }
        let ghost es0 = self.entries@;
        self.entries.push(d);
        proof {
            let es1 = self.entries@;
            assert(es1 == es0.push(d));
            assert forall|id: Seq<char>|
                seq_contains_id(es1, id) == (seq_contains_id(es0, id) || id
                    == d.circuit_id@) by {
                if seq_contains_id(es1, id) {
                    let i = choose|i: int|
                        0 <= i < es1.len() && (#[trigger] es1[i]).circuit_id@ == id;
                    if i < es0.len() {
                        assert(es0[i].circuit_id@ == id);
                    } else {
                        assert(es1[i] == d);
                    }
                }
                if seq_contains_id(es0, id) {
                    let i = choose|i: int|
                        0 <= i < es0.len() && (#[trigger] es0[i]).circuit_id@ == id;
                    assert(es1[i].circuit_id@ == id);
                } else if id == d.circuit_id@ {
                    assert(es1[es0.len() as int].circuit_id@ == id);
                }
            };
            assert(seq_descriptor_of(es1, d.circuit_id@) == d) by {
                let k = choose|i: int|
                    0 <= i < es1.len() && (#[trigger] es1[i]).circuit_id@ == d.circuit_id@;
                if k < es0.len() {
                    assert(es0[k].circuit_id@ == d.circuit_id@);
                    assert(seq_contains_id(es0, d.circuit_id@));
                }
                assert(es1[k] == d);
            };
            assert forall|id: Seq<char>|
                id != d.circuit_id@ && seq_contains_id(es0, id) implies seq_descriptor_of(
                es1,
                id,
            ) == seq_descriptor_of(es0, id) by {
                let k1 = choose|i: int|
                    0 <= i < es1.len() && (#[trigger] es1[i]).circuit_id@ == id;
                let k0 = choose|i: int|
                    0 <= i < es0.len() && (#[trigger] es0[i]).circuit_id@ == id;
                assert(es1[k0].circuit_id@ == id);
                assert(k1 < es0.len());
                assert(es0[k1].circuit_id@ == id);
                if k0 < k1 {
                    assert(es0[k0].circuit_id@ != es0[k1].circuit_id@);
                }
                if k1 < k0 {
                    assert(es0[k1].circuit_id@ != es0[k0].circuit_id@);
                }
                assert(k0 == k1);
            };
            assert(ids_unique(es1)) by {
                assert forall|i: int, j: int| 0 <= i < j < es1.len() implies (
                #[trigger] es1[i]).circuit_id@ != (#[trigger] es1[j]).circuit_id@ by {
                    if j < es0.len() {
                        assert(es0[i].circuit_id@ != es0[j].circuit_id@);
                    } else {
                        assert(es1[j] == d);
                        assert(es0[i].circuit_id@ != d.circuit_id@);
                    }
                };
            };
            assert(all_wf(es1)) by {
                assert forall|i: int| 0 <= i < es1.len() implies (#[trigger] es1[i]).wf() by {
                    if i < es0.len() {
                        assert(es0[i].wf());
                    } else {
                        assert(es1[i] == d);
                    }
                };
            };
        }
        Ok(())
    }

    /// Freezes the builder into the read-only registry.
    pub fn build(self) -> (r: CircomRegistry)
        requires
            self.wf(),
        ensures
            r.wf(),
            forall|id: Seq<char>| r.contains_id(id) == self.contains_id(id),
            forall|id: Seq<char>|
                self.contains_id(id) ==> r.descriptor_of(id) == self.descriptor_of(id),
    {
        CircomRegistry { entries: self.entries }
    }
}

impl CircomRegistry {
    pub closed spec fn wf(self) -> bool {
        ids_unique(self.entries@) && all_wf(self.entries@)
    }

    pub closed spec fn contains_id(self, id: Seq<char>) -> bool {
        seq_contains_id(self.entries@, id)
    }

    /// The descriptor registered under `id` (meaningful when present).
    pub closed spec fn descriptor_of(self, id: Seq<char>) -> CircuitDescriptor {
        seq_descriptor_of(self.entries@, id)
    }

    /// Read-only lookup: the registered descriptor, or `None` exactly when
    /// the identifier is unknown.
    pub fn lookup(&self, circuit_id: &str) -> (r: Option<&CircuitDescriptor>)
        requires
            self.wf(),
        ensures
            match r {
                Some(d) => self.contains_id(circuit_id@) && *d == self.descriptor_of(circuit_id@)
                    && d.wf(),
                None => !self.contains_id(circuit_id@),
            },
    {
        let mut i: usize = 0;
        while i < self.entries.len()
            invariant
                0 <= i <= self.entries@.len(),
                self.wf(),
                forall|p: int|
                    0 <= p < i ==> (#[trigger] self.entries@[p]).circuit_id@ != circuit_id@,
            decreases self.entries@.len() - i,
        {
            if str_eq(self.entries[i].circuit_id.as_str(), circuit_id) {
                proof {
                    assert(seq_contains_id(self.entries@, circuit_id@));
                    let k = choose|k: int|
                        0 <= k < self.entries@.len() && (#[trigger] self.entries@[k]).circuit_id@
                            == circuit_id@;
                    if k < i as int {
                        assert(self.entries@[k].circuit_id@ != circuit_id@);
                    }
                    if (i as int) < k {
                        assert(self.entries@[i as int].circuit_id@
                            != self.entries@[k].circuit_id@);
                    }
                    assert(k == i as int);
                }
                return Some(&self.entries[i]);
            }
            i += 1;
        }
        None
    }
}

} // verus!
