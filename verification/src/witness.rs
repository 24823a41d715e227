//! The witness computation engine: validates named inputs against the
//! circuit's declared signals, checks every value against the field
//! modulus, and only then dispatches to the circuit's witness generator.

use vstd::prelude::*;

use crate::backend::{run_native_witness, witness_outcome_of, witness_outcome_view};
use crate::errors::MoproError;
use crate::inputs::{
    backend_json_of, is_name, to_backend_json, wf_entries, wf_entry_value, CircuitInputs,
    InputValueV,
};
use crate::numerals::{check_numeral, dec_val, is_numeral, numeral_lt};
use crate::proofdata::wf_inputs_list;
use crate::registry::{CircuitDescriptor, SignalShape, SignalSpec};
use crate::strutil::{ends_with, str_eq};

verus! {

/// A written value fits a declared signal: a scalar for a scalar signal,
/// an array of exactly the declared length for an array signal.
pub open spec fn shape_matches(v: InputValueV, sh: SignalShape) -> bool {
    match v {
        InputValueV::Scalar(_) => sh is Scalar,
        InputValueV::Array(vs) => sh matches SignalShape::Array(n) && vs.len() == n,
    }
}

/// The written inputs match the declared signals exactly (continued below).
/// The entry at `p` names a declared signal and fits its shape.
pub open spec fn entry_declared(
    es: Seq<(Seq<char>, InputValueV)>,
    sigs: Seq<SignalSpec>,
    p: int,
) -> bool {
    exists|k: int|
        0 <= k < sigs.len() && (#[trigger] sigs[k]).name@ == es[p].0 && shape_matches(
            es[p].1,
            sigs[k].shape,
        )
}

/// The declared signal at `k` is written somewhere in the entries.
pub open spec fn signal_present(
    es: Seq<(Seq<char>, InputValueV)>,
    sigs: Seq<SignalSpec>,
    k: int,
) -> bool {
    exists|i: int| 0 <= i < es.len() && (#[trigger] es[i]).0 == sigs[k].name@
}

/// The written inputs match the declared signals exactly: no name twice,
/// every written name declared with a fitting shape, every declared signal
/// present.
pub open spec fn matches_signals(
    es: Seq<(Seq<char>, InputValueV)>,
    sigs: Seq<SignalSpec>,
) -> bool {
    &&& forall|i: int, j: int|
        0 <= i < j < es.len() ==> (#[trigger] es[i]).0 != (#[trigger] es[j]).0
    &&& forall|i: int| 0 <= i < es.len() ==> #[trigger] entry_declared(es, sigs, i)
    &&& forall|k: int| 0 <= k < sigs.len() ==> #[trigger] signal_present(es, sigs, k)
}

/// `nm` names a signal on which the written inputs and the declaration
/// disagree: a name written twice, a written name that is undeclared or
/// declared with another shape, or a declared name that is missing.
pub open spec fn offending_signal(
    nm: Seq<char>,
    es: Seq<(Seq<char>, InputValueV)>,
    sigs: Seq<SignalSpec>,
) -> bool {
    ||| exists|i: int, j: int|
        0 <= i < j < es.len() && (#[trigger] es[i]).0 == (#[trigger] es[j]).0 && es[j].0 == nm
    ||| exists|i: int|
        0 <= i < es.len() && (#[trigger] es[i]).0 == nm && !entry_declared(es, sigs, i)
    ||| exists|k: int|
        0 <= k < sigs.len() && (#[trigger] sigs[k]).name@ == nm && !signal_present(es, sigs, k)
}

/// The message `m` ends with the name of a signal on which the written
/// inputs and the declaration disagree.
pub open spec fn names_offender(
    m: Seq<char>,
    es: Seq<(Seq<char>, InputValueV)>,
    sigs: Seq<SignalSpec>,
) -> bool {
    exists|nm: Seq<char>| offending_signal(nm, es, sigs) && #[trigger] ends_with(m, nm)
}

/// One written value lies within the field: every element is a numeral
/// below the modulus.
pub open spec fn value_in_range(v: InputValueV, m: Seq<char>) -> bool {
    match v {
        InputValueV::Scalar(x) => is_numeral(x) && dec_val(x) < dec_val(m),
        InputValueV::Array(vs) => forall|j: int|
            0 <= j < vs.len() ==> is_numeral(#[trigger] vs[j]) && dec_val(vs[j]) < dec_val(m),
    }
}

pub open spec fn values_in_range(es: Seq<(Seq<char>, InputValueV)>, m: Seq<char>) -> bool {
    forall|i: int| 0 <= i < es.len() ==> #[trigger] value_in_range(es[i].1, m)
}

fn shape_check(v: &crate::inputs::InputValue, sh: SignalShape) -> (r: bool)
    ensures
        r == shape_matches(v@, sh),
{
    match v {
        crate::inputs::InputValue::Scalar(_) => match sh {
            SignalShape::Scalar => true,
            SignalShape::Array(_) => false,
        },
        crate::inputs::InputValue::Array(vs) => match sh {
            SignalShape::Scalar => false,
            SignalShape::Array(n) => vs.len() == n,
        },
    }
}

/// Validation of written inputs against declared signals, exactly
/// `matches_signals`; on failure, names the first offending signal.
pub fn validate_inputs(sigs: &Vec<SignalSpec>, ci: &CircuitInputs) -> (r: Option<String>)
    requires
        forall|i: int, j: int|
            0 <= i < j < sigs@.len() ==> sigs@[i].name@ != sigs@[j].name@,
    ensures
        match r {
            None => matches_signals(ci@, sigs@),
            Some(nm) => !matches_signals(ci@, sigs@) && offending_signal(nm@, ci@, sigs@),
        },
{
    let n = ci.entries.len();
    proof {
        assert(ci@.len() == ci.entries@.len());
    }
    let mut i: usize = 0;
    while i < n
        invariant
            0 <= i <= n,
            n == ci.entries@.len(),
            forall|p: int, q: int| 0 <= p < q < i ==> (ci@[p]).0 != (ci@[q]).0,
        decreases n - i,
    {
        let mut j: usize = 0;
        while j < i
            invariant
                0 <= j <= i < n,
                n == ci.entries@.len(),
                forall|q: int| 0 <= q < j ==> (ci@[q]).0 != (ci@[i as int]).0,
            decreases i - j,
        {
            if str_eq(ci.entries[j].0.as_str(), ci.entries[i].0.as_str()) {
                let nm = ci.entries[i].0.clone();
                proof {
                    assert(ci@.len() == ci.entries@.len());
                    assert((ci@[j as int]).0 == (ci@[i as int]).0);
                    assert(0 <= j < i < ci@.len() && ci@[j as int].0 == ci@[i as int].0
                        && ci@[i as int].0 == nm@);
                }
                return Some(nm);
            }
            j += 1;
        }
        i += 1;
    }
    let mut a: usize = 0;
    while a < n
        invariant
            0 <= a <= n,
            n == ci.entries@.len(),
            forall|i: int, j: int|
                0 <= i < j < sigs@.len() ==> sigs@[i].name@ != sigs@[j].name@,
            forall|p: int| 0 <= p < a ==> #[trigger] entry_declared(ci@, sigs@, p),
        decreases n - a,
    {
        let mut k: usize = 0;
        let m = sigs.len();
        let mut found: bool = false;
        while k < m && !found
            invariant
                0 <= k <= m,
                m == sigs@.len(),
                a < n,
                n == ci.entries@.len(),
                forall|i: int, j: int|
                    0 <= i < j < sigs@.len() ==> sigs@[i].name@ != sigs@[j].name@,
                !found ==> forall|q: int|
                    0 <= q < k ==> (#[trigger] sigs@[q]).name@ != ci@[a as int].0,
                found ==> entry_declared(ci@, sigs@, a as int),
            decreases m - k,
        {
            if str_eq(sigs[k].name.as_str(), ci.entries[a].0.as_str()) {
                if shape_check(&ci.entries[a].1, sigs[k].shape) {
                    found = true;
                    proof {
                        assert(sigs@[k as int].name@ == ci@[a as int].0 && shape_matches(
                            ci@[a as int].1,
                            sigs@[k as int].shape,
                        ));
                        assert(entry_declared(ci@, sigs@, a as int));
                    }
                } else {
                    proof {
                        assert(ci@.len() == ci.entries@.len());
                        assert(!entry_declared(ci@, sigs@, a as int)) by {
                            if entry_declared(ci@, sigs@, a as int) {
                                let k0 = choose|q: int|
                                    0 <= q < sigs@.len() && (#[trigger] sigs@[q]).name@ == ci@[
                                        a as int
                                    ].0 && shape_matches(ci@[a as int].1, sigs@[q].shape);
                                if k0 < k as int {
                                    assert(sigs@[k0].name@ != ci@[a as int].0);
                                }
                                if (k as int) < k0 {
                                    assert(sigs@[k as int].name@ != sigs@[k0].name@);
                                }
                                assert(k0 == k as int);
                                assert(shape_matches(ci@[a as int].1, sigs@[k as int].shape));
                            }
                        };
                        assert(!matches_signals(ci@, sigs@));
                    }
                    let nm = ci.entries[a].0.clone();
                    proof {
                        assert(0 <= a < ci@.len() && ci@[a as int].0 == nm@ && !entry_declared(
                            ci@,
                            sigs@,
                            a as int,
                        ));
                    }
                    return Some(nm);
                }
            }
            k += 1;
        }
        if !found {
            proof {
                assert(ci@.len() == ci.entries@.len());
                assert(!entry_declared(ci@, sigs@, a as int)) by {
                    if entry_declared(ci@, sigs@, a as int) {
                        let k0 = choose|q: int|
                            0 <= q < sigs@.len() && (#[trigger] sigs@[q]).name@ == ci@[a as int].0
                                && shape_matches(ci@[a as int].1, sigs@[q].shape);
                        assert(sigs@[k0].name@ != ci@[a as int].0);
                    }
                };
                assert(!matches_signals(ci@, sigs@));
            }
            let nm = ci.entries[a].0.clone();
            proof {
                assert(0 <= a < ci@.len() && ci@[a as int].0 == nm@ && !entry_declared(
                    ci@,
                    sigs@,
                    a as int,
                ));
            }
            return Some(nm);
        }
        a += 1;
    }
    let mut b: usize = 0;
    let m = sigs.len();
    while b < m
        invariant
            0 <= b <= m,
            m == sigs@.len(),
            n == ci.entries@.len(),
            forall|p: int, q: int| 0 <= p < q < n ==> (ci@[p]).0 != (ci@[q]).0,
            forall|p: int| 0 <= p < n ==> #[trigger] entry_declared(ci@, sigs@, p),
            forall|k: int| 0 <= k < b ==> #[trigger] signal_present(ci@, sigs@, k),
        decreases m - b,
    {
        let mut p: usize = 0;
        let mut present: bool = false;
        while p < n && !present
            invariant
                0 <= p <= n,
                b < m,
                m == sigs@.len(),
                n == ci.entries@.len(),
                !present ==> forall|q: int|
                    0 <= q < p ==> (#[trigger] ci@[q]).0 != sigs@[b as int].name@,
                present ==> signal_present(ci@, sigs@, b as int),
            decreases n - p,
        {
            if str_eq(ci.entries[p].0.as_str(), sigs[b].name.as_str()) {
                proof {
                    assert(ci@[p as int].0 == sigs@[b as int].name@);
                    assert(signal_present(ci@, sigs@, b as int));
                }
                present = true;
            }
            p += 1;
        }
        if !present {
            proof {
                assert(ci@.len() == ci.entries@.len());
                assert(!signal_present(ci@, sigs@, b as int)) by {
                    if signal_present(ci@, sigs@, b as int) {
                        let i0 = choose|q: int|
                            0 <= q < ci@.len() && (#[trigger] ci@[q]).0 == sigs@[b as int].name@;
                        assert(ci@[i0].0 != sigs@[b as int].name@);
                    }
                };
                assert(!matches_signals(ci@, sigs@));
            }
            let nm = sigs[b].name.clone();
            proof {
                assert(0 <= b < sigs@.len() && sigs@[b as int].name@ == nm@ && !signal_present(
                    ci@,
                    sigs@,
                    b as int,
                ));
            }
            return Some(nm);
        }
        b += 1;
    }
    proof {
        assert(ci@.len() == ci.entries@.len());
        assert(matches_signals(ci@, sigs@));
    }
    None
}

/// Range check of every written value against the field modulus, exactly
/// `values_in_range`.
pub fn check_ranges(ci: &CircuitInputs, modulus: &str) -> (r: bool)
    requires
        is_numeral(modulus@),
    ensures
        r == values_in_range(ci@, modulus@),
{
    let n = ci.entries.len();
    let mut i: usize = 0;
    while i < n
        invariant
            0 <= i <= n,
            n == ci.entries@.len(),
            is_numeral(modulus@),
            forall|p: int| 0 <= p < i ==> #[trigger] value_in_range(ci@[p].1, modulus@),
        decreases n - i,
    {
        match &ci.entries[i].1 {
            crate::inputs::InputValue::Scalar(x) => {
                if !check_numeral(x.as_str()) || !numeral_lt(x.as_str(), modulus) {
                    proof {
                        assert(ci@.len() == ci.entries@.len());
                        assert(ci@[i as int].1 == InputValueV::Scalar(x@));
                        assert(!value_in_range(ci@[i as int].1, modulus@));
                        assert(!values_in_range(ci@, modulus@));
                    }
                    return false;
                }
                proof {
                    assert(ci@[i as int].1 == InputValueV::Scalar(x@));
                    assert(value_in_range(ci@[i as int].1, modulus@));
                }
            },
            crate::inputs::InputValue::Array(vs) => {
                let mut j: usize = 0;
                while j < vs.len()
                    invariant
                        0 <= j <= vs@.len(),
                        i < n,
                        n == ci.entries@.len(),
                        ci.entries@[i as int].1 == crate::inputs::InputValue::Array(*vs),
                        is_numeral(modulus@),
                        forall|q: int|
                            0 <= q < j ==> is_numeral(#[trigger] vs@[q]@) && dec_val(vs@[q]@)
                                < dec_val(modulus@),
                    decreases vs@.len() - j,
                {
                    if !check_numeral(vs[j].as_str()) || !numeral_lt(vs[j].as_str(), modulus) {
                        proof {
                            assert(ci@.len() == ci.entries@.len());
                            let mapped = vs@.map_values(|x: String| x@);
                            assert(mapped.len() == vs@.len());
                            assert(mapped[j as int] == vs@[j as int]@);
                            assert(ci@[i as int].1 == InputValueV::Array(mapped));
                            assert(!value_in_range(ci@[i as int].1, modulus@)) by {
                                if value_in_range(ci@[i as int].1, modulus@) {
                                    let ws = ci@[i as int].1->Array_0;
                                    assert(ws == mapped);
                                    assert(is_numeral(ws[j as int]) && dec_val(ws[j as int])
                                        < dec_val(modulus@));
                                    assert(ws[j as int] == mapped[j as int]);
                                }
                            };
                            assert(!values_in_range(ci@, modulus@));
                        }
                        return false;
                    }
                    j += 1;
                }
                proof {
                    let mapped = vs@.map_values(|x: String| x@);
                    assert(mapped.len() == vs@.len());
                    assert(forall|q: int| 0 <= q < mapped.len() ==> #[trigger] mapped[q] == vs@[q]@);
                    assert(ci@[i as int].1 == InputValueV::Array(mapped));
                    assert(value_in_range(ci@[i as int].1, modulus@)) by {
                        let ws = ci@[i as int].1->Array_0;
                        assert(ws == mapped);
                        assert(forall|q: int|
                            0 <= q < ws.len() ==> is_numeral(#[trigger] ws[q]) && dec_val(ws[q])
                                < dec_val(modulus@)) by {
                            assert forall|q: int|
                                0 <= q < ws.len() implies is_numeral(#[trigger] ws[q]) && dec_val(
                                ws[q],
                            ) < dec_val(modulus@) by {
                                assert(ws[q] == vs@[q]@);
                            };
                        };
                    };
                }
            },
        }
        i += 1;
    }
    true
}

/// Inputs that match a well-formed circuit's signals and lie within its
/// field are well-formed entries: their canonical backend form is a valid
/// input object.
pub proof fn lemma_wf_entries_from_match(
    es: Seq<(Seq<char>, InputValueV)>,
    d: CircuitDescriptor,
)
    requires
        d.wf(),
        matches_signals(es, d.signals@),
        values_in_range(es, d.field_modulus@),
    ensures
        wf_entries(es),
{
    assert forall|i: int|
        0 <= i < es.len() implies is_name((#[trigger] es[i]).0) && wf_entry_value(es[i].1) by {
        assert(entry_declared(es, d.signals@, i));
        let k = choose|k: int|
            0 <= k < d.signals@.len() && (#[trigger] d.signals@[k]).name@ == es[i].0
                && shape_matches(es[i].1, d.signals@[k].shape);
        assert(is_name(d.signals@[k].name@));
        assert(value_in_range(es[i].1, d.field_modulus@));
    };
}

/// Computes the full witness vector for one circuit invocation.
///
/// Validation precedes computation: inputs that do not match the declared
/// signals yield `InvalidInput` and the witness generator is never invoked;
/// a value outside the field yields `WitnessComputation`; otherwise the
/// generator runs, and its own failure (an unsatisfiable constraint) is
/// `WitnessComputation`.
pub fn compute_witness(d: &CircuitDescriptor, ci: &CircuitInputs) -> (r: Result<
    Vec<String>,
    MoproError,
>)
    requires
        d.wf(),
    ensures
        (r matches Err(e) && e matches MoproError::InvalidInput(_)) <==> !matches_signals(
            ci@,
            d.signals@,
        ),
        r matches Err(e) ==> (e matches MoproError::InvalidInput(m) ==> names_offender(
            m@,
            ci@,
            d.signals@,
        )),
        matches_signals(ci@, d.signals@) && !values_in_range(ci@, d.field_modulus@)
            ==> (r matches Err(e) && e matches MoproError::WitnessComputation(_)),
        r matches Ok(w) ==> matches_signals(ci@, d.signals@) && values_in_range(
            ci@,
            d.field_modulus@,
        ) && wf_inputs_list(w@),
        matches_signals(ci@, d.signals@) && values_in_range(ci@, d.field_modulus@) ==> (match r {
            Ok(w) => witness_outcome_of(d.witness_fn, backend_json_of(ci@)) matches Ok(t)
                && w@.map_values(|s: String| s@) == t,
            Err(e) => e matches MoproError::WitnessComputation(_) && (witness_outcome_of(
                d.witness_fn,
                backend_json_of(ci@),
            ) matches Err(_)),
        }),
{
    if let Some(name) = validate_inputs(&d.signals, ci) {
        let msg = "inputs do not match the declared signal ".to_owned().concat(name.as_str());
        proof {
            assert(ends_with(msg@, name@)) by {
                assert(msg@.subrange(msg@.len() - name@.len(), msg@.len() as int) =~= name@);
            }
            assert(names_offender(msg@, ci@, d.signals@)) by {
                assert(offending_signal(name@, ci@, d.signals@) && ends_with(msg@, name@));
            }
        }
        return Err(MoproError::InvalidInput(msg));
    }
    if !check_ranges(ci, d.field_modulus.as_str()) {
        return Err(
            MoproError::WitnessComputation(
                "an input value lies outside the circuit's field".to_owned(),
            ),
        );
    }
    let json = to_backend_json(ci);
    proof {
        lemma_wf_entries_from_match(ci@, *d);
        assert(json@ == backend_json_of(ci@));
    }
    match run_native_witness(&d.witness_fn, json.as_str()) {
        Ok(w) => Ok(w),
        Err(m) => Err(MoproError::WitnessComputation(m)),
    }
}

} // verus!
