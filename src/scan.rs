use vstd::prelude::*;
use crate::models::{parameter_index, parameters_with, BioModelData, lemma_parameters_with_keeps_ids};

verus! {

/// Why a parameter sweep stopped.
#[derive(Clone, Debug, PartialEq)]
pub enum ScanError<E> {
    /// No parameter has the given id; nothing was run.
    UnknownParameter(String),
    /// A run failed; the sweep stops there.
    Failed(E),
}

/// Setting a parameter and then setting it back to the value it had leaves
/// the parameters as they were.
pub proof fn lemma_set_then_restore<V>(ps: Seq<crate::models::Parameter<V>>, id: Seq<char>, v: V)
    requires
        parameter_index(ps, id) is Some,
    ensures
        parameters_with(parameters_with(ps, id, v), id, ps[parameter_index(ps, id)->0].value) == ps,
{
    let i = parameter_index(ps, id)->0;
    assert(crate::models::is_first_parameter(ps, id, choose|i: int| crate::models::is_first_parameter(ps, id, i)));
    lemma_parameters_with_keeps_ids(ps, id, v, id);
    let swept = parameters_with(ps, id, v);
    assert(parameters_with(swept, id, ps[i].value) =~= ps);
}

/// `m` is the model `base` with the parameter `id` set to `v`: the same
/// compartments, species and reactions.
pub open spec fn swept<V>(m: BioModelData<V>, base: BioModelData<V>, id: Seq<char>, v: V) -> bool {
    &&& m.parameters@ == parameters_with(base.parameters@, id, v)
    &&& m.species == base.species
    &&& m.compartments == base.compartments
    &&& m.reactions == base.reactions
}

impl<V: Copy> BioModelData<V> {
    /// Runs `run` once for each value of `values`, in order, on the model
    /// with the parameter `param_id` set to that value, and pairs each value
    /// with its outcome. The parameter is back at its value before the sweep
    /// on every exit: after the last run, after a failed run, and when the id
    /// names no parameter (then nothing runs).
    pub fn parameter_scan<R, E, F: Fn(&BioModelData<V>) -> Result<R, E>>(
        &mut self,
        param_id: &str,
        values: &Vec<V>,
        run: F,
    ) -> (r: Result<Vec<(V, R)>, ScanError<E>>)
        requires
            forall|m: &BioModelData<V>| #[trigger] run.requires((m,)),
        ensures
            final(self).parameters@ == old(self).parameters@,
            final(self).species == old(self).species,
            final(self).compartments == old(self).compartments,
            final(self).reactions == old(self).reactions,
            parameter_index(old(self).parameters@, param_id@) is None
                <==> r matches Err(ScanError::UnknownParameter(_)),
            r matches Err(ScanError::UnknownParameter(s)) ==> s@ == param_id@,
            r matches Ok(out) ==> out@.len() == values@.len()
                && forall|k: int| 0 <= k < values@.len() ==> (#[trigger] out@[k]).0 == values@[k]
                    && exists|m: BioModelData<V>| swept(m, *old(self), param_id@, values@[k])
                        && #[trigger] run.ensures((&m,), Ok(out@[k].1)),
            r matches Err(ScanError::Failed(e)) ==> exists|k: int, m: BioModelData<V>| 0 <= k < values@.len()
                && #[trigger] swept(m, *old(self), param_id@, values@[k]) && #[trigger] run.ensures((&m,), Err::<R, E>(e)),
    {
        let i = match self.get_parameter_index(param_id) {
            Some(i) => i,
            None => {
                return Err(ScanError::UnknownParameter(String::from_str(param_id)));
            },
        };
        let original = self.parameters[i].value;
        let ghost ps = self.parameters@;
        let mut out: Vec<(V, R)> = Vec::new();
        let mut k: usize = 0;
        while k < values.len()
            invariant
                k <= values@.len(),
                self.parameters@ == ps,
                self.species == old(self).species,
                self.compartments == old(self).compartments,
                self.reactions == old(self).reactions,
                ps == old(self).parameters@,
                parameter_index(ps, param_id@) == Some(i as int),
                original == ps[i as int].value,
                forall|m: &BioModelData<V>| #[trigger] run.requires((m,)),
                out@.len() == k,
                forall|q: int| 0 <= q < k ==> (#[trigger] out@[q]).0 == values@[q]
                    && exists|m: BioModelData<V>| swept(m, *old(self), param_id@, values@[q])
                        && #[trigger] run.ensures((&m,), Ok(out@[q].1)),
            decreases values@.len() - k,
        {
            let v = values[k];
            let _ = self.set_parameter(param_id, v);
            let ghost seen = *self;
            let outcome = run(&*self);
            proof {
                lemma_set_then_restore(ps, param_id@, v);
                lemma_parameters_with_keeps_ids(ps, param_id@, v, param_id@);
            }
            let _ = self.set_parameter(param_id, original);
            match outcome {
                Ok(res) => {
                    let ghost before = out@;
                    out.push((v, res));
                    assert(run.ensures((&seen,), Ok(out@[k as int].1)));
                    assert(swept(seen, *old(self), param_id@, values@[k as int]));
                    assert forall|q: int| 0 <= q < k implies #[trigger] out@[q] == before[q] by {}
                },
                Err(e) => {
                    assert(run.ensures((&seen,), Err(e)));
                    assert(swept(seen, *old(self), param_id@, values@[k as int]));
                    let ghost cause = e;
                    let failed: Result<Vec<(V, R)>, ScanError<E>> = Err(ScanError::Failed(e));
                    assert(failed matches Err(ScanError::Failed(x)) && x == cause);
                    return failed;
                },
            }
            k = k + 1;
        }
        Ok(out)
    }
}

} // verus!
