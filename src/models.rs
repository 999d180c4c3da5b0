use vstd::prelude::*;

verus! {

/// A compartment of the network. It carries no volume: only its identity.
#[derive(Clone, Debug, PartialEq)]
pub struct Compartment {
    pub id: String,
    pub name: String,
}

/// A species. `V` is the representation of its initial concentration: the
/// loader yields the attribute text, a host converts it to a number.
#[derive(Clone, Debug, PartialEq)]
pub struct Species<V> {
    pub id: String,
    pub name: String,
    pub compartment: String,
    pub initial_concentration: V,
}

/// A reaction: its reactant and product species ids, in order, where a
/// repeated id stands for a stoichiometric coefficient above one.
#[derive(Clone, Debug, PartialEq)]
pub struct Reaction {
    pub id: String,
    pub name: String,
    pub reactants: Vec<String>,
    pub products: Vec<String>,
    pub kinetic_law: String,
}

/// A named parameter with its value.
#[derive(Clone, Debug, PartialEq)]
pub struct Parameter<V> {
    pub id: String,
    pub value: V,
    pub constant: bool,
}

/// The reaction network: its four collections, each in order of first
/// appearance in the source.
#[derive(Clone, Debug, PartialEq)]
pub struct BioModelData<V> {
    pub compartments: Vec<Compartment>,
    pub species: Vec<Species<V>>,
    pub reactions: Vec<Reaction>,
    pub parameters: Vec<Parameter<V>>,
}

/// A lookup by an id that names nothing in the model.
#[derive(Clone, Debug, PartialEq)]
pub enum LookupError {
    UnknownSpecies(String),
    UnknownParameter(String),
}

/// `i` is the first position in `sp` whose species has the id `id`.
pub open spec fn is_first_species<V>(sp: Seq<Species<V>>, id: Seq<char>, i: int) -> bool {
    &&& 0 <= i < sp.len()
    &&& sp[i].id@ == id
    &&& forall|k: int| 0 <= k < i ==> sp[k].id@ != id
}

/// The position of the first species with the id `id`, if there is one.
pub open spec fn species_index<V>(sp: Seq<Species<V>>, id: Seq<char>) -> Option<int> {
    if exists|i: int| is_first_species(sp, id, i) {
        Some(choose|i: int| is_first_species(sp, id, i))
    } else {
        None
    }
}

/// `i` is the first position in `ps` whose parameter has the id `id`.
pub open spec fn is_first_parameter<V>(ps: Seq<Parameter<V>>, id: Seq<char>, i: int) -> bool {
    &&& 0 <= i < ps.len()
    &&& ps[i].id@ == id
    &&& forall|k: int| 0 <= k < i ==> ps[k].id@ != id
}

/// The position of the first parameter with the id `id`, if there is one.
pub open spec fn parameter_index<V>(ps: Seq<Parameter<V>>, id: Seq<char>) -> Option<int> {
    if exists|i: int| is_first_parameter(ps, id, i) {
        Some(choose|i: int| is_first_parameter(ps, id, i))
    } else {
        None
    }
}

/// `s` with its initial concentration replaced by `v`.
pub open spec fn with_initial<V>(s: Species<V>, v: V) -> Species<V> {
    Species { id: s.id, name: s.name, compartment: s.compartment, initial_concentration: v }
}

/// `p` with its value replaced by `v`.
pub open spec fn with_value<V>(p: Parameter<V>, v: V) -> Parameter<V> {
    Parameter { id: p.id, value: v, constant: p.constant }
}

/// The species after setting the initial concentration of `id` to `v`:
/// the first species of that id changes, or nothing when none has it.
pub open spec fn species_with<V>(sp: Seq<Species<V>>, id: Seq<char>, v: V) -> Seq<Species<V>> {
    match species_index(sp, id) {
        Some(i) => sp.update(i, with_initial(sp[i], v)),
        None => sp,
    }
}

/// The parameters after setting the value of `id` to `v`: the first
/// parameter of that id changes, or nothing when none has it.
pub open spec fn parameters_with<V>(ps: Seq<Parameter<V>>, id: Seq<char>, v: V) -> Seq<Parameter<V>> {
    match parameter_index(ps, id) {
        Some(i) => ps.update(i, with_value(ps[i], v)),
        None => ps,
    }
}

/// The parameters after setting `id` to each value of `vs` in turn.
pub open spec fn parameters_after<V>(ps: Seq<Parameter<V>>, id: Seq<char>, vs: Seq<V>) -> Seq<Parameter<V>>
    decreases vs.len(),
{
    if vs.len() == 0 {
        ps
    } else {
        parameters_with(parameters_after(ps, id, vs.drop_last()), id, vs.last())
    }
}

proof fn lemma_parameter_index_of_update<V>(ps: Seq<Parameter<V>>, id: Seq<char>, j: int, p: Parameter<V>)
    requires
        0 <= j < ps.len(),
        p.id@ == ps[j].id@,
    ensures
        parameter_index(ps.update(j, p), id) == parameter_index(ps, id),
{
    let qs = ps.update(j, p);
    assert(qs.len() == ps.len());
    assert forall|k: int| 0 <= k < ps.len() implies #[trigger] qs[k].id@ == ps[k].id@ by {
        if k != j {
            assert(qs[k] == ps[k]);
        }
    }
    if exists|i: int| is_first_parameter(ps, id, i) {
        let i = choose|i: int| is_first_parameter(ps, id, i);
        assert(is_first_parameter(qs, id, i));
        let i2 = choose|i: int| is_first_parameter(qs, id, i);
        assert(i2 == i) by {
            if i2 < i {
                assert(ps[i2].id@ == id);
            } else if i < i2 {
                assert(qs[i].id@ != id);
            }
        }
    } else {
        if exists|i: int| is_first_parameter(qs, id, i) {
            let i = choose|i: int| is_first_parameter(qs, id, i);
            assert forall|k: int| 0 <= k < i implies ps[k].id@ != id by {
                assert(qs[k].id@ == ps[k].id@);
            }
            assert(is_first_parameter(ps, id, i));
        }
    }
}

/// Setting a parameter leaves the position of every id where it was, and
/// keeps the number of parameters.
pub proof fn lemma_parameters_with_keeps_ids<V>(ps: Seq<Parameter<V>>, id: Seq<char>, v: V, other: Seq<char>)
    ensures
        parameters_with(ps, id, v).len() == ps.len(),
        parameter_index(parameters_with(ps, id, v), other) == parameter_index(ps, other),
{
    if let Some(i) = parameter_index(ps, id) {
        assert(is_first_parameter(ps, id, choose|i: int| is_first_parameter(ps, id, i)));
        lemma_parameter_index_of_update(ps, other, i, with_value(ps[i], v));
    }
}

proof fn lemma_parameters_after_keeps_ids<V>(ps: Seq<Parameter<V>>, id: Seq<char>, vs: Seq<V>)
    ensures
        parameters_after(ps, id, vs).len() == ps.len(),
        parameter_index(parameters_after(ps, id, vs), id) == parameter_index(ps, id),
        forall|k: int| 0 <= k < ps.len() ==> (#[trigger] parameters_after(ps, id, vs)[k]).id == ps[k].id
            && parameters_after(ps, id, vs)[k].constant == ps[k].constant,
        forall|k: int| 0 <= k < ps.len() && Some(k) != parameter_index(ps, id)
            ==> #[trigger] parameters_after(ps, id, vs)[k] == ps[k],
    decreases vs.len(),
{
    if vs.len() > 0 {
        let prev = parameters_after(ps, id, vs.drop_last());
        lemma_parameters_after_keeps_ids(ps, id, vs.drop_last());
        lemma_parameters_with_keeps_ids(prev, id, vs.last(), id);
        if let Some(i) = parameter_index(prev, id) {
            assert(is_first_parameter(prev, id, choose|i: int| is_first_parameter(prev, id, i)));
        }
    }
}

/// A sweep that sets a parameter to any sequence of values and then back to
/// the value it had before leaves the parameters exactly as they were.
pub proof fn lemma_scan_restores_parameters<V>(ps: Seq<Parameter<V>>, id: Seq<char>, vs: Seq<V>)
    requires
        parameter_index(ps, id) is Some,
    ensures
        parameters_with(parameters_after(ps, id, vs), id, ps[parameter_index(ps, id)->0].value) == ps,
{
    let i = parameter_index(ps, id)->0;
    assert(is_first_parameter(ps, id, choose|i: int| is_first_parameter(ps, id, i)));
    let swept = parameters_after(ps, id, vs);
    lemma_parameters_after_keeps_ids(ps, id, vs);
    let back = parameters_with(swept, id, ps[i].value);
    assert(back =~= ps);
}

impl<V> BioModelData<V> {
    /// An empty network.
    pub fn new() -> (r: Self)
        ensures
            r.compartments@.len() == 0,
            r.species@.len() == 0,
            r.reactions@.len() == 0,
            r.parameters@.len() == 0,
    {
        BioModelData {
            compartments: Vec::new(),
            species: Vec::new(),
            reactions: Vec::new(),
            parameters: Vec::new(),
        }
    }

    /// The position of the first species with the id `species_id`.
    pub fn get_species_index(&self, species_id: &str) -> (r: Option<usize>)
        ensures
            r matches Some(i) ==> species_index(self.species@, species_id@) == Some(i as int),
            r is None ==> species_index(self.species@, species_id@) is None,
    {
        let key = String::from_str(species_id);
        let mut i: usize = 0;
        while i < self.species.len()
            invariant
                i <= self.species@.len(),
                key@ == species_id@,
                forall|k: int| 0 <= k < i ==> self.species@[k].id@ != species_id@,
            decreases self.species@.len() - i,
        {
            if self.species[i].id == key {
                proof {
                    let sp = self.species@;
                    assert(is_first_species(sp, species_id@, i as int));
                    let c = choose|c: int| is_first_species(sp, species_id@, c);
                    assert(c == i) by {
                        if c < i {
                            assert(sp[c].id@ == species_id@);
                        }
                    }
                }
                return Some(i);
            }
            i = i + 1;
        }
        None
    }

    /// The position of the first parameter with the id `param_id`.
    pub fn get_parameter_index(&self, param_id: &str) -> (r: Option<usize>)
        ensures
            r matches Some(i) ==> parameter_index(self.parameters@, param_id@) == Some(i as int),
            r is None ==> parameter_index(self.parameters@, param_id@) is None,
    {
        let key = String::from_str(param_id);
        let mut i: usize = 0;
        while i < self.parameters.len()
            invariant
                i <= self.parameters@.len(),
                key@ == param_id@,
                forall|k: int| 0 <= k < i ==> self.parameters@[k].id@ != param_id@,
            decreases self.parameters@.len() - i,
        {
            if self.parameters[i].id == key {
                proof {
                    let ps = self.parameters@;
                    assert(is_first_parameter(ps, param_id@, i as int));
                    let c = choose|c: int| is_first_parameter(ps, param_id@, c);
                    assert(c == i) by {
                        if c < i {
                            assert(ps[c].id@ == param_id@);
                        }
                    }
                }
                return Some(i);
            }
            i = i + 1;
        }
        None
    }

    /// Sets the initial concentration of the first species with the id
    /// `species_id`; fails, changing nothing, when no species has that id.
    pub fn set_initial_concentration(&mut self, species_id: &str, value: V) -> (r: Result<(), LookupError>)
        ensures
            species_index(old(self).species@, species_id@) is Some <==> r is Ok,
            r matches Err(e) ==> (e matches LookupError::UnknownSpecies(s) && s@ == species_id@),
            final(self).species@ == species_with(old(self).species@, species_id@, value),
            final(self).compartments == old(self).compartments,
            final(self).reactions == old(self).reactions,
            final(self).parameters == old(self).parameters,
    {
        match self.get_species_index(species_id) {
            Some(i) => {
                let mut s = self.species.remove(i);
                s.initial_concentration = value;
                self.species.insert(i, s);
                assert(self.species@ =~= species_with(old(self).species@, species_id@, value));
                Ok(())
            },
            None => Err(LookupError::UnknownSpecies(String::from_str(species_id))),
        }
    }

    /// Sets the value of the first parameter with the id `param_id`; fails,
    /// changing nothing, when no parameter has that id.
    pub fn set_parameter(&mut self, param_id: &str, value: V) -> (r: Result<(), LookupError>)
        ensures
            parameter_index(old(self).parameters@, param_id@) is Some <==> r is Ok,
            r matches Err(e) ==> (e matches LookupError::UnknownParameter(s) && s@ == param_id@),
            final(self).parameters@ == parameters_with(old(self).parameters@, param_id@, value),
            final(self).compartments == old(self).compartments,
            final(self).species == old(self).species,
            final(self).reactions == old(self).reactions,
    {
        match self.get_parameter_index(param_id) {
            Some(i) => {
                let mut p = self.parameters.remove(i);
                p.value = value;
                self.parameters.insert(i, p);
                assert(self.parameters@ =~= parameters_with(old(self).parameters@, param_id@, value));
                Ok(())
            },
            None => Err(LookupError::UnknownParameter(String::from_str(param_id))),
        }
    }
}

impl<V: Copy> BioModelData<V> {
    /// The value of the first parameter with the id `param_id`, or `default`
    /// when no parameter has that id.
    pub fn get_parameter_value(&self, param_id: &str, default: V) -> (r: V)
        ensures
            r == match parameter_index(self.parameters@, param_id@) {
                Some(i) => self.parameters@[i].value,
                None => default,
            },
    {
        match self.get_parameter_index(param_id) {
            Some(i) => self.parameters[i].value,
            None => default,
        }
    }
}

} // verus!
