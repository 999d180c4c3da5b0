use vstd::prelude::*;
use crate::models::{BioModelData, Species, species_index};

verus! {

/// Each id of `ids` resolved to the position of its species, `None` for an
/// id that names no species.
pub open spec fn resolved<V>(sp: Seq<Species<V>>, ids: Seq<String>) -> Seq<Option<int>> {
    ids.map_values(|x: String| species_index(sp, x@))
}

/// How many entries of `s` are `Some(i)`.
pub open spec fn occurrences(s: Seq<Option<int>>, i: int) -> int
    decreases s.len(),
{
    if s.len() == 0 {
        0
    } else {
        occurrences(s.drop_last(), i) + if s.last() == Some(i) { 1int } else { 0int }
    }
}

/// The net number of molecules of species `i` that one firing of reaction
/// `j` makes: its occurrences among the products less those among the
/// reactants. Ids that name no species count for nothing.
pub open spec fn net_coefficient<V>(m: BioModelData<V>, i: int, j: int) -> int {
    occurrences(resolved(m.species@, m.reactions@[j].products@), i)
        - occurrences(resolved(m.species@, m.reactions@[j].reactants@), i)
}

/// No reaction lists more species references than an `i64` can count.
pub open spec fn counts_fit<V>(m: BioModelData<V>) -> bool {
    forall|j: int| 0 <= j < m.reactions@.len() ==> (#[trigger] m.reactions@[j]).reactants@.len() <= i64::MAX
        && m.reactions@[j].products@.len() <= i64::MAX
}

proof fn lemma_occurrences_bounded(s: Seq<Option<int>>, i: int)
    ensures
        0 <= occurrences(s, i) <= s.len(),
    decreases s.len(),
{
    if s.len() > 0 {
        lemma_occurrences_bounded(s.drop_last(), i);
    }
}

impl<V> BioModelData<V> {
    /// The species position of each id in `ids`, in order; `None` where an
    /// id names no species.
    pub fn resolve_ids(&self, ids: &Vec<String>) -> (r: Vec<Option<usize>>)
        ensures
            r@.len() == ids@.len(),
            forall|k: int| 0 <= k < ids@.len() ==> (match #[trigger] r@[k] {
                Some(i) => resolved(self.species@, ids@)[k] == Some(i as int),
                None => resolved(self.species@, ids@)[k] is None,
            }),
    {
        let mut r: Vec<Option<usize>> = Vec::new();
        let mut k: usize = 0;
        while k < ids.len()
            invariant
                k <= ids@.len(),
                r@.len() == k,
                forall|q: int| 0 <= q < k ==> (match #[trigger] r@[q] {
                    Some(i) => resolved(self.species@, ids@)[q] == Some(i as int),
                    None => resolved(self.species@, ids@)[q] is None,
                }),
            decreases ids@.len() - k,
        {
            let x = self.get_species_index(ids[k].as_str());
            r.push(x);
            k = k + 1;
        }
        r
    }
}

/// How many entries of `resolved_ids` are `Some(i)`.
fn count_index(resolved_ids: &Vec<Option<usize>>, i: usize, Ghost(s): Ghost<Seq<Option<int>>>) -> (n: u64)
    requires
        s.len() == resolved_ids@.len(),
        forall|k: int| 0 <= k < s.len() ==> (match #[trigger] resolved_ids@[k] {
            Some(x) => s[k] == Some(x as int),
            None => s[k] is None,
        }),
    ensures
        n == occurrences(s, i as int),
{
    let mut n: u64 = 0;
    let mut k: usize = 0;
    while k < resolved_ids.len()
        invariant
            k <= resolved_ids@.len(),
            s.len() == resolved_ids@.len(),
            forall|q: int| 0 <= q < s.len() ==> (match #[trigger] resolved_ids@[q] {
                Some(x) => s[q] == Some(x as int),
                None => s[q] is None,
            }),
            n == occurrences(s.take(k as int), i as int),
        decreases resolved_ids@.len() - k,
    {
        proof {
            assert(s.take(k as int + 1).drop_last() =~= s.take(k as int));
            lemma_occurrences_bounded(s.take(k as int), i as int);
        }
        let hit = match resolved_ids[k] {
            Some(x) => x == i,
            None => false,
        };
        if hit {
            n = n + 1;
        }
        k = k + 1;
    }
    assert(s.take(k as int) =~= s);
    n
}

/// The stoichiometric matrix of the network, one row per species and one
/// column per reaction: entry `[i][j]` is the net number of molecules of
/// species `i` that one firing of reaction `j` makes.
pub fn stoichiometry_matrix<V>(model: &BioModelData<V>) -> (r: Vec<Vec<i64>>)
    requires
        counts_fit(*model),
    ensures
        r@.len() == model.species@.len(),
        forall|i: int| 0 <= i < r@.len() ==> (#[trigger] r@[i])@.len() == model.reactions@.len(),
        forall|i: int, j: int| 0 <= i < model.species@.len() && 0 <= j < model.reactions@.len()
            ==> #[trigger] r@[i]@[j] == net_coefficient(*model, i, j),
{
    let n_species = model.species.len();
    let n_reactions = model.reactions.len();
    let mut consumed: Vec<Vec<Option<usize>>> = Vec::new();
    let mut produced: Vec<Vec<Option<usize>>> = Vec::new();
    let mut j: usize = 0;
    while j < n_reactions
        invariant
            j <= n_reactions == model.reactions@.len(),
            consumed@.len() == j,
            produced@.len() == j,
            forall|q: int, k: int| 0 <= q < j && 0 <= k < model.reactions@[q].reactants@.len() ==> (
                match #[trigger] consumed@[q]@[k] {
                    Some(x) => resolved(model.species@, model.reactions@[q].reactants@)[k] == Some(x as int),
                    None => resolved(model.species@, model.reactions@[q].reactants@)[k] is None,
                }),
            forall|q: int| 0 <= q < j ==> #[trigger] consumed@[q]@.len() == model.reactions@[q].reactants@.len(),
            forall|q: int, k: int| 0 <= q < j && 0 <= k < model.reactions@[q].products@.len() ==> (
                match #[trigger] produced@[q]@[k] {
                    Some(x) => resolved(model.species@, model.reactions@[q].products@)[k] == Some(x as int),
                    None => resolved(model.species@, model.reactions@[q].products@)[k] is None,
                }),
            forall|q: int| 0 <= q < j ==> #[trigger] produced@[q]@.len() == model.reactions@[q].products@.len(),
        decreases n_reactions - j,
    {
        consumed.push(model.resolve_ids(&model.reactions[j].reactants));
        produced.push(model.resolve_ids(&model.reactions[j].products));
        j = j + 1;
    }
    let mut r: Vec<Vec<i64>> = Vec::new();
    let mut i: usize = 0;
    while i < n_species
        invariant
            i <= n_species == model.species@.len(),
            n_reactions == model.reactions@.len(),
            counts_fit(*model),
            consumed@.len() == n_reactions,
            produced@.len() == n_reactions,
            forall|q: int, k: int| 0 <= q < n_reactions && 0 <= k < model.reactions@[q].reactants@.len() ==> (
                match #[trigger] consumed@[q]@[k] {
                    Some(x) => resolved(model.species@, model.reactions@[q].reactants@)[k] == Some(x as int),
                    None => resolved(model.species@, model.reactions@[q].reactants@)[k] is None,
                }),
            forall|q: int| 0 <= q < n_reactions ==> #[trigger] consumed@[q]@.len() == model.reactions@[q].reactants@.len(),
            forall|q: int, k: int| 0 <= q < n_reactions && 0 <= k < model.reactions@[q].products@.len() ==> (
                match #[trigger] produced@[q]@[k] {
                    Some(x) => resolved(model.species@, model.reactions@[q].products@)[k] == Some(x as int),
                    None => resolved(model.species@, model.reactions@[q].products@)[k] is None,
                }),
            forall|q: int| 0 <= q < n_reactions ==> #[trigger] produced@[q]@.len() == model.reactions@[q].products@.len(),
            r@.len() == i,
            forall|a: int| 0 <= a < i ==> (#[trigger] r@[a])@.len() == n_reactions,
            forall|a: int, b: int| 0 <= a < i && 0 <= b < n_reactions
                ==> #[trigger] r@[a]@[b] == net_coefficient(*model, a, b),
        decreases n_species - i,
    {
        let mut row: Vec<i64> = Vec::new();
        let mut j: usize = 0;
        while j < n_reactions
            invariant
                i < n_species == model.species@.len(),
                j <= n_reactions == model.reactions@.len(),
                counts_fit(*model),
                consumed@.len() == n_reactions,
                produced@.len() == n_reactions,
                forall|q: int, k: int| 0 <= q < n_reactions && 0 <= k < model.reactions@[q].reactants@.len() ==> (
                    match #[trigger] consumed@[q]@[k] {
                        Some(x) => resolved(model.species@, model.reactions@[q].reactants@)[k] == Some(x as int),
                        None => resolved(model.species@, model.reactions@[q].reactants@)[k] is None,
                    }),
                forall|q: int| 0 <= q < n_reactions ==> #[trigger] consumed@[q]@.len() == model.reactions@[q].reactants@.len(),
                forall|q: int, k: int| 0 <= q < n_reactions && 0 <= k < model.reactions@[q].products@.len() ==> (
                    match #[trigger] produced@[q]@[k] {
                        Some(x) => resolved(model.species@, model.reactions@[q].products@)[k] == Some(x as int),
                        None => resolved(model.species@, model.reactions@[q].products@)[k] is None,
                    }),
                forall|q: int| 0 <= q < n_reactions ==> #[trigger] produced@[q]@.len() == model.reactions@[q].products@.len(),
                row@.len() == j,
                forall|b: int| 0 <= b < j ==> row@[b] == net_coefficient(*model, i as int, b),
            decreases n_reactions - j,
        {
            let ghost rs = resolved(model.species@, model.reactions@[j as int].reactants@);
            let ghost ps = resolved(model.species@, model.reactions@[j as int].products@);
            let out = count_index(&consumed[j], i, Ghost(rs));
            let made = count_index(&produced[j], i, Ghost(ps));
            proof {
                lemma_occurrences_bounded(rs, i as int);
                lemma_occurrences_bounded(ps, i as int);
                assert(model.reactions@[j as int].reactants@.len() <= i64::MAX);
                assert(model.reactions@[j as int].products@.len() <= i64::MAX);
            }
            let entry: i64 = if made >= out {
                (made - out) as i64
            } else {
                -((out - made) as i64)
            };
            assert(entry == net_coefficient(*model, i as int, j as int));
            row.push(entry);
            j = j + 1;
        }
        r.push(row);
        i = i + 1;
    }
    r
}

/// A time course: the time points, and the values of every species at each
/// of them, time-major (all species at the first time point, then the next).
#[derive(Clone, Debug, PartialEq)]
pub struct SimulationResults<V> {
    pub time: Vec<V>,
    pub values: Vec<V>,
    pub species_names: Vec<String>,
    pub num_species: usize,
}

impl<V> SimulationResults<V> {
    /// Every time point holds one value per species.
    pub open spec fn well_formed(&self) -> bool {
        self.values@.len() == self.time@.len() * self.num_species
    }
}

impl<V: Copy> SimulationResults<V> {
    /// The values of one species at each time point, in order.
    pub fn get_species_trajectory(&self, species_index: usize) -> (r: Vec<V>)
        requires
            self.well_formed(),
            species_index < self.num_species,
        ensures
            r@.len() == self.time@.len(),
            forall|i: int| 0 <= i < r@.len() ==> #[trigger] r@[i] == self.values@[i * self.num_species + species_index],
    {
        let n = self.num_species;
        let len = self.values.len();
        let mut trajectory: Vec<V> = Vec::new();
        let mut i: usize = 0;
        while i < self.time.len()
            invariant
                self.well_formed(),
                n == self.num_species,
                len == self.values@.len(),
                species_index < n,
                i <= self.time@.len(),
                trajectory@.len() == i,
                forall|k: int| 0 <= k < i ==> #[trigger] trajectory@[k] == self.values@[k * n + species_index],
            decreases self.time@.len() - i,
        {
            proof {
                let t = self.time@.len() as int;
                assert((i as int) * n + species_index < t * n) by (nonlinear_arith)
                    requires i < t, species_index < n;
            }
            let at = i * n + species_index;
            trajectory.push(self.values[at]);
            i = i + 1;
        }
        trajectory
    }
}

/// A fixed-step integration method.
#[derive(Clone, Copy, Debug, PartialEq, Eq, Structural)]
pub enum Method {
    Euler,
    RungeKutta4,
}

/// The method a name selects: `"euler"` selects Euler's method, and every
/// other name, `"rk4"` among them, the classic fourth-order Runge-Kutta method.
pub open spec fn method_of(name: Seq<char>) -> Method {
    if name == "euler"@ {
        Method::Euler
    } else {
        Method::RungeKutta4
    }
}

/// The integration method that `name` selects.
pub fn method_from_name(name: &str) -> (m: Method)
    ensures
        m == method_of(name@),
{
    if String::from_str(name) == String::from_str("euler") {
        Method::Euler
    } else {
        Method::RungeKutta4
    }
}

/// A name that does not select Euler's method selects the same method as
/// `"rk4"`.
pub proof fn lemma_unknown_method_falls_back(name: Seq<char>)
    requires
        name != "euler"@,
    ensures
        method_of(name) == method_of("rk4"@),
{
    reveal_strlit("euler");
    reveal_strlit("rk4");
    assert("rk4"@ != "euler"@) by {
        assert("rk4"@[0] != "euler"@[0]);
    }
}

} // verus!
