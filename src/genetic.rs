//! Genetic operators on individuals whose genes have type `G`: population
//! building, uniform crossover and mutation. Random real-valued draws and
//! per-gene arithmetic come from the caller.

use vstd::prelude::*;
use std::collections::HashMap;
use crate::error::LoreError;
use crate::vecs::{copy_strings, copy_vec};
use crate::sys::{new_id, now_secs, random_bool};

verus! {

/// The largest number of genes an individual may carry.
pub const MAX_GENE_COUNT: usize = 10000;

/// One individual: its genes and evolutionary bookkeeping. `G` is the gene
/// value type.
#[derive(Clone, Debug)]
pub struct AgentDNA<G> {
    pub id: String,
    pub genes: Vec<G>,
    pub fitness: Option<G>,
    pub generation: u64,
    pub parent_ids: Vec<String>,
    pub creation_time: u64,
    pub mutations: u32,
    pub metadata: HashMap<String, String>,
}

impl<G: Copy> AgentDNA<G> {
    /// A fresh individual with the given genes: new id, no fitness,
    /// generation 0, no parents, no mutations, no metadata.
    pub fn new(genes: Vec<G>) -> (r: AgentDNA<G>)
        ensures
            r.id@.len() == 36,
            r.genes@ == genes@,
            r.fitness is None,
            r.generation == 0,
            r.parent_ids@.len() == 0,
            r.mutations == 0,
            r.metadata@ == Map::<String, String>::empty(),
    {
        AgentDNA {
            id: new_id(),
            genes,
            fitness: None,
            generation: 0,
            parent_ids: Vec::new(),
            creation_time: now_secs(),
            mutations: 0,
            metadata: HashMap::new(),
        }
    }

    pub fn gene_count(&self) -> (r: usize)
        ensures
            r == self.genes.len(),
    {
        self.genes.len()
    }

    /// A copy of this individual under a fresh id.
    pub fn clone_with_new_id(&self) -> (r: AgentDNA<G>)
        ensures
            r.id@.len() == 36,
            r.genes@ == self.genes@,
            r.fitness == self.fitness,
            r.generation == self.generation,
            r.parent_ids@ == self.parent_ids@,
            r.creation_time == self.creation_time,
            r.mutations == self.mutations,
            r.metadata@ == self.metadata@,
    {
        AgentDNA {
            id: new_id(),
            genes: copy_vec(&self.genes),
            fitness: self.fitness,
            generation: self.generation,
            parent_ids: copy_strings(&self.parent_ids),
            creation_time: self.creation_time,
            mutations: self.mutations,
            metadata: self.metadata.clone(),
        }
    }

    pub fn set_fitness(&mut self, fitness: G)
        ensures
            final(self).fitness == Some(fitness),
            final(self).id == old(self).id,
            final(self).genes == old(self).genes,
            final(self).generation == old(self).generation,
            final(self).parent_ids == old(self).parent_ids,
            final(self).creation_time == old(self).creation_time,
            final(self).mutations == old(self).mutations,
            final(self).metadata == old(self).metadata,
    {
        self.fitness = Some(fitness);
    }

    pub fn has_fitness(&self) -> (r: bool)
        ensures
            r == self.fitness is Some,
    {
        self.fitness.is_some()
    }

    /// The fitness, if one was set.
    pub fn get_fitness_opt(&self) -> (r: Option<G>)
        ensures
            r == self.fitness,
    {
        self.fitness
    }
}

/// Checks a requested gene count: at least 1 and at most `MAX_GENE_COUNT`.
pub fn check_gene_count(gene_count: usize) -> (r: Result<(), LoreError>)
    ensures
        r is Ok <==> 0 < gene_count <= MAX_GENE_COUNT,
        r is Err ==> r->Err_0 is Validation,
{
    if gene_count == 0 || gene_count > MAX_GENE_COUNT {
        return Err(LoreError::Validation("Gene count must be between 1 and 10000".to_string()));
    }
    Ok(())
}

/// The smaller of two lengths.
pub open spec fn min_len(a: nat, b: nat) -> nat {
    if a <= b {
        a
    } else {
        b
    }
}

/// Uniform crossover of two gene vectors, position by position: where
/// `picks` holds `true` the gene comes from `g1`, else from `g2`. The child
/// is as long as the shortest of the three.
pub fn crossover_genes<G: Copy>(g1: &Vec<G>, g2: &Vec<G>, picks: &Vec<bool>) -> (r: Vec<G>)
    ensures
        r.len() == min_len(min_len(g1.len() as nat, g2.len() as nat), picks.len() as nat),
        forall|i: int|
            0 <= i < r.len() ==> #[trigger] r[i] == if picks[i] {
                g1[i]
            } else {
                g2[i]
            },
{
    let mut r: Vec<G> = Vec::new();
    let mut i: usize = 0;
    while i < g1.len() && i < g2.len() && i < picks.len()
        invariant
            0 <= i <= g1.len(),
            i <= g2.len(),
            i <= picks.len(),
            r.len() == i,
            forall|k: int|
                0 <= k < i ==> #[trigger] r[k] == if picks[k] {
                    g1[k]
                } else {
                    g2[k]
                },
        decreases g1.len() - i,
    {
        if picks[i] {
            r.push(g1[i]);
        } else {
            r.push(g2[i]);
        }
        i = i + 1;
    }
    r
}

/// `child` is an offspring of `p1` and `p2`: when `triggered`, a uniform
/// crossover of their genes recording both as parents; otherwise a copy of
/// `p1`.
pub open spec fn offspring_of<G>(
    p1: AgentDNA<G>,
    p2: AgentDNA<G>,
    triggered: bool,
    child: AgentDNA<G>,
) -> bool {
    &&& child.id@.len() == 36
    &&& if triggered {
        &&& child.genes.len() == min_len(p1.genes.len() as nat, p2.genes.len() as nat)
        &&& forall|i: int|
            0 <= i < child.genes.len() ==> #[trigger] child.genes[i] == p1.genes[i]
                || child.genes[i] == p2.genes[i]
        &&& child.parent_ids@ == seq![p1.id, p2.id]
        &&& child.fitness is None
        &&& child.generation == 0
        &&& child.mutations == 0
        &&& child.metadata@ == Map::<String, String>::empty()
    } else {
        &&& child.genes@ == p1.genes@
        &&& child.parent_ids@ == p1.parent_ids@
        &&& child.fitness == p1.fitness
        &&& child.generation == p1.generation
        &&& child.mutations == p1.mutations
        &&& child.creation_time == p1.creation_time
        &&& child.metadata@ == p1.metadata@
    }
}

/// One offspring of a pair. When `triggered`, each gene is taken from
/// either parent with a fair coin; otherwise the child copies `p1` under a
/// fresh id.
pub fn crossover_pair<G: Copy>(p1: &AgentDNA<G>, p2: &AgentDNA<G>, triggered: bool) -> (r:
    AgentDNA<G>)
    ensures
        offspring_of(*p1, *p2, triggered, r),
{
    if triggered {
        let n = if p1.genes.len() <= p2.genes.len() {
            p1.genes.len()
        } else {
            p2.genes.len()
        };
        let mut picks: Vec<bool> = Vec::new();
        let mut i: usize = 0;
        while i < n
            invariant
                0 <= i <= n,
                picks.len() == i,
            decreases n - i,
        {
            let coin = random_bool();
            picks.push(coin);
            i = i + 1;
        }
        let genes = crossover_genes(&p1.genes, &p2.genes, &picks);
        let mut child = AgentDNA::new(genes);
        let mut parents: Vec<String> = Vec::new();
        parents.push(p1.id.clone());
        parents.push(p2.id.clone());
        assert(parents@ =~= seq![p1.id, p2.id]);
        child.parent_ids = parents;
        child
    } else {
        p1.clone_with_new_id()
    }
}

/// `children` pairs up with the parents: child `i` is an offspring of
/// `parents1[i]` and `parents2[i]` under decision `triggers[i]`.
pub open spec fn crossover_result<G>(
    parents1: Seq<AgentDNA<G>>,
    parents2: Seq<AgentDNA<G>>,
    triggers: Seq<bool>,
    children: Seq<AgentDNA<G>>,
) -> bool {
    &&& children.len() == parents1.len()
    &&& forall|i: int|
        0 <= i < children.len() ==> #[trigger] offspring_of(
            parents1[i],
            parents2[i],
            triggers[i],
            children[i],
        )
}

/// Crossover over two equally long lists of parents: pair `i` is crossed
/// when `triggers[i]` holds, else its first parent is copied. Parent lists
/// of different lengths, or a trigger list of another length, are a
/// validation error.
pub fn parallel_crossover<G: Copy>(
    parents1: &Vec<AgentDNA<G>>,
    parents2: &Vec<AgentDNA<G>>,
    triggers: &Vec<bool>,
) -> (r: Result<Vec<AgentDNA<G>>, LoreError>)
    ensures
        r is Ok <==> parents1.len() == parents2.len() && triggers.len() == parents1.len(),
        r is Err ==> r->Err_0 is Validation,
        r matches Ok(children) ==> crossover_result(parents1@, parents2@, triggers@, children@),
{
    if parents1.len() != parents2.len() {
        return Err(LoreError::Validation("Parent arrays must have same length".to_string()));
    }
    if triggers.len() != parents1.len() {
        return Err(LoreError::Validation("One crossover decision per pair is needed".to_string()));
    }
    let mut children: Vec<AgentDNA<G>> = Vec::new();
    let mut i: usize = 0;
    while i < parents1.len()
        invariant
            parents1.len() == parents2.len(),
            triggers.len() == parents1.len(),
            0 <= i <= parents1.len(),
            children.len() == i,
            forall|k: int|
                0 <= k < i ==> #[trigger] offspring_of(
                    parents1[k],
                    parents2[k],
                    triggers[k],
                    children[k],
                ),
        decreases parents1.len() - i,
    {
        let child = crossover_pair(&parents1[i], &parents2[i], triggers[i]);
        children.push(child);
        i = i + 1;
    }
    Ok(children)
}

/// Crossover keeps the gene length: when both parents carry `n` genes, so
/// does the child, whether or not crossover was triggered, and each of its
/// genes is the gene of one parent at that position.
pub proof fn lemma_offspring_gene_length<G>(
    p1: AgentDNA<G>,
    p2: AgentDNA<G>,
    triggered: bool,
    child: AgentDNA<G>,
)
    requires
        p1.genes.len() == p2.genes.len(),
        offspring_of(p1, p2, triggered, child),
    ensures
        child.genes.len() == p1.genes.len(),
        forall|i: int|
            0 <= i < child.genes.len() ==> #[trigger] child.genes[i] == p1.genes[i]
                || child.genes[i] == p2.genes[i],
        !triggered ==> child.genes@ == p1.genes@,
{
}

/// A population of `population_size` fresh individuals with `gene_count`
/// genes each, every gene a value returned by `draw`. A gene count of 0 or
/// above `MAX_GENE_COUNT` is a validation error.
pub fn create_population<G: Copy, F: Fn() -> G>(
    population_size: usize,
    gene_count: usize,
    draw: &F,
) -> (r: Result<Vec<AgentDNA<G>>, LoreError>)
    requires
        draw.requires(()),
    ensures
        r is Ok <==> 0 < gene_count <= MAX_GENE_COUNT,
        r is Err ==> r->Err_0 is Validation,
        r matches Ok(pop) ==> {
            &&& pop.len() == population_size
            &&& forall|i: int|
                0 <= i < pop.len() ==> {
                    &&& (#[trigger] pop[i]).genes.len() == gene_count
                    &&& pop[i].fitness is None
                    &&& pop[i].generation == 0
                    &&& pop[i].parent_ids@.len() == 0
                    &&& pop[i].mutations == 0
                    &&& forall|g: int| 0 <= g < gene_count ==> draw.ensures((), #[trigger] pop[i].genes[g])
                }
        },
{
    match check_gene_count(gene_count) {
        Err(e) => {
            return Err(e);
        },
        Ok(()) => {},
    }
    let mut pop: Vec<AgentDNA<G>> = Vec::new();
    let mut p: usize = 0;
    while p < population_size
        invariant
            draw.requires(()),
            0 <= p <= population_size,
            pop.len() == p,
            forall|i: int|
                0 <= i < p ==> {
                    &&& (#[trigger] pop[i]).genes.len() == gene_count
                    &&& pop[i].fitness is None
                    &&& pop[i].generation == 0
                    &&& pop[i].parent_ids@.len() == 0
                    &&& pop[i].mutations == 0
                    &&& forall|g: int| 0 <= g < gene_count ==> draw.ensures((), #[trigger] pop[i].genes[g])
                },
        decreases population_size - p,
    {
        let mut genes: Vec<G> = Vec::new();
        let mut g: usize = 0;
        while g < gene_count
            invariant
                draw.requires(()),
                0 <= g <= gene_count,
                genes.len() == g,
                forall|k: int| 0 <= k < g ==> draw.ensures((), #[trigger] genes[k]),
            decreases gene_count - g,
        {
            let value = draw();
            genes.push(value);
            g = g + 1;
        }
        pop.push(AgentDNA::new(genes));
        p = p + 1;
    }
    Ok(pop)
}

/// `after` is `before` with every gene passed through `mutate_gene` and the
/// mutation counter one higher; nothing else changes.
pub open spec fn mutated_from<G, F: Fn(G) -> G>(
    before: AgentDNA<G>,
    after: AgentDNA<G>,
    mutate_gene: F,
) -> bool {
    &&& after.genes.len() == before.genes.len()
    &&& forall|g: int|
        0 <= g < after.genes.len() ==> mutate_gene.ensures((before.genes[g],), #[trigger] after.genes[g])
    &&& after.mutations == before.mutations + 1
    &&& after.id == before.id
    &&& after.fitness == before.fitness
    &&& after.generation == before.generation
    &&& after.parent_ids == before.parent_ids
    &&& after.creation_time == before.creation_time
    &&& after.metadata == before.metadata
}

/// Passes every gene through `mutate_gene` and counts one mutation.
pub fn mutate_dna<G: Copy, F: Fn(G) -> G>(dna: &mut AgentDNA<G>, mutate_gene: &F)
    requires
        old(dna).mutations < u32::MAX,
        forall|g: G| #[trigger] mutate_gene.requires((g,)),
    ensures
        mutated_from(*old(dna), *final(dna), *mutate_gene),
{
    let mut genes: Vec<G> = Vec::new();
    let mut i: usize = 0;
    while i < dna.genes.len()
        invariant
            forall|g: G| #[trigger] mutate_gene.requires((g,)),
            *dna == *old(dna),
            0 <= i <= dna.genes.len(),
            genes.len() == i,
            forall|k: int| 0 <= k < i ==> mutate_gene.ensures((dna.genes[k],), #[trigger] genes[k]),
        decreases dna.genes.len() - i,
    {
        let value = mutate_gene(dna.genes[i]);
        genes.push(value);
        i = i + 1;
    }
    dna.genes = genes;
    dna.mutations = dna.mutations + 1;
}

/// Mutates the chosen individuals with `mutate_gene` (see `mutate_dna`)
/// and leaves the others as they were. A selection of another length than
/// the population is a validation error.
pub fn mutate_selected<G: Copy, F: Fn(G) -> G>(
    population: Vec<AgentDNA<G>>,
    selected: &Vec<bool>,
    mutate_gene: &F,
) -> (r: Result<Vec<AgentDNA<G>>, LoreError>)
    requires
        forall|i: int|
            0 <= i < population.len() && selected[i] ==> (#[trigger] population[i]).mutations
                < u32::MAX,
        forall|g: G| #[trigger] mutate_gene.requires((g,)),
    ensures
        r is Ok <==> selected.len() == population.len(),
        r is Err ==> r->Err_0 is Validation,
        r matches Ok(out) ==> {
            &&& out.len() == population.len()
            &&& forall|i: int|
                0 <= i < out.len() ==> if selected[i] {
                    mutated_from(population[i], #[trigger] out[i], *mutate_gene)
                } else {
                    out[i] == population[i]
                }
        },
{
    if selected.len() != population.len() {
        return Err(LoreError::Validation("One selection per individual is needed".to_string()));
    }
    let ghost before = population@;
    let mut population = population;
    let mut i: usize = 0;
    while i < population.len()
        invariant
            forall|g: G| #[trigger] mutate_gene.requires((g,)),
            selected.len() == before.len(),
            population.len() == before.len(),
            0 <= i <= population.len(),
            forall|k: int| i <= k < population.len() ==> #[trigger] population[k] == before[k],
            forall|k: int|
                0 <= k < before.len() && selected[k] ==> (#[trigger] before[k]).mutations
                    < u32::MAX,
            forall|k: int|
                0 <= k < i ==> if selected[k] {
                    mutated_from(before[k], #[trigger] population[k], *mutate_gene)
                } else {
                    population[k] == before[k]
                },
        decreases population.len() - i,
    {
        if selected[i] {
            assert(population[i as int] == before[i as int]);
            mutate_dna(&mut population[i], mutate_gene);
        }
        i = i + 1;
    }
    Ok(population)
}

/// Crossover keeps gene lengths: when each pair of parents carries equally
/// many genes, every child carries as many as its first parent, each of
/// its genes is that of one parent at the same position, and an
/// untriggered child has exactly its first parent's genes.
pub proof fn lemma_crossover_gene_lengths<G>(
    parents1: Seq<AgentDNA<G>>,
    parents2: Seq<AgentDNA<G>>,
    triggers: Seq<bool>,
    children: Seq<AgentDNA<G>>,
)
    requires
        parents1.len() == parents2.len(),
        forall|i: int|
            0 <= i < parents1.len() ==> (#[trigger] parents1[i]).genes.len()
                == parents2[i].genes.len(),
        crossover_result(parents1, parents2, triggers, children),
    ensures
        children.len() == parents1.len(),
        forall|i: int|
            0 <= i < children.len() ==> (#[trigger] children[i]).genes.len()
                == parents1[i].genes.len(),
        forall|i: int, g: int|
            0 <= i < children.len() && 0 <= g < children[i].genes.len() ==> #[trigger] children[i].genes[g]
                == parents1[i].genes[g] || children[i].genes[g] == parents2[i].genes[g],
        forall|i: int|
            0 <= i < children.len() && !triggers[i] ==> (#[trigger] children[i]).genes@
                == parents1[i].genes@,
{
    assert forall|i: int| 0 <= i < children.len() implies (#[trigger] children[i]).genes.len()
        == parents1[i].genes.len() by {
        lemma_offspring_gene_length(parents1[i], parents2[i], triggers[i], children[i]);
    }
    assert forall|i: int, g: int|
        0 <= i < children.len() && 0 <= g < children[i].genes.len() implies #[trigger] children[i].genes[g]
            == parents1[i].genes[g] || children[i].genes[g] == parents2[i].genes[g] by {
        lemma_offspring_gene_length(parents1[i], parents2[i], triggers[i], children[i]);
    }
    assert forall|i: int| 0 <= i < children.len() && !triggers[i] implies (
    #[trigger] children[i]).genes@ == parents1[i].genes@ by {
        lemma_offspring_gene_length(parents1[i], parents2[i], triggers[i], children[i]);
    }
}

/// A minimal evolution engine that only records its population size.
pub struct EvolutionEngine {
    population_size: usize,
}

impl EvolutionEngine {
    pub closed spec fn spec_population_size(&self) -> usize {
        self.population_size
    }

    pub fn new(population_size: usize) -> (r: EvolutionEngine)
        ensures
            r.spec_population_size() == population_size,
    {
        EvolutionEngine { population_size }
    }

    pub fn get_population_size(&self) -> (r: usize)
        ensures
            r == self.spec_population_size(),
    {
        self.population_size
    }
}

} // verus!
