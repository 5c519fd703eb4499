//! Agents and their society: behaviour classes, cognition, decisions,
//! bounded memories, social connections, experience, and randomised
//! interaction rounds. Scalars have type `W`; arithmetic on them comes from
//! the caller.

use vstd::prelude::*;
use crate::error::{LoreError, validation_error};
use crate::genetic::AgentDNA;
use crate::neural::{NeuralNetwork, network_maps, neuron_total};
use crate::activation::ActivationType;
use crate::text::{lower_of, lowercase, is_word};
use crate::sys::random_below;

verus! {

/// The behaviour class that steers an agent's rule-based decisions.
#[derive(Clone, Copy, Debug, PartialEq, Eq, Structural)]
pub enum BehaviorType {
    Explorer,
    Socializer,
    Optimizer,
    Creator,
    Analyzer,
}

/// The behaviour that a lowercase name denotes, if any.
pub open spec fn behavior_named(s: Seq<char>) -> Option<BehaviorType> {
    if s == "explorer"@ {
        Some(BehaviorType::Explorer)
    } else if s == "socializer"@ {
        Some(BehaviorType::Socializer)
    } else if s == "optimizer"@ {
        Some(BehaviorType::Optimizer)
    } else if s == "creator"@ {
        Some(BehaviorType::Creator)
    } else if s == "analyzer"@ {
        Some(BehaviorType::Analyzer)
    } else {
        None
    }
}

impl BehaviorType {
    /// Parses a behaviour name, ignoring case.
    pub fn new(name: String) -> (r: Result<BehaviorType, LoreError>)
        ensures
            match behavior_named(lower_of(name@)) {
                Some(b) => r == Ok::<BehaviorType, LoreError>(b),
                None => r is Err && r->Err_0 is Validation,
            },
    {
        let lowered = lowercase(&name);
        match BehaviorType::from_lowercase(&lowered) {
            Some(b) => Ok(b),
            None => Err(validation_error("Unknown behavior: ", name.as_str())),
        }
    }

    /// The behaviour named by an already lowercased name.
    pub fn from_lowercase(s: &String) -> (r: Option<BehaviorType>)
        ensures
            r == behavior_named(s@),
    {
        if is_word(s, "explorer") {
            Some(BehaviorType::Explorer)
        } else if is_word(s, "socializer") {
            Some(BehaviorType::Socializer)
        } else if is_word(s, "optimizer") {
            Some(BehaviorType::Optimizer)
        } else if is_word(s, "creator") {
            Some(BehaviorType::Creator)
        } else if is_word(s, "analyzer") {
            Some(BehaviorType::Analyzer)
        } else {
            None
        }
    }

    /// The name of the behaviour, as its variant is spelled.
    pub open spec fn name_spec(&self) -> Seq<char> {
        match *self {
            BehaviorType::Explorer => "Explorer"@,
            BehaviorType::Socializer => "Socializer"@,
            BehaviorType::Optimizer => "Optimizer"@,
            BehaviorType::Creator => "Creator"@,
            BehaviorType::Analyzer => "Analyzer"@,
        }
    }

    /// The name of the behaviour, as its variant is spelled.
    pub fn name(&self) -> (r: String)
        ensures
            r@ == self.name_spec(),
    {
        match *self {
            BehaviorType::Explorer => "Explorer".to_string(),
            BehaviorType::Socializer => "Socializer".to_string(),
            BehaviorType::Optimizer => "Optimizer".to_string(),
            BehaviorType::Creator => "Creator".to_string(),
            BehaviorType::Analyzer => "Analyzer".to_string(),
        }
    }
}

/// The kinds of experience that move an agent's cognitive state.
#[derive(Clone, Copy, Debug, PartialEq, Eq, Structural)]
pub enum ExperienceKind {
    Learning,
    Social,
    Creative,
    Stress,
}

/// The experience kind that a name denotes, if any (case matters).
pub open spec fn experience_named(s: Seq<char>) -> Option<ExperienceKind> {
    if s == "learning"@ {
        Some(ExperienceKind::Learning)
    } else if s == "social"@ {
        Some(ExperienceKind::Social)
    } else if s == "creative"@ {
        Some(ExperienceKind::Creative)
    } else if s == "stress"@ {
        Some(ExperienceKind::Stress)
    } else {
        None
    }
}

impl ExperienceKind {
    /// Parses an experience kind; an unknown name is a validation error.
    pub fn new(name: &String) -> (r: Result<ExperienceKind, LoreError>)
        ensures
            match experience_named(name@) {
                Some(k) => r == Ok::<ExperienceKind, LoreError>(k),
                None => r is Err && r->Err_0 is Validation,
            },
    {
        if is_word(name, "learning") {
            Ok(ExperienceKind::Learning)
        } else if is_word(name, "social") {
            Ok(ExperienceKind::Social)
        } else if is_word(name, "creative") {
            Ok(ExperienceKind::Creative)
        } else if is_word(name, "stress") {
            Ok(ExperienceKind::Stress)
        } else {
            Err(validation_error("Unknown experience type: ", name.as_str()))
        }
    }
}

/// Six scalars describing an agent's tendencies. Keeping each within
/// [0, 1] is the job of whoever computes on them.
#[derive(Clone, Copy, Debug)]
pub struct CognitiveState<W> {
    pub attention: W,
    pub memory_capacity: W,
    pub processing_speed: W,
    pub creativity: W,
    pub social_awareness: W,
    pub emotional_stability: W,
}

impl<W: Copy> CognitiveState<W> {
    /// The six scalars in their fixed order.
    pub open spec fn spec_scalars(&self) -> Seq<W> {
        seq![
            self.attention,
            self.memory_capacity,
            self.processing_speed,
            self.creativity,
            self.social_awareness,
            self.emotional_stability,
        ]
    }

    pub fn new(
        attention: W,
        memory_capacity: W,
        processing_speed: W,
        creativity: W,
        social_awareness: W,
        emotional_stability: W,
    ) -> (r: CognitiveState<W>)
        ensures
            r.spec_scalars() == seq![
                attention,
                memory_capacity,
                processing_speed,
                creativity,
                social_awareness,
                emotional_stability,
            ],
    {
        CognitiveState {
            attention,
            memory_capacity,
            processing_speed,
            creativity,
            social_awareness,
            emotional_stability,
        }
    }

    /// The six scalars in their fixed order: attention, memory capacity,
    /// processing speed, creativity, social awareness, emotional stability.
    pub fn scalars(&self) -> (r: Vec<W>)
        ensures
            r@ == self.spec_scalars(),
    {
        let mut r: Vec<W> = Vec::new();
        r.push(self.attention);
        r.push(self.memory_capacity);
        r.push(self.processing_speed);
        r.push(self.creativity);
        r.push(self.social_awareness);
        r.push(self.emotional_stability);
        assert(r@ =~= self.spec_scalars());
        r
    }
}

/// A memory store as (key, value) pairs, oldest first.
pub type MemoryModel<W> = Seq<(Seq<char>, W)>;

/// No key occurs twice.
pub open spec fn keys_unique<W>(m: MemoryModel<W>) -> bool {
    forall|i: int, j: int| 0 <= i < j < m.len() ==> m[i].0 != m[j].0
}

/// Some entry has key `k`.
pub open spec fn has_key<W>(m: MemoryModel<W>, k: Seq<char>) -> bool {
    exists|i: int| 0 <= i < m.len() && m[i].0 == k
}

/// The position of key `k`, where it occurs.
pub open spec fn key_index<W>(m: MemoryModel<W>, k: Seq<char>) -> int {
    choose|i: int| 0 <= i < m.len() && m[i].0 == k
}

/// The value stored under `k`, if any.
pub open spec fn recall<W>(m: MemoryModel<W>, k: Seq<char>) -> Option<W> {
    if has_key(m, k) {
        Some(m[key_index(m, k)].1)
    } else {
        None
    }
}

/// `m` with the value under `k` replaced, or with `(k, v)` appended.
pub open spec fn upsert<W>(m: MemoryModel<W>, k: Seq<char>, v: W) -> MemoryModel<W> {
    if has_key(m, k) {
        m.update(key_index(m, k), (k, v))
    } else {
        m.push((k, v))
    }
}

/// `m` without its oldest entry when it holds `limit` entries or more.
pub open spec fn evict_oldest<W>(m: MemoryModel<W>, limit: nat) -> MemoryModel<W> {
    if m.len() >= limit && m.len() > 0 {
        m.drop_first()
    } else {
        m
    }
}

/// The store after writing `v` under `k` with room for `limit` entries:
/// the oldest entry goes first when the store is full.
pub open spec fn stored<W>(m: MemoryModel<W>, k: Seq<char>, v: W, limit: nat) -> MemoryModel<W> {
    upsert(evict_oldest(m, limit), k, v)
}

/// Whether a write of `points` brings the total to a new level: the new
/// total is a multiple of 1000 and the points are positive.
pub open spec fn levels_up(total: nat, points: nat) -> bool {
    total % 1000 == 0 && points > 0
}

/// The input a decision network sees: the situation, then the six
/// cognitive scalars, then at most the first four genes.
pub open spec fn composite_input<W: Copy>(
    situation: Seq<W>,
    cognition: CognitiveState<W>,
    genes: Seq<W>,
) -> Seq<W> {
    situation + cognition.spec_scalars() + genes.take(if genes.len() < 4 { genes.len() as int } else { 4 })
}

/// `out` is a decision that `agent` can make in `situation`: its network's
/// output on the composite input when one is attached, else an output of
/// `rules`.
pub open spec fn decision_of<
    W: Copy,
    F: Fn(&Vec<W>, &Vec<W>, W, ActivationType) -> W,
    R: Fn(BehaviorType, &CognitiveState<W>, &Vec<W>) -> Vec<W>,
>(agent: IntelligentAgent<W>, situation: Vec<W>, neuron: F, rules: R, out: Vec<W>) -> bool {
    match agent.spec_network() {
        Some(n) => exists|v: Vec<W>|
            v@ == composite_input(situation@, agent.spec_cognition(), agent.spec_dna().genes@)
                && #[trigger] network_maps(n.spec_layers(), neuron, v, out),
        None => rules.ensures((agent.spec_behavior(), &agent.spec_cognition(), &situation), out),
    }
}

/// The rule table decides with three values: action intensity, social
/// tendency and risk taking.
pub open spec fn rules_give_three<W, R: Fn(BehaviorType, &CognitiveState<W>, &Vec<W>) -> Vec<W>>(
    rules: R,
) -> bool {
    forall|b: BehaviorType, c: &CognitiveState<W>, s: &Vec<W>, out: Vec<W>| #[trigger]
        rules.ensures((b, c, s), out) ==> out.len() == 3
}

/// The length of `agent`'s decisions: its network's output size, or three
/// without a network.
pub open spec fn decision_len<W: Copy>(agent: IntelligentAgent<W>) -> nat {
    match agent.spec_network() {
        Some(n) => n.spec_output_size() as nat,
        None => 3,
    }
}

/// `agent` cannot decide in `situation`: its network does not take inputs
/// of the composite input's size.
pub open spec fn decision_fails<W: Copy>(agent: IntelligentAgent<W>, situation: Seq<W>) -> bool {
    agent.spec_network() matches Some(n) && composite_input(
        situation,
        agent.spec_cognition(),
        agent.spec_dna().genes@,
    ).len() != n.spec_input_size()
}

/// An agent: genes, behaviour, cognition, an optional decision network, a
/// bounded memory, social connections, experience and age.
#[derive(Clone, Debug)]
pub struct IntelligentAgent<W> {
    id: String,
    dna: AgentDNA<W>,
    behavior_type: BehaviorType,
    cognitive_state: CognitiveState<W>,
    decision_network: Option<NeuralNetwork<W>>,
    memory: Vec<(String, W)>,
    social_connections: Vec<String>,
    experience_points: u64,
    age: u64,
}

impl<W: Copy> IntelligentAgent<W> {
    pub closed spec fn spec_id(&self) -> Seq<char> {
        self.id@
    }

    pub closed spec fn spec_dna(&self) -> AgentDNA<W> {
        self.dna
    }

    pub closed spec fn spec_behavior(&self) -> BehaviorType {
        self.behavior_type
    }

    pub closed spec fn spec_cognition(&self) -> CognitiveState<W> {
        self.cognitive_state
    }

    pub closed spec fn spec_network(&self) -> Option<NeuralNetwork<W>> {
        self.decision_network
    }

    pub closed spec fn spec_memory(&self) -> MemoryModel<W> {
        self.memory@.map_values(|e: (String, W)| (e.0@, e.1))
    }

    pub closed spec fn spec_connections(&self) -> Seq<Seq<char>> {
        self.social_connections@.map_values(|c: String| c@)
    }

    pub closed spec fn spec_experience(&self) -> u64 {
        self.experience_points
    }

    pub closed spec fn spec_age(&self) -> u64 {
        self.age
    }

    /// Memory keys are unique, connections hold no duplicates, and an
    /// attached network is well formed.
    pub open spec fn wf(&self) -> bool {
        &&& keys_unique(self.spec_memory())
        &&& self.spec_connections().no_duplicates()
        &&& (self.spec_network() matches Some(n) ==> n.wf())
    }

    /// Everything but the memory store is as in `other`.
    pub open spec fn same_but_memory(&self, other: &Self) -> bool {
        &&& self.spec_id() == other.spec_id()
        &&& self.spec_dna() == other.spec_dna()
        &&& self.spec_behavior() == other.spec_behavior()
        &&& self.spec_cognition() == other.spec_cognition()
        &&& self.spec_network() == other.spec_network()
        &&& self.spec_connections() == other.spec_connections()
        &&& self.spec_experience() == other.spec_experience()
        &&& self.spec_age() == other.spec_age()
    }

    /// Everything but the connections is as in `other`.
    pub open spec fn same_but_connections(&self, other: &Self) -> bool {
        &&& self.spec_id() == other.spec_id()
        &&& self.spec_dna() == other.spec_dna()
        &&& self.spec_behavior() == other.spec_behavior()
        &&& self.spec_cognition() == other.spec_cognition()
        &&& self.spec_network() == other.spec_network()
        &&& self.spec_memory() == other.spec_memory()
        &&& self.spec_experience() == other.spec_experience()
        &&& self.spec_age() == other.spec_age()
    }

    /// A new agent with no network, no memories, no connections, no
    /// experience and age 0.
    pub fn new(
        id: String,
        dna: AgentDNA<W>,
        behavior_type: BehaviorType,
        cognitive_state: CognitiveState<W>,
    ) -> (r: IntelligentAgent<W>)
        ensures
            r.wf(),
            r.spec_id() == id@,
            r.spec_dna() == dna,
            r.spec_behavior() == behavior_type,
            r.spec_cognition() == cognitive_state,
            r.spec_network() is None,
            r.spec_memory().len() == 0,
            r.spec_connections().len() == 0,
            r.spec_experience() == 0,
            r.spec_age() == 0,
    {
        let r = IntelligentAgent {
            id,
            dna,
            behavior_type,
            cognitive_state,
            decision_network: None,
            memory: Vec::new(),
            social_connections: Vec::new(),
            experience_points: 0,
            age: 0,
        };
        assert(r.spec_memory() =~= Seq::empty());
        assert(r.spec_connections() =~= Seq::empty());
        r
    }

    /// Attaches the network used for decisions, replacing any earlier one.
    pub fn set_decision_network(&mut self, network: NeuralNetwork<W>)
        requires
            old(self).wf(),
            network.wf(),
        ensures
            final(self).wf(),
            final(self).spec_network() == Some(network),
            final(self).spec_id() == old(self).spec_id(),
            final(self).spec_dna() == old(self).spec_dna(),
            final(self).spec_behavior() == old(self).spec_behavior(),
            final(self).spec_cognition() == old(self).spec_cognition(),
            final(self).spec_memory() == old(self).spec_memory(),
            final(self).spec_connections() == old(self).spec_connections(),
            final(self).spec_experience() == old(self).spec_experience(),
            final(self).spec_age() == old(self).spec_age(),
    {
        self.decision_network = Some(network);
    }

    /// The attached decision network, if any.
    pub fn get_decision_network(&self) -> (r: Option<&NeuralNetwork<W>>)
        ensures
            r is Some <==> self.spec_network() is Some,
            r matches Some(n) ==> self.spec_network() == Some(*n),
    {
        match &self.decision_network {
            Some(n) => Some(n),
            None => None,
        }
    }

    /// The situation, then the six cognitive scalars, then at most the
    /// first four genes.
    pub fn decision_inputs(&self, situation: &Vec<W>) -> (r: Vec<W>)
        ensures
            r@ == composite_input(situation@, self.spec_cognition(), self.spec_dna().genes@),
    {
        let mut r: Vec<W> = Vec::new();
        let mut i: usize = 0;
        while i < situation.len()
            invariant
                0 <= i <= situation.len(),
                r@ =~= situation@.take(i as int),
            decreases situation.len() - i,
        {
            r.push(situation[i]);
            i = i + 1;
        }
        assert(situation@.take(situation.len() as int) =~= situation@);
        let scalars = self.cognitive_state.scalars();
        let mut j: usize = 0;
        while j < scalars.len()
            invariant
                0 <= j <= scalars.len(),
                r@ =~= situation@ + scalars@.take(j as int),
            decreases scalars.len() - j,
        {
            r.push(scalars[j]);
            j = j + 1;
        }
        assert(scalars@.take(scalars.len() as int) =~= scalars@);
        let n = if self.dna.genes.len() < 4 {
            self.dna.genes.len()
        } else {
            4
        };
        let mut g: usize = 0;
        while g < n
            invariant
                n <= self.dna.genes.len(),
                0 <= g <= n,
                r@ =~= situation@ + scalars@ + self.dna.genes@.take(g as int),
            decreases n - g,
        {
            r.push(self.dna.genes[g]);
            g = g + 1;
        }
        r
    }

    /// Decides from a situation. With a network attached, the network runs
    /// on the composite input (situation, cognition, first genes) and a
    /// size mismatch is an error; without one, `rules` decides from the
    /// behaviour, the cognition and the raw situation.
    pub fn make_decision<
        F: Fn(&Vec<W>, &Vec<W>, W, ActivationType) -> W,
        R: Fn(BehaviorType, &CognitiveState<W>, &Vec<W>) -> Vec<W>,
    >(&self, situation: &Vec<W>, neuron: &F, rules: &R) -> (r: Result<Vec<W>, LoreError>)
        requires
            self.wf(),
            neuron_total(*neuron),
            forall|b: BehaviorType, c: &CognitiveState<W>, s: &Vec<W>| #[trigger]
                rules.requires((b, c, s)),
            rules_give_three(*rules),
        ensures
            r is Ok <==> !decision_fails(*self, situation@),
            r is Err ==> r->Err_0 is DimensionMismatch,
            r matches Ok(out) ==> decision_of(*self, *situation, *neuron, *rules, out) && out.len()
                == decision_len(*self),
    {
        match &self.decision_network {
            Some(network) => {
                let inputs = self.decision_inputs(situation);
                network.forward(&inputs, neuron)
            },
            None => Ok(rules(self.behavior_type, &self.cognitive_state, situation)),
        }
    }

    pub fn get_id(&self) -> (r: String)
        ensures
            r@ == self.spec_id(),
    {
        self.id.clone()
    }

    /// The behaviour's name.
    pub fn get_behavior(&self) -> (r: String)
        ensures
            r@ == self.spec_behavior().name_spec(),
    {
        self.behavior_type.name()
    }

    pub fn get_behavior_type(&self) -> (r: BehaviorType)
        ensures
            r == self.spec_behavior(),
    {
        self.behavior_type
    }

    pub fn get_dna(&self) -> (r: &AgentDNA<W>)
        ensures
            *r == self.spec_dna(),
    {
        &self.dna
    }

    pub fn get_cognitive_state(&self) -> (r: CognitiveState<W>)
        ensures
            r == self.spec_cognition(),
    {
        self.cognitive_state
    }

    /// Replaces the cognitive state and leaves everything else.
    pub fn set_cognitive_state(&mut self, state: CognitiveState<W>)
        requires
            old(self).wf(),
        ensures
            final(self).wf(),
            final(self).spec_cognition() == state,
            final(self).spec_id() == old(self).spec_id(),
            final(self).spec_dna() == old(self).spec_dna(),
            final(self).spec_behavior() == old(self).spec_behavior(),
            final(self).spec_network() == old(self).spec_network(),
            final(self).spec_memory() == old(self).spec_memory(),
            final(self).spec_connections() == old(self).spec_connections(),
            final(self).spec_experience() == old(self).spec_experience(),
            final(self).spec_age() == old(self).spec_age(),
    {
        self.cognitive_state = state;
    }

    /// Adds a connection to another agent, once: an id already present is
    /// not added again.
    pub fn add_social_connection(&mut self, other_agent_id: String)
        requires
            old(self).wf(),
        ensures
            final(self).wf(),
            final(self).same_but_connections(old(self)),
            final(self).spec_connections() == if old(self).spec_connections().contains(
                other_agent_id@,
            ) {
                old(self).spec_connections()
            } else {
                old(self).spec_connections().push(other_agent_id@)
            },
    {
        let ghost conns = self.spec_connections();
        let mut i: usize = 0;
        while i < self.social_connections.len()
            invariant
                0 <= i <= self.social_connections.len(),
                conns == self.social_connections@.map_values(|c: String| c@),
                *self == *old(self),
                old(self).wf(),
                forall|k: int| 0 <= k < i ==> conns[k] != other_agent_id@,
            decreases self.social_connections.len() - i,
        {
            if self.social_connections[i] == other_agent_id {
                assert(conns[i as int] == other_agent_id@);
                return;
            }
            i = i + 1;
        }
        assert(!conns.contains(other_agent_id@));
        self.social_connections.push(other_agent_id);
        assert(self.spec_connections() =~= conns.push(other_agent_id@));
    }

    /// The number of connections.
    pub fn get_social_network_size(&self) -> (r: usize)
        ensures
            r == self.spec_connections().len(),
    {
        self.social_connections.len()
    }

    /// The ids of the connected agents, in the order they were added.
    pub fn get_social_connections(&self) -> (r: &Vec<String>)
        ensures
            r@.map_values(|c: String| c@) == self.spec_connections(),
    {
        &self.social_connections
    }

    /// Writes `value` under `key` in a store with room for `limit` entries:
    /// when the store already holds `limit` entries or more, its oldest
    /// entry is dropped first. A key already present keeps its place and
    /// takes the new value.
    pub fn store_memory(&mut self, key: String, value: W, limit: usize)
        requires
            old(self).wf(),
        ensures
            final(self).wf(),
            final(self).same_but_memory(old(self)),
            final(self).spec_memory() == stored(old(self).spec_memory(), key@, value, limit as nat),
    {
        let ghost m0 = self.spec_memory();
        if self.memory.len() >= limit && self.memory.len() > 0 {
            self.memory.remove(0);
            assert(self.spec_memory() =~= m0.drop_first());
        }
        let ghost m1 = self.spec_memory();
        assert(m1 == evict_oldest(m0, limit as nat));
        assert(keys_unique(m1));
        assert(self.same_but_memory(old(self)));
        let mut i: usize = 0;
        while i < self.memory.len()
            invariant
                0 <= i <= self.memory.len(),
                m1 == self.memory@.map_values(|e: (String, W)| (e.0@, e.1)),
                m1 == evict_oldest(old(self).spec_memory(), limit as nat),
                keys_unique(m1),
                self.same_but_memory(old(self)),
                old(self).wf(),
                forall|k: int| 0 <= k < i ==> m1[k].0 != key@,
            decreases self.memory.len() - i,
        {
            if self.memory[i].0 == key {
                assert(m1[i as int].0 == key@);
                assert(has_key(m1, key@));
                assert(key_index(m1, key@) == i);
                self.memory.set(i, (key, value));
                let ghost m2 = m1.update(i as int, (key@, value));
                assert(self.spec_memory() =~= m2);
                assert forall|x: int, y: int| 0 <= x < y < m2.len() implies m2[x].0 != m2[y].0 by {
                    assert(m2[x].0 == m1[x].0 && m2[y].0 == m1[y].0);
                }
                return;
            }
            i = i + 1;
        }
        assert(!has_key(m1, key@));
        self.memory.push((key, value));
        assert(self.spec_memory() =~= m1.push((key@, value)));
    }

    /// The value stored under `key`, if any.
    pub fn get_memory(&self, key: &String) -> (r: Option<W>)
        requires
            self.wf(),
        ensures
            r == recall(self.spec_memory(), key@),
    {
        let ghost m = self.spec_memory();
        let mut i: usize = 0;
        while i < self.memory.len()
            invariant
                0 <= i <= self.memory.len(),
                m == self.memory@.map_values(|e: (String, W)| (e.0@, e.1)),
                keys_unique(m),
                forall|k: int| 0 <= k < i ==> m[k].0 != key@,
            decreases self.memory.len() - i,
        {
            if self.memory[i].0 == *key {
                assert(m[i as int].0 == key@);
                assert(key_index(m, key@) == i);
                return Some(self.memory[i].1);
            }
            i = i + 1;
        }
        None
    }

    /// The number of stored memories.
    pub fn memory_size(&self) -> (r: usize)
        ensures
            r == self.spec_memory().len(),
    {
        self.memory.len()
    }

    /// Checks the experience kind, then adds `points` to the experience and
    /// one to the age, moves the cognition by `update` for that kind, and
    /// reports whether the new total reaches a new level. An unknown kind is
    /// a validation error and leaves the agent as it was.
    pub fn gain_experience<U: Fn(CognitiveState<W>, ExperienceKind, u64) -> CognitiveState<W>>(
        &mut self,
        points: u64,
        experience_type: &String,
        update: &U,
    ) -> (r: Result<bool, LoreError>)
        requires
            old(self).wf(),
            old(self).spec_experience() + points <= u64::MAX,
            old(self).spec_age() < u64::MAX,
            forall|c: CognitiveState<W>, k: ExperienceKind, p: u64| #[trigger]
                update.requires((c, k, p)),
        ensures
            final(self).wf(),
            match experience_named(experience_type@) {
                Some(k) => {
                    &&& r == Ok::<bool, LoreError>(
                        levels_up(final(self).spec_experience() as nat, points as nat),
                    )
                    &&& final(self).spec_experience() == old(self).spec_experience() + points
                    &&& final(self).spec_age() == old(self).spec_age() + 1
                    &&& update.ensures(
                        (old(self).spec_cognition(), k, points),
                        final(self).spec_cognition(),
                    )
                },
                None => r is Err && r->Err_0 is Validation && *final(self) == *old(self),
            },
            final(self).spec_id() == old(self).spec_id(),
            final(self).spec_dna() == old(self).spec_dna(),
            final(self).spec_behavior() == old(self).spec_behavior(),
            final(self).spec_network() == old(self).spec_network(),
            final(self).spec_memory() == old(self).spec_memory(),
            final(self).spec_connections() == old(self).spec_connections(),
    {
        let kind = match ExperienceKind::new(experience_type) {
            Err(e) => {
                return Err(e);
            },
            Ok(k) => k,
        };
        self.experience_points = self.experience_points + points;
        self.age = self.age + 1;
        self.cognitive_state = update(self.cognitive_state, kind, points);
        Ok(self.experience_points % 1000 == 0 && points > 0)
    }

    pub fn get_experience(&self) -> (r: u64)
        ensures
            r == self.spec_experience(),
    {
        self.experience_points
    }

    pub fn get_age(&self) -> (r: u64)
        ensures
            r == self.spec_age(),
    {
        self.age
    }
}

/// Experience awarded to each side of an interaction that creates a
/// connection.
pub const SOCIAL_REWARD: u64 = 10;

/// An interaction record: the two agents' ids and the interaction strength.
pub type InteractionModel<W> = (Seq<char>, Seq<char>, W);

/// `conns` with `other` added at the end unless already present.
pub open spec fn connected_to(conns: Seq<Seq<char>>, other: Seq<char>) -> Seq<Seq<char>> {
    if conns.contains(other) {
        conns
    } else {
        conns.push(other)
    }
}

/// Adding a connection keeps every earlier one and holds the new one.
proof fn lemma_connected_to(conns: Seq<Seq<char>>, other: Seq<char>)
    ensures
        connected_to(conns, other).contains(other),
        forall|y: Seq<char>| conns.contains(y) ==> #[trigger] connected_to(conns, other).contains(y),
{
    if !conns.contains(other) {
        assert(connected_to(conns, other)[conns.len() as int] == other);
        assert forall|y: Seq<char>| conns.contains(y) implies #[trigger] connected_to(
            conns,
            other,
        ).contains(y) by {
            let i = choose|i: int| 0 <= i < conns.len() && conns[i] == y;
            assert(connected_to(conns, other)[i] == y);
        }
    }
}

/// `after` is `before` once it has connected to `other_id`, gained
/// `SOCIAL_REWARD` points of social experience and a year of age, and had
/// its cognition moved by `update`; nothing else changes.
pub open spec fn rewarded<W: Copy, U: Fn(CognitiveState<W>, ExperienceKind, u64) -> CognitiveState<W>>(
    before: IntelligentAgent<W>,
    after: IntelligentAgent<W>,
    other_id: Seq<char>,
    update: U,
) -> bool {
    &&& after.wf()
    &&& after.spec_id() == before.spec_id()
    &&& after.spec_dna() == before.spec_dna()
    &&& after.spec_behavior() == before.spec_behavior()
    &&& after.spec_network() == before.spec_network()
    &&& after.spec_memory() == before.spec_memory()
    &&& after.spec_connections() == connected_to(before.spec_connections(), other_id)
    &&& after.spec_experience() == before.spec_experience() + SOCIAL_REWARD
    &&& after.spec_age() == before.spec_age() + 1
    &&& update.ensures(
        (before.spec_cognition(), ExperienceKind::Social, SOCIAL_REWARD),
        after.spec_cognition(),
    )
}

/// One side of a connecting interaction: `agent` connects to `other_id`
/// and gains `SOCIAL_REWARD` points of social experience.
fn reward_side<W: Copy, U: Fn(CognitiveState<W>, ExperienceKind, u64) -> CognitiveState<W>>(
    agent: &mut IntelligentAgent<W>,
    other_id: String,
    update: &U,
)
    requires
        old(agent).wf(),
        old(agent).spec_experience() + SOCIAL_REWARD <= u64::MAX,
        old(agent).spec_age() < u64::MAX,
        forall|c: CognitiveState<W>, k: ExperienceKind, p: u64| #[trigger]
            update.requires((c, k, p)),
    ensures
        rewarded(*old(agent), *final(agent), other_id@, *update),
{
    agent.add_social_connection(other_id);
    let social = "social".to_string();
    proof {
        reveal_strlit("social");
        reveal_strlit("learning");
    }
    assert(social@ == "social"@);
    assert(experience_named(social@) == Some(ExperienceKind::Social));
    let _ = agent.gain_experience(SOCIAL_REWARD, &social, update);
}

/// One trial of an interaction round: agents `first` and `second` (two
/// different positions) were judged by `assess`, giving the strength
/// logged in `rec` and whether the pair connects; a connecting pair is
/// rewarded on both sides, and every other agent is left as it was.
pub open spec fn trial_step<
    W: Copy,
    S: Fn(&CognitiveState<W>, &CognitiveState<W>) -> (W, bool),
    U: Fn(CognitiveState<W>, ExperienceKind, u64) -> CognitiveState<W>,
>(
    before: Seq<IntelligentAgent<W>>,
    after: Seq<IntelligentAgent<W>>,
    first: int,
    second: int,
    strong: bool,
    rec: InteractionModel<W>,
    assess: S,
    update: U,
) -> bool {
    &&& 0 <= first < before.len()
    &&& 0 <= second < before.len()
    &&& first != second
    &&& after.len() == before.len()
    &&& rec.0 == before[first].spec_id()
    &&& rec.1 == before[second].spec_id()
    &&& assess.ensures(
        (&before[first].spec_cognition(), &before[second].spec_cognition()),
        (rec.2, strong),
    )
    &&& forall|k: int|
        0 <= k < before.len() && k != first && k != second ==> #[trigger] after[k] == before[k]
    &&& if strong {
        &&& rewarded(before[first], after[first], before[second].spec_id(), update)
        &&& rewarded(before[second], after[second], before[first].spec_id(), update)
    } else {
        &&& after[first] == before[first]
        &&& after[second] == before[second]
    }
}

/// A trial of a round: the two positions drawn and whether they connected.
pub type TrialModel = (int, int, bool);

/// The number of trials that connected.
pub open spec fn strong_count(trials: Seq<TrialModel>) -> nat
    decreases trials.len(),
{
    if trials.len() == 0 {
        0
    } else {
        strong_count(trials.drop_last()) + if trials.last().2 {
            1nat
        } else {
            0nat
        }
    }
}

/// The number of connecting trials in which the agent at `x` took part.
pub open spec fn involvement(trials: Seq<TrialModel>, x: int) -> nat
    decreases trials.len(),
{
    if trials.len() == 0 {
        0
    } else {
        involvement(trials.drop_last(), x) + if trials.last().2 && (trials.last().0 == x
            || trials.last().1 == x) {
            1nat
        } else {
            0nat
        }
    }
}

/// `snaps` are the agents before each trial and after the last, from
/// `agents0` to `agents1`; trial `t` is a `trial_step` that logged
/// `records[t]`.
pub open spec fn run_of<
    W: Copy,
    S: Fn(&CognitiveState<W>, &CognitiveState<W>) -> (W, bool),
    U: Fn(CognitiveState<W>, ExperienceKind, u64) -> CognitiveState<W>,
>(
    snaps: Seq<Seq<IntelligentAgent<W>>>,
    trials: Seq<TrialModel>,
    agents0: Seq<IntelligentAgent<W>>,
    agents1: Seq<IntelligentAgent<W>>,
    records: Seq<InteractionModel<W>>,
    assess: S,
    update: U,
) -> bool {
    &&& trials.len() == records.len()
    &&& snaps.len() == trials.len() + 1
    &&& snaps[0] == agents0
    &&& snaps.last() == agents1
    &&& forall|t: int|
        0 <= t < trials.len() ==> #[trigger] trial_step(
            snaps[t],
            snaps[t + 1],
            trials[t].0,
            trials[t].1,
            trials[t].2,
            records[t],
            assess,
            update,
        )
}

/// What a round of `trials` did to the agents: each gained
/// `SOCIAL_REWARD` experience and a year of age per connecting trial it
/// took part in, kept its id, genes, behaviour, network and memory; every
/// trial drew two different positions; and the two agents of every
/// connecting trial hold each other's id among their connections.
pub open spec fn run_effects<W: Copy>(
    trials: Seq<TrialModel>,
    agents0: Seq<IntelligentAgent<W>>,
    agents1: Seq<IntelligentAgent<W>>,
) -> bool {
    &&& agents1.len() == agents0.len()
    &&& forall|x: int|
        0 <= x < agents0.len() ==> {
            &&& (#[trigger] agents1[x]).spec_experience() == agents0[x].spec_experience()
                + SOCIAL_REWARD * involvement(trials, x)
            &&& agents1[x].spec_age() == agents0[x].spec_age() + involvement(trials, x)
            &&& agents1[x].spec_id() == agents0[x].spec_id()
            &&& agents1[x].spec_dna() == agents0[x].spec_dna()
            &&& agents1[x].spec_behavior() == agents0[x].spec_behavior()
            &&& agents1[x].spec_network() == agents0[x].spec_network()
            &&& agents1[x].spec_memory() == agents0[x].spec_memory()
        }
    &&& forall|t: int|
        0 <= t < trials.len() ==> 0 <= (#[trigger] trials[t]).0 < agents0.len() && 0 <= trials[t].1
            < agents0.len() && trials[t].0 != trials[t].1
    &&& forall|t: int|
        0 <= t < trials.len() && (#[trigger] trials[t]).2 ==> {
            &&& agents1[trials[t].0].spec_connections().contains(agents1[trials[t].1].spec_id())
            &&& agents1[trials[t].1].spec_connections().contains(agents1[trials[t].0].spec_id())
        }
}

/// A collection of agents and the log of their interactions.
pub struct AgentSociety<W> {
    agents: Vec<IntelligentAgent<W>>,
    interaction_history: Vec<(String, String, W)>,
}

/// `rec` names two agents at different positions of `agents`.
pub open spec fn names_distinct_pair<W: Copy>(
    agents: Seq<IntelligentAgent<W>>,
    rec: InteractionModel<W>,
) -> bool {
    exists|i: int, j: int|
        0 <= i < agents.len() && 0 <= j < agents.len() && i != j && #[trigger] agents[i].spec_id()
            == rec.0 && #[trigger] agents[j].spec_id() == rec.1
}

impl<W: Copy> AgentSociety<W> {
    pub closed spec fn spec_agents(&self) -> Seq<IntelligentAgent<W>> {
        self.agents@
    }

    pub closed spec fn spec_history(&self) -> Seq<InteractionModel<W>> {
        self.interaction_history@.map_values(|r: (String, String, W)| (r.0@, r.1@, r.2))
    }

    /// Every agent is well formed.
    pub open spec fn wf(&self) -> bool {
        forall|i: int| 0 <= i < self.spec_agents().len() ==> (#[trigger] self.spec_agents()[i]).wf()
    }

    /// An empty society with an empty log.
    pub fn new() -> (r: AgentSociety<W>)
        ensures
            r.wf(),
            r.spec_agents().len() == 0,
            r.spec_history().len() == 0,
    {
        let r = AgentSociety { agents: Vec::new(), interaction_history: Vec::new() };
        assert(r.spec_history() =~= Seq::empty());
        r
    }

    /// Adds an agent at the end.
    pub fn add_agent(&mut self, agent: IntelligentAgent<W>)
        requires
            old(self).wf(),
            agent.wf(),
        ensures
            final(self).wf(),
            final(self).spec_agents() == old(self).spec_agents().push(agent),
            final(self).spec_history() == old(self).spec_history(),
    {
        self.agents.push(agent);
        assert forall|i: int| 0 <= i < self.spec_agents().len() implies (
        #[trigger] self.spec_agents()[i]).wf() by {
            if i < old(self).spec_agents().len() {
                assert(old(self).spec_agents()[i].wf());
            }
        }
    }

    /// The number of agents.
    pub fn get_size(&self) -> (r: usize)
        ensures
            r == self.spec_agents().len(),
    {
        self.agents.len()
    }

    /// The agents, in the order they were added.
    pub fn get_agents(&self) -> (r: &Vec<IntelligentAgent<W>>)
        ensures
            r@ == self.spec_agents(),
    {
        &self.agents
    }

    /// The interaction log, oldest first.
    pub fn get_interactions(&self) -> (r: &Vec<(String, String, W)>)
        ensures
            r@.map_values(|r: (String, String, W)| (r.0@, r.1@, r.2)) == self.spec_history(),
    {
        &self.interaction_history
    }

    /// The number of logged interactions.
    pub fn interaction_count(&self) -> (r: usize)
        ensures
            r == self.spec_history().len(),
    {
        self.interaction_history.len()
    }

    /// The sum of the agents' connection counts.
    pub open spec fn connection_total(agents: Seq<IntelligentAgent<W>>) -> nat
        decreases agents.len(),
    {
        if agents.len() == 0 {
            0
        } else {
            Self::connection_total(agents.drop_last()) + agents.last().spec_connections().len()
        }
    }

    /// The sum of the agents' experience.
    pub open spec fn experience_total(agents: Seq<IntelligentAgent<W>>) -> nat
        decreases agents.len(),
    {
        if agents.len() == 0 {
            0
        } else {
            Self::experience_total(agents.drop_last()) + agents.last().spec_experience() as nat
        }
    }

    proof fn lemma_prefix_totals(agents: Seq<IntelligentAgent<W>>, i: int)
        requires
            0 <= i <= agents.len(),
        ensures
            Self::connection_total(agents.take(i)) <= Self::connection_total(agents),
            Self::experience_total(agents.take(i)) <= Self::experience_total(agents),
        decreases agents.len(),
    {
        if i < agents.len() {
            assert(agents.drop_last().take(i) =~= agents.take(i));
            Self::lemma_prefix_totals(agents.drop_last(), i);
        } else {
            assert(agents.take(i) =~= agents);
        }
    }

    /// The number of connections over all agents.
    pub fn total_connections(&self) -> (r: usize)
        requires
            Self::connection_total(self.spec_agents()) <= usize::MAX,
        ensures
            r == Self::connection_total(self.spec_agents()),
    {
        let mut total: usize = 0;
        let mut i: usize = 0;
        while i < self.agents.len()
            invariant
                0 <= i <= self.agents.len(),
                Self::connection_total(self.agents@) <= usize::MAX,
                total == Self::connection_total(self.agents@.take(i as int)),
            decreases self.agents.len() - i,
        {
            assert(self.agents@.take(i + 1).drop_last() =~= self.agents@.take(i as int));
            proof {
                Self::lemma_prefix_totals(self.agents@, i + 1);
            }
            total = total + self.agents[i].get_social_network_size();
            i = i + 1;
        }
        assert(self.agents@.take(self.agents.len() as int) =~= self.agents@);
        total
    }

    /// The experience over all agents.
    pub fn total_experience(&self) -> (r: u64)
        requires
            Self::experience_total(self.spec_agents()) <= u64::MAX,
        ensures
            r == Self::experience_total(self.spec_agents()),
    {
        let mut total: u64 = 0;
        let mut i: usize = 0;
        while i < self.agents.len()
            invariant
                0 <= i <= self.agents.len(),
                Self::experience_total(self.agents@) <= u64::MAX,
                total == Self::experience_total(self.agents@.take(i as int)),
            decreases self.agents.len() - i,
        {
            assert(self.agents@.take(i + 1).drop_last() =~= self.agents@.take(i as int));
            proof {
                Self::lemma_prefix_totals(self.agents@, i + 1);
            }
            total = total + self.agents[i].get_experience();
            i = i + 1;
        }
        assert(self.agents@.take(self.agents.len() as int) =~= self.agents@);
        total
    }

    /// Every agent's decision on the same situation, in order. The first
    /// agent that cannot decide fails the whole call; so do decisions of
    /// different lengths. It succeeds exactly when every agent can decide
    /// and all decide with as many values as the first.
    pub fn collective_decisions<
        F: Fn(&Vec<W>, &Vec<W>, W, ActivationType) -> W,
        R: Fn(BehaviorType, &CognitiveState<W>, &Vec<W>) -> Vec<W>,
    >(&self, situation: &Vec<W>, neuron: &F, rules: &R) -> (r: Result<Vec<Vec<W>>, LoreError>)
        requires
            self.wf(),
            neuron_total(*neuron),
            forall|b: BehaviorType, c: &CognitiveState<W>, s: &Vec<W>| #[trigger]
                rules.requires((b, c, s)),
            rules_give_three(*rules),
        ensures
            r is Ok <==> forall|k: int|
                0 <= k < self.spec_agents().len() ==> !decision_fails(
                    #[trigger] self.spec_agents()[k],
                    situation@,
                ) && decision_len(self.spec_agents()[k]) == decision_len(self.spec_agents()[0]),
            r is Err ==> r->Err_0 is DimensionMismatch,
            r matches Ok(ds) ==> {
                &&& ds.len() == self.spec_agents().len()
                &&& forall|k: int|
                    0 <= k < ds.len() ==> (#[trigger] ds[k]).len() == ds[0].len() && decision_of(
                        self.spec_agents()[k],
                        *situation,
                        *neuron,
                        *rules,
                        ds[k],
                    )
            },
    {
        let mut ds: Vec<Vec<W>> = Vec::new();
        let mut k: usize = 0;
        while k < self.agents.len()
            invariant
                self.wf(),
                neuron_total(*neuron),
                forall|b: BehaviorType, c: &CognitiveState<W>, s: &Vec<W>| #[trigger]
                    rules.requires((b, c, s)),
                rules_give_three(*rules),
                0 <= k <= self.agents.len(),
                ds.len() == k,
                forall|j: int|
                    0 <= j < k ==> !decision_fails(#[trigger] self.agents@[j], situation@)
                        && decision_len(self.agents@[j]) == decision_len(self.agents@[0]),
                forall|j: int|
                    0 <= j < k ==> (#[trigger] ds[j]).len() == decision_len(self.agents@[j]) && decision_of(
                        self.agents@[j],
                        *situation,
                        *neuron,
                        *rules,
                        ds[j],
                    ),
            decreases self.agents.len() - k,
        {
            assert(self.spec_agents()[k as int].wf());
            let d = match self.agents[k].make_decision(situation, neuron, rules) {
                Err(e) => {
                    return Err(e);
                },
                Ok(d) => d,
            };
            if k > 0 && d.len() != ds[0].len() {
                return Err(LoreError::DimensionMismatch("Decisions differ in length".to_string()));
            }
            ds.push(d);
            k = k + 1;
        }
        Ok(ds)
    }

    /// One trial between the agents at `first` and `second`: `assess`
    /// judges them from their cognitive states, the pair and the strength
    /// are logged, and a strong pair connects both ways, each side gaining
    /// `SOCIAL_REWARD` points of social experience. Returns whether the
    /// pair connected.
    pub fn interact<
        S: Fn(&CognitiveState<W>, &CognitiveState<W>) -> (W, bool),
        U: Fn(CognitiveState<W>, ExperienceKind, u64) -> CognitiveState<W>,
    >(&mut self, first: usize, second: usize, assess: &S, update: &U) -> (r: bool)
        requires
            old(self).wf(),
            first < old(self).spec_agents().len(),
            second < old(self).spec_agents().len(),
            first != second,
            old(self).spec_agents()[first as int].spec_experience() + SOCIAL_REWARD <= u64::MAX,
            old(self).spec_agents()[second as int].spec_experience() + SOCIAL_REWARD <= u64::MAX,
            old(self).spec_agents()[first as int].spec_age() < u64::MAX,
            old(self).spec_agents()[second as int].spec_age() < u64::MAX,
            forall|a: &CognitiveState<W>, b: &CognitiveState<W>| #[trigger] assess.requires((a, b)),
            forall|c: CognitiveState<W>, k: ExperienceKind, p: u64| #[trigger]
                update.requires((c, k, p)),
        ensures
            final(self).wf(),
            final(self).spec_history().len() == old(self).spec_history().len() + 1,
            final(self).spec_history().drop_last() == old(self).spec_history(),
            trial_step(
                old(self).spec_agents(),
                final(self).spec_agents(),
                first as int,
                second as int,
                r,
                final(self).spec_history().last(),
                *assess,
                *update,
            ),
    {
        let ghost a0 = self.agents@;
        let first_id = self.agents[first].get_id();
        let second_id = self.agents[second].get_id();
        let (strength, strong) = assess(
            &self.agents[first].cognitive_state,
            &self.agents[second].cognitive_state,
        );
        if strong {
            assert(a0[first as int].wf());
            reward_side(&mut self.agents[first], second_id.clone(), update);
            assert(self.agents@[second as int] == a0[second as int]);
            reward_side(&mut self.agents[second], first_id.clone(), update);
        }
        let ghost h = self.spec_history();
        self.interaction_history.push((first_id, second_id, strength));
        assert(self.spec_history() =~= h.push((a0[first as int].spec_id(), a0[second as int].spec_id(), strength)));
        assert(self.spec_history().drop_last() =~= h);
        assert forall|i: int| 0 <= i < self.spec_agents().len() implies (
        #[trigger] self.spec_agents()[i]).wf() by {
            if i != first && i != second {
                assert(a0[i].wf());
            }
        }
        strong
    }

    /// Runs `num_interactions` trials. Each picks two distinct agents at
    /// random, lets `assess` judge the pair from their cognitive states
    /// (giving a strength and whether it is strong enough to connect), and
    /// logs the pair with the strength. A strong pair connects both ways,
    /// and each side gains `SOCIAL_REWARD` points of social experience,
    /// its cognition moved by `update`. Returns how many trials connected. With
    /// fewer than two agents nothing happens.
    pub fn simulate_interactions<
        S: Fn(&CognitiveState<W>, &CognitiveState<W>) -> (W, bool),
        U: Fn(CognitiveState<W>, ExperienceKind, u64) -> CognitiveState<W>,
    >(&mut self, num_interactions: usize, assess: &S, update: &U) -> (r: usize)
        requires
            old(self).wf(),
            forall|a: &CognitiveState<W>, b: &CognitiveState<W>| #[trigger] assess.requires((a, b)),
            forall|c: CognitiveState<W>, k: ExperienceKind, p: u64| #[trigger]
                update.requires((c, k, p)),
            forall|i: int|
                0 <= i < old(self).spec_agents().len() ==> (#[trigger] old(self).spec_agents()[i]).spec_experience() + SOCIAL_REWARD * num_interactions
                    <= u64::MAX && old(self).spec_agents()[i].spec_age() + num_interactions
                    <= u64::MAX,
        ensures
            final(self).wf(),
            final(self).spec_agents().len() == old(self).spec_agents().len(),
            forall|i: int|
                0 <= i < old(self).spec_agents().len() ==> (#[trigger] final(self).spec_agents()[i]).spec_id() == old(self).spec_agents()[i].spec_id(),
            old(self).spec_agents().len() < 2 ==> r == 0 && *final(self) == *old(self),
            old(self).spec_agents().len() >= 2 ==> {
                &&& final(self).spec_history().len() == old(self).spec_history().len()
                    + num_interactions
                &&& final(self).spec_history().take(old(self).spec_history().len() as int) == old(self).spec_history()
                &&& forall|k: int|
                    old(self).spec_history().len() <= k < final(self).spec_history().len()
                        ==> names_distinct_pair(
                        old(self).spec_agents(),
                        #[trigger] final(self).spec_history()[k],
                    )
                &&& exists|snaps: Seq<Seq<IntelligentAgent<W>>>, trials: Seq<TrialModel>|
                    #[trigger] run_of(
                        snaps,
                        trials,
                        old(self).spec_agents(),
                        final(self).spec_agents(),
                        final(self).spec_history().skip(old(self).spec_history().len() as int),
                        *assess,
                        *update,
                    ) && run_effects(trials, old(self).spec_agents(), final(self).spec_agents())
                        && r == strong_count(trials)
            },
            r <= num_interactions,
    {
        let n = self.agents.len();
        if n < 2 {
            return 0;
        }
        let ghost agents0 = self.spec_agents();
        let ghost hist0 = self.spec_history();
        let mut created: usize = 0;
        let mut t: usize = 0;
        let ghost mut snaps: Seq<Seq<IntelligentAgent<W>>> = seq![agents0];
        let ghost mut trials: Seq<TrialModel> = Seq::empty();
        assert(self.spec_history().skip(hist0.len() as int) =~= Seq::empty());
        while t < num_interactions
            invariant
                forall|i: int| 0 <= i < n ==> (#[trigger] self.agents@[i]).wf(),
                n == self.agents.len(),
                n >= 2,
                agents0.len() == n,
                0 <= t <= num_interactions,
                created <= t,
                forall|a: &CognitiveState<W>, b: &CognitiveState<W>| #[trigger] assess.requires((a, b)),
                forall|c: CognitiveState<W>, k: ExperienceKind, p: u64| #[trigger]
                    update.requires((c, k, p)),
                forall|i: int|
                    0 <= i < n ==> (#[trigger] self.agents@[i]).spec_id() == agents0[i].spec_id(),
                forall|i: int|
                    0 <= i < n ==> (#[trigger] self.agents@[i]).spec_experience() + SOCIAL_REWARD * (
                    num_interactions - t) <= u64::MAX && self.agents@[i].spec_age() + (
                    num_interactions - t) <= u64::MAX,
                self.spec_history().len() == hist0.len() + t,
                self.spec_history().take(hist0.len() as int) == hist0,
                run_of(snaps, trials, agents0, self.spec_agents(), self.spec_history().skip(hist0.len() as int), *assess, *update),
                run_effects(trials, agents0, self.spec_agents()),
                created == strong_count(trials),
                trials.len() == t,
                forall|k: int|
                    hist0.len() <= k < self.spec_history().len() ==> names_distinct_pair(
                        agents0,
                        #[trigger] self.spec_history()[k],
                    ),
            decreases num_interactions - t,
        {
            let first = random_below(n);
            let other = random_below(n - 1);
            let second = if other >= first {
                other + 1
            } else {
                other
            };
            let ghost h = self.spec_history();
            let ghost before = self.spec_agents();
            assert(self.wf());
            let strong = self.interact(first, second, assess, update);
            if strong {
                created = created + 1;
            }
            let ghost rec = self.spec_history().last();
            let ghost after = self.spec_agents();
            assert(self.spec_history()[h.len() as int] == rec);
            assert(agents0[first as int].spec_id() == rec.0);
            assert(agents0[second as int].spec_id() == rec.1);
            assert(names_distinct_pair(agents0, rec));
            assert forall|k: int| 0 <= k < h.len() implies #[trigger] self.spec_history()[k] == h[k] by {
                assert(self.spec_history().drop_last()[k] == h[k]);
            }
            proof {
                let after = self.spec_agents();
                let tr = (first as int, second as int, strong);
                let old_trials = trials;
                trials = trials.push(tr);
                snaps = snaps.push(after);
                assert(trials.drop_last() =~= old_trials);
                assert(self.spec_history().skip(hist0.len() as int) =~= h.skip(hist0.len() as int).push(rec));
                assert forall|u: int| 0 <= u < trials.len() implies #[trigger] trial_step(
                    snaps[u],
                    snaps[u + 1],
                    trials[u].0,
                    trials[u].1,
                    trials[u].2,
                    self.spec_history().skip(hist0.len() as int)[u],
                    *assess,
                    *update,
                ) by {
                    if u < old_trials.len() {
                        assert(self.spec_history().skip(hist0.len() as int)[u] == h.skip(hist0.len() as int)[u]);
                    }
                }
                lemma_connected_to(before[first as int].spec_connections(), before[second as int].spec_id());
                lemma_connected_to(before[second as int].spec_connections(), before[first as int].spec_id());
                assert forall|x: int| 0 <= x < agents0.len() implies {
                    &&& (#[trigger] after[x]).spec_experience() == agents0[x].spec_experience()
                        + SOCIAL_REWARD * involvement(trials, x)
                    &&& after[x].spec_age() == agents0[x].spec_age() + involvement(trials, x)
                    &&& after[x].spec_id() == agents0[x].spec_id()
                    &&& after[x].spec_dna() == agents0[x].spec_dna()
                    &&& after[x].spec_behavior() == agents0[x].spec_behavior()
                    &&& after[x].spec_network() == agents0[x].spec_network()
                    &&& after[x].spec_memory() == agents0[x].spec_memory()
                } by {
                    assert(before[x].spec_experience() == agents0[x].spec_experience()
                        + SOCIAL_REWARD * involvement(old_trials, x));
                }
                assert forall|u: int| 0 <= u < trials.len() implies 0 <= (#[trigger] trials[u]).0 < agents0.len() && 0 <= trials[u].1
                    < agents0.len() && trials[u].0 != trials[u].1 by {
                    if u < old_trials.len() {
                        assert(old_trials[u] == trials[u]);
                    }
                }
                assert forall|u: int| 0 <= u < trials.len() && (#[trigger] trials[u]).2 implies {
                    &&& after[trials[u].0].spec_connections().contains(after[trials[u].1].spec_id())
                    &&& after[trials[u].1].spec_connections().contains(after[trials[u].0].spec_id())
                } by {
                    let p = trials[u].0;
                    let q = trials[u].1;
                    if u < old_trials.len() {
                        assert(old_trials[u] == trials[u]);
                    }
                    assert(after[p].spec_id() == before[p].spec_id());
                    assert(after[q].spec_id() == before[q].spec_id());
                    if u < old_trials.len() {
                        assert(old_trials[u] == trials[u]);
                        assert(before[p].spec_connections().contains(before[q].spec_id()));
                        assert(before[q].spec_connections().contains(before[p].spec_id()));
                        lemma_connected_to(before[p].spec_connections(), before[if p == first { second as int } else { first as int }].spec_id());
                        lemma_connected_to(before[q].spec_connections(), before[if q == first { second as int } else { first as int }].spec_id());
                    }
                }
            }
            t = t + 1;
        }
        assert(self.wf());
        assert(self.spec_history().skip(hist0.len() as int) == self.spec_history().skip(old(self).spec_history().len() as int));
        created
    }
}

/// In a society of two agents with different ids, every logged interaction
/// names both of them, in one order or the other.
pub proof fn lemma_two_agent_records<W: Copy>(
    agents: Seq<IntelligentAgent<W>>,
    rec: InteractionModel<W>,
)
    requires
        agents.len() == 2,
        agents[0].spec_id() != agents[1].spec_id(),
        names_distinct_pair(agents, rec),
    ensures
        rec.0 != rec.1,
        (rec.0 == agents[0].spec_id() && rec.1 == agents[1].spec_id()) || (rec.0
            == agents[1].spec_id() && rec.1 == agents[0].spec_id()),
{
}

/// Gaining experience levels up exactly when the new total is a positive
/// multiple of 1000 and the points gained are positive.
pub proof fn lemma_level_up(previous: nat, points: nat)
    ensures
        levels_up(previous + points, points) <==> (previous + points) % 1000 == 0 && previous
            + points > 0 && points > 0,
{
}

} // verus!
