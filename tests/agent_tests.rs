use lore_engine::activation::ActivationType;
use lore_engine::agent::{AgentSociety, BehaviorType, CognitiveState, ExperienceKind, IntelligentAgent};
use lore_engine::error::LoreError;
use lore_engine::genetic::AgentDNA;
use lore_engine::neural::{NeuralLayer, NeuralNetwork};

fn neuron(row: &Vec<f64>, input: &Vec<f64>, bias: f64, _a: ActivationType) -> f64 {
    row.iter().zip(input.iter()).map(|(w, x)| w * x).sum::<f64>() + bias
}

fn rules(b: BehaviorType, c: &CognitiveState<f64>, s: &Vec<f64>) -> Vec<f64> {
    let avg = if s.is_empty() { 0.0 } else { s.iter().sum::<f64>() / s.len() as f64 };
    match b {
        BehaviorType::Explorer => vec![(avg + c.creativity).min(1.0), 0.0, c.attention],
        _ => vec![avg, 0.0, 0.0],
    }
}

fn cognition(v: f64) -> CognitiveState<f64> {
    CognitiveState::new(v, v, v, v, v, v)
}

fn agent(id: &str, genes: Vec<f64>) -> IntelligentAgent<f64> {
    IntelligentAgent::new(id.to_string(), AgentDNA::new(genes), BehaviorType::Explorer, cognition(0.5))
}

#[test]
fn behavior_names_ignore_case() {
    assert!(matches!(BehaviorType::new("Explorer".to_string()), Ok(BehaviorType::Explorer)));
    assert!(matches!(BehaviorType::new("SOCIALIZER".to_string()), Ok(BehaviorType::Socializer)));
    assert!(matches!(BehaviorType::new("optimizer".to_string()), Ok(BehaviorType::Optimizer)));
    assert!(matches!(BehaviorType::new("Creator".to_string()), Ok(BehaviorType::Creator)));
    assert!(matches!(BehaviorType::new("analyzer".to_string()), Ok(BehaviorType::Analyzer)));
    assert!(matches!(BehaviorType::new("leader".to_string()), Err(LoreError::Validation(_))));
    assert_eq!(BehaviorType::Analyzer.name(), "Analyzer");
}

#[test]
fn experience_kinds_are_exact_names() {
    assert!(matches!(ExperienceKind::new(&"learning".to_string()), Ok(ExperienceKind::Learning)));
    assert!(matches!(ExperienceKind::new(&"social".to_string()), Ok(ExperienceKind::Social)));
    assert!(matches!(ExperienceKind::new(&"creative".to_string()), Ok(ExperienceKind::Creative)));
    assert!(matches!(ExperienceKind::new(&"stress".to_string()), Ok(ExperienceKind::Stress)));
    assert!(matches!(ExperienceKind::new(&"Social".to_string()), Err(LoreError::Validation(_))));
}

fn bump(mut c: CognitiveState<f64>, kind: ExperienceKind, points: u64) -> CognitiveState<f64> {
    let adj = (points as f64 / 100.0).min(0.1);
    match kind {
        ExperienceKind::Learning => c.memory_capacity = (c.memory_capacity + adj).clamp(0.0, 1.0),
        ExperienceKind::Social => c.social_awareness = (c.social_awareness + adj).clamp(0.0, 1.0),
        _ => {}
    }
    c
}

#[test]
fn level_up_at_thousand_crossings() {
    let mut a = agent("a", vec![0.1]);
    let learning = "learning".to_string();
    assert!(!a.gain_experience(999, &learning, &bump).unwrap());
    assert!(a.gain_experience(1, &learning, &bump).unwrap());
    assert_eq!(a.get_experience(), 1000);
    assert!(!a.gain_experience(999, &learning, &bump).unwrap());
    assert!(a.gain_experience(1, &learning, &bump).unwrap());
    assert_eq!(a.get_experience(), 2000);
    assert!(!a.gain_experience(0, &learning, &bump).unwrap());
    assert_eq!(a.get_age(), 5);
    assert!((a.get_cognitive_state().memory_capacity - 0.72).abs() < 1e-9);
}

#[test]
fn unknown_experience_kind_changes_nothing() {
    let mut a = agent("a", vec![0.1]);
    let r = a.gain_experience(1000, &"dreaming".to_string(), &bump);
    assert!(matches!(r, Err(LoreError::Validation(_))));
    assert_eq!(a.get_experience(), 0);
    assert_eq!(a.get_age(), 0);
    assert_eq!(a.get_cognitive_state().memory_capacity, 0.5);
}

#[test]
fn social_connections_are_idempotent() {
    let mut a = agent("a", vec![0.1]);
    a.add_social_connection("b".to_string());
    a.add_social_connection("c".to_string());
    a.add_social_connection("b".to_string());
    assert_eq!(a.get_social_network_size(), 2);
    assert_eq!(a.get_social_connections(), &vec!["b".to_string(), "c".to_string()]);
}

#[test]
fn memory_evicts_oldest_when_full() {
    let mut a = agent("a", vec![0.1]);
    a.store_memory("x".to_string(), 1.0, 2);
    a.store_memory("y".to_string(), 2.0, 2);
    assert_eq!(a.memory_size(), 2);
    a.store_memory("z".to_string(), 3.0, 2);
    assert_eq!(a.memory_size(), 2);
    assert_eq!(a.get_memory(&"x".to_string()), None);
    assert_eq!(a.get_memory(&"y".to_string()), Some(2.0));
    assert_eq!(a.get_memory(&"z".to_string()), Some(3.0));
    a.store_memory("z".to_string(), 4.0, 5);
    assert_eq!(a.get_memory(&"z".to_string()), Some(4.0));
    assert_eq!(a.memory_size(), 2);
}

#[test]
fn decision_inputs_join_situation_cognition_genes() {
    let a = agent("a", vec![0.1, 0.2, 0.3, 0.4, 0.5]);
    let v = a.decision_inputs(&vec![9.0]);
    assert_eq!(v, vec![9.0, 0.5, 0.5, 0.5, 0.5, 0.5, 0.5, 0.1, 0.2, 0.3, 0.4]);
    let b = agent("b", vec![0.7]);
    assert_eq!(b.decision_inputs(&vec![]).len(), 7);
}

#[test]
fn decision_falls_back_to_rules_without_network() {
    let a = agent("a", vec![0.1]);
    let d = a.make_decision(&vec![0.2, 0.4], &neuron, &rules).unwrap();
    assert_eq!(d, vec![0.8, 0.0, 0.5]);
}

#[test]
fn decision_uses_attached_network() {
    let mut a = agent("a", vec![0.1, 0.2, 0.3, 0.4]);
    let layer = NeuralLayer::new(12, 2, ActivationType::ReLU, vec![vec![1.0; 12]; 2], vec![0.0; 2]).unwrap();
    a.set_decision_network(NeuralNetwork::new(vec![layer]).unwrap());
    let d = a.make_decision(&vec![1.0, 1.0], &neuron, &rules).unwrap();
    assert_eq!(d.len(), 2);
    assert!((d[0] - 6.0).abs() < 1e-9);
    let r = a.make_decision(&vec![1.0], &neuron, &rules);
    assert!(matches!(r, Err(LoreError::DimensionMismatch(_))));
}

#[test]
fn interactions_log_every_trial() {
    let mut s = AgentSociety::new();
    s.add_agent(agent("a", vec![0.1]));
    s.add_agent(agent("b", vec![0.2]));
    let strong = |_: &CognitiveState<f64>, _: &CognitiveState<f64>| (0.9, true);
    let created = s.simulate_interactions(25, &strong, &bump);
    assert_eq!(created, 25);
    assert_eq!(s.interaction_count(), 25);
    for (x, y, _) in s.get_interactions() {
        assert_ne!(x, y);
    }
    assert_eq!(s.get_agents()[0].get_social_network_size(), 1);
    assert_eq!(s.get_agents()[0].get_experience() + s.get_agents()[1].get_experience(), 500);
    assert_eq!(s.get_agents()[0].get_age() + s.get_agents()[1].get_age(), 50);
    assert!(s.get_agents()[0].get_cognitive_state().social_awareness > 0.5);
    let weak = |_: &CognitiveState<f64>, _: &CognitiveState<f64>| (0.1, false);
    assert_eq!(s.simulate_interactions(10, &weak, &bump), 0);
    assert_eq!(s.interaction_count(), 35);
    assert_eq!(s.total_connections(), 2);
    assert_eq!(s.total_experience(), 500);
}

#[test]
fn interactions_need_two_agents() {
    let mut s = AgentSociety::new();
    let strong = |_: &CognitiveState<f64>, _: &CognitiveState<f64>| (0.9, true);
    assert_eq!(s.simulate_interactions(5, &strong, &bump), 0);
    s.add_agent(agent("a", vec![0.1]));
    assert_eq!(s.simulate_interactions(5, &strong, &bump), 0);
    assert_eq!(s.interaction_count(), 0);
}

#[test]
fn collective_decisions_per_agent() {
    let mut s = AgentSociety::new();
    s.add_agent(agent("a", vec![0.1]));
    s.add_agent(agent("b", vec![0.2]));
    let ds = s.collective_decisions(&vec![0.2, 0.4], &neuron, &rules).unwrap();
    assert_eq!(ds, vec![vec![0.8, 0.0, 0.5], vec![0.8, 0.0, 0.5]]);
    let empty: AgentSociety<f64> = AgentSociety::new();
    assert_eq!(empty.collective_decisions(&vec![1.0], &neuron, &rules).unwrap().len(), 0);
}

#[test]
fn interact_rewards_only_a_strong_pair() {
    let mut s = AgentSociety::new();
    s.add_agent(agent("a", vec![0.1]));
    s.add_agent(agent("b", vec![0.2]));
    s.add_agent(agent("c", vec![0.3]));
    let strong = |_: &CognitiveState<f64>, _: &CognitiveState<f64>| (0.75, true);
    assert!(s.interact(0, 2, &strong, &bump));
    let agents = s.get_agents();
    assert_eq!(agents[0].get_social_connections(), &vec!["c".to_string()]);
    assert_eq!(agents[2].get_social_connections(), &vec!["a".to_string()]);
    assert_eq!(agents[0].get_experience(), 10);
    assert_eq!(agents[2].get_age(), 1);
    assert_eq!(agents[1].get_experience(), 0);
    assert_eq!(agents[1].get_social_network_size(), 0);
    assert_eq!(s.get_interactions(), &vec![("a".to_string(), "c".to_string(), 0.75)]);
    let weak = |_: &CognitiveState<f64>, _: &CognitiveState<f64>| (0.25, false);
    assert!(!s.interact(1, 0, &weak, &bump));
    assert_eq!(s.get_agents()[1].get_experience(), 0);
    assert_eq!(s.get_agents()[0].get_experience(), 10);
    assert_eq!(s.interaction_count(), 2);
}

#[test]
fn single_agent_society_is_left_alone() {
    let mut s = AgentSociety::new();
    s.add_agent(agent("a", vec![0.1]));
    let strong = |_: &CognitiveState<f64>, _: &CognitiveState<f64>| (0.9, true);
    assert_eq!(s.simulate_interactions(7, &strong, &bump), 0);
    assert_eq!(s.get_agents()[0].get_experience(), 0);
    assert_eq!(s.get_agents()[0].get_social_network_size(), 0);
    assert_eq!(s.interaction_count(), 0);
}

#[test]
fn collective_decisions_reject_unequal_lengths() {
    let mut s = AgentSociety::new();
    s.add_agent(agent("a", vec![0.1]));
    let mut b = agent("b", vec![0.1, 0.2, 0.3, 0.4]);
    let layer = NeuralLayer::new(12, 2, ActivationType::ReLU, vec![vec![1.0; 12]; 2], vec![0.0; 2]).unwrap();
    b.set_decision_network(NeuralNetwork::new(vec![layer]).unwrap());
    s.add_agent(b);
    let r = s.collective_decisions(&vec![0.2, 0.4], &neuron, &rules);
    assert!(matches!(r, Err(LoreError::DimensionMismatch(_))));
}
