use lore_engine::error::LoreError;
use lore_engine::genetic::{
    check_gene_count, create_population, crossover_genes, crossover_pair, mutate_dna,
    mutate_selected, parallel_crossover, AgentDNA, EvolutionEngine,
};

#[test]
fn gene_count_bounds() {
    assert!(matches!(check_gene_count(0), Err(LoreError::Validation(_))));
    assert!(matches!(check_gene_count(10001), Err(LoreError::Validation(_))));
    assert!(check_gene_count(1).is_ok());
    assert!(check_gene_count(10000).is_ok());
}

#[test]
fn new_dna_is_fresh() {
    let d = AgentDNA::new(vec![0.1, 0.2]);
    assert_eq!(d.id.len(), 36);
    assert_eq!(d.gene_count(), 2);
    assert!(!d.has_fitness());
    assert_eq!(d.get_fitness_opt(), None);
    assert_eq!(d.generation, 0);
    assert!(d.parent_ids.is_empty());
    assert_eq!(d.mutations, 0);
    assert!(d.metadata.is_empty());
}

#[test]
fn fitness_can_be_set() {
    let mut d = AgentDNA::new(vec![0.1]);
    d.set_fitness(0.75);
    assert!(d.has_fitness());
    assert_eq!(d.get_fitness_opt(), Some(0.75));
}

#[test]
fn clone_with_new_id_changes_only_id() {
    let mut d = AgentDNA::new(vec![0.1, -0.4, 0.9]);
    d.generation = 3;
    d.mutations = 2;
    d.parent_ids = vec!["a".to_string()];
    let c = d.clone_with_new_id();
    assert_ne!(c.id, d.id);
    assert_eq!(c.id.len(), 36);
    assert_eq!(c.genes, d.genes);
    assert_eq!(c.generation, 3);
    assert_eq!(c.mutations, 2);
    assert_eq!(c.parent_ids, vec!["a".to_string()]);
}

#[test]
fn population_has_requested_shape() {
    let pop = create_population(5, 3, &|| 0.25f64).unwrap();
    assert_eq!(pop.len(), 5);
    for d in &pop {
        assert_eq!(d.genes, vec![0.25; 3]);
        assert!(d.fitness.is_none());
    }
    assert!(matches!(create_population(5, 0, &|| 0.0f64), Err(LoreError::Validation(_))));
    assert_eq!(create_population(0, 3, &|| 0.0f64).unwrap().len(), 0);
}

#[test]
fn crossover_genes_follow_picks() {
    let g1 = vec![1.0, 2.0, 3.0];
    let g2 = vec![-1.0, -2.0, -3.0];
    assert_eq!(crossover_genes(&g1, &g2, &vec![true, false, true]), vec![1.0, -2.0, 3.0]);
    assert_eq!(crossover_genes(&g1, &g2, &vec![false, false, false]), g2);
    assert_eq!(crossover_genes(&g1, &vec![9.0], &vec![false, true, true]), vec![9.0]);
}

#[test]
fn triggered_crossover_takes_genes_from_parents() {
    let p1 = AgentDNA::new(vec![1.0; 50]);
    let p2 = AgentDNA::new(vec![2.0; 50]);
    let child = crossover_pair(&p1, &p2, true);
    assert_eq!(child.genes.len(), 50);
    assert!(child.genes.iter().all(|g| *g == 1.0 || *g == 2.0));
    assert_eq!(child.parent_ids, vec![p1.id.clone(), p2.id.clone()]);
}

#[test]
fn untriggered_crossover_copies_first_parent() {
    let p1 = AgentDNA::new(vec![0.5, -0.5]);
    let p2 = AgentDNA::new(vec![2.0, 2.0]);
    let child = crossover_pair(&p1, &p2, false);
    assert_eq!(child.genes, p1.genes);
    assert_ne!(child.id, p1.id);
    assert!(child.parent_ids.is_empty());
}

#[test]
fn crossover_of_five_pairs_records_parents() {
    let parents1 = create_population(5, 3, &|| 0.1f64).unwrap();
    let parents2 = create_population(5, 3, &|| 0.9f64).unwrap();
    let children = parallel_crossover(&parents1, &parents2, &vec![true; 5]).unwrap();
    assert_eq!(children.len(), 5);
    for (i, c) in children.iter().enumerate() {
        assert_eq!(c.parent_ids.len(), 2);
        assert_eq!(c.parent_ids[0], parents1[i].id);
        assert_eq!(c.parent_ids[1], parents2[i].id);
        assert_eq!(c.genes.len(), 3);
    }
}

#[test]
fn crossover_rejects_unequal_parent_lists() {
    let parents1 = create_population(2, 3, &|| 0.1f64).unwrap();
    let parents2 = create_population(3, 3, &|| 0.9f64).unwrap();
    let r = parallel_crossover(&parents1, &parents2, &vec![true; 2]);
    assert!(matches!(r, Err(LoreError::Validation(_))));
    let r = parallel_crossover(&parents1, &parents1, &vec![true; 3]);
    assert!(matches!(r, Err(LoreError::Validation(_))));
}

#[test]
fn evolution_engine_keeps_population_size() {
    assert_eq!(EvolutionEngine::new(42).get_population_size(), 42);
}

#[test]
fn mutate_dna_maps_genes_and_counts_once() {
    let mut d = AgentDNA::new(vec![1.5, -1.9, 0.0]);
    let clamp_shift = |g: f64| (g + 0.3).clamp(-2.0, 2.0);
    mutate_dna(&mut d, &clamp_shift);
    assert_eq!(d.mutations, 1);
    assert_eq!(d.genes.len(), 3);
    assert!((d.genes[0] - 1.8).abs() < 1e-9);
    assert!((d.genes[1] + 1.6).abs() < 1e-9);
    mutate_dna(&mut d, &clamp_shift);
    assert_eq!(d.genes[0], 2.0);
    assert_eq!(d.mutations, 2);
}

#[test]
fn mutate_selected_leaves_others() {
    let pop = create_population(3, 2, &|| 4.9f64).unwrap();
    let ids: Vec<String> = pop.iter().map(|d| d.id.clone()).collect();
    let out = mutate_selected(pop, &vec![true, false, true], &|g: f64| (g + 1.0).clamp(-5.0, 5.0)).unwrap();
    assert_eq!(out.len(), 3);
    assert_eq!(out[0].genes, vec![5.0, 5.0]);
    assert_eq!(out[0].mutations, 1);
    assert_eq!(out[1].genes, vec![4.9, 4.9]);
    assert_eq!(out[1].mutations, 0);
    assert_eq!(out[2].mutations, 1);
    assert_eq!(out[1].id, ids[1]);
    let pop = create_population(3, 2, &|| 0.0f64).unwrap();
    assert!(matches!(mutate_selected(pop, &vec![true], &|g: f64| g), Err(LoreError::Validation(_))));
}
