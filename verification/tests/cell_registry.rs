use std::cell::Cell;
use std::rc::Rc;

use sustain_ui::cell_registry::{BindingRegistry, CellBinding, MIN_SWEEP_LEN};

struct FakeBinding {
    key: usize,
    live: Rc<Cell<bool>>,
}

impl FakeBinding {
    fn new(key: usize, live: &Rc<Cell<bool>>) -> Self {
        Self {
            key,
            live: Rc::clone(live),
        }
    }
}

impl CellBinding for FakeBinding {
    fn slot(&self) -> usize {
        self.key
    }

    fn key(&self) -> usize {
        self.key
    }

    fn is_live(&self) -> bool {
        self.live.get()
    }
}

#[test]
fn walks_prune_dead_bindings_and_visit_survivors() {
    let mut registry = BindingRegistry::default();
    let live = Rc::new(Cell::new(true));
    let dead = Rc::new(Cell::new(false));
    registry.push(FakeBinding::new(1, &live));
    registry.push(FakeBinding::new(2, &dead));
    registry.push(FakeBinding::new(3, &live));

    let mut visited = Vec::new();
    registry.for_each_live(|binding| visited.push(binding.key()));
    assert_eq!(visited, vec![1, 3]);
    assert_eq!(registry.len(), 2);
}

#[test]
fn replace_drops_the_previous_binding_for_the_same_slot() {
    let mut registry = BindingRegistry::default();
    let live = Rc::new(Cell::new(true));
    registry.push(FakeBinding::new(1, &live));
    registry.replace(FakeBinding::new(1, &live));
    registry.replace(FakeBinding::new(2, &live));

    let mut visited = Vec::new();
    registry.for_each_live(|binding| visited.push(binding.key()));
    assert_eq!(visited, vec![1, 2]);
}

#[test]
fn find_map_live_returns_the_first_hit() {
    let mut registry = BindingRegistry::default();
    let live = Rc::new(Cell::new(true));
    registry.push(FakeBinding::new(1, &live));
    registry.push(FakeBinding::new(2, &live));

    let hit = registry.find_map_live(|binding| (binding.key() == 2).then_some("hit"));
    assert_eq!(hit, Some("hit"));
    let miss = registry.find_map_live(|binding| (binding.key() == 9).then_some("hit"));
    assert_eq!(miss, None);
}

#[test]
fn pushes_sweep_dead_bindings_at_the_watermark() {
    let mut registry = BindingRegistry::default();
    let live = Rc::new(Cell::new(true));
    let dead = Rc::new(Cell::new(false));

    registry.push(FakeBinding::new(0, &live));
    for key in 1..=10 * MIN_SWEEP_LEN {
        registry.push(FakeBinding::new(key, &dead));
    }

    let len = registry.len();
    assert!(
        len <= 2 * MIN_SWEEP_LEN,
        "registry holds {len} bindings after the sweeps"
    );

    let mut visited = Vec::new();
    registry.for_each_live(|binding| visited.push(binding.key()));
    assert_eq!(visited, vec![0], "the live binding survives every sweep");
}

#[test]
fn a_sweep_leaves_the_living_in_their_order() {
    let mut registry = BindingRegistry::default();
    let live = Rc::new(Cell::new(true));
    let dying = Rc::new(Cell::new(true));
    for key in 0..6 {
        let binding = if key % 2 == 0 { &live } else { &dying };
        registry.push(FakeBinding::new(key, binding));
    }
    dying.set(false);

    registry.sweep();

    let mut visited = Vec::new();
    registry.for_each_live(|binding| visited.push(binding.key()));
    assert_eq!(visited, vec![0, 2, 4]);
}

#[test]
fn a_walk_for_a_hit_stops_at_the_first_one() {
    let mut registry = BindingRegistry::default();
    let live = Rc::new(Cell::new(true));
    for key in 1..4 {
        registry.push(FakeBinding::new(key, &live));
    }

    let mut asked = Vec::new();
    let hit = registry.find_map_live(|binding| {
        asked.push(binding.key());
        if binding.key() >= 2 {
            Some(binding.key())
        } else {
            None
        }
    });
    assert_eq!(hit, Some(2));
    assert_eq!(asked, vec![1, 2]);
}

#[test]
fn the_survivors_are_handed_out_in_order() {
    let mut registry = BindingRegistry::default();
    let live = Rc::new(Cell::new(true));
    let dead = Rc::new(Cell::new(false));
    registry.push(FakeBinding::new(1, &live));
    registry.push(FakeBinding::new(2, &dead));
    registry.push(FakeBinding::new(3, &live));

    let keys: Vec<usize> = registry
        .survivors()
        .iter()
        .map(|binding| binding.key())
        .collect();
    assert_eq!(keys, vec![1, 3]);
    assert_eq!(registry.len(), 2);
}

#[test]
fn no_dead_binding_is_asked_for_a_hit() {
    let mut registry = BindingRegistry::default();
    let live = Rc::new(Cell::new(true));
    let dead = Rc::new(Cell::new(false));
    registry.push(FakeBinding::new(1, &dead));
    registry.push(FakeBinding::new(2, &live));

    let hit = registry.find_map_live(|binding| Some(binding.key()));
    assert_eq!(hit, Some(2));
}
