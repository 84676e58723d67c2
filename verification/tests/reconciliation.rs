use label_grid::grid::body_placements;
use label_grid::mode::{change_text_display_mode, TextDisplayMode, TextMode};
use label_grid::reconcile::{despawn_text, label_for, spawn_text, Body, LabelSpawn};
use std::collections::HashSet;

/// A scene for the tests: the bodies, the text entities, and the next unused id.
struct TestScene {
    bodies: Vec<Body>,
    texts: Vec<u64>,
    next_id: u64,
    last_mode: TextMode,
}

fn scene_of(bodies: usize) -> TestScene {
    TestScene {
        bodies: (0..bodies as u64).map(|entity| Body { entity, children: None }).collect(),
        texts: Vec::new(),
        next_id: 1_000_000,
        last_mode: TextMode::default(),
    }
}

/// Runs one round for `mode` and carries out what the library asks for. Returns how
/// many entities were removed and how many labels were created.
fn round(scene: &mut TestScene, mode: TextMode) -> (usize, usize) {
    let display_mode = TextDisplayMode(mode);
    let doomed = despawn_text(&display_mode, &scene.texts, &mut scene.last_mode);
    for entity in &doomed {
        scene.texts.retain(|text| text != entity);
        for body in &mut scene.bodies {
            if let Some(children) = &mut body.children {
                children.retain(|child| child != entity);
                if children.is_empty() {
                    body.children = None;
                }
            }
        }
    }
    let text_set: HashSet<u64> = scene.texts.iter().copied().collect();
    let spawns = spawn_text(&display_mode, &scene.bodies, &text_set);
    for spawn in &spawns {
        assert_eq!(Some(spawn.label.clone()), label_for(mode));
        let id = scene.next_id;
        scene.next_id += 1;
        scene.texts.push(id);
        let body = scene.bodies.iter_mut().find(|body| body.entity == spawn.parent).unwrap();
        body.children.get_or_insert_with(Vec::new).push(id);
    }
    (doomed.len(), spawns.len())
}

fn labels_of(scene: &TestScene, body: &Body) -> usize {
    match &body.children {
        Some(children) => children.iter().filter(|child| scene.texts.contains(child)).count(),
        None => 0,
    }
}

#[test]
fn despawn_text_removes_all_texts_when_the_mode_changed() {
    let mut last_mode = TextMode::Text2dWithSpan;
    let doomed = despawn_text(&TextDisplayMode(TextMode::Text2d), &vec![5, 3, 9], &mut last_mode);
    assert_eq!(doomed, vec![5, 3, 9]);
    assert_eq!(last_mode, TextMode::Text2d);
}

#[test]
fn despawn_text_removes_nothing_when_the_mode_stayed() {
    let mut last_mode = TextMode::Hidden;
    let doomed = despawn_text(&TextDisplayMode(TextMode::Hidden), &vec![5, 3, 9], &mut last_mode);
    assert_eq!(doomed, Vec::<u64>::new());
    assert_eq!(last_mode, TextMode::Hidden);
}

#[test]
fn despawn_text_of_no_texts_still_records_the_mode() {
    let mut last_mode = TextMode::Hidden;
    let doomed = despawn_text(&TextDisplayMode(TextMode::NoText), &vec![], &mut last_mode);
    assert_eq!(doomed, Vec::<u64>::new());
    assert_eq!(last_mode, TextMode::NoText);
}

#[test]
fn body_has_label_looks_for_a_text_among_the_children() {
    let texts: HashSet<u64> = [10, 11].into_iter().collect();
    assert!(!Body { entity: 1, children: None }.has_label(&texts));
    assert!(!Body { entity: 1, children: Some(vec![]) }.has_label(&texts));
    assert!(!Body { entity: 1, children: Some(vec![7, 8]) }.has_label(&texts));
    assert!(Body { entity: 1, children: Some(vec![10]) }.has_label(&texts));
    assert!(Body { entity: 1, children: Some(vec![7, 8, 11]) }.has_label(&texts));
    assert!(!Body { entity: 10, children: Some(vec![1]) }.has_label(&texts));
}

#[test]
fn spawn_text_gives_a_label_to_each_body_without_one() {
    let bodies = vec![
        Body { entity: 1, children: None },
        Body { entity: 2, children: Some(vec![20]) },
        Body { entity: 3, children: Some(vec![30]) },
        Body { entity: 4, children: Some(vec![]) },
        Body { entity: 5, children: Some(vec![50, 51]) },
    ];
    let texts: HashSet<u64> = [20, 51].into_iter().collect();
    let spawns = spawn_text(&TextDisplayMode(TextMode::Text2d), &bodies, &texts);
    let label = label_for(TextMode::Text2d).unwrap();
    assert_eq!(
        spawns,
        vec![
            LabelSpawn { parent: 1, label: label.clone() },
            LabelSpawn { parent: 3, label: label.clone() },
            LabelSpawn { parent: 4, label: label.clone() },
        ]
    );
}

#[test]
fn spawn_text_uses_the_label_of_the_mode() {
    let bodies = vec![Body { entity: 1, children: None }];
    let texts = HashSet::new();
    for mode in [TextMode::Text2dWithSpan, TextMode::Text2d, TextMode::Hidden] {
        let spawns = spawn_text(&TextDisplayMode(mode), &bodies, &texts);
        assert_eq!(spawns, vec![LabelSpawn { parent: 1, label: label_for(mode).unwrap() }]);
    }
}

#[test]
fn spawn_text_creates_nothing_in_no_text_mode() {
    let bodies = vec![Body { entity: 1, children: None }, Body { entity: 2, children: None }];
    let texts = HashSet::new();
    assert_eq!(spawn_text(&TextDisplayMode(TextMode::NoText), &bodies, &texts), vec![]);
}

#[test]
fn spawn_text_of_no_bodies_creates_nothing() {
    let texts: HashSet<u64> = [1].into_iter().collect();
    assert_eq!(spawn_text(&TextDisplayMode(TextMode::Text2d), &vec![], &texts), vec![]);
}

#[test]
fn the_first_round_labels_every_body() {
    let mut scene = scene_of(12);
    assert_eq!(round(&mut scene, TextMode::default()), (0, 12));
    assert_eq!(scene.texts.len(), 12);
    for body in &scene.bodies {
        assert_eq!(labels_of(&scene, body), 1);
    }
}

#[test]
fn a_settled_scene_stays_as_it_is() {
    for mode in [TextMode::Text2dWithSpan, TextMode::Text2d, TextMode::Hidden, TextMode::NoText] {
        let mut scene = scene_of(7);
        round(&mut scene, mode);
        let bodies = scene.bodies.clone();
        let texts = scene.texts.clone();
        assert_eq!(round(&mut scene, mode), (0, 0));
        assert_eq!(round(&mut scene, mode), (0, 0));
        assert_eq!(scene.bodies, bodies);
        assert_eq!(scene.texts, texts);
    }
}

#[test]
fn a_round_leaves_as_many_labels_as_bodies_or_none() {
    let cells = body_placements().len();
    let mut scene = scene_of(cells);
    let mut display_mode = TextDisplayMode::default();
    for _ in 0..9 {
        round(&mut scene, display_mode.0);
        let expected = if display_mode.0 == TextMode::NoText { 0 } else { cells };
        assert_eq!(scene.texts.len(), expected);
        let labels: usize = scene.bodies.iter().map(|body| labels_of(&scene, body)).sum();
        assert_eq!(labels, expected);
        assert!(scene.bodies.iter().all(|body| labels_of(&scene, body) <= 1));
        change_text_display_mode(true, &mut display_mode);
    }
}

#[test]
fn a_mode_change_replaces_every_label() {
    let mut scene = scene_of(5);
    round(&mut scene, TextMode::Text2dWithSpan);
    let old_texts = scene.texts.clone();
    assert_eq!(round(&mut scene, TextMode::Hidden), (5, 5));
    assert_eq!(scene.texts.len(), 5);
    for text in &scene.texts {
        assert!(!old_texts.contains(text));
    }
    assert_eq!(round(&mut scene, TextMode::NoText), (5, 0));
    assert!(scene.texts.is_empty());
    assert!(scene.bodies.iter().all(|body| body.children.is_none()));
    assert_eq!(round(&mut scene, TextMode::Text2d), (0, 5));
}

#[test]
fn a_body_that_lost_its_label_gets_a_new_one() {
    let mut scene = scene_of(4);
    round(&mut scene, TextMode::Text2d);
    let lost = scene.bodies[2].children.take().unwrap()[0];
    scene.texts.retain(|text| *text != lost);
    assert_eq!(round(&mut scene, TextMode::Text2d), (0, 1));
    assert_eq!(scene.texts.len(), 4);
    for body in &scene.bodies {
        assert_eq!(labels_of(&scene, body), 1);
    }
}
