use autofilm::card_layout::{layers_for_count, LayerSide};

#[test]
fn card_layers_fall_back_to_odd_counts() {
    for (available, expected) in [
        (1, 1),
        (2, 1),
        (3, 3),
        (4, 3),
        (5, 5),
        (6, 5),
        (7, 7),
        (10, 7),
    ] {
        let layers = layers_for_count(available);

        assert_eq!(layers.len(), expected);
        assert!(layers.iter().all(|layer| layer.image_index < available));
    }
}

#[test]
fn card_layers_are_drawn_outside_in_with_center_last() {
    let layers = layers_for_count(7);
    let order: Vec<(usize, usize, LayerSide)> = layers
        .iter()
        .map(|l| (l.image_index, l.distance, l.side))
        .collect();
    assert_eq!(
        order,
        vec![
            (5, 3, LayerSide::Left),
            (6, 3, LayerSide::Right),
            (3, 2, LayerSide::Left),
            (4, 2, LayerSide::Right),
            (1, 1, LayerSide::Left),
            (2, 1, LayerSide::Right),
            (0, 0, LayerSide::Center),
        ]
    );
    let mut indices: Vec<usize> = layers.iter().map(|l| l.image_index).collect();
    indices.sort();
    indices.dedup();
    assert_eq!(indices.len(), 7);
}
