use cell_sim::brain::StateLayout;

#[test]
fn layout_needs_room_for_eyes_and_flagella() {
    assert!(StateLayout::new(3, 3, 5).is_none());
    assert!(StateLayout::new(6, 0, 5).is_none());
    assert!(StateLayout::new(0, 6, 5).is_none());
    assert!(StateLayout::new(usize::MAX, usize::MAX, usize::MAX).is_none());
    assert!(StateLayout::new(3, 3, 6).is_some());
    assert!(StateLayout::new(0, 0, 0).is_some());
}

#[test]
fn slices_follow_one_another() {
    let layout = StateLayout::new(3, 3, 100).unwrap();
    assert_eq!(layout.eye_range(), (0, 3));
    assert_eq!(layout.hidden_range(), (3, 97));
    assert_eq!(layout.flagellum_range(), (97, 100));
}

#[test]
fn brainless_cell_has_empty_slices() {
    let layout = StateLayout::new(0, 0, 0).unwrap();
    assert_eq!(layout.eye_range(), (0, 0));
    assert_eq!(layout.hidden_range(), (0, 0));
    assert_eq!(layout.flagellum_range(), (0, 0));
    assert_eq!(layout.flagellum_neuron(0), None);
}

#[test]
fn vector_without_hidden_neurons() {
    let layout = StateLayout::new(2, 3, 5).unwrap();
    assert_eq!(layout.eye_range(), (0, 2));
    assert_eq!(layout.hidden_range(), (2, 2));
    assert_eq!(layout.flagellum_range(), (2, 5));
}

#[test]
fn flagella_read_the_trailing_neurons_in_order() {
    let layout = StateLayout::new(3, 3, 100).unwrap();
    assert_eq!(layout.flagellum_neuron(0), Some(97));
    assert_eq!(layout.flagellum_neuron(1), Some(98));
    assert_eq!(layout.flagellum_neuron(2), Some(99));
    assert_eq!(layout.flagellum_neuron(3), None);
}

#[test]
fn brain_shape_must_equal_the_neuron_count() {
    let layout = StateLayout::new(3, 3, 100).unwrap();
    assert!(layout.matches_brain(100, 100, 100, 100));
    assert!(!layout.matches_brain(99, 100, 100, 100));
    assert!(!layout.matches_brain(100, 101, 100, 100));
    assert!(!layout.matches_brain(100, 100, 0, 100));
    assert!(!layout.matches_brain(100, 100, 100, 99));
    assert!(StateLayout::new(0, 0, 0).unwrap().matches_brain(0, 0, 0, 0));
}
