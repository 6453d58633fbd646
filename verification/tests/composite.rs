use marked_commands::bundle::mark_all;
use marked_commands::MarkedBundle;

#[derive(Debug, PartialEq)]
struct Level(u32);

impl Default for Level {
    fn default() -> Self {
        Level(3)
    }
}

#[test]
fn new_pairs_the_payload_with_a_default_marker() {
    let composite = MarkedBundle::<&str, Level>::new("payload");
    assert_eq!(composite.bundle, "payload");
    assert_eq!(composite.marker, Level(3));
}

#[test]
fn new_with_a_unit_marker() {
    let composite = MarkedBundle::<(u8, u8), ()>::new((1, 2));
    assert_eq!(composite.bundle, (1, 2));
    assert_eq!(composite.marker, ());
}

#[test]
fn mark_all_keeps_length_and_order() {
    let composites = mark_all::<u32, Level>(vec![10, 20, 30]);
    assert_eq!(composites.len(), 3);
    assert_eq!(composites[0].bundle, 10);
    assert_eq!(composites[1].bundle, 20);
    assert_eq!(composites[2].bundle, 30);
    for composite in &composites {
        assert_eq!(composite.marker, Level(3));
    }
}

#[test]
fn mark_all_of_nothing_is_empty() {
    let composites = mark_all::<u32, Level>(Vec::new());
    assert!(composites.is_empty());
}
