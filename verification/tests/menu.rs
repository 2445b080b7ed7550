use mde::menu::{jump, step, Act, Node};

fn leaf(s: &str) -> Node {
    Node::Leaf(s.into(), Act::Help)
}

#[test]
fn accelerator_jump_finds_next_match_wrapping() {
    let nodes = vec![leaf("Apple"), Node::Sep, leaf("Banana"), leaf("Avocado")];
    assert_eq!(jump(&nodes, None, 'a'), Some(0));
    assert_eq!(jump(&nodes, Some(0), 'a'), Some(3));
    assert_eq!(jump(&nodes, Some(3), 'a'), Some(0));
    assert_eq!(jump(&nodes, None, 'b'), Some(2));
    assert_eq!(jump(&nodes, None, 'z'), None);
}

#[test]
fn step_skips_separators_and_wraps() {
    let nodes = vec![leaf("A"), Node::Sep, leaf("B")];
    assert_eq!(step(&nodes, None, 1), Some(0));
    assert_eq!(step(&nodes, Some(0), 1), Some(2));
    assert_eq!(step(&nodes, Some(2), 1), Some(0));
    assert_eq!(step(&nodes, Some(0), -1), Some(2));
}

#[test]
fn step_in_a_separator_only_menu_goes_nowhere() {
    let nodes = vec![Node::Sep, Node::Sep];
    assert_eq!(step(&nodes, None, 1), None);
    assert_eq!(step(&Vec::new(), None, 1), None);
}

#[test]
fn step_up_from_nothing_lands_on_the_last_entry() {
    let nodes = vec![leaf("A"), leaf("B"), Node::Sep];
    assert_eq!(step(&nodes, None, -1), Some(1));
}
