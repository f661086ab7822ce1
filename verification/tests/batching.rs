use rust_sc2::command::{collect_actions, Action, Commander, Target};
use rust_sc2::geom::Point;

#[test]
fn identical_orders_batch_as_one_action() {
    let mut c = Commander::new();
    let target = Target::Pos(Point::new(5000, 6000));
    c.command(10, 42, target, false);
    c.command(11, 42, target, false);
    c.command(12, 42, target, false);
    assert_eq!(c.commands.len(), 1);
    let actions = collect_actions(&Vec::new(), &c);
    assert_eq!(actions.len(), 1);
    match &actions[0] {
        Action::UnitCommand(ability, Target::Pos(p), tags, queue) => {
            assert_eq!(*ability, 42);
            assert_eq!(p.x, 5000);
            assert_eq!(p.y, 6000);
            assert_eq!(tags.as_slice(), &[10, 11, 12]);
            assert!(!queue);
        },
        other => panic!("unexpected action {:?}", other),
    }
}

#[test]
fn differing_orders_batch_separately() {
    let mut c = Commander::new();
    c.command(10, 42, Target::NoTarget, false);
    c.command(11, 42, Target::NoTarget, true);
    c.command(12, 42, Target::NoTarget, false);
    assert_eq!(c.commands.len(), 2);
    let actions = collect_actions(&Vec::new(), &c);
    assert_eq!(actions.len(), 2);
    match (&actions[0], &actions[1]) {
        (
            Action::UnitCommand(_, _, tags0, false),
            Action::UnitCommand(_, _, tags1, true),
        ) => {
            assert_eq!(tags0.as_slice(), &[10, 12]);
            assert_eq!(tags1.as_slice(), &[11]);
        },
        other => panic!("unexpected actions {:?}", other),
    }
}

#[test]
fn plain_actions_precede_batched_orders() {
    let mut c = Commander::new();
    c.command(7, 1, Target::Tag(99), false);
    let base = vec![Action::Chat(String::from("glhf"), false)];
    let actions = collect_actions(&base, &c);
    assert_eq!(actions.len(), 2);
    assert!(matches!(&actions[0], Action::Chat(m, false) if m == "glhf"));
    assert!(matches!(&actions[1], Action::UnitCommand(1, Target::Tag(99), _, false)));
}

#[test]
fn clear_empties_the_batch() {
    let mut c = Commander::new();
    c.command(1, 2, Target::NoTarget, false);
    assert!(!c.is_empty());
    c.clear();
    assert!(c.is_empty());
    assert_eq!(collect_actions(&Vec::new(), &c).len(), 0);
}
