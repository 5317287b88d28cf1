use jbotci::jvozba_pane::{
    add_vlacku_jvozba_rafsi, add_vlacku_jvozba_word, commit_vlacku_jvozba_drag,
    finish_vlacku_jvozba_drag, move_vlacku_jvozba_item, remove_vlacku_jvozba_item,
    set_vlacku_jvozba_drag_target, start_vlacku_jvozba_drag, VlackuJvozbaPaneState,
};
use jbotci::web_view::{VlackuJvozbaItemKind, VlackuJvozbaMode};

fn pane_of(words: &[&str]) -> VlackuJvozbaPaneState {
    let mut pane = VlackuJvozbaPaneState { open: false, mode: VlackuJvozbaMode::Lujvo, items: Vec::new() };
    for word in words {
        assert!(add_vlacku_jvozba_word(&mut pane, word));
    }
    pane.open = false;
    pane
}

fn values(pane: &VlackuJvozbaPaneState) -> Vec<String> {
    pane.items.iter().map(|item| item.value.clone()).collect()
}

#[test]
fn adding_pieces_opens_the_pane() {
    let mut pane = pane_of(&[]);
    assert!(!add_vlacku_jvozba_word(&mut pane, "   "));
    assert!(!pane.open);
    assert!(add_vlacku_jvozba_word(&mut pane, "  klama "));
    assert!(pane.open);
    assert!(add_vlacku_jvozba_rafsi(&mut pane, " lam ", Some(" klama ")));
    assert_eq!(values(&pane), vec!["klama", "lam"]);
    assert_eq!(pane.items[1].kind, VlackuJvozbaItemKind::FixedRafsi);
    assert_eq!(pane.items[1].source, Some("klama".to_owned()));
    assert!(add_vlacku_jvozba_rafsi(&mut pane, "kla", Some("  ")));
    assert_eq!(pane.items[2].source, Some(String::new()));
    assert!(!add_vlacku_jvozba_rafsi(&mut pane, "", None));
    assert_eq!(pane.items.len(), 3);
}

#[test]
fn moving_a_piece_exchanges_it_with_its_neighbour() {
    let mut pane = pane_of(&["a", "b", "c"]);
    assert!(move_vlacku_jvozba_item(&mut pane, 0, 1));
    assert_eq!(values(&pane), vec!["b", "a", "c"]);
    assert!(move_vlacku_jvozba_item(&mut pane, 1, -1));
    assert_eq!(values(&pane), vec!["a", "b", "c"]);
    assert!(move_vlacku_jvozba_item(&mut pane, 2, -2));
    assert_eq!(values(&pane), vec!["c", "b", "a"]);
    assert!(!move_vlacku_jvozba_item(&mut pane, 0, -1));
    assert!(!move_vlacku_jvozba_item(&mut pane, 2, 1));
    assert!(!move_vlacku_jvozba_item(&mut pane, 5, -4));
    assert!(!move_vlacku_jvozba_item(&mut pane, usize::MAX, isize::MAX));
    assert_eq!(values(&pane), vec!["c", "b", "a"]);
}

#[test]
fn removing_a_piece() {
    let mut pane = pane_of(&["a", "b", "c"]);
    assert!(remove_vlacku_jvozba_item(&mut pane, 1));
    assert_eq!(values(&pane), vec!["a", "c"]);
    assert!(!remove_vlacku_jvozba_item(&mut pane, 2));
    assert_eq!(values(&pane), vec!["a", "c"]);
}

#[test]
fn dragging_moves_a_piece_to_its_target() {
    let mut pane = pane_of(&["a", "b", "c", "d"]);
    let mut drag = Some(start_vlacku_jvozba_drag(0, Some(0)));
    assert_eq!(drag.unwrap().item_height, 32);
    set_vlacku_jvozba_drag_target(&mut drag, 2);
    assert!(finish_vlacku_jvozba_drag(&mut pane, &mut drag));
    assert_eq!(drag, None);
    assert_eq!(values(&pane), vec!["b", "c", "a", "d"]);
    let mut back = Some(start_vlacku_jvozba_drag(2, Some(40)));
    assert_eq!(back.unwrap().item_height, 40);
    set_vlacku_jvozba_drag_target(&mut back, 0);
    assert!(commit_vlacku_jvozba_drag(&mut pane, &mut back));
    assert_eq!(values(&pane), vec!["a", "b", "c", "d"]);
}

#[test]
fn a_drag_that_ends_where_it_started_changes_nothing() {
    let mut pane = pane_of(&["a", "b"]);
    let mut drag = Some(start_vlacku_jvozba_drag(1, None));
    assert!(!finish_vlacku_jvozba_drag(&mut pane, &mut drag));
    assert_eq!(drag, None);
    assert_eq!(values(&pane), vec!["a", "b"]);
    let mut outside = Some(start_vlacku_jvozba_drag(0, None));
    set_vlacku_jvozba_drag_target(&mut outside, 7);
    assert!(!finish_vlacku_jvozba_drag(&mut pane, &mut outside));
    assert_eq!(outside, None);
    let mut none = None;
    set_vlacku_jvozba_drag_target(&mut none, 1);
    assert_eq!(none, None);
    assert!(!commit_vlacku_jvozba_drag(&mut pane, &mut none));
    assert_eq!(values(&pane), vec!["a", "b"]);
}
