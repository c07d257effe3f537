use quickmenu::intent::Intent;
use quickmenu::menu::{BoundaryPolicy, MenuItem, MenuNav, Screen};
use quickmenu::selection::SelectionStore;

const ROOT: u64 = 1;
const SETTINGS: u64 = 2;
const SOUND: u64 = 3;
const QUIT: u64 = 7;
const MUTE: u64 = 9;

/// Root screen: [Action(QUIT), Submenu -> SETTINGS]; SETTINGS: [Submenu -> SOUND];
/// SOUND: [Action(MUTE)].
fn three_level_menu() -> MenuNav {
    let screens = vec![
        Screen {
            id: ROOT,
            items: vec![MenuItem::Action(QUIT), MenuItem::Submenu(1)],
        },
        Screen {
            id: SETTINGS,
            items: vec![MenuItem::Submenu(2)],
        },
        Screen {
            id: SOUND,
            items: vec![MenuItem::Action(MUTE)],
        },
    ];
    MenuNav::new(screens, 0, BoundaryPolicy::Clamp)
}

#[test]
fn select_action_dispatches_without_push() {
    let mut nav = three_level_menu();
    let mut sel = SelectionStore::new();
    // current index defaults to 0, where the QUIT action sits
    let action = nav.apply_intent(Intent::Select, &mut sel);
    assert_eq!(action, Some(QUIT));
    assert_eq!(nav.depth(), 1);
    assert_eq!(nav.top_id(), ROOT);
}

#[test]
fn select_submenu_pushes_screen() {
    let mut nav = three_level_menu();
    let mut sel = SelectionStore::new();
    sel.set(ROOT, 1);
    let action = nav.apply_intent(Intent::Select, &mut sel);
    assert_eq!(action, None);
    assert_eq!(nav.depth(), 2);
    assert_eq!(nav.top_id(), SETTINGS);
}

#[test]
fn back_pops_one_screen() {
    let mut nav = three_level_menu();
    let mut sel = SelectionStore::new();
    sel.set(ROOT, 1);
    nav.apply_intent(Intent::Select, &mut sel);
    assert_eq!(nav.depth(), 2);
    let action = nav.apply_intent(Intent::Back, &mut sel);
    assert_eq!(action, None);
    assert_eq!(nav.depth(), 1);
    assert_eq!(nav.top_id(), ROOT);
}

#[test]
fn back_on_root_is_noop_repeatedly() {
    let mut nav = three_level_menu();
    let mut sel = SelectionStore::new();
    for _ in 0..5 {
        let action = nav.apply_intent(Intent::Back, &mut sel);
        assert_eq!(action, None);
        assert_eq!(nav.depth(), 1);
        assert_eq!(nav.top_id(), ROOT);
    }
}

#[test]
fn up_down_clamp_at_screen_bounds() {
    let mut nav = three_level_menu();
    let mut sel = SelectionStore::new();
    // at row 0, Up stays at 0
    nav.apply_intent(Intent::Up, &mut sel);
    assert_eq!(sel.get(ROOT), 0);
    // two rows: Down, then Down again clamps at 1
    nav.apply_intent(Intent::Down, &mut sel);
    assert_eq!(sel.get(ROOT), 1);
    nav.apply_intent(Intent::Down, &mut sel);
    assert_eq!(sel.get(ROOT), 1);
    nav.apply_intent(Intent::Up, &mut sel);
    assert_eq!(sel.get(ROOT), 0);
}

#[test]
fn stale_selection_is_reclamped_when_consumed() {
    let mut nav = three_level_menu();
    let mut sel = SelectionStore::new();
    // the store itself keeps an out-of-bounds row; the screen re-clamps it
    sel.set(ROOT, 10);
    assert_eq!(sel.get(ROOT), 10);
    nav.apply_intent(Intent::Down, &mut sel);
    assert_eq!(sel.get(ROOT), 1);
}

#[test]
fn select_on_empty_screen_does_nothing() {
    let screens = vec![Screen { id: ROOT, items: vec![] }];
    let mut nav = MenuNav::new(screens, 0, BoundaryPolicy::Clamp);
    let mut sel = SelectionStore::new();
    let action = nav.apply_intent(Intent::Select, &mut sel);
    assert_eq!(action, None);
    assert_eq!(nav.depth(), 1);
    assert_eq!(sel.get(ROOT), 0);
}

#[test]
fn pointer_press_on_ancestor_collapses_and_resolves() {
    let mut nav = three_level_menu();
    let mut sel = SelectionStore::new();
    // go three levels deep
    sel.set(ROOT, 1);
    nav.apply_intent(Intent::Select, &mut sel);
    nav.apply_intent(Intent::Select, &mut sel);
    assert_eq!(nav.depth(), 3);
    assert_eq!(nav.top_id(), SOUND);
    // press the QUIT row rendered for the root screen
    let action = nav.pointer_press(ROOT, 0, &mut sel);
    assert_eq!(action, Some(QUIT));
    assert_eq!(nav.depth(), 1);
    assert_eq!(nav.top_id(), ROOT);
    assert_eq!(sel.get(ROOT), 0);
}

#[test]
fn pointer_press_on_submenu_row_pushes_it() {
    let mut nav = three_level_menu();
    let mut sel = SelectionStore::new();
    let action = nav.pointer_press(ROOT, 1, &mut sel);
    assert_eq!(action, None);
    assert_eq!(nav.depth(), 2);
    assert_eq!(nav.top_id(), SETTINGS);
    assert_eq!(sel.get(ROOT), 1);
}

#[test]
fn pointer_press_always_queues_redraw() {
    let mut nav = three_level_menu();
    let mut sel = SelectionStore::new();
    nav.take_redraw();
    // the pressed action row is already the selected row of the current
    // screen: nothing moves, yet press handling ends with a redraw signal
    let action = nav.pointer_press(ROOT, 0, &mut sel);
    assert_eq!(action, Some(QUIT));
    assert!(nav.take_redraw());
}

#[test]
fn pop_to_unknown_screen_is_noop() {
    let mut nav = three_level_menu();
    let mut sel = SelectionStore::new();
    sel.set(ROOT, 1);
    nav.apply_intent(Intent::Select, &mut sel);
    assert_eq!(nav.depth(), 2);
    nav.pop_to_selection(99);
    assert_eq!(nav.depth(), 2);
    assert_eq!(nav.top_id(), SETTINGS);
}

#[test]
fn redraw_fires_on_first_tick_only() {
    let mut nav = three_level_menu();
    // first tick redraws with no external signal
    assert!(nav.take_redraw());
    // a later tick with no signal and no intent does not
    assert!(!nav.take_redraw());
}

#[test]
fn redraw_follows_visible_changes() {
    let mut nav = three_level_menu();
    let mut sel = SelectionStore::new();
    nav.take_redraw();
    // Up at the top row changes nothing visible: no redraw
    nav.apply_intent(Intent::Up, &mut sel);
    assert!(!nav.take_redraw());
    // Down moves the row: redraw
    nav.apply_intent(Intent::Down, &mut sel);
    assert!(nav.take_redraw());
    // an external signal forces one
    nav.signal_redraw();
    assert!(nav.take_redraw());
    assert!(!nav.take_redraw());
}

#[test]
fn selection_persists_across_reentry() {
    let mut nav = three_level_menu();
    let mut sel = SelectionStore::new();
    sel.set(ROOT, 1);
    nav.apply_intent(Intent::Select, &mut sel);
    assert_eq!(nav.top_id(), SETTINGS);
    nav.apply_intent(Intent::Back, &mut sel);
    // the root screen still remembers row 1
    assert_eq!(sel.get(ROOT), 1);
    let action = nav.apply_intent(Intent::Select, &mut sel);
    assert_eq!(action, None);
    assert_eq!(nav.top_id(), SETTINGS);
}

#[test]
fn wraparound_policy_cycles_at_bounds() {
    let screens = vec![Screen {
        id: ROOT,
        items: vec![MenuItem::Action(QUIT), MenuItem::Submenu(0)],
    }];
    let mut nav = MenuNav::new(screens, 0, BoundaryPolicy::Wrap);
    let mut sel = SelectionStore::new();
    // at row 0, Up wraps to the last row
    nav.apply_intent(Intent::Up, &mut sel);
    assert_eq!(sel.get(ROOT), 1);
    // at the last row, Down wraps back to 0
    nav.apply_intent(Intent::Down, &mut sel);
    assert_eq!(sel.get(ROOT), 0);
}
