use quickmenu::selection::SelectionStore;

#[test]
fn unseen_screen_reads_as_row_zero() {
    let sel = SelectionStore::new();
    assert_eq!(sel.get(1), 0);
    assert_eq!(sel.get(1234), 0);
}

#[test]
fn set_then_get_round_trips() {
    let mut sel = SelectionStore::new();
    sel.set(1, 4);
    assert_eq!(sel.get(1), 4);
}

#[test]
fn set_overwrites_prior_value() {
    let mut sel = SelectionStore::new();
    sel.set(1, 4);
    sel.set(1, 2);
    assert_eq!(sel.get(1), 2);
}

#[test]
fn screens_are_kept_apart() {
    let mut sel = SelectionStore::new();
    sel.set(1, 4);
    sel.set(2, 7);
    sel.set(1, 5);
    assert_eq!(sel.get(1), 5);
    assert_eq!(sel.get(2), 7);
    assert_eq!(sel.get(3), 0);
}
