use ncurses_native::menu::{
    MenuNav, MENU_ERR, MENU_OK, O_NONCYCLIC, REQ_DOWN_ITEM, REQ_FIRST_ITEM, REQ_LAST_ITEM, REQ_LEFT_ITEM,
    REQ_NEXT_ITEM, REQ_PREV_ITEM, REQ_UP_ITEM,
};

#[test]
fn menu_navigation_moves_and_denies() {
    let mut m = MenuNav { items: 3, current: 0, opts: 0 };
    assert_eq!(m.menu_driver(REQ_UP_ITEM), MENU_ERR);
    assert_eq!(m.menu_driver(REQ_DOWN_ITEM), MENU_OK);
    assert_eq!(m.current, 1);
    assert_eq!(m.menu_driver(REQ_LAST_ITEM), MENU_OK);
    assert_eq!(m.current, 2);
    assert_eq!(m.menu_driver(REQ_DOWN_ITEM), MENU_ERR);
    assert_eq!(m.menu_driver(REQ_NEXT_ITEM), MENU_OK);
    assert_eq!(m.current, 0);
    assert_eq!(m.menu_driver(REQ_PREV_ITEM), MENU_OK);
    assert_eq!(m.current, 2);
    assert_eq!(m.menu_driver(REQ_FIRST_ITEM), MENU_OK);
    assert_eq!(m.menu_driver(REQ_LEFT_ITEM), MENU_ERR);
    assert_eq!(m.menu_driver(12345), MENU_ERR);
}

#[test]
fn noncyclic_menu_stops_at_ends() {
    let mut m = MenuNav { items: 2, current: 1, opts: O_NONCYCLIC };
    assert_eq!(m.menu_driver(REQ_NEXT_ITEM), MENU_ERR);
    assert_eq!(m.current, 1);
    let mut e = MenuNav { items: 0, current: 0, opts: 0 };
    assert_eq!(e.menu_driver(REQ_FIRST_ITEM), MENU_ERR);
}
