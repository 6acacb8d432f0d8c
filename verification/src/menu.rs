//! The menu driver's navigation (`menu_driver`) over a single-column menu: the current item
//! moves up, down, to either end, or cyclically to the next or previous item unless the menu is
//! `O_NONCYCLIC`; a request that does not move it is denied. Drawing is left to the caller.

use vstd::prelude::*;

verus! {

/// `menu_driver`'s success code.
pub const MENU_OK: i32 = 0;
/// `menu_driver`'s failure code (unknown request, or a request that would not move).
pub const MENU_ERR: i32 = -1;
pub const REQ_LEFT_ITEM: i32 = 512;
pub const REQ_RIGHT_ITEM: i32 = 513;
pub const REQ_UP_ITEM: i32 = 514;
pub const REQ_DOWN_ITEM: i32 = 515;
pub const REQ_FIRST_ITEM: i32 = 520;
pub const REQ_LAST_ITEM: i32 = 521;
pub const REQ_NEXT_ITEM: i32 = 522;
pub const REQ_PREV_ITEM: i32 = 523;
/// The menu shows item descriptions.
pub const O_SHOWDESC: i32 = 0x02;
/// The next/previous requests stop at the ends instead of wrapping around.
pub const O_NONCYCLIC: i32 = 0x20;

/// A menu's navigation state: how many items, which is current, and its options.
#[derive(Debug, Clone, Copy, PartialEq, Eq)]
pub struct MenuNav {
    pub items: usize,
    pub current: usize,
    pub opts: i32,
}

/// Where request `c` moves the current item `cur` of `n` items, `None` for an unknown request.
pub open spec fn menu_target(n: int, cur: int, cyclic: bool, c: i32) -> Option<int> {
    if c == REQ_DOWN_ITEM {
        Some(if cur + 1 < n { cur + 1 } else { cur })
    } else if c == REQ_UP_ITEM {
        Some(if cur > 0 { cur - 1 } else { cur })
    } else if c == REQ_NEXT_ITEM {
        Some(if cur + 1 < n { cur + 1 } else if cyclic { 0 } else { cur })
    } else if c == REQ_PREV_ITEM {
        Some(if cur > 0 { cur - 1 } else if cyclic { n - 1 } else { cur })
    } else if c == REQ_FIRST_ITEM {
        Some(0)
    } else if c == REQ_LAST_ITEM {
        Some(n - 1)
    } else if c == REQ_LEFT_ITEM || c == REQ_RIGHT_ITEM {
        Some(cur)
    } else {
        None
    }
}

/// `menu_driver(menu, c)`: the new current item and the result; a menu without items, an
/// unknown request or one that does not move fails and changes nothing.
pub open spec fn menu_step_v(m: MenuNav, c: i32) -> (MenuNav, i32) {
    if m.items == 0 {
        (m, MENU_ERR)
    } else {
        match menu_target(m.items as int, m.current as int, m.opts & O_NONCYCLIC == 0, c) {
            Some(t) => if t == m.current {
                (m, MENU_ERR)
            } else {
                (MenuNav { current: t as usize, ..m }, MENU_OK)
            },
            None => (m, MENU_ERR),
        }
    }
}

impl MenuNav {
    /// `menu_driver`: apply navigation request `c` (see [`menu_step_v`]).
    pub fn menu_driver(&mut self, c: i32) -> (rc: i32)
        requires
            old(self).current < old(self).items || old(self).items == 0,
        ensures
            (*final(self), rc) == menu_step_v(*old(self), c),
            final(self).current < final(self).items || final(self).items == 0,
    {
        let n = self.items;
        if n == 0 {
            return MENU_ERR;
        }
        let cyclic = self.opts & O_NONCYCLIC == 0;
        let old = self.current;
        let new = if c == REQ_DOWN_ITEM {
            if old + 1 < n { old + 1 } else { old }
        } else if c == REQ_UP_ITEM {
            if old > 0 { old - 1 } else { old }
        } else if c == REQ_NEXT_ITEM {
            if old + 1 < n { old + 1 } else if cyclic { 0 } else { old }
        } else if c == REQ_PREV_ITEM {
            if old > 0 { old - 1 } else if cyclic { n - 1 } else { old }
        } else if c == REQ_FIRST_ITEM {
            0
        } else if c == REQ_LAST_ITEM {
            n - 1
        } else if c == REQ_LEFT_ITEM || c == REQ_RIGHT_ITEM {
            old
        } else {
            return MENU_ERR;
        };
        if new == old {
            return MENU_ERR;
        }
        self.current = new;
        MENU_OK
    }
}

} // verus!
