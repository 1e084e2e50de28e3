use vkot::cell::Cell;
use vkot::console::Console;
use vkot::msg::VkotMsg;
use vkot::region::Region;

const WHITE: u32 = 0xffff_ffff;
const RED: u32 = 0xff00_00ff;

fn snapshot(c: &Console) -> Vec<Vec<Cell>> {
    c.get_buffer().to_vec()
}

#[test]
fn new_console_is_blank() {
    let c = Console::new([80, 24]);
    assert_eq!(c.get_size(), [80, 24]);
    assert_eq!(c.get_cpos(), [0, 0]);
    let rows = c.get_buffer();
    assert_eq!(rows.len(), 24);
    for row in rows {
        assert_eq!(row.len(), 80);
        for cell in row {
            assert_eq!(*cell, Cell::default());
        }
    }
    assert_eq!(Cell::default(), Cell { ch: ' ', fg: WHITE, bg: 0, attr: 0 });
}

#[test]
fn cursor_then_put() {
    let mut c = Console::new([80, 24]);
    let before = snapshot(&c);
    c.handle_msg(VkotMsg::Cursor([10, 5]));
    assert_eq!(c.get_cpos(), [10, 5]);
    let a = Cell::new('A', WHITE, 0);
    c.handle_msg(VkotMsg::Put([10, 5], a));
    let after = snapshot(&c);
    for y in 0..24 {
        for x in 0..80 {
            if (x, y) == (10, 5) {
                assert_eq!(after[y][x], a);
            } else {
                assert_eq!(after[y][x], before[y][x]);
            }
        }
    }
}

#[test]
fn fill_top_row() {
    let mut c = Console::new([80, 24]);
    let before = snapshot(&c);
    let x = Cell::new('X', RED, 0);
    c.handle_msg(VkotMsg::Fill(Region::new(0, 0, 80, 1), x));
    let after = snapshot(&c);
    for col in 0..80 {
        assert_eq!(after[0][col], x);
    }
    for row in 1..24 {
        assert_eq!(after[row], before[row]);
    }
}

#[test]
fn put_off_screen_is_noop() {
    let mut c = Console::new([80, 24]);
    c.handle_msg(VkotMsg::Put([3, 3], Cell::new('q', RED, 0)));
    let before = snapshot(&c);
    c.handle_msg(VkotMsg::Put([-1, 0], Cell::new('Z', RED, 0)));
    assert_eq!(snapshot(&c), before);
    c.handle_msg(VkotMsg::Put([80, 0], Cell::new('Z', RED, 0)));
    c.handle_msg(VkotMsg::Put([0, 24], Cell::new('Z', RED, 0)));
    assert_eq!(snapshot(&c), before);
}

#[test]
fn fill_twice_equals_fill_once() {
    let mut once = Console::new([10, 6]);
    once.handle_msg(VkotMsg::Put([1, 1], Cell::new('k', RED, 0)));
    let mut twice = Console::new([10, 6]);
    twice.handle_msg(VkotMsg::Put([1, 1], Cell::new('k', RED, 0)));
    let f = Cell::new('#', WHITE, 0x0000_ffff);
    once.handle_msg(VkotMsg::Fill(Region::new(-2, 1, 4, 9), f));
    twice.handle_msg(VkotMsg::Fill(Region::new(-2, 1, 4, 9), f));
    twice.handle_msg(VkotMsg::Fill(Region::new(-2, 1, 4, 9), f));
    assert_eq!(snapshot(&once), snapshot(&twice));
    assert_eq!(snapshot(&once)[1][0], f);
    assert_eq!(snapshot(&once)[0][0], Cell::default());
    assert_eq!(snapshot(&once)[5][3], f);
    assert_eq!(snapshot(&once)[5][4], Cell::default());
}

#[test]
fn fill_with_negative_top_clamps_top() {
    let mut c = Console::new([4, 4]);
    let f = Cell::new('f', RED, 0);
    c.handle_msg(VkotMsg::Fill(Region::new(2, -5, 3, 2), f));
    let rows = snapshot(&c);
    assert_eq!(rows[0][2], f);
    assert_eq!(rows[1][2], f);
    assert_eq!(rows[2][2], Cell::default());
    assert_eq!(rows[0][0], Cell::default());
}

#[test]
fn blit_writes_row_major() {
    let mut c = Console::new([5, 5]);
    let cells: Vec<Cell> = "abcdef".chars().map(|ch| Cell::new(ch, WHITE, 0)).collect();
    c.handle_msg(VkotMsg::Blit(Region::new(1, 2, 4, 4), cells.clone()));
    let rows = snapshot(&c);
    assert_eq!(rows[2][1], cells[0]);
    assert_eq!(rows[2][3], cells[2]);
    assert_eq!(rows[3][1], cells[3]);
    assert_eq!(rows[3][3], cells[5]);
    assert_eq!(rows[1][1], Cell::default());
    assert_eq!(rows[2][4], Cell::default());
}

#[test]
fn blit_clipped_keeps_region_indexing() {
    let mut c = Console::new([3, 3]);
    // a 4x2 region starting one column left of the screen
    let cells: Vec<Cell> = "abcdefgh".chars().map(|ch| Cell::new(ch, WHITE, 0)).collect();
    c.handle_msg(VkotMsg::Blit(Region::new(-1, 1, 3, 3), cells));
    let rows = snapshot(&c);
    assert_eq!(rows[1][0].ch, 'b');
    assert_eq!(rows[1][1].ch, 'c');
    assert_eq!(rows[1][2].ch, 'd');
    assert_eq!(rows[2][0].ch, 'f');
    assert_eq!(rows[2][2].ch, 'h');
    assert_eq!(rows[0][0], Cell::default());
}

#[test]
fn blit_fully_off_screen_is_noop() {
    let mut c = Console::new([3, 3]);
    let before = snapshot(&c);
    let cells = vec![Cell::new('z', RED, 0); 4];
    c.handle_msg(VkotMsg::Blit(Region::new(10, 10, 12, 12), cells));
    assert_eq!(snapshot(&c), before);
}

#[test]
fn resize_keeps_surviving_cells() {
    let mut c = Console::new([4, 3]);
    let p = Cell::new('p', RED, 0);
    c.handle_msg(VkotMsg::Put([1, 1], p));
    c.handle_msg(VkotMsg::Put([3, 2], p));
    c.handle_msg(VkotMsg::Cursor([3, 2]));
    c.resize([6, 2]);
    assert_eq!(c.get_size(), [6, 2]);
    assert_eq!(c.get_cpos(), [3, 2]);
    let rows = snapshot(&c);
    assert_eq!(rows.len(), 2);
    assert_eq!(rows[0].len(), 6);
    assert_eq!(rows[1][1], p);
    assert_eq!(rows[1][5], Cell::default());
    c.resize([2, 4]);
    let rows = snapshot(&c);
    assert_eq!(rows.len(), 4);
    assert_eq!(rows[1], vec![Cell::default(), p]);
    assert_eq!(rows[3], vec![Cell::default(); 2]);
}

#[test]
fn non_drawing_messages_change_nothing() {
    let mut c = Console::new([3, 3]);
    let before = snapshot(&c);
    c.handle_msg(VkotMsg::Getch(65));
    c.handle_msg(VkotMsg::ChildExit);
    assert_eq!(snapshot(&c), before);
    assert_eq!(c.get_cpos(), [0, 0]);
}
