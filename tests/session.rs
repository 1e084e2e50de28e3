use vkot::cell::Cell;
use vkot::console::Console;
use vkot::msg::{DecodeError, VkotMsg};
use vkot::region::Region;
use vkot::session::{dispatch, viewport_resized, Backlog, Reaction, WriteAction, Writer};

#[test]
fn split_delivery_gives_one_message() {
    let m = VkotMsg::Put([7, 8], Cell::new('w', 0x00ff_00ff, 0));
    let bytes = m.encode();
    for cut in 0..bytes.len() {
        let mut b = Backlog::new();
        let first = b.feed(&bytes[..cut]).unwrap();
        assert!(first.is_empty());
        assert_eq!(b.pending(), cut);
        let second = b.feed(&bytes[cut..]).unwrap();
        assert_eq!(second, vec![VkotMsg::Put([7, 8], Cell::new('w', 0x00ff_00ff, 0))]);
        assert_eq!(b.pending(), 0);
    }
    let mut whole = Backlog::new();
    assert_eq!(whole.feed(&bytes).unwrap(), vec![m]);
    assert_eq!(whole.pending(), 0);
}

#[test]
fn split_blit_delivery() {
    let m = VkotMsg::Blit(Region::new(0, 0, 2, 1), vec![Cell::default(), Cell::new('y', 1, 2)]);
    let bytes = m.encode();
    let mut b = Backlog::new();
    assert!(b.feed(&bytes[..8]).unwrap().is_empty());
    assert!(b.feed(&bytes[8..20]).unwrap().is_empty());
    assert_eq!(b.feed(&bytes[20..]).unwrap(), vec![m]);
    assert_eq!(b.pending(), 0);
}

#[test]
fn backlog_keeps_order_and_tail() {
    let mut bytes = VkotMsg::Cursor([1, 1]).encode();
    bytes.extend_from_slice(&VkotMsg::Cursor([2, 2]).encode());
    bytes.extend_from_slice(&VkotMsg::Cursor([3, 3]).encode()[..3]);
    let mut b = Backlog::new();
    let got = b.feed(&bytes).unwrap();
    assert_eq!(got, vec![VkotMsg::Cursor([1, 1]), VkotMsg::Cursor([2, 2])]);
    assert_eq!(b.pending(), 3);
    let got = b.feed(&[3, 0]).unwrap();
    assert_eq!(got, vec![VkotMsg::Cursor([3, 3])]);
    assert_eq!(b.pending(), 0);
}

#[test]
fn backlog_drops_everything_after_bad_tag() {
    let mut bytes = VkotMsg::Cursor([1, 1]).encode();
    bytes.push(200);
    bytes.extend_from_slice(&[1, 2, 3]);
    let mut b = Backlog::new();
    assert_eq!(b.feed(&bytes), Err(DecodeError::BadTag(200)));
    assert_eq!(b.pending(), 0);
    assert_eq!(b.feed(&VkotMsg::Cursor([4, 4]).encode()).unwrap(), vec![VkotMsg::Cursor([4, 4])]);
}

#[test]
fn writer_follows_latest_connection() {
    let mut w = Writer::new();
    // nothing connected yet: dropped
    assert!(matches!(w.handle(VkotMsg::Getch(65)), WriteAction::Drop));
    assert!(matches!(w.handle(VkotMsg::Stream(1)), WriteAction::Switch(1)));
    match w.handle(VkotMsg::Getch(66)) {
        WriteAction::Send(id, bytes) => {
            assert_eq!(id, 1);
            assert_eq!(bytes, vec![0, 66, 0, 0, 0]);
        }
        _ => panic!("expected a send"),
    }
    assert!(matches!(w.handle(VkotMsg::Stream(2)), WriteAction::Switch(2)));
    match w.handle(VkotMsg::Skey([1, 2, 3])) {
        WriteAction::Send(id, bytes) => {
            assert_eq!(id, 2);
            assert_eq!(bytes, vec![2, 1, 2, 3]);
        }
        _ => panic!("expected a send"),
    }
    assert!(matches!(w.handle(VkotMsg::Cursor([0, 0])), WriteAction::Drop));
}

#[test]
fn second_connection_replaces_first_without_replay() {
    // Getch queued while no connection is there is dropped; the next
    // connection sees only what comes after it.
    let mut w = Writer::new();
    let queue = vec![VkotMsg::Getch(120), VkotMsg::Stream(2), VkotMsg::Resized([80, 24])];
    let actions: Vec<WriteAction> = queue.into_iter().map(|m| w.handle(m)).collect();
    assert!(matches!(actions[0], WriteAction::Drop));
    assert!(matches!(actions[1], WriteAction::Switch(2)));
    match &actions[2] {
        WriteAction::Send(2, bytes) => assert_eq!(bytes, &vec![1, 80, 0, 24, 0]),
        _ => panic!("expected a send to the second connection"),
    }
}

#[test]
fn dispatch_reacts_per_message() {
    let mut c = Console::new([80, 24]);
    match dispatch(&mut c, VkotMsg::Stream(5)) {
        Reaction::Outbound(v) => assert_eq!(v, vec![VkotMsg::Stream(5), VkotMsg::Resized([80, 24])]),
        _ => panic!("expected outbound"),
    }
    assert!(matches!(dispatch(&mut c, VkotMsg::Cursor([10, 5])), Reaction::Redraw));
    assert_eq!(c.get_cpos(), [10, 5]);
    match dispatch(&mut c, VkotMsg::Getch(97)) {
        Reaction::Outbound(v) => assert_eq!(v, vec![VkotMsg::Getch(97)]),
        _ => panic!("expected outbound"),
    }
    let bad = VkotMsg::Blit(Region::new(0, 0, 2, 2), vec![Cell::default()]);
    assert!(matches!(dispatch(&mut c, bad), Reaction::Idle));
    assert!(matches!(dispatch(&mut c, VkotMsg::ChildExit), Reaction::Exit));
}

#[test]
fn viewport_resize_announces_size() {
    let mut c = Console::new([80, 24]);
    let m = viewport_resized(&mut c, [100, 30]);
    assert_eq!(m, VkotMsg::Resized([100, 30]));
    assert_eq!(c.get_size(), [100, 30]);
    assert_eq!(m.encode(), vec![1, 100, 0, 30, 0]);
}
