use vkot::bytes::read_cell;
use vkot::cell::Cell;
use vkot::msg::{decode_c2s, decode_s2c, DecodeError, VkotMsg};
use vkot::region::Region;

fn red(ch: char) -> Cell {
    Cell::new(ch, 0xff00_00ff, 0)
}

fn decode_all(bytes: &[u8]) -> (Result<Vec<VkotMsg>, DecodeError>, usize) {
    let mut offset = 0usize;
    let r = VkotMsg::from_buf(bytes, &mut offset);
    (r, offset)
}

#[test]
fn cursor_encoding_is_exact() {
    let bytes = VkotMsg::Cursor([10, -2]).encode();
    assert_eq!(bytes, vec![0, 10, 0, 0xfe, 0xff]);
}

#[test]
fn put_encoding_is_exact() {
    let cell = Cell { ch: 'A', fg: 0x0102_0304, bg: 0x0a0b_0c0d, attr: 7 };
    let bytes = VkotMsg::Put([1, 2], cell).encode();
    assert_eq!(
        bytes,
        vec![1, 1, 0, 2, 0, 65, 0, 0, 0, 4, 3, 2, 1, 0x0d, 0x0c, 0x0b, 0x0a, 7, 0, 0, 0]
    );
}

#[test]
fn server_messages_encode_exactly() {
    assert_eq!(VkotMsg::Getch(0x1F600).encode(), vec![0, 0x00, 0xF6, 0x01, 0x00]);
    assert_eq!(VkotMsg::Resized([80, 24]).encode(), vec![1, 80, 0, 24, 0]);
    assert_eq!(VkotMsg::Skey([9, 8, 7]).encode(), vec![2, 9, 8, 7]);
    assert!(VkotMsg::ChildExit.encode().is_empty());
    assert!(VkotMsg::Stream(3).encode().is_empty());
}

#[test]
fn client_messages_round_trip() {
    let msgs = vec![
        VkotMsg::Cursor([10, 5]),
        VkotMsg::Put([-1, 300], red('é')),
        VkotMsg::Blit(Region::new(0, 0, 2, 2), vec![red('a'), red('b'), red('c'), red('d')]),
        VkotMsg::Blit(Region::new(5, 5, 5, 9), vec![]),
        VkotMsg::Fill(Region::new(-3, -4, 100, 200), Cell::default()),
    ];
    for m in msgs {
        let bytes = m.encode();
        let r = decode_c2s(&bytes, 0).unwrap().unwrap();
        assert_eq!(r.1, bytes.len());
        assert_eq!(r.0, m);
    }
}

#[test]
fn server_messages_round_trip() {
    let msgs = vec![VkotMsg::Getch('ß' as u32), VkotMsg::Resized([-7, 32767]), VkotMsg::Skey([0, 255, 3])];
    for m in msgs {
        let bytes = m.encode();
        let r = decode_s2c(&bytes, 0).unwrap().unwrap();
        assert_eq!(r.1, bytes.len());
        assert_eq!(r.0, m);
    }
}

#[test]
fn from_buf_stops_before_partial_message() {
    let mut bytes = VkotMsg::Cursor([1, 2]).encode();
    let second = VkotMsg::Put([3, 4], red('x')).encode();
    bytes.extend_from_slice(&second[..10]);
    let (r, offset) = decode_all(&bytes);
    assert_eq!(r.unwrap(), vec![VkotMsg::Cursor([1, 2])]);
    assert_eq!(offset, 5);
}

#[test]
fn from_buf_needs_whole_blit_payload() {
    let m = VkotMsg::Blit(Region::new(0, 0, 3, 1), vec![red('a'), red('b'), red('c')]);
    let bytes = m.encode();
    assert_eq!(bytes.len(), 9 + 3 * 16);
    let (r, offset) = decode_all(&bytes[..bytes.len() - 1]);
    assert!(r.unwrap().is_empty());
    assert_eq!(offset, 0);
    let (r, offset) = decode_all(&bytes);
    assert_eq!(r.unwrap(), vec![m]);
    assert_eq!(offset, bytes.len());
}

#[test]
fn from_buf_empty_blit_needs_only_header() {
    let m = VkotMsg::Blit(Region::new(4, 4, 2, 9), vec![]);
    let bytes = m.encode();
    assert_eq!(bytes.len(), 9);
    let (r, offset) = decode_all(&bytes);
    assert_eq!(r.unwrap(), vec![m]);
    assert_eq!(offset, 9);
}

#[test]
fn from_buf_reports_bad_tag() {
    let mut bytes = VkotMsg::Cursor([1, 1]).encode();
    bytes.push(9);
    bytes.extend_from_slice(&VkotMsg::Cursor([2, 2]).encode());
    let (r, offset) = decode_all(&bytes);
    assert_eq!(r, Err(DecodeError::BadTag(9)));
    assert_eq!(offset, 5);
}

#[test]
fn from_buf_offset_past_end_is_empty() {
    let bytes = VkotMsg::Cursor([1, 1]).encode();
    let mut offset = 7usize;
    let r = VkotMsg::from_buf(&bytes, &mut offset);
    assert!(r.unwrap().is_empty());
    assert_eq!(offset, 7);
}

#[test]
fn surrogate_glyph_is_rejected() {
    let mut bytes = VkotMsg::Put([0, 0], red('a')).encode();
    bytes[5] = 0x00;
    bytes[6] = 0xD8;
    bytes[7] = 0x00;
    bytes[8] = 0x00;
    assert_eq!(decode_c2s(&bytes, 0), Err(DecodeError::BadGlyph));
}

#[test]
fn read_cell_decodes_glyph() {
    let bytes = [0x41, 0, 0, 0, 1, 0, 0, 0, 2, 0, 0, 0, 3, 0, 0, 0];
    assert_eq!(read_cell(&bytes, 0), Some(Cell { ch: 'A', fg: 1, bg: 2, attr: 3 }));
    let bad = [0, 0, 0x11, 0, 1, 0, 0, 0, 2, 0, 0, 0, 3, 0, 0, 0];
    assert_eq!(read_cell(&bad, 0), None);
}

#[test]
fn is_s2c_tells_direction() {
    assert!(VkotMsg::Getch(65).is_s2c());
    assert!(VkotMsg::Skey([1, 2, 3]).is_s2c());
    assert!(VkotMsg::Resized([1, 2]).is_s2c());
    assert!(!VkotMsg::Cursor([1, 2]).is_s2c());
    assert!(!VkotMsg::Stream(1).is_s2c());
    assert!(!VkotMsg::ChildExit.is_s2c());
}
