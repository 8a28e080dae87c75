use chess::notation::{parse_ply, parse_square, write_ply};

#[test]
fn squares_by_name() {
    assert_eq!(parse_square(b'a', b'1'), Some((0, 7)));
    assert_eq!(parse_square(b'a', b'8'), Some((0, 0)));
    assert_eq!(parse_square(b'h', b'1'), Some((7, 7)));
    assert_eq!(parse_square(b'e', b'2'), Some((4, 6)));
    assert_eq!(parse_square(b'i', b'1'), None);
    assert_eq!(parse_square(b'a', b'9'), None);
    assert_eq!(parse_square(b'a', b'0'), None);
    assert_eq!(parse_square(b'A', b'1'), None);
    assert_eq!(parse_square(b'`', b'1'), None);
}

#[test]
fn moves_by_name() {
    assert_eq!(parse_ply(&b"e2e4".to_vec()), Some(((4, 6), (4, 4))));
    assert_eq!(parse_ply(&b"e2 e4".to_vec()), Some(((4, 6), (4, 4))));
    assert_eq!(parse_ply(&b"g8f6".to_vec()), Some(((6, 0), (5, 2))));
    assert_eq!(parse_ply(&b"e2-e4".to_vec()), None);
    assert_eq!(parse_ply(&b"e2e".to_vec()), None);
    assert_eq!(parse_ply(&b"e2e4 ".to_vec()), None);
    assert_eq!(parse_ply(&b"e2e9".to_vec()), None);
    assert_eq!(parse_ply(&b"z2e4".to_vec()), None);
    assert_eq!(parse_ply(&b"".to_vec()), None);
    assert_eq!(parse_ply(&b"e2  e4".to_vec()), None);
}

#[test]
fn written_moves_read_back() {
    assert_eq!(write_ply(((4, 6), (4, 4))), Some(b"e2e4".to_vec()));
    assert_eq!(write_ply(((0, 0), (7, 7))), Some(b"a8h1".to_vec()));
    assert_eq!(write_ply(((8, 0), (7, 7))), None);
    assert_eq!(write_ply(((0, 0), (7, 8))), None);
    for x in 0..8u8 {
        for y in 0..8u8 {
            let ply = ((x, y), (7 - x, 7 - y));
            let text = write_ply(ply).unwrap();
            assert_eq!(parse_ply(&text), Some(ply));
        }
    }
}
