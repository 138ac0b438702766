use kilo::common::{ctrl_key, decode_key, Key, MoveKey};

#[test]
fn ctrl_key_masks_to_control_range() {
    assert_eq!(ctrl_key(b'q'), 17);
    assert_eq!(ctrl_key(b's'), 19);
    assert_eq!(ctrl_key(b'h'), 8);
}

#[test]
fn single_bytes_decode_to_their_keys() {
    assert_eq!(decode_key(&[17]), Some((Key::Quit, 1)));
    assert_eq!(decode_key(&[19]), Some((Key::Save, 1)));
    assert_eq!(decode_key(&[15]), Some((Key::Open, 1)));
    assert_eq!(decode_key(&[23]), Some((Key::SaveAs, 1)));
    assert_eq!(decode_key(&[12]), Some((Key::ESC, 1)));
    assert_eq!(decode_key(&[8]), Some((Key::BackSpace, 1)));
    assert_eq!(decode_key(&[127]), Some((Key::BackSpace, 1)));
    assert_eq!(decode_key(&[13]), Some((Key::Enter, 1)));
    assert_eq!(decode_key(&[b'a', b'b']), Some((Key::Char(b'a'), 1)));
}

#[test]
fn escape_sequences_decode_to_moves() {
    assert_eq!(decode_key(b"\x1b[A"), Some((Key::Move(MoveKey::ArrowUp), 3)));
    assert_eq!(decode_key(b"\x1b[B"), Some((Key::Move(MoveKey::ArrowDown), 3)));
    assert_eq!(decode_key(b"\x1b[C"), Some((Key::Move(MoveKey::ArrowRight), 3)));
    assert_eq!(decode_key(b"\x1b[D"), Some((Key::Move(MoveKey::ArrowLeft), 3)));
    assert_eq!(decode_key(b"\x1b[H"), Some((Key::Move(MoveKey::Home), 3)));
    assert_eq!(decode_key(b"\x1b[F"), Some((Key::Move(MoveKey::End), 3)));
    assert_eq!(decode_key(b"\x1bOH"), Some((Key::Move(MoveKey::Home), 3)));
    assert_eq!(decode_key(b"\x1bOF"), Some((Key::Move(MoveKey::End), 3)));
    assert_eq!(decode_key(b"\x1b[5~"), Some((Key::Move(MoveKey::PageUp), 4)));
    assert_eq!(decode_key(b"\x1b[6~"), Some((Key::Move(MoveKey::PageDown), 4)));
    assert_eq!(decode_key(b"\x1b[1~"), Some((Key::Move(MoveKey::Home), 4)));
    assert_eq!(decode_key(b"\x1b[7~"), Some((Key::Move(MoveKey::Home), 4)));
    assert_eq!(decode_key(b"\x1b[4~"), Some((Key::Move(MoveKey::End), 4)));
    assert_eq!(decode_key(b"\x1b[8~"), Some((Key::Move(MoveKey::End), 4)));
    assert_eq!(decode_key(b"\x1b[3~"), Some((Key::Delete, 4)));
}

#[test]
fn broken_escape_sequences_decode_to_escape() {
    assert_eq!(decode_key(b"\x1b[5x"), Some((Key::ESC, 4)));
    assert_eq!(decode_key(b"\x1b[Z"), Some((Key::ESC, 3)));
    assert_eq!(decode_key(b"\x1bOX"), Some((Key::ESC, 3)));
    assert_eq!(decode_key(b"\x1bx"), Some((Key::ESC, 2)));
}

#[test]
fn incomplete_sequences_wait_for_more_bytes() {
    assert_eq!(decode_key(&[]), None);
    assert_eq!(decode_key(b"\x1b"), None);
    assert_eq!(decode_key(b"\x1b["), None);
    assert_eq!(decode_key(b"\x1b[5"), None);
    assert_eq!(decode_key(b"\x1bO"), None);
}

#[test]
fn settled_key_ignores_later_bytes() {
    let short = decode_key(b"\x1b[A");
    let long = decode_key(b"\x1b[Axyz");
    assert_eq!(short, long);
    for a in 0u8..=255 {
        for b in [0x1bu8, b'[', b'O', b'5', b'A', b'~', b'x'] {
            assert!(decode_key(&[0x1b, b, a, b'~']).is_some());
        }
    }
}
