use uarte_ring::ring::Ring;
use uarte_ring::text::DecodeError;
use uarte_ring::BLOCK_CAPACITY;

#[test]
fn fresh_ring_has_nothing_ready() {
    let mut r = Ring::new();
    assert_eq!(r.current_write_target(), (0, BLOCK_CAPACITY));
    assert!(r.take_oldest().is_none());
    assert!(r.take_oldest().is_none());
    assert_eq!(r.current_write_target(), (0, BLOCK_CAPACITY));
}

#[test]
fn write_cursor_rotates_and_wraps() {
    let mut r = Ring::new();
    assert!(r.advance_write().is_ok());
    assert_eq!(r.current_write_target().0, 1);
    assert!(r.advance_write().is_ok());
    assert_eq!(r.current_write_target().0, 2);
    assert!(r.advance_write().is_ok());
    assert_eq!(r.current_write_target().0, 0);
}

#[test]
fn single_transfer_drains_the_written_bytes() {
    let mut r = Ring::new();
    r.fill_current_write(&b"HELLO".to_vec());
    r.mark_current_write_filled();
    assert!(r.advance_write().is_ok());
    let b = match r.take_oldest() {
        Some(b) => b,
        None => panic!("a completed transfer must be ready"),
    };
    assert!(!b.is_filled());
    match b.as_str() {
        Ok(t) => assert_eq!(t.as_bytes().as_slice(), b"HELLO"),
        Err(_) => panic!("HELLO is valid text"),
    }
    assert!(r.take_oldest().is_none());
}

#[test]
fn end_event_marks_before_start_advances() {
    let mut r = Ring::new();
    r.fill_current_write(&b"FIRST".to_vec());
    r.mark_current_write_filled();
    assert_eq!(r.current_write_target().0, 0);
    assert!(r.advance_write().is_ok());
    assert_eq!(r.current_write_target().0, 1);
    let b = match r.take_oldest() {
        Some(b) => b,
        None => panic!("block 0 must still be filled after the cursor moved"),
    };
    match b.as_str() {
        Ok(t) => assert_eq!(t.as_bytes().as_slice(), b"FIRST"),
        Err(_) => panic!("FIRST is valid text"),
    }
}

#[test]
fn headroom_is_slot_count_minus_one() {
    let mut r = Ring::new();
    r.fill_current_write(&b"ONE\x00\x00".to_vec());
    r.mark_current_write_filled();
    assert!(r.advance_write().is_ok());
    r.fill_current_write(&b"TWO\x00\x00".to_vec());
    r.mark_current_write_filled();
    assert!(r.advance_write().is_ok());
    assert!(r.advance_write().is_err());
}

#[test]
fn overrun_leaves_the_ring_untouched() {
    let mut r = Ring::new();
    for text in [b"AAAAA", b"BBBBB"] {
        r.fill_current_write(&text.to_vec());
        r.mark_current_write_filled();
        assert!(r.advance_write().is_ok());
    }
    r.fill_current_write(&b"CCCCC".to_vec());
    r.mark_current_write_filled();
    assert!(r.advance_write().is_err());
    assert_eq!(r.current_write_target().0, 2);
    let b = match r.take_oldest() {
        Some(b) => b,
        None => panic!("the undrained block must survive the overrun"),
    };
    match b.as_str() {
        Ok(t) => assert_eq!(t.as_bytes().as_slice(), b"AAAAA"),
        Err(_) => panic!("AAAAA is valid text"),
    }
}

#[test]
fn invalid_bytes_surface_as_decode_error() {
    let mut r = Ring::new();
    r.fill_current_write(&vec![0xFF, 0xFF, 0xFF, 0xFF, 0xFF]);
    r.mark_current_write_filled();
    assert!(r.advance_write().is_ok());
    let b = match r.take_oldest() {
        Some(b) => b,
        None => panic!("the block must be ready"),
    };
    assert!(matches!(b.as_str(), Err(DecodeError::InvalidEncoding)));
}

#[test]
fn zeroed_block_decodes_as_nul_padding() {
    let mut r = Ring::new();
    r.mark_current_write_filled();
    let b = match r.take_oldest() {
        Some(b) => b,
        None => panic!("the block must be ready"),
    };
    match b.as_str() {
        Ok(t) => assert_eq!(t.as_bytes().as_slice(), &[0u8; 5]),
        Err(_) => panic!("NUL padding is valid text"),
    }
}
