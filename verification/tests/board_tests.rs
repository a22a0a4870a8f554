use cyders::board::{get_board, get_board_models, load_boards};

#[test]
fn test_load_boards() {
    let boards = load_boards();
    assert!(!boards.is_empty(), "Should load at least one board");
}

#[test]
fn test_get_board() {
    let board = get_board("2432S028R");
    assert!(board.is_some(), "Should find default board");

    if let Some(b) = board {
        assert_eq!(b.model, "2432S028R");
        assert_eq!(b.chip, "ESP32");
        assert_eq!(b.cores, 2);
        assert_eq!(b.display_width, 320);
        assert_eq!(b.display_height, 240);
    }
}

#[test]
fn test_get_unknown_board() {
    let board = get_board("UNKNOWN_MODEL");
    assert!(board.is_none(), "Should not find unknown board");
}

#[test]
fn board_models_in_catalogue_order() {
    let models = get_board_models();
    assert_eq!(models, vec!["2432S028R", "2432S024C", "3248S035C", "4827S043C"]);
    for m in &models {
        let b = get_board(m).unwrap();
        assert_eq!(&b.model, m);
    }
}

#[test]
fn s3_board_profile() {
    let b = get_board("4827S043C").unwrap();
    assert_eq!(b.chip, "ESP32-S3");
    assert_eq!((b.display_width, b.display_height), (800, 480));
    assert_eq!(b.touch_type, "GT911 (capacitive)");
    assert!(get_board("2432s028r").is_none());
    assert!(get_board("").is_none());
}
