use mapeditor::recording::{Record, Records, TilePos, MAX_CHANGE};

fn pos(x: u32, y: u32, z: u32) -> TilePos {
    TilePos { x, y, z }
}

#[test]
fn changes_are_kept_only_while_recording() {
    let mut r = Records::new();
    r.push_undo(pos(1, 2, 3), 5);
    assert!(r.get_last_undo().is_none());
    r.set_undo_record();
    r.push_undo(pos(1, 2, 3), 5);
    r.push_undo(pos(1, 2, 3), 9);
    r.push_undo(pos(4, 5, 6), 7);
    r.stop_record();
    r.push_undo(pos(7, 7, 7), 1);
    let rec = r.get_last_undo().unwrap();
    assert_eq!(rec.len(), 2);
    let (k0, c0) = rec.change(0);
    assert_eq!(k0, "1_2_3");
    assert_eq!(c0.pos, pos(1, 2, 3));
    assert_eq!(c0.texture_id, 5);
    let (k1, c1) = rec.change(1);
    assert_eq!(k1, "4_5_6");
    assert_eq!(c1.texture_id, 7);
    assert!(r.get_last_undo().is_none());
}

#[test]
fn opening_a_record_twice_keeps_the_first() {
    let mut r = Records::new();
    r.set_undo_record();
    r.push_undo(pos(0, 0, 0), 1);
    r.set_undo_record();
    r.push_undo(pos(1, 0, 0), 2);
    r.stop_record();
    let rec = r.get_last_undo().unwrap();
    assert_eq!(rec.len(), 2);
    assert!(r.get_last_undo().is_none());
}

#[test]
fn redo_records_work_the_same_way_and_can_be_cleared() {
    let mut r = Records::new();
    r.set_redo_record();
    r.push_redo(pos(3, 3, 0), 4);
    r.push_redo(pos(3, 3, 0), 8);
    r.stop_record();
    assert!(r.get_last_undo().is_none());
    let rec = r.get_last_redo().unwrap();
    assert_eq!(rec.len(), 1);
    assert_eq!(rec.change(0).1.texture_id, 4);
    r.set_redo_record();
    r.stop_record();
    r.clear_redo();
    assert!(r.get_last_redo().is_none());
}

#[test]
fn no_changes_beyond_the_record_limit() {
    assert_eq!(MAX_CHANGE, 500);
    let mut r = Records::new();
    for _ in 0..MAX_CHANGE {
        r.set_undo_record();
        r.stop_record();
    }
    r.set_undo_record();
    r.push_undo(pos(0, 0, 0), 3);
    r.stop_record();
    let rec = r.get_last_undo().unwrap();
    assert_eq!(rec.len(), 0);
}

#[test]
fn a_new_record_is_empty() {
    assert_eq!(Record::new().len(), 0);
}
