use mazegame::maze::{ChangeEvent, Field, FieldStore};

#[test]
fn set_then_delete_leaves_last_call() {
    let mut s = FieldStore::new();
    s.set(1, Field::Path);
    s.set(2, Field::Wall);
    s.set(1, Field::Wall);
    s.delete(2);
    s.set(3, Field::Path);
    assert_eq!(s.get(1), Some(Field::Wall));
    assert_eq!(s.get(2), None);
    assert_eq!(s.get(3), Some(Field::Path));
    assert_eq!(s.get(4), None);
}

#[test]
fn changelog_records_each_call_in_order() {
    let mut s = FieldStore::new();
    let mut c = s.register_reader();
    s.set(7, Field::Path);
    s.set(7, Field::Wall);
    s.delete(7);
    s.set(7, Field::Path);
    assert_eq!(s.event_count(), 4);
    let ev = s.read(&mut c);
    assert_eq!(
        ev,
        vec![
            ChangeEvent::Inserted(7),
            ChangeEvent::Modified(7),
            ChangeEvent::Removed(7),
            ChangeEvent::Inserted(7),
        ]
    );
    assert_eq!(c.pos, 4);
    assert!(s.read(&mut c).is_empty());
}

#[test]
fn delete_of_absent_identity_is_a_no_op() {
    let mut s = FieldStore::new();
    s.set(1, Field::Wall);
    let mut c = s.register_reader();
    s.delete(9);
    assert_eq!(s.event_count(), 1);
    assert_eq!(s.get(1), Some(Field::Wall));
    assert_eq!(s.get(9), None);
    assert!(s.read(&mut c).is_empty());
}

#[test]
fn readers_advance_independently() {
    let mut s = FieldStore::new();
    let mut a = s.register_reader();
    let mut b = s.register_reader();
    s.set(1, Field::Path);
    let first = s.read(&mut a);
    assert_eq!(first, vec![ChangeEvent::Inserted(1)]);
    s.set(2, Field::Wall);
    let second = s.read(&mut a);
    assert_eq!(second, vec![ChangeEvent::Inserted(2)]);
    let all = s.read(&mut b);
    assert_eq!(all, vec![ChangeEvent::Inserted(1), ChangeEvent::Inserted(2)]);
}

#[test]
fn reader_registered_late_sees_only_later_entries() {
    let mut s = FieldStore::new();
    s.set(1, Field::Path);
    let mut c = s.register_reader();
    assert_eq!(c.pos, 1);
    s.delete(1);
    assert_eq!(s.read(&mut c), vec![ChangeEvent::Removed(1)]);
}

#[test]
fn cursor_past_the_end_reads_nothing() {
    let mut s = FieldStore::new();
    s.set(1, Field::Path);
    let mut c = mazegame::maze::ReadCursor { pos: 5 };
    assert!(s.read(&mut c).is_empty());
    assert_eq!(c.pos, 1);
}

#[test]
fn largest_identity_is_a_valid_key() {
    let mut s = FieldStore::new();
    s.set(u64::MAX, Field::Wall);
    assert_eq!(s.get(u64::MAX), Some(Field::Wall));
    s.delete(u64::MAX);
    assert_eq!(s.get(u64::MAX), None);
}
