use reson::fade::FadeCursor;

#[test]
fn new_cursor_has_nothing_to_read() {
    let mut c = FadeCursor::<8>::new();
    assert_eq!(c.index(), 8);
    assert_eq!(c.remaining(), 0);
    assert_eq!(c.take(4), (8, 0));
}

#[test]
fn restart_reports_the_unread_tail() {
    let mut c = FadeCursor::<8>::new();
    assert_eq!(c.restart(), 8);
    assert_eq!(c.take(3), (0, 3));
    assert_eq!(c.restart(), 3);
    assert_eq!(c.index(), 0);
    assert_eq!(c.remaining(), 8);
}

#[test]
fn reads_are_capped_by_what_is_left() {
    let mut c = FadeCursor::<8>::new();
    c.restart();
    assert_eq!(c.take(5), (0, 5));
    assert_eq!(c.take(5), (5, 3));
    assert_eq!(c.remaining(), 0);
}

#[test]
fn nothing_is_read_once_all_samples_are_consumed() {
    let mut c = FadeCursor::<256>::new();
    c.restart();
    let mut read = 0;
    for _ in 0..3 {
        read += c.take(100).1;
    }
    assert_eq!(read, 256);
    assert_eq!(c.take(100), (256, 0));
    assert_eq!(c.take(1), (256, 0));
}

#[test]
fn a_zero_length_read_moves_nothing() {
    let mut c = FadeCursor::<4>::new();
    c.restart();
    assert_eq!(c.take(0), (0, 0));
    assert_eq!(c.index(), 0);
}
