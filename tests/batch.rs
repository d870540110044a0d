use line_protocol::{Batch, Error, Field, FieldValue, Point, Precision, Timestamp};

fn point(ts: Timestamp, v: i64) -> Point {
    Point::builder("m")
        .unwrap()
        .add_field(Field::new("v", FieldValue::Integer(v)).unwrap())
        .timestamp(ts)
        .build()
        .unwrap()
}

#[test]
fn precision_test() {
    let b_a1 = Point::builder("a")
        .unwrap()
        .try_add_field(("a", "a"))
        .timestamp(Timestamp::Nanos(1));
    let b_a2 = b_a1.clone().timestamp(Timestamp::Milli(2));
    assert_eq!(
        Batch::from(vec![b_a1.build().unwrap(), b_a2.build().unwrap()]).precision(),
        Some(Precision::Nanos)
    );
}

#[test]
fn precision_is_the_finest_and_now_counts_for_nothing() {
    let b = Batch::from(vec![point(Timestamp::Secs(1), 1), point(Timestamp::Now, 2), point(Timestamp::Milli(3), 3)]);
    assert_eq!(b.precision(), Some(Precision::Milli));
    let b = Batch::from(point(Timestamp::Now, 2));
    assert_eq!(b.precision(), None);
    assert_eq!(Batch::with_capacity(4).precision(), None);
}

#[test]
fn lines_are_joined_in_order() {
    let b = Batch::from(vec![point(Timestamp::Nanos(1), 1), point(Timestamp::Milli(2), 2), point(Timestamp::Now, 3)]);
    assert_eq!(b.to_line_protocol().unwrap(), "m v=1i 1\nm v=2i 2000000\nm v=3i");
    assert_eq!(b.to_line_protocol_lossy(None).unwrap(), "m v=1i 1\nm v=2i 2000000\nm v=3i");
}

#[test]
fn lossy_rendering_uses_the_given_unit() {
    let b = Batch::from(vec![point(Timestamp::Nanos(1_500_000), 1), point(Timestamp::Secs(2), 2)]);
    assert_eq!(
        b.to_line_protocol_lossy(Some(Precision::Milli)).unwrap(),
        "m v=1i 1\nm v=2i 2000"
    );
    assert_eq!(
        b.to_line_protocol_lossy(Some(Precision::Secs)).unwrap(),
        "m v=1i 0\nm v=2i 2"
    );
}

#[test]
fn rendering_fails_on_overflow() {
    let b = Batch::from(vec![point(Timestamp::Nanos(1), 1), point(Timestamp::Secs(i64::MAX), 2)]);
    assert_eq!(b.to_line_protocol(), Err(Error::TimestampOverflow));
    assert!(b.to_line_protocol_lossy(Some(Precision::Secs)).is_ok());
}

#[test]
fn empty_batch_renders_nothing() {
    let b = Batch::with_capacity(0);
    assert!(b.is_empty());
    assert_eq!(b.len(), 0);
    assert_eq!(b.to_line_protocol().unwrap(), "");
}

#[test]
fn clone_and_clear_moves_everything() {
    let mut b = Batch::from(vec![point(Timestamp::Nanos(1), 1), point(Timestamp::Milli(2), 2)]);
    let before = b.to_line_protocol().unwrap();
    let moved = b.clone_and_clear();
    assert_eq!(moved.len(), 2);
    assert_eq!(moved.precision(), Some(Precision::Nanos));
    assert_eq!(moved.to_line_protocol().unwrap(), before);
    assert!(b.is_empty());
    assert_eq!(b.precision(), None);
}

#[test]
fn push_points_appends_in_order() {
    let mut b = Batch::with_capacity(1);
    b.push_point(point(Timestamp::Secs(1), 1));
    assert_eq!(b.precision(), Some(Precision::Secs));
    b.push_points(vec![point(Timestamp::Micro(2), 2), point(Timestamp::Now, 3)]);
    assert_eq!(b.len(), 3);
    assert_eq!(b.precision(), Some(Precision::Micro));
    assert_eq!(b.to_line_protocol().unwrap(), "m v=1i 1000000000\nm v=2i 2000\nm v=3i");
}

#[test]
fn one_line_per_point() {
    let b = Batch::from(vec![point(Timestamp::Nanos(1), 1), point(Timestamp::Now, 2), point(Timestamp::Secs(3), 3)]);
    let text = b.to_line_protocol_lossy(Some(Precision::Milli)).unwrap();
    assert_eq!(text.lines().count(), b.len());
    assert_eq!(text.matches('\n').count(), b.len() - 1);
}
