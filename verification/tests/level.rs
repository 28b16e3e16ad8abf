use jdpub::level::JlptLevel;
use jdpub::level::SerializedJlptLevel;

#[test]
fn numeric_grades_map_to_levels() {
    assert_eq!(JlptLevel::from(0u8), JlptLevel::Master);
    assert_eq!(JlptLevel::from(1u8), JlptLevel::N1);
    assert_eq!(JlptLevel::from(2u8), JlptLevel::N2);
    assert_eq!(JlptLevel::from(3u8), JlptLevel::N3);
    assert_eq!(JlptLevel::from(4u8), JlptLevel::N4);
    assert_eq!(JlptLevel::from(5u8), JlptLevel::N5);
    assert_eq!(JlptLevel::from(6u8), JlptLevel::Beginner);
    assert_eq!(JlptLevel::from(200u8), JlptLevel::Beginner);
}

#[test]
fn level_order_is_ungraded_to_beginner() {
    assert!(JlptLevel::Ungraded.le(&JlptLevel::Master));
    assert!(JlptLevel::Master.le(&JlptLevel::N1));
    assert!(JlptLevel::N1.le(&JlptLevel::N2));
    assert!(JlptLevel::N2.le(&JlptLevel::N3));
    assert!(JlptLevel::N3.le(&JlptLevel::N4));
    assert!(JlptLevel::N4.le(&JlptLevel::N5));
    assert!(JlptLevel::N5.le(&JlptLevel::Beginner));
    assert!(!JlptLevel::N5.le(&JlptLevel::N4));
    assert!(JlptLevel::N3.le(&JlptLevel::N3));
}

#[test]
fn max_picks_the_looser_level() {
    assert_eq!(JlptLevel::N3.max(JlptLevel::N5), JlptLevel::N5);
    assert_eq!(JlptLevel::N5.max(JlptLevel::N3), JlptLevel::N5);
    assert_eq!(JlptLevel::Master.max(JlptLevel::Ungraded), JlptLevel::Master);
    assert_eq!(JlptLevel::N2.max(JlptLevel::N2), JlptLevel::N2);
}

#[test]
fn labels_match_display_names() {
    assert_eq!(JlptLevel::Ungraded.label(), "None");
    assert_eq!(JlptLevel::Master.label(), "Master");
    assert_eq!(JlptLevel::N1.label(), "N1");
    assert_eq!(JlptLevel::N5.label(), "N5");
    assert_eq!(JlptLevel::Beginner.label(), "N+");
}

#[test]
fn default_level_is_n3() {
    assert_eq!(JlptLevel::default(), JlptLevel::N3);
    assert_eq!(SerializedJlptLevel::default().level(), JlptLevel::N3);
}

#[test]
fn serialized_levels_resolve() {
    assert_eq!(SerializedJlptLevel::Level(JlptLevel::N1).level(), JlptLevel::N1);
    assert_eq!(SerializedJlptLevel::Number(4).level(), JlptLevel::N4);
    assert_eq!(SerializedJlptLevel::Number(9).level(), JlptLevel::Beginner);
}
