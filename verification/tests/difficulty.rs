use sudoku_avr::Difficulty;

#[test]
fn levels_stand_in_rising_order() {
    assert_eq!(
        Difficulty::all(),
        [Difficulty::Easy, Difficulty::Medium, Difficulty::Hard, Difficulty::Ultra]
    );
    assert_eq!(Difficulty::Easy.rank(), 0);
    assert_eq!(Difficulty::Medium.rank(), 1);
    assert_eq!(Difficulty::Hard.rank(), 2);
    assert_eq!(Difficulty::Ultra.rank(), 3);
    assert!(Difficulty::Easy < Difficulty::Medium);
    assert!(Difficulty::Medium < Difficulty::Hard);
    assert!(Difficulty::Hard < Difficulty::Ultra);
}

#[test]
fn removal_targets() {
    assert_eq!(Difficulty::Easy.removal_target(), 35);
    assert_eq!(Difficulty::Medium.removal_target(), 40);
    assert_eq!(Difficulty::Hard.removal_target(), 45);
    assert_eq!(Difficulty::Ultra.removal_target(), 81);
}

#[test]
fn labels() {
    assert_eq!(Difficulty::Easy.label(), "Easy");
    assert_eq!(Difficulty::Medium.label(), "Medium");
    assert_eq!(Difficulty::Hard.label(), "Hard");
    assert_eq!(Difficulty::Ultra.label(), "Ultra");
}

#[test]
fn labels_are_read_in_any_case() {
    assert_eq!(Difficulty::from_label("Easy"), Some(Difficulty::Easy));
    assert_eq!(Difficulty::from_label("easy"), Some(Difficulty::Easy));
    assert_eq!(Difficulty::from_label("MEDIUM"), Some(Difficulty::Medium));
    assert_eq!(Difficulty::from_label("hArD"), Some(Difficulty::Hard));
    assert_eq!(Difficulty::from_label("Ultra\n"), Some(Difficulty::Ultra));
    for dif in Difficulty::all() {
        assert_eq!(Difficulty::from_label(dif.label()), Some(dif));
    }
}

#[test]
fn unknown_labels_are_refused() {
    for label in ["", "\n", "Eas", "Easyy", "Easy \n", " Easy", "Easy\n\n", "Easy\r\n", "Extreme", "E@sy"] {
        assert_eq!(Difficulty::from_label(label), None);
    }
}
