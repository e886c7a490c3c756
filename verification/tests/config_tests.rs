use lab_logger::config::{
    config_from_answers, lab_type_from_choice, lab_type_from_lowercase, parse_lab_names, LabType,
};

#[test]
fn lab_types_show_their_names() {
    assert_eq!(LabType::Single.to_string(), "Single");
    assert_eq!(LabType::Double.to_string(), "Double");
}

#[test]
fn lab_type_answers_ignore_case() {
    assert_eq!(lab_type_from_choice("Single"), Some(LabType::Single));
    assert_eq!(lab_type_from_choice("DOUBLE"), Some(LabType::Double));
    assert_eq!(lab_type_from_choice("double"), Some(LabType::Double));
    assert_eq!(lab_type_from_choice("triple"), None);
    assert_eq!(lab_type_from_choice(" Single"), None);
    assert_eq!(lab_type_from_lowercase("Single"), None);
    assert_eq!(lab_type_from_lowercase("single"), Some(LabType::Single));
}

#[test]
fn the_shown_name_chooses_the_type_back() {
    for t in [LabType::Single, LabType::Double] {
        assert_eq!(lab_type_from_choice(&t.to_string()), Some(t));
    }
}

#[test]
fn lab_names_are_split_at_commas_and_trimmed() {
    assert_eq!(parse_lab_names(" Java Lab , Python Lab,C \n"), vec!["Java Lab", "Python Lab", "C"]);
    assert_eq!(parse_lab_names("Only one"), vec!["Only one"]);
    assert_eq!(parse_lab_names(""), vec![""]);
    assert_eq!(parse_lab_names("a,,b"), vec!["a", "", "b"]);
}

#[test]
fn answers_make_a_configuration() {
    let c = config_from_answers(" 101 \n", "Double", "Lab A, Lab B\n", " Dr. Rao\n").unwrap();
    assert_eq!(c.room_no, "101");
    assert_eq!(c.lab_type, LabType::Double);
    assert_eq!(c.lab_names, vec!["Lab A", "Lab B"]);
    assert_eq!(c.lab_incharge, "Dr. Rao");
    assert!(config_from_answers("101", "Quad", "A", "B").is_none());
}
