use lab_logger::console::{banner, centre, decide_scan, menu_choice, scan_action, MenuChoice, ScanAction};

fn recorded(a: ScanAction) -> Option<String> {
    match a {
        ScanAction::Record(r) => Some(r),
        _ => None,
    }
}

#[test]
fn quitting() {
    assert!(matches!(scan_action("q"), ScanAction::Quit));
    assert!(matches!(scan_action(" Q \n"), ScanAction::Quit));
    assert!(!matches!(scan_action("qq"), ScanAction::Quit));
}

#[test]
fn roll_numbers() {
    assert_eq!(recorded(scan_action("12345A67B8")).as_deref(), Some("12345A67B8"));
    assert_eq!(recorded(scan_action("  21131A0501\n")).as_deref(), Some("21131A0501"));
    assert!(matches!(scan_action("12345a67B8"), ScanAction::Invalid));
    assert!(matches!(scan_action("12345A67B"), ScanAction::Invalid));
    assert!(matches!(scan_action("12345A67B89"), ScanAction::Invalid));
    assert!(matches!(scan_action("1234AA67B8"), ScanAction::Invalid));
    assert!(matches!(scan_action(""), ScanAction::Invalid));
    // `\d` takes any Unicode decimal digit
    assert!(recorded(scan_action("١٢٣٤٥A67B8")).is_some());
}

#[test]
fn deciding_from_parts() {
    assert!(matches!(decide_scan("Q", "q", false), ScanAction::Quit));
    assert!(matches!(decide_scan("x", "x", false), ScanAction::Invalid));
    assert_eq!(recorded(decide_scan("x", "x", true)).as_deref(), Some("x"));
}

#[test]
fn menu() {
    assert_eq!(menu_choice(0), MenuChoice::NewSession);
    assert_eq!(menu_choice(1), MenuChoice::ContinueSession);
    assert_eq!(menu_choice(2), MenuChoice::ManageReports);
    assert_eq!(menu_choice(3), MenuChoice::Leave);
}

#[test]
fn centring() {
    assert_eq!(centre("ab", 6), "  ab  ");
    assert_eq!(centre("ab", 5), " ab  ");
    assert_eq!(centre("abcdef", 3), "abcdef");
    assert_eq!(centre("Wellcome to Lab Logger", 36), format!("{:^36}", "Wellcome to Lab Logger"));
}

#[test]
fn start_up_banner() {
    let text = "Wellcome to Lab Logger";
    let width = 40;
    let mut expected = String::new();
    for _ in 0..width {
        expected.push_str("\x1b[33m=");
    }
    expected.push('\n');
    expected.push_str(&format!("||{:^width$}||\n", text, width = width - 4));
    for _ in 0..width {
        expected.push('=');
    }
    expected.push_str("\n\n\x1b[36mDeveloped by Gafoor\x1b[0m\n\n\n");
    assert_eq!(banner(text, width), expected);
}
