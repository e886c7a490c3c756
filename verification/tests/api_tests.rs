use lab_logger::api::{
    database_path, db_file_label, db_file_name, formated_list_db_files, select_db_files,
    current_db_file_name,
};

fn strings(v: &[&str]) -> Vec<String> {
    v.iter().map(|s| s.to_string()).collect()
}

#[test]
fn labels_of_monthly_databases() {
    let files = strings(&["01-2024.db", "03-2024.db", "12-1999.db"]);
    assert_eq!(formated_list_db_files(files), strings(&["Jan 2024", "Mar 2024", "Dec 1999"]));
}

#[test]
fn every_month_has_its_label() {
    let names = ["Jan", "Feb", "Mar", "Apr", "May", "Jun", "Jul", "Aug", "Sep", "Oct", "Nov", "Dec"];
    for (i, name) in names.iter().enumerate() {
        let file = db_file_name(i as u32 + 1, 2025);
        assert_eq!(db_file_label(&file), Some(format!("{} 2025", name)));
    }
}

#[test]
fn label_takes_year_up_to_the_next_dash_or_dot() {
    assert_eq!(db_file_label("05-2024-old.db"), Some("May 2024".to_string()));
    assert_eq!(db_file_label("05-"), Some("May ".to_string()));
    assert_eq!(db_file_label("05-2024"), Some("May 2024".to_string()));
}

#[test]
fn names_without_a_label() {
    assert_eq!(db_file_label("notes.db"), None);
    assert_eq!(db_file_label("13-2024.db"), None);
    assert_eq!(db_file_label("3-2024.db"), None);
    assert_eq!(db_file_label(""), None);
}

#[test]
fn database_files_are_picked_by_extension() {
    let names = strings(&["03-2024.db", "readme.txt", "04-2024.db", "x.db.bak", ".db"]);
    assert_eq!(select_db_files(names), strings(&["03-2024.db", "04-2024.db", ".db"]));
    assert_eq!(select_db_files(vec![]), Vec::<String>::new());
}

#[test]
fn database_file_names() {
    assert_eq!(db_file_name(3, 2024), "03-2024.db");
    assert_eq!(db_file_name(11, 2024), "11-2024.db");
    assert_eq!(db_file_name(7, 12), "07-12.db");
    assert_eq!(db_file_name(7, -5), "07--5.db");
    assert_eq!(format!("{:02}-{}.db", 3, 2024), db_file_name(3, 2024));
}

#[test]
fn current_database_name_has_the_monthly_shape() {
    let name = current_db_file_name();
    assert!(name.ends_with(".db"));
    assert!(db_file_label(&name).is_some());
}

#[test]
fn database_paths() {
    assert_eq!(database_path("03-2024.db"), "databases/03-2024.db");
}
