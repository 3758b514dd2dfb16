use testchamber::syscall_table::{RawRow, SyscallTable, SyscallTableError};

fn row(number: u64, name: &str, types: &[&str]) -> RawRow {
    RawRow {
        number: Some(number),
        name: Some(name.to_owned()),
        arg_types: types.iter().map(|t| (*t).to_owned()).collect(),
    }
}

#[test]
fn builds_and_looks_up_names() {
    let rows = vec![
        row(0, "read", &["unsigned int", "char *", "size_t"]),
        row(1, "write", &["unsigned int", "const char *", "size_t"]),
        row(262, "newfstatat", &["int", "const char *", "struct stat *", "int"]),
    ];
    let t = SyscallTable::new(&rows).unwrap();
    assert_eq!(t.name_of(0), "read");
    assert_eq!(t.name_of(1), "write");
    assert_eq!(t.name_of(262), "newfstatat");
    assert_eq!(t.index(1), "write");
}

#[test]
fn unknown_number_gets_the_placeholder_not_a_panic() {
    let rows = vec![row(1, "write", &[])];
    let t = SyscallTable::new(&rows).unwrap();
    assert_eq!(t.name_of(9999), "unknown");
}

#[test]
fn argument_types_come_back_in_order() {
    let rows = vec![row(2, "open", &["const char *", "int", "umode_t"])];
    let t = SyscallTable::new(&rows).unwrap();
    let args = t.args_of(2).unwrap();
    assert_eq!(args.len(), 3);
    assert_eq!(args[0], "const char *");
    assert_eq!(args[1], "int");
    assert_eq!(args[2], "umode_t");
    assert!(t.args_of(3).is_none());
}

#[test]
fn missing_name_is_a_fatal_load_error_with_its_row_index() {
    let rows = vec![
        row(0, "read", &[]),
        RawRow { number: Some(1), name: None, arg_types: Vec::new() },
        row(2, "open", &[]),
    ];
    match SyscallTable::new(&rows) {
        Err(SyscallTableError::MalformedRow { index }) => assert_eq!(index, 1),
        _ => panic!("a malformed row must fail the load"),
    }
}

#[test]
fn missing_number_is_a_fatal_load_error() {
    let rows = vec![RawRow { number: None, name: Some("read".to_owned()), arg_types: Vec::new() }];
    match SyscallTable::new(&rows) {
        Err(SyscallTableError::MalformedRow { index }) => assert_eq!(index, 0),
        _ => panic!("a malformed row must fail the load"),
    }
}

#[test]
fn later_row_for_the_same_number_wins() {
    let rows = vec![row(5, "fstat", &[]), row(5, "fstat64", &["int"])];
    let t = SyscallTable::new(&rows).unwrap();
    assert_eq!(t.name_of(5), "fstat64");
    assert_eq!(t.args_of(5).unwrap().len(), 1);
}

#[test]
fn an_empty_dataset_builds_an_empty_table() {
    let rows: Vec<RawRow> = Vec::new();
    let t = SyscallTable::new(&rows).unwrap();
    assert_eq!(t.name_of(0), "unknown");
}
