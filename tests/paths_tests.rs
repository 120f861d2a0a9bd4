use zooming_kittens::paths::{first_existing, socket_dirs, socket_file_name};

#[test]
fn socket_names_hold_the_decimal_pid() {
    assert_eq!(socket_file_name(1234), "kitty-1234.sock");
    assert_eq!(socket_file_name(0), "kitty-0.sock");
    assert_eq!(socket_file_name(-7), "kitty--7.sock");
    assert_eq!(socket_file_name(i32::MAX), "kitty-2147483647.sock");
    assert_eq!(socket_file_name(i32::MIN), "kitty--2147483648.sock");
    assert_eq!(zooming_kittens::paths::pid_text(10), "10");
}

#[test]
fn socket_directories() {
    assert_eq!(socket_dirs(Some("/run/user/42")), vec!["/run/user/42".to_string()]);
    assert_eq!(socket_dirs(None), vec!["/run/user/1000".to_string(), "/tmp".to_string()]);
}

#[test]
fn first_existing_candidate_or_the_first() {
    assert_eq!(first_existing(&vec![false, true]), 1);
    assert_eq!(first_existing(&vec![true, true]), 0);
    assert_eq!(first_existing(&vec![false, false]), 0);
    assert_eq!(first_existing(&vec![]), 0);
}
