use wpass::password::{dedup_adjacent, format_password_file, get_password, join_lines};

#[test]
fn should_read_file() {
    let contents = "aaa\nbbb";
    let passwords = get_password(contents);
    assert_eq!(passwords, vec!["aaa", "bbb"]);
}

#[test]
fn tolerates_trailing_newline_and_mixed_endings() {
    let passwords = get_password("  aaa \r\n\r\nbbb\r\n");
    assert_eq!(passwords, vec!["aaa", "bbb"]);
}

#[test]
fn empty_text_gives_no_candidates() {
    let passwords = get_password("");
    assert_eq!(passwords, Vec::<String>::new());
    let passwords = get_password("\n \n\t\n");
    assert_eq!(passwords, Vec::<String>::new());
}

#[test]
fn keeps_dictionary_order() {
    let passwords = get_password("zzz\naaa\nmmm");
    assert_eq!(passwords, vec!["zzz", "aaa", "mmm"]);
}

#[test]
fn format_sorts_and_deduplicates() {
    let formatted = format_password_file("b\na\nb\n\na");
    assert_eq!(formatted, "a\nb");
}

#[test]
fn format_is_idempotent() {
    let once = format_password_file("hunter2\naaa\nhunter2\nbbb");
    let twice = format_password_file(&once);
    assert_eq!(once, "aaa\nbbb\nhunter2");
    assert_eq!(twice, once);
}

#[test]
fn format_of_empty_text_is_empty() {
    assert_eq!(format_password_file(""), "");
}

#[test]
fn dedup_keeps_first_of_each_run() {
    let v: Vec<String> = vec!["a", "a", "b", "b", "b", "c"].into_iter().map(String::from).collect();
    let d = dedup_adjacent(&v);
    assert_eq!(d, vec!["a", "b", "c"]);
}

#[test]
fn join_inserts_single_newlines() {
    let v: Vec<String> = vec!["a", "b", "c"].into_iter().map(String::from).collect();
    assert_eq!(join_lines(&v), "a\nb\nc");
    let one: Vec<String> = vec![String::from("solo")];
    assert_eq!(join_lines(&one), "solo");
    assert_eq!(join_lines(&Vec::new()), "");
}
