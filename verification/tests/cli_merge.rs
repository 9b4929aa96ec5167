use wpass::cli::{
    apply_new_directory, merge_defaults, new_directory_candidate, CmdArgument, CmdArgumentMerged,
    WPassDefaultConfig,
};
use wpass::hack::generate_reg;

fn options(file_path: &str) -> CmdArgument {
    CmdArgument {
        file_path: file_path.to_string(),
        password_file: None,
        executable_path: None,
        output: None,
        local: false,
        new_directory: false,
        debug: 0,
        delete: false,
        generate: false,
        format: true,
    }
}

fn config() -> WPassDefaultConfig {
    WPassDefaultConfig {
        executable_path: "7za".to_string(),
        password_file: "/etc/wpass/dict.txt".to_string(),
    }
}

fn merged(file_path: &str) -> CmdArgumentMerged {
    merge_defaults(&options(file_path), &config(), "/opt/wpass", "/home/user", true)
}

#[test]
fn defaults_resolve_against_the_executable_directory() {
    let m = merged("arch.7z");
    // a relative configured path lands next to the executable
    assert_eq!(m.executable_path, "/opt/wpass/7za");
    // an absolute configured path is kept as it is
    assert_eq!(m.password_file, "/etc/wpass/dict.txt");
    // without -o the current directory is the destination
    assert_eq!(m.output, "/home/user");
    assert_eq!(m.file_path, "arch.7z");
    assert!(m.format);
}

#[test]
fn explicit_options_win_over_defaults() {
    let mut o = options("arch.7z");
    o.password_file = Some("mine.txt".to_string());
    o.executable_path = Some("/usr/bin/7z".to_string());
    o.output = Some("dest".to_string());
    let m = merge_defaults(&o, &config(), "/opt/wpass", "/home/user", true);
    assert_eq!(m.password_file, "mine.txt");
    assert_eq!(m.executable_path, "/usr/bin/7z");
    assert_eq!(m.output, "dest");
}

#[test]
fn local_extraction_lands_next_to_the_archive() {
    let mut o = options("albums/arch.7z");
    o.local = true;
    o.output = Some("ignored".to_string());
    let m = merge_defaults(&o, &config(), "/opt/wpass", "/home/user", true);
    assert_eq!(m.output, "albums");
}

#[test]
fn local_extraction_of_bare_name_uses_the_dot_directory() {
    let mut o = options("arch.7z");
    o.local = true;
    // the empty parent is not a directory name, so "." is joined on
    let m = merge_defaults(&o, &config(), "/opt/wpass", "/home/user", false);
    assert_eq!(m.output, ".");
}

#[test]
fn new_directory_is_named_after_the_archive() {
    let mut m = merged("albums/arch.7z");
    m.new_directory = true;
    assert_eq!(new_directory_candidate(&m), "/home/user/arch");
    apply_new_directory(&mut m, false);
    assert_eq!(m.output, "/home/user/arch");
}

#[test]
fn existing_new_directory_gets_the_extracted_suffix() {
    let mut m = merged("arch");
    m.new_directory = true;
    apply_new_directory(&mut m, true);
    assert_eq!(m.output, "/home/user/arch_extracted");
}

#[test]
fn without_the_option_the_destination_is_untouched() {
    let mut m = merged("arch.7z");
    apply_new_directory(&mut m, true);
    assert_eq!(m.output, "/home/user");
}

#[test]
fn registry_text_splices_the_executable_path() {
    let content = generate_reg("C:/opt/wpass.exe");
    assert!(content.starts_with("Windows Registry Editor Version 5.00"));
    assert!(content.contains("@=\"C:/opt/wpass.exe -l \\\"%1\\\"\""));
    assert!(content.contains("@=\"C:/opt/wpass.exe -l -D -n \\\"%1\\\"\""));
    assert_eq!(content.matches("C:/opt/wpass.exe").count(), 5);
}
