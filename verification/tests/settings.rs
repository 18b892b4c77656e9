use rusty_viewer::settings::{
    default_batch_output_dir, fallback_batch_output_dir, initial_batch_output_dir,
    saved_batch_output_dir,
};

#[test]
fn saved_folder_is_trimmed() {
    assert_eq!(saved_batch_output_dir("  /home/me/out \n"), Some("/home/me/out".to_string()));
    assert_eq!(saved_batch_output_dir("/plain"), Some("/plain".to_string()));
    assert_eq!(saved_batch_output_dir("\t/with inner space/ \r\n"), Some("/with inner space/".to_string()));
}

#[test]
fn saved_folder_trims_unicode_white_space() {
    assert_eq!(saved_batch_output_dir("\u{3000}dir\u{a0}"), Some("dir".to_string()));
}

#[test]
fn blank_config_remembers_nothing() {
    assert_eq!(saved_batch_output_dir(""), None);
    assert_eq!(saved_batch_output_dir(" \n\t "), None);
}

#[test]
fn fallback_is_home_or_working_directory() {
    assert_eq!(fallback_batch_output_dir(Some("/home/me".to_string())), "/home/me");
    assert_eq!(fallback_batch_output_dir(None), ".");
}

#[test]
fn startup_folder_prefers_the_remembered_one() {
    assert_eq!(initial_batch_output_dir(Some("/remembered".to_string())), "/remembered");
    assert_eq!(initial_batch_output_dir(None), default_batch_output_dir());
    assert!(!default_batch_output_dir().is_empty());
}
