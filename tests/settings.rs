use fate_ci::settings::{
    nesting_within_bound, MAX_NESTING_MARKS, interval_setting, text_setting, RawSettings, SettingKey, Settings, SettingsError,
};

const FULL: &str = "repository:
  directory: /srv/repo
  commit_file: /srv/last
fate:
  tmp_directory: /tmp/fate
  result_directory: /srv/results
  samples_directory: /srv/samples
  pre_run_command: ./configure --enable-gpl
  command: make fate
  run_interval_sec: 60
";

#[test]
fn settings_read_from_yaml() {
    let s = Settings::parse(FULL).ok().unwrap();
    assert_eq!(s.repository_directory, "/srv/repo");
    assert_eq!(s.commit_file, "/srv/last");
    assert_eq!(s.tmp_directory, "/tmp/fate");
    assert_eq!(s.result_directory, "/srv/results");
    assert_eq!(s.samples_directory, "/srv/samples");
    assert_eq!(s.pre_run_command, "./configure --enable-gpl");
    assert_eq!(s.command, "make fate");
    assert_eq!(s.run_interval_sec, 60);
}

#[test]
fn missing_setting_is_named() {
    let text = FULL.replace("  command: make fate\n", "");
    assert_eq!(Settings::parse(&text).err(), Some(SettingsError::Missing(SettingKey::Command)));
    let text = FULL.replace("run_interval_sec: 60", "run_interval_sec: soon");
    assert_eq!(
        Settings::parse(&text).err(),
        Some(SettingsError::Missing(SettingKey::RunIntervalSec))
    );
}

#[test]
fn negative_interval_refused() {
    let text = FULL.replace("run_interval_sec: 60", "run_interval_sec: -5");
    assert_eq!(Settings::parse(&text).err(), Some(SettingsError::NegativeInterval));
}

#[test]
fn unreadable_and_empty_texts() {
    assert_eq!(Settings::parse("a: [1, 2").err(), Some(SettingsError::Unreadable));
    assert_eq!(Settings::parse("").err(), Some(SettingsError::NoDocument));
}

#[test]
fn single_settings() {
    assert_eq!(text_setting(Some("x".to_string()), SettingKey::TmpDirectory), Ok("x".to_string()));
    assert_eq!(
        text_setting(None, SettingKey::TmpDirectory),
        Err(SettingsError::Missing(SettingKey::TmpDirectory))
    );
    assert_eq!(interval_setting(Some(0)), Ok(0));
    assert_eq!(interval_setting(Some(-1)), Err(SettingsError::NegativeInterval));
    assert_eq!(interval_setting(None), Err(SettingsError::Missing(SettingKey::RunIntervalSec)));
}

fn raw() -> RawSettings {
    RawSettings {
        repository_directory: Some("r".to_string()),
        commit_file: Some("c".to_string()),
        tmp_directory: Some("t".to_string()),
        result_directory: Some("o".to_string()),
        samples_directory: Some("s".to_string()),
        pre_run_command: Some("true".to_string()),
        command: Some("make".to_string()),
        run_interval_sec: Some(5),
    }
}

#[test]
fn raw_settings_first_problem_named() {
    let mut r = raw();
    r.samples_directory = None;
    r.command = None;
    r.run_interval_sec = Some(-1);
    assert_eq!(
        Settings::from_raw(r).err(),
        Some(SettingsError::Missing(SettingKey::SamplesDirectory))
    );
    let mut r = raw();
    r.run_interval_sec = Some(-1);
    assert_eq!(Settings::from_raw(r).err(), Some(SettingsError::NegativeInterval));
    let s = Settings::from_raw(raw()).ok().unwrap();
    assert_eq!(s.command, "make");
    assert_eq!(s.run_interval_sec, 5);
}

#[test]
fn deeply_nested_text_refused() {
    let deep = format!("{}x\n", "- ".repeat(100_000));
    assert!(!nesting_within_bound(&deep));
    assert_eq!(Settings::parse(&deep).err(), Some(SettingsError::TooDeep));
    let brackets = "[".repeat(MAX_NESTING_MARKS + 1);
    assert_eq!(Settings::parse(&brackets).err(), Some(SettingsError::TooDeep));
}

#[test]
fn nesting_marks_counted_exactly() {
    let at_bound = ":".repeat(MAX_NESTING_MARKS);
    assert!(nesting_within_bound(&at_bound));
    let over = ":".repeat(MAX_NESTING_MARKS + 1);
    assert!(!nesting_within_bound(&over));
    let dashes_in_words = "--enable-gpl ".repeat(MAX_NESTING_MARKS);
    assert!(nesting_within_bound(&dashes_in_words));
    assert!(nesting_within_bound(FULL));
}
