use jj_work::config::{settings_from_document, SettingsError, TomlValue};
use jj_work::settings::Settings;

fn s(x: &str) -> String {
    x.to_string()
}

fn assert_defaults(st: &Settings) {
    assert_eq!(st.vault_dir, ".jj/jj-work");
    assert!(st.paths_to_symlink.is_empty());
    assert!(st.command.is_empty());
}

#[test]
fn no_configuration_gives_defaults() {
    // `jj config list` prints nothing where `x.jj-work` is not configured,
    // and the caller hands over nothing where jj fails.
    assert_defaults(&Settings::new("").unwrap());
}

#[test]
fn empty_jj_work_table_gives_defaults() {
    assert_defaults(&Settings::new("x.jj-work = {}\n").unwrap());
}

#[test]
fn defaults_under_given_commands() {
    assert_defaults(&Settings::new("x.jj-work.command = {}\n").unwrap());
}

#[test]
fn given_settings_override_defaults() {
    let text = "x.jj-work.vault_dir = \"../vault\"\nx.jj-work.paths_to_symlink = [\"target\", \".vscode/settings.json\"]\nx.jj-work.command.build = [\"cargo\", \"build\"]\n";
    let st = Settings::new(text).unwrap();
    assert_eq!(st.vault_dir, "../vault");
    assert_eq!(st.paths_to_symlink, vec![s("target"), s(".vscode/settings.json")]);
    assert_eq!(st.command, vec![(s("build"), vec![s("cargo"), s("build")])]);
}

#[test]
fn only_vault_dir_given() {
    let st = Settings::new("x.jj-work.vault_dir = \"../ws\"\n").unwrap();
    assert_eq!(st.vault_dir, "../ws");
    assert!(st.paths_to_symlink.is_empty());
    assert!(st.command.is_empty());
}

#[test]
fn table_of_paths_is_flattened() {
    let text = "x.jj-work.paths_to_symlink.repo = [\"path3\", \"path4\"]\nx.jj-work.paths_to_symlink.named_path = \"path5\"\n";
    let mut paths = Settings::new(text).unwrap().paths_to_symlink;
    paths.sort();
    assert_eq!(paths, vec![s("path3"), s("path4"), s("path5")]);
}

#[test]
fn scalars_stand_for_text() {
    let st = Settings::new("x.jj-work.vault_dir = 5\nx.jj-work.command.c = [1, true, \"w\"]\n").unwrap();
    assert_eq!(st.vault_dir, "5");
    assert_eq!(st.command, vec![(s("c"), vec![s("1"), s("true"), s("w")])]);
}

#[test]
fn command_names_are_distinct() {
    let st = Settings::new("x.jj-work.command.a = [\"x\"]\nx.jj-work.command.b = [\"y\"]\n").unwrap();
    let mut names: Vec<&String> = st.command.iter().map(|(n, _)| n).collect();
    names.sort();
    assert_eq!(names, vec!["a", "b"]);
}

#[test]
fn other_tables_are_ignored() {
    let st = Settings::new("ui.color = \"never\"\nx.other = 1\n").unwrap();
    assert_defaults(&st);
}

#[test]
fn unknown_key_is_an_error() {
    match Settings::new("x.jj-work.foo = 1\n") {
        Err(e @ SettingsError::UnknownField(_)) => assert_eq!(
            e.message().unwrap(),
            "Configuration error: unknown field `foo`, expected one of `vault_dir`, `paths_to_symlink`, `command`"
        ),
        other => panic!("unexpected {:?}", other),
    }
}

#[test]
fn jj_work_that_is_no_table_is_an_error() {
    match Settings::new("x.jj-work = 5\n") {
        Err(e @ SettingsError::NotATable) => {
            assert_eq!(e.message().unwrap(), "Configuration error: top level is not a struct")
        }
        other => panic!("unexpected {:?}", other),
    }
}

#[test]
fn paths_of_the_wrong_shape_are_an_error() {
    match Settings::new("x.jj-work.paths_to_symlink = [1]\n") {
        Err(e @ SettingsError::PathsMismatch) => assert_eq!(
            e.message().unwrap(),
            "Configuration error: data did not match any variant of untagged enum PathsFormat for key `paths_to_symlink`"
        ),
        other => panic!("unexpected {:?}", other),
    }
    assert!(matches!(
        Settings::new("x.jj-work.paths_to_symlink = 3\n"),
        Err(SettingsError::PathsMismatch)
    ));
}

#[test]
fn settings_of_the_wrong_type_are_errors() {
    match Settings::new("x.jj-work.command.a = \"x\"\n") {
        Err(e @ SettingsError::InvalidValue(_)) => {
            assert_eq!(e.message().unwrap(), "Configuration error: invalid type for key `command`")
        }
        other => panic!("unexpected {:?}", other),
    }
    match Settings::new("x.jj-work.vault_dir = [\"a\"]\n") {
        Err(e @ SettingsError::InvalidValue(_)) => {
            assert_eq!(e.message().unwrap(), "Configuration error: invalid type for key `vault_dir`")
        }
        other => panic!("unexpected {:?}", other),
    }
}

#[test]
fn text_that_is_not_toml_is_an_error() {
    match Settings::new("x.jj-work = = 1") {
        Err(e @ SettingsError::Toml(_)) => assert!(e.message().is_none()),
        other => panic!("unexpected {:?}", other),
    }
}

#[test]
fn settings_of_a_parsed_document() {
    assert_defaults(&settings_from_document(&TomlValue::Table(vec![])).unwrap());
    let jj_work = TomlValue::Table(vec![
        (s("vault_dir"), TomlValue::Text(s("v"))),
        (
            s("paths_to_symlink"),
            TomlValue::Table(vec![
                (s("a"), TomlValue::Text(s("p1"))),
                (s("b"), TomlValue::Array(vec![TomlValue::Text(s("p2")), TomlValue::Text(s("p3"))])),
            ]),
        ),
        (
            s("command"),
            TomlValue::Table(vec![(s("t"), TomlValue::Array(vec![TomlValue::Integer(-7)]))]),
        ),
    ]);
    let doc = TomlValue::Table(vec![(s("x"), TomlValue::Table(vec![(s("jj-work"), jj_work)]))]);
    let st = settings_from_document(&doc).unwrap();
    assert_eq!(st.vault_dir, "v");
    assert_eq!(st.paths_to_symlink, vec![s("p1"), s("p2"), s("p3")]);
    assert_eq!(st.command, vec![(s("t"), vec![s("-7")])]);
    let bad = TomlValue::Table(vec![(
        s("x"),
        TomlValue::Table(vec![(s("jj-work"), TomlValue::Table(vec![(s("other"), TomlValue::Boolean(true))]))]),
    )]);
    assert!(matches!(settings_from_document(&bad), Err(SettingsError::UnknownField(k)) if k == "other"));
}
