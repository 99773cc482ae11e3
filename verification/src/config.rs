//! The settings as jj's config gives them: the `x.jj-work` table of the TOML
//! that `jj config list` prints, over the defaults.

use vstd::prelude::*;

use crate::settings::{deserialize_paths, entries_paths, format_paths, value_paths, PathOrPaths, PathsFormat, Settings};
use crate::text::{decimal, int_decimal};

verus! {

#[verifier::external_type_specification]
#[verifier::external_body]
pub struct ExTomlError(toml::de::Error);

#[verifier::external_type_specification]
#[verifier::external_body]
pub struct ExTomlValue(toml::Value);

/// A TOML value, as the settings read it. A float is held as the text that
/// Rust's `Display` gives it, and a date-time as its TOML text.
#[derive(Debug)]
pub enum TomlValue {
    Text(String),
    Integer(i64),
    Float(String),
    Boolean(bool),
    Datetime(String),
    Array(Vec<TomlValue>),
    Table(Vec<(String, TomlValue)>),
}

/// The top-level table of the TOML document `text`, where it is one.
pub uninterp spec fn toml_document(text: Seq<char>) -> Option<TomlValue>;

/// Converts a value of the `toml` crate into a `TomlValue`, one for one.
#[verifier::external_body]
fn from_toml(v: toml::Value) -> TomlValue {
    match v {
        toml::Value::String(s) => TomlValue::Text(s),
        toml::Value::Integer(i) => TomlValue::Integer(i),
        toml::Value::Float(f) => TomlValue::Float(f.to_string()),
        toml::Value::Boolean(b) => TomlValue::Boolean(b),
        toml::Value::Datetime(d) => TomlValue::Datetime(d.to_string()),
        toml::Value::Array(a) => TomlValue::Array(a.into_iter().map(from_toml).collect()),
        toml::Value::Table(t) => TomlValue::Table(t.into_iter().map(|(k, x)| (k, from_toml(x))).collect()),
    }
}

/// The entries have distinct keys.
pub open spec fn keys_distinct(es: Seq<(String, TomlValue)>) -> bool {
    forall|i: int, j: int| 0 <= i < j < es.len() ==> #[trigger] es[i].0@ != #[trigger] es[j].0@
}

/// Every table in `v`, at any depth, has distinct keys.
pub open spec fn tables_distinct(v: TomlValue) -> bool
    decreases v,
{
    match v {
        TomlValue::Table(es) => keys_distinct(es@) && forall|i: int|
            0 <= i < es.len() ==> tables_distinct(#[trigger] es@[i].1),
        TomlValue::Array(vs) => forall|i: int|
            0 <= i < vs.len() ==> tables_distinct(#[trigger] vs@[i]),
        _ => true,
    }
}

/// Calls `toml::from_str::<toml::Table>`, which parses a TOML document. Its
/// result is taken as the name `toml_document` of the text, and is a table;
/// a document that does not parse gives the crate's error. The crate's
/// tables are maps, so their keys are distinct. An empty text is a valid
/// document with no keys: an empty table.
#[verifier::external_body]
pub(crate) fn parse_toml_document(text: &str) -> (r: Result<TomlValue, toml::de::Error>)
    ensures
        r is Ok <==> toml_document(text@) is Some,
        r matches Ok(v) ==> toml_document(text@) == Some(v) && v is Table,
        r matches Ok(v) ==> tables_distinct(v),
        text@.len() == 0 ==> r is Ok,
        r matches Ok(v) ==> (text@.len() == 0 ==> (v matches TomlValue::Table(es) && es@.len() == 0)),
{
    match toml::from_str::<toml::Table>(text) {
        Ok(t) => Ok(from_toml(toml::Value::Table(t))),
        Err(e) => Err(e),
    }
}

/// Errors in reading the settings.
#[derive(Debug)]
pub enum SettingsError {
    /// The output of `jj config list` is not a TOML document.
    Toml(toml::de::Error),
    /// `x.jj-work` is there but is not a table.
    NotATable,
    /// The table holds a key that is not a setting.
    UnknownField(String),
    /// `paths_to_symlink` is neither a list of paths nor a table of paths
    /// and lists of paths.
    PathsMismatch,
    /// The value of this setting (`vault_dir` or `command`) has the wrong
    /// shape.
    InvalidValue(String),
}

impl SettingsError {
    /// The message that reports this error; `None` for a TOML error, which
    /// the `toml` crate words.
    pub fn message(&self) -> (r: Option<String>)
        ensures
            match *self {
                SettingsError::Toml(_) => r is None,
                SettingsError::NotATable => r matches Some(m) && m@
                    == "Configuration error: top level is not a struct"@,
                SettingsError::UnknownField(k) => r matches Some(m) && m@
                    == "Configuration error: unknown field `"@ + k@
                    + "`, expected one of `vault_dir`, `paths_to_symlink`, `command`"@,
                SettingsError::PathsMismatch => r matches Some(m) && m@
                    == "Configuration error: data did not match any variant of untagged enum PathsFormat for key `paths_to_symlink`"@,
                SettingsError::InvalidValue(k) => r matches Some(m) && m@
                    == "Configuration error: invalid type for key `"@ + k@ + "`"@,
            },
    {
        match self {
            SettingsError::Toml(_) => None,
            SettingsError::NotATable => Some(
                String::from_str("Configuration error: top level is not a struct"),
            ),
            SettingsError::UnknownField(k) => Some(
                String::from_str("Configuration error: unknown field `").concat(k.as_str()).concat(
                    "`, expected one of `vault_dir`, `paths_to_symlink`, `command`",
                ),
            ),
            SettingsError::PathsMismatch => Some(
                String::from_str(
                    "Configuration error: data did not match any variant of untagged enum PathsFormat for key `paths_to_symlink`",
                ),
            ),
            SettingsError::InvalidValue(k) => Some(
                String::from_str("Configuration error: invalid type for key `").concat(
                    k.as_str(),
                ).concat("`"),
            ),
        }
    }
}

/// The value under `key` in `entries`, the first where there are several.
pub open spec fn lookup(entries: Seq<(String, TomlValue)>, key: Seq<char>) -> Option<TomlValue>
    decreases entries.len(),
{
    if entries.len() == 0 {
        None
    } else if entries[0].0@ == key {
        Some(entries[0].1)
    } else {
        lookup(entries.drop_first(), key)
    }
}

/// The value under `key` in the table `v`; `None` where `v` is not a table.
pub open spec fn table_get(v: TomlValue, key: Seq<char>) -> Option<TomlValue> {
    match v {
        TomlValue::Table(es) => lookup(es@, key),
        _ => None,
    }
}

/// The entries of the `x.jj-work` table of the document `doc`: none where
/// there is no such table, and `None` where `x.jj-work` is not a table.
pub open spec fn jj_work_entries(doc: TomlValue) -> Option<Seq<(String, TomlValue)>> {
    match table_get(doc, "x"@) {
        Some(x) => match table_get(x, "jj-work"@) {
            None => Some(Seq::empty()),
            Some(TomlValue::Table(es)) => Some(es@),
            Some(_) => None,
        },
        None => Some(Seq::empty()),
    }
}

/// The keys that are settings.
pub open spec fn is_settings_key(k: Seq<char>) -> bool {
    k == "vault_dir"@ || k == "paths_to_symlink"@ || k == "command"@
}

/// The text of a value that stands for text: a string, or a number or a
/// boolean written out.
pub open spec fn scalar_text(v: TomlValue) -> Option<Seq<char>> {
    match v {
        TomlValue::Text(s) => Some(s@),
        TomlValue::Integer(i) => Some(int_decimal(i as int)),
        TomlValue::Float(t) => Some(t@),
        TomlValue::Boolean(b) => Some(if b { "true"@ } else { "false"@ }),
        _ => None,
    }
}

/// The strings of `vs`, where all of them are strings.
pub open spec fn texts(vs: Seq<TomlValue>) -> Option<Seq<Seq<char>>> {
    if forall|i: int| 0 <= i < vs.len() ==> #[trigger] vs[i] is Text {
        Some(Seq::new(vs.len(), |i: int| vs[i]->Text_0@))
    } else {
        None
    }
}

/// The texts of `vs`, where all of them stand for text.
pub open spec fn scalar_texts(vs: Seq<TomlValue>) -> Option<Seq<Seq<char>>> {
    if forall|i: int| 0 <= i < vs.len() ==> #[trigger] scalar_text(vs[i]) is Some {
        Some(Seq::new(vs.len(), |i: int| scalar_text(vs[i])->0))
    } else {
        None
    }
}

/// The paths of one value of a table of paths: a string, or an array of
/// strings.
pub open spec fn value_paths_of(v: TomlValue) -> Option<Seq<Seq<char>>> {
    match v {
        TomlValue::Text(s) => Some(seq![s@]),
        TomlValue::Array(vs) => texts(vs@),
        _ => None,
    }
}

/// The paths of a table of paths, value after value.
pub open spec fn table_paths(es: Seq<(String, TomlValue)>) -> Seq<Seq<char>>
    decreases es.len(),
{
    if es.len() == 0 {
        Seq::empty()
    } else {
        table_paths(es.drop_last()) + value_paths_of(es.last().1)->0
    }
}

/// The paths that `paths_to_symlink` stands for: an array of strings, or a
/// table whose values are strings or arrays of strings.
pub open spec fn symlink_paths(v: TomlValue) -> Option<Seq<Seq<char>>> {
    match v {
        TomlValue::Array(vs) => texts(vs@),
        TomlValue::Table(es) => if forall|i: int|
            0 <= i < es.len() ==> #[trigger] value_paths_of(es@[i].1) is Some {
            Some(table_paths(es@))
        } else {
            None
        },
        _ => None,
    }
}

/// The commands that `command` stands for: a table whose values are arrays
/// of values that stand for text.
pub open spec fn commands(v: TomlValue) -> Option<Seq<(Seq<char>, Seq<Seq<char>>)>> {
    match v {
        TomlValue::Table(es) => if forall|i: int|
            0 <= i < es.len() ==> (#[trigger] es@[i].1 matches TomlValue::Array(vs) && scalar_texts(
                vs@,
            ) is Some) {
            Some(
                Seq::new(
                    es.len() as nat,
                    |i: int| (es@[i].0@, scalar_texts(es@[i].1->Array_0@)->0),
                ),
            )
        } else {
            None
        },
        _ => None,
    }
}

/// The vault dir the table gives, over the default `.jj/jj-work`.
pub open spec fn vault_setting(es: Seq<(String, TomlValue)>) -> Option<Seq<char>> {
    match lookup(es, "vault_dir"@) {
        Some(v) => scalar_text(v),
        None => Some(".jj/jj-work"@),
    }
}

/// The paths to link that the table gives, over the default of none.
pub open spec fn paths_setting(es: Seq<(String, TomlValue)>) -> Option<Seq<Seq<char>>> {
    match lookup(es, "paths_to_symlink"@) {
        Some(v) => symlink_paths(v),
        None => Some(Seq::empty()),
    }
}

/// The commands that the table gives, over the default of none.
pub open spec fn command_setting(es: Seq<(String, TomlValue)>) -> Option<
    Seq<(Seq<char>, Seq<Seq<char>>)>,
> {
    match lookup(es, "command"@) {
        Some(v) => commands(v),
        None => Some(Seq::empty()),
    }
}

/// The settings of the document `doc`: the `x.jj-work` table over the
/// defaults, where it holds only settings, each of the right shape. `None`
/// otherwise.
pub open spec fn settings_spec(doc: TomlValue) -> Option<(Seq<char>, Seq<Seq<char>>, Seq<(Seq<char>, Seq<Seq<char>>)>)> {
    match jj_work_entries(doc) {
        None => None,
        Some(es) => if forall|i: int| 0 <= i < es.len() ==> is_settings_key(#[trigger] es[i].0@) {
            match (vault_setting(es), paths_setting(es), command_setting(es)) {
                (Some(a), Some(b), Some(c)) => Some((a, b, c)),
                _ => None,
            }
        } else {
            None
        },
    }
}

/// `e` reports a real fault of the document `doc`.
pub open spec fn settings_fault(doc: TomlValue, e: SettingsError) -> bool {
    match e {
        SettingsError::Toml(_) => false,
        SettingsError::NotATable => jj_work_entries(doc) is None,
        SettingsError::UnknownField(k) => jj_work_entries(doc) matches Some(es) && !is_settings_key(
            k@,
        ) && lookup(es, k@) is Some,
        SettingsError::PathsMismatch => jj_work_entries(doc) matches Some(es) && paths_setting(es) is None,
        SettingsError::InvalidValue(k) => jj_work_entries(doc) matches Some(es) && (
        (k@ == "vault_dir"@ && vault_setting(es) is None) || (k@ == "command"@ && command_setting(
            es,
        ) is None)),
    }
}

/// The value under `key` in `es`.
fn lookup_in<'a>(es: &'a Vec<(String, TomlValue)>, key: &str) -> (r: Option<&'a TomlValue>)
    ensures
        r matches Some(v) ==> lookup(es@, key@) == Some(*v),
        r is None ==> lookup(es@, key@) is None,
{
    let k = String::from_str(key);
    let mut i: usize = 0;
    assert(es@.skip(0) =~= es@);
    while i < es.len()
        invariant
            i <= es.len(),
            k@ == key@,
            lookup(es@, key@) == lookup(es@.skip(i as int), key@),
        decreases es.len() - i,
    {
        assert(es@.skip(i as int)[0] == es@[i as int]);
        if es[i].0 == k {
            return Some(&es[i].1);
        }
        assert(es@.skip(i as int).drop_first() =~= es@.skip(i + 1));
        i = i + 1;
    }
    None
}

/// The text that `v` stands for, where it stands for text.
fn scalar_text_of(v: &TomlValue) -> (r: Option<String>)
    ensures
        r matches Some(t) ==> scalar_text(*v) == Some(t@),
        r is None ==> scalar_text(*v) is None,
{
    match v {
        TomlValue::Text(s) => Some(s.clone()),
        TomlValue::Integer(i) => Some(decimal(*i)),
        TomlValue::Float(t) => Some(t.clone()),
        TomlValue::Boolean(b) => Some(if *b { String::from_str("true") } else { String::from_str("false") }),
        _ => None,
    }
}

/// The strings of `vs`, where all of them are strings.
fn texts_of(vs: &Vec<TomlValue>) -> (r: Option<Vec<String>>)
    ensures
        r matches Some(out) ==> texts(vs@) == Some(out.deep_view()),
        r is None ==> texts(vs@) is None,
{
    let mut out: Vec<String> = Vec::new();
    let mut i: usize = 0;
    while i < vs.len()
        invariant
            i <= vs.len(),
            out.len() == i,
            forall|k: int| 0 <= k < i ==> #[trigger] vs@[k] is Text && out@[k]@ == vs@[k]->Text_0@,
        decreases vs.len() - i,
    {
        match &vs[i] {
            TomlValue::Text(t) => {
                out.push(t.clone());
            },
            _ => {
                assert(!(vs@[i as int] is Text));
                return None;
            },
        }
        i = i + 1;
    }
    assert(out.deep_view() =~= Seq::new(vs@.len(), |k: int| vs@[k]->Text_0@));
    Some(out)
}

/// The texts of `vs`, where all of them stand for text.
fn scalar_texts_of(vs: &Vec<TomlValue>) -> (r: Option<Vec<String>>)
    ensures
        r matches Some(out) ==> scalar_texts(vs@) == Some(out.deep_view()),
        r is None ==> scalar_texts(vs@) is None,
{
    let mut out: Vec<String> = Vec::new();
    let mut i: usize = 0;
    while i < vs.len()
        invariant
            i <= vs.len(),
            out.len() == i,
            forall|k: int|
                0 <= k < i ==> #[trigger] scalar_text(vs@[k]) is Some && out@[k]@ == scalar_text(
                    vs@[k],
                )->0,
        decreases vs.len() - i,
    {
        match scalar_text_of(&vs[i]) {
            Some(t) => {
                out.push(t);
            },
            None => {
                return None;
            },
        }
        i = i + 1;
    }
    assert(out.deep_view() =~= Seq::new(vs@.len(), |k: int| scalar_text(vs@[k])->0));
    Some(out)
}

/// One value of a table of paths, as `deserialize_paths` takes it.
fn path_value_of(v: &TomlValue) -> (r: Option<PathOrPaths>)
    ensures
        r matches Some(p) ==> value_paths_of(*v) == Some(value_paths(p)),
        r is None ==> value_paths_of(*v) is None,
{
    match v {
        TomlValue::Text(s) => Some(PathOrPaths::Single(s.clone())),
        TomlValue::Array(vs) => match texts_of(vs) {
            Some(out) => Some(PathOrPaths::Multiple(out)),
            None => None,
        },
        _ => None,
    }
}

/// `paths_to_symlink`, as `deserialize_paths` takes it.
fn paths_format_of(v: &TomlValue) -> (r: Option<PathsFormat>)
    ensures
        r matches Some(f) ==> symlink_paths(*v) == Some(format_paths(f)),
        r is None ==> symlink_paths(*v) is None,
{
    match v {
        TomlValue::Array(vs) => match texts_of(vs) {
            Some(out) => Some(PathsFormat::Vector(out)),
            None => None,
        },
        TomlValue::Table(es) => {
            let mut m: Vec<(String, PathOrPaths)> = Vec::new();
            let mut i: usize = 0;
            assert(entries_paths(m@) =~= table_paths(es@.take(0)));
            while i < es.len()
                invariant
                    *v == TomlValue::Table(*es),
                    i <= es.len(),
                    forall|k: int| 0 <= k < i ==> #[trigger] value_paths_of(es@[k].1) is Some,
                    entries_paths(m@) == table_paths(es@.take(i as int)),
                decreases es.len() - i,
            {
                match path_value_of(&es[i].1) {
                    Some(p) => {
                        let ghost prev = m@;
                        let ghost pv = p;
                        m.push((es[i].0.clone(), p));
                        assert(m@.drop_last() =~= prev);
                        assert(es@.take(i + 1).drop_last() =~= es@.take(i as int));
                        assert(es@.take(i + 1).last() == es@[i as int]);
                        assert(m@.last().1 == pv);
                    },
                    None => {
                        assert(!(value_paths_of(es@[i as int].1) is Some));
                        return None;
                    },
                }
                i = i + 1;
            }
            assert(es@.take(es.len() as int) =~= es@);
            Some(PathsFormat::Mapping(m))
        },
        _ => None,
    }
}

/// The commands that `v` stands for.
fn commands_of(v: &TomlValue) -> (r: Option<Vec<(String, Vec<String>)>>)
    ensures
        r matches Some(c) ==> commands(*v) == Some(c.deep_view()),
        r is None ==> commands(*v) is None,
{
    match v {
        TomlValue::Table(es) => {
            let mut out: Vec<(String, Vec<String>)> = Vec::new();
            let mut i: usize = 0;
            while i < es.len()
                invariant
                    *v == TomlValue::Table(*es),
                    i <= es.len(),
                    out.len() == i,
                    forall|k: int|
                        0 <= k < i ==> (#[trigger] es@[k].1 matches TomlValue::Array(vs)
                            && scalar_texts(vs@) is Some),
                    forall|k: int|
                        0 <= k < i ==> #[trigger] out@[k].0@ == es@[k].0@ && out@[k].1.deep_view()
                            == scalar_texts(es@[k].1->Array_0@)->0,
                decreases es.len() - i,
            {
                match &es[i].1 {
                    TomlValue::Array(vs) => match scalar_texts_of(vs) {
                        Some(words) => {
                            let ghost w = words.deep_view();
                            assert(es@[i as int].1 == TomlValue::Array(*vs));
                            assert(w == scalar_texts(es@[i as int].1->Array_0@)->0);
                            let key = es[i].0.clone();
                            assert(key@ == es@[i as int].0@);
                            out.push((key, words));

                        },
                        None => {
                            assert(!(es@[i as int].1 matches TomlValue::Array(ws) && scalar_texts(
                                ws@,
                            ) is Some));
                            return None;
                        },
                    },
                    _ => {
                        assert(!(es@[i as int].1 matches TomlValue::Array(ws) && scalar_texts(
                            ws@,
                        ) is Some));
                        return None;
                    },
                }
                i = i + 1;
            }
            assert(out.deep_view() =~= Seq::new(
                es.len() as nat,
                |k: int| (es@[k].0@, scalar_texts(es@[k].1->Array_0@)->0),
            ));
            Some(out)
        },
        _ => None,
    }
}

impl Settings {
    /// The settings as a triple of plain values: the vault dir, the paths to
    /// link, and the commands.
    pub open spec fn spec_view(&self) -> (Seq<char>, Seq<Seq<char>>, Seq<(Seq<char>, Seq<Seq<char>>)>) {
        (self.vault_dir@, self.paths_to_symlink.deep_view(), self.command.deep_view())
    }

    /// The settings that `config_text`, the TOML that `jj config list` prints
    /// for `x.jj-work`, gives, as `settings_from_document` reads them from
    /// the parsed document. Configuring `jj-work` is optional: an empty text
    /// (no `x.jj-work` keys) gives the defaults.
    pub fn new(config_text: &str) -> (r: Result<Settings, SettingsError>)
        ensures
            match r {
                Ok(s) => toml_document(config_text@) matches Some(doc) && settings_spec(doc) == Some(
                    s.spec_view(),
                ) && s.commands_distinct(),
                Err(SettingsError::Toml(_)) => toml_document(config_text@) is None,
                Err(e) => toml_document(config_text@) matches Some(doc) && settings_spec(doc) is None
                    && settings_fault(doc, e),
            },
            config_text@.len() == 0 ==> (r matches Ok(s) && s.spec_view() == (
                ".jj/jj-work"@,
                Seq::<Seq<char>>::empty(),
                Seq::<(Seq<char>, Seq<Seq<char>>)>::empty(),
            )),
    {
        let doc = match parse_toml_document(config_text) {
            Ok(d) => d,
            Err(e) => {
                return Err(SettingsError::Toml(e));
            },
        };
        proof {
            if config_text@.len() == 0 {
                assert(jj_work_entries(doc) == Some(Seq::<(String, TomlValue)>::empty()));
                lemma_settings_defaults(doc, Seq::empty());
            }
        }
        settings_from_document(&doc)
    }

    /// The command names are distinct.
    pub open spec fn commands_distinct(&self) -> bool {
        forall|i: int, j: int|
            0 <= i < j < self.command.len() ==> #[trigger] self.command@[i].0@ != #[trigger] self.command@[j].0@
    }
}

/// The settings of a parsed TOML document: its `x.jj-work` table over the
/// defaults (the vault `.jj/jj-work`, no paths to link, no commands). Keys
/// that are not settings are refused, and `paths_to_symlink` may be a list or
/// a table of paths and lists, flattened by `deserialize_paths`. Where the
/// tables of the document have distinct keys, as a parsed one does, so do the
/// commands.
pub fn settings_from_document(doc: &TomlValue) -> (r: Result<Settings, SettingsError>)
    ensures
        match r {
            Ok(s) => settings_spec(*doc) == Some(s.spec_view()),
            Err(SettingsError::Toml(_)) => false,
            Err(e) => settings_spec(*doc) is None && settings_fault(*doc, e),
        },
        tables_distinct(*doc) ==> (r matches Ok(s) ==> s.commands_distinct()),
        r matches Ok(s) ==> (jj_work_entries(*doc) matches Some(es) ==> ((forall|j: int|
            0 <= j < es.len() ==> #[trigger] es[j].0@ != "vault_dir"@) ==> s.vault_dir@
            == ".jj/jj-work"@)),
{
    let empty: Vec<(String, TomlValue)> = Vec::new();
    let es: &Vec<(String, TomlValue)> = match doc {
        TomlValue::Table(top) => match lookup_in(top, "x") {
            Some(TomlValue::Table(xs)) => match lookup_in(xs, "jj-work") {
                None => &empty,
                Some(TomlValue::Table(t)) => {
                    proof {
                        if tables_distinct(*doc) {
                            lemma_lookup_distinct(top@, "x"@);
                            lemma_lookup_distinct(xs@, "jj-work"@);
                        }
                    }
                    t
                },
                Some(_) => {
                    return Err(SettingsError::NotATable);
                },
            },
            _ => &empty,
        },
        _ => &empty,
    };
    assert(jj_work_entries(*doc) == Some(es@));
    assert(tables_distinct(*doc) ==> tables_distinct(TomlValue::Table(*es)));
    let mut i: usize = 0;
    while i < es.len()
        invariant
            jj_work_entries(*doc) == Some(es@),
            i <= es.len(),
            forall|k: int| 0 <= k < i ==> is_settings_key(#[trigger] es@[k].0@),
        decreases es.len() - i,
    {
        let key = &es[i].0;
        let known = *key == String::from_str("vault_dir") || *key == String::from_str(
            "paths_to_symlink",
        ) || *key == String::from_str("command");
        if !known {
            proof {
                lemma_lookup_finds(es@, i as int);
                assert(!is_settings_key(es@[i as int].0@));
            }
            return Err(SettingsError::UnknownField(key.clone()));
        }
        i = i + 1;
    }
    proof {
        if forall|j: int| 0 <= j < es@.len() ==> #[trigger] es@[j].0@ != "vault_dir"@ {
            lemma_lookup_absent(es@, "vault_dir"@);
        }
    }
    let vault_dir = match lookup_in(es, "vault_dir") {
        Some(v) => match scalar_text_of(v) {
            Some(t) => t,
            None => {
                return Err(SettingsError::InvalidValue(String::from_str("vault_dir")));
            },
        },
        None => String::from_str(".jj/jj-work"),
    };
    let paths_to_symlink = match lookup_in(es, "paths_to_symlink") {
        Some(v) => match paths_format_of(v) {
            Some(f) => deserialize_paths(f),
            None => {
                return Err(SettingsError::PathsMismatch);
            },
        },
        None => Vec::new(),
    };
    let command = match lookup_in(es, "command") {
        Some(v) => {
            proof {
                if tables_distinct(*doc) {
                    lemma_lookup_distinct(es@, "command"@);
                }
            }
            match commands_of(v) {
                Some(c) => c,
                None => {
                    return Err(SettingsError::InvalidValue(String::from_str("command")));
                },
            }
        },
        None => Vec::new(),
    };
    let s = Settings { vault_dir, paths_to_symlink, command };
    assert(s.paths_to_symlink.deep_view() =~= paths_setting(es@)->0);
    assert(s.command.deep_view() =~= command_setting(es@)->0);
    proof {
        if tables_distinct(*doc) {
            if let Some(cv) = lookup(es@, "command"@) {
                assert(tables_distinct(cv));
                assert forall|a: int, b: int|
                    0 <= a < b < s.command.len() implies #[trigger] s.command@[a].0@
                    != #[trigger] s.command@[b].0@ by {
                    assert(s.command.deep_view()[a].0 == s.command@[a].0@);
                    assert(s.command.deep_view()[b].0 == s.command@[b].0@);
                }
            }
        }
    }
    Ok(s)
}

/// Configuring `jj-work` is optional: where there is no `x.jj-work` table
/// (or an empty one), the defaults stand: the vault `.jj/jj-work`, no paths
/// to link, no commands. A table that holds a key that is not a setting
/// gives no settings.
pub proof fn lemma_settings_defaults(doc: TomlValue, es: Seq<(String, TomlValue)>)
    requires
        jj_work_entries(doc) == Some(es),
    ensures
        es.len() == 0 ==> settings_spec(doc) == Some(
            (".jj/jj-work"@, Seq::<Seq<char>>::empty(), Seq::<(Seq<char>, Seq<Seq<char>>)>::empty()),
        ),
        (exists|i: int| 0 <= i < es.len() && !is_settings_key(#[trigger] es[i].0@)) ==> settings_spec(
            doc,
        ) is None,
{
}

/// Where the `x.jj-work` table has no `vault_dir` key, the vault is
/// `.jj/jj-work`, whatever other settings the table holds.
pub proof fn lemma_vault_defaults(doc: TomlValue, es: Seq<(String, TomlValue)>)
    requires
        jj_work_entries(doc) == Some(es),
        forall|j: int| 0 <= j < es.len() ==> #[trigger] es[j].0@ != "vault_dir"@,
        settings_spec(doc) is Some,
    ensures
        (settings_spec(doc)->0).0 == ".jj/jj-work"@,
{
    lemma_lookup_absent(es, "vault_dir"@);
}

/// A `vault_dir` given as a string is the vault.
pub proof fn lemma_vault_given(doc: TomlValue, es: Seq<(String, TomlValue)>, i: int)
    requires
        jj_work_entries(doc) == Some(es),
        0 <= i < es.len(),
        es[i].0@ == "vault_dir"@,
        es[i].1 is Text,
        forall|j: int| 0 <= j < i ==> #[trigger] es[j].0@ != "vault_dir"@,
        settings_spec(doc) is Some,
    ensures
        (settings_spec(doc)->0).0 == es[i].1->Text_0@,
{
    lemma_lookup_first(es, "vault_dir"@, i);
}

/// Without a `paths_to_symlink` key there are no paths to link; without a
/// `command` key, no commands.
pub proof fn lemma_absent_lists_are_empty(doc: TomlValue, es: Seq<(String, TomlValue)>)
    requires
        jj_work_entries(doc) == Some(es),
        settings_spec(doc) is Some,
    ensures
        (forall|j: int| 0 <= j < es.len() ==> #[trigger] es[j].0@ != "paths_to_symlink"@)
            ==> (settings_spec(doc)->0).1.len() == 0,
        (forall|j: int| 0 <= j < es.len() ==> #[trigger] es[j].0@ != "command"@)
            ==> (settings_spec(doc)->0).2.len() == 0,
{
    if forall|j: int| 0 <= j < es.len() ==> #[trigger] es[j].0@ != "paths_to_symlink"@ {
        lemma_lookup_absent(es, "paths_to_symlink"@);
    }
    if forall|j: int| 0 <= j < es.len() ==> #[trigger] es[j].0@ != "command"@ {
        lemma_lookup_absent(es, "command"@);
    }
}

/// `paths_to_symlink` given as a list of strings stands for exactly those
/// paths: as many, each kept, in the order given.
pub proof fn lemma_path_list_kept(doc: TomlValue, es: Seq<(String, TomlValue)>, i: int)
    requires
        jj_work_entries(doc) == Some(es),
        0 <= i < es.len(),
        es[i].0@ == "paths_to_symlink"@,
        forall|j: int| 0 <= j < i ==> #[trigger] es[j].0@ != "paths_to_symlink"@,
        es[i].1 is Array,
        forall|j: int| 0 <= j < es[i].1->Array_0.len() ==> #[trigger] es[i].1->Array_0@[j] is Text,
        settings_spec(doc) is Some,
    ensures
        (settings_spec(doc)->0).1.len() == es[i].1->Array_0.len(),
        forall|j: int|
            0 <= j < es[i].1->Array_0.len() ==> #[trigger] (settings_spec(doc)->0).1[j]
                == es[i].1->Array_0@[j]->Text_0@,
{
    lemma_lookup_first(es, "paths_to_symlink"@, i);
}

/// `command` given as a table of lists of strings stands for exactly those
/// commands: one per entry, in order, each under its key with its words
/// kept in order.
pub proof fn lemma_commands_kept(doc: TomlValue, es: Seq<(String, TomlValue)>, i: int)
    requires
        jj_work_entries(doc) == Some(es),
        0 <= i < es.len(),
        es[i].0@ == "command"@,
        forall|j: int| 0 <= j < i ==> #[trigger] es[j].0@ != "command"@,
        es[i].1 is Table,
        forall|c: int|
            0 <= c < es[i].1->Table_0.len() ==> (#[trigger] es[i].1->Table_0@[c]).1 is Array,
        forall|c: int, w: int|
            0 <= c < es[i].1->Table_0.len() && 0 <= w < es[i].1->Table_0@[c].1->Array_0.len()
                ==> #[trigger] es[i].1->Table_0@[c].1->Array_0@[w] is Text,
        settings_spec(doc) is Some,
    ensures
        (settings_spec(doc)->0).2.len() == es[i].1->Table_0.len(),
        forall|c: int|
            0 <= c < es[i].1->Table_0.len() ==> {
                let cmd = #[trigger] (settings_spec(doc)->0).2[c];
                let entry = es[i].1->Table_0@[c];
                &&& cmd.0 == entry.0@
                &&& cmd.1.len() == entry.1->Array_0.len()
                &&& forall|w: int|
                    0 <= w < cmd.1.len() ==> #[trigger] cmd.1[w] == entry.1->Array_0@[w]->Text_0@
            },
{
    lemma_lookup_first(es, "command"@, i);
    let table = es[i].1->Table_0;
    assert forall|c: int| 0 <= c < table.len() implies {
        let cmd = #[trigger] (settings_spec(doc)->0).2[c];
        let entry = table@[c];
        &&& cmd.0 == entry.0@
        &&& cmd.1.len() == entry.1->Array_0.len()
        &&& forall|w: int|
            0 <= w < cmd.1.len() ==> #[trigger] cmd.1[w] == entry.1->Array_0@[w]->Text_0@
    } by {
        let vs = table@[c].1->Array_0;
        assert forall|w: int| 0 <= w < vs.len() implies #[trigger] scalar_text(vs@[w]) == Some(
            vs@[w]->Text_0@,
        ) by {
            assert(table@[c].1->Array_0@[w] is Text);
        }
    }
}

/// Nothing is found under a key that no entry has.
proof fn lemma_lookup_absent(es: Seq<(String, TomlValue)>, k: Seq<char>)
    requires
        forall|j: int| 0 <= j < es.len() ==> #[trigger] es[j].0@ != k,
    ensures
        lookup(es, k) is None,
    decreases es.len(),
{
    if es.len() > 0 {
        assert forall|j: int| 0 <= j < es.drop_first().len() implies #[trigger] es.drop_first()[j].0@
            != k by {
            assert(es.drop_first()[j] == es[j + 1]);
        }
        lemma_lookup_absent(es.drop_first(), k);
    }
}

/// Looking a key up finds the value of its first entry.
proof fn lemma_lookup_first(es: Seq<(String, TomlValue)>, k: Seq<char>, i: int)
    requires
        0 <= i < es.len(),
        es[i].0@ == k,
        forall|j: int| 0 <= j < i ==> #[trigger] es[j].0@ != k,
    ensures
        lookup(es, k) == Some(es[i].1),
    decreases i,
{
    if i > 0 {
        assert(es[0].0@ != k);
        assert forall|j: int| 0 <= j < i - 1 implies #[trigger] es.drop_first()[j].0@ != k by {
            assert(es.drop_first()[j] == es[j + 1]);
        }
        lemma_lookup_first(es.drop_first(), k, i - 1);
    }
}

/// A value found in a table whose values have distinct keys throughout has
/// distinct keys throughout.
proof fn lemma_lookup_distinct(es: Seq<(String, TomlValue)>, k: Seq<char>)
    requires
        forall|i: int| 0 <= i < es.len() ==> tables_distinct(#[trigger] es[i].1),
    ensures
        lookup(es, k) matches Some(v) ==> tables_distinct(v),
    decreases es.len(),
{
    if es.len() > 0 && es[0].0@ != k {
        assert forall|i: int| 0 <= i < es.drop_first().len() implies tables_distinct(
            #[trigger] es.drop_first()[i].1,
        ) by {
            assert(es.drop_first()[i] == es[i + 1]);
        }
        lemma_lookup_distinct(es.drop_first(), k);
    }
}

/// The first entry under a key is found by looking that key up.
proof fn lemma_lookup_finds(es: Seq<(String, TomlValue)>, i: int)
    requires
        0 <= i < es.len(),
    ensures
        lookup(es, es[i].0@) is Some,
    decreases i,
{
    if i > 0 && es[0].0@ != es[i].0@ {
        lemma_lookup_finds(es.drop_first(), i - 1);
    }
}

} // verus!
