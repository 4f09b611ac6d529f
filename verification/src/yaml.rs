//! YAML documents as plain values, and what a playbook file says about itself.
use crate::paths::{extension, extension_exec, file_stem, file_stem_string};
use crate::terraform_parse::InfraError;
use crate::text::{chars_eq_str, chars_of, copy_string, string_eq_str, string_of, views};
use vstd::prelude::*;

verus! {

/// A YAML value. A number is its text; a tagged value keeps its tag's text.
#[derive(Debug)]
pub enum YamlValue {
    Null,
    Bool(bool),
    Number(String),
    String(String),
    Sequence(Vec<YamlValue>),
    Mapping(Vec<(YamlValue, YamlValue)>),
    Tagged(String, Box<YamlValue>),
}

#[verifier::external_type_specification]
#[verifier::external_body]
pub struct ExYamlValue(serde_yaml::Value);

/// The value that YAML's parser gives for `content`, or `None` when it rejects it.
pub uninterp spec fn yaml_parse(content: Seq<char>) -> Option<YamlValue>;

/// The message (the `Display` text of `serde_yaml::Error`) with which YAML's parser
/// rejects `content`.
pub uninterp spec fn yaml_error_text(content: Seq<char>) -> Seq<char>;

/// Parses YAML text with `serde_yaml::from_str` into a `serde_yaml::Value` and
/// converts it, or its error to the error's `Display` text. Claimed: the outcome
/// depends on the text alone (the value is named `yaml_parse`, the message
/// `yaml_error_text`). What the value and the message hold for given text is left
/// unsaid.
#[verifier::external_body]
fn parse_yaml(content: &str) -> (r: Result<YamlValue, String>)
    ensures
        match r {
            Ok(v) => yaml_parse(content@) == Some(v),
            Err(m) => yaml_parse(content@) is None && m@ == yaml_error_text(content@),
        },
{
    match serde_yaml::from_str::<serde_yaml::Value>(content) {
        Ok(v) => Ok(yaml_from_value(&v)),
        Err(e) => Err(e.to_string()),
    }
}

/// Converts a `serde_yaml::Value`, variant by variant; numbers and tags become
/// their `Display` text.
#[verifier::external_body]
fn yaml_from_value(v: &serde_yaml::Value) -> (r: YamlValue) {
    match v {
        serde_yaml::Value::Null => YamlValue::Null,
        serde_yaml::Value::Bool(b) => YamlValue::Bool(*b),
        serde_yaml::Value::Number(n) => YamlValue::Number(n.to_string()),
        serde_yaml::Value::String(s) => YamlValue::String(s.clone()),
        serde_yaml::Value::Sequence(xs) => YamlValue::Sequence(xs.iter().map(yaml_from_value).collect()),
        serde_yaml::Value::Mapping(m) => YamlValue::Mapping(m.iter().map(|(k, x)| (yaml_from_value(k), yaml_from_value(x))).collect()),
        serde_yaml::Value::Tagged(t) => YamlValue::Tagged(t.tag.to_string(), Box::new(yaml_from_value(&t.value))),
    }
}

/// The value under its tags.
pub open spec fn untag(v: YamlValue) -> YamlValue
    decreases v,
{
    match v {
        YamlValue::Tagged(_, inner) => untag(*inner),
        _ => v,
    }
}

fn untag_ref(v: &YamlValue) -> (r: &YamlValue)
    ensures
        *r == untag(*v),
    decreases v,
{
    match v {
        YamlValue::Tagged(_, inner) => untag_ref(inner),
        _ => v,
    }
}

/// Whether a key is the string `k`.
pub open spec fn is_str_key(key: YamlValue, k: Seq<char>) -> bool {
    key matches YamlValue::String(s) && s@ == k
}

/// Whether a key is the number 0.
pub open spec fn is_zero_key(key: YamlValue) -> bool {
    key matches YamlValue::Number(n) && n@ == "0"@
}

/// Whether a key is the string `k`, or the number 0 when no string is given.
pub open spec fn key_matches(x: YamlValue, key: Option<Seq<char>>) -> bool {
    match key {
        Some(k) => is_str_key(x, k),
        None => is_zero_key(x),
    }
}

/// The position of the first entry of a mapping whose key matches.
pub open spec fn key_pos(m: Seq<(YamlValue, YamlValue)>, key: Option<Seq<char>>) -> Option<int>
    decreases m.len(),
{
    if m.len() == 0 {
        None
    } else {
        match key_pos(m.drop_last(), key) {
            Some(i) => Some(i),
            None => if key_matches(m.last().0, key) {
                Some(m.len() - 1)
            } else {
                None
            },
        }
    }
}

proof fn lemma_key_pos_stays(m: Seq<(YamlValue, YamlValue)>, key: Option<Seq<char>>, i: int, j: int)
    requires
        0 <= i <= j <= m.len(),
        key_pos(m.take(i), key) is Some,
    ensures
        key_pos(m.take(j), key) == key_pos(m.take(i), key),
    decreases j - i,
{
    if j > i {
        lemma_key_pos_stays(m, key, i, j - 1);
        assert(m.take(j).drop_last() =~= m.take(j - 1));
    }
}

/// `value[0]`: the first element of a sequence, or the value under the key 0 of a
/// mapping; `Null` otherwise.
pub open spec fn index_first(v: YamlValue) -> YamlValue {
    match untag(v) {
        YamlValue::Sequence(xs) => if xs@.len() > 0 {
            xs@[0]
        } else {
            YamlValue::Null
        },
        YamlValue::Mapping(m) => match key_pos(m@, None) {
            Some(i) => m@[i].1,
            None => YamlValue::Null,
        },
        _ => YamlValue::Null,
    }
}

/// `value[key]`: the value under the string key `key` of a mapping; `Null` otherwise.
pub open spec fn index_key(v: YamlValue, key: Seq<char>) -> YamlValue {
    match untag(v) {
        YamlValue::Mapping(m) => match key_pos(m@, Some(key)) {
            Some(i) => m@[i].1,
            None => YamlValue::Null,
        },
        _ => YamlValue::Null,
    }
}

/// The string a value is, under its tags.
pub open spec fn as_str(v: YamlValue) -> Option<Seq<char>> {
    match untag(v) {
        YamlValue::String(s) => Some(s@),
        _ => None,
    }
}

/// The strings among the elements of a sequence, in order.
pub open spec fn strings_in(xs: Seq<YamlValue>) -> Seq<Seq<char>>
    decreases xs.len(),
{
    if xs.len() == 0 {
        Seq::empty()
    } else {
        let prev = strings_in(xs.drop_last());
        match as_str(xs.last()) {
            Some(s) => prev.push(s),
            None => prev,
        }
    }
}

/// The position of the first entry whose key is the string `key` (or the number 0).
fn find_entry(m: &Vec<(YamlValue, YamlValue)>, key: Option<&str>) -> (r: Option<usize>)
    ensures
        r matches Some(i) ==> i < m@.len() && key_pos(m@, match key { Some(k) => Some(k@), None => None }) == Some(i as int),
        r is None <==> key_pos(m@, match key { Some(k) => Some(k@), None => None }) is None,
{
    let ghost kv = match key { Some(k) => Some(k@), None => None };
    let mut i: usize = 0;
    while i < m.len()
        invariant
            i <= m.len(),
            kv == match key { Some(k) => Some(k@), None => None },
            key_pos(m@.take(i as int), kv) is None,
        decreases m.len() - i,
    {
        proof {
            assert(m@.take(i + 1).drop_last() =~= m@.take(i as int));
        }
        let hit = match (&m[i].0, key) {
            (YamlValue::String(s), Some(k)) => string_eq_str(s, k),
            (YamlValue::Number(n), None) => string_eq_str(n, "0"),
            _ => false,
        };
        if hit {
            proof {
                assert(key_pos(m@.take(i + 1), kv) == Some(i as int));
                lemma_key_pos_stays(m@, kv, i + 1, m@.len() as int);
                assert(m@.take(m@.len() as int) =~= m@);
            }
            return Some(i);
        }
        i = i + 1;
    }
    assert(m@.take(m@.len() as int) =~= m@);
    None
}

/// What a playbook file says about itself.
#[derive(Debug)]
pub struct Playbook {
    pub name: String,
    pub description: String,
    pub roles: Vec<String>,
}

/// The description of a playbook: the name of its first play, or `No description`.
pub open spec fn playbook_description(doc: YamlValue) -> Seq<char> {
    match as_str(index_key(index_first(doc), "name"@)) {
        Some(s) => s,
        None => "No description"@,
    }
}

/// The roles of a playbook: the strings among the roles of its first play.
pub open spec fn playbook_roles(doc: YamlValue) -> Seq<Seq<char>> {
    match untag(index_key(index_first(doc), "roles"@)) {
        YamlValue::Sequence(xs) => strings_in(xs@),
        _ => Seq::empty(),
    }
}

/// The value under the string key `key` of a mapping.
fn get_key<'a>(v: &'a YamlValue, key: &str) -> (r: Option<&'a YamlValue>)
    ensures
        match r {
            Some(x) => *x == index_key(*v, key@),
            None => index_key(*v, key@) == YamlValue::Null,
        },
{
    match untag_ref(v) {
        YamlValue::Mapping(m) => match find_entry(m, Some(key)) {
            Some(i) => Some(&m[i].1),
            None => None,
        },
        _ => None,
    }
}

/// The first play of a document.
fn first_play(v: &YamlValue) -> (r: Option<&YamlValue>)
    ensures
        match r {
            Some(x) => *x == index_first(*v),
            None => index_first(*v) == YamlValue::Null,
        },
{
    match untag_ref(v) {
        YamlValue::Sequence(xs) => if xs.len() > 0 {
            Some(&xs[0])
        } else {
            None
        },
        YamlValue::Mapping(m) => match find_entry(m, None) {
            Some(i) => Some(&m[i].1),
            None => None,
        },
        _ => None,
    }
}

/// The description and roles of a parsed playbook.
pub fn playbook_contents(doc: &YamlValue) -> (r: (String, Vec<String>))
    ensures
        r.0@ == playbook_description(*doc),
        views(r.1@) == playbook_roles(*doc),
{
    let null = YamlValue::Null;
    let play = match first_play(doc) {
        Some(p) => p,
        None => &null,
    };
    let description = match get_key(play, "name") {
        Some(n) => match untag_ref(n) {
            YamlValue::String(s) => copy_string(s),
            _ => String::from_str("No description"),
        },
        None => String::from_str("No description"),
    };
    let roles = match get_key(play, "roles") {
        Some(rv) => match untag_ref(rv) {
            YamlValue::Sequence(xs) => {
                let mut out: Vec<String> = Vec::new();
                let mut i: usize = 0;
                while i < xs.len()
                    invariant
                        i <= xs.len(),
                        views(out@) == strings_in(xs@.take(i as int)),
                    decreases xs.len() - i,
                {
                    proof {
                        assert(xs@.take(i + 1).drop_last() =~= xs@.take(i as int));
                    }
                    match untag_ref(&xs[i]) {
                        YamlValue::String(s) => {
                            let ghost before = out@;
                            out.push(copy_string(s));
                            assert(views(out@) =~= views(before).push(s@));
                        },
                        _ => {},
                    }
                    i = i + 1;
                }
                assert(xs@.take(xs@.len() as int) =~= xs@);
                out
            },
            _ => Vec::new(),
        },
        None => Vec::new(),
    };
    proof {
        if views(roles@).len() == 0 {
            assert(views(roles@) =~= playbook_roles(*doc));
        }
    }
    (description, roles)
}

/// A playbook read from its file: named by the file's stem, described by the name of
/// its first play, with the roles of that play.
pub fn parse_playbook(content: &str, path: &str) -> (r: Result<Playbook, InfraError>)
    ensures
        match yaml_parse(content@) {
            None => r matches Err(InfraError::Playbook(m)) && m@ == yaml_error_text(content@),
            Some(doc) => match file_stem(path@) {
                None => r matches Err(InfraError::Playbook(m)) && m@ == "Invalid playbook filename"@,
                Some(stem) => r matches Ok(p) && p.name@ == stem && p.description@ == playbook_description(doc)
                    && views(p.roles@) == playbook_roles(doc),
            },
        },
{
    let doc = match parse_yaml(content) {
        Ok(d) => d,
        Err(m) => return Err(InfraError::Playbook(m)),
    };
    let name = match file_stem_string(path) {
        Some(n) => n,
        None => return Err(InfraError::Playbook(String::from_str("Invalid playbook filename"))),
    };
    let (description, roles) = playbook_contents(&doc);
    Ok(Playbook { name, description, roles })
}

/// Whether a file is a playbook: its extension is `yml` or `yaml`.
pub fn is_playbook_file(path: &str) -> (r: bool)
    ensures
        r == (extension(path@) == Some("yml"@) || extension(path@) == Some("yaml"@)),
{
    let c = chars_of(path);
    match extension_exec(c.as_slice()) {
        Some(ext) => chars_eq_str(ext.as_slice(), "yml") || chars_eq_str(ext.as_slice(), "yaml"),
        None => false,
    }
}

} // verus!
