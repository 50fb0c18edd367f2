//! A plain model of a parsed YAML document, and the call into `serde_yaml`
//! that produces it.

use vstd::prelude::*;

verus! {

/// A YAML value, as `serde_yaml` reads it.
#[derive(Debug)]
pub enum YamlValue {
    Null,
    Bool(bool),
    /// A number, held as the text `serde_yaml` prints for it.
    Number(String),
    Str(String),
    Sequence(Vec<YamlValue>),
    /// The entries of a mapping, in document order.
    Mapping(Vec<YamlEntry>),
    /// A value with a `!tag`.
    Tagged(String, Box<YamlValue>),
}

/// One entry of a YAML mapping.
#[derive(Debug)]
pub struct YamlEntry {
    pub key: YamlValue,
    pub value: YamlValue,
}

/// The value under any number of tags.
pub open spec fn untag(v: YamlValue) -> YamlValue
    decreases v,
{
    match v {
        YamlValue::Tagged(_, inner) => untag(*inner),
        _ => v,
    }
}

/// The text of a (possibly tagged) string value.
pub open spec fn yaml_str(v: YamlValue) -> Option<Seq<char>> {
    match untag(v) {
        YamlValue::Str(s) => Some(s@),
        _ => None,
    }
}

/// The value of the first entry whose key is the (untagged) string `key`.
pub open spec fn lookup(entries: Seq<YamlEntry>, key: Seq<char>) -> Option<YamlValue>
    decreases entries.len(),
{
    if entries.len() == 0 {
        None
    } else if entries[0].key matches YamlValue::Str(k) && k@ == key {
        Some(entries[0].value)
    } else {
        lookup(entries.drop_first(), key)
    }
}

/// `v[key]`: the value under `key` when `v` is (a tagged) mapping that has
/// it, else null.
pub open spec fn index(v: YamlValue, key: Seq<char>) -> YamlValue {
    match untag(v) {
        YamlValue::Mapping(entries) => match lookup(entries@, key) {
            Some(x) => x,
            None => YamlValue::Null,
        },
        _ => YamlValue::Null,
    }
}

/// The value under any number of tags.
pub fn untag_ref(v: &YamlValue) -> (res: &YamlValue)
    ensures
        *res == untag(*v),
    decreases v,
{
    match v {
        YamlValue::Tagged(_, inner) => untag_ref(inner),
        _ => v,
    }
}

/// The text of a (possibly tagged) string value.
pub fn as_str(v: &YamlValue) -> (res: Option<&String>)
    ensures
        match res {
            Some(s) => yaml_str(*v) == Some(s@),
            None => yaml_str(*v) is None,
        },
{
    match untag_ref(v) {
        YamlValue::Str(s) => Some(s),
        _ => None,
    }
}

/// `v[key]`, or `None` where that is null because nothing is under `key`.
pub fn get<'a>(v: &'a YamlValue, key: &str) -> (res: Option<&'a YamlValue>)
    ensures
        match res {
            Some(x) => index(*v, key@) == *x,
            None => index(*v, key@) == YamlValue::Null,
        },
{
    match untag_ref(v) {
        YamlValue::Mapping(entries) => {
            let n = entries.len();
            let mut i: usize = 0;
            assert(entries@.subrange(0, n as int) =~= entries@);
            while i < n
                invariant
                    untag(*v) == YamlValue::Mapping(*entries),
                    n == entries@.len(),
                    i <= n,
                    lookup(entries@, key@) == lookup(entries@.subrange(i as int, n as int), key@),
                decreases n - i,
            {
                let e = &entries[i];
                assert(entries@.subrange(i as int, n as int)[0] == entries@[i as int]);
                if let YamlValue::Str(k) = &e.key {
                    if crate::text::str_eq(k.as_str(), key) {
                        return Some(&e.value);
                    }
                }
                assert(entries@.subrange(i as int, n as int).drop_first() =~= entries@.subrange(
                    i + 1,
                    n as int,
                ));
                i += 1;
            }
            None
        },
        _ => None,
    }
}

/// What `serde_yaml::from_str::<serde_yaml::Value>` gives for a text, in
/// this model: the document, or the text of the error.
pub uninterp spec fn yaml_document(text: Seq<char>) -> Result<YamlValue, Seq<char>>;

/// Declares `serde_yaml::Value` to the verifier; nothing inside it is read.
#[verifier::external_type_specification]
#[verifier::external_body]
pub struct ExYamlValue(serde_yaml::Value);

/// Converts a `serde_yaml::Value` into the model, one node for one node:
/// strings, booleans and nulls as they are, numbers by the text that
/// `serde_yaml::Number` displays, sequences and mappings element by element
/// in their order, tags by their displayed name. Only `load_yaml` calls it.
#[verifier::external_body]
fn yaml_value_from(v: serde_yaml::Value) -> YamlValue {
    match v {
        serde_yaml::Value::Null => YamlValue::Null,
        serde_yaml::Value::Bool(b) => YamlValue::Bool(b),
        serde_yaml::Value::Number(n) => YamlValue::Number(n.to_string()),
        serde_yaml::Value::String(s) => YamlValue::Str(s),
        serde_yaml::Value::Sequence(items) => YamlValue::Sequence(items.into_iter().map(yaml_value_from).collect()),
        serde_yaml::Value::Mapping(map) => YamlValue::Mapping(map.into_iter().map(|(k, v)| YamlEntry { key: yaml_value_from(k), value: yaml_value_from(v) }).collect()),
        serde_yaml::Value::Tagged(t) => YamlValue::Tagged(t.tag.to_string(), Box::new(yaml_value_from(t.value))),
    }
}

/// Calls `serde_yaml::from_str::<serde_yaml::Value>` on `text`. The
/// contract claims only that the outcome is a function of the text
/// (`yaml_document`): the same document for the same text, or the error's
/// message; what the document is takes the YAML grammar to say.
#[verifier::external_body]
pub(crate) fn load_yaml(text: &str) -> (res: Result<YamlValue, String>)
    ensures
        match res {
            Ok(v) => yaml_document(text@) == Ok::<YamlValue, Seq<char>>(v),
            Err(m) => yaml_document(text@) == Err::<YamlValue, Seq<char>>(m@),
        },
{
    match serde_yaml::from_str::<serde_yaml::Value>(text) {
        Ok(v) => Ok(yaml_value_from(v)),
        Err(e) => Err(e.to_string()),
    }
}

} // verus!
