//! YAML documents: the value a text is read into, and how its mappings,
//! sequences, strings and booleans are read, tags looked through.

use vstd::prelude::*;

verus! {

#[verifier::external_type_specification]
#[verifier::external_body]
pub struct ExYamlValue(serde_yaml::Value);

/// A YAML value, as a YAML text is read into. Numbers are kept only as
/// such, and a tagged value keeps only the value it tags, since nothing
/// here reads either.
pub enum YamlValue {
    Null,
    Bool(bool),
    Number,
    Str(String),
    Sequence(Vec<YamlValue>),
    Mapping(Vec<(YamlValue, YamlValue)>),
    Tagged(Box<YamlValue>),
}

/// The value under its tags.
pub open spec fn untag(v: YamlValue) -> YamlValue
    decreases v,
{
    match v {
        YamlValue::Tagged(b) => untag(*b),
        _ => v,
    }
}

/// The string a value holds, tags looked through (`Value::as_str`).
pub open spec fn str_of(v: YamlValue) -> Option<Seq<char>> {
    match untag(v) {
        YamlValue::Str(s) => Some(s@),
        _ => None,
    }
}

/// The boolean a value holds, tags looked through (`Value::as_bool`).
pub open spec fn bool_of(v: YamlValue) -> Option<bool> {
    match untag(v) {
        YamlValue::Bool(b) => Some(b),
        _ => None,
    }
}

/// The entries of a mapping, tags looked through (`Value::as_mapping`).
pub open spec fn mapping_of(v: YamlValue) -> Option<Seq<(YamlValue, YamlValue)>> {
    match untag(v) {
        YamlValue::Mapping(es) => Some(es@),
        _ => None,
    }
}

/// The items of a sequence, tags looked through (`Value::as_sequence`).
pub open spec fn sequence_of(v: YamlValue) -> Option<Seq<YamlValue>> {
    match untag(v) {
        YamlValue::Sequence(items) => Some(items@),
        _ => None,
    }
}

/// The value under the key `key` of a mapping (`Mapping::get` with a
/// string): the first entry whose key is that string itself, untagged.
pub open spec fn entry_value(entries: Seq<(YamlValue, YamlValue)>, key: Seq<char>) -> Option<YamlValue>
    decreases entries.len(),
{
    if entries.len() == 0 {
        None
    } else if entries[0].0 matches YamlValue::Str(k) && k@ == key {
        Some(entries[0].1)
    } else {
        entry_value(entries.drop_first(), key)
    }
}

/// The member `key` of a value that is a mapping, tags looked through
/// (`Value::get` with a string).
pub open spec fn member(v: YamlValue, key: Seq<char>) -> Option<YamlValue> {
    match untag(v) {
        YamlValue::Mapping(es) => entry_value(es@, key),
        _ => None,
    }
}

/// `str_of` of a value that may be absent.
pub open spec fn opt_str(o: Option<YamlValue>) -> Option<Seq<char>> {
    match o {
        Some(v) => str_of(v),
        None => None,
    }
}

/// `bool_of` of a value that may be absent.
pub open spec fn opt_bool(o: Option<YamlValue>) -> Option<bool> {
    match o {
        Some(v) => bool_of(v),
        None => None,
    }
}

/// `mapping_of` of a value that may be absent.
pub open spec fn opt_mapping(o: Option<YamlValue>) -> Option<Seq<(YamlValue, YamlValue)>> {
    match o {
        Some(v) => mapping_of(v),
        None => None,
    }
}

/// `sequence_of` of a value that may be absent.
pub open spec fn opt_sequence(o: Option<YamlValue>) -> Option<Seq<YamlValue>> {
    match o {
        Some(v) => sequence_of(v),
        None => None,
    }
}

/// The value under its tags.
pub fn untag_ref(v: &YamlValue) -> (r: &YamlValue)
    ensures
        *r == untag(*v),
    decreases v,
{
    match v {
        YamlValue::Tagged(b) => untag_ref(b),
        _ => v,
    }
}

/// The string a value holds, tags looked through.
pub fn as_str(v: &YamlValue) -> (r: Option<String>)
    ensures
        crate::resolve::opt_chars(r) == str_of(*v),
{
    match untag_ref(v) {
        YamlValue::Str(s) => Some(s.clone()),
        _ => None,
    }
}

/// The boolean a value holds, tags looked through.
pub fn as_bool(v: &YamlValue) -> (r: Option<bool>)
    ensures
        r == bool_of(*v),
{
    match untag_ref(v) {
        YamlValue::Bool(b) => Some(*b),
        _ => None,
    }
}

/// The entries of a mapping, tags looked through.
pub fn as_mapping(v: &YamlValue) -> (r: Option<&Vec<(YamlValue, YamlValue)>>)
    ensures
        match r {
            Some(es) => mapping_of(*v) == Some(es@),
            None => mapping_of(*v) is None,
        },
{
    match untag_ref(v) {
        YamlValue::Mapping(es) => Some(es),
        _ => None,
    }
}

/// The items of a sequence, tags looked through.
pub fn as_sequence(v: &YamlValue) -> (r: Option<&Vec<YamlValue>>)
    ensures
        match r {
            Some(items) => sequence_of(*v) == Some(items@),
            None => sequence_of(*v) is None,
        },
{
    match untag_ref(v) {
        YamlValue::Sequence(items) => Some(items),
        _ => None,
    }
}

/// The value under the string key `key` of a mapping's entries.
pub fn mapping_get<'a>(entries: &'a Vec<(YamlValue, YamlValue)>, key: &str) -> (r: Option<&'a YamlValue>)
    ensures
        match r {
            Some(x) => entry_value(entries@, key@) == Some(*x),
            None => entry_value(entries@, key@) is None,
        },
{
    let mut i: usize = 0;
    assert(entries@.skip(0) =~= entries@);
    while i < entries.len()
        invariant
            i <= entries@.len(),
            entry_value(entries@, key@) == entry_value(entries@.skip(i as int), key@),
        decreases entries@.len() - i,
    {
        assert(entries@.skip(i as int)[0] == entries@[i as int]);
        if let YamlValue::Str(k) = &entries[i].0 {
            if crate::text::eq_str(k.as_str(), key) {
                return Some(&entries[i].1);
            }
        }
        assert(entries@.skip(i as int).drop_first() =~= entries@.skip(i + 1));
        i = i + 1;
    }
    None
}

/// The member `key` of a value that is a mapping, tags looked through.
pub fn get<'a>(v: &'a YamlValue, key: &str) -> (r: Option<&'a YamlValue>)
    ensures
        match r {
            Some(x) => member(*v, key@) == Some(*x),
            None => member(*v, key@) is None,
        },
{
    match untag_ref(v) {
        YamlValue::Mapping(es) => mapping_get(es, key),
        _ => None,
    }
}

/// What `serde_yaml::from_str::<serde_yaml::Value>` makes of a text: the
/// document, or the parser's error message.
pub uninterp spec fn yaml_document(text: Seq<char>) -> Result<YamlValue, Seq<char>>;

/// `serde_yaml::from_str::<serde_yaml::Value>`, with the value read into a
/// `YamlValue` variant by variant and the error into its message.
#[verifier::external_body]
pub fn parse_yaml(text: &str) -> (r: Result<YamlValue, String>)
    ensures
        match r {
            Ok(v) => yaml_document(text@) == Ok::<YamlValue, Seq<char>>(v),
            Err(e) => yaml_document(text@) == Err::<YamlValue, Seq<char>>(e@),
        },
{
    match serde_yaml::from_str::<serde_yaml::Value>(text) {
        Ok(v) => Ok(yaml_of(&v)),
        Err(e) => Err(e.to_string()),
    }
}

/// A `serde_yaml::Value` as a `YamlValue`, variant by variant, entries and
/// items in the document's order; part of `parse_yaml`.
#[verifier::external_body]
fn yaml_of(v: &serde_yaml::Value) -> YamlValue {
    match v {
        serde_yaml::Value::Null => YamlValue::Null,
        serde_yaml::Value::Bool(b) => YamlValue::Bool(*b),
        serde_yaml::Value::Number(_) => YamlValue::Number,
        serde_yaml::Value::String(s) => YamlValue::Str(s.clone()),
        serde_yaml::Value::Sequence(items) => YamlValue::Sequence(items.iter().map(yaml_of).collect()),
        serde_yaml::Value::Mapping(m) => YamlValue::Mapping(m.iter().map(|(k, x)| (yaml_of(k), yaml_of(x))).collect()),
        serde_yaml::Value::Tagged(t) => YamlValue::Tagged(Box::new(yaml_of(&t.value))),
    }
}

} // verus!
