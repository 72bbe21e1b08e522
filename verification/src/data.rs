//! Parsed documents (JSON, YAML, TOML) as a tree of plain values, and the
//! lookups the library makes in them.

use vstd::prelude::*;
use crate::text::str_eq;

verus! {

/// A node of a parsed document. Numbers, TOML floats and TOML datetimes keep
/// the text the parser prints for them; `Tagged` is YAML's `!tag value`.
#[derive(Debug)]
pub enum DataValue {
    Null,
    Bool(bool),
    Number(String),
    Text(String),
    List(Vec<DataValue>),
    Table(Vec<(DataValue, DataValue)>),
    Tagged(String, Box<DataValue>),
    Datetime(String),
    Float(String),
}

/// The value with YAML tags removed (serde_yaml's lookups see through tags).
pub open spec fn untag(v: DataValue) -> DataValue
    decreases v,
{
    match v {
        DataValue::Tagged(_, inner) => untag(*inner),
        _ => v,
    }
}

/// The value of the first entry whose key is the string `key`.
pub open spec fn entry_lookup(es: Seq<(DataValue, DataValue)>, key: Seq<char>) -> Option<DataValue>
    decreases es.len(),
{
    if es.len() == 0 {
        None
    } else if es[0].0 matches DataValue::Text(k) && k@ == key {
        Some(es[0].1)
    } else {
        entry_lookup(es.drop_first(), key)
    }
}

/// `Value::get(key)`: member lookup in a table, `None` for other values.
pub open spec fn get(v: DataValue, key: Seq<char>) -> Option<DataValue> {
    match untag(v) {
        DataValue::Table(es) => entry_lookup(es@, key),
        _ => None,
    }
}

/// `Value::as_str`.
pub open spec fn as_text(v: DataValue) -> Option<Seq<char>> {
    match untag(v) {
        DataValue::Text(s) => Some(s@),
        _ => None,
    }
}

/// The string member `key` of a table, if it is there and is a string.
pub open spec fn get_text(v: DataValue, key: Seq<char>) -> Option<Seq<char>> {
    match get(v, key) {
        Some(m) => as_text(m),
        None => None,
    }
}

/// The string keys of table entries, in order.
pub open spec fn text_keys(es: Seq<(DataValue, DataValue)>) -> Seq<Seq<char>>
    decreases es.len(),
{
    if es.len() == 0 {
        seq![]
    } else {
        match es[0].0 {
            DataValue::Text(k) => seq![k@] + text_keys(es.drop_first()),
            _ => text_keys(es.drop_first()),
        }
    }
}

/// The keys of a table, `None` for other values.
pub open spec fn table_keys(v: DataValue) -> Option<Seq<Seq<char>>> {
    match untag(v) {
        DataValue::Table(es) => Some(text_keys(es@)),
        _ => None,
    }
}

/// `entry_lookup` over table entries.
pub fn lookup<'a>(es: &'a Vec<(DataValue, DataValue)>, key: &str) -> (r: Option<&'a DataValue>)
    ensures
        r matches Some(x) ==> entry_lookup(es@, key@) == Some(*x),
        r is None ==> entry_lookup(es@, key@) is None,
{
    let mut k: usize = 0;
    assert(es@.subrange(0, es@.len() as int) =~= es@);
    while k < es.len()
        invariant
            k <= es.len(),
            entry_lookup(es@, key@) == entry_lookup(es@.subrange(k as int, es@.len() as int), key@),
        decreases es.len() - k,
    {
        let ghost rest = es@.subrange(k as int, es@.len() as int);
        assert(rest.drop_first() =~= es@.subrange(k + 1, es@.len() as int));
        if let DataValue::Text(name) = &es[k].0 {
            if str_eq(name.as_str(), key) {
                return Some(&es[k].1);
            }
        }
        k = k + 1;
    }
    None
}

impl DataValue {
    /// The value with tags removed.
    pub fn untagged(&self) -> (r: &DataValue)
        ensures
            *r == untag(*self),
        decreases self,
    {
        match self {
            DataValue::Tagged(_, inner) => inner.untagged(),
            _ => self,
        }
    }

    /// `Value::get(key)`.
    pub fn get(&self, key: &str) -> (r: Option<&DataValue>)
        ensures
            r matches Some(x) ==> get(*self, key@) == Some(*x),
            r is None ==> get(*self, key@) is None,
    {
        match self.untagged() {
            DataValue::Table(es) => lookup(es, key),
            _ => None,
        }
    }

    /// `Value::as_str`.
    pub fn as_text(&self) -> (r: Option<&str>)
        ensures
            r matches Some(x) ==> as_text(*self) == Some(x@),
            r is None ==> as_text(*self) is None,
    {
        match self.untagged() {
            DataValue::Text(s) => Some(s.as_str()),
            _ => None,
        }
    }

    /// The string member `key` of a table.
    pub fn get_text(&self, key: &str) -> (r: Option<&str>)
        ensures
            r matches Some(x) ==> get_text(*self, key@) == Some(x@),
            r is None ==> get_text(*self, key@) is None,
    {
        match self.get(key) {
            Some(m) => m.as_text(),
            None => None,
        }
    }

    /// The string keys of a table, in order.
    pub fn table_keys(&self) -> (r: Option<Vec<String>>)
        ensures
            r matches Some(ks) ==> table_keys(*self) == Some(ks@.map_values(|s: String| s@)),
            r is None ==> table_keys(*self) is None,
    {
        match self.untagged() {
            DataValue::Table(es) => {
                let mut out: Vec<String> = Vec::new();
                let mut k: usize = 0;
                assert(es@.subrange(0, es@.len() as int) =~= es@);
                while k < es.len()
                    invariant
                        k <= es.len(),
                        text_keys(es@) == out@.map_values(|s: String| s@) + text_keys(
                            es@.subrange(k as int, es@.len() as int),
                        ),
                    decreases es.len() - k,
                {
                    let ghost rest = es@.subrange(k as int, es@.len() as int);
                    let ghost before = out@.map_values(|s: String| s@);
                    assert(rest.drop_first() =~= es@.subrange(k + 1, es@.len() as int));
                    if let DataValue::Text(name) = &es[k].0 {
                        out.push(name.clone());
                        assert(out@.map_values(|s: String| s@) =~= before.push(name@));
                        assert(before + text_keys(rest) =~= before.push(name@) + text_keys(
                            rest.drop_first(),
                        ));
                    }
                    k = k + 1;
                }
                assert(text_keys(es@.subrange(k as int, es@.len() as int)) =~= seq![]);
                assert(out@.map_values(|s: String| s@) + seq![] =~= out@.map_values(
                    |s: String| s@,
                ));
                Some(out)
            },
            _ => None,
        }
    }
}


#[verifier::external_type_specification]
#[verifier::external_body]
pub struct ExJsonValue(serde_json::Value);

#[verifier::external_type_specification]
#[verifier::external_body]
pub struct ExYamlValue(serde_yaml::Value);

#[verifier::external_type_specification]
#[verifier::external_body]
pub struct ExTomlValue(toml::Value);

/// The document that `serde_json::from_str::<serde_json::Value>` reads from
/// `text`, or the text of its error.
pub uninterp spec fn json_tree(text: Seq<char>) -> Result<DataValue, Seq<char>>;

/// The document that `serde_yaml::from_str::<serde_yaml::Value>` reads from
/// `text`, or the text of its error.
pub uninterp spec fn yaml_tree(text: Seq<char>) -> Result<DataValue, Seq<char>>;

/// The document that `toml::from_str::<toml::Value>` reads from `text`, or
/// the text of its error.
pub uninterp spec fn toml_tree(text: Seq<char>) -> Result<DataValue, Seq<char>>;

/// Whether a result carries the given parse outcome.
pub open spec fn parsed_as(r: Result<DataValue, String>, expect: Result<DataValue, Seq<char>>) -> bool {
    match r {
        Ok(t) => expect == Ok::<DataValue, Seq<char>>(t),
        Err(e) => expect == Err::<DataValue, Seq<char>>(e@),
    }
}

/// Copies a `serde_json::Value` into the library's tree, node for node (a
/// number becomes its printed form). Used by `parse_json` only.
#[verifier::external_body]
fn tree_from_json(v: serde_json::Value) -> DataValue {
    match v {
        serde_json::Value::Null => DataValue::Null,
        serde_json::Value::Bool(b) => DataValue::Bool(b),
        serde_json::Value::Number(n) => DataValue::Number(n.to_string()),
        serde_json::Value::String(s) => DataValue::Text(s),
        serde_json::Value::Array(a) => DataValue::List(a.into_iter().map(tree_from_json).collect()),
        serde_json::Value::Object(o) => DataValue::Table(
            o.into_iter().map(|(k, x)| (DataValue::Text(k), tree_from_json(x))).collect(),
        ),
    }
}

/// Copies a `serde_yaml::Value` into the library's tree, node for node. Used
/// by `parse_yaml` only.
#[verifier::external_body]
fn tree_from_yaml(v: serde_yaml::Value) -> DataValue {
    match v {
        serde_yaml::Value::Null => DataValue::Null,
        serde_yaml::Value::Bool(b) => DataValue::Bool(b),
        serde_yaml::Value::Number(n) => DataValue::Number(n.to_string()),
        serde_yaml::Value::String(s) => DataValue::Text(s),
        serde_yaml::Value::Sequence(a) => DataValue::List(a.into_iter().map(tree_from_yaml).collect()),
        serde_yaml::Value::Mapping(m) => DataValue::Table(
            m.into_iter().map(|(k, x)| (tree_from_yaml(k), tree_from_yaml(x))).collect(),
        ),
        serde_yaml::Value::Tagged(t) => DataValue::Tagged(t.tag.to_string(), Box::new(tree_from_yaml(t.value))),
    }
}

/// Copies a `toml::Value` into the library's tree, node for node (numbers and
/// datetimes become their printed form). Used by `parse_toml` only.
#[verifier::external_body]
fn tree_from_toml(v: toml::Value) -> DataValue {
    match v {
        toml::Value::String(s) => DataValue::Text(s),
        toml::Value::Integer(i) => DataValue::Number(i.to_string()),
        toml::Value::Float(x) => DataValue::Float(x.to_string()),
        toml::Value::Boolean(b) => DataValue::Bool(b),
        toml::Value::Datetime(d) => DataValue::Datetime(d.to_string()),
        toml::Value::Array(a) => DataValue::List(a.into_iter().map(tree_from_toml).collect()),
        toml::Value::Table(t) => DataValue::Table(
            t.into_iter().map(|(k, x)| (DataValue::Text(k), tree_from_toml(x))).collect(),
        ),
    }
}

/// `serde_json::from_str::<serde_json::Value>`: the contract claims that the
/// result is the parser's document for `text` (named `json_tree`), or its
/// error message.
#[verifier::external_body]
pub(crate) fn parse_json(text: &str) -> (r: Result<DataValue, String>)
    ensures
        parsed_as(r, json_tree(text@)),
{
    serde_json::from_str::<serde_json::Value>(text).map(tree_from_json).map_err(|e| e.to_string())
}

/// `serde_yaml::from_str::<serde_yaml::Value>`: the contract claims that the
/// result is the parser's document for `text` (named `yaml_tree`), or its
/// error message.
#[verifier::external_body]
pub(crate) fn parse_yaml(text: &str) -> (r: Result<DataValue, String>)
    ensures
        parsed_as(r, yaml_tree(text@)),
{
    serde_yaml::from_str::<serde_yaml::Value>(text).map(tree_from_yaml).map_err(|e| e.to_string())
}

/// `toml::from_str::<toml::Value>`: the contract claims that the result is
/// the parser's document for `text` (named `toml_tree`), or its error
/// message.
#[verifier::external_body]
pub(crate) fn parse_toml(text: &str) -> (r: Result<DataValue, String>)
    ensures
        parsed_as(r, toml_tree(text@)),
{
    toml::from_str::<toml::Value>(text).map(tree_from_toml).map_err(|e| e.to_string())
}

/// A value that a YAML mapping field is set to: a string, a boolean, or a
/// list of strings under a chain of tags (outermost first, often none).
#[derive(Debug, Clone)]
pub enum FieldValue {
    Text(String),
    Flag(bool),
    TextList(Vec<String>, Vec<String>),
}

/// What a `FieldValue` holds, as plain values.
pub enum FieldSpec {
    Text(Seq<char>),
    Flag(bool),
    TextList(Seq<Seq<char>>, Seq<Seq<char>>),
}

/// The plain value of a field value.
pub open spec fn field_spec(v: FieldValue) -> FieldSpec {
    match v {
        FieldValue::Text(s) => FieldSpec::Text(s@),
        FieldValue::Flag(b) => FieldSpec::Flag(b),
        FieldValue::TextList(tags, items) => FieldSpec::TextList(
            tags@.map_values(|t: String| t@),
            items@.map_values(|t: String| t@),
        ),
    }
}

/// The plain values of a list of (key, value) fields.
pub open spec fn field_specs(fs: Seq<(String, FieldValue)>) -> Seq<(Seq<char>, FieldSpec)> {
    fs.map_values(|f: (String, FieldValue)| (f.0@, field_spec(f.1)))
}

/// Whether every tag of a field value is non-empty (YAML has no empty tag).
pub open spec fn tags_nonempty(v: FieldValue) -> bool {
    match v {
        FieldValue::TextList(tags, _) => forall|i: int| 0 <= i < tags@.len() ==> (#[trigger] tags@[i])@.len() > 0,
        _ => true,
    }
}

/// The text that `serde_yaml` prints after reading `content` as a
/// `serde_yaml::Value` and, where that document (tags seen through) is a
/// mapping, inserting each field in order (`Mapping::insert`: a key already
/// there keeps its place, a new key goes last); or the text of the error
/// where `content` does not parse or the result does not print.
pub uninterp spec fn yaml_with_fields(content: Seq<char>, fields: Seq<(Seq<char>, FieldSpec)>) -> Result<Seq<char>, Seq<char>>;

/// Copies a field value into a `serde_yaml::Value`: a string, a boolean, or
/// a sequence of strings wrapped in its tags. `Tag::new` panics on an empty
/// tag, hence the precondition.
#[verifier::external_body]
fn yaml_from_field(v: &FieldValue) -> serde_yaml::Value
    requires
        tags_nonempty(*v),
{
    match v {
        FieldValue::Text(s) => serde_yaml::Value::String(s.clone()),
        FieldValue::Flag(b) => serde_yaml::Value::Bool(*b),
        FieldValue::TextList(tags, items) => {
            let mut out = serde_yaml::Value::Sequence(items.iter().map(|x| serde_yaml::Value::String(x.clone())).collect());
            for t in tags.iter().rev() {
                let tag = serde_yaml::value::Tag::new(t.clone());
                out = serde_yaml::Value::Tagged(Box::new(serde_yaml::value::TaggedValue { tag, value: out }));
            }
            out
        },
    }
}

/// `serde_yaml::from_str::<serde_yaml::Value>`, then `as_mapping_mut` and
/// `Mapping::insert` for each field, then `serde_yaml::to_string`: the
/// contract claims that the result is the printed document, or the error's
/// text, named `yaml_with_fields`. `Tag::new` panics on an empty tag, hence
/// the precondition.
#[verifier::external_body]
pub(crate) fn set_yaml_fields(content: &str, fields: &Vec<(String, FieldValue)>) -> (r: Result<String, String>)
    requires
        forall|i: int| 0 <= i < fields@.len() ==> tags_nonempty(#[trigger] fields@[i].1),
    ensures
        match r {
            Ok(t) => yaml_with_fields(content@, field_specs(fields@)) == Ok::<Seq<char>, Seq<char>>(t@),
            Err(e) => yaml_with_fields(content@, field_specs(fields@)) == Err::<Seq<char>, Seq<char>>(e@),
        },
{
    let mut doc: serde_yaml::Value = serde_yaml::from_str(content).map_err(|e| e.to_string())?;
    if let Some(m) = doc.as_mapping_mut() {
        for (k, v) in fields.iter() {
            m.insert(serde_yaml::Value::String(k.clone()), yaml_from_field(v));
        }
    }
    serde_yaml::to_string(&doc).map_err(|e| e.to_string())
}

} // verus!
