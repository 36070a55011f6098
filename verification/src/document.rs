//! TOML documents as plain data.
//!
//! The text of a document is read by the `toml` crate; everything that looks
//! at a document works on [`TomlTable`], which holds the same entries as
//! plain values.
use crate::text::same_text;
use vstd::prelude::*;

verus! {

/// A TOML table of the `toml` crate.
#[verifier::external_type_specification]
#[verifier::external_body]
#[verifier::reject_recursive_types(K)]
#[verifier::reject_recursive_types(V)]
pub struct ExTomlMap<K, V>(toml::map::Map<K, V>);

/// A TOML value of the `toml` crate.
#[verifier::external_type_specification]
#[verifier::external_body]
pub struct ExTomlValue(toml::Value);

/// A TOML value: a string, an integer, a boolean, an array, a table, or
/// something else that no setting uses.
pub enum TomlModel {
    Str(Seq<char>),
    Int(i64),
    Bool(bool),
    Array(Seq<TomlModel>),
    Table(Seq<(Seq<char>, TomlModel)>),
    Other,
}

/// The entries of a table of the `toml` crate, in its own order.
pub uninterp spec fn table_entries(t: toml::map::Map<String, toml::Value>) -> Seq<
    (Seq<char>, TomlModel),
>;

/// The contents of a value of the `toml` crate.
pub uninterp spec fn value_contents(v: toml::Value) -> TomlModel;

/// What the `toml` crate reads from a text: the entries of the document, or
/// the message that says why it is none.
pub uninterp spec fn toml_document(text: Seq<char>) -> Result<
    Seq<(Seq<char>, TomlModel)>,
    Seq<char>,
>;

/// `toml::Table::from_str`: the table of a document, or the displayed error.
/// What the grammar of TOML makes of a text is left to the name
/// `toml_document`.
#[verifier::external_body]
fn parse_text(text: &str) -> (r: Result<toml::map::Map<String, toml::Value>, String>)
    ensures
        (match r {
            Ok(t) => Ok(table_entries(t)),
            Err(m) => Err(m@),
        }) == toml_document(text@),
{
    text.parse::<toml::Table>().map_err(|e| e.to_string())
}

/// `toml::map::Map::into_iter` hands out every entry once, key and value, in
/// the order of the table.
#[verifier::external_body]
fn table_items(t: toml::map::Map<String, toml::Value>) -> (r: Vec<(String, toml::Value)>)
    ensures
        r@.len() == table_entries(t).len(),
        forall|i: int|
            0 <= i < r@.len() ==> (#[trigger] r@[i]).0@ == table_entries(t)[i].0 && value_contents(
                r@[i].1,
            ) == table_entries(t)[i].1,
{
    t.into_iter().collect()
}

/// One layer of a value of the `toml` crate.
enum Layer {
    Str(String),
    Int(i64),
    Bool(bool),
    Array(Vec<toml::Value>),
    Table(toml::map::Map<String, toml::Value>),
    Other,
}

spec fn layer_contents(l: Layer) -> TomlModel {
    match l {
        Layer::Str(s) => TomlModel::Str(s@),
        Layer::Int(n) => TomlModel::Int(n),
        Layer::Bool(b) => TomlModel::Bool(b),
        Layer::Array(a) => TomlModel::Array(Seq::new(a@.len(), |i: int| value_contents(a@[i]))),
        Layer::Table(t) => TomlModel::Table(table_entries(t)),
        Layer::Other => TomlModel::Other,
    }
}

/// The variants of `toml::Value`, told apart; floats and dates become
/// [`Layer::Other`].
#[verifier::external_body]
fn peel(v: toml::Value) -> (r: Layer)
    ensures
        layer_contents(r) == value_contents(v),
{
    match v {
        toml::Value::String(s) => Layer::Str(s),
        toml::Value::Integer(n) => Layer::Int(n),
        toml::Value::Boolean(b) => Layer::Bool(b),
        toml::Value::Array(a) => Layer::Array(a),
        toml::Value::Table(t) => Layer::Table(t),
        toml::Value::Float(_) | toml::Value::Datetime(_) => Layer::Other,
    }
}

// ---------------------------------------------------------------------------
// Plain values
// ---------------------------------------------------------------------------

/// A TOML value.
#[derive(Debug)]
pub enum TomlValue {
    Str(String),
    Int(i64),
    Bool(bool),
    Array(Vec<TomlValue>),
    Table(TomlTable),
    /// A float or a date.
    Other,
}

/// A TOML table. Where a key occurs twice, its first entry counts.
#[derive(Debug)]
pub struct TomlTable {
    pub entries: Vec<(String, TomlValue)>,
}

/// The contents of a value.
pub open spec fn value_model(v: TomlValue) -> TomlModel
    decreases v,
{
    match v {
        TomlValue::Str(s) => TomlModel::Str(s@),
        TomlValue::Int(n) => TomlModel::Int(n),
        TomlValue::Bool(b) => TomlModel::Bool(b),
        TomlValue::Array(a) => TomlModel::Array(values_model(a@)),
        TomlValue::Table(t) => TomlModel::Table(entries_model(t.entries@)),
        TomlValue::Other => TomlModel::Other,
    }
}

/// The contents of a list of values.
pub open spec fn values_model(v: Seq<TomlValue>) -> Seq<TomlModel>
    decreases v,
{
    if v.len() == 0 {
        Seq::empty()
    } else {
        values_model(v.drop_last()).push(value_model(v.last()))
    }
}

/// The contents of a list of entries.
pub open spec fn entries_model(v: Seq<(String, TomlValue)>) -> Seq<(Seq<char>, TomlModel)>
    decreases v,
{
    if v.len() == 0 {
        Seq::empty()
    } else {
        entries_model(v.drop_last()).push((v.last().0@, value_model(v.last().1)))
    }
}

impl View for TomlTable {
    type V = Seq<(Seq<char>, TomlModel)>;

    open spec fn view(&self) -> Seq<(Seq<char>, TomlModel)> {
        entries_model(self.entries@)
    }
}

/// The contents are those of the elements, one by one.
pub proof fn values_model_at(v: Seq<TomlValue>)
    ensures
        values_model(v).len() == v.len(),
        forall|i: int| 0 <= i < v.len() ==> (#[trigger] values_model(v)[i]) == value_model(v[i]),
    decreases v.len(),
{
    if v.len() > 0 {
        values_model_at(v.drop_last());
        assert forall|i: int| 0 <= i < v.len() implies (#[trigger] values_model(v)[i])
            == value_model(v[i]) by {
            if i < v.len() - 1 {
                assert(values_model(v.drop_last())[i] == value_model(v.drop_last()[i]));
            }
        }
    }
}

/// The contents are those of the entries, one by one.
pub proof fn entries_model_at(v: Seq<(String, TomlValue)>)
    ensures
        entries_model(v).len() == v.len(),
        forall|i: int|
            0 <= i < v.len() ==> (#[trigger] entries_model(v)[i]) == (
                v[i].0@,
                value_model(v[i].1),
            ),
    decreases v.len(),
{
    if v.len() > 0 {
        entries_model_at(v.drop_last());
        assert forall|i: int| 0 <= i < v.len() implies (#[trigger] entries_model(v)[i]) == (
            v[i].0@,
            value_model(v[i].1),
        ) by {
            if i < v.len() - 1 {
                assert(entries_model(v.drop_last())[i] == (
                    v.drop_last()[i].0@,
                    value_model(v.drop_last()[i].1),
                ));
            }
        }
    }
}

fn plain_value(v: toml::Value) -> (r: TomlValue)
    ensures
        value_model(r) == value_contents(v),
    decreases value_contents(v),
{
    match peel(v) {
        Layer::Str(s) => TomlValue::Str(s),
        Layer::Int(n) => TomlValue::Int(n),
        Layer::Bool(b) => TomlValue::Bool(b),
        Layer::Array(a) => {
            let ghost model = value_contents(v);
            let ghost items = a@;
            let ghost contents = Seq::new(items.len(), |i: int| value_contents(items[i]));
            assert(model == TomlModel::Array(contents));
            let mut out: Vec<TomlValue> = Vec::new();
            for x in it: a
                invariant
                    it.seq() == items,
                    contents == Seq::new(items.len(), |i: int| value_contents(items[i])),
                    model == TomlModel::Array(contents),
                    model == value_contents(v),
                    out@.len() == it.index(),
                    forall|j: int|
                        0 <= j < it.index() ==> value_model(#[trigger] out@[j]) == contents[j],
            {
                proof {
                    assert(contents[it.index() as int] == value_contents(x));
                    assert(decreases_to!(model => model->Array_0));
                    assert(decreases_to!(contents => contents[it.index() as int]));
                }
                out.push(plain_value(x));
            }
            proof {
                values_model_at(out@);
                assert(values_model(out@) =~= contents);
            }
            TomlValue::Array(out)
        },
        Layer::Table(t) => {
            proof {
                let model = value_contents(v);
                assert(model == TomlModel::Table(table_entries(t)));
                assert(decreases_to!(model => model->Table_0));
            }
            TomlValue::Table(plain_table(t))
        },
        Layer::Other => TomlValue::Other,
    }
}

fn plain_table(t: toml::map::Map<String, toml::Value>) -> (r: TomlTable)
    ensures
        r@ == table_entries(t),
    decreases table_entries(t),
{
    let ghost contents = table_entries(t);
    let items = table_items(t);
    let ghost all = items@;
    let mut entries: Vec<(String, TomlValue)> = Vec::new();
    for x in it: items
        invariant
            it.seq() == all,
            contents == table_entries(t),
            all.len() == contents.len(),
            forall|i: int|
                0 <= i < all.len() ==> (#[trigger] all[i]).0@ == contents[i].0 && value_contents(
                    all[i].1,
                ) == contents[i].1,
            entries@.len() == it.index(),
            forall|j: int|
                0 <= j < it.index() ==> (#[trigger] entries@[j]).0@ == contents[j].0 && value_model(
                    entries@[j].1,
                ) == contents[j].1,
    {
        proof {
            let k = it.index() as int;
            assert(all[k] == x);
            assert(decreases_to!(contents => contents[k]));
            assert(decreases_to!(contents[k] => contents[k].1));
        }
        entries.push((x.0, plain_value(x.1)));
    }
    proof {
        entries_model_at(entries@);
        assert(entries_model(entries@) =~= contents);
    }
    TomlTable { entries }
}

/// Reads a TOML document; the error is the reader's own message.
pub fn read_document(text: &str) -> (r: Result<TomlTable, String>)
    ensures
        (match r {
            Ok(t) => Ok(t@),
            Err(m) => Err(m@),
        }) == toml_document(text@),
{
    match parse_text(text) {
        Ok(t) => Ok(plain_table(t)),
        Err(m) => Err(m),
    }
}

// ---------------------------------------------------------------------------
// Looking things up
// ---------------------------------------------------------------------------

/// The value of a key.
pub open spec fn lookup(t: Seq<(Seq<char>, TomlModel)>, key: Seq<char>) -> Option<TomlModel>
    decreases t.len(),
{
    if t.len() == 0 {
        None
    } else if t[0].0 == key {
        Some(t[0].1)
    } else {
        lookup(t.skip(1), key)
    }
}

impl TomlTable {
    /// The value of a key.
    pub fn get(&self, key: &str) -> (r: Option<&TomlValue>)
        ensures
            match r {
                Some(v) => lookup(self@, key@) == Some(value_model(*v)),
                None => lookup(self@, key@) is None,
            },
    {
        let ghost all = self@;
        proof {
            entries_model_at(self.entries@);
            assert(all.skip(0) =~= all);
        }
        for i in 0..self.entries.len()
            invariant
                all == entries_model(self.entries@),
                all.len() == self.entries@.len(),
                forall|j: int|
                    0 <= j < all.len() ==> (#[trigger] all[j]) == (
                        self.entries@[j].0@,
                        value_model(self.entries@[j].1),
                    ),
                lookup(all, key@) == lookup(all.skip(i as int), key@),
        {
            assert(all.skip(i as int)[0] == all[i as int]);
            assert(all.skip(i as int).skip(1) =~= all.skip(i + 1));
            if same_text(self.entries[i].0.as_str(), key) {
                return Some(&self.entries[i].1);
            }
        }
        None
    }
}

} // verus!
