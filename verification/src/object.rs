//! The untyped object that a backend configuration is stored as: a mapping
//! from field names to values, which also keeps the order in which its
//! fields were written.
use vstd::prelude::*;
use crate::text::{same_text, texts};

verus! {

/// The value of a field, by the shapes that a configuration can use.
#[derive(Debug, Clone, PartialEq, Eq)]
pub enum Value {
    /// A text.
    Text(String),
    /// A list whose items are all texts.
    TextList(Vec<String>),
    /// Anything else: a number, a truth value, a nested object, a list with
    /// an item that is no text, nothing.
    Other,
}

/// What a [`Value`] holds, as plain text.
pub enum ValueView {
    Text(Seq<char>),
    TextList(Seq<Seq<char>>),
    Other,
}

impl View for Value {
    type V = ValueView;

    open spec fn view(&self) -> ValueView {
        match self {
            Value::Text(text) => ValueView::Text(text@),
            Value::TextList(list) => ValueView::TextList(texts(list@)),
            Value::Other => ValueView::Other,
        }
    }
}

/// A named value.
#[derive(Debug, Clone, PartialEq, Eq)]
pub struct Field {
    pub name: String,
    pub value: Value,
}

/// What a [`Field`] holds, as plain text.
pub struct FieldView {
    pub name: Seq<char>,
    pub value: ValueView,
}

impl View for Field {
    type V = FieldView;

    open spec fn view(&self) -> FieldView {
        FieldView { name: self.name@, value: self.value@ }
    }
}

/// What a vector of fields holds.
pub open spec fn field_views(fields: Seq<Field>) -> Seq<FieldView> {
    fields.map_values(|f: Field| f@)
}

/// The position of the first field called `name`; the number of fields
/// where there is none.
pub open spec fn index_of(fields: Seq<FieldView>, name: Seq<char>) -> int
    decreases fields.len(),
{
    if fields.len() == 0 || fields[0].name == name {
        0
    } else {
        1 + index_of(fields.drop_first(), name)
    }
}

/// Whether no two fields share a name.
pub open spec fn distinct_names(fields: Seq<FieldView>) -> bool {
    forall|i: int, j: int|
        0 <= i < j < fields.len() ==> (#[trigger] fields[i]).name != (#[trigger] fields[j]).name
}

/// The mapping that a sequence of fields stands for: each name that occurs,
/// with the value of the first field of that name.
pub open spec fn mapping(fields: Seq<FieldView>) -> Map<Seq<char>, ValueView> {
    Map::new(
        |name: Seq<char>| index_of(fields, name) < fields.len(),
        |name: Seq<char>| fields[index_of(fields, name)].value,
    )
}

/// The fields after `entry` has been written: in the place of the first
/// field of its name, or last where no field has its name.
pub open spec fn put(fields: Seq<FieldView>, entry: FieldView) -> Seq<FieldView> {
    let at = index_of(fields, entry.name);
    if at < fields.len() {
        fields.update(at, entry)
    } else {
        fields.push(entry)
    }
}

/// The fields after each of `fields` has been written in turn, starting
/// from none: a name that comes again keeps its first place and takes the
/// later value.
pub open spec fn written(fields: Seq<FieldView>) -> Seq<FieldView>
    decreases fields.len(),
{
    if fields.len() == 0 {
        fields
    } else {
        put(written(fields.drop_last()), fields.last())
    }
}

/// `index_of` is the position `i` when the field at `i` is the first one
/// called `name`, and the number of fields when `i` is that number and no
/// field is called `name`.
pub proof fn lemma_index_of(fields: Seq<FieldView>, name: Seq<char>, i: int)
    requires
        0 <= i <= fields.len(),
        forall|j: int| 0 <= j < i ==> fields[j].name != name,
        i < fields.len() ==> fields[i].name == name,
    ensures
        index_of(fields, name) == i,
    decreases i,
{
    if i > 0 {
        lemma_index_of(fields.drop_first(), name, i - 1);
    }
}

/// `index_of` is in range, points at a field called `name` if at any, and
/// passes over none.
pub proof fn lemma_index_of_first(fields: Seq<FieldView>, name: Seq<char>)
    ensures
        0 <= index_of(fields, name) <= fields.len(),
        index_of(fields, name) < fields.len() ==> fields[index_of(fields, name)].name == name,
        forall|j: int| 0 <= j < index_of(fields, name) ==> (#[trigger] fields[j]).name != name,
    decreases fields.len(),
{
    if fields.len() == 0 || fields[0].name == name {
    } else {
        let rest = fields.drop_first();
        lemma_index_of_first(rest, name);
        assert forall|j: int| 0 <= j < index_of(fields, name) implies (#[trigger] fields[j]).name
            != name by {
            if j > 0 {
                assert(fields[j] == rest[j - 1]);
            }
        }
    }
}

/// A field of `fields` is what the mapping has at its name, where the
/// names are distinct.
pub proof fn lemma_mapping_at(fields: Seq<FieldView>, i: int)
    requires
        distinct_names(fields),
        0 <= i < fields.len(),
    ensures
        mapping(fields).contains_key(fields[i].name),
        mapping(fields)[fields[i].name] == fields[i].value,
{
    lemma_index_of_first(fields, fields[i].name);
    let at = index_of(fields, fields[i].name);
    if at < i {
        assert(fields[at].name != fields[i].name);
    }
}

/// The mapping does not depend on the order of the fields: sequences with
/// distinct names that hold the same fields stand for the same mapping.
pub proof fn lemma_mapping_ignores_order(a: Seq<FieldView>, b: Seq<FieldView>)
    requires
        distinct_names(a),
        distinct_names(b),
        forall|f: FieldView| a.contains(f) <==> b.contains(f),
    ensures
        mapping(a) == mapping(b),
{
    assert forall|name: Seq<char>| #[trigger]
        mapping(a).contains_key(name) implies mapping(b).contains_key(name) && mapping(b)[name]
        == mapping(a)[name] by {
        lemma_index_of_first(a, name);
        let field = a[index_of(a, name)];
        assert(a.contains(field));
        let j = choose|j: int| 0 <= j < b.len() && b[j] == field;
        lemma_mapping_at(b, j);
    }
    assert forall|name: Seq<char>| #[trigger]
        mapping(b).contains_key(name) implies mapping(a).contains_key(name) by {
        lemma_index_of_first(b, name);
        let field = b[index_of(b, name)];
        assert(b.contains(field));
        let i = choose|i: int| 0 <= i < a.len() && a[i] == field;
        lemma_mapping_at(a, i);
    }
    assert(mapping(a) =~= mapping(b));
}

/// A mapping from field names to values that remembers the order in which
/// the names were first written. No name occurs twice.
#[derive(Debug, PartialEq, Eq)]
pub struct Object {
    fields: Vec<Field>,
}

impl View for Object {
    type V = Map<Seq<char>, ValueView>;

    open spec fn view(&self) -> Map<Seq<char>, ValueView> {
        mapping(self.entries())
    }
}

impl Object {
    /// The fields in the order in which their names were first written.
    pub closed spec fn entries(&self) -> Seq<FieldView> {
        field_views(self.fields@)
    }

    #[verifier::type_invariant]
    spec fn well_formed(&self) -> bool {
        distinct_names(self.entries())
    }

    /// The object without fields.
    pub fn new() -> (object: Self)
        ensures
            object.entries() == Seq::<FieldView>::empty(),
    {
        let fields: Vec<Field> = Vec::new();
        assert(field_views(fields@) =~= Seq::<FieldView>::empty());
        Object { fields }
    }

    /// The number of fields.
    pub fn len(&self) -> (n: usize)
        ensures
            n == self.entries().len(),
    {
        self.fields.len()
    }

    /// The fields, in order. Their names are distinct.
    pub fn fields(&self) -> (fields: &Vec<Field>)
        ensures
            field_views(fields@) == self.entries(),
            distinct_names(self.entries()),
    {
        proof {
            use_type_invariant(self);
        }
        &self.fields
    }

    /// The position of the field called `name`, if there is one.
    fn position(&self, name: &str) -> (at: usize)
        ensures
            at == index_of(self.entries(), name@),
            at <= self.entries().len(),
    {
        let mut i: usize = 0;
        while i < self.fields.len() && !same_text(self.fields[i].name.as_str(), name)
            invariant
                0 <= i <= self.fields.len(),
                forall|j: int| 0 <= j < i ==> (#[trigger] self.entries()[j]).name != name@,
            decreases self.fields.len() - i,
        {
            i = i + 1;
        }
        proof {
            lemma_index_of(self.entries(), name@, i as int);
        }
        i
    }

    /// The value of the field called `name`, if there is one.
    pub fn get(&self, name: &str) -> (value: Option<&Value>)
        ensures
            value is Some <==> self@.contains_key(name@),
            value matches Some(v) ==> v@ == self@[name@],
    {
        let at = self.position(name);
        if at < self.fields.len() {
            Some(&self.fields[at].value)
        } else {
            None
        }
    }

    /// Gives the field called `name` the value `value`. A field that exists
    /// keeps its place; a new one comes last.
    pub fn insert(&mut self, name: String, value: Value)
        ensures
            final(self)@ == old(self)@.insert(name@, value@),
            final(self).entries() == put(
                old(self).entries(),
                FieldView { name: name@, value: value@ },
            ),
    {
        proof {
            use_type_invariant(&*self);
        }
        let ghost before = self.entries();
        let ghost entry = FieldView { name: name@, value: value@ };
        let at = self.position(name.as_str());
        let mut fields: Vec<Field> = Vec::new();
        core::mem::swap(&mut self.fields, &mut fields);
        if at < fields.len() {
            fields[at] = Field { name, value };
            proof {
                lemma_replace(before, entry);
                assert(field_views(fields@) =~= before.update(at as int, entry));
            }
        } else {
            fields.push(Field { name, value });
            proof {
                lemma_append(before, entry);
                assert(field_views(fields@) =~= before.push(entry));
            }
        }
        self.fields = fields;
    }

    /// The object in which each of `fields` has been written in turn.
    pub fn from_fields(fields: Vec<Field>) -> (object: Self)
        ensures
            object.entries() == written(field_views(fields@)),
    {
        let ghost all = field_views(fields@);
        let n = fields.len();
        let mut object = Object::new();
        let mut i: usize = 0;
        for field in it: fields
            invariant
                i == it.index(),
                n == all.len(),
                field_views(it.seq()) == all,
                object.entries() == written(all.take(i as int)),
        {
            assert(all.take(i + 1).drop_last() =~= all.take(i as int));
            assert(all[i as int] == field@);
            object.insert(field.name, field.value);
            i = i + 1;
        }
        assert(all.take(i as int) =~= all);
        object
    }
}

/// Fields with distinct names are written as they stand.
pub proof fn lemma_written_distinct(fields: Seq<FieldView>)
    requires
        distinct_names(fields),
    ensures
        written(fields) == fields,
    decreases fields.len(),
{
    if fields.len() > 0 {
        let init = fields.drop_last();
        lemma_written_distinct(init);
        lemma_index_of(init, fields.last().name, init.len() as int);
        assert(init.push(fields.last()) =~= fields);
    }
}

/// Writing a new value into the first field of a name leaves the names
/// distinct and changes the mapping at that name only.
pub proof fn lemma_replace(fields: Seq<FieldView>, entry: FieldView)
    requires
        distinct_names(fields),
        index_of(fields, entry.name) < fields.len(),
    ensures
        distinct_names(fields.update(index_of(fields, entry.name), entry)),
        mapping(fields.update(index_of(fields, entry.name), entry)) == mapping(fields).insert(
            entry.name,
            entry.value,
        ),
{
    lemma_index_of_first(fields, entry.name);
    let after = fields.update(index_of(fields, entry.name), entry);
    assert forall|key: Seq<char>|
        0 <= #[trigger] index_of(after, key) == index_of(fields, key) && (index_of(fields, key)
            < fields.len() ==> fields[index_of(fields, key)].name == key) by {
        lemma_index_of_first(fields, key);
        lemma_index_of(after, key, index_of(fields, key));
    }
    assert(mapping(after) =~= mapping(fields).insert(entry.name, entry.value));
}

/// Adding a field of a new name at the end leaves the names distinct and
/// adds that name to the mapping.
pub proof fn lemma_append(fields: Seq<FieldView>, entry: FieldView)
    requires
        distinct_names(fields),
        index_of(fields, entry.name) >= fields.len(),
    ensures
        distinct_names(fields.push(entry)),
        mapping(fields.push(entry)) == mapping(fields).insert(entry.name, entry.value),
{
    lemma_index_of_first(fields, entry.name);
    let after = fields.push(entry);
    assert forall|key: Seq<char>|
        0 <= #[trigger] index_of(after, key) == (if key == entry.name || index_of(fields, key)
            < fields.len() {
            index_of(fields, key)
        } else {
            after.len() as int
        }) by {
        lemma_index_of_first(fields, key);
        if index_of(fields, key) < fields.len() {
            lemma_index_of(after, key, index_of(fields, key));
        } else if key == entry.name {
            lemma_index_of(after, key, fields.len() as int);
        } else {
            lemma_index_of(after, key, after.len() as int);
        }
    }
    assert(mapping(after) =~= mapping(fields).insert(entry.name, entry.value));
}

} // verus!
