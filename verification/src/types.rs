//! Constant values of the language, and the containers that live on the heap
//! of the machine: objects and arrays.

use ordermap::OrderMap;
use vstd::prelude::*;

verus! {

/// A constant of the language, as it stands in source text and in the literal
/// pool of a compiled program.
///
/// A float is held as the 64 bits of its IEEE 754 double, so that constants can
/// be stored, compared and copied without doing arithmetic on them.
#[derive(Debug, PartialEq)]
pub enum Literal {
    String(String),
    Float(u64),
    Integer(i64),
    Boolean(bool),
}

/// What a [`Literal`] stands for.
pub enum LiteralView {
    String(Seq<char>),
    Float(u64),
    Integer(i64),
    Boolean(bool),
}

impl View for Literal {
    type V = LiteralView;

    open spec fn view(&self) -> LiteralView {
        match *self {
            Literal::String(s) => LiteralView::String(s@),
            Literal::Float(bits) => LiteralView::Float(bits),
            Literal::Integer(n) => LiteralView::Integer(n),
            Literal::Boolean(b) => LiteralView::Boolean(b),
        }
    }
}

impl Clone for Literal {
    fn clone(&self) -> (res: Self)
        ensures
            res@ == self@,
    {
        match self {
            Literal::String(s) => Literal::String(s.clone()),
            Literal::Float(bits) => Literal::Float(*bits),
            Literal::Integer(n) => Literal::Integer(*n),
            Literal::Boolean(b) => Literal::Boolean(*b),
        }
    }
}

impl Literal {
    /// Whether two literals are the same constant: the same kind with the same
    /// content. Floats are the same when their bits are.
    pub fn same(&self, other: &Literal) -> (r: bool)
        ensures
            r == (self@ == other@),
    {
        match self {
            Literal::String(a) => match other {
                Literal::String(b) => *a == *b,
                _ => false,
            },
            Literal::Float(a) => match other {
                Literal::Float(b) => *a == *b,
                _ => false,
            },
            Literal::Integer(a) => match other {
                Literal::Integer(b) => *a == *b,
                _ => false,
            },
            Literal::Boolean(a) => match other {
                Literal::Boolean(b) => *a == *b,
                _ => false,
            },
        }
    }

    /// Whether this is an integer or a float.
    pub open spec fn is_numeric(self) -> bool {
        self is Integer || self is Float
    }
}

impl LiteralView {
    /// Whether this is an integer or a float.
    pub open spec fn is_numeric(self) -> bool {
        self is Integer || self is Float
    }
}

/// The views of a sequence of literals, in order.
pub open spec fn literal_views(literals: Seq<Literal>) -> Seq<LiteralView> {
    Seq::new(literals.len(), |i: int| literals[i]@)
}

/// What a field of an object or a slot of an array holds. Objects, arrays and
/// functions are held by handle: the position of the container on the heap of
/// the machine, or of the function in its table. Copies of a handle all reach
/// the same container.
#[derive(Debug, PartialEq)]
pub enum ObjectValue {
    Nil,
    Object(usize),
    Array(usize),
    Literal(Literal),
    Function(usize),
}

/// What an [`ObjectValue`] stands for.
pub enum ObjectValueView {
    Nil,
    Object(usize),
    Array(usize),
    Literal(LiteralView),
    Function(usize),
}

impl View for ObjectValue {
    type V = ObjectValueView;

    open spec fn view(&self) -> ObjectValueView {
        match *self {
            ObjectValue::Nil => ObjectValueView::Nil,
            ObjectValue::Object(handle) => ObjectValueView::Object(handle),
            ObjectValue::Array(handle) => ObjectValueView::Array(handle),
            ObjectValue::Literal(literal) => ObjectValueView::Literal(literal@),
            ObjectValue::Function(position) => ObjectValueView::Function(position),
        }
    }
}

impl Clone for ObjectValue {
    fn clone(&self) -> (res: Self)
        ensures
            res@ == self@,
    {
        match self {
            ObjectValue::Nil => ObjectValue::Nil,
            ObjectValue::Object(handle) => ObjectValue::Object(*handle),
            ObjectValue::Array(handle) => ObjectValue::Array(*handle),
            ObjectValue::Literal(literal) => ObjectValue::Literal(literal.clone()),
            ObjectValue::Function(position) => ObjectValue::Function(*position),
        }
    }
}

/// The views of a sequence of values, in order.
pub open spec fn value_views(values: Seq<ObjectValue>) -> Seq<ObjectValueView> {
    Seq::new(values.len(), |i: int| values[i]@)
}

/// A dense list of values, indexed from 0.
#[derive(Debug, PartialEq)]
pub struct Array {
    this: Vec<ObjectValue>,
}

/// The list after a store at `idx`: a list that is too short is first grown
/// with `Nil` to twice the length that would hold `idx`.
pub open spec fn array_store(slots: Seq<ObjectValueView>, idx: int, v: ObjectValueView) -> Seq<
    ObjectValueView,
> {
    if idx >= slots.len() {
        (slots + Seq::new((2 * (idx + 1) - slots.len()) as nat, |i: int| ObjectValueView::Nil)).update(
            idx,
            v,
        )
    } else {
        slots.update(idx, v)
    }
}

impl View for Array {
    type V = Seq<ObjectValueView>;

    closed spec fn view(&self) -> Seq<ObjectValueView> {
        value_views(self.this@)
    }
}

impl Array {
    /// An empty array, for the machine to put on its heap.
    pub fn create_for_vm() -> (array: Self)
        ensures
            array@ == Seq::<ObjectValueView>::empty(),
    {
        let array = Array { this: Vec::new() };
        assert(array@ =~= Seq::<ObjectValueView>::empty());
        array
    }

    /// How many slots the array has.
    pub fn len(&self) -> (n: usize)
        ensures
            n == self@.len(),
    {
        self.this.len()
    }

    /// Stores `v` at `idx`, growing the array where it is too short.
    pub fn set(&mut self, idx: usize, v: ObjectValue)
        requires
            2 * (idx + 1) <= usize::MAX,
        ensures
            final(self)@ == array_store(old(self)@, idx as int, v@),
    {
        if idx >= self.this.len() {
            let target = 2 * (idx + 1);
            let ghost before = self@;
            while self.this.len() < target
                invariant
                    before.len() <= self.this.len() <= target,
                    self@.len() == self.this.len(),
                    self@ =~= before + Seq::new(
                        (self.this.len() - before.len()) as nat,
                        |i: int| ObjectValueView::Nil,
                    ),
                decreases target - self.this.len(),
            {
                let ghost shorter = self@;
                self.this.push(ObjectValue::Nil);
                assert(self@ =~= shorter.push(ObjectValueView::Nil));
            }
        }
        let ghost grown = self@;
        self.this.set(idx, v);
        assert(self@ =~= grown.update(idx as int, v@));
    }

    /// The value at `idx`, if the array reaches that far.
    pub fn index(&self, idx: usize) -> (r: Option<ObjectValue>)
        ensures
            match r {
                Some(value) => idx < self@.len() && value@ == self@[idx as int],
                None => idx >= self@.len(),
            },
    {
        if idx < self.this.len() {
            Some(self.this[idx].clone())
        } else {
            None
        }
    }
}

/// `ordermap::OrderMap`, a hash map that keeps its entries in the order in
/// which their keys were first inserted. Nothing is known of a value of it but
/// what the functions below say of its entries.
#[verifier::external_type_specification]
#[verifier::external_body]
#[verifier::reject_recursive_types(K)]
#[verifier::reject_recursive_types(V)]
#[verifier::reject_recursive_types(S)]
pub struct ExOrderMap<K, V, S>(OrderMap<K, V, S>);

/// The entries of the map of an object, in the order in which the map holds
/// them: each key with its value.
pub uninterp spec fn ordered_entries(map: OrderMap<String, ObjectValue>) -> Seq<
    (Seq<char>, ObjectValue),
>;

/// The first position at or after `from` at which `key` stands.
pub open spec fn key_position(entries: Seq<(Seq<char>, ObjectValue)>, key: Seq<char>, from: int) -> Option<
    int,
>
    decreases entries.len() - from,
{
    if from < 0 || from >= entries.len() {
        None
    } else if entries[from].0 == key {
        Some(from)
    } else {
        key_position(entries, key, from + 1)
    }
}

/// The entries after `key` has been given `value`: a key that is there keeps
/// its place and gets the value; a new key goes to the end.
pub open spec fn entries_insert(
    entries: Seq<(Seq<char>, ObjectValue)>,
    key: Seq<char>,
    value: ObjectValue,
) -> Seq<(Seq<char>, ObjectValue)> {
    match key_position(entries, key, 0) {
        Some(position) => entries.update(position, (key, value)),
        None => entries.push((key, value)),
    }
}

/// The value that the entries hold for `key`.
pub open spec fn entries_get(entries: Seq<(Seq<char>, ObjectValue)>, key: Seq<char>) -> Option<
    ObjectValue,
> {
    match key_position(entries, key, 0) {
        Some(position) => Some(entries[position].1),
        None => None,
    }
}

/// `OrderMap::new`: the new map has no entries.
#[verifier::external_body]
fn ordered_new() -> (map: OrderMap<String, ObjectValue>)
    ensures
        ordered_entries(map) == Seq::<(Seq<char>, ObjectValue)>::empty(),
{
    OrderMap::new()
}

/// `OrderMap::insert`: a key that the map holds keeps its place in the order
/// and gets the new value; a key that it does not hold is added with the value
/// at the end of the order. No other entry changes.
#[verifier::external_body]
fn ordered_insert(map: &mut OrderMap<String, ObjectValue>, key: String, value: ObjectValue)
    ensures
        ordered_entries(*final(map)) == entries_insert(ordered_entries(*old(map)), key@, value),
{
    map.insert(key, value);
}

/// `OrderMap::get`: the value stored for the key, if the map holds the key.
#[verifier::external_body]
fn ordered_get<'a>(map: &'a OrderMap<String, ObjectValue>, key: &str) -> (value: Option<
    &'a ObjectValue,
>)
    ensures
        match value {
            Some(found) => entries_get(ordered_entries(*map), key@) == Some(*found),
            None => entries_get(ordered_entries(*map), key@) is None,
        },
{
    map.get(key)
}

/// An object: named fields in the order in which they were first set.
#[derive(Debug, PartialEq)]
pub struct Object {
    fields: OrderMap<String, ObjectValue>,
}

/// The fields of an object, in order: names and what the values stand for.
pub open spec fn field_views(entries: Seq<(Seq<char>, ObjectValue)>) -> Seq<
    (Seq<char>, ObjectValueView),
> {
    Seq::new(entries.len(), |i: int| (entries[i].0, entries[i].1@))
}

/// The first position at or after `from` of the field called `name`.
pub open spec fn field_position(
    fields: Seq<(Seq<char>, ObjectValueView)>,
    name: Seq<char>,
    from: int,
) -> Option<int>
    decreases fields.len() - from,
{
    if from < 0 || from >= fields.len() {
        None
    } else if fields[from].0 == name {
        Some(from)
    } else {
        field_position(fields, name, from + 1)
    }
}

/// The fields after `name` has been set to `value`: a field that exists keeps
/// its place; a new field goes to the end.
pub open spec fn fields_insert(
    fields: Seq<(Seq<char>, ObjectValueView)>,
    name: Seq<char>,
    value: ObjectValueView,
) -> Seq<(Seq<char>, ObjectValueView)> {
    match field_position(fields, name, 0) {
        Some(position) => fields.update(position, (name, value)),
        None => fields.push((name, value)),
    }
}

/// The value of the field called `name`.
pub open spec fn fields_get(fields: Seq<(Seq<char>, ObjectValueView)>, name: Seq<char>) -> Option<
    ObjectValueView,
> {
    match field_position(fields, name, 0) {
        Some(position) => Some(fields[position].1),
        None => None,
    }
}

proof fn lemma_positions_agree(entries: Seq<(Seq<char>, ObjectValue)>, name: Seq<char>, from: int)
    ensures
        key_position(entries, name, from) == field_position(field_views(entries), name, from),
    decreases entries.len() - from,
{
    if 0 <= from < entries.len() {
        if entries[from].0 != name {
            lemma_positions_agree(entries, name, from + 1);
        }
    }
}

proof fn lemma_position_in_range(entries: Seq<(Seq<char>, ObjectValue)>, name: Seq<char>, from: int)
    ensures
        key_position(entries, name, from) matches Some(position) ==> from <= position
            < entries.len(),
    decreases entries.len() - from,
{
    if 0 <= from < entries.len() {
        if entries[from].0 != name {
            lemma_position_in_range(entries, name, from + 1);
        }
    }
}

impl View for Object {
    type V = Seq<(Seq<char>, ObjectValueView)>;

    closed spec fn view(&self) -> Seq<(Seq<char>, ObjectValueView)> {
        field_views(ordered_entries(self.fields))
    }
}

impl Object {
    /// An object without fields, for the machine to put on its heap.
    pub fn create_for_vm() -> (object: Self)
        ensures
            object@ == Seq::<(Seq<char>, ObjectValueView)>::empty(),
    {
        let object = Object { fields: ordered_new() };
        assert(object@ =~= Seq::<(Seq<char>, ObjectValueView)>::empty());
        object
    }

    /// Sets the field `k` to `v`.
    pub fn insert(&mut self, k: String, v: ObjectValue)
        ensures
            final(self)@ == fields_insert(old(self)@, k@, v@),
    {
        let ghost before = ordered_entries(self.fields);
        ordered_insert(&mut self.fields, k, v);
        proof {
            lemma_positions_agree(before, k@, 0);
            lemma_position_in_range(before, k@, 0);
            assert(self@ =~= fields_insert(old(self)@, k@, v@));
        }
    }

    /// The value of the field that the string `idx` names, if the object has
    /// the field.
    pub fn index(&self, idx: &Literal) -> (r: Option<ObjectValue>)
        requires
            idx is String,
        ensures
            match r {
                Some(value) => fields_get(self@, idx->String_0@) == Some(value@),
                None => fields_get(self@, idx->String_0@) is None,
            },
    {
        match idx {
            Literal::String(s) => {
                proof {
                    lemma_positions_agree(ordered_entries(self.fields), s@, 0);
                    lemma_position_in_range(ordered_entries(self.fields), s@, 0);
                }
                match ordered_get(&self.fields, s.as_str()) {
                    Some(value) => Some(value.clone()),
                    None => None,
                }
            },
            _ => None,
        }
    }

    /// The map that holds the fields, for reading them in order.
    pub fn fields(&self) -> (fields: &OrderMap<String, ObjectValue>)
        ensures
            field_views(ordered_entries(*fields)) == self@,
    {
        &self.fields
    }
}

} // verus!
