//! The types that the typechecker knows, and its table of names.

use vstd::prelude::*;
use vstd::std_specs::cmp::PartialEqSpecImpl;
use vstd::string::StringExecFns;

verus! {

/// The type of a value. An object has the types of its fields, in the order
/// in which the fields were written; two object types are the same only when
/// names, types and order agree.
#[derive(Debug)]
pub enum DefinedType {
    String,
    I64,
    F64,
    Bool,
    Nil,
    Object { fields: Vec<(String, DefinedType)> },
    Array(Box<DefinedType>),
}

/// What a [`DefinedType`] stands for.
pub enum DefinedTypeView {
    String,
    I64,
    F64,
    Bool,
    Nil,
    Object { fields: Seq<(Seq<char>, DefinedTypeView)> },
    Array(Box<DefinedTypeView>),
}

/// The view of a type.
pub open spec fn type_view(t: DefinedType) -> DefinedTypeView
    decreases t, 0nat,
{
    match t {
        DefinedType::String => DefinedTypeView::String,
        DefinedType::I64 => DefinedTypeView::I64,
        DefinedType::F64 => DefinedTypeView::F64,
        DefinedType::Bool => DefinedTypeView::Bool,
        DefinedType::Nil => DefinedTypeView::Nil,
        DefinedType::Object { fields } => DefinedTypeView::Object {
            fields: field_type_views(fields@, fields@.len() as int),
        },
        DefinedType::Array(element) => DefinedTypeView::Array(Box::new(type_view(*element))),
    }
}

/// The views of the first `count` fields of an object type.
pub open spec fn field_type_views(fields: Seq<(String, DefinedType)>, count: int) -> Seq<
    (Seq<char>, DefinedTypeView),
>
    decreases fields, count,
{
    if count <= 0 || count > fields.len() {
        Seq::empty()
    } else {
        field_type_views(fields, count - 1).push(
            (fields[count - 1].0@, type_view(fields[count - 1].1)),
        )
    }
}

/// The views of the first `count` fields are the views of those fields, one
/// for one.
pub proof fn lemma_field_type_views(fields: Seq<(String, DefinedType)>, count: int)
    requires
        0 <= count <= fields.len(),
    ensures
        field_type_views(fields, count).len() == count,
        forall|i: int|
            0 <= i < count ==> field_type_views(fields, count)[i] == (
                fields[i].0@,
                type_view(fields[i].1),
            ),
    decreases count,
{
    if count > 0 {
        lemma_field_type_views(fields, count - 1);
    }
}

impl View for DefinedType {
    type V = DefinedTypeView;

    open spec fn view(&self) -> DefinedTypeView {
        type_view(*self)
    }
}

impl DefinedTypeView {
    /// Whether this is the type of an integer or of a float.
    pub open spec fn is_numeric(self) -> bool {
        self is I64 || self is F64
    }
}

/// The text of a type, as error messages show it.
pub open spec fn type_text(t: DefinedTypeView) -> Seq<char>
    decreases t, 0nat,
{
    match t {
        DefinedTypeView::String => "String"@,
        DefinedTypeView::I64 => "I64"@,
        DefinedTypeView::F64 => "F64"@,
        DefinedTypeView::Bool => "Bool"@,
        DefinedTypeView::Nil => "Nil"@,
        DefinedTypeView::Object { fields } => "Object { fields: {"@ + fields_text(
            fields,
            fields.len() as int,
        ) + "} }"@,
        DefinedTypeView::Array(element) => "Array("@ + type_text(*element) + ")"@,
    }
}

/// The text of the first `count` fields of an object type: each name in
/// double quotes with the text of its type, with commas between them.
pub open spec fn fields_text(fields: Seq<(Seq<char>, DefinedTypeView)>, count: int) -> Seq<char>
    decreases fields, count,
{
    if count <= 0 || count > fields.len() {
        Seq::empty()
    } else {
        fields_text(fields, count - 1) + (if count > 1 {
            ", "@
        } else {
            Seq::empty()
        }) + "\""@ + fields[count - 1].0 + "\": "@ + type_text(fields[count - 1].1)
    }
}

impl DefinedType {
    /// Whether two types are the same.
    pub fn same(&self, other: &DefinedType) -> (r: bool)
        ensures
            r == (self@ == other@),
        decreases self,
    {
        match self {
            DefinedType::String => match other {
                DefinedType::String => true,
                _ => false,
            },
            DefinedType::I64 => match other {
                DefinedType::I64 => true,
                _ => false,
            },
            DefinedType::F64 => match other {
                DefinedType::F64 => true,
                _ => false,
            },
            DefinedType::Bool => match other {
                DefinedType::Bool => true,
                _ => false,
            },
            DefinedType::Nil => match other {
                DefinedType::Nil => true,
                _ => false,
            },
            DefinedType::Object { fields } => match other {
                DefinedType::Object { fields: other_fields } => same_fields(fields, other_fields),
                _ => false,
            },
            DefinedType::Array(element) => match other {
                DefinedType::Array(other_element) => element.same(other_element),
                _ => false,
            },
        }
    }

    /// A copy of the type.
    pub fn duplicate(&self) -> (copy: DefinedType)
        ensures
            copy@ == self@,
        decreases self,
    {
        match self {
            DefinedType::String => DefinedType::String,
            DefinedType::I64 => DefinedType::I64,
            DefinedType::F64 => DefinedType::F64,
            DefinedType::Bool => DefinedType::Bool,
            DefinedType::Nil => DefinedType::Nil,
            DefinedType::Object { fields } => DefinedType::Object {
                fields: duplicate_fields(fields),
            },
            DefinedType::Array(element) => DefinedType::Array(Box::new(element.duplicate())),
        }
    }

    /// The text of the type, as error messages show it.
    pub fn describe(&self) -> (text: String)
        ensures
            text@ == type_text(self@),
        decreases self,
    {
        match self {
            DefinedType::String => "String".to_owned(),
            DefinedType::I64 => "I64".to_owned(),
            DefinedType::F64 => "F64".to_owned(),
            DefinedType::Bool => "Bool".to_owned(),
            DefinedType::Nil => "Nil".to_owned(),
            DefinedType::Object { fields } => {
                let mut text = "Object { fields: {".to_owned();
                let inner = describe_fields(fields);
                text.append(inner.as_str());
                text.append("} }");
                assert(self@ == DefinedTypeView::Object {
                    fields: field_type_views(fields@, fields@.len() as int),
                });
                assert(field_type_views(fields@, fields@.len() as int).len() == fields@.len()) by {
                    lemma_field_type_views(fields@, fields@.len() as int);
                }
                text
            },
            DefinedType::Array(element) => {
                let mut text = "Array(".to_owned();
                let inner = element.describe();
                text.append(inner.as_str());
                text.append(")");
                text
            },
        }
    }
}

fn same_fields(fields: &Vec<(String, DefinedType)>, other_fields: &Vec<(String, DefinedType)>) -> (r:
    bool)
    ensures
        r == (field_type_views(fields@, fields@.len() as int) == field_type_views(
            other_fields@,
            other_fields@.len() as int,
        )),
    decreases fields,
{
    let ghost views = field_type_views(fields@, fields@.len() as int);
    let ghost other_views = field_type_views(other_fields@, other_fields@.len() as int);
    proof {
        lemma_field_type_views(fields@, fields@.len() as int);
        lemma_field_type_views(other_fields@, other_fields@.len() as int);
    }
    if fields.len() != other_fields.len() {
        return false;
    }
    let mut i: usize = 0;
    while i < fields.len()
        invariant
            i <= fields.len(),
            fields.len() == other_fields.len(),
            views == field_type_views(fields@, fields@.len() as int),
            other_views == field_type_views(other_fields@, other_fields@.len() as int),
            views.len() == fields.len(),
            other_views.len() == fields.len(),
            forall|j: int|
                0 <= j < fields.len() ==> views[j] == (fields@[j].0@, type_view(fields@[j].1)),
            forall|j: int|
                0 <= j < fields.len() ==> other_views[j] == (
                    other_fields@[j].0@,
                    type_view(other_fields@[j].1),
                ),
            forall|j: int| 0 <= j < i ==> views[j] == other_views[j],
        decreases fields.len() - i,
    {
        if !(fields[i].0 == other_fields[i].0) {
            assert(views[i as int] != other_views[i as int]);
            return false;
        }
        if !fields[i].1.same(&other_fields[i].1) {
            assert(views[i as int] != other_views[i as int]);
            return false;
        }
        i = i + 1;
    }
    assert(views =~= other_views);
    true
}

fn duplicate_fields(fields: &Vec<(String, DefinedType)>) -> (copies: Vec<(String, DefinedType)>)
    ensures
        field_type_views(copies@, copies@.len() as int) == field_type_views(
            fields@,
            fields@.len() as int,
        ),
    decreases fields,
{
    let mut copies: Vec<(String, DefinedType)> = Vec::new();
    let mut i: usize = 0;
    while i < fields.len()
        invariant
            i <= fields.len(),
            copies.len() == i,
            forall|j: int|
                0 <= j < i ==> copies@[j].0@ == fields@[j].0@ && type_view(copies@[j].1)
                    == type_view(fields@[j].1),
        decreases fields.len() - i,
    {
        copies.push((fields[i].0.clone(), fields[i].1.duplicate()));
        i = i + 1;
    }
    proof {
        lemma_field_type_views(fields@, fields@.len() as int);
        lemma_field_type_views(copies@, copies@.len() as int);
        assert(field_type_views(copies@, copies@.len() as int) =~= field_type_views(
            fields@,
            fields@.len() as int,
        ));
    }
    copies
}

fn describe_fields(fields: &Vec<(String, DefinedType)>) -> (text: String)
    ensures
        text@ == fields_text(
            field_type_views(fields@, fields@.len() as int),
            fields@.len() as int,
        ),
    decreases fields,
{
    let mut text = String::new();
    let ghost views = field_type_views(fields@, fields@.len() as int);
    proof {
        lemma_field_type_views(fields@, fields@.len() as int);
    }
    let mut i: usize = 0;
    while i < fields.len()
        invariant
            i <= fields.len(),
            views == field_type_views(fields@, fields@.len() as int),
            views.len() == fields.len(),
            forall|j: int|
                0 <= j < fields.len() ==> views[j] == (fields@[j].0@, type_view(fields@[j].1)),
            text@ == fields_text(views, i as int),
        decreases fields.len() - i,
    {
        if i > 0 {
            text.append(", ");
        }
        text.append("\"");
        text.append(fields[i].0.as_str());
        text.append("\": ");
        let inner = fields[i].1.describe();
        text.append(inner.as_str());
        i = i + 1;
        assert(text@ =~= fields_text(views, i as int));
    }
    text
}

impl PartialEq for DefinedType {
    fn eq(&self, other: &Self) -> (r: bool) {
        self.same(other)
    }
}

impl PartialEqSpecImpl for DefinedType {
    open spec fn obeys_eq_spec() -> bool {
        true
    }

    open spec fn eq_spec(&self, other: &Self) -> bool {
        self@ == other@
    }
}

impl Clone for DefinedType {
    fn clone(&self) -> (copy: Self)
        ensures
            copy@ == self@,
    {
        self.duplicate()
    }
}

/// What a list of definitions amounts to: each definition overrides what was
/// defined for its name before.
pub open spec fn definitions(entries: Seq<(String, DefinedType)>) -> Map<Seq<char>, DefinedTypeView>
    decreases entries.len(),
{
    if entries.len() == 0 {
        Map::empty()
    } else {
        definitions(entries.drop_last()).insert(entries.last().0@, entries.last().1@)
    }
}

proof fn lemma_definitions_skip(entries: Seq<(String, DefinedType)>, name: Seq<char>, from: int)
    requires
        0 <= from <= entries.len(),
        forall|j: int| from <= j < entries.len() ==> entries[j].0@ != name,
    ensures
        definitions(entries).dom().contains(name) == definitions(entries.take(from)).dom().contains(
            name,
        ),
        definitions(entries).dom().contains(name) ==> definitions(entries)[name] == definitions(
            entries.take(from),
        )[name],
    decreases entries.len() - from,
{
    if from == entries.len() {
        assert(entries.take(from) =~= entries);
    } else {
        let shorter = entries.drop_last();
        assert(shorter.take(from) =~= entries.take(from));
        lemma_definitions_skip(shorter, name, from);
    }
}

proof fn lemma_definitions_found(entries: Seq<(String, DefinedType)>, name: Seq<char>, at: int)
    requires
        0 <= at < entries.len(),
        entries[at].0@ == name,
        forall|j: int| at < j < entries.len() ==> entries[j].0@ != name,
    ensures
        definitions(entries).dom().contains(name),
        definitions(entries)[name] == entries[at].1@,
{
    lemma_definitions_skip(entries, name, at + 1);
    let upto = entries.take(at + 1);
    assert(upto.last() == entries[at]);
}

/// The newest definition of `name` among the entries.
fn find_definition<'a>(entries: &'a Vec<(String, DefinedType)>, name: &str) -> (found: Option<
    &'a DefinedType,
>)
    ensures
        match found {
            Some(t) => definitions(entries@).dom().contains(name@) && definitions(entries@)[name@]
                == t@,
            None => !definitions(entries@).dom().contains(name@),
        },
{
    let wanted = name.to_owned();
    let mut i: usize = entries.len();
    while i > 0
        invariant
            i <= entries.len(),
            wanted@ == name@,
            forall|j: int| i <= j < entries.len() ==> entries@[j].0@ != name@,
        decreases i,
    {
        i = i - 1;
        if entries[i].0 == wanted {
            proof {
                lemma_definitions_found(entries@, name@, i as int);
            }
            return Some(&entries[i].1);
        }
    }
    proof {
        lemma_definitions_skip(entries@, name@, 0);
        assert(entries@.take(0) =~= Seq::<(String, DefinedType)>::empty());
    }
    None
}

/// The names that one block of the program defines: the types of its
/// variables and the return types of its functions.
pub struct TypecheckerScope {
    type_map: Vec<(String, DefinedType)>,
    function_map: Vec<(String, DefinedType)>,
}

/// What a [`TypecheckerScope`] stands for.
pub struct TypeScopeView {
    pub types: Map<Seq<char>, DefinedTypeView>,
    pub functions: Map<Seq<char>, DefinedTypeView>,
}

impl View for TypecheckerScope {
    type V = TypeScopeView;

    closed spec fn view(&self) -> TypeScopeView {
        TypeScopeView {
            types: definitions(self.type_map@),
            functions: definitions(self.function_map@),
        }
    }
}

impl TypecheckerScope {
    /// A scope that defines nothing.
    pub fn new() -> (scope: Self)
        ensures
            scope@.types == Map::<Seq<char>, DefinedTypeView>::empty(),
            scope@.functions == Map::<Seq<char>, DefinedTypeView>::empty(),
    {
        Self { type_map: Vec::new(), function_map: Vec::new() }
    }

    /// Gives the variable `name` the type `defined`.
    pub fn define(&mut self, name: String, defined: DefinedType)
        ensures
            final(self)@.types == old(self)@.types.insert(name@, defined@),
            final(self)@.functions == old(self)@.functions,
    {
        let ghost before = self.type_map@;
        self.type_map.push((name, defined));
        assert(self.type_map@.drop_last() =~= before);
    }

    /// Gives the function `name` the return type `defined`.
    pub fn define_function_return(&mut self, name: String, defined: DefinedType)
        ensures
            final(self)@.functions == old(self)@.functions.insert(name@, defined@),
            final(self)@.types == old(self)@.types,
    {
        let ghost before = self.function_map@;
        self.function_map.push((name, defined));
        assert(self.function_map@.drop_last() =~= before);
    }

    /// The type of the variable `name`, if this scope defines it.
    pub fn get_type_for(&self, name: &str) -> (found: Option<&DefinedType>)
        ensures
            match found {
                Some(t) => self@.types.dom().contains(name@) && self@.types[name@] == t@,
                None => !self@.types.dom().contains(name@),
            },
    {
        find_definition(&self.type_map, name)
    }

    /// The return type of the function `name`, if this scope defines it.
    pub fn get_function_return_for(&self, name: &str) -> (found: Option<&DefinedType>)
        ensures
            match found {
                Some(t) => self@.functions.dom().contains(name@) && self@.functions[name@] == t@,
                None => !self@.functions.dom().contains(name@),
            },
    {
        find_definition(&self.function_map, name)
    }
}

} // verus!
