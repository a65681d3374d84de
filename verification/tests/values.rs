use sol::error::DiagnosticEmitted;
use sol::types::{Array, Literal, Object, ObjectValue};
use sol::vm::registers::{Registers, REGISTER_CAPACITY};
use sol::vm::value::VMValue;
use sol::vm::{standard_library_has, to_loaded, to_stored};

fn number(n: i64) -> ObjectValue {
    ObjectValue::Literal(Literal::Integer(n))
}

fn key(name: &str) -> Literal {
    Literal::String(name.to_owned())
}

#[test]
fn an_object_keeps_its_fields_in_order() {
    let mut object = Object::create_for_vm();
    assert_eq!(object.index(&key("a")), None);
    object.insert("b".to_owned(), number(1));
    object.insert("a".to_owned(), number(2));
    object.insert("c".to_owned(), ObjectValue::Nil);
    assert_eq!(object.index(&key("a")), Some(number(2)));
    assert_eq!(object.index(&key("b")), Some(number(1)));
    assert_eq!(object.index(&key("c")), Some(ObjectValue::Nil));
    assert_eq!(object.index(&key("d")), None);
    let names: Vec<&String> = object.fields().keys().collect();
    assert_eq!(names, vec!["b", "a", "c"]);
}

#[test]
fn a_field_that_is_set_again_keeps_its_place() {
    let mut object = Object::create_for_vm();
    object.insert("first".to_owned(), number(1));
    object.insert("second".to_owned(), number(2));
    object.insert("first".to_owned(), number(3));
    assert_eq!(object.index(&key("first")), Some(number(3)));
    assert_eq!(object.index(&key("second")), Some(number(2)));
    let fields: Vec<(&String, &ObjectValue)> = object.fields().iter().collect();
    assert_eq!(
        fields,
        vec![(&"first".to_owned(), &number(3)), (&"second".to_owned(), &number(2))]
    );
}

#[test]
fn an_array_grows_to_twice_what_the_index_needs() {
    let mut array = Array::create_for_vm();
    assert_eq!(array.len(), 0);
    assert_eq!(array.index(0), None);
    array.set(2, number(7));
    assert_eq!(array.len(), 6);
    assert_eq!(array.index(2), Some(number(7)));
    assert_eq!(array.index(0), Some(ObjectValue::Nil));
    assert_eq!(array.index(5), Some(ObjectValue::Nil));
    assert_eq!(array.index(6), None);
    array.set(5, number(8));
    assert_eq!(array.len(), 6);
    array.set(6, number(9));
    assert_eq!(array.len(), 14);
    assert_eq!(array.index(2), Some(number(7)));
    assert_eq!(array.index(5), Some(number(8)));
    assert_eq!(array.index(6), Some(number(9)));
}

#[test]
fn literals_are_the_same_by_kind_and_content() {
    assert!(Literal::Integer(1).same(&Literal::Integer(1)));
    assert!(!Literal::Integer(1).same(&Literal::Integer(2)));
    assert!(!Literal::Integer(1).same(&Literal::Float(1)));
    assert!(Literal::Float(7).same(&Literal::Float(7)));
    assert!(Literal::String("a".to_owned()).same(&Literal::String("a".to_owned())));
    assert!(!Literal::String("a".to_owned()).same(&Literal::String("b".to_owned())));
    assert!(!Literal::Boolean(true).same(&Literal::Boolean(false)));
    assert_eq!(Literal::String("a".to_owned()).clone(), Literal::String("a".to_owned()));
}

#[test]
fn registers_start_empty() {
    let mut registers = Registers::new();
    assert_eq!(registers.len(), REGISTER_CAPACITY);
    assert_eq!(registers.regs().len(), 255);
    assert!(registers.regs().iter().all(|value| *value == VMValue::Empty));
    assert_eq!(registers.base_register(), 0);
    assert_eq!(registers.get(254), Some(&VMValue::Empty));
    assert!(registers.set(3, VMValue::Object(1)));
    assert_eq!(registers.get(3), Some(&VMValue::Object(1)));
    registers.update_base_register(2);
    assert_eq!(registers.base_register(), 2);
    assert_eq!(registers.get(1), Some(&VMValue::Object(1)));
    assert_eq!(registers.get(253), None);
    assert!(!registers.in_window(253));
    assert!(registers.in_window(252));
    assert!(!registers.set(253, VMValue::Array(0)));
    assert!(registers.set(252, VMValue::Array(0)));
    assert_eq!(registers.get_absolute(254), &VMValue::Array(0));
    registers.set_absolute(0, VMValue::Function(4));
    assert_eq!(registers.regs()[0], VMValue::Function(4));
    registers.update_base_register(300);
    assert_eq!(registers.get(0), None);
}

#[test]
fn values_go_into_containers_and_come_out() {
    assert_eq!(to_stored(&VMValue::Empty), None);
    assert_eq!(to_stored(&VMValue::Object(3)), Some(ObjectValue::Object(3)));
    assert_eq!(to_stored(&VMValue::Array(4)), Some(ObjectValue::Array(4)));
    assert_eq!(to_stored(&VMValue::Function(5)), Some(ObjectValue::Function(5)));
    assert_eq!(
        to_stored(&VMValue::Literal(Literal::Boolean(true))),
        Some(ObjectValue::Literal(Literal::Boolean(true)))
    );
    assert_eq!(to_loaded(None), VMValue::Empty);
    assert_eq!(to_loaded(Some(ObjectValue::Nil)), VMValue::Empty);
    assert_eq!(to_loaded(Some(ObjectValue::Object(3))), VMValue::Object(3));
    assert_eq!(to_loaded(Some(number(1))), VMValue::Literal(Literal::Integer(1)));
}

#[test]
fn the_standard_library_has_print() {
    assert!(standard_library_has("print"));
    assert!(!standard_library_has("println"));
    assert!(!standard_library_has(""));
}

#[test]
fn the_marker_has_no_text() {
    assert_eq!(DiagnosticEmitted.message(), "");
}
