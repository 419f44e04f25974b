use mlua::error::Error;
use mlua::registry::{
    IndexResolution, NewIndexResolution, UserData, UserDataFields, UserDataMethods,
    UserDataRegistry,
};
use mlua::value::Value;

#[test]
fn reserved_names_fail_at_registration() {
    let mut reg = UserDataRegistry::new();
    assert_eq!(
        reg.add_meta_method("__gc", 1),
        Err(Error::MetaMethodRestricted("__gc".to_string()))
    );
    assert_eq!(
        reg.add_meta_field("__metatable", Value::Boolean(false)),
        Err(Error::MetaMethodRestricted("__metatable".to_string()))
    );
    assert_eq!(
        reg.add_meta_function("__mlua_internal", 2),
        Err(Error::MetaMethodRestricted("__mlua_internal".to_string()))
    );
    assert_eq!(reg.add_meta_method("__add", 3), Ok(()));
}

#[test]
fn index_resolution_follows_the_three_tiers() {
    let mut reg = UserDataRegistry::new();
    reg.add_field("x", Value::Integer(1));
    reg.add_field_method_get("computed", 10);
    reg.add_method("x", 20);
    reg.add_method("frob", 21);
    reg.add_meta_method("__index", 30).unwrap();

    // a static field shadows a method of the same name
    assert_eq!(reg.resolve_index("x"), IndexResolution::Field(Value::Integer(1)));
    // a computed getter is still first-tier
    assert_eq!(reg.resolve_index("computed"), IndexResolution::FieldGetter(10));
    // methods come second
    assert_eq!(reg.resolve_index("frob"), IndexResolution::Method(21));
    // the user-declared dispatcher is the last resort
    assert_eq!(reg.resolve_index("absent"), IndexResolution::Fallback(Value::Function(30)));
}

#[test]
fn index_resolution_without_fallback_is_absent() {
    let mut reg = UserDataRegistry::new();
    reg.add_method("frob", 1);
    assert_eq!(reg.resolve_index("nope"), IndexResolution::Absent);
}

#[test]
fn newindex_resolution() {
    let mut reg = UserDataRegistry::new();
    reg.add_field_method_set("x", 11);
    assert_eq!(reg.resolve_newindex("x"), NewIndexResolution::FieldSetter(11));
    assert_eq!(reg.resolve_newindex("y"), NewIndexResolution::Absent);
    reg.add_meta_method("__newindex", 12).unwrap();
    assert_eq!(reg.resolve_newindex("y"), NewIndexResolution::Fallback(Value::Function(12)));
}

#[test]
fn re_registration_replaces() {
    let mut reg = UserDataRegistry::new();
    reg.add_method("frob", 1);
    reg.add_method_mut("frob", 2);
    assert_eq!(reg.resolve_index("frob"), IndexResolution::Method(2));
}

#[test]
fn build_metatable_compiles_entries() {
    let mut reg = UserDataRegistry::new();
    reg.add_meta_field("__name", Value::Str("point".to_string())).unwrap();
    reg.add_meta_method("__len", 40).unwrap();
    let mt = reg.build_metatable();
    assert_eq!(
        mt,
        vec![
            ("__name".to_string(), Value::Str("point".to_string())),
            ("__len".to_string(), Value::Function(40)),
        ]
    );
}

struct Point;

impl UserData for Point {
    fn add_fields(fields: &mut UserDataRegistry) {
        fields.add_field("kind", Value::Str("point".to_string()));
    }

    fn add_methods(methods: &mut UserDataRegistry) {
        methods.add_method("norm", 50);
    }
}

#[test]
fn user_data_registration_collects_fields_and_methods() {
    let mut reg = UserDataRegistry::new();
    Point::register(&mut reg);
    assert_eq!(
        reg.resolve_index("kind"),
        IndexResolution::Field(Value::Str("point".to_string()))
    );
    assert_eq!(reg.resolve_index("norm"), IndexResolution::Method(50));
}
