//! Which traits can be used as `dyn`.
use phoenix_sema::info::TraitMethodInfo;
use phoenix_sema::object_safety::validate;
use phoenix_sema::types::Type;

fn method(name: &str, params: Vec<Type>, ret: Type) -> TraitMethodInfo {
    TraitMethodInfo {
        name: name.to_string(),
        params,
        return_type: ret,
    }
}

#[test]
fn plain_trait_is_object_safe() {
    let methods = vec![method("draw", vec![], Type::String)];
    assert_eq!(validate(&methods), None);
}

#[test]
fn self_in_return_rejects() {
    let methods = vec![method("clone", vec![], Type::Named("Self".into()))];
    assert!(validate(&methods).unwrap().contains("returns `Self`"));
}

#[test]
fn self_in_param_rejects() {
    let methods = vec![method("eq", vec![Type::Named("Self".into())], Type::Bool)];
    assert!(
        validate(&methods)
            .unwrap()
            .contains("parameter of type `Self`")
    );
}

#[test]
fn self_nested_in_generic_rejects() {
    let option_self = Type::Generic("Option".into(), vec![Type::Named("Self".into())]);
    let methods = vec![method("maybe", vec![], option_self)];
    assert!(validate(&methods).unwrap().contains("`Self`"));
}

#[test]
fn self_nested_in_function_rejects() {
    let fn_self = Type::Function(vec![Type::Int], Box::new(Type::Named("Self".into())));
    let methods = vec![method("make", vec![fn_self], Type::Void)];
    assert!(validate(&methods).unwrap().contains("`Self`"));
}

#[test]
fn self_nested_in_result_error_position_rejects() {
    let result_self = Type::Generic(
        "Result".into(),
        vec![Type::String, Type::Named("Self".into())],
    );
    let methods = vec![method("try_op", vec![], result_self)];
    let reason = validate(&methods)
        .expect("`Result<String, Self>` return must reject as not object-safe");
    assert!(
        reason.contains("`Self`"),
        "diagnostic should mention `Self`; got: {reason}"
    );
}

#[test]
fn self_nested_two_generic_levels_rejects() {
    let inner_map = Type::Generic("Map".into(), vec![Type::String, Type::Named("Self".into())]);
    let outer_list = Type::Generic("List".into(), vec![inner_map]);
    let methods = vec![method("dig", vec![outer_list], Type::Void)];
    assert!(validate(&methods).unwrap().contains("`Self`"));
}
