use type_identity::identity::Identity;
use type_identity::resolver::{
    find_seed, generic_slots, resolve, Attribute, AttributeLiteral, GenericParam, GenericSlot,
    ResolveError, TypeDeclaration,
};

fn uuid_attr(text: &str) -> Attribute {
    Attribute::NameValue {
        name: Some("uuid".to_string()),
        literal: AttributeLiteral::Str(text.to_string()),
    }
}

fn declaration(generics: Vec<GenericParam>, attributes: Vec<Attribute>) -> TypeDeclaration {
    TypeDeclaration { name: "Pair".to_string(), subject_is_name: true, generics, attributes }
}

const SEED_TEXT: &str = "12345678-1234-1234-1234-123456789abc";
const SEED: u128 = 0x12345678_1234_1234_1234_123456789abc;

#[test]
fn missing_seed_is_an_error() {
    assert_eq!(find_seed(&vec![]), Err(ResolveError::MissingIdentity));
    let others = vec![
        Attribute::Other { name: None },
        Attribute::Other { name: Some("doc".to_string()) },
        Attribute::NameValue { name: Some("doc".to_string()), literal: AttributeLiteral::Str(SEED_TEXT.to_string()) },
        Attribute::NameValue { name: None, literal: AttributeLiteral::Str(SEED_TEXT.to_string()) },
    ];
    assert_eq!(find_seed(&others), Err(ResolveError::MissingIdentity));
    assert_eq!(resolve(&declaration(vec![], others)), Err(ResolveError::MissingIdentity));
}

#[test]
fn malformed_seed_text_is_an_error() {
    assert_eq!(find_seed(&vec![uuid_attr("not a uuid")]), Err(ResolveError::MalformedIdentity));
    assert_eq!(
        find_seed(&vec![uuid_attr("123456781234123412341234567879ab")]),
        Err(ResolveError::MalformedIdentity)
    );
}

#[test]
fn non_string_seed_literal_is_an_error() {
    let attrs = vec![Attribute::NameValue { name: Some("uuid".to_string()), literal: AttributeLiteral::Other }];
    assert_eq!(find_seed(&attrs), Err(ResolveError::MalformedAttributeShape));
}

#[test]
fn first_faulty_seed_attribute_stops_the_scan() {
    let attrs = vec![uuid_attr("bad"), uuid_attr(SEED_TEXT)];
    assert_eq!(find_seed(&attrs), Err(ResolveError::MalformedIdentity));
    let attrs = vec![uuid_attr("bad"), Attribute::NameValue { name: Some("uuid".to_string()), literal: AttributeLiteral::Other }];
    assert_eq!(find_seed(&attrs), Err(ResolveError::MalformedIdentity));
}

#[test]
fn second_seed_attribute_is_an_error() {
    let first = uuid_attr("00000000-0000-0000-0000-000000000001");
    let attrs = vec![first, Attribute::Other { name: None }, uuid_attr(SEED_TEXT)];
    assert_eq!(find_seed(&attrs), Err(ResolveError::DuplicateIdentity));
    let attrs = vec![uuid_attr(SEED_TEXT), uuid_attr(SEED_TEXT)];
    assert_eq!(find_seed(&attrs), Err(ResolveError::DuplicateIdentity));
    let attrs = vec![uuid_attr(SEED_TEXT), Attribute::Other { name: Some("uuid".to_string()) }];
    assert_eq!(find_seed(&attrs), Err(ResolveError::DuplicateIdentity));
    let decl = declaration(vec![], vec![uuid_attr(SEED_TEXT), uuid_attr(SEED_TEXT)]);
    assert_eq!(resolve(&decl), Err(ResolveError::DuplicateIdentity));
}

#[test]
fn seed_attribute_without_a_value_is_an_error() {
    let attrs = vec![Attribute::Other { name: Some("uuid".to_string()) }];
    assert_eq!(find_seed(&attrs), Err(ResolveError::MalformedAttributeShape));
    let attrs = vec![Attribute::Other { name: Some("derive".to_string()) }, uuid_attr(SEED_TEXT)];
    assert_eq!(find_seed(&attrs), Ok(Identity { value: SEED }));
}

#[test]
fn slots_follow_type_parameters_only() {
    let generics = vec![
        GenericParam::Lifetime("a".to_string()),
        GenericParam::Type("K".to_string()),
        GenericParam::Const("N".to_string()),
        GenericParam::Type("V".to_string()),
    ];
    assert_eq!(
        generic_slots(&generics),
        vec![
            GenericSlot { ordinal: 0, name: "K".to_string() },
            GenericSlot { ordinal: 1, name: "V".to_string() },
        ]
    );
    assert_eq!(generic_slots(&vec![]), vec![]);
}

#[test]
fn resolve_builds_the_engine_input() {
    let decl = declaration(
        vec![GenericParam::Type("A".to_string()), GenericParam::Type("B".to_string())],
        vec![uuid_attr(SEED_TEXT)],
    );
    let input = resolve(&decl).unwrap();
    assert_eq!(input.seed, Identity { value: SEED });
    assert_eq!(input.slots.len(), 2);
    assert_eq!(input.slots[1], GenericSlot { ordinal: 1, name: "B".to_string() });
    assert!(input.echo_type_generics);
    let params = vec![Identity { value: 3 }, Identity { value: 4 }];
    assert_eq!(input.identity_for(&params), type_identity::engine::compose(input.seed, &params));
    assert_ne!(input.identity_for(&params), input.seed);

    let mut bare = decl.clone();
    bare.subject_is_name = false;
    assert!(!resolve(&bare).unwrap().echo_type_generics);
}

#[test]
fn resolved_seed_without_generics_is_the_identity() {
    let input = resolve(&declaration(vec![], vec![uuid_attr(SEED_TEXT)])).unwrap();
    assert_eq!(input.slots, vec![]);
    assert_eq!(input.identity_for(&vec![]), Identity { value: SEED });
}
