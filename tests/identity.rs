use skin_cache::identity::{create_id, Identity, IdentityInput};

#[test]
fn key_is_hex_id_and_flag() {
    let id = Identity { id: 0x069a79f444e94726a5befad1a6a6c6e6 };
    assert_eq!(create_id(&id, false), "069a79f444e94726a5befad1a6a6c6e60");
    assert_eq!(create_id(&id, true), "069a79f444e94726a5befad1a6a6c6e61");
}

#[test]
fn key_pads_small_ids() {
    assert_eq!(create_id(&Identity { id: 1 }, false), "000000000000000000000000000000010");
}

#[test]
fn keys_separate_flags_and_ids() {
    let a = Identity { id: 42 };
    let b = Identity { id: 43 };
    assert_ne!(create_id(&a, false), create_id(&a, true));
    assert_ne!(create_id(&a, false), create_id(&b, false));
    assert_eq!(create_id(&a, true), create_id(&a, true));
}

#[test]
fn parse_reads_ids_in_both_forms() {
    let v = 0x069a79f444e94726a5befad1a6a6c6e6u128;
    match IdentityInput::parse("069a79f4-44e9-4726-a5be-fad1a6a6c6e6") {
        IdentityInput::ById(id) => assert_eq!(id.id, v),
        other => panic!("not an id: {:?}", other),
    }
    match IdentityInput::parse("069a79f444e94726a5befad1a6a6c6e6") {
        IdentityInput::ById(id) => assert_eq!(id.id, v),
        other => panic!("not an id: {:?}", other),
    }
}

#[test]
fn parse_keeps_names() {
    match IdentityInput::parse("Notch") {
        IdentityInput::ByName(n) => assert_eq!(n, "Notch"),
        other => panic!("not a name: {:?}", other),
    }
}
