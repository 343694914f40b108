use beacon_macros::codegen::{
    member_selector_line, model_bindings, remove_struct_derive, schema, serialize_member_to_array,
    SchemaError,
};
use beacon_macros::hashing::{
    bytearrays_hash, compute_bytearray_hash, extract_quoted_string, is_whitespace,
    split_arguments, trim_whitespace, HashError,
};
use beacon_macros::parsers::{CairoStruct, Member, Ty, Visibility};
use beacon_macros::reading::derive_token_stream_to_type;
use cainome::cairo_serde::{ByteArray, CairoSerde};
use starknet_crypto::{poseidon_hash_many, Felt};

fn direct_hash(value: &str) -> Felt {
    let ba = ByteArray::from_string(value).unwrap();
    poseidon_hash_many(&ByteArray::cairo_serialize(&ba))
}

#[test]
fn serialize_line_names_array_and_member() {
    assert_eq!(
        serialize_member_to_array("serialized_array", "x"),
        "\tserialized_array.append(dojo_beacon::utils::serialize_inline(self.x).span());\n"
    );
}

#[test]
fn selector_line_lists_one_selector() {
    assert_eq!(member_selector_line("123"), "\t    123,\n");
}

#[test]
fn schema_lists_members_with_their_selectors() {
    let mut d = derive_token_stream_to_type("struct Point { x: felt252, y: felt252 }").unwrap();
    let s = d.extract_struct().unwrap();
    let b = schema(&s).unwrap();
    assert_eq!(b.struct_type, "Point");
    assert_eq!(b.serialize_members_to_array.len(), 2);
    assert_eq!(
        b.serialize_members_to_array[1],
        "\tserialized_array.append(dojo_beacon::utils::serialize_inline(self.y).span());\n"
    );
    let x = starknet::core::utils::get_selector_from_name("x").unwrap().to_string();
    assert_ne!(x, "x");
    assert_eq!(b.member_selectors[0], format!("\t    {x},\n"));
}

#[test]
fn schema_rejects_non_ascii_member_names() {
    let s = CairoStruct {
        derives: vec![],
        visibility: Visibility::Default,
        name: "S".to_string(),
        generic_params: vec![],
        members: vec![Member {
            visibility: Visibility::Default,
            name: "é".to_string(),
            ty: Ty::Path("u8".to_string()),
            ast: 0,
        }],
        ast: 0,
    };
    assert!(matches!(schema(&s), Err(SchemaError::InvalidMemberName(n)) if n == "é"));
}

#[test]
fn model_name_is_snake_case() {
    let b = model_bindings("PlayerState");
    assert_eq!(b.model_type, "PlayerState");
    assert_eq!(b.model_name, "player_state");
}

#[test]
fn rewritten_struct_keeps_only_custom_derives() {
    let text = "#[derive(Drop, Serde, Introspect)]\n#[beacon]\npub struct Player<T> { x: u8, y: T }";
    let d = derive_token_stream_to_type(text).unwrap();
    let entity = remove_struct_derive(&d.tree, d.item, true);
    assert!(entity.starts_with("#[derive(Introspect)]\npub struct Player<T>  {\n"), "{entity}");
    assert!(entity.ends_with("\n}\n"), "{entity}");
    assert!(entity.contains("x: u8, y: T"), "{entity}");
    let model = remove_struct_derive(&d.tree, d.item, false);
    assert!(model.starts_with("pub struct Player<T>  {\n"), "{model}");
    assert!(!model.contains("derive"));
}

#[test]
fn rewritten_struct_without_custom_derives_has_no_attribute() {
    let d = derive_token_stream_to_type("#[derive(Copy, Drop)]\nstruct P { a: u8 }").unwrap();
    let r = remove_struct_derive(&d.tree, d.item, true);
    assert!(r.starts_with("struct P {\n"), "{r}");
}

#[test]
fn quoted_string_contents() {
    assert_eq!(extract_quoted_string("  \"abc\" "), Ok("abc".to_string()));
    assert_eq!(extract_quoted_string("\"\""), Ok(String::new()));
    assert_eq!(extract_quoted_string(" a "), Err("String too short to be quoted"));
    assert_eq!(extract_quoted_string("abc"), Err("String is not properly quoted"));
    assert_eq!(extract_quoted_string("\"abc"), Err("String is not properly quoted"));
}

#[test]
fn unicode_whitespace_is_recognised() {
    for c in ['\t', '\n', '\r', ' ', '\u{85}', '\u{a0}', '\u{2003}', '\u{3000}'] {
        assert!(is_whitespace(c), "{c:?}");
    }
    for c in ['a', '_', '\u{200b}', '\u{feff}'] {
        assert!(!is_whitespace(c), "{c:?}");
    }
    for c in (0..0x3100u32).filter_map(char::from_u32) {
        assert_eq!(is_whitespace(c), c.is_whitespace(), "{c:?}");
    }
}

#[test]
fn whitespace_is_trimmed_at_both_ends() {
    assert_eq!(trim_whitespace("\t a b \n"), "a b");
    assert_eq!(trim_whitespace("   "), "");
}

#[test]
fn arguments_split_at_commas() {
    assert_eq!(split_arguments(" (\"a\", \"b\" ) "), vec!["\"a\"", "\"b\""]);
    assert_eq!(split_arguments("x"), vec!["x"]);
    assert_eq!(split_arguments("(a,,b)"), vec!["a", "", "b"]);
}

#[test]
fn bytearray_hash_matches_cairo_serialization() {
    let h = compute_bytearray_hash("hello");
    assert_eq!(h, direct_hash("hello").to_bytes_be());
    assert_ne!(h, compute_bytearray_hash("hellp"));
    let long = "a string of more than thirty-one bytes, so it spans two words";
    assert_eq!(compute_bytearray_hash(long), direct_hash(long).to_bytes_be());
}

#[test]
fn bytearrays_hash_combines_each_string() {
    let expected = poseidon_hash_many(&[direct_hash("a"), direct_hash("bc")]);
    assert_eq!(bytearrays_hash("(\"a\", \"bc\")").unwrap(), format!("{:?}", expected));
}

#[test]
fn bytearrays_hash_of_an_empty_string() {
    let expected = poseidon_hash_many(&[direct_hash("")]);
    assert_eq!(bytearrays_hash("(\"\")").unwrap(), format!("{:?}", expected));
}

#[test]
fn bytearrays_hash_rejects_unquoted_arguments() {
    assert!(matches!(
        bytearrays_hash("(\"a\", b)"),
        Err(HashError::InvalidArgument("String too short to be quoted"))
    ));
    assert!(matches!(
        bytearrays_hash("(\"a\", bc)"),
        Err(HashError::InvalidArgument("String is not properly quoted"))
    ));
}
