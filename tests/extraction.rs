use beacon_macros::diagnostic::Severity;
use beacon_macros::parsers::{
    parse_item_struct, parse_struct, CairoEnum, CairoStruct, ExtractError, Ty, Visibility,
};
use beacon_macros::reading::{
    derive_token_stream_to_type, item, items, Declaration, Item, ReadError,
};

fn read(text: &str) -> Declaration {
    match derive_token_stream_to_type(text) {
        Ok(d) => d,
        Err(e) => panic!("could not read {text:?}: {e:?}"),
    }
}

fn read_struct(text: &str) -> (CairoStruct, Declaration) {
    let mut d = read(text);
    let s = d.extract_struct().expect("a struct");
    (s, d)
}

fn read_enum(text: &str) -> (CairoEnum, Declaration) {
    let mut d = read(text);
    let e = d.extract_enum().expect("an enum");
    (e, d)
}

fn path(ty: &Ty) -> &str {
    match ty {
        Ty::Path(p) => p.as_str(),
        Ty::Tuple(_) => panic!("expected a path, found a tuple"),
    }
}

#[test]
fn point_struct_is_read_whole() {
    let (s, d) = read_struct("struct Point { x: felt252, y: felt252 }");
    assert_eq!(s.name, "Point");
    assert!(matches!(s.visibility, Visibility::Default));
    assert!(s.generic_params.is_empty());
    assert!(s.derives.is_empty());
    assert_eq!(s.members.len(), 2);
    assert_eq!(s.members[0].name, "x");
    assert_eq!(path(&s.members[0].ty), "felt252");
    assert_eq!(s.members[1].name, "y");
    assert_eq!(path(&s.members[1].ty), "felt252");
    assert!(d.diagnostics.is_empty());
}

#[test]
fn shape_enum_is_read_whole() {
    let (e, d) = read_enum("enum Shape { Circle: u32, Square }");
    assert_eq!(e.name, "Shape");
    assert_eq!(e.variants.len(), 2);
    assert_eq!(e.variants[0].name, "Circle");
    assert_eq!(path(e.variants[0].ty.as_ref().expect("a payload")), "u32");
    assert_eq!(e.variants[1].name, "Square");
    assert!(e.variants[1].ty.is_none());
    assert!(e.default.is_none());
    assert!(d.diagnostics.is_empty());
}

#[test]
fn members_keep_source_order_and_repeats() {
    let (s, _) = read_struct("struct S { c: u8, a: u16, b: u32, a: u64 }");
    let names: Vec<&str> = s.members.iter().map(|m| m.name.as_str()).collect();
    assert_eq!(names, vec!["c", "a", "b", "a"]);
    let types: Vec<String> = s.members.iter().map(|m| m.ty.render()).collect();
    assert_eq!(types, vec!["u8", "u16", "u32", "u64"]);
}

#[test]
fn member_visibility_follows_modifier() {
    let (s, _) = read_struct("pub struct S { pub a: u8, b: u8 }");
    assert!(matches!(s.visibility, Visibility::Pub));
    assert!(matches!(s.members[0].visibility, Visibility::Pub));
    assert!(matches!(s.members[1].visibility, Visibility::Default));
}

#[test]
fn nested_tuple_types_render_as_written() {
    let (s, d) = read_struct("struct S { a: (u8, (felt252, Array<u32>)), b: () }");
    assert_eq!(s.members[0].ty.render(), "(u8, (felt252, Array<u32>))");
    match &s.members[0].ty {
        Ty::Tuple(items) => {
            assert_eq!(items.len(), 2);
            assert_eq!(path(&items[0]), "u8");
        }
        Ty::Path(_) => panic!("expected a tuple"),
    }
    assert_eq!(s.members[1].ty.render(), "()");
    assert!(d.diagnostics.is_empty());
}

#[test]
fn generic_arguments_stay_in_path_text() {
    let (s, _) = read_struct("struct S { a: core::array::Array<felt252> }");
    assert_eq!(path(&s.members[0].ty), "core::array::Array<felt252>");
}

#[test]
fn unsupported_type_degrades_to_unit_with_warning() {
    let (s, d) = read_struct("struct S { a: @u8, b: u8 }");
    assert_eq!(s.members[0].ty.render(), "()");
    assert_eq!(path(&s.members[1].ty), "u8");
    assert_eq!(d.diagnostics.len(), 1);
    assert_eq!(d.diagnostics[0].severity, Severity::Warning);
    assert_eq!(d.diagnostics[0].message, "Unsupported type expression.");
}

#[test]
fn unit_payload_differs_from_no_payload() {
    let (e, _) = read_enum("enum E { A, B: () }");
    assert!(e.variants[0].ty.is_none());
    match e.variants[1].ty.as_ref() {
        Some(Ty::Tuple(items)) => assert!(items.is_empty()),
        _ => panic!("expected the unit type"),
    }
}

#[test]
fn derives_concatenate_in_order() {
    let (s, d) = read_struct("#[derive(A, B)]\n#[derive(C)]\nstruct S { a: u8 }");
    assert_eq!(s.derives, vec!["A", "B", "C"]);
    assert!(d.diagnostics.is_empty());
}

#[test]
fn empty_derive_reports_once() {
    let (s, d) = read_struct("#[derive()]\nstruct S { a: u8 }");
    assert!(s.derives.is_empty());
    assert_eq!(d.diagnostics.len(), 1);
    assert_eq!(d.diagnostics[0].severity, Severity::Error);
    assert_eq!(d.diagnostics[0].message, "Expected args.");
    assert_eq!(d.diagnostics[0].position, 0);
}

#[test]
fn derive_skips_arguments_that_are_not_plain_names() {
    let (s, d) = read_struct("#[derive(Drop, core::Serde, Copy)]\n#[other(X)]\nstruct S { a: u8 }");
    assert_eq!(s.derives, vec!["Drop", "Copy"]);
    assert!(d.diagnostics.is_empty());
}

#[test]
fn generic_parameter_names_in_order() {
    let (s, _) = read_struct("struct S<T, const N: u32, impl I: Into<T>, +Drop<T>, T> { a: T }");
    assert_eq!(s.generic_params, vec!["T", "N", "I", "T"]);
}

#[test]
fn enum_reads_visibility_generics_and_derives() {
    let (e, _) = read_enum("#[derive(Drop)]\npub enum E<T> { A: T, B: (T, u8) }");
    assert!(matches!(e.visibility, Visibility::Pub));
    assert_eq!(e.generic_params, vec!["T"]);
    assert_eq!(e.derives, vec!["Drop"]);
    assert_eq!(e.variants[1].ty.as_ref().expect("a payload").render(), "(T, u8)");
}

#[test]
fn struct_requested_from_enum_fails_without_diagnostics() {
    let mut d = read("enum E { A: u8 }");
    let before = d.diagnostics.len();
    assert!(matches!(d.extract_struct(), Err(ExtractError::WrongKind)));
    assert_eq!(d.diagnostics.len(), before);
    assert!(d.extract_enum().is_ok());
}

#[test]
fn enum_requested_from_struct_fails() {
    let mut d = read("struct S { a: u8 }");
    assert!(matches!(d.extract_enum(), Err(ExtractError::WrongKind)));
}

#[test]
fn text_without_declarations_is_empty_input() {
    assert!(matches!(derive_token_stream_to_type(""), Err(ReadError::EmptyInput)));
    assert!(matches!(derive_token_stream_to_type("  \n\t "), Err(ReadError::EmptyInput)));
}

#[test]
fn extraction_twice_gives_equal_results() {
    let d = read("#[derive()]\nstruct S { a: @u8, b: (u8, u16) }");
    let mut first = Vec::new();
    let mut second = Vec::new();
    let a = parse_item_struct(&d.tree, d.item, &mut first);
    let b = parse_item_struct(&d.tree, d.item, &mut second);
    assert_eq!(a.name, b.name);
    assert_eq!(a.derives, b.derives);
    let ta: Vec<String> = a.members.iter().map(|m| m.ty.render()).collect();
    let tb: Vec<String> = b.members.iter().map(|m| m.ty.render()).collect();
    assert_eq!(ta, tb);
    assert_eq!(first.len(), 2);
    assert_eq!(first.len(), second.len());
    for (x, y) in first.iter().zip(second.iter()) {
        assert_eq!(x.position, y.position);
        assert_eq!(x.message, y.message);
        assert_eq!(x.severity, y.severity);
    }
}

#[test]
fn first_struct_is_found_anywhere() {
    let d = read("enum E { A }\nstruct S { a: u8 }");
    let mut diagnostics = Vec::new();
    let s = parse_struct(&d.tree, &mut diagnostics).expect("a struct");
    assert_eq!(s.name, "S");
}

#[test]
fn parser_diagnostics_come_first() {
    let mut d = read("struct { a: u8 }");
    assert!(!d.diagnostics.is_empty());
    assert!(d.diagnostics.iter().all(|x| x.severity == Severity::Error));
    let n = d.diagnostics.len();
    let s = d.extract_struct().expect("a struct");
    assert_eq!(s.members.len(), 1);
    assert_eq!(d.diagnostics.len(), n);
}

#[test]
fn declaration_views_classify_items() {
    let d = read("struct S { pub a: u8, b: (u8, u8) }");
    match d.item() {
        Item::Struct(s) => {
            assert_eq!(s.name(), "S");
            let members = s.members();
            assert_eq!(members.len(), 2);
            assert_eq!(members[0].name(), "a");
            assert!(matches!(members[0].visibility(), Visibility::Pub));
            assert!(matches!(members[1].ty(), Some(beacon_macros::reading::Expression::Tuple(_))));
        }
        _ => panic!("expected a struct"),
    }
    let e = read("enum E { A, B: u8 }");
    match e.item() {
        Item::Enum(en) => {
            let vs = en.variants();
            assert!(vs[0].ty().is_none());
            assert!(matches!(vs[1].ty(), Some(beacon_macros::reading::Expression::Path(_))));
        }
        _ => panic!("expected an enum"),
    }
    let f = read("fn f() {}");
    assert!(matches!(f.item(), Item::Other(_)));
}

#[test]
fn first_item_is_node_after_item_list() {
    let d = read("struct A { a: u8 }\nenum B { X }\nfn f() {}");
    assert_eq!(d.item, 2);
    assert!(matches!(d.item(), Item::Struct(s) if s.node == 2));
    let all = items(&d.tree);
    assert_eq!(all.len(), 3);
    assert!(matches!(all[0], Item::Struct(_)));
    assert!(matches!(all[1], Item::Enum(_)));
    assert!(matches!(all[2], Item::Other(_)));
    assert!(matches!(item(&d.tree), Ok(Item::Struct(s)) if s.node == d.item));
}
