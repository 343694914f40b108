//! The values that the derive and attribute macros fill their templates with.
use vstd::prelude::*;

use crate::parsers::{
    attr_args, attrs_named, concat, join, query_attr, slot_visibility, strings, CairoStruct,
    Visibility,
};
use crate::tree::{str_eq, SyntaxTree};
use convert_case::{Case, Casing};
use vstd::utf8::is_ascii_chars;

verus! {

/// The selector of an entry point or member name, as a field element in big-endian bytes.
pub uninterp spec fn selector_of(name: Seq<char>) -> Seq<u8>;

/// The decimal text of a field element given in big-endian bytes.
pub uninterp spec fn decimal_text_of(word: Seq<u8>) -> Seq<char>;

/// A name converted to snake case.
pub uninterp spec fn snake_case_of(name: Seq<char>) -> Seq<char>;

/// Relies on `starknet::core::utils::get_selector_from_name`, which fails exactly on names
/// that are not ASCII.
#[verifier::external_body]
fn selector_from_name(name: &str) -> (r: Option<[u8; 32]>)
    ensures
        (r is Some) <==> is_ascii_chars(name@),
        r matches Some(s) ==> s@ == selector_of(name@),
{
    match starknet::core::utils::get_selector_from_name(name) {
        Ok(selector) => Some(selector.to_bytes_be()),
        Err(_) => None,
    }
}

/// Relies on the `Display` of `Felt`, which writes the element in decimal.
#[verifier::external_body]
fn decimal_text(word: &[u8; 32]) -> (r: String)
    ensures
        r@ == decimal_text_of(word@),
{
    starknet::core::types::Felt::from_bytes_be(word).to_string()
}

/// Relies on `convert_case`'s `Casing::to_case` with `Case::Snake`.
#[verifier::external_body]
fn to_snake_case(name: &str) -> (r: String)
    ensures
        r@ == snake_case_of(name@),
{
    name.to_case(Case::Snake)
}

// ---------------------------------------------------------------- schema

/// The line that appends one member, serialized, to an array.
pub open spec fn serialize_line(array: Seq<char>, member: Seq<char>) -> Seq<char> {
    "\t"@ + array + ".append(dojo_beacon::utils::serialize_inline(self."@ + member
        + ").span());\n"@
}

/// The line that lists one member selector.
pub open spec fn selector_line(selector: Seq<char>) -> Seq<char> {
    "\t    "@ + selector + ",\n"@
}

/// The bindings of the schema template.
pub struct SchemaBindings {
    pub struct_type: String,
    pub serialize_members_to_array: Vec<String>,
    pub member_selectors: Vec<String>,
}

/// A member whose name has no selector, because it is not ASCII.
#[derive(Debug)]
pub enum SchemaError {
    InvalidMemberName(String),
}

/// The line that appends member `member_name`, serialized, to array `array_name`.
pub fn serialize_member_to_array(array_name: &str, member_name: &str) -> (r: String)
    ensures
        r@ == serialize_line(array_name@, member_name@),
{
    let mut r = String::from_str("\t");
    r.append(array_name);
    r.append(".append(dojo_beacon::utils::serialize_inline(self.");
    r.append(member_name);
    r.append(").span());\n");
    r
}

/// The line that lists one member selector.
pub fn member_selector_line(selector: &str) -> (r: String)
    ensures
        r@ == selector_line(selector@),
{
    let mut r = String::from_str("\t    ");
    r.append(selector);
    r.append(",\n");
    r
}

/// Whether schema bindings were built for struct `s` with the given member selectors.
pub open spec fn schema_of(b: SchemaBindings, s: CairoStruct, selectors: Seq<Seq<char>>) -> bool {
    &&& b.struct_type@ == s.name@
    &&& b.serialize_members_to_array.len() == s.members.len()
    &&& b.member_selectors.len() == s.members.len()
    &&& forall|k: int|
        0 <= k < s.members.len() ==> (#[trigger] b.serialize_members_to_array@[k])@
            == serialize_line("serialized_array"@, s.members@[k].name@)
    &&& forall|k: int|
        0 <= k < s.members.len() ==> (#[trigger] b.member_selectors@[k])@ == selector_line(
            selectors[k],
        )
}

/// Builds the schema bindings of a struct from the selectors of its members, one per member
/// in order.
pub fn schema_bindings(s: &CairoStruct, selectors: &Vec<String>) -> (r: SchemaBindings)
    requires
        selectors.len() == s.members.len(),
    ensures
        schema_of(r, *s, strings(selectors@)),
{
    let mut serialize_members_to_array: Vec<String> = Vec::new();
    let mut member_selectors: Vec<String> = Vec::new();
    let mut k: usize = 0;
    while k < s.members.len()
        invariant
            selectors.len() == s.members.len(),
            k <= s.members.len(),
            serialize_members_to_array.len() == k,
            member_selectors.len() == k,
            forall|j: int|
                0 <= j < k ==> (#[trigger] serialize_members_to_array@[j])@ == serialize_line(
                    "serialized_array"@,
                    s.members@[j].name@,
                ),
            forall|j: int|
                0 <= j < k ==> (#[trigger] member_selectors@[j])@ == selector_line(
                    selectors@[j]@,
                ),
        decreases s.members.len() - k,
    {
        serialize_members_to_array.push(
            serialize_member_to_array("serialized_array", s.members[k].name.as_str()),
        );
        member_selectors.push(member_selector_line(selectors[k].as_str()));
        k = k + 1;
    }
    SchemaBindings {
        struct_type: s.name.clone(),
        serialize_members_to_array,
        member_selectors,
    }
}

/// The decimal selectors of a list of members.
pub open spec fn member_selectors(ms: Seq<crate::parsers::Member>) -> Seq<Seq<char>> {
    ms.map_values(|m: crate::parsers::Member| decimal_text_of(selector_of(m.name@)))
}

/// Builds the schema bindings of a struct, computing the selector of each member name.
///
/// Fails, naming the first such member, exactly where a member name is not ASCII.
pub fn schema(s: &CairoStruct) -> (r: Result<SchemaBindings, SchemaError>)
    ensures
        (r is Ok) <==> forall|k: int| 0 <= k < s.members.len() ==> is_ascii_chars(
            #[trigger] s.members@[k].name@,
        ),
        r matches Ok(b) ==> schema_of(
            b,
            *s,
            member_selectors(s.members@),
        ),
{
    let mut selectors: Vec<String> = Vec::new();
    let mut k: usize = 0;
    while k < s.members.len()
        invariant
            k <= s.members.len(),
            selectors.len() == k,
            forall|j: int| 0 <= j < k ==> is_ascii_chars(#[trigger] s.members@[j].name@),
            forall|j: int|
                0 <= j < k ==> (#[trigger] selectors@[j])@ == decimal_text_of(
                    selector_of(s.members@[j].name@),
                ),
        decreases s.members.len() - k,
    {
        match selector_from_name(s.members[k].name.as_str()) {
            Some(sel) => selectors.push(decimal_text(&sel)),
            None => {
                return Err(SchemaError::InvalidMemberName(s.members[k].name.clone()));
            },
        }
        k = k + 1;
    }
    let b = schema_bindings(s, &selectors);
    assert(strings(selectors@) =~= member_selectors(s.members@));
    Ok(b)
}

// ---------------------------------------------------------------- model and entity

/// The bindings of the model and entity templates.
pub struct ModelBindings {
    pub model_type: String,
    pub model_name: String,
}

/// The model bindings of a struct named `name`: the name itself and its snake-case form.
pub fn model_bindings(name: &str) -> (r: ModelBindings)
    ensures
        r.model_type@ == name@,
        r.model_name@ == snake_case_of(name@),
{
    ModelBindings { model_type: String::from_str(name), model_name: to_snake_case(name) }
}

/// Derives that the generated code implements itself, and that a rewritten struct drops.
pub open spec fn builtin_derive(n: Seq<char>) -> bool {
    ||| n == "Copy"@
    ||| n == "Drop"@
    ||| n == "Clone"@
    ||| n == "Debug"@
    ||| n == "Default"@
    ||| n == "Destruct"@
    ||| n == "Hash"@
    ||| n == "PanicDestruct"@
    ||| n == "PartialEq"@
    ||| n == "Serde"@
}

pub open spec fn custom() -> spec_fn(Seq<char>) -> bool {
    |n: Seq<char>| !builtin_derive(n)
}

/// The trimmed texts of the arguments of an attribute.
pub open spec fn arg_texts(t: &SyntaxTree, a: int) -> Seq<Seq<char>> {
    attr_args(t, a).map_values(|x: usize| t.trimmed_of(x as int))
}

pub open spec fn arg_text_lists(t: &SyntaxTree, attrs: Seq<usize>) -> Seq<Seq<Seq<char>>> {
    attrs.map_values(|a: usize| arg_texts(t, a as int))
}

/// The derive arguments of struct `s` that are not builtin, in source order.
pub open spec fn custom_derives(t: &SyntaxTree, s: int) -> Seq<Seq<char>> {
    concat(arg_text_lists(t, attrs_named(t, s, "derive"@))).filter(custom())
}

pub open spec fn derive_line(names: Seq<Seq<char>>) -> Seq<char> {
    if names.len() == 0 {
        Seq::empty()
    } else {
        "#[derive("@ + join(names) + ")]\n"@
    }
}

pub open spec fn visibility_prefix(v: Visibility) -> Seq<char> {
    match v {
        Visibility::Pub => "pub "@,
        Visibility::Default => Seq::empty(),
    }
}

/// The full text, trivia included, of the node in a slot; empty where the slot is missing.
pub open spec fn slot_source(t: &SyntaxTree, i: int, slot: int) -> Seq<char> {
    match t.slot(i, slot) {
        Some(c) => t.text_of(c as int),
        None => Seq::empty(),
    }
}

/// The text of struct `s` rewritten without its attributes: visibility, name, generic
/// parameters and member block as written. Where `keep_custom_derives` holds, a derive
/// attribute with the non-builtin derive arguments comes first, if there are any.
pub open spec fn struct_rewrite(t: &SyntaxTree, s: int, keep_custom_derives: bool) -> Seq<char> {
    (if keep_custom_derives {
        derive_line(custom_derives(t, s))
    } else {
        Seq::empty()
    }) + visibility_prefix(slot_visibility(t, s, 1)) + "struct "@ + t.slot_text(s, 3)
        + slot_source(t, s, 4) + " {\n"@ + slot_source(t, s, 6) + "\n}\n"@
}

fn is_builtin_derive(n: &str) -> (r: bool)
    ensures
        r == builtin_derive(n@),
{
    str_eq(n, "Copy") || str_eq(n, "Drop") || str_eq(n, "Clone") || str_eq(n, "Debug")
        || str_eq(n, "Default") || str_eq(n, "Destruct") || str_eq(n, "Hash") || str_eq(
        n,
        "PanicDestruct",
    ) || str_eq(n, "PartialEq") || str_eq(n, "Serde")
}

/// Texts joined with `", "` between neighbours.
pub fn join_with_commas(parts: &Vec<String>) -> (r: String)
    ensures
        r@ == join(strings(parts@)),
{
    let ghost ps = strings(parts@);
    let mut r = String::new();
    let mut k: usize = 0;
    while k < parts.len()
        invariant
            ps == strings(parts@),
            k <= parts.len(),
            r@ == join(ps.take(k as int)),
        decreases parts.len() - k,
    {
        if k > 0 {
            r.append(", ");
        }
        r.append(parts[k].as_str());
        proof {
            assert(ps.take(k + 1).drop_last() =~= ps.take(k as int));
            if k == 0 {
                assert(r@ =~= ps.take(1)[0]);
            }
        }
        k = k + 1;
    }
    proof {
        assert(ps.take(parts.len() as int) =~= ps);
    }
    r
}

/// The derive arguments of struct `s` that are not builtin, in source order.
fn collect_custom_derives(t: &SyntaxTree, s: usize) -> (r: Vec<String>)
    requires
        t.wf(),
        t.has(s as int),
    ensures
        strings(r@) == custom_derives(t, s as int),
{
    let attrs = query_attr(t, s, "derive");
    let ghost lists = arg_text_lists(t, attrs@);
    let mut r: Vec<String> = Vec::new();
    let mut k: usize = 0;
    while k < attrs.len()
        invariant
            t.wf(),
            forall|j: int| 0 <= j < attrs.len() ==> s < #[trigger] attrs@[j] < t.nodes.len(),
            lists == arg_text_lists(t, attrs@),
            lists.len() == attrs.len(),
            k <= attrs.len(),
            strings(r@) == concat(lists.take(k as int)).filter(custom()),
        decreases attrs.len() - k,
    {
        let a = attrs[k];
        let args = crate::parsers::attr_arg_nodes(t, a);
        let ghost before = concat(lists.take(k as int));
        let mut j: usize = 0;
        while j < args.len()
            invariant
                t.wf(),
                t.has(a as int),
                args@ == attr_args(t, a as int),
                forall|i: int| 0 <= i < args.len() ==> a < #[trigger] args@[i] < t.nodes.len(),
                lists[k as int] == arg_texts(t, a as int),
                lists[k as int].len() == args.len(),
                j <= args.len(),
                strings(r@) == (before + lists[k as int].take(j as int)).filter(custom()),
            decreases args.len() - j,
        {
            let text = String::from_str(t.text_without_trivia(args[j]));
            proof {
                reveal(Seq::filter);
                assert(lists[k as int][j as int] == text@);
                assert(before + lists[k as int].take(j + 1) =~= (before + lists[k as int].take(
                    j as int,
                )).push(text@));
                assert(custom()(text@) == !builtin_derive(text@));
                let x = before + lists[k as int].take(j as int);
                assert(x.push(text@).drop_last() =~= x);
                assert(x.push(text@).filter(custom()) == if custom()(text@) {
                    x.filter(custom()).push(text@)
                } else {
                    x.filter(custom())
                });
            }
            if !is_builtin_derive(text.as_str()) {
                proof {
                    assert(strings(r@.push(text)) =~= strings(r@).push(text@));
                }
                r.push(text);
            }
            j = j + 1;
        }
        proof {
            assert(lists[k as int].take(args.len() as int) =~= lists[k as int]);
            assert(lists.take(k + 1) =~= lists.take(k as int).push(lists[k as int]));
            crate::parsers::lemma_concat_push(lists.take(k as int), lists[k as int]);
        }
        k = k + 1;
    }
    proof {
        assert(lists.take(attrs.len() as int) =~= lists);
    }
    r
}

/// Rewrites struct `s` without its attributes, for the model and entity macros.
///
/// The result is the visibility, `struct`, the name, the generic parameters and the member
/// block as they were written. Where `keep_custom_derives` holds, a derive attribute listing
/// the derive arguments that are not builtin comes first, if there are any.
pub fn remove_struct_derive(t: &SyntaxTree, s: usize, keep_custom_derives: bool) -> (r: String)
    requires
        t.wf(),
        t.has(s as int),
    ensures
        r@ == struct_rewrite(t, s as int, keep_custom_derives),
{
    let mut r = String::new();
    if keep_custom_derives {
        let kept = collect_custom_derives(t, s);
        if kept.len() > 0 {
            r.append("#[derive(");
            let names = join_with_commas(&kept);
            r.append(names.as_str());
            r.append(")]\n");
        }
    }
    let ghost prefix = r@;
    match t.child(s, 1) {
        Some(v) => {
            if t.is_kind(v, "VisibilityPub") {
                r.append("pub ");
            }
        },
        None => {},
    }
    r.append("struct ");
    let name = t.child_text(s, 3);
    r.append(name.as_str());
    match t.child(s, 4) {
        Some(g) => r.append(t.text(g)),
        None => {},
    }
    r.append(" {\n");
    match t.child(s, 6) {
        Some(m) => r.append(t.text(m)),
        None => {},
    }
    r.append("\n}\n");
    proof {
        let vis = visibility_prefix(slot_visibility(t, s as int, 1));
        assert(r@ =~= prefix + vis + "struct "@ + t.slot_text(s as int, 3) + slot_source(
            t,
            s as int,
            4,
        ) + " {\n"@ + slot_source(t, s as int, 6) + "\n}\n"@);
        if !keep_custom_derives || custom_derives(t, s as int).len() == 0 {
            assert(prefix =~= Seq::<char>::empty());
        }
    }
    r
}

} // verus!
