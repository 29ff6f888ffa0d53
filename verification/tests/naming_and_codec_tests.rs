//! Tests of name derivation, hashing, determinism, decomposition and the
//! serialized form's error cases.

use tracers_codegen::codec::{deserialize, serialize, FormatError};
use tracers_codegen::hashing::hash_text;
use tracers_codegen::model::{AttrPath, MemberDecl, MethodDecl, ProbeArg, TraitDecl};
use tracers_codegen::naming::provider_name_from_trait;
use tracers_codegen::provider::ProviderSpecification;

fn s(x: &str) -> String {
    x.to_string()
}

fn arg(name: &str, type_text: &str) -> ProbeArg {
    ProbeArg { name: s(name), type_text: s(type_text) }
}

fn method(name: &str, args: Vec<ProbeArg>) -> MemberDecl {
    MemberDecl::Method(MethodDecl {
        name: s(name),
        args,
        has_receiver: false,
        has_return: false,
        has_default_body: false,
    })
}

fn plain_trait(ident: &str, members: Vec<MemberDecl>) -> TraitDecl {
    TraitDecl {
        vis: s(""),
        attrs: vec![AttrPath { segments: vec![s("tracer")] }],
        ident: s(ident),
        type_params: 0,
        lifetimes: 0,
        members,
    }
}

#[test]
fn name_derivation_is_snake_case() {
    assert_eq!("foo_bar_baz", provider_name_from_trait("FooBarBaz"));
    assert_eq!("xml_http_request", provider_name_from_trait("XMLHttpRequest"));
    assert_eq!("", provider_name_from_trait(""));
    assert_eq!("field_name11", provider_name_from_trait("FIELD_NAME11"));
}

#[test]
fn name_derivation_restricts_non_ascii_identifiers() {
    // Rust admits non-ASCII identifiers; the derived name keeps only
    // lowercase ASCII letters, digits and underscores.
    let name = provider_name_from_trait("Größe");
    assert_eq!("gre", name);
    assert!(name.chars().all(|c| c.is_ascii_lowercase() || c.is_ascii_digit() || c == '_'));

    let decl = plain_trait("Größe", vec![method("probe0", vec![])]);
    let provider = ProviderSpecification::from_trait(&decl).unwrap();
    assert!(provider
        .name()
        .chars()
        .all(|c| c.is_ascii_lowercase() || c.is_ascii_digit() || c == '_'));
}

#[test]
fn unique_name_is_base_name_and_fixed_width_hex() {
    let decl = plain_trait("FooBarBaz", vec![method("probe0", vec![])]);
    let provider = ProviderSpecification::from_trait(&decl).unwrap();
    assert_eq!("foo_bar_baz", provider.name());
    let unique = provider.name_with_hash();
    assert_eq!(unique, format!("foo_bar_baz_{:016x}", provider.hash()));
    let suffix = &unique["foo_bar_baz_".len()..];
    assert_eq!(16, suffix.len());
    assert!(suffix.chars().all(|c| c.is_ascii_hexdigit() && !c.is_ascii_uppercase()));
}

#[test]
fn content_hash_has_known_values() {
    assert_eq!(0xcbf29ce484222325, hash_text(""));
    assert_eq!(0xaf63dc4c8601ec8c, hash_text("a"));
    assert_eq!(0xa430d84680aabd0b, hash_text("hello"));
}

#[test]
fn build_is_deterministic() {
    let decl = plain_trait("SomeProvider", vec![method("probe0", vec![arg("x", "u32")])]);
    let p1 = ProviderSpecification::from_trait(&decl).unwrap();
    let p2 = ProviderSpecification::from_trait(&decl).unwrap();
    assert_eq!(p1.name(), p2.name());
    assert_eq!(p1.hash(), p2.hash());
    assert_eq!(p1.canonical_text(), p2.canonical_text());
    assert_eq!(p1.probes(), p2.probes());
}

#[test]
fn same_ident_different_contents_differ_in_hash() {
    // Two declarations with identical identifiers but different method
    // sets: equal base names, different hashes and unique names.
    let d1 = plain_trait("SharedName", vec![method("probe0", vec![])]);
    let d2 = plain_trait("SharedName", vec![method("probe1", vec![arg("x", "u64")])]);
    let p1 = ProviderSpecification::from_trait(&d1).unwrap();
    let p2 = ProviderSpecification::from_trait(&d2).unwrap();
    assert_eq!(p1.name(), p2.name());
    assert_ne!(p1.hash(), p2.hash());
    assert_ne!(p1.name_with_hash(), p2.name_with_hash());
}

#[test]
fn canonical_text_includes_attributes_and_members() {
    let decl = plain_trait("FooBarBaz", vec![method("probe0", vec![arg("foo", "& str")])]);
    let provider = ProviderSpecification::from_trait(&decl).unwrap();
    assert_eq!(
        "#[tracer] trait FooBarBaz { fn probe0(foo: & str); }",
        provider.canonical_text()
    );
    assert_eq!(hash_text(provider.canonical_text()), provider.hash());
}

#[test]
fn decomposition_preserves_everything_but_probes() {
    let decl = plain_trait("SomeProvider", vec![method("probe0", vec![arg("x", "u32")])]);
    let provider = ProviderSpecification::from_trait(&decl).unwrap();
    let name = provider.name().to_string();
    let hash = provider.hash();
    let text = provider.canonical_text().to_string();
    let probes_before = provider.probes().clone();
    let (stripped, probes) = provider.separate_probes();
    assert_eq!(name, stripped.name());
    assert_eq!(hash, stripped.hash());
    assert_eq!(text, stripped.canonical_text());
    assert_eq!(decl, *stripped.item_trait());
    assert_eq!(0, stripped.probes().len());
    assert_eq!(probes_before, probes);
}

#[test]
fn round_trip_preserves_every_field() {
    let decl = TraitDecl {
        vis: s("pub"),
        attrs: vec![AttrPath { segments: vec![s("tracers"), s("tracer")] }],
        ident: s("RoundTrip"),
        type_params: 0,
        lifetimes: 0,
        members: vec![
            method("probe0", vec![]),
            method("probe1", vec![arg("größe", "& str"), arg("n", "usize")]),
        ],
    };
    let provider = ProviderSpecification::from_trait(&decl).unwrap();
    let bytes = serialize(&provider);
    let rt = deserialize(bytes.as_slice()).unwrap();
    assert_eq!(provider.name(), rt.name());
    assert_eq!(provider.hash(), rt.hash());
    assert_eq!(provider.canonical_text(), rt.canonical_text());
    assert_eq!(provider.item_trait(), rt.item_trait());
    assert_eq!(provider.probes(), rt.probes());
    assert_eq!(provider.name_with_hash(), rt.name_with_hash());
}

#[test]
fn deserialize_rejects_garbage() {
    let garbage: Vec<u8> = vec![0xff, 0x00, 0x12];
    assert_eq!(Err(FormatError::Malformed), deserialize(garbage.as_slice()).map(|_| ()));
}

#[test]
fn deserialize_rejects_trailing_bytes() {
    let decl = plain_trait("SomeProvider", vec![method("probe0", vec![])]);
    let provider = ProviderSpecification::from_trait(&decl).unwrap();
    let mut bytes = serialize(&provider);
    bytes.push(0u8);
    assert_eq!(Err(FormatError::TrailingBytes), deserialize(bytes.as_slice()).map(|_| ()));
}

#[test]
fn deserialize_rejects_corrupted_hash() {
    let decl = plain_trait("SomeProvider", vec![method("probe0", vec![])]);
    let provider = ProviderSpecification::from_trait(&decl).unwrap();
    let mut bytes = serialize(&provider);
    // The stored hash stands after the length-prefixed name; flip one of
    // its bytes.
    let hash_offset = 8 + provider.name().len();
    bytes[hash_offset] ^= 0xff;
    assert_eq!(Err(FormatError::HashMismatch), deserialize(bytes.as_slice()).map(|_| ()));
}

#[test]
fn decomposed_record_round_trips() {
    // Decomposition empties the probe list without touching the derived
    // fields; the serialization adapter accepts such a record like any
    // other.
    let decl = plain_trait("SomeProvider", vec![method("probe0", vec![arg("x", "u32")])]);
    let provider = ProviderSpecification::from_trait(&decl).unwrap();
    let (stripped, probes) = provider.separate_probes();
    assert_eq!(1, probes.len());
    let bytes = serialize(&stripped);
    let rt = deserialize(bytes.as_slice()).unwrap();
    assert_eq!(stripped.name(), rt.name());
    assert_eq!(stripped.hash(), rt.hash());
    assert_eq!(stripped.canonical_text(), rt.canonical_text());
    assert_eq!(stripped.item_trait(), rt.item_trait());
    assert!(tracers_codegen::probe::probes_equal(stripped.probes(), rt.probes()));
    assert_eq!(0, rt.probes().len());
}

#[test]
fn deserialize_rejects_inconsistent_name() {
    let decl = plain_trait("GoodProvider", vec![method("probe0", vec![])]);
    let provider = ProviderSpecification::from_trait(&decl).unwrap();
    assert_eq!("good_provider", provider.name());
    let mut bytes = serialize(&provider);
    // The stored name starts right after its eight-byte length prefix;
    // changing its first character leaves structure, hash and text intact
    // but makes the name disagree with the declaration.
    bytes[8] = b'x';
    assert_eq!(Err(FormatError::Inconsistent), deserialize(bytes.as_slice()).map(|_| ()));
}

#[test]
fn deserialized_records_are_consistent() {
    let decl = plain_trait("GoodProvider", vec![method("probe0", vec![arg("x", "u8")])]);
    let provider = ProviderSpecification::from_trait(&decl).unwrap();
    let bytes = serialize(&provider);
    let rt = deserialize(bytes.as_slice()).unwrap();
    assert_eq!(rt.canonical_text(), provider.canonical_text());
    assert_eq!(rt.item_trait(), provider.item_trait());
}

#[test]
fn zero_probe_provider_is_valid() {
    let decl = plain_trait("EmptyProvider", vec![]);
    let provider = ProviderSpecification::from_trait(&decl).unwrap();
    assert_eq!("empty_provider", provider.name());
    assert_eq!(0, provider.probes().len());
}

#[test]
fn visibility_is_kept() {
    let mut decl = plain_trait("VisProvider", vec![]);
    decl.vis = s("pub");
    let provider = ProviderSpecification::from_trait(&decl).unwrap();
    assert_eq!("pub", provider.vis_str());
    assert_eq!("VisProvider", provider.ident());
}
