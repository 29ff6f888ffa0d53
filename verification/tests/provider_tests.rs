//! Tests of scanning, validation, building and serialization, driven by a
//! fixture set of valid and invalid provider traits.

use tracers_codegen::errors::ValidationError;
use tracers_codegen::model::{
    AttrPath, MemberDecl, MethodDecl, ProbeArg, SourceFile, SourceNode, TraitDecl,
};
use tracers_codegen::probe::ProbeSpecification;
use tracers_codegen::provider::{find_providers, ProviderSpecification};
use tracers_codegen::validate::find_probes;

fn s(x: &str) -> String {
    x.to_string()
}

fn arg(name: &str, type_text: &str) -> ProbeArg {
    ProbeArg { name: s(name), type_text: s(type_text) }
}

fn method(name: &str, args: Vec<ProbeArg>) -> MemberDecl {
    MemberDecl::Method(MethodDecl {
        name: s(name),
        args,
        has_receiver: false,
        has_return: false,
        has_default_body: false,
    })
}

fn tracer_attr() -> AttrPath {
    AttrPath { segments: vec![s("tracer")] }
}

fn plain_trait(ident: &str, members: Vec<MemberDecl>) -> TraitDecl {
    TraitDecl {
        vis: s(""),
        attrs: vec![tracer_attr()],
        ident: s(ident),
        type_params: 0,
        lifetimes: 0,
        members,
    }
}

struct TestProviderTrait {
    description: &'static str,
    decl: TraitDecl,
    provider_name: &'static str,
    probes: Option<Vec<ProbeSpecification>>,
    expected_error: Option<&'static str>,
}

fn probe_spec(name: &str, args: Vec<ProbeArg>) -> ProbeSpecification {
    ProbeSpecification { name: s(name), args }
}

fn get_test_provider_traits() -> Vec<TestProviderTrait> {
    vec![
        TestProviderTrait {
            description: "empty trait",
            decl: plain_trait("TestTrait", vec![]),
            provider_name: "test_trait",
            probes: Some(vec![]),
            expected_error: None,
        },
        TestProviderTrait {
            description: "simple probes",
            decl: plain_trait(
                "SimpleProvider",
                vec![
                    method("probe0", vec![]),
                    method("probe1", vec![arg("foo", "& str")]),
                ],
            ),
            provider_name: "simple_provider",
            probes: Some(vec![
                probe_spec("probe0", vec![]),
                probe_spec("probe1", vec![arg("foo", "& str")]),
            ]),
            expected_error: None,
        },
        TestProviderTrait {
            description: "several args",
            decl: plain_trait(
                "MultiArgProvider",
                vec![method(
                    "probe2",
                    vec![arg("a", "& str"), arg("b", "usize"), arg("c", "bool")],
                )],
            ),
            provider_name: "multi_arg_provider",
            probes: Some(vec![probe_spec(
                "probe2",
                vec![arg("a", "& str"), arg("b", "usize"), arg("c", "bool")],
            )]),
            expected_error: None,
        },
        TestProviderTrait {
            description: "type parameter",
            decl: TraitDecl { type_params: 1, ..plain_trait("GenericTrait", vec![]) },
            provider_name: "",
            probes: None,
            expected_error: Some("must not take any lifetime or type parameters"),
        },
        TestProviderTrait {
            description: "lifetime parameter",
            decl: TraitDecl {
                lifetimes: 1,
                ..plain_trait("LifetimeTrait", vec![method("probe0", vec![])])
            },
            provider_name: "",
            probes: None,
            expected_error: Some("must not take any lifetime or type parameters"),
        },
        TestProviderTrait {
            description: "const member",
            decl: plain_trait(
                "ConstTrait",
                vec![method("probe0", vec![]), MemberDecl::Const(s("FOO"))],
            ),
            provider_name: "",
            probes: None,
            expected_error: Some("must consist entirely of methods, no other contents"),
        },
        TestProviderTrait {
            description: "method with receiver",
            decl: plain_trait(
                "ReceiverTrait",
                vec![MemberDecl::Method(MethodDecl {
                    name: s("probe0"),
                    args: vec![],
                    has_receiver: true,
                    has_return: false,
                    has_default_body: false,
                })],
            ),
            provider_name: "",
            probes: None,
            expected_error: Some("must not take a self parameter"),
        },
        TestProviderTrait {
            description: "method with return value",
            decl: plain_trait(
                "ReturnTrait",
                vec![MemberDecl::Method(MethodDecl {
                    name: s("probe0"),
                    args: vec![],
                    has_receiver: false,
                    has_return: true,
                    has_default_body: false,
                })],
            ),
            provider_name: "",
            probes: None,
            expected_error: Some("must not return a value"),
        },
        TestProviderTrait {
            description: "method with default implementation",
            decl: plain_trait(
                "DefaultBodyTrait",
                vec![MemberDecl::Method(MethodDecl {
                    name: s("probe0"),
                    args: vec![],
                    has_receiver: false,
                    has_return: false,
                    has_default_body: true,
                })],
            ),
            provider_name: "",
            probes: None,
            expected_error: Some("must not have a default implementation"),
        },
    ]
}

fn get_filtered_test_traits(with_errors: bool) -> Vec<TestProviderTrait> {
    get_test_provider_traits()
        .into_iter()
        .filter(|t| t.expected_error.is_some() == with_errors)
        .collect()
}

fn one_decl_file(decl: TraitDecl) -> SourceFile {
    SourceFile { nodes: vec![SourceNode::Interface(decl, vec![])] }
}

fn provider_matches(p: &ProviderSpecification, t: &TestProviderTrait) -> bool {
    p.name() == t.provider_name
        && t.probes.as_ref().map(|probes| p.probes() == probes).unwrap_or(false)
}

#[test]
fn find_providers_ignores_invalid_traits() {
    for test_trait in get_filtered_test_traits(true) {
        let test_file = one_decl_file(test_trait.decl);
        assert_eq!(
            0,
            find_providers(&test_file).len(),
            "The invalid trait '{}' was returned by find_providers as valid",
            test_trait.description
        );
    }
}

#[test]
fn find_providers_finds_valid_traits() {
    for test_trait in get_filtered_test_traits(false) {
        let test_file = one_decl_file(test_trait.decl.clone());
        let mut providers = find_providers(&test_file);
        assert_ne!(
            0,
            providers.len(),
            "the test trait '{}' was not properly detected by find_provider",
            test_trait.description
        );
        assert!(provider_matches(&providers.pop().unwrap(), &test_trait));
    }
}

#[test]
fn find_probes_fails_with_invalid_traits() {
    for test_trait in get_filtered_test_traits(true) {
        let error = find_probes(&test_trait.decl).err();
        assert_ne!(
            None, error,
            "The invalid trait '{}' was returned by find_probes as valid",
            test_trait.description
        );

        let expected_error_substring = test_trait.expected_error.unwrap();
        let message = error.unwrap().message();
        assert!(
            message.contains(expected_error_substring),
            "The invalid trait '{}' should produce an error containing '{}' but instead it produced '{}'",
            test_trait.description,
            expected_error_substring,
            message
        );
    }
}

#[test]
fn find_probes_succeeds_with_valid_traits() {
    for test_trait in get_filtered_test_traits(false) {
        let probes = find_probes(&test_trait.decl).unwrap();
        assert_eq!(probes, test_trait.probes.unwrap_or(Vec::new()));
    }
}

#[test]
fn provider_serde_test() {
    // Parse each valid test trait into a provider, then serialize and
    // deserialize to make sure the round trip preserves it.
    for test_trait in get_filtered_test_traits(false) {
        let provider = ProviderSpecification::from_trait(&test_trait.decl).unwrap();
        let buffer = tracers_codegen::codec::serialize(&provider);

        let rt_provider: ProviderSpecification =
            match tracers_codegen::codec::deserialize(buffer.as_slice()) {
                Ok(p) => p,
                Err(e) => {
                    panic!(
                        "Error deserializing provider: test case: {} error: {:?}",
                        test_trait.description, e
                    );
                }
            };

        assert!(
            provider.name() == rt_provider.name() && provider.probes() == rt_provider.probes(),
            "test case: {}",
            test_trait.description
        );
    }
}

#[test]
fn validation_error_identifies_offending_member() {
    // A declaration with a constant member alongside methods fails with an
    // error naming the constant.
    let decl = plain_trait(
        "ConstTrait",
        vec![method("probe0", vec![]), MemberDecl::Const(s("SOME_CONSTANT"))],
    );
    let err = find_probes(&decl).err().unwrap();
    match &err {
        ValidationError::NonMethodMember { trait_ident, member } => {
            assert_eq!(trait_ident, "ConstTrait");
            assert_eq!(member, "SOME_CONSTANT");
        }
        other => panic!("unexpected error {:?}", other),
    }
    assert!(err.message().contains("SOME_CONSTANT"));
}

#[test]
fn scan_keeps_valid_and_drops_invalid_candidates() {
    // A file with two candidates: one with a type parameter (invalid) and
    // one plain method-only declaration taking a single textual argument.
    let invalid = TraitDecl { type_params: 1, ..plain_trait("BadProvider", vec![]) };
    let valid = plain_trait("GoodProvider", vec![method("probe1", vec![arg("msg", "& str")])]);
    let file = SourceFile {
        nodes: vec![
            SourceNode::Interface(invalid, vec![]),
            SourceNode::Interface(valid, vec![]),
        ],
    };
    let providers = find_providers(&file);
    assert_eq!(1, providers.len());
    assert_eq!("good_provider", providers[0].name());
    assert_eq!(1, providers[0].probes().len());
}

#[test]
fn scan_skips_unmarked_traits() {
    // Without the marker attribute even a valid trait is not a candidate.
    let mut decl = plain_trait("Unmarked", vec![method("probe0", vec![])]);
    decl.attrs = vec![];
    let providers = find_providers(&one_decl_file(decl));
    assert_eq!(0, providers.len());
}

#[test]
fn scan_recognizes_namespaced_marker() {
    // The `tracers::tracer` alias of the marker is recognized too.
    let mut decl = plain_trait("Namespaced", vec![method("probe0", vec![])]);
    decl.attrs = vec![AttrPath { segments: vec![s("tracers"), s("tracer")] }];
    let providers = find_providers(&one_decl_file(decl));
    assert_eq!(1, providers.len());
}

#[test]
fn scan_visits_nested_declarations_inner_first() {
    // A candidate nested inside another item is found, and listed before
    // the enclosing candidate.
    let inner = plain_trait("InnerProvider", vec![method("inner_probe", vec![])]);
    let outer = plain_trait("OuterProvider", vec![method("outer_probe", vec![])]);
    let file = SourceFile {
        nodes: vec![SourceNode::Interface(
            outer,
            vec![SourceNode::Other(vec![SourceNode::Interface(inner, vec![])])],
        )],
    };
    let providers = find_providers(&file);
    assert_eq!(2, providers.len());
    assert_eq!("inner_provider", providers[0].name());
    assert_eq!("outer_provider", providers[1].name());
}
