//! The provider specification: the validated, canonically named record that
//! downstream code generation trusts.
//!
//! Building one from a validated declaration derives the base name from the
//! trait identifier, renders the canonical text, hashes it, and keeps the
//! declaration and its probes. Scanning a whole file builds one per
//! candidate declaration that validates, silently dropping the rest.

use vstd::prelude::*;
use vstd::string::StringExecFns;
use crate::canon::{canon_text, render_trait};
use crate::errors::{ValidationError, ValidationErrorV};
use crate::hashing::{hash_text, spec_content_hash};
use crate::model::{
    clone_trait_decl, decl_is_candidate, is_candidate, lemma_nodes_view_index,
    lemma_nodes_view_len, node_view, nodes_view, MemberDeclV, SourceFile, SourceNode, SourceNodeV,
    TraitDecl, TraitDeclV,
};
use crate::naming::{hex16, provider_name_from_trait, spec_hex16, spec_provider_name};
use crate::probe::{probes_view, spec_extract, ProbeSpecification, ProbeSpecV};
use crate::validate::{find_probes, spec_find_probes, spec_member_probes};

verus! {

/// A validated provider: its derived base name, the content hash of its
/// canonical text, the declaration itself, that canonical text, and its
/// probes in declaration order. Never mutated once built.
#[derive(Debug)]
pub struct ProviderSpecification {
    name: String,
    hash: u64,
    item_trait: TraitDecl,
    canonical_text: String,
    probes: Vec<ProbeSpecification>,
}

/// Mathematical image of a `ProviderSpecification`.
pub struct ProviderSpecV {
    pub name: Seq<char>,
    pub hash: u64,
    pub item_trait: TraitDeclV,
    pub canonical_text: Seq<char>,
    pub probes: Seq<ProbeSpecV>,
}

impl View for ProviderSpecification {
    type V = ProviderSpecV;

    closed spec fn view(&self) -> ProviderSpecV {
        ProviderSpecV {
            name: self.name@,
            hash: self.hash,
            item_trait: self.item_trait@,
            canonical_text: self.canonical_text@,
            probes: probes_view(self.probes@),
        }
    }
}

/// The images of a sequence of provider specifications.
pub open spec fn providers_view(ps: Seq<ProviderSpecification>) -> Seq<ProviderSpecV> {
    ps.map_values(|p: ProviderSpecification| p@)
}

/// What the builder yields from a declaration whose validation produced
/// `probes`: every derived field is a pure function of the declaration.
pub open spec fn spec_build(d: TraitDeclV, probes: Seq<ProbeSpecV>) -> ProviderSpecV {
    ProviderSpecV {
        name: spec_provider_name(d.ident),
        hash: spec_content_hash(canon_text(d)),
        item_trait: d,
        canonical_text: canon_text(d),
        probes,
    }
}

impl ProviderSpecV {
    /// Well-formedness: each derived field is exactly what the builder
    /// derives from the declaration, and the probes are its validation
    /// result.
    /// Consistency of the derived fields: name, canonical text and hash
    /// are what the builder derives from the declaration. It says nothing
    /// of the probes, so it holds of decomposed records too.
    pub open spec fn consistent(self) -> bool {
        &&& self.name == spec_provider_name(self.item_trait.ident)
        &&& self.canonical_text == canon_text(self.item_trait)
        &&& self.hash == spec_content_hash(self.canonical_text)
    }

    /// Well-formedness of a freshly built record: the derived fields are
    /// consistent and the probes are the declaration's validation result.
    pub open spec fn wf(self) -> bool {
        &&& self.consistent()
        &&& spec_find_probes(self.item_trait) == Ok::<_, ValidationErrorV>(self.probes)
    }
}

/// The unique name of a provider: base name, underscore, and the content
/// hash in fixed-width lowercase hexadecimal.
pub open spec fn spec_name_with_hash(s: ProviderSpecV) -> Seq<char> {
    s.name + "_"@ + spec_hex16(s.hash)
}

impl ProviderSpecification {
    /// Assembles a record from already-derived parts; the serialization
    /// adapter rebuilds records through this after checking their hash.
    pub(crate) fn from_parts(
        name: String,
        hash: u64,
        item_trait: TraitDecl,
        canonical_text: String,
        probes: Vec<ProbeSpecification>,
    ) -> (r: ProviderSpecification)
        ensures
            r@ == (ProviderSpecV {
                name: name@,
                hash,
                item_trait: item_trait@,
                canonical_text: canonical_text@,
                probes: probes_view(probes@),
            }),
    {
        ProviderSpecification { name, hash, item_trait, canonical_text, probes }
    }

    /// Validates a declaration and builds its provider specification, or
    /// reports the first validation failure.
    pub fn from_trait(item_trait: &TraitDecl) -> (r: Result<
        ProviderSpecification,
        ValidationError,
    >)
        ensures
            (match spec_find_probes(item_trait@) {
                Ok(ps) => r is Ok && r->Ok_0@ == spec_build(item_trait@, ps) && r->Ok_0@.wf(),
                Err(e) => r is Err && r->Err_0@ == e,
            }),
            r is Ok ==> (forall|i: int|
                0 <= i < r->Ok_0@.name.len() ==> crate::naming::is_snake_char(
                    #[trigger] r->Ok_0@.name[i],
                )),
    {
        let probes = match find_probes(item_trait) {
            Ok(p) => p,
            Err(e) => {
                return Err(e);
            },
        };
        let canonical_text = render_trait(item_trait);
        let hash = hash_text(canonical_text.as_str());
        let name = provider_name_from_trait(item_trait.ident.as_str());
        Ok(
            ProviderSpecification {
                name,
                hash,
                item_trait: clone_trait_decl(item_trait),
                canonical_text,
                probes,
            },
        )
    }

    /// The provider's base name as an owned-string reference, for callers
    /// that compare whole strings.
    pub(crate) fn name_string(&self) -> (r: &String)
        ensures
            r@ == self@.name,
    {
        &self.name
    }

    /// The canonical text as an owned-string reference, for callers that
    /// compare whole strings.
    pub(crate) fn canonical_text_string(&self) -> (r: &String)
        ensures
            r@ == self@.canonical_text,
    {
        &self.canonical_text
    }

    /// The provider's base name, reserved for human-facing diagnostics;
    /// distinct providers may share it.
    pub fn name(&self) -> (r: &str)
        ensures
            r@ == self@.name,
    {
        self.name.as_str()
    }

    /// The provider's unique name: the base name qualified by the content
    /// hash, the only identifier safe for global use.
    pub fn name_with_hash(&self) -> (r: String)
        ensures
            r@ == spec_name_with_hash(self@),
    {
        let mut out = self.name.clone();
        out.append("_");
        let hx = hex16(self.hash);
        out.append(hx.as_str());
        proof {
            assert(out@ =~= spec_name_with_hash(self@));
        }
        out
    }

    /// The content hash of the canonical text.
    pub fn hash(&self) -> (r: u64)
        ensures
            r == self@.hash,
    {
        self.hash
    }

    /// The identifier of the provider's trait.
    pub fn ident(&self) -> (r: &str)
        ensures
            r@ == self@.item_trait.ident,
    {
        self.item_trait.ident.as_str()
    }

    /// The validated declaration itself.
    pub fn item_trait(&self) -> (r: &TraitDecl)
        ensures
            r@ == self@.item_trait,
    {
        &self.item_trait
    }

    /// The canonical text of the declaration, the input to the content hash.
    pub fn canonical_text(&self) -> (r: &str)
        ensures
            r@ == self@.canonical_text,
    {
        self.canonical_text.as_str()
    }

    /// The provider's probes, in declaration order.
    pub fn probes(&self) -> (r: &Vec<ProbeSpecification>)
        ensures
            probes_view(r@) == self@.probes,
    {
        &self.probes
    }

    /// The declared visibility of the trait, as text usable in generated
    /// code.
    pub fn vis_str(&self) -> (r: String)
        ensures
            r@ == self@.item_trait.vis,
    {
        self.item_trait.vis.clone()
    }

    /// Consumes this specification and splits it: the same record with an
    /// empty probe list, and the probes themselves. No field is recomputed.
    pub fn separate_probes(self) -> (r: (ProviderSpecification, Vec<ProbeSpecification>))
        ensures
            r.0@ == (ProviderSpecV { probes: Seq::empty(), ..self@ }),
            probes_view(r.1@) == self@.probes,
    {
        let ProviderSpecification { name, hash, item_trait, canonical_text, probes } = self;
        let stripped = ProviderSpecification {
            name,
            hash,
            item_trait,
            canonical_text,
            probes: Vec::new(),
        };
        proof {
            assert(probes_view(Seq::<ProbeSpecification>::empty()) =~= Seq::<ProbeSpecV>::empty());
        }
        (stripped, probes)
    }
}

/// The providers that one node contributes to a scan: those of its nested
/// items first, then — if the node is a candidate declaration that
/// validates — its own.
pub open spec fn spec_scan_node(n: SourceNodeV) -> Seq<ProviderSpecV>
    decreases n,
{
    match n {
        SourceNodeV::Other(kids) => spec_scan_nodes(kids),
        SourceNodeV::Interface(d, kids) => spec_scan_nodes(kids) + (if is_candidate(d)
            && spec_find_probes(d) is Ok {
            seq![spec_build(d, spec_find_probes(d)->Ok_0)]
        } else {
            Seq::empty()
        }),
    }
}

/// The providers of a sequence of nodes, in order.
pub open spec fn spec_scan_nodes(ns: Seq<SourceNodeV>) -> Seq<ProviderSpecV>
    decreases ns,
{
    if ns.len() == 0 {
        Seq::empty()
    } else {
        spec_scan_node(ns[0]) + spec_scan_nodes(ns.drop_first())
    }
}

/// Scans one node, appending the providers it contributes.
fn scan_node(n: &SourceNode, out: &mut Vec<ProviderSpecification>)
    ensures
        providers_view(final(out)@) == providers_view(old(out)@) + spec_scan_node(node_view(*n)),
    decreases *n,
{
    match n {
        SourceNode::Other(kids) => {
            scan_nodes(kids, out);
        },
        SourceNode::Interface(d, kids) => {
            scan_nodes(kids, out);
            let ghost mid = out@;
            let ghost dv = d@;
            let ghost kidsv = nodes_view(kids@);
            if decl_is_candidate(d) {
                match ProviderSpecification::from_trait(d) {
                    Ok(p) => {
                        let ghost pv = p@;
                        out.push(p);
                        proof {
                            assert(providers_view(out@) =~= providers_view(mid) + seq![pv]);
                            assert(providers_view(old(out)@) + (spec_scan_nodes(kidsv)
                                + seq![pv]) =~= (providers_view(old(out)@) + spec_scan_nodes(
                                kidsv,
                            )) + seq![pv]);
                        }
                    },
                    Err(_) => {
                        proof {
                            assert(providers_view(out@) + Seq::<ProviderSpecV>::empty()
                                =~= providers_view(out@));
                        }
                    },
                }
            } else {
                proof {
                    assert(providers_view(out@) + Seq::<ProviderSpecV>::empty() =~= providers_view(
                        out@,
                    ));
                }
            }
        },
    }
}

/// Scans a sequence of nodes in order, appending the providers each
/// contributes.
fn scan_nodes(ns: &Vec<SourceNode>, out: &mut Vec<ProviderSpecification>)
    ensures
        providers_view(final(out)@) == providers_view(old(out)@) + spec_scan_nodes(
            nodes_view(ns@),
        ),
    decreases ns@,
{
    let ghost basev = providers_view(out@);
    let ghost nsv = nodes_view(ns@);
    proof {
        lemma_nodes_view_len(ns@);
        assert(nsv.skip(0) =~= nsv);
    }
    let n = ns.len();
    for i in 0..n
        invariant
            n == ns.len(),
            nsv == nodes_view(ns@),
            nsv.len() == n,
            basev + spec_scan_nodes(nsv) == providers_view(out@) + spec_scan_nodes(
                nsv.skip(i as int),
            ),
    {
        proof {
            lemma_nodes_view_index(ns@, i as int);
            assert(nsv.skip(i as int)[0] == nsv[i as int]);
            assert(nsv.skip(i as int).drop_first() =~= nsv.skip(i as int + 1));
        }
        let ghost prev = out@;
        scan_node(&ns[i], out);
        proof {
            assert((providers_view(prev) + spec_scan_node(nsv[i as int])) + spec_scan_nodes(
                nsv.skip(i as int + 1),
            ) =~= providers_view(prev) + (spec_scan_node(nsv[i as int]) + spec_scan_nodes(
                nsv.skip(i as int + 1),
            )));
        }
    }
    proof {
        assert(nsv.skip(n as int) =~= Seq::<SourceNodeV>::empty());
        assert(providers_view(out@) + Seq::<ProviderSpecV>::empty() =~= providers_view(out@));
    }
}

/// Every specification that one node's scan yields is well-formed.
pub proof fn lemma_scan_node_wf(n: SourceNodeV)
    ensures
        forall|i: int|
            0 <= i < spec_scan_node(n).len() ==> (#[trigger] spec_scan_node(n)[i]).wf(),
    decreases n,
{
    match n {
        SourceNodeV::Other(kids) => {
            lemma_scan_nodes_wf(kids);
            assert forall|i: int| 0 <= i < spec_scan_node(n).len() implies (
            #[trigger] spec_scan_node(n)[i]).wf() by {
                assert(spec_scan_node(n)[i] == spec_scan_nodes(kids)[i]);
            }
        },
        SourceNodeV::Interface(d, kids) => {
            lemma_scan_nodes_wf(kids);
            assert forall|i: int| 0 <= i < spec_scan_node(n).len() implies (
            #[trigger] spec_scan_node(n)[i]).wf() by {
                if i < spec_scan_nodes(kids).len() {
                    assert(spec_scan_node(n)[i] == spec_scan_nodes(kids)[i]);
                } else {
                    assert(spec_scan_node(n)[i] == spec_build(d, spec_find_probes(d)->Ok_0));
                }
            }
        },
    }
}

/// Every specification that a node sequence's scan yields is well-formed.
pub proof fn lemma_scan_nodes_wf(ns: Seq<SourceNodeV>)
    ensures
        forall|i: int|
            0 <= i < spec_scan_nodes(ns).len() ==> (#[trigger] spec_scan_nodes(ns)[i]).wf(),
    decreases ns,
{
    if ns.len() > 0 {
        lemma_scan_node_wf(ns[0]);
        lemma_scan_nodes_wf(ns.drop_first());
        assert forall|i: int| 0 <= i < spec_scan_nodes(ns).len() implies (
        #[trigger] spec_scan_nodes(ns)[i]).wf() by {
            if i < spec_scan_node(ns[0]).len() {
                assert(spec_scan_nodes(ns)[i] == spec_scan_node(ns[0])[i]);
            } else {
                assert(spec_scan_nodes(ns)[i] == spec_scan_nodes(ns.drop_first())[i
                    - spec_scan_node(ns[0]).len()]);
            }
        }
    }
}

/// Scans a whole parsed file for provider declarations: every trait
/// declaration carrying the marker attribute, nested ones before the items
/// that hold them, is validated and built; declarations that fail
/// validation are silently dropped. Everything returned is well-formed.
pub fn find_providers(file: &SourceFile) -> (r: Vec<ProviderSpecification>)
    ensures
        providers_view(r@) == spec_scan_nodes(file@),
        forall|i: int|
            0 <= i < providers_view(r@).len() ==> (#[trigger] providers_view(r@)[i]).wf(),
{
    let mut out: Vec<ProviderSpecification> = Vec::new();
    proof {
        assert(providers_view(out@) =~= Seq::<ProviderSpecV>::empty());
    }
    scan_nodes(&file.nodes, &mut out);
    proof {
        assert(Seq::<ProviderSpecV>::empty() + spec_scan_nodes(nodes_view(file.nodes@))
            =~= spec_scan_nodes(nodes_view(file.nodes@)));
        lemma_scan_nodes_wf(nodes_view(file.nodes@));
    }
    out
}

/// Building is deterministic: two builds of one declaration agree in name,
/// hash, canonical text and probes.
pub proof fn lemma_build_deterministic(d1: TraitDeclV, d2: TraitDeclV)
    requires
        d1 == d2,
        spec_find_probes(d1) is Ok,
    ensures
        spec_build(d1, spec_find_probes(d1)->Ok_0).name == spec_build(
            d2,
            spec_find_probes(d2)->Ok_0,
        ).name,
        spec_build(d1, spec_find_probes(d1)->Ok_0).hash == spec_build(
            d2,
            spec_find_probes(d2)->Ok_0,
        ).hash,
        spec_build(d1, spec_find_probes(d1)->Ok_0).canonical_text == spec_build(
            d2,
            spec_find_probes(d2)->Ok_0,
        ).canonical_text,
        spec_build(d1, spec_find_probes(d1)->Ok_0).probes == spec_build(
            d2,
            spec_find_probes(d2)->Ok_0,
        ).probes,
{
}

/// Two providers built from declarations that share a source identifier
/// share their base name; and whenever their content hashes differ, their
/// unique names differ too. Nothing forces the hashes of different
/// declarations to differ: a fixed-width hash admits collisions, so the
/// hash inequality itself is a premise here, not a conclusion.
pub proof fn lemma_shared_ident_names(
    d1: TraitDeclV,
    d2: TraitDeclV,
    ps1: Seq<ProbeSpecV>,
    ps2: Seq<ProbeSpecV>,
)
    requires
        d1.ident == d2.ident,
    ensures
        spec_build(d1, ps1).name == spec_build(d2, ps2).name,
        spec_build(d1, ps1).hash != spec_build(d2, ps2).hash ==> spec_name_with_hash(
            spec_build(d1, ps1),
        ) != spec_name_with_hash(spec_build(d2, ps2)),
{
    let s1 = spec_build(d1, ps1);
    let s2 = spec_build(d2, ps2);
    if s1.hash != s2.hash {
        crate::naming::lemma_hex16_fixed_width(s1.hash);
        crate::naming::lemma_hex16_fixed_width(s2.hash);
        if spec_name_with_hash(s1) == spec_name_with_hash(s2) {
            let n1 = spec_name_with_hash(s1);
            assert(spec_hex16(s1.hash) =~= n1.subrange(n1.len() - 16, n1.len() as int));
            assert(spec_hex16(s2.hash) =~= n1.subrange(n1.len() - 16, n1.len() as int));
            crate::naming::lemma_hex16_injective(s1.hash, s2.hash);
        }
    }
}

/// A member list with a member that is no method never validates.
proof fn lemma_member_probes_err(trait_ident: Seq<char>, ms: Seq<MemberDeclV>)
    requires
        exists|i: int| 0 <= i < ms.len() && !((#[trigger] ms[i]) is Method),
    ensures
        spec_member_probes(trait_ident, ms) is Err,
    decreases ms.len(),
{
    let i = choose|i: int| 0 <= i < ms.len() && !((#[trigger] ms[i]) is Method);
    if i > 0 {
        match ms[0] {
            MemberDeclV::Method(m) => {
                if spec_extract(trait_ident, m) is Ok {
                    assert(ms.drop_first()[i - 1] == ms[i]);
                    lemma_member_probes_err(trait_ident, ms.drop_first());
                }
            },
            _ => {},
        }
    }
}

/// A declaration that breaks a shape rule — generic parameters, or a member
/// that is no method — always fails validation.
pub proof fn lemma_validate_rejects(d: TraitDeclV)
    requires
        d.type_params > 0 || d.lifetimes > 0 || (exists|i: int|
            0 <= i < d.members.len() && !((#[trigger] d.members[i]) is Method)),
    ensures
        spec_find_probes(d) is Err,
{
    if d.type_params > 0 || d.lifetimes > 0 {
    } else {
        lemma_member_probes_err(d.ident, d.members);
    }
}

/// A declaration that fails validation is dropped by the scan: a file
/// holding only that declaration, marker or not, yields no providers.
pub proof fn lemma_scan_drops_invalid(d: TraitDeclV)
    requires
        spec_find_probes(d) is Err,
    ensures
        spec_scan_nodes(seq![SourceNodeV::Interface(d, Seq::empty())]) == Seq::<
            ProviderSpecV,
        >::empty(),
{
    let node = SourceNodeV::Interface(d, Seq::<SourceNodeV>::empty());
    let file = seq![node];
    assert(spec_scan_nodes(Seq::<SourceNodeV>::empty()) == Seq::<ProviderSpecV>::empty());
    assert(spec_scan_node(node) =~= Seq::<ProviderSpecV>::empty());
    assert(file.drop_first() =~= Seq::<SourceNodeV>::empty());
    assert(spec_scan_nodes(file) =~= Seq::<ProviderSpecV>::empty());
}

} // verus!
