//! Plain data model of the interface declarations that the engine inspects.
//!
//! The engine is handed declarations that an external parser produced; this
//! module defines the library's own representation of them: an attribute is a
//! path of segments, a method is a name with ordered arguments and a few shape
//! flags, and a trait declaration carries its attributes, generic-parameter
//! counts and members.

use vstd::prelude::*;

verus! {

/// One argument of a probe method: its binding name and the textual form of
/// its declared type.
#[derive(Debug, Clone, PartialEq, Eq)]
pub struct ProbeArg {
    pub name: String,
    pub type_text: String,
}

/// Mathematical image of a `ProbeArg`.
pub struct ProbeArgV {
    pub name: Seq<char>,
    pub type_text: Seq<char>,
}

impl View for ProbeArg {
    type V = ProbeArgV;

    open spec fn view(&self) -> ProbeArgV {
        ProbeArgV { name: self.name@, type_text: self.type_text@ }
    }
}

/// The images of a sequence of probe arguments.
pub open spec fn probe_args_view(args: Seq<ProbeArg>) -> Seq<ProbeArgV> {
    args.map_values(|a: ProbeArg| a@)
}

/// The path of one attribute on a declaration, as its ordered segments
/// (`tracers::tracer` is the two segments `tracers` and `tracer`).
#[derive(Debug, Clone, PartialEq, Eq)]
pub struct AttrPath {
    pub segments: Vec<String>,
}

impl View for AttrPath {
    type V = Seq<Seq<char>>;

    open spec fn view(&self) -> Seq<Seq<char>> {
        self.segments@.map_values(|s: String| s@)
    }
}

/// A method member of a trait declaration: its name, its ordered arguments,
/// and the shape facts that probe extraction inspects.
#[derive(Debug, Clone, PartialEq, Eq)]
pub struct MethodDecl {
    pub name: String,
    pub args: Vec<ProbeArg>,
    /// The method takes some form of `self` receiver.
    pub has_receiver: bool,
    /// The method declares a return value.
    pub has_return: bool,
    /// The method carries a default implementation.
    pub has_default_body: bool,
}

/// Mathematical image of a `MethodDecl`.
pub struct MethodDeclV {
    pub name: Seq<char>,
    pub args: Seq<ProbeArgV>,
    pub has_receiver: bool,
    pub has_return: bool,
    pub has_default_body: bool,
}

impl View for MethodDecl {
    type V = MethodDeclV;

    open spec fn view(&self) -> MethodDeclV {
        MethodDeclV {
            name: self.name@,
            args: probe_args_view(self.args@),
            has_receiver: self.has_receiver,
            has_return: self.has_return,
            has_default_body: self.has_default_body,
        }
    }
}

/// One member of a trait declaration. Only methods are legal in a provider;
/// the other variants carry the offending member's name so that validation
/// can identify it.
#[derive(Debug, Clone, PartialEq, Eq)]
pub enum MemberDecl {
    Method(MethodDecl),
    Const(String),
    Type(String),
    Other(String),
}

/// Mathematical image of a `MemberDecl`.
pub enum MemberDeclV {
    Method(MethodDeclV),
    Const(Seq<char>),
    Type(Seq<char>),
    Other(Seq<char>),
}

impl View for MemberDecl {
    type V = MemberDeclV;

    open spec fn view(&self) -> MemberDeclV {
        match self {
            MemberDecl::Method(m) => MemberDeclV::Method(m@),
            MemberDecl::Const(n) => MemberDeclV::Const(n@),
            MemberDecl::Type(n) => MemberDeclV::Type(n@),
            MemberDecl::Other(n) => MemberDeclV::Other(n@),
        }
    }
}

/// The images of a sequence of members.
pub open spec fn members_view(ms: Seq<MemberDecl>) -> Seq<MemberDeclV> {
    ms.map_values(|m: MemberDecl| m@)
}

/// The images of a sequence of attribute paths.
pub open spec fn attrs_view(attrs: Seq<AttrPath>) -> Seq<Seq<Seq<char>>> {
    attrs.map_values(|a: AttrPath| a@)
}

/// The images of a sequence of strings.
pub open spec fn strings_view(v: Seq<String>) -> Seq<Seq<char>> {
    v.map_values(|s: String| s@)
}

/// A whole trait declaration as the engine sees it: visibility, attributes,
/// identifier, counts of generic parameters, and members in source order.
#[derive(Debug, Clone, PartialEq, Eq)]
pub struct TraitDecl {
    pub vis: String,
    pub attrs: Vec<AttrPath>,
    pub ident: String,
    pub type_params: u64,
    pub lifetimes: u64,
    pub members: Vec<MemberDecl>,
}

/// Mathematical image of a `TraitDecl`.
pub struct TraitDeclV {
    pub vis: Seq<char>,
    pub attrs: Seq<Seq<Seq<char>>>,
    pub ident: Seq<char>,
    pub type_params: int,
    pub lifetimes: int,
    pub members: Seq<MemberDeclV>,
}

impl View for TraitDecl {
    type V = TraitDeclV;

    open spec fn view(&self) -> TraitDeclV {
        TraitDeclV {
            vis: self.vis@,
            attrs: attrs_view(self.attrs@),
            ident: self.ident@,
            type_params: self.type_params as int,
            lifetimes: self.lifetimes as int,
            members: members_view(self.members@),
        }
    }
}

/// Whether one attribute path marks a provider: its last segment is the
/// `tracer` marker, so that both `tracer` and namespaced aliases such as
/// `tracers::tracer` are recognized.
pub open spec fn attr_is_marker(segments: Seq<Seq<char>>) -> bool {
    segments.len() > 0 && segments.last() == "tracer"@
}

/// Whether a declaration is a candidate provider: some attribute on it is the
/// marker.
pub open spec fn is_candidate(d: TraitDeclV) -> bool {
    exists|i: int| 0 <= i < d.attrs.len() && attr_is_marker(#[trigger] d.attrs[i])
}

/// Decides whether a declaration carries the provider marker attribute.
pub fn decl_is_candidate(d: &TraitDecl) -> (r: bool)
    ensures
        r == is_candidate(d@),
{
    let marker: String = marker_ident();
    let n = d.attrs.len();
    for i in 0..n
        invariant
            n == d.attrs.len(),
            marker@ == "tracer"@,
            forall|j: int| 0 <= j < i ==> !attr_is_marker(#[trigger] d@.attrs[j]),
    {
        let a = &d.attrs[i];
        let k = a.segments.len();
        proof {
            assert(d@.attrs[i as int] == d.attrs@[i as int]@);
            assert(k > 0 ==> a@.last() == a.segments@[k - 1]@);
        }
        if k > 0 {
            if a.segments[k - 1] == marker {
                assert(attr_is_marker(d@.attrs[i as int]));
                return true;
            }
        }
        assert(!attr_is_marker(d@.attrs[i as int]));
    }
    false
}

/// The marker identifier that singles out provider traits.
fn marker_ident() -> (r: String)
    ensures
        r@ == "tracer"@,
{
    <String as vstd::string::StringExecFns>::from_str("tracer")
}

/// One node of a parsed source file, as far as the scan cares: a trait
/// declaration together with whatever nested items stand inside it, or any
/// other item with its nested items. Nested declarations can hide anywhere
/// an item can, so the tree is recursive.
#[derive(Debug)]
pub enum SourceNode {
    Interface(TraitDecl, Vec<SourceNode>),
    Other(Vec<SourceNode>),
}

/// A whole parsed source file: its top-level items in source order.
#[derive(Debug)]
pub struct SourceFile {
    pub nodes: Vec<SourceNode>,
}

/// Mathematical image of a `SourceNode`.
pub enum SourceNodeV {
    Interface(TraitDeclV, Seq<SourceNodeV>),
    Other(Seq<SourceNodeV>),
}

/// The image of one source node.
pub open spec fn node_view(n: SourceNode) -> SourceNodeV
    decreases n,
{
    match n {
        SourceNode::Interface(d, kids) => SourceNodeV::Interface(d@, nodes_view(kids@)),
        SourceNode::Other(kids) => SourceNodeV::Other(nodes_view(kids@)),
    }
}

/// The images of a sequence of source nodes.
pub open spec fn nodes_view(ns: Seq<SourceNode>) -> Seq<SourceNodeV>
    decreases ns,
{
    if ns.len() == 0 {
        Seq::empty()
    } else {
        seq![node_view(ns[0])] + nodes_view(ns.drop_first())
    }
}

/// The images of a node sequence are its nodes' images, in order.
pub proof fn lemma_nodes_view_index(ns: Seq<SourceNode>, i: int)
    requires
        0 <= i < ns.len(),
    ensures
        nodes_view(ns).len() == ns.len(),
        nodes_view(ns)[i] == node_view(ns[i]),
    decreases ns.len(),
{
    if i > 0 {
        lemma_nodes_view_index(ns.drop_first(), i - 1);
    } else {
        lemma_nodes_view_len(ns.drop_first());
    }
}

/// A node sequence and its image have the same length.
pub proof fn lemma_nodes_view_len(ns: Seq<SourceNode>)
    ensures
        nodes_view(ns).len() == ns.len(),
    decreases ns.len(),
{
    if ns.len() > 0 {
        lemma_nodes_view_len(ns.drop_first());
    }
}

impl View for SourceNode {
    type V = SourceNodeV;

    open spec fn view(&self) -> SourceNodeV {
        node_view(*self)
    }
}

impl View for SourceFile {
    type V = Seq<SourceNodeV>;

    open spec fn view(&self) -> Seq<SourceNodeV> {
        nodes_view(self.nodes@)
    }
}

/// Copies a list of strings, preserving every character.
pub fn clone_strings(v: &Vec<String>) -> (r: Vec<String>)
    ensures
        strings_view(r@) == strings_view(v@),
{
    let mut out: Vec<String> = Vec::new();
    let n = v.len();
    for i in 0..n
        invariant
            n == v.len(),
            out@.len() == i,
            forall|j: int| 0 <= j < i ==> #[trigger] out@[j]@ == v@[j]@,
    {
        out.push(v[i].clone());
    }
    proof {
        assert(strings_view(out@) =~= strings_view(v@));
    }
    out
}

/// Copies a list of probe arguments, preserving every field.
pub fn clone_args(args: &Vec<ProbeArg>) -> (r: Vec<ProbeArg>)
    ensures
        probe_args_view(r@) == probe_args_view(args@),
{
    let mut out: Vec<ProbeArg> = Vec::new();
    let n = args.len();
    for i in 0..n
        invariant
            n == args.len(),
            out@.len() == i,
            forall|j: int| 0 <= j < i ==> #[trigger] out@[j]@ == args@[j]@,
    {
        let a = ProbeArg { name: args[i].name.clone(), type_text: args[i].type_text.clone() };
        out.push(a);
    }
    proof {
        assert(probe_args_view(out@) =~= probe_args_view(args@));
    }
    out
}

/// Copies a list of attribute paths, preserving every segment.
pub fn clone_attrs(attrs: &Vec<AttrPath>) -> (r: Vec<AttrPath>)
    ensures
        attrs_view(r@) == attrs_view(attrs@),
{
    let mut out: Vec<AttrPath> = Vec::new();
    let n = attrs.len();
    for i in 0..n
        invariant
            n == attrs.len(),
            out@.len() == i,
            forall|j: int| 0 <= j < i ==> #[trigger] out@[j]@ == attrs@[j]@,
    {
        let a = AttrPath { segments: clone_strings(&attrs[i].segments) };
        out.push(a);
    }
    proof {
        assert(attrs_view(out@) =~= attrs_view(attrs@));
    }
    out
}

/// Copies one method declaration, preserving every field.
pub fn clone_method(m: &MethodDecl) -> (r: MethodDecl)
    ensures
        r@ == m@,
{
    MethodDecl {
        name: m.name.clone(),
        args: clone_args(&m.args),
        has_receiver: m.has_receiver,
        has_return: m.has_return,
        has_default_body: m.has_default_body,
    }
}

/// Copies a list of members, preserving every field.
pub fn clone_members(ms: &Vec<MemberDecl>) -> (r: Vec<MemberDecl>)
    ensures
        members_view(r@) == members_view(ms@),
{
    let mut out: Vec<MemberDecl> = Vec::new();
    let n = ms.len();
    for i in 0..n
        invariant
            n == ms.len(),
            out@.len() == i,
            forall|j: int| 0 <= j < i ==> #[trigger] out@[j]@ == ms@[j]@,
    {
        let m = match &ms[i] {
            MemberDecl::Method(f) => MemberDecl::Method(clone_method(f)),
            MemberDecl::Const(name) => MemberDecl::Const(name.clone()),
            MemberDecl::Type(name) => MemberDecl::Type(name.clone()),
            MemberDecl::Other(name) => MemberDecl::Other(name.clone()),
        };
        out.push(m);
    }
    proof {
        assert(members_view(out@) =~= members_view(ms@));
    }
    out
}

/// Copies a whole trait declaration, preserving every field.
pub fn clone_trait_decl(d: &TraitDecl) -> (r: TraitDecl)
    ensures
        r@ == d@,
{
    TraitDecl {
        vis: d.vis.clone(),
        attrs: clone_attrs(&d.attrs),
        ident: d.ident.clone(),
        type_params: d.type_params,
        lifetimes: d.lifetimes,
        members: clone_members(&d.members),
    }
}

} // verus!
