//! The canonical textual form of a trait declaration.
//!
//! The canonical text is a normalized rendering of the declaration's
//! structure — attributes, visibility, identifier and members in declared
//! order, with fixed spacing — so that formatting differences in the scanned
//! source cannot change it. It is the input to the content hash.

use vstd::prelude::*;
use vstd::string::StringExecFns;
use crate::model::{
    attrs_view, members_view, probe_args_view, AttrPath, MemberDecl, MemberDeclV, MethodDecl,
    MethodDeclV, ProbeArg, ProbeArgV, TraitDecl, TraitDeclV,
};

verus! {

/// The canonical text of one probe argument: `name: type`.
pub open spec fn canon_arg(a: ProbeArgV) -> Seq<char> {
    a.name + ": "@ + a.type_text
}

/// The canonical text of the first `k` arguments, comma-separated.
pub open spec fn canon_args_to(args: Seq<ProbeArgV>, k: int) -> Seq<char>
    decreases k,
{
    if k <= 0 {
        Seq::empty()
    } else {
        canon_args_to(args, k - 1) + (if k > 1 {
            ", "@
        } else {
            Seq::<char>::empty()
        }) + canon_arg(args[k - 1])
    }
}

/// The canonical text of one method member.
pub open spec fn canon_method(m: MethodDeclV) -> Seq<char> {
    "fn "@ + m.name + "("@ + canon_args_to(m.args, m.args.len() as int) + ");"@
}

/// The canonical text of one member.
pub open spec fn canon_member(m: MemberDeclV) -> Seq<char> {
    match m {
        MemberDeclV::Method(f) => canon_method(f),
        MemberDeclV::Const(n) => "const "@ + n + ";"@,
        MemberDeclV::Type(n) => "type "@ + n + ";"@,
        MemberDeclV::Other(n) => n + ";"@,
    }
}

/// The canonical text of the first `k` members, one space after each.
pub open spec fn canon_members_to(ms: Seq<MemberDeclV>, k: int) -> Seq<char>
    decreases k,
{
    if k <= 0 {
        Seq::empty()
    } else {
        canon_members_to(ms, k - 1) + canon_member(ms[k - 1]) + " "@
    }
}

/// The canonical text of the first `k` segments of an attribute path,
/// separated by `::`.
pub open spec fn canon_segments_to(segs: Seq<Seq<char>>, k: int) -> Seq<char>
    decreases k,
{
    if k <= 0 {
        Seq::empty()
    } else {
        canon_segments_to(segs, k - 1) + (if k > 1 {
            "::"@
        } else {
            Seq::<char>::empty()
        }) + segs[k - 1]
    }
}

/// The canonical text of one attribute: `#[path] `.
pub open spec fn canon_attr(segs: Seq<Seq<char>>) -> Seq<char> {
    "#["@ + canon_segments_to(segs, segs.len() as int) + "] "@
}

/// The canonical text of the first `k` attributes.
pub open spec fn canon_attrs_to(attrs: Seq<Seq<Seq<char>>>, k: int) -> Seq<char>
    decreases k,
{
    if k <= 0 {
        Seq::empty()
    } else {
        canon_attrs_to(attrs, k - 1) + canon_attr(attrs[k - 1])
    }
}

/// The canonical text of a visibility: itself and a space, or nothing.
pub open spec fn canon_vis(vis: Seq<char>) -> Seq<char> {
    if vis.len() == 0 {
        Seq::empty()
    } else {
        vis + " "@
    }
}

/// The canonical text of a whole trait declaration, attributes included.
pub open spec fn canon_text(d: TraitDeclV) -> Seq<char> {
    canon_attrs_to(d.attrs, d.attrs.len() as int) + canon_vis(d.vis) + "trait "@ + d.ident
        + " { "@ + canon_members_to(d.members, d.members.len() as int) + "}"@
}

/// Appends the comma-separated canonical text of the arguments.
fn push_args(out: &mut String, args: &Vec<ProbeArg>)
    ensures
        final(out)@ == old(out)@ + canon_args_to(probe_args_view(args@), args@.len() as int),
{
    let ghost base = out@;
    let ghost argsv = probe_args_view(args@);
    let n = args.len();
    for k in 0..n
        invariant
            n == args.len(),
            argsv == probe_args_view(args@),
            out@ == base + canon_args_to(argsv, k as int),
    {
        if k > 0 {
            out.append(", ");
        }
        out.append(args[k].name.as_str());
        out.append(": ");
        out.append(args[k].type_text.as_str());
        proof {
            assert(argsv[k as int] == args@[k as int]@);
            assert(out@ =~= base + canon_args_to(argsv, k as int + 1));
        }
    }
}

/// Appends the canonical text of one method member.
fn push_method(out: &mut String, m: &MethodDecl)
    ensures
        final(out)@ == old(out)@ + canon_method(m@),
{
    let ghost base = out@;
    out.append("fn ");
    out.append(m.name.as_str());
    out.append("(");
    push_args(out, &m.args);
    out.append(");");
    proof {
        assert(out@ =~= base + canon_method(m@));
    }
}

/// Appends the canonical text of the members, one space after each.
fn push_members(out: &mut String, ms: &Vec<MemberDecl>)
    ensures
        final(out)@ == old(out)@ + canon_members_to(members_view(ms@), ms@.len() as int),
{
    let ghost base = out@;
    let ghost msv = members_view(ms@);
    let n = ms.len();
    for k in 0..n
        invariant
            n == ms.len(),
            msv == members_view(ms@),
            out@ == base + canon_members_to(msv, k as int),
    {
        proof {
            assert(msv[k as int] == ms@[k as int]@);
        }
        match &ms[k] {
            MemberDecl::Method(f) => {
                push_method(out, f);
            },
            MemberDecl::Const(name) => {
                out.append("const ");
                out.append(name.as_str());
                out.append(";");
            },
            MemberDecl::Type(name) => {
                out.append("type ");
                out.append(name.as_str());
                out.append(";");
            },
            MemberDecl::Other(name) => {
                out.append(name.as_str());
                out.append(";");
            },
        }
        out.append(" ");
        proof {
            assert(out@ =~= base + canon_members_to(msv, k as int + 1));
        }
    }
}

/// Appends the canonical text of the `::`-separated segments of one
/// attribute path.
fn push_segments(out: &mut String, segs: &Vec<String>)
    ensures
        final(out)@ == old(out)@ + canon_segments_to(
            segs@.map_values(|s: String| s@),
            segs@.len() as int,
        ),
{
    let ghost base = out@;
    let ghost segsv = segs@.map_values(|s: String| s@);
    let n = segs.len();
    for k in 0..n
        invariant
            n == segs.len(),
            segsv == segs@.map_values(|s: String| s@),
            out@ == base + canon_segments_to(segsv, k as int),
    {
        if k > 0 {
            out.append("::");
        }
        out.append(segs[k].as_str());
        proof {
            assert(segsv[k as int] == segs@[k as int]@);
            assert(out@ =~= base + canon_segments_to(segsv, k as int + 1));
        }
    }
}

/// Appends the canonical text of the attributes.
fn push_attrs(out: &mut String, attrs: &Vec<AttrPath>)
    ensures
        final(out)@ == old(out)@ + canon_attrs_to(attrs_view(attrs@), attrs@.len() as int),
{
    let ghost base = out@;
    let ghost attrsv = attrs_view(attrs@);
    let n = attrs.len();
    for k in 0..n
        invariant
            n == attrs.len(),
            attrsv == attrs_view(attrs@),
            out@ == base + canon_attrs_to(attrsv, k as int),
    {
        proof {
            assert(attrsv[k as int] == attrs@[k as int]@);
        }
        out.append("#[");
        push_segments(out, &attrs[k].segments);
        out.append("] ");
        proof {
            assert(out@ =~= base + canon_attrs_to(attrsv, k as int + 1));
        }
    }
}

/// Renders the canonical text of a trait declaration.
pub fn render_trait(d: &TraitDecl) -> (r: String)
    ensures
        r@ == canon_text(d@),
{
    let mut out = String::new();
    push_attrs(&mut out, &d.attrs);
    if !d.vis.as_str().is_empty() {
        out.append(d.vis.as_str());
        out.append(" ");
    }
    proof {
        assert(out@ =~= canon_attrs_to(d@.attrs, d@.attrs.len() as int) + canon_vis(d@.vis));
    }
    out.append("trait ");
    out.append(d.ident.as_str());
    out.append(" { ");
    push_members(&mut out, &d.members);
    out.append("}");
    proof {
        assert(out@ =~= canon_text(d@));
    }
    out
}

} // verus!
