//! Lossless serialization of provider specifications.
//!
//! The serialized form is a length-prefixed byte document: integers as eight
//! little-endian bytes, strings as a byte count followed by UTF-8 bytes,
//! lists as an element count followed by the elements, and the record's
//! fields in a fixed order. Deserialization checks that the stored hash
//! matches the hash recomputed from the stored canonical text, so a
//! corrupted record is rejected rather than trusted.

use vstd::prelude::*;
use vstd::bytes::{spec_u64_from_le_bytes, spec_u64_to_le_bytes};
use vstd::utf8::{decode_utf8, encode_utf8, valid_utf8};
use crate::model::{MemberDeclV, MethodDeclV, ProbeArgV, TraitDeclV};
use crate::probe::ProbeSpecV;
use crate::provider::ProviderSpecV;

verus! {

/// The limit under which a length fits its eight-byte prefix.
pub open spec fn len_limit() -> int {
    0x10000000000000000
}

/// A string whose UTF-8 byte count fits the length prefix.
pub open spec fn fits_str(s: Seq<char>) -> bool {
    encode_utf8(s).len() < len_limit()
}

/// An argument whose strings fit.
pub open spec fn fits_arg(a: ProbeArgV) -> bool {
    fits_str(a.name) && fits_str(a.type_text)
}

/// An argument list whose count and elements fit.
pub open spec fn fits_args(args: Seq<ProbeArgV>) -> bool {
    args.len() < len_limit() && (forall|i: int|
        0 <= i < args.len() ==> fits_arg(#[trigger] args[i]))
}

/// A segment list whose count and strings fit.
pub open spec fn fits_strs(ss: Seq<Seq<char>>) -> bool {
    ss.len() < len_limit() && (forall|i: int| 0 <= i < ss.len() ==> fits_str(#[trigger] ss[i]))
}

/// An attribute list whose count and paths fit.
pub open spec fn fits_attrs(attrs: Seq<Seq<Seq<char>>>) -> bool {
    attrs.len() < len_limit() && (forall|i: int|
        0 <= i < attrs.len() ==> fits_strs(#[trigger] attrs[i]))
}

/// A member whose parts fit.
pub open spec fn fits_member(m: MemberDeclV) -> bool {
    match m {
        MemberDeclV::Method(f) => fits_str(f.name) && fits_args(f.args),
        MemberDeclV::Const(n) => fits_str(n),
        MemberDeclV::Type(n) => fits_str(n),
        MemberDeclV::Other(n) => fits_str(n),
    }
}

/// A member list whose count and members fit.
pub open spec fn fits_members(ms: Seq<MemberDeclV>) -> bool {
    ms.len() < len_limit() && (forall|i: int| 0 <= i < ms.len() ==> fits_member(#[trigger] ms[i]))
}

/// A probe whose parts fit.
pub open spec fn fits_probe(p: ProbeSpecV) -> bool {
    fits_str(p.name) && fits_args(p.args)
}

/// A probe list whose count and probes fit.
pub open spec fn fits_probes(ps: Seq<ProbeSpecV>) -> bool {
    ps.len() < len_limit() && (forall|i: int| 0 <= i < ps.len() ==> fits_probe(#[trigger] ps[i]))
}

/// A declaration whose parts fit.
pub open spec fn fits_trait(d: TraitDeclV) -> bool {
    &&& fits_str(d.vis)
    &&& fits_attrs(d.attrs)
    &&& fits_str(d.ident)
    &&& 0 <= d.type_params < len_limit()
    &&& 0 <= d.lifetimes < len_limit()
    &&& fits_members(d.members)
}

/// A record whose parts fit. Every record built from real values does.
pub open spec fn fits_provider(v: ProviderSpecV) -> bool {
    &&& fits_str(v.name)
    &&& fits_trait(v.item_trait)
    &&& fits_str(v.canonical_text)
    &&& fits_probes(v.probes)
}

// ---- encoders ----

/// Eight little-endian bytes.
pub open spec fn enc_u64(x: u64) -> Seq<u8> {
    spec_u64_to_le_bytes(x)
}

/// One byte, one for true.
pub open spec fn enc_bool(v: bool) -> Seq<u8> {
    if v {
        seq![1u8]
    } else {
        seq![0u8]
    }
}

/// Byte count, then UTF-8 bytes.
pub open spec fn enc_str(s: Seq<char>) -> Seq<u8> {
    enc_u64(encode_utf8(s).len() as u64) + encode_utf8(s)
}

/// Argument: name, then type text.
pub open spec fn enc_arg(a: ProbeArgV) -> Seq<u8> {
    enc_str(a.name) + enc_str(a.type_text)
}

/// The arguments from position `k` on, in order.
pub open spec fn enc_args_from(args: Seq<ProbeArgV>, k: int) -> Seq<u8>
    decreases args.len() - k,
{
    if k < 0 || k >= args.len() {
        Seq::empty()
    } else {
        enc_arg(args[k]) + enc_args_from(args, k + 1)
    }
}

/// Argument list: count, then arguments.
pub open spec fn enc_args(args: Seq<ProbeArgV>) -> Seq<u8> {
    enc_u64(args.len() as u64) + enc_args_from(args, 0)
}

/// Probe: name, then arguments.
pub open spec fn enc_probe(p: ProbeSpecV) -> Seq<u8> {
    enc_str(p.name) + enc_args(p.args)
}

/// The probes from position `k` on, in order.
pub open spec fn enc_probes_from(ps: Seq<ProbeSpecV>, k: int) -> Seq<u8>
    decreases ps.len() - k,
{
    if k < 0 || k >= ps.len() {
        Seq::empty()
    } else {
        enc_probe(ps[k]) + enc_probes_from(ps, k + 1)
    }
}

/// Probe list: count, then probes.
pub open spec fn enc_probes(ps: Seq<ProbeSpecV>) -> Seq<u8> {
    enc_u64(ps.len() as u64) + enc_probes_from(ps, 0)
}

/// The strings from position `k` on, in order.
pub open spec fn enc_strs_from(ss: Seq<Seq<char>>, k: int) -> Seq<u8>
    decreases ss.len() - k,
{
    if k < 0 || k >= ss.len() {
        Seq::empty()
    } else {
        enc_str(ss[k]) + enc_strs_from(ss, k + 1)
    }
}

/// String list: count, then strings.
pub open spec fn enc_strs(ss: Seq<Seq<char>>) -> Seq<u8> {
    enc_u64(ss.len() as u64) + enc_strs_from(ss, 0)
}

/// The attributes from position `k` on, each a string list.
pub open spec fn enc_attrs_from(attrs: Seq<Seq<Seq<char>>>, k: int) -> Seq<u8>
    decreases attrs.len() - k,
{
    if k < 0 || k >= attrs.len() {
        Seq::empty()
    } else {
        enc_strs(attrs[k]) + enc_attrs_from(attrs, k + 1)
    }
}

/// Attribute list: count, then attributes.
pub open spec fn enc_attrs(attrs: Seq<Seq<Seq<char>>>) -> Seq<u8> {
    enc_u64(attrs.len() as u64) + enc_attrs_from(attrs, 0)
}

/// Member: a tag byte, then the member's parts.
pub open spec fn enc_member(m: MemberDeclV) -> Seq<u8> {
    match m {
        MemberDeclV::Method(f) => seq![0u8] + (enc_str(f.name) + enc_args(f.args) + enc_bool(
            f.has_receiver,
        ) + enc_bool(f.has_return) + enc_bool(f.has_default_body)),
        MemberDeclV::Const(n) => seq![1u8] + enc_str(n),
        MemberDeclV::Type(n) => seq![2u8] + enc_str(n),
        MemberDeclV::Other(n) => seq![3u8] + enc_str(n),
    }
}

/// The members from position `k` on, in order.
pub open spec fn enc_members_from(ms: Seq<MemberDeclV>, k: int) -> Seq<u8>
    decreases ms.len() - k,
{
    if k < 0 || k >= ms.len() {
        Seq::empty()
    } else {
        enc_member(ms[k]) + enc_members_from(ms, k + 1)
    }
}

/// Member list: count, then members.
pub open spec fn enc_members(ms: Seq<MemberDeclV>) -> Seq<u8> {
    enc_u64(ms.len() as u64) + enc_members_from(ms, 0)
}

/// Declaration: visibility, attributes, identifier, generic-parameter
/// counts, members.
pub open spec fn enc_trait(d: TraitDeclV) -> Seq<u8> {
    enc_str(d.vis) + enc_attrs(d.attrs) + enc_str(d.ident) + enc_u64(d.type_params as u64)
        + enc_u64(d.lifetimes as u64) + enc_members(d.members)
}

/// Record: name, hash, declaration, canonical text, probes.
pub open spec fn enc_provider(v: ProviderSpecV) -> Seq<u8> {
    enc_str(v.name) + enc_u64(v.hash) + enc_trait(v.item_trait) + enc_str(v.canonical_text)
        + enc_probes(v.probes)
}

/// The serialized form of a record.
pub open spec fn spec_serialize(v: ProviderSpecV) -> Seq<u8> {
    enc_provider(v)
}

// ---- decoders ----

/// Reads eight little-endian bytes.
pub open spec fn dec_u64(b: Seq<u8>, i: int) -> Option<(u64, int)> {
    if 0 <= i && i + 8 <= b.len() {
        Some((spec_u64_from_le_bytes(b.subrange(i, i + 8)), i + 8))
    } else {
        None
    }
}

/// Reads one boolean byte.
pub open spec fn dec_bool(b: Seq<u8>, i: int) -> Option<(bool, int)> {
    if 0 <= i && i + 1 <= b.len() {
        if b[i] == 1 {
            Some((true, i + 1))
        } else if b[i] == 0 {
            Some((false, i + 1))
        } else {
            None
        }
    } else {
        None
    }
}

/// Reads a byte count, then that many UTF-8 bytes.
pub open spec fn dec_str(b: Seq<u8>, i: int) -> Option<(Seq<char>, int)> {
    match dec_u64(b, i) {
        None => None,
        Some((n, j)) => if j + n <= b.len() {
            let sub = b.subrange(j, j + n);
            if valid_utf8(sub) {
                Some((decode_utf8(sub), j + n))
            } else {
                None
            }
        } else {
            None
        },
    }
}

/// Reads one argument.
pub open spec fn dec_arg(b: Seq<u8>, i: int) -> Option<(ProbeArgV, int)> {
    match dec_str(b, i) {
        None => None,
        Some((name, j)) => match dec_str(b, j) {
            None => None,
            Some((type_text, k)) => Some((ProbeArgV { name, type_text }, k)),
        },
    }
}

/// Reads `n` arguments.
pub open spec fn dec_args_n(b: Seq<u8>, i: int, n: u64) -> Option<(Seq<ProbeArgV>, int)>
    decreases n,
{
    if n == 0 {
        Some((Seq::empty(), i))
    } else {
        match dec_arg(b, i) {
            None => None,
            Some((a, j)) => match dec_args_n(b, j, (n - 1) as u64) {
                None => None,
                Some((rest, k)) => Some((seq![a] + rest, k)),
            },
        }
    }
}

/// Reads an argument list.
pub open spec fn dec_args(b: Seq<u8>, i: int) -> Option<(Seq<ProbeArgV>, int)> {
    match dec_u64(b, i) {
        None => None,
        Some((n, j)) => dec_args_n(b, j, n),
    }
}

/// Reads one probe.
pub open spec fn dec_probe(b: Seq<u8>, i: int) -> Option<(ProbeSpecV, int)> {
    match dec_str(b, i) {
        None => None,
        Some((name, j)) => match dec_args(b, j) {
            None => None,
            Some((args, k)) => Some((ProbeSpecV { name, args }, k)),
        },
    }
}

/// Reads `n` probes.
pub open spec fn dec_probes_n(b: Seq<u8>, i: int, n: u64) -> Option<(Seq<ProbeSpecV>, int)>
    decreases n,
{
    if n == 0 {
        Some((Seq::empty(), i))
    } else {
        match dec_probe(b, i) {
            None => None,
            Some((p, j)) => match dec_probes_n(b, j, (n - 1) as u64) {
                None => None,
                Some((rest, k)) => Some((seq![p] + rest, k)),
            },
        }
    }
}

/// Reads a probe list.
pub open spec fn dec_probes(b: Seq<u8>, i: int) -> Option<(Seq<ProbeSpecV>, int)> {
    match dec_u64(b, i) {
        None => None,
        Some((n, j)) => dec_probes_n(b, j, n),
    }
}

/// Reads `n` strings.
pub open spec fn dec_strs_n(b: Seq<u8>, i: int, n: u64) -> Option<(Seq<Seq<char>>, int)>
    decreases n,
{
    if n == 0 {
        Some((Seq::empty(), i))
    } else {
        match dec_str(b, i) {
            None => None,
            Some((s, j)) => match dec_strs_n(b, j, (n - 1) as u64) {
                None => None,
                Some((rest, k)) => Some((seq![s] + rest, k)),
            },
        }
    }
}

/// Reads a string list.
pub open spec fn dec_strs(b: Seq<u8>, i: int) -> Option<(Seq<Seq<char>>, int)> {
    match dec_u64(b, i) {
        None => None,
        Some((n, j)) => dec_strs_n(b, j, n),
    }
}

/// Reads `n` attributes.
pub open spec fn dec_attrs_n(b: Seq<u8>, i: int, n: u64) -> Option<(Seq<Seq<Seq<char>>>, int)>
    decreases n,
{
    if n == 0 {
        Some((Seq::empty(), i))
    } else {
        match dec_strs(b, i) {
            None => None,
            Some((a, j)) => match dec_attrs_n(b, j, (n - 1) as u64) {
                None => None,
                Some((rest, k)) => Some((seq![a] + rest, k)),
            },
        }
    }
}

/// Reads an attribute list.
pub open spec fn dec_attrs(b: Seq<u8>, i: int) -> Option<(Seq<Seq<Seq<char>>>, int)> {
    match dec_u64(b, i) {
        None => None,
        Some((n, j)) => dec_attrs_n(b, j, n),
    }
}

/// Reads one member, by its tag byte.
pub open spec fn dec_member(b: Seq<u8>, i: int) -> Option<(MemberDeclV, int)> {
    if 0 <= i && i + 1 <= b.len() {
        let tag = b[i];
        if tag == 0 {
            match dec_str(b, i + 1) {
                None => None,
                Some((name, j)) => match dec_args(b, j) {
                    None => None,
                    Some((args, k)) => match dec_bool(b, k) {
                        None => None,
                        Some((has_receiver, k1)) => match dec_bool(b, k1) {
                            None => None,
                            Some((has_return, k2)) => match dec_bool(b, k2) {
                                None => None,
                                Some((has_default_body, k3)) => Some(
                                    (
                                        MemberDeclV::Method(
                                            MethodDeclV {
                                                name,
                                                args,
                                                has_receiver,
                                                has_return,
                                                has_default_body,
                                            },
                                        ),
                                        k3,
                                    ),
                                ),
                            },
                        },
                    },
                },
            }
        } else if tag == 1 {
            match dec_str(b, i + 1) {
                None => None,
                Some((n, j)) => Some((MemberDeclV::Const(n), j)),
            }
        } else if tag == 2 {
            match dec_str(b, i + 1) {
                None => None,
                Some((n, j)) => Some((MemberDeclV::Type(n), j)),
            }
        } else if tag == 3 {
            match dec_str(b, i + 1) {
                None => None,
                Some((n, j)) => Some((MemberDeclV::Other(n), j)),
            }
        } else {
            None
        }
    } else {
        None
    }
}

/// Reads `n` members.
pub open spec fn dec_members_n(b: Seq<u8>, i: int, n: u64) -> Option<(Seq<MemberDeclV>, int)>
    decreases n,
{
    if n == 0 {
        Some((Seq::empty(), i))
    } else {
        match dec_member(b, i) {
            None => None,
            Some((m, j)) => match dec_members_n(b, j, (n - 1) as u64) {
                None => None,
                Some((rest, k)) => Some((seq![m] + rest, k)),
            },
        }
    }
}

/// Reads a member list.
pub open spec fn dec_members(b: Seq<u8>, i: int) -> Option<(Seq<MemberDeclV>, int)> {
    match dec_u64(b, i) {
        None => None,
        Some((n, j)) => dec_members_n(b, j, n),
    }
}

/// Reads a declaration.
pub open spec fn dec_trait(b: Seq<u8>, i: int) -> Option<(TraitDeclV, int)> {
    match dec_str(b, i) {
        None => None,
        Some((vis, j1)) => match dec_attrs(b, j1) {
            None => None,
            Some((attrs, j2)) => match dec_str(b, j2) {
                None => None,
                Some((ident, j3)) => match dec_u64(b, j3) {
                    None => None,
                    Some((type_params, j4)) => match dec_u64(b, j4) {
                        None => None,
                        Some((lifetimes, j5)) => match dec_members(b, j5) {
                            None => None,
                            Some((members, j6)) => Some(
                                (
                                    TraitDeclV {
                                        vis,
                                        attrs,
                                        ident,
                                        type_params: type_params as int,
                                        lifetimes: lifetimes as int,
                                        members,
                                    },
                                    j6,
                                ),
                            ),
                        },
                    },
                },
            },
        },
    }
}

/// Reads a whole record.
pub open spec fn dec_provider(b: Seq<u8>, i: int) -> Option<(ProviderSpecV, int)> {
    match dec_str(b, i) {
        None => None,
        Some((name, j1)) => match dec_u64(b, j1) {
            None => None,
            Some((hash, j2)) => match dec_trait(b, j2) {
                None => None,
                Some((item_trait, j3)) => match dec_str(b, j3) {
                    None => None,
                    Some((canonical_text, j4)) => match dec_probes(b, j4) {
                        None => None,
                        Some((probes, j5)) => Some(
                            (ProviderSpecV { name, hash, item_trait, canonical_text, probes }, j5),
                        ),
                    },
                },
            },
        },
    }
}

/// What deserialization yields: the record, if the bytes parse exactly and
/// the record's derived fields are consistent — its hash is the hash of its
/// canonical text, that text is the rendering of its declaration, and its
/// name is derived from the declaration. The probes are not constrained:
/// a decomposed record, its probe list emptied, round-trips like any other.
pub open spec fn spec_deserialize(b: Seq<u8>) -> Option<ProviderSpecV> {
    match dec_provider(b, 0) {
        None => None,
        Some((v, j)) => if j == b.len() && v.consistent() {
            Some(v)
        } else {
            None
        },
    }
}

// ---- the decoders invert the encoders ----

/// A subrange that equals a concatenation splits into its two parts.
proof fn lemma_split_at(b: Seq<u8>, i: int, x: Seq<u8>, y: Seq<u8>)
    requires
        0 <= i,
        i + x.len() + y.len() <= b.len(),
        b.subrange(i, i + x.len() + y.len()) == x + y,
    ensures
        b.subrange(i, i + x.len()) == x,
        b.subrange(i + x.len(), i + x.len() + y.len()) == y,
{
    assert(b.subrange(i, i + x.len()) =~= x);
    assert forall|t: int| 0 <= t < y.len() implies b.subrange(
        i + x.len(),
        i + x.len() + y.len(),
    )[t] == y[t] by {
        assert(b.subrange(i + x.len(), i + x.len() + y.len())[t] == b[i + x.len() + t]);
        assert(b.subrange(i, i + x.len() + y.len())[x.len() + t] == b[i + x.len() + t]);
        assert((x + y)[x.len() + t] == y[t]);
    }
    assert(b.subrange(i + x.len(), i + x.len() + y.len()) =~= y);
}

proof fn lemma_rt_u64(b: Seq<u8>, i: int, x: u64)
    requires
        0 <= i,
        i + 8 <= b.len(),
        b.subrange(i, i + 8) == enc_u64(x),
    ensures
        dec_u64(b, i) == Some((x, i + 8)),
{
    vstd::bytes::lemma_auto_spec_u64_to_from_le_bytes();
}

proof fn lemma_rt_bool(b: Seq<u8>, i: int, v: bool)
    requires
        0 <= i,
        i + 1 <= b.len(),
        b.subrange(i, i + 1) == enc_bool(v),
    ensures
        dec_bool(b, i) == Some((v, i + 1)),
{
    assert(b[i] == b.subrange(i, i + 1)[0]);
}

proof fn lemma_rt_str(b: Seq<u8>, i: int, s: Seq<char>)
    requires
        0 <= i,
        fits_str(s),
        i + enc_str(s).len() <= b.len(),
        b.subrange(i, i + enc_str(s).len()) == enc_str(s),
    ensures
        dec_str(b, i) == Some((s, i + enc_str(s).len())),
{
    broadcast use vstd::utf8::encode_utf8_valid_utf8;
    broadcast use vstd::utf8::encode_utf8_decode_utf8;

    vstd::bytes::lemma_auto_spec_u64_to_from_le_bytes();
    let u = encode_utf8(s);
    let m = u.len() as u64;
    lemma_split_at(b, i, enc_u64(m), u);
    lemma_rt_u64(b, i, m);
    assert(b.subrange(i + 8, i + 8 + m as int) == u);
    assert(valid_utf8(u));
    assert(decode_utf8(u) == s);
}

proof fn lemma_rt_arg(b: Seq<u8>, i: int, a: ProbeArgV)
    requires
        0 <= i,
        fits_arg(a),
        i + enc_arg(a).len() <= b.len(),
        b.subrange(i, i + enc_arg(a).len()) == enc_arg(a),
    ensures
        dec_arg(b, i) == Some((a, i + enc_arg(a).len())),
{
    lemma_split_at(b, i, enc_str(a.name), enc_str(a.type_text));
    lemma_rt_str(b, i, a.name);
    lemma_rt_str(b, i + enc_str(a.name).len(), a.type_text);
}

proof fn lemma_rt_args_from(b: Seq<u8>, i: int, args: Seq<ProbeArgV>, k: int)
    requires
        0 <= k <= args.len(),
        fits_args(args),
        0 <= i,
        i + enc_args_from(args, k).len() <= b.len(),
        b.subrange(i, i + enc_args_from(args, k).len()) == enc_args_from(args, k),
    ensures
        dec_args_n(b, i, (args.len() - k) as u64) == Some(
            (args.skip(k), i + enc_args_from(args, k).len()),
        ),
    decreases args.len() - k,
{
    if k == args.len() {
        assert(args.skip(k) =~= Seq::<ProbeArgV>::empty());
    } else {
        lemma_split_at(b, i, enc_arg(args[k]), enc_args_from(args, k + 1));
        lemma_rt_arg(b, i, args[k]);
        let j = i + enc_arg(args[k]).len();
        lemma_rt_args_from(b, j, args, k + 1);
        assert(args.skip(k) =~= seq![args[k]] + args.skip(k + 1));
        assert(((args.len() - k) as u64 - 1) as u64 == (args.len() - (k + 1)) as u64);
    }
}

proof fn lemma_rt_args(b: Seq<u8>, i: int, args: Seq<ProbeArgV>)
    requires
        0 <= i,
        fits_args(args),
        i + enc_args(args).len() <= b.len(),
        b.subrange(i, i + enc_args(args).len()) == enc_args(args),
    ensures
        dec_args(b, i) == Some((args, i + enc_args(args).len())),
{
    vstd::bytes::lemma_auto_spec_u64_to_from_le_bytes();
    lemma_split_at(b, i, enc_u64(args.len() as u64), enc_args_from(args, 0));
    lemma_rt_u64(b, i, args.len() as u64);
    lemma_rt_args_from(b, i + 8, args, 0);
    assert(args.skip(0) =~= args);
}

proof fn lemma_rt_probe(b: Seq<u8>, i: int, p: ProbeSpecV)
    requires
        0 <= i,
        fits_probe(p),
        i + enc_probe(p).len() <= b.len(),
        b.subrange(i, i + enc_probe(p).len()) == enc_probe(p),
    ensures
        dec_probe(b, i) == Some((p, i + enc_probe(p).len())),
{
    lemma_split_at(b, i, enc_str(p.name), enc_args(p.args));
    lemma_rt_str(b, i, p.name);
    lemma_rt_args(b, i + enc_str(p.name).len(), p.args);
}

proof fn lemma_rt_probes_from(b: Seq<u8>, i: int, ps: Seq<ProbeSpecV>, k: int)
    requires
        0 <= k <= ps.len(),
        fits_probes(ps),
        0 <= i,
        i + enc_probes_from(ps, k).len() <= b.len(),
        b.subrange(i, i + enc_probes_from(ps, k).len()) == enc_probes_from(ps, k),
    ensures
        dec_probes_n(b, i, (ps.len() - k) as u64) == Some(
            (ps.skip(k), i + enc_probes_from(ps, k).len()),
        ),
    decreases ps.len() - k,
{
    if k == ps.len() {
        assert(ps.skip(k) =~= Seq::<ProbeSpecV>::empty());
    } else {
        lemma_split_at(b, i, enc_probe(ps[k]), enc_probes_from(ps, k + 1));
        lemma_rt_probe(b, i, ps[k]);
        let j = i + enc_probe(ps[k]).len();
        lemma_rt_probes_from(b, j, ps, k + 1);
        assert(ps.skip(k) =~= seq![ps[k]] + ps.skip(k + 1));
        assert(((ps.len() - k) as u64 - 1) as u64 == (ps.len() - (k + 1)) as u64);
    }
}

proof fn lemma_rt_probes(b: Seq<u8>, i: int, ps: Seq<ProbeSpecV>)
    requires
        0 <= i,
        fits_probes(ps),
        i + enc_probes(ps).len() <= b.len(),
        b.subrange(i, i + enc_probes(ps).len()) == enc_probes(ps),
    ensures
        dec_probes(b, i) == Some((ps, i + enc_probes(ps).len())),
{
    vstd::bytes::lemma_auto_spec_u64_to_from_le_bytes();
    lemma_split_at(b, i, enc_u64(ps.len() as u64), enc_probes_from(ps, 0));
    lemma_rt_u64(b, i, ps.len() as u64);
    lemma_rt_probes_from(b, i + 8, ps, 0);
    assert(ps.skip(0) =~= ps);
}

proof fn lemma_rt_strs_from(b: Seq<u8>, i: int, ss: Seq<Seq<char>>, k: int)
    requires
        0 <= k <= ss.len(),
        fits_strs(ss),
        0 <= i,
        i + enc_strs_from(ss, k).len() <= b.len(),
        b.subrange(i, i + enc_strs_from(ss, k).len()) == enc_strs_from(ss, k),
    ensures
        dec_strs_n(b, i, (ss.len() - k) as u64) == Some(
            (ss.skip(k), i + enc_strs_from(ss, k).len()),
        ),
    decreases ss.len() - k,
{
    if k == ss.len() {
        assert(ss.skip(k) =~= Seq::<Seq<char>>::empty());
    } else {
        lemma_split_at(b, i, enc_str(ss[k]), enc_strs_from(ss, k + 1));
        lemma_rt_str(b, i, ss[k]);
        let j = i + enc_str(ss[k]).len();
        lemma_rt_strs_from(b, j, ss, k + 1);
        assert(ss.skip(k) =~= seq![ss[k]] + ss.skip(k + 1));
        assert(((ss.len() - k) as u64 - 1) as u64 == (ss.len() - (k + 1)) as u64);
    }
}

proof fn lemma_rt_strs(b: Seq<u8>, i: int, ss: Seq<Seq<char>>)
    requires
        0 <= i,
        fits_strs(ss),
        i + enc_strs(ss).len() <= b.len(),
        b.subrange(i, i + enc_strs(ss).len()) == enc_strs(ss),
    ensures
        dec_strs(b, i) == Some((ss, i + enc_strs(ss).len())),
{
    vstd::bytes::lemma_auto_spec_u64_to_from_le_bytes();
    lemma_split_at(b, i, enc_u64(ss.len() as u64), enc_strs_from(ss, 0));
    lemma_rt_u64(b, i, ss.len() as u64);
    lemma_rt_strs_from(b, i + 8, ss, 0);
    assert(ss.skip(0) =~= ss);
}

proof fn lemma_rt_attrs_from(b: Seq<u8>, i: int, attrs: Seq<Seq<Seq<char>>>, k: int)
    requires
        0 <= k <= attrs.len(),
        fits_attrs(attrs),
        0 <= i,
        i + enc_attrs_from(attrs, k).len() <= b.len(),
        b.subrange(i, i + enc_attrs_from(attrs, k).len()) == enc_attrs_from(attrs, k),
    ensures
        dec_attrs_n(b, i, (attrs.len() - k) as u64) == Some(
            (attrs.skip(k), i + enc_attrs_from(attrs, k).len()),
        ),
    decreases attrs.len() - k,
{
    if k == attrs.len() {
        assert(attrs.skip(k) =~= Seq::<Seq<Seq<char>>>::empty());
    } else {
        lemma_split_at(b, i, enc_strs(attrs[k]), enc_attrs_from(attrs, k + 1));
        lemma_rt_strs(b, i, attrs[k]);
        let j = i + enc_strs(attrs[k]).len();
        lemma_rt_attrs_from(b, j, attrs, k + 1);
        assert(attrs.skip(k) =~= seq![attrs[k]] + attrs.skip(k + 1));
        assert(((attrs.len() - k) as u64 - 1) as u64 == (attrs.len() - (k + 1)) as u64);
    }
}

proof fn lemma_rt_attrs(b: Seq<u8>, i: int, attrs: Seq<Seq<Seq<char>>>)
    requires
        0 <= i,
        fits_attrs(attrs),
        i + enc_attrs(attrs).len() <= b.len(),
        b.subrange(i, i + enc_attrs(attrs).len()) == enc_attrs(attrs),
    ensures
        dec_attrs(b, i) == Some((attrs, i + enc_attrs(attrs).len())),
{
    vstd::bytes::lemma_auto_spec_u64_to_from_le_bytes();
    lemma_split_at(b, i, enc_u64(attrs.len() as u64), enc_attrs_from(attrs, 0));
    lemma_rt_u64(b, i, attrs.len() as u64);
    lemma_rt_attrs_from(b, i + 8, attrs, 0);
    assert(attrs.skip(0) =~= attrs);
}

proof fn lemma_rt_member(b: Seq<u8>, i: int, m: MemberDeclV)
    requires
        0 <= i,
        fits_member(m),
        i + enc_member(m).len() <= b.len(),
        b.subrange(i, i + enc_member(m).len()) == enc_member(m),
    ensures
        dec_member(b, i) == Some((m, i + enc_member(m).len())),
{
    match m {
        MemberDeclV::Method(f) => {
            let e1 = enc_str(f.name);
            let e2 = enc_args(f.args);
            let e3 = enc_bool(f.has_receiver);
            let e4 = enc_bool(f.has_return);
            let e5 = enc_bool(f.has_default_body);
            assert(enc_member(m) =~= seq![0u8] + (e1 + (e2 + (e3 + (e4 + e5)))));
            lemma_split_at(b, i, seq![0u8], e1 + (e2 + (e3 + (e4 + e5))));
            assert(b[i] == b.subrange(i, i + 1)[0]);
            let i1 = i + 1;
            lemma_split_at(b, i1, e1, e2 + (e3 + (e4 + e5)));
            lemma_rt_str(b, i1, f.name);
            let i2 = i1 + e1.len();
            lemma_split_at(b, i2, e2, e3 + (e4 + e5));
            lemma_rt_args(b, i2, f.args);
            let i3 = i2 + e2.len();
            lemma_split_at(b, i3, e3, e4 + e5);
            lemma_rt_bool(b, i3, f.has_receiver);
            let i4 = i3 + e3.len();
            lemma_split_at(b, i4, e4, e5);
            lemma_rt_bool(b, i4, f.has_return);
            let i5 = i4 + e4.len();
            lemma_rt_bool(b, i5, f.has_default_body);
        },
        MemberDeclV::Const(n) => {
            lemma_split_at(b, i, seq![1u8], enc_str(n));
            assert(b[i] == b.subrange(i, i + 1)[0]);
            lemma_rt_str(b, i + 1, n);
        },
        MemberDeclV::Type(n) => {
            lemma_split_at(b, i, seq![2u8], enc_str(n));
            assert(b[i] == b.subrange(i, i + 1)[0]);
            lemma_rt_str(b, i + 1, n);
        },
        MemberDeclV::Other(n) => {
            lemma_split_at(b, i, seq![3u8], enc_str(n));
            assert(b[i] == b.subrange(i, i + 1)[0]);
            lemma_rt_str(b, i + 1, n);
        },
    }
}

proof fn lemma_rt_members_from(b: Seq<u8>, i: int, ms: Seq<MemberDeclV>, k: int)
    requires
        0 <= k <= ms.len(),
        fits_members(ms),
        0 <= i,
        i + enc_members_from(ms, k).len() <= b.len(),
        b.subrange(i, i + enc_members_from(ms, k).len()) == enc_members_from(ms, k),
    ensures
        dec_members_n(b, i, (ms.len() - k) as u64) == Some(
            (ms.skip(k), i + enc_members_from(ms, k).len()),
        ),
    decreases ms.len() - k,
{
    if k == ms.len() {
        assert(ms.skip(k) =~= Seq::<MemberDeclV>::empty());
    } else {
        lemma_split_at(b, i, enc_member(ms[k]), enc_members_from(ms, k + 1));
        lemma_rt_member(b, i, ms[k]);
        let j = i + enc_member(ms[k]).len();
        lemma_rt_members_from(b, j, ms, k + 1);
        assert(ms.skip(k) =~= seq![ms[k]] + ms.skip(k + 1));
        assert(((ms.len() - k) as u64 - 1) as u64 == (ms.len() - (k + 1)) as u64);
    }
}

proof fn lemma_rt_members(b: Seq<u8>, i: int, ms: Seq<MemberDeclV>)
    requires
        0 <= i,
        fits_members(ms),
        i + enc_members(ms).len() <= b.len(),
        b.subrange(i, i + enc_members(ms).len()) == enc_members(ms),
    ensures
        dec_members(b, i) == Some((ms, i + enc_members(ms).len())),
{
    vstd::bytes::lemma_auto_spec_u64_to_from_le_bytes();
    lemma_split_at(b, i, enc_u64(ms.len() as u64), enc_members_from(ms, 0));
    lemma_rt_u64(b, i, ms.len() as u64);
    lemma_rt_members_from(b, i + 8, ms, 0);
    assert(ms.skip(0) =~= ms);
}

proof fn lemma_rt_trait(b: Seq<u8>, i: int, d: TraitDeclV)
    requires
        0 <= i,
        fits_trait(d),
        i + enc_trait(d).len() <= b.len(),
        b.subrange(i, i + enc_trait(d).len()) == enc_trait(d),
    ensures
        dec_trait(b, i) == Some((d, i + enc_trait(d).len())),
{
    let e1 = enc_str(d.vis);
    let e2 = enc_attrs(d.attrs);
    let e3 = enc_str(d.ident);
    let e4 = enc_u64(d.type_params as u64);
    let e5 = enc_u64(d.lifetimes as u64);
    let e6 = enc_members(d.members);
    vstd::bytes::lemma_auto_spec_u64_to_from_le_bytes();
    assert(enc_trait(d) =~= e1 + (e2 + (e3 + (e4 + (e5 + e6)))));
    lemma_split_at(b, i, e1, e2 + (e3 + (e4 + (e5 + e6))));
    lemma_rt_str(b, i, d.vis);
    let i2 = i + e1.len();
    lemma_split_at(b, i2, e2, e3 + (e4 + (e5 + e6)));
    lemma_rt_attrs(b, i2, d.attrs);
    let i3 = i2 + e2.len();
    lemma_split_at(b, i3, e3, e4 + (e5 + e6));
    lemma_rt_str(b, i3, d.ident);
    let i4 = i3 + e3.len();
    lemma_split_at(b, i4, e4, e5 + e6);
    lemma_rt_u64(b, i4, d.type_params as u64);
    let i5 = i4 + e4.len();
    lemma_split_at(b, i5, e5, e6);
    lemma_rt_u64(b, i5, d.lifetimes as u64);
    let i6 = i5 + e5.len();
    lemma_rt_members(b, i6, d.members);
}

proof fn lemma_rt_provider(b: Seq<u8>, i: int, v: ProviderSpecV)
    requires
        0 <= i,
        fits_provider(v),
        i + enc_provider(v).len() <= b.len(),
        b.subrange(i, i + enc_provider(v).len()) == enc_provider(v),
    ensures
        dec_provider(b, i) == Some((v, i + enc_provider(v).len())),
{
    let e1 = enc_str(v.name);
    let e2 = enc_u64(v.hash);
    let e3 = enc_trait(v.item_trait);
    let e4 = enc_str(v.canonical_text);
    let e5 = enc_probes(v.probes);
    vstd::bytes::lemma_auto_spec_u64_to_from_le_bytes();
    assert(enc_provider(v) =~= e1 + (e2 + (e3 + (e4 + e5))));
    lemma_split_at(b, i, e1, e2 + (e3 + (e4 + e5)));
    lemma_rt_str(b, i, v.name);
    let i2 = i + e1.len();
    lemma_split_at(b, i2, e2, e3 + (e4 + e5));
    lemma_rt_u64(b, i2, v.hash);
    let i3 = i2 + e2.len();
    lemma_split_at(b, i3, e3, e4 + e5);
    lemma_rt_trait(b, i3, v.item_trait);
    let i4 = i3 + e3.len();
    lemma_split_at(b, i4, e4, e5);
    lemma_rt_str(b, i4, v.canonical_text);
    let i5 = i4 + e4.len();
    lemma_rt_probes(b, i5, v.probes);
}

/// The round-trip law: any record with consistent derived fields that fits
/// the format — freshly built or decomposed — deserializes from its own
/// serialized form, equal in every field.
pub proof fn lemma_round_trip(v: ProviderSpecV)
    requires
        v.consistent(),
        fits_provider(v),
    ensures
        spec_deserialize(spec_serialize(v)) == Some(v),
{
    let b = enc_provider(v);
    assert(b.subrange(0, b.len() as int) =~= b);
    lemma_rt_provider(b, 0, v);
}

// ---- the serializer ----

/// Why a serialized record was rejected.
#[derive(Debug, Clone, Copy, PartialEq, Eq, Structural)]
pub enum FormatError {
    /// The bytes do not parse as a record.
    Malformed,
    /// Bytes remain after the record.
    TrailingBytes,
    /// The stored hash is not the hash of the stored canonical text.
    HashMismatch,
    /// The stored fields disagree: the canonical text is not the rendering
    /// of the stored declaration, or the name is not derived from it.
    Inconsistent,
}

/// Appends the bytes of a slice.
fn w_bytes(out: &mut Vec<u8>, b: &[u8])
    ensures
        final(out)@ == old(out)@ + b@,
{
    let ghost base = out@;
    let n = b.len();
    for i in 0..n
        invariant
            n == b@.len(),
            out@ == base + b@.subrange(0, i as int),
    {
        out.push(b[i]);
        proof {
            assert(out@ =~= base + b@.subrange(0, i as int + 1));
        }
    }
    proof {
        assert(b@.subrange(0, n as int) =~= b@);
    }
}

/// Appends eight little-endian bytes.
fn w_u64(out: &mut Vec<u8>, x: u64)
    ensures
        final(out)@ == old(out)@ + enc_u64(x),
{
    let mut bs = vstd::bytes::u64_to_le_bytes(x);
    out.append(&mut bs);
}

/// Appends one boolean byte.
fn w_bool(out: &mut Vec<u8>, v: bool)
    ensures
        final(out)@ == old(out)@ + enc_bool(v),
{
    let ghost base = out@;
    if v {
        out.push(1u8);
    } else {
        out.push(0u8);
    }
    proof {
        assert(out@ =~= base + enc_bool(v));
    }
}

/// Appends a string: byte count, then UTF-8 bytes.
fn w_str(out: &mut Vec<u8>, s: &str)
    ensures
        final(out)@ == old(out)@ + enc_str(s@),
        fits_str(s@),
{
    let ghost base = out@;
    let bytes: &[u8] = s.as_bytes();
    let n = bytes.len();
    w_u64(out, n as u64);
    w_bytes(out, bytes);
    proof {
        assert(out@ =~= base + enc_str(s@));
    }
}

/// Appends one argument.
fn w_arg(out: &mut Vec<u8>, a: &crate::model::ProbeArg)
    ensures
        final(out)@ == old(out)@ + enc_arg(a@),
        fits_arg(a@),
{
    let ghost base = out@;
    w_str(out, a.name.as_str());
    w_str(out, a.type_text.as_str());
    proof {
        assert(out@ =~= base + enc_arg(a@));
    }
}

/// Appends an argument list: count, then arguments.
fn w_args(out: &mut Vec<u8>, args: &Vec<crate::model::ProbeArg>)
    ensures
        final(out)@ == old(out)@ + enc_args(crate::model::probe_args_view(args@)),
        fits_args(crate::model::probe_args_view(args@)),
{
    let ghost base = out@;
    let ghost argsv = crate::model::probe_args_view(args@);
    let n = args.len();
    w_u64(out, n as u64);
    let ghost mid = out@;
    for k in 0..n
        invariant
            n == args.len(),
            argsv == crate::model::probe_args_view(args@),
            argsv.len() == n,
            mid + enc_args_from(argsv, 0) == out@ + enc_args_from(argsv, k as int),
            forall|j: int| 0 <= j < k ==> fits_arg(#[trigger] argsv[j]),
    {
        proof {
            assert(argsv[k as int] == args@[k as int]@);
        }
        let ghost prev = out@;
        w_arg(out, &args[k]);
        proof {
            assert((prev + enc_arg(argsv[k as int])) + enc_args_from(argsv, k as int + 1)
                =~= prev + (enc_arg(argsv[k as int]) + enc_args_from(argsv, k as int + 1)));
        }
    }
    proof {
        assert(enc_args_from(argsv, n as int) =~= Seq::<u8>::empty());
        assert(out@ + Seq::<u8>::empty() =~= out@);
        assert(base + enc_args(argsv) =~= (base + enc_u64(n as u64)) + enc_args_from(argsv, 0));
    }
}

/// Appends one probe.
fn w_probe(out: &mut Vec<u8>, p: &crate::probe::ProbeSpecification)
    ensures
        final(out)@ == old(out)@ + enc_probe(p@),
        fits_probe(p@),
{
    let ghost base = out@;
    w_str(out, p.name.as_str());
    w_args(out, &p.args);
    proof {
        assert(out@ =~= base + enc_probe(p@));
    }
}

/// Appends a probe list: count, then probes.
fn w_probes(out: &mut Vec<u8>, ps: &Vec<crate::probe::ProbeSpecification>)
    ensures
        final(out)@ == old(out)@ + enc_probes(crate::probe::probes_view(ps@)),
        fits_probes(crate::probe::probes_view(ps@)),
{
    let ghost base = out@;
    let ghost psv = crate::probe::probes_view(ps@);
    let n = ps.len();
    w_u64(out, n as u64);
    let ghost mid = out@;
    for k in 0..n
        invariant
            n == ps.len(),
            psv == crate::probe::probes_view(ps@),
            psv.len() == n,
            mid + enc_probes_from(psv, 0) == out@ + enc_probes_from(psv, k as int),
            forall|j: int| 0 <= j < k ==> fits_probe(#[trigger] psv[j]),
    {
        proof {
            assert(psv[k as int] == ps@[k as int]@);
        }
        let ghost prev = out@;
        w_probe(out, &ps[k]);
        proof {
            assert((prev + enc_probe(psv[k as int])) + enc_probes_from(psv, k as int + 1)
                =~= prev + (enc_probe(psv[k as int]) + enc_probes_from(psv, k as int + 1)));
        }
    }
    proof {
        assert(enc_probes_from(psv, n as int) =~= Seq::<u8>::empty());
        assert(out@ + Seq::<u8>::empty() =~= out@);
        assert(base + enc_probes(psv) =~= (base + enc_u64(n as u64)) + enc_probes_from(psv, 0));
    }
}

/// Appends a string list: count, then strings.
fn w_strs(out: &mut Vec<u8>, ss: &Vec<String>)
    ensures
        final(out)@ == old(out)@ + enc_strs(crate::model::strings_view(ss@)),
        fits_strs(crate::model::strings_view(ss@)),
{
    let ghost base = out@;
    let ghost ssv = crate::model::strings_view(ss@);
    let n = ss.len();
    w_u64(out, n as u64);
    let ghost mid = out@;
    for k in 0..n
        invariant
            n == ss.len(),
            ssv == crate::model::strings_view(ss@),
            ssv.len() == n,
            mid + enc_strs_from(ssv, 0) == out@ + enc_strs_from(ssv, k as int),
            forall|j: int| 0 <= j < k ==> fits_str(#[trigger] ssv[j]),
    {
        proof {
            assert(ssv[k as int] == ss@[k as int]@);
        }
        let ghost prev = out@;
        w_str(out, ss[k].as_str());
        proof {
            assert((prev + enc_str(ssv[k as int])) + enc_strs_from(ssv, k as int + 1) =~= prev + (
            enc_str(ssv[k as int]) + enc_strs_from(ssv, k as int + 1)));
        }
    }
    proof {
        assert(enc_strs_from(ssv, n as int) =~= Seq::<u8>::empty());
        assert(out@ + Seq::<u8>::empty() =~= out@);
        assert(base + enc_strs(ssv) =~= (base + enc_u64(n as u64)) + enc_strs_from(ssv, 0));
    }
}

/// Appends an attribute list: count, then each path's string list.
fn w_attrs(out: &mut Vec<u8>, attrs: &Vec<crate::model::AttrPath>)
    ensures
        final(out)@ == old(out)@ + enc_attrs(crate::model::attrs_view(attrs@)),
        fits_attrs(crate::model::attrs_view(attrs@)),
{
    let ghost base = out@;
    let ghost av = crate::model::attrs_view(attrs@);
    let n = attrs.len();
    w_u64(out, n as u64);
    let ghost mid = out@;
    for k in 0..n
        invariant
            n == attrs.len(),
            av == crate::model::attrs_view(attrs@),
            av.len() == n,
            mid + enc_attrs_from(av, 0) == out@ + enc_attrs_from(av, k as int),
            forall|j: int| 0 <= j < k ==> fits_strs(#[trigger] av[j]),
    {
        proof {
            assert(av[k as int] == attrs@[k as int]@);
        }
        let ghost prev = out@;
        w_strs(out, &attrs[k].segments);
        proof {
            assert((prev + enc_strs(av[k as int])) + enc_attrs_from(av, k as int + 1) =~= prev + (
            enc_strs(av[k as int]) + enc_attrs_from(av, k as int + 1)));
        }
    }
    proof {
        assert(enc_attrs_from(av, n as int) =~= Seq::<u8>::empty());
        assert(out@ + Seq::<u8>::empty() =~= out@);
        assert(base + enc_attrs(av) =~= (base + enc_u64(n as u64)) + enc_attrs_from(av, 0));
    }
}

/// Appends one member: tag byte, then its parts.
fn w_member(out: &mut Vec<u8>, m: &crate::model::MemberDecl)
    ensures
        final(out)@ == old(out)@ + enc_member(m@),
        fits_member(m@),
{
    let ghost base = out@;
    match m {
        crate::model::MemberDecl::Method(f) => {
            out.push(0u8);
            w_str(out, f.name.as_str());
            w_args(out, &f.args);
            w_bool(out, f.has_receiver);
            w_bool(out, f.has_return);
            w_bool(out, f.has_default_body);
        },
        crate::model::MemberDecl::Const(name) => {
            out.push(1u8);
            w_str(out, name.as_str());
        },
        crate::model::MemberDecl::Type(name) => {
            out.push(2u8);
            w_str(out, name.as_str());
        },
        crate::model::MemberDecl::Other(name) => {
            out.push(3u8);
            w_str(out, name.as_str());
        },
    }
    proof {
        assert(out@ =~= base + enc_member(m@));
    }
}

/// Appends a member list: count, then members.
fn w_members(out: &mut Vec<u8>, ms: &Vec<crate::model::MemberDecl>)
    ensures
        final(out)@ == old(out)@ + enc_members(crate::model::members_view(ms@)),
        fits_members(crate::model::members_view(ms@)),
{
    let ghost base = out@;
    let ghost msv = crate::model::members_view(ms@);
    let n = ms.len();
    w_u64(out, n as u64);
    let ghost mid = out@;
    for k in 0..n
        invariant
            n == ms.len(),
            msv == crate::model::members_view(ms@),
            msv.len() == n,
            mid + enc_members_from(msv, 0) == out@ + enc_members_from(msv, k as int),
            forall|j: int| 0 <= j < k ==> fits_member(#[trigger] msv[j]),
    {
        proof {
            assert(msv[k as int] == ms@[k as int]@);
        }
        let ghost prev = out@;
        w_member(out, &ms[k]);
        proof {
            assert((prev + enc_member(msv[k as int])) + enc_members_from(msv, k as int + 1)
                =~= prev + (enc_member(msv[k as int]) + enc_members_from(msv, k as int + 1)));
        }
    }
    proof {
        assert(enc_members_from(msv, n as int) =~= Seq::<u8>::empty());
        assert(out@ + Seq::<u8>::empty() =~= out@);
        assert(base + enc_members(msv) =~= (base + enc_u64(n as u64)) + enc_members_from(msv, 0));
    }
}

/// Appends a whole declaration.
fn w_trait(out: &mut Vec<u8>, d: &crate::model::TraitDecl)
    ensures
        final(out)@ == old(out)@ + enc_trait(d@),
        fits_trait(d@),
{
    let ghost base = out@;
    w_str(out, d.vis.as_str());
    w_attrs(out, &d.attrs);
    w_str(out, d.ident.as_str());
    w_u64(out, d.type_params);
    w_u64(out, d.lifetimes);
    w_members(out, &d.members);
    proof {
        assert(out@ =~= base + enc_trait(d@));
    }
}

/// Serializes a record: name, hash, declaration, canonical text, probes,
/// each length-prefixed. Lossless: see the round-trip law.
pub fn serialize(spec: &crate::provider::ProviderSpecification) -> (r: Vec<u8>)
    ensures
        r@ == spec_serialize(spec@),
        fits_provider(spec@),
{
    let mut out: Vec<u8> = Vec::new();
    w_str(&mut out, spec.name());
    w_u64(&mut out, spec.hash());
    w_trait(&mut out, spec.item_trait());
    w_str(&mut out, spec.canonical_text());
    w_probes(&mut out, spec.probes());
    proof {
        assert(out@ =~= Seq::<u8>::empty() + enc_provider(spec@));
        assert(Seq::<u8>::empty() + enc_provider(spec@) =~= enc_provider(spec@));
    }
    out
}

// ---- the deserializer ----

/// Relies on str::from_utf8: it accepts exactly the byte sequences that are
/// valid UTF-8, and the accepted string's bytes are the input bytes.
#[verifier::external_body]
pub(crate) fn utf8_to_string(b: &[u8]) -> (r: Option<String>)
    ensures
        valid_utf8(b@) ==> (r is Some && encode_utf8(r->0@) == b@),
        !valid_utf8(b@) ==> r is None,
{
    match core::str::from_utf8(b) {
        Ok(s) => Some(s.to_owned()),
        Err(_) => None,
    }
}

/// Reads eight little-endian bytes.
fn r_u64(b: &[u8], pos: usize) -> (r: Option<(u64, usize)>)
    ensures
        (match dec_u64(b@, pos as int) {
            Some(v) => r is Some && (r->0).0 == v.0 && (r->0).1 as int == v.1,
            None => r is None,
        }),
{
    if pos <= b.len() && b.len() - pos >= 8 {
        let sub = vstd::slice::slice_subrange(b, pos, pos + 8);
        let x = vstd::bytes::u64_from_le_bytes(sub);
        Some((x, pos + 8))
    } else {
        None
    }
}

/// Reads one boolean byte.
fn r_bool(b: &[u8], pos: usize) -> (r: Option<(bool, usize)>)
    ensures
        (match dec_bool(b@, pos as int) {
            Some(v) => r is Some && (r->0).0 == v.0 && (r->0).1 as int == v.1,
            None => r is None,
        }),
{
    if pos < b.len() {
        let c = b[pos];
        if c == 1 {
            Some((true, pos + 1))
        } else if c == 0 {
            Some((false, pos + 1))
        } else {
            None
        }
    } else {
        None
    }
}

/// Reads a string: byte count, then UTF-8 bytes.
fn r_str(b: &[u8], pos: usize) -> (r: Option<(String, usize)>)
    ensures
        (match dec_str(b@, pos as int) {
            Some(v) => r is Some && (r->0).0@ == v.0 && (r->0).1 as int == v.1,
            None => r is None,
        }),
{
    match r_u64(b, pos) {
        None => None,
        Some((n, j)) => {
            if n <= (b.len() - j) as u64 {
                let m = n as usize;
                let sub = vstd::slice::slice_subrange(b, j, j + m);
                match utf8_to_string(sub) {
                    Some(s) => {
                        proof {
                            vstd::utf8::encode_utf8_decode_utf8(s@);
                        }
                        Some((s, j + m))
                    },
                    None => None,
                }
            } else {
                None
            }
        },
    }
}

/// Reads one argument.
fn r_arg(b: &[u8], pos: usize) -> (r: Option<(crate::model::ProbeArg, usize)>)
    ensures
        (match dec_arg(b@, pos as int) {
            Some(v) => r is Some && (r->0).0@ == v.0 && (r->0).1 as int == v.1,
            None => r is None,
        }),
{
    match r_str(b, pos) {
        None => None,
        Some((name, j)) => match r_str(b, j) {
            None => None,
            Some((type_text, k)) => Some((crate::model::ProbeArg { name, type_text }, k)),
        },
    }
}

/// Reads `n` arguments.
fn r_args_n(b: &[u8], pos: usize, n: u64) -> (r: Option<(Vec<crate::model::ProbeArg>, usize)>)
    ensures
        (match dec_args_n(b@, pos as int, n) {
            Some(v) => r is Some && crate::model::probe_args_view((r->0).0@) == v.0 && (
            r->0).1 as int == v.1,
            None => r is None,
        }),
    decreases n,
{
    if n == 0 {
        proof {
            assert(crate::model::probe_args_view(Seq::<crate::model::ProbeArg>::empty())
                =~= Seq::<crate::model::ProbeArgV>::empty());
        }
        Some((Vec::new(), pos))
    } else {
        match r_arg(b, pos) {
            None => None,
            Some((a, j)) => match r_args_n(b, j, n - 1) {
                None => None,
                Some((rest, k)) => {
                    let ghost av = a@;
                    let ghost restv = crate::model::probe_args_view(rest@);
                    let mut items = rest;
                    items.insert(0, a);
                    proof {
                        assert(crate::model::probe_args_view(items@) =~= seq![av] + restv);
                    }
                    Some((items, k))
                },
            },
        }
    }
}

/// Reads an argument list.
fn r_args(b: &[u8], pos: usize) -> (r: Option<(Vec<crate::model::ProbeArg>, usize)>)
    ensures
        (match dec_args(b@, pos as int) {
            Some(v) => r is Some && crate::model::probe_args_view((r->0).0@) == v.0 && (
            r->0).1 as int == v.1,
            None => r is None,
        }),
{
    match r_u64(b, pos) {
        None => None,
        Some((n, j)) => r_args_n(b, j, n),
    }
}

/// Reads one probe.
fn r_probe(b: &[u8], pos: usize) -> (r: Option<(crate::probe::ProbeSpecification, usize)>)
    ensures
        (match dec_probe(b@, pos as int) {
            Some(v) => r is Some && (r->0).0@ == v.0 && (r->0).1 as int == v.1,
            None => r is None,
        }),
{
    match r_str(b, pos) {
        None => None,
        Some((name, j)) => match r_args(b, j) {
            None => None,
            Some((args, k)) => Some((crate::probe::ProbeSpecification { name, args }, k)),
        },
    }
}

/// Reads `n` probes.
fn r_probes_n(b: &[u8], pos: usize, n: u64) -> (r: Option<
    (Vec<crate::probe::ProbeSpecification>, usize),
>)
    ensures
        (match dec_probes_n(b@, pos as int, n) {
            Some(v) => r is Some && crate::probe::probes_view((r->0).0@) == v.0 && (
            r->0).1 as int == v.1,
            None => r is None,
        }),
    decreases n,
{
    if n == 0 {
        proof {
            assert(crate::probe::probes_view(Seq::<crate::probe::ProbeSpecification>::empty())
                =~= Seq::<crate::probe::ProbeSpecV>::empty());
        }
        Some((Vec::new(), pos))
    } else {
        match r_probe(b, pos) {
            None => None,
            Some((p, j)) => match r_probes_n(b, j, n - 1) {
                None => None,
                Some((rest, k)) => {
                    let ghost pv = p@;
                    let ghost restv = crate::probe::probes_view(rest@);
                    let mut items = rest;
                    items.insert(0, p);
                    proof {
                        assert(crate::probe::probes_view(items@) =~= seq![pv] + restv);
                    }
                    Some((items, k))
                },
            },
        }
    }
}

/// Reads a probe list.
fn r_probes(b: &[u8], pos: usize) -> (r: Option<(Vec<crate::probe::ProbeSpecification>, usize)>)
    ensures
        (match dec_probes(b@, pos as int) {
            Some(v) => r is Some && crate::probe::probes_view((r->0).0@) == v.0 && (
            r->0).1 as int == v.1,
            None => r is None,
        }),
{
    match r_u64(b, pos) {
        None => None,
        Some((n, j)) => r_probes_n(b, j, n),
    }
}

/// Reads `n` strings.
fn r_strs_n(b: &[u8], pos: usize, n: u64) -> (r: Option<(Vec<String>, usize)>)
    ensures
        (match dec_strs_n(b@, pos as int, n) {
            Some(v) => r is Some && crate::model::strings_view((r->0).0@) == v.0 && (
            r->0).1 as int == v.1,
            None => r is None,
        }),
    decreases n,
{
    if n == 0 {
        proof {
            assert(crate::model::strings_view(Seq::<String>::empty()) =~= Seq::<
                Seq<char>,
            >::empty());
        }
        Some((Vec::new(), pos))
    } else {
        match r_str(b, pos) {
            None => None,
            Some((s, j)) => match r_strs_n(b, j, n - 1) {
                None => None,
                Some((rest, k)) => {
                    let ghost sv = s@;
                    let ghost restv = crate::model::strings_view(rest@);
                    let mut items = rest;
                    items.insert(0, s);
                    proof {
                        assert(crate::model::strings_view(items@) =~= seq![sv] + restv);
                    }
                    Some((items, k))
                },
            },
        }
    }
}

/// Reads a string list.
fn r_strs(b: &[u8], pos: usize) -> (r: Option<(Vec<String>, usize)>)
    ensures
        (match dec_strs(b@, pos as int) {
            Some(v) => r is Some && crate::model::strings_view((r->0).0@) == v.0 && (
            r->0).1 as int == v.1,
            None => r is None,
        }),
{
    match r_u64(b, pos) {
        None => None,
        Some((n, j)) => r_strs_n(b, j, n),
    }
}

/// Reads `n` attributes.
fn r_attrs_n(b: &[u8], pos: usize, n: u64) -> (r: Option<(Vec<crate::model::AttrPath>, usize)>)
    ensures
        (match dec_attrs_n(b@, pos as int, n) {
            Some(v) => r is Some && crate::model::attrs_view((r->0).0@) == v.0 && (
            r->0).1 as int == v.1,
            None => r is None,
        }),
    decreases n,
{
    if n == 0 {
        proof {
            assert(crate::model::attrs_view(Seq::<crate::model::AttrPath>::empty()) =~= Seq::<
                Seq<Seq<char>>,
            >::empty());
        }
        Some((Vec::new(), pos))
    } else {
        match r_strs(b, pos) {
            None => None,
            Some((segments, j)) => match r_attrs_n(b, j, n - 1) {
                None => None,
                Some((rest, k)) => {
                    let a = crate::model::AttrPath { segments };
                    let ghost av = a@;
                    let ghost restv = crate::model::attrs_view(rest@);
                    let mut items = rest;
                    items.insert(0, a);
                    proof {
                        assert(crate::model::attrs_view(items@) =~= seq![av] + restv);
                    }
                    Some((items, k))
                },
            },
        }
    }
}

/// Reads an attribute list.
fn r_attrs(b: &[u8], pos: usize) -> (r: Option<(Vec<crate::model::AttrPath>, usize)>)
    ensures
        (match dec_attrs(b@, pos as int) {
            Some(v) => r is Some && crate::model::attrs_view((r->0).0@) == v.0 && (
            r->0).1 as int == v.1,
            None => r is None,
        }),
{
    match r_u64(b, pos) {
        None => None,
        Some((n, j)) => r_attrs_n(b, j, n),
    }
}

/// Reads one member, by its tag byte.
fn r_member(b: &[u8], pos: usize) -> (r: Option<(crate::model::MemberDecl, usize)>)
    ensures
        (match dec_member(b@, pos as int) {
            Some(v) => r is Some && (r->0).0@ == v.0 && (r->0).1 as int == v.1,
            None => r is None,
        }),
{
    if pos < b.len() {
        let tag = b[pos];
        if tag == 0 {
            match r_str(b, pos + 1) {
                None => None,
                Some((name, j)) => match r_args(b, j) {
                    None => None,
                    Some((args, k)) => match r_bool(b, k) {
                        None => None,
                        Some((has_receiver, k1)) => match r_bool(b, k1) {
                            None => None,
                            Some((has_return, k2)) => match r_bool(b, k2) {
                                None => None,
                                Some((has_default_body, k3)) => Some(
                                    (
                                        crate::model::MemberDecl::Method(
                                            crate::model::MethodDecl {
                                                name,
                                                args,
                                                has_receiver,
                                                has_return,
                                                has_default_body,
                                            },
                                        ),
                                        k3,
                                    ),
                                ),
                            },
                        },
                    },
                },
            }
        } else if tag == 1 {
            match r_str(b, pos + 1) {
                None => None,
                Some((name, j)) => Some((crate::model::MemberDecl::Const(name), j)),
            }
        } else if tag == 2 {
            match r_str(b, pos + 1) {
                None => None,
                Some((name, j)) => Some((crate::model::MemberDecl::Type(name), j)),
            }
        } else if tag == 3 {
            match r_str(b, pos + 1) {
                None => None,
                Some((name, j)) => Some((crate::model::MemberDecl::Other(name), j)),
            }
        } else {
            None
        }
    } else {
        None
    }
}

/// Reads `n` members.
fn r_members_n(b: &[u8], pos: usize, n: u64) -> (r: Option<(Vec<crate::model::MemberDecl>, usize)>)
    ensures
        (match dec_members_n(b@, pos as int, n) {
            Some(v) => r is Some && crate::model::members_view((r->0).0@) == v.0 && (
            r->0).1 as int == v.1,
            None => r is None,
        }),
    decreases n,
{
    if n == 0 {
        proof {
            assert(crate::model::members_view(Seq::<crate::model::MemberDecl>::empty()) =~= Seq::<
                crate::model::MemberDeclV,
            >::empty());
        }
        Some((Vec::new(), pos))
    } else {
        match r_member(b, pos) {
            None => None,
            Some((m, j)) => match r_members_n(b, j, n - 1) {
                None => None,
                Some((rest, k)) => {
                    let ghost mv = m@;
                    let ghost restv = crate::model::members_view(rest@);
                    let mut items = rest;
                    items.insert(0, m);
                    proof {
                        assert(crate::model::members_view(items@) =~= seq![mv] + restv);
                    }
                    Some((items, k))
                },
            },
        }
    }
}

/// Reads a member list.
fn r_members(b: &[u8], pos: usize) -> (r: Option<(Vec<crate::model::MemberDecl>, usize)>)
    ensures
        (match dec_members(b@, pos as int) {
            Some(v) => r is Some && crate::model::members_view((r->0).0@) == v.0 && (
            r->0).1 as int == v.1,
            None => r is None,
        }),
{
    match r_u64(b, pos) {
        None => None,
        Some((n, j)) => r_members_n(b, j, n),
    }
}

/// Reads a whole declaration.
fn r_trait(b: &[u8], pos: usize) -> (r: Option<(crate::model::TraitDecl, usize)>)
    ensures
        (match dec_trait(b@, pos as int) {
            Some(v) => r is Some && (r->0).0@ == v.0 && (r->0).1 as int == v.1,
            None => r is None,
        }),
{
    match r_str(b, pos) {
        None => None,
        Some((vis, j1)) => match r_attrs(b, j1) {
            None => None,
            Some((attrs, j2)) => match r_str(b, j2) {
                None => None,
                Some((ident, j3)) => match r_u64(b, j3) {
                    None => None,
                    Some((type_params, j4)) => match r_u64(b, j4) {
                        None => None,
                        Some((lifetimes, j5)) => match r_members(b, j5) {
                            None => None,
                            Some((members, j6)) => Some(
                                (
                                    crate::model::TraitDecl {
                                        vis,
                                        attrs,
                                        ident,
                                        type_params,
                                        lifetimes,
                                        members,
                                    },
                                    j6,
                                ),
                            ),
                        },
                    },
                },
            },
        },
    }
}

/// Reads a whole record.
fn r_provider(b: &[u8], pos: usize) -> (r: Option<
    (crate::provider::ProviderSpecification, usize),
>)
    ensures
        (match dec_provider(b@, pos as int) {
            Some(v) => r is Some && (r->0).0@ == v.0 && (r->0).1 as int == v.1,
            None => r is None,
        }),
{
    match r_str(b, pos) {
        None => None,
        Some((name, j1)) => match r_u64(b, j1) {
            None => None,
            Some((hash, j2)) => match r_trait(b, j2) {
                None => None,
                Some((item_trait, j3)) => match r_str(b, j3) {
                    None => None,
                    Some((canonical_text, j4)) => match r_probes(b, j4) {
                        None => None,
                        Some((probes, j5)) => Some(
                            (
                                crate::provider::ProviderSpecification::from_parts(
                                    name,
                                    hash,
                                    item_trait,
                                    canonical_text,
                                    probes,
                                ),
                                j5,
                            ),
                        ),
                    },
                },
            },
        },
    }
}

/// Deserializes a record. The bytes must parse exactly, the stored hash
/// must match the hash recomputed from the stored canonical text, and the
/// derived fields must agree with the stored declaration: the canonical
/// text must be its rendering and the name its derived name — so a
/// corrupted field cannot pass. The probes are not checked against the
/// declaration: a decomposed record round-trips like any other.
pub fn deserialize(bytes: &[u8]) -> (r: Result<
    crate::provider::ProviderSpecification,
    FormatError,
>)
    ensures
        (match spec_deserialize(bytes@) {
            Some(v) => r is Ok && r->Ok_0@ == v,
            None => r is Err,
        }),
        r is Ok ==> r->Ok_0@.consistent(),
        (match dec_provider(bytes@, 0) {
            None => r is Err && r->Err_0 == FormatError::Malformed,
            Some((v, j)) => {
                &&& (j != bytes@.len() ==> r is Err && r->Err_0 == FormatError::TrailingBytes)
                &&& (j == bytes@.len() && v.hash != crate::hashing::spec_content_hash(
                    v.canonical_text,
                ) ==> r is Err && r->Err_0 == FormatError::HashMismatch)
                &&& (j == bytes@.len() && v.hash == crate::hashing::spec_content_hash(
                    v.canonical_text,
                ) && !v.consistent() ==> r is Err && r->Err_0 == FormatError::Inconsistent)
                &&& (j == bytes@.len() && v.consistent() ==> r is Ok && r->Ok_0@ == v)
            },
        }),
{
    match r_provider(bytes, 0) {
        None => Err(FormatError::Malformed),
        Some((p, j)) => {
            if j != bytes.len() {
                return Err(FormatError::TrailingBytes);
            }
            let h = crate::hashing::hash_text(p.canonical_text());
            if h != p.hash() {
                return Err(FormatError::HashMismatch);
            }
            let rendered = crate::canon::render_trait(p.item_trait());
            if !(rendered == *p.canonical_text_string()) {
                return Err(FormatError::Inconsistent);
            }
            let derived = crate::naming::provider_name_from_trait(p.item_trait().ident.as_str());
            if !(derived == *p.name_string()) {
                return Err(FormatError::Inconsistent);
            }
            Ok(p)
        },
    }
}

} // verus!
