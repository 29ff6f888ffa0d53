//! Provider validation: deciding whether a trait declaration qualifies as a
//! provider and, if so, assembling its ordered probe list.
//!
//! The rules, first failure winning: the declaration must take no lifetime
//! or type parameters; every member must be a method; every method must
//! yield a probe.

use vstd::prelude::*;
use crate::errors::{ValidationError, ValidationErrorV};
use crate::model::{MemberDecl, MemberDeclV, TraitDecl, TraitDeclV};
use crate::probe::{probes_view, spec_extract, ProbeSpecification, ProbeSpecV};

verus! {

/// The probes declared by a list of members, or the first failure: a member
/// that is not a method, or a method that probe extraction rejects.
pub open spec fn spec_member_probes(trait_ident: Seq<char>, ms: Seq<MemberDeclV>) -> Result<
    Seq<ProbeSpecV>,
    ValidationErrorV,
>
    decreases ms.len(),
{
    if ms.len() == 0 {
        Ok(seq![])
    } else {
        match ms[0] {
            MemberDeclV::Method(m) => match spec_extract(trait_ident, m) {
                Ok(p) => match spec_member_probes(trait_ident, ms.drop_first()) {
                    Ok(rest) => Ok(seq![p] + rest),
                    Err(e) => Err(e),
                },
                Err(e) => Err(e),
            },
            MemberDeclV::Const(n) => Err(
                ValidationErrorV::NonMethodMember { trait_ident, member: n },
            ),
            MemberDeclV::Type(n) => Err(
                ValidationErrorV::NonMethodMember { trait_ident, member: n },
            ),
            MemberDeclV::Other(n) => Err(
                ValidationErrorV::NonMethodMember { trait_ident, member: n },
            ),
        }
    }
}

/// What validation yields on a declaration: its probes in declaration order,
/// or the first rule it breaks — generic parameters first, then the member
/// rules in member order.
pub open spec fn spec_find_probes(d: TraitDeclV) -> Result<Seq<ProbeSpecV>, ValidationErrorV> {
    if d.type_params > 0 || d.lifetimes > 0 {
        Err(ValidationErrorV::GenericsNotAllowed { trait_ident: d.ident })
    } else {
        spec_member_probes(d.ident, d.members)
    }
}

/// Validates a trait declaration as a provider and returns its probes in
/// declaration order, or the first validation failure.
pub fn find_probes(item: &TraitDecl) -> (r: Result<Vec<ProbeSpecification>, ValidationError>)
    ensures
        (match spec_find_probes(item@) {
            Ok(ps) => r is Ok && probes_view(r->Ok_0@) == ps,
            Err(e) => r is Err && r->Err_0@ == e,
        }),
{
    if item.type_params > 0 || item.lifetimes > 0 {
        return Err(ValidationError::GenericsNotAllowed { trait_ident: item.ident.clone() });
    }
    let ghost ident = item@.ident;
    let ghost all = item@.members;
    let mut probes: Vec<ProbeSpecification> = Vec::new();
    let n = item.members.len();
    proof {
        assert(all.skip(0) =~= all);
        assert(probes_view(probes@) =~= Seq::<ProbeSpecV>::empty());
        match spec_member_probes(ident, all) {
            Ok(rest) => {
                assert(probes_view(probes@) + rest =~= rest);
            },
            Err(e) => {},
        }
    }
    for i in 0..n
        invariant
            n == item.members.len(),
            all == item@.members,
            ident == item@.ident,
            all.len() == n,
            spec_find_probes(item@) == spec_member_probes(ident, all),
            (match spec_member_probes(ident, all.skip(i as int)) {
                Ok(rest) => spec_member_probes(ident, all) == Ok::<_, ValidationErrorV>(
                    probes_view(probes@) + rest,
                ),
                Err(e) => spec_member_probes(ident, all) == Err::<Seq<ProbeSpecV>, _>(e),
            }),
    {
        proof {
            let tail = all.skip(i as int);
            assert(tail[0] == all[i as int]);
            assert(tail.drop_first() =~= all.skip(i as int + 1));
            assert(all[i as int] == item.members@[i as int]@);
        }
        match &item.members[i] {
            MemberDecl::Method(m) => {
                match ProbeSpecification::from_method(item, m) {
                    Ok(p) => {
                        let ghost pv = p@;
                        let ghost before = probes@;
                        probes.push(p);
                        proof {
                            let tail = all.skip(i as int);
                            let tail1 = all.skip(i as int + 1);
                            assert(probes_view(probes@) =~= probes_view(before) + seq![pv]);
                            match spec_member_probes(ident, tail1) {
                                Ok(rest) => {
                                    assert(spec_member_probes(ident, tail) == Ok::<
                                        _,
                                        ValidationErrorV,
                                    >(seq![pv] + rest));
                                    assert((probes_view(before) + seq![pv]) + rest =~= probes_view(
                                        before,
                                    ) + (seq![pv] + rest));
                                },
                                Err(e) => {
                                    assert(spec_member_probes(ident, tail) == Err::<
                                        Seq<ProbeSpecV>,
                                        _,
                                    >(e));
                                },
                            }
                        }
                    },
                    Err(e) => {
                        proof {
                            let tail = all.skip(i as int);
                            assert(spec_member_probes(ident, tail) == Err::<Seq<ProbeSpecV>, _>(
                                e@,
                            ));
                        }
                        return Err(e);
                    },
                }
            },
            MemberDecl::Const(name) => {
                return Err(
                    ValidationError::NonMethodMember {
                        trait_ident: item.ident.clone(),
                        member: name.clone(),
                    },
                );
            },
            MemberDecl::Type(name) => {
                return Err(
                    ValidationError::NonMethodMember {
                        trait_ident: item.ident.clone(),
                        member: name.clone(),
                    },
                );
            },
            MemberDecl::Other(name) => {
                return Err(
                    ValidationError::NonMethodMember {
                        trait_ident: item.ident.clone(),
                        member: name.clone(),
                    },
                );
            },
        }
    }
    proof {
        assert(all.skip(n as int) =~= Seq::<MemberDeclV>::empty());
        assert(probes_view(probes@) + Seq::<ProbeSpecV>::empty() =~= probes_view(probes@));
    }
    Ok(probes)
}

} // verus!
