//! Probe extraction: turning one method of a provider trait into a probe
//! specification.
//!
//! A probe is a free-standing instrumentation point, so the method that
//! declares it must take no receiver, return nothing, and carry no default
//! implementation; its arguments, in declaration order, become the probe's
//! arguments.

use vstd::prelude::*;
use crate::errors::{ProbeError, ValidationError, ValidationErrorV};
use crate::model::{
    clone_args, probe_args_view, MethodDecl, MethodDeclV, ProbeArg, ProbeArgV, TraitDecl,
};

verus! {

/// One probe of a provider: its name and its ordered arguments.
#[derive(Debug, Clone, PartialEq, Eq)]
pub struct ProbeSpecification {
    pub name: String,
    pub args: Vec<ProbeArg>,
}

/// Mathematical image of a `ProbeSpecification`.
pub struct ProbeSpecV {
    pub name: Seq<char>,
    pub args: Seq<ProbeArgV>,
}

impl View for ProbeSpecification {
    type V = ProbeSpecV;

    open spec fn view(&self) -> ProbeSpecV {
        ProbeSpecV { name: self.name@, args: probe_args_view(self.args@) }
    }
}

/// The images of a sequence of probe specifications.
pub open spec fn probes_view(ps: Seq<ProbeSpecification>) -> Seq<ProbeSpecV> {
    ps.map_values(|p: ProbeSpecification| p@)
}

/// What probe extraction yields on one method: the probe named after the
/// method, carrying the method's arguments in order; or the first reason,
/// in receiver / return value / default body order, why the method cannot
/// be a probe.
pub open spec fn spec_extract(trait_ident: Seq<char>, m: MethodDeclV) -> Result<
    ProbeSpecV,
    ValidationErrorV,
> {
    if m.has_receiver {
        Err(
            ValidationErrorV::ProbeExtraction {
                trait_ident,
                method: m.name,
                reason: ProbeError::Receiver,
            },
        )
    } else if m.has_return {
        Err(
            ValidationErrorV::ProbeExtraction {
                trait_ident,
                method: m.name,
                reason: ProbeError::ReturnValue,
            },
        )
    } else if m.has_default_body {
        Err(
            ValidationErrorV::ProbeExtraction {
                trait_ident,
                method: m.name,
                reason: ProbeError::DefaultBody,
            },
        )
    } else {
        Ok(ProbeSpecV { name: m.name, args: m.args })
    }
}

/// Decides whether two arguments agree in name and type text.
pub fn arg_equal(a: &ProbeArg, b: &ProbeArg) -> (r: bool)
    ensures
        r == (a@ == b@),
{
    a.name == b.name && a.type_text == b.type_text
}

/// Decides whether two argument lists agree elementwise.
pub fn args_equal(a: &Vec<ProbeArg>, b: &Vec<ProbeArg>) -> (r: bool)
    ensures
        r == (probe_args_view(a@) == probe_args_view(b@)),
{
    if a.len() != b.len() {
        proof {
            assert(probe_args_view(a@).len() != probe_args_view(b@).len());
        }
        return false;
    }
    let n = a.len();
    for i in 0..n
        invariant
            n == a@.len(),
            n == b@.len(),
            forall|j: int| 0 <= j < i ==> a@[j]@ == b@[j]@,
    {
        if !arg_equal(&a[i], &b[i]) {
            proof {
                assert(probe_args_view(a@)[i as int] != probe_args_view(b@)[i as int]);
            }
            return false;
        }
    }
    proof {
        assert(probe_args_view(a@) =~= probe_args_view(b@));
    }
    true
}

/// Decides whether two probes agree in name and arguments.
pub fn probe_equal(a: &ProbeSpecification, b: &ProbeSpecification) -> (r: bool)
    ensures
        r == (a@ == b@),
{
    a.name == b.name && args_equal(&a.args, &b.args)
}

/// Decides whether two probe lists agree elementwise.
pub fn probes_equal(a: &Vec<ProbeSpecification>, b: &Vec<ProbeSpecification>) -> (r: bool)
    ensures
        r == (probes_view(a@) == probes_view(b@)),
{
    if a.len() != b.len() {
        proof {
            assert(probes_view(a@).len() != probes_view(b@).len());
        }
        return false;
    }
    let n = a.len();
    for i in 0..n
        invariant
            n == a@.len(),
            n == b@.len(),
            forall|j: int| 0 <= j < i ==> a@[j]@ == b@[j]@,
    {
        if !probe_equal(&a[i], &b[i]) {
            proof {
                assert(probes_view(a@)[i as int] != probes_view(b@)[i as int]);
            }
            return false;
        }
    }
    proof {
        assert(probes_view(a@) =~= probes_view(b@));
    }
    true
}

impl ProbeSpecification {
    /// Derives the probe declared by one method of a provider trait, or
    /// reports why the method cannot be a probe.
    pub fn from_method(item: &TraitDecl, method: &MethodDecl) -> (r: Result<
        ProbeSpecification,
        ValidationError,
    >)
        ensures
            (match spec_extract(item@.ident, method@) {
                Ok(p) => r is Ok && r->Ok_0@ == p,
                Err(e) => r is Err && r->Err_0@ == e,
            }),
    {
        if method.has_receiver {
            Err(
                ValidationError::ProbeExtraction {
                    trait_ident: item.ident.clone(),
                    method: method.name.clone(),
                    reason: ProbeError::Receiver,
                },
            )
        } else if method.has_return {
            Err(
                ValidationError::ProbeExtraction {
                    trait_ident: item.ident.clone(),
                    method: method.name.clone(),
                    reason: ProbeError::ReturnValue,
                },
            )
        } else if method.has_default_body {
            Err(
                ValidationError::ProbeExtraction {
                    trait_ident: item.ident.clone(),
                    method: method.name.clone(),
                    reason: ProbeError::DefaultBody,
                },
            )
        } else {
            Ok(
                ProbeSpecification {
                    name: method.name.clone(),
                    args: clone_args(&method.args),
                },
            )
        }
    }
}

} // verus!
