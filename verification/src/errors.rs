//! The error raised when a declaration cannot be a provider.
//!
//! Every variant carries the identifying text of the offending declaration or
//! member, so a caller can report precisely what was rejected.

use vstd::prelude::*;
use vstd::string::StringExecFns;

verus! {

/// Why one method could not be turned into a probe.
#[derive(Debug, Clone, Copy, PartialEq, Eq, Structural)]
pub enum ProbeError {
    /// The method takes a `self` receiver; probe methods are free-standing.
    Receiver,
    /// The method declares a return value; probes return nothing.
    ReturnValue,
    /// The method has a default implementation; probes are declarations only.
    DefaultBody,
}

/// Why a whole declaration was rejected as a provider.
#[derive(Debug, Clone, PartialEq, Eq)]
pub enum ValidationError {
    /// The declaration takes lifetime or type parameters.
    GenericsNotAllowed { trait_ident: String },
    /// A member of the declaration is not a method.
    NonMethodMember { trait_ident: String, member: String },
    /// A method of the declaration could not be turned into a probe.
    ProbeExtraction { trait_ident: String, method: String, reason: ProbeError },
}

/// Mathematical image of a `ValidationError`.
pub enum ValidationErrorV {
    GenericsNotAllowed { trait_ident: Seq<char> },
    NonMethodMember { trait_ident: Seq<char>, member: Seq<char> },
    ProbeExtraction { trait_ident: Seq<char>, method: Seq<char>, reason: ProbeError },
}

impl View for ValidationError {
    type V = ValidationErrorV;

    open spec fn view(&self) -> ValidationErrorV {
        match self {
            ValidationError::GenericsNotAllowed { trait_ident } => {
                ValidationErrorV::GenericsNotAllowed { trait_ident: trait_ident@ }
            },
            ValidationError::NonMethodMember { trait_ident, member } => {
                ValidationErrorV::NonMethodMember { trait_ident: trait_ident@, member: member@ }
            },
            ValidationError::ProbeExtraction { trait_ident, method, reason } => {
                ValidationErrorV::ProbeExtraction {
                    trait_ident: trait_ident@,
                    method: method@,
                    reason: *reason,
                }
            },
        }
    }
}

/// The diagnostic text of a probe extraction failure.
pub open spec fn spec_probe_error_text(reason: ProbeError) -> Seq<char> {
    match reason {
        ProbeError::Receiver => "Probe methods must not take a self parameter"@,
        ProbeError::ReturnValue => "Probe methods must not return a value"@,
        ProbeError::DefaultBody => "Probe methods must not have a default implementation"@,
    }
}

/// The diagnostic text of a validation error: the reason, then the offending
/// declaration or member.
pub open spec fn spec_message(e: ValidationErrorV) -> Seq<char> {
    match e {
        ValidationErrorV::GenericsNotAllowed { trait_ident } => {
            "Probe traits must not take any lifetime or type parameters: "@ + trait_ident
        },
        ValidationErrorV::NonMethodMember { trait_ident, member } => {
            "Probe traits must consist entirely of methods, no other contents: "@ + trait_ident
                + "::"@ + member
        },
        ValidationErrorV::ProbeExtraction { trait_ident, method, reason } => {
            spec_probe_error_text(reason) + ": "@ + trait_ident + "::"@ + method
        },
    }
}

impl ValidationError {
    /// Renders the error as diagnostic text identifying the offender.
    pub fn message(&self) -> (r: String)
        ensures
            r@ == spec_message(self@),
    {
        match self {
            ValidationError::GenericsNotAllowed { trait_ident } => {
                let mut s = <String as StringExecFns>::from_str(
                    "Probe traits must not take any lifetime or type parameters: ",
                );
                s.append(trait_ident.as_str());
                s
            },
            ValidationError::NonMethodMember { trait_ident, member } => {
                let mut s = <String as StringExecFns>::from_str(
                    "Probe traits must consist entirely of methods, no other contents: ",
                );
                s.append(trait_ident.as_str());
                s.append("::");
                s.append(member.as_str());
                s
            },
            ValidationError::ProbeExtraction { trait_ident, method, reason } => {
                let mut s = match reason {
                    ProbeError::Receiver => {
                        <String as StringExecFns>::from_str(
                            "Probe methods must not take a self parameter",
                        )
                    },
                    ProbeError::ReturnValue => {
                        <String as StringExecFns>::from_str(
                            "Probe methods must not return a value",
                        )
                    },
                    ProbeError::DefaultBody => {
                        <String as StringExecFns>::from_str(
                            "Probe methods must not have a default implementation",
                        )
                    },
                };
                s.append(": ");
                s.append(trait_ident.as_str());
                s.append("::");
                s.append(method.as_str());
                s
            },
        }
    }
}

} // verus!
