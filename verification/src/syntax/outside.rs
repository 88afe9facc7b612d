use vstd::prelude::*;

verus! {

/// A proc-macro2 token stream, carried through opaquely.
#[verifier::external_type_specification]
#[verifier::external_body]
pub struct ExTokenStream(proc_macro2::TokenStream);

/// A proc-macro2 group, carried through opaquely.
#[verifier::external_type_specification]
#[verifier::external_body]
pub struct ExProcGroup(proc_macro2::Group);

/// A syn type path, carried through opaquely.
#[verifier::external_type_specification]
#[verifier::external_body]
pub struct ExSynTypePath(syn::TypePath);

/// The angle-bracketed arguments of a syn path segment, carried through opaquely.
#[verifier::external_type_specification]
#[verifier::external_body]
pub struct ExSynAngleArgs(syn::AngleBracketedGenericArguments);

/// A syn attribute, carried through opaquely.
#[verifier::external_type_specification]
#[verifier::external_body]
pub struct ExSynAttribute(syn::Attribute);

/// The named fields of a syn struct, carried through opaquely.
#[verifier::external_type_specification]
#[verifier::external_body]
pub struct ExSynFieldsNamed(syn::FieldsNamed);

/// A syn trait method, carried through opaquely.
#[verifier::external_type_specification]
#[verifier::external_body]
pub struct ExSynTraitItemFn(syn::TraitItemFn);

} // verus!
