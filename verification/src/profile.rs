//! Where a Wire profile keeps its IndexedDB store, from the `forensicnomicon`
//! desktop-messenger knowledge (the `"Wire"` spec); no path is hardcoded here.

use vstd::prelude::*;
use forensicnomicon_core::messenger_desktop::{self, MessengerSpec, StoreRole};
use crate::error::{WireError, WireErrorView};

verus! {

/// `forensicnomicon_core::messenger_desktop::MessengerSpec`, carried through as
/// an opaque value.
#[verifier::external_type_specification]
#[verifier::external_body]
pub struct ExMessengerSpec(MessengerSpec);

/// The desktop-messenger spec registered under the app name `app`, if any.
pub uninterp spec fn messenger_spec(app: Seq<char>) -> Option<&'static MessengerSpec>;

/// The relative path of the first store of `spec` whose role is `Messages`, if any.
pub uninterp spec fn messages_store_path(spec: MessengerSpec) -> Option<Seq<char>>;

/// Looks up a spec with `forensicnomicon_core::messenger_desktop::spec`, which
/// searches a constant table by app name; the result depends on the name alone.
#[verifier::external_body]
fn lookup_messenger_spec(app: &str) -> (spec: Option<&'static MessengerSpec>)
    ensures
        spec == messenger_spec(app@),
{
    messenger_desktop::spec(app)
}

/// Looks up the messages store with `MessengerSpec::store(StoreRole::Messages)`
/// and picks its `relative_path` field; the result depends on the spec alone.
#[verifier::external_body]
fn lookup_messages_store_path(spec: &MessengerSpec) -> (path: Option<&'static str>)
    ensures
        match path {
            Some(p) => messages_store_path(*spec) == Some(p@),
            None => messages_store_path(*spec) is None,
        },
{
    spec.store(StoreRole::Messages).map(|s| s.relative_path)
}

/// The Wire desktop artifact spec from the fleet knowledge leaf.
pub fn wire_spec() -> (spec: Option<&'static MessengerSpec>)
    ensures
        spec == messenger_spec("Wire"@),
{
    lookup_messenger_spec("Wire")
}

/// The store path, relative to a profile base directory, that Wire keeps its
/// messages in according to `spec`: the messages store's path, or `IndexedDB`
/// when the spec lists none.
pub open spec fn wire_store_path_of(spec: MessengerSpec) -> Seq<char> {
    match messages_store_path(spec) {
        Some(p) => p,
        None => "IndexedDB"@,
    }
}

/// The relative path of Wire's messages store (see [`wire_store_path_of`]).
pub fn messages_relative_path(spec: &MessengerSpec) -> (path: &'static str)
    ensures
        path@ == wire_store_path_of(*spec),
{
    match lookup_messages_store_path(spec) {
        Some(p) => p,
        None => "IndexedDB",
    }
}

/// What [`profile_store_path`] answers for a profile base directory.
pub open spec fn profile_store_path_of(base: Seq<char>) -> Result<Seq<char>, WireErrorView> {
    match messenger_spec("Wire"@) {
        Some(spec) => Ok(wire_store_path_of(*spec)),
        None => Err(WireErrorView::StoreNotFound { base, relative: "<Wire spec missing>"@ }),
    }
}

/// Resolve where the Wire IndexedDB store sits under the profile base directory
/// `base`, relative to it, from the Wire spec; fails with
/// [`WireError::StoreNotFound`] when the knowledge leaf has no Wire spec.
pub fn profile_store_path(base: &str) -> (path: Result<&'static str, WireError>)
    ensures
        match path {
            Ok(p) => profile_store_path_of(base@) == Ok::<Seq<char>, WireErrorView>(p@),
            Err(e) => profile_store_path_of(base@) == Err::<Seq<char>, WireErrorView>(e@),
        },
{
    match wire_spec() {
        Some(spec) => Ok(messages_relative_path(spec)),
        None => Err(
            WireError::StoreNotFound { base: String::from_str(base), relative: String::from_str("<Wire spec missing>") },
        ),
    }
}

/// The error for a profile whose resolved store directory is absent.
pub fn store_not_found(base: &str, relative: &str) -> (e: WireError)
    ensures
        e@ == (WireErrorView::StoreNotFound { base: base@, relative: relative@ }),
{
    WireError::StoreNotFound { base: String::from_str(base), relative: String::from_str(relative) }
}

} // verus!
