//! Which file events announce a change of provider.

use vstd::prelude::*;

verus! {

/// The kinds of file event.
pub enum SignalKind {
    Any,
    Access,
    Create,
    Modify,
    Remove,
    Other,
}

/// The event kind of the `notify` crate.
#[verifier::external_type_specification]
#[verifier::external_body]
pub struct ExEventKind(notify::EventKind);

/// The kind that a `notify::EventKind` stands for: its variant, without what the variant holds.
pub uninterp spec fn signal_kind(kind: notify::EventKind) -> SignalKind;

/// `notify::EventKind::is_create`: whether the kind is the variant `Create`.
pub assume_specification[ notify::EventKind::is_create ](kind: &notify::EventKind) -> (yes: bool)
    ensures
        yes == (signal_kind(*kind) is Create),
;

/// `notify::EventKind::is_modify`: whether the kind is the variant `Modify`.
pub assume_specification[ notify::EventKind::is_modify ](kind: &notify::EventKind) -> (yes: bool)
    ensures
        yes == (signal_kind(*kind) is Modify),
;

/// An event of this kind on the signal file announces a change of provider: the file was written
/// or created.
pub open spec fn announces_change(kind: SignalKind) -> bool {
    kind is Modify || kind is Create
}

/// Whether a file event of this kind announces a change of provider.
pub fn is_provider_change(kind: &notify::EventKind) -> (yes: bool)
    ensures
        yes == announces_change(signal_kind(*kind)),
{
    kind.is_modify() || kind.is_create()
}

/// The applications whose requests are routed.
#[derive(Clone, Copy, Debug, PartialEq, Eq, Structural)]
pub enum AppType {
    Claude,
    Codex,
    Gemini,
    OpenCode,
    OpenClaw,
}

/// The applications whose current provider is loaded at the start and after a change signal, in
/// the order in which that is done.
pub fn watched_app_types() -> (app_types: Vec<AppType>)
    ensures
        app_types@ == seq![
            AppType::Claude,
            AppType::Codex,
            AppType::Gemini,
            AppType::OpenCode,
            AppType::OpenClaw,
        ],
{
    vec![AppType::Claude, AppType::Codex, AppType::Gemini, AppType::OpenCode, AppType::OpenClaw]
}

} // verus!
