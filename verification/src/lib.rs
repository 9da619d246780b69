//! akey: API keys and Workload Identity Federation profiles for agent
//! tooling, kept in the OS credential vault.
//!
//! * **Static keys**: `akey set/use/rm/ls`; `akey run <name> -- <cmd>`
//!   injects `ANTHROPIC_API_KEY` into that process only; `akey helper`
//!   prints the default key for the agent CLI's documented `apiKeyHelper`
//!   hook.
//! * **WIF profiles**: named sets of the five documented federation
//!   variables; `akey run wif:<name> -- <cmd>` injects them. The RFC 7523
//!   token exchange itself stays with the vendor SDKs.
//! * **Diagnosis**: `akey status` walks the SDKs' documented five-tier
//!   credential precedence for the current environment and names the
//!   winner, surfacing the footgun where a leftover `ANTHROPIC_API_KEY`
//!   silently shadows federation.
//!
//! The library decides; the vault itself is driven by the caller: every
//! store operation in [`vault`] asks for one vault operation at a time.

pub mod cli;
pub mod commands;
pub mod json_text;
pub mod status;
pub mod store;
pub mod text;
pub mod vault;

use vstd::prelude::*;

use crate::store::{
    profile_env, stored_text, text_of, Resolved, ResolvedView, StoreError, StoreErrorView,
};
use crate::vault::resolved_view;

verus! {

/// The variable a static key is injected as.
pub const API_KEY_VAR: &'static str = "ANTHROPIC_API_KEY";

/// The environment to set for what a target resolved to: a key gives
/// `ANTHROPIC_API_KEY` its stored value; a profile gives its federation
/// variables; nothing found is the error that nothing goes by `target`.
pub open spec fn resolved_env(target: Seq<char>, found: Option<ResolvedView>) -> Result<
    Seq<(Seq<char>, Seq<char>)>,
    StoreErrorView,
> {
    match found {
        Some(ResolvedView::Key(b)) => Ok(seq![(API_KEY_VAR@, text_of(b))]),
        Some(ResolvedView::Wif(p)) => Ok(profile_env(p)),
        None => Err(StoreErrorView::NotFound { target }),
    }
}

pub open spec fn env_out_view(r: Result<Vec<(String, String)>, StoreError>) -> Result<
    Seq<(Seq<char>, Seq<char>)>,
    StoreErrorView,
> {
    match r {
        Ok(v) => Ok(v.deep_view()),
        Err(e) => Err(e@),
    }
}

/// Resolve a credential `target` to the environment variables to **set**
/// for it, given what resolving it in the vault found
/// ([`vault::ResolveWait`]): the same mapping `akey run` injects, for an
/// in-process caller that injects them itself.
///
/// * a key name        -> `[("ANTHROPIC_API_KEY", <vault value>)]`
/// * `wif:<name>`      -> the federation variables from the stored profile
///   (four required, plus `ANTHROPIC_WORKSPACE_ID` when the profile has one)
///
/// A missing target is [`StoreError::NotFound`].
///
/// The returned pairs contain **secret material** (a static key's value):
/// the caller must treat the values as secret and must not log, print, or
/// persist them.
pub fn resolve(target: &str, found: Option<Resolved>) -> (r: Result<Vec<(String, String)>, StoreError>)
    ensures
        env_out_view(r) == resolved_env(target@, resolved_view(found)),
{
    match found {
        Some(Resolved::Key(secret)) => {
            let mut v: Vec<(String, String)> = Vec::new();
            v.push((String::from_str(API_KEY_VAR), stored_text(secret.as_slice())));
            assert(v.deep_view() =~= seq![(API_KEY_VAR@, text_of(secret@))]);
            Ok(v)
        },
        Some(Resolved::Wif(profile)) => Ok(profile.env_pairs()),
        None => Err(StoreError::NotFound { target: String::from_str(target) }),
    }
}

} // verus!
