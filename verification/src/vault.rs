//! The store operations as conversations with the credential vault. Each
//! operation is a small state machine: it asks for one vault operation at a
//! time ([`VaultOp`]), is handed back the vault's answer ([`VaultReply`]),
//! and decides what to ask next, until it is done. Whoever holds the vault
//! performs the operations; every decision is made here.
//!
//! The laws at the end relate the operations to one another over a model of
//! the vault as a map from entry names to stored bytes.

use vstd::prelude::*;

use crate::store::{
    clean_secret_input, cleaned, key_entry, key_entry_of, opt_view, plain_name, plain_name_of,
    law_profile_json_round_trip, lemma_profile_json_bounded, profile_json, stored_profile, stored_text, text_of, wif_entry, wif_entry_of, Listing,
    ListingView, Resolved, ResolvedView, StoreError, StoreErrorView, WifProfile, WifProfileView,
    DEFAULT_ENTRY,
};
use crate::json_text::{numbers_bounded, numbers_bounded_in};
use crate::text::{has_prefix, starts_with_text, strip_prefix_text, utf8_bytes};
use vstd::utf8::encode_utf8;

verus! {

/// One operation on the vault, under akey's service namespace.
pub enum VaultOp {
    /// Read an entry.
    Get { entry: String },
    /// Write an entry.
    Put { entry: String, value: Vec<u8> },
    /// Delete an entry, telling whether it existed.
    Delete { entry: String },
    /// Enumerate the entry names.
    List,
}

pub enum VaultOpView {
    Get { entry: Seq<char> },
    Put { entry: Seq<char>, value: Seq<u8> },
    Delete { entry: Seq<char> },
    List,
}

impl View for VaultOp {
    type V = VaultOpView;

    open spec fn view(&self) -> VaultOpView {
        match self {
            VaultOp::Get { entry } => VaultOpView::Get { entry: entry@ },
            VaultOp::Put { entry, value } => VaultOpView::Put { entry: entry@, value: value@ },
            VaultOp::Delete { entry } => VaultOpView::Delete { entry: entry@ },
            VaultOp::List => VaultOpView::List,
        }
    }
}

/// The vault's answer to a [`VaultOp`].
pub enum VaultReply {
    /// The bytes stored under the entry read, if any (for `Get`).
    Value(Option<Vec<u8>>),
    /// The entry was written (for `Put`).
    Stored,
    /// Whether the deleted entry existed (for `Delete`).
    Deleted(bool),
    /// The entry names (for `List`).
    Names(Vec<String>),
}

pub enum VaultReplyView {
    Value(Option<Seq<u8>>),
    Stored,
    Deleted(bool),
    Names(Seq<Seq<char>>),
}

pub open spec fn bytes_view(o: Option<Vec<u8>>) -> Option<Seq<u8>> {
    match o {
        Some(b) => Some(b@),
        None => None,
    }
}

impl View for VaultReply {
    type V = VaultReplyView;

    open spec fn view(&self) -> VaultReplyView {
        match self {
            VaultReply::Value(o) => VaultReplyView::Value(bytes_view(*o)),
            VaultReply::Stored => VaultReplyView::Stored,
            VaultReply::Deleted(d) => VaultReplyView::Deleted(*d),
            VaultReply::Names(ns) => VaultReplyView::Names(ns.deep_view()),
        }
    }
}

/// What an operation in progress wants next: a vault operation, after
/// which it continues from the state `S`, or nothing more, with its
/// outcome `T`.
pub enum Step<S, T> {
    Ask(VaultOp, S),
    Done(T),
}

/// The mathematical content of a [`Step`].
pub enum Next<S, T> {
    Ask(VaultOpView, S),
    Done(T),
}

pub open spec fn step_view<S: View, T, U>(s: Step<S, T>, out: spec_fn(T) -> U) -> Next<S::V, U> {
    match s {
        Step::Ask(op, st) => Next::Ask(op@, st@),
        Step::Done(t) => Next::Done(out(t)),
    }
}

// ---------------------------------------------------------------------------
// The vault, modelled as a map from entry names to stored bytes.

pub open spec fn lookup(v: Map<Seq<char>, Seq<u8>>, e: Seq<char>) -> Option<Seq<u8>> {
    if v.contains_key(e) {
        Some(v[e])
    } else {
        None
    }
}

/// What a vault that holds `v` answers to `op`, and what it holds after.
pub open spec fn answer(v: Map<Seq<char>, Seq<u8>>, op: VaultOpView) -> (
    Map<Seq<char>, Seq<u8>>,
    VaultReplyView,
) {
    match op {
        VaultOpView::Get { entry } => (v, VaultReplyView::Value(lookup(v, entry))),
        VaultOpView::Put { entry, value } => (v.insert(entry, value), VaultReplyView::Stored),
        VaultOpView::Delete { entry } => (v.remove(entry), VaultReplyView::Deleted(v.contains_key(entry))),
        VaultOpView::List => (v, VaultReplyView::Names(v.dom().to_seq())),
    }
}

/// Carries an operation through to its outcome against a vault that holds
/// `v`, in at most `fuel` vault operations.
pub open spec fn run<S, T>(
    v: Map<Seq<char>, Seq<u8>>,
    n: Next<S, T>,
    step: spec_fn(S, VaultReplyView) -> Next<S, T>,
    fuel: nat,
) -> Option<(Map<Seq<char>, Seq<u8>>, T)>
    decreases fuel,
{
    match n {
        Next::Done(t) => Some((v, t)),
        Next::Ask(op, s) => if fuel == 0 {
            None
        } else {
            let (v2, reply) = answer(v, op);
            run(v2, step(s, reply), step, (fuel - 1) as nat)
        },
    }
}

// ---------------------------------------------------------------------------
// Single writes.

/// The write that stores the key `name`.
pub fn set_key(name: &str, secret: &[u8]) -> (r: VaultOp)
    ensures
        r@ == (VaultOpView::Put { entry: key_entry(name@), value: secret@ }),
{
    VaultOp::Put { entry: key_entry_of(name), value: vstd::slice::slice_to_vec(secret) }
}

/// The write that stores the WIF profile `name`.
pub fn set_wif(name: &str, profile: &WifProfile) -> (r: VaultOp)
    ensures
        r@ == (VaultOpView::Put {
            entry: wif_entry(name@),
            value: encode_utf8(profile_json(profile@)),
        }),
{
    let text = profile.to_json();
    VaultOp::Put { entry: wif_entry_of(name), value: utf8_bytes(text.as_str()) }
}

// ---------------------------------------------------------------------------
// Resolving a target.

/// Resolving a target: waiting for the key entry, or for the profile entry.
pub enum ResolveWait {
    Key { name: String },
    Wif { name: String },
}

pub enum ResolveWaitView {
    Key { name: Seq<char> },
    Wif { name: Seq<char> },
}

impl View for ResolveWait {
    type V = ResolveWaitView;

    open spec fn view(&self) -> ResolveWaitView {
        match self {
            ResolveWait::Key { name } => ResolveWaitView::Key { name: name@ },
            ResolveWait::Wif { name } => ResolveWaitView::Wif { name: name@ },
        }
    }
}

pub open spec fn resolved_view(o: Option<Resolved>) -> Option<ResolvedView> {
    match o {
        Some(r) => Some(r@),
        None => None,
    }
}

pub open spec fn resolve_out_view(o: Result<Option<Resolved>, StoreError>) -> Result<
    Option<ResolvedView>,
    StoreErrorView,
> {
    match o {
        Ok(r) => Ok(resolved_view(r)),
        Err(e) => Err(e@),
    }
}

/// `wif:<name>` reads the profile `name`; a plain name reads the key first.
pub open spec fn resolve_begin(target: Seq<char>) -> Next<
    ResolveWaitView,
    Result<Option<ResolvedView>, StoreErrorView>,
> {
    if has_prefix(target, "wif:"@) {
        let n = plain_name(target);
        Next::Ask(VaultOpView::Get { entry: wif_entry(n) }, ResolveWaitView::Wif { name: n })
    } else {
        Next::Ask(VaultOpView::Get { entry: key_entry(target) }, ResolveWaitView::Key { name: target })
    }
}

/// A stored profile, or the error that it is corrupt. A stored text with a
/// run of digits outside strings longer than the JSON parser can count is
/// not handed to the parser and counts as corrupt.
pub open spec fn decode_profile(name: Seq<char>, b: Seq<u8>) -> Result<Option<ResolvedView>, StoreErrorView> {
    if !numbers_bounded(text_of(b)) {
        Err(StoreErrorView::CorruptProfile { name })
    } else {
        match stored_profile(text_of(b)) {
            Some(p) => Ok(Some(ResolvedView::Wif(p))),
            None => Err(StoreErrorView::CorruptProfile { name }),
        }
    }
}

/// A key found is the answer; a key missing sends us to the profile of the
/// same name; a profile missing means nothing goes by that name.
pub open spec fn resolve_next(w: ResolveWaitView, reply: VaultReplyView) -> Next<
    ResolveWaitView,
    Result<Option<ResolvedView>, StoreErrorView>,
> {
    match w {
        ResolveWaitView::Key { name } => match reply {
            VaultReplyView::Value(Some(b)) => Next::Done(Ok(Some(ResolvedView::Key(b)))),
            _ => Next::Ask(VaultOpView::Get { entry: wif_entry(name) }, ResolveWaitView::Wif { name }),
        },
        ResolveWaitView::Wif { name } => match reply {
            VaultReplyView::Value(Some(b)) => Next::Done(decode_profile(name, b)),
            _ => Next::Done(Ok(None)),
        },
    }
}

/// The profile stored as the bytes `b`, or the error that it is corrupt.
fn decode_stored_profile(name: String, b: &[u8]) -> (r: Result<Option<Resolved>, StoreError>)
    ensures
        resolve_out_view(r) == decode_profile(name@, b@),
        forall|p: WifProfileView|
            b@ == encode_utf8(profile_json(p)) ==> resolve_out_view(r) == Ok::<
                Option<ResolvedView>,
                StoreErrorView,
            >(Some(ResolvedView::Wif(p))),
{
    let text = stored_text(b);
    proof {
        broadcast use vstd::utf8::group_utf8_lib;

        assert forall|p: WifProfileView| b@ == encode_utf8(profile_json(p)) implies numbers_bounded(
            text@,
        ) by {
            lemma_profile_json_bounded(p);
        }
    }
    if !numbers_bounded_in(text.as_str()) {
        return Err(StoreError::CorruptProfile { name });
    }
    match WifProfile::from_json(text.as_str()) {
        Some(p) => Ok(Some(Resolved::Wif(p))),
        None => Err(StoreError::CorruptProfile { name }),
    }
}

impl ResolveWait {
    /// Every step of resolving reads an entry.
    pub open spec fn expects(self, reply: VaultReplyView) -> bool {
        reply is Value
    }

    pub fn resume(self, reply: VaultReply) -> (r: Step<ResolveWait, Result<Option<Resolved>, StoreError>>)
        requires
            self.expects(reply@),
        ensures
            step_view(r, |o| resolve_out_view(o)) == resolve_next(self@, reply@),
            forall|p: WifProfileView|
                self@ is Wif && reply@ == VaultReplyView::Value(Some(encode_utf8(profile_json(p))))
                    ==> (r matches Step::Done(o) && resolve_out_view(o) == Ok::<
                    Option<ResolvedView>,
                    StoreErrorView,
                >(Some(ResolvedView::Wif(p)))),
    {
        match self {
            ResolveWait::Key { name } => match reply {
                VaultReply::Value(Some(b)) => Step::Done(Ok(Some(Resolved::Key(b)))),
                _ => {
                    let e = wif_entry_of(name.as_str());
                    Step::Ask(VaultOp::Get { entry: e }, ResolveWait::Wif { name })
                },
            },
            ResolveWait::Wif { name } => match reply {
                VaultReply::Value(Some(b)) => Step::Done(decode_stored_profile(name, b.as_slice())),
                _ => Step::Done(Ok(None)),
            },
        }
    }
}

/// Resolve a run/helper target: `wif:<name>` forces a profile; a plain
/// name tries `key.<name>` first, then `wif.<name>`.
pub fn resolve(target: &str) -> (r: Step<ResolveWait, Result<Option<Resolved>, StoreError>>)
    ensures
        step_view(r, |o| resolve_out_view(o)) == resolve_begin(target@),
{
    if starts_with_text(target, "wif:") {
        let n = plain_name_of(target);
        Step::Ask(VaultOp::Get { entry: wif_entry_of(n.as_str()) }, ResolveWait::Wif { name: n })
    } else {
        Step::Ask(
            VaultOp::Get { entry: key_entry_of(target) },
            ResolveWait::Key { name: String::from_str(target) },
        )
    }
}

// ---------------------------------------------------------------------------
// Making a target the default.

/// Setting the default: resolving the target, then writing the default.
pub enum SetDefaultWait {
    Resolving { target: String, wait: ResolveWait },
    Storing,
}

pub enum SetDefaultWaitView {
    Resolving { target: Seq<char>, wait: ResolveWaitView },
    Storing,
}

impl View for SetDefaultWait {
    type V = SetDefaultWaitView;

    open spec fn view(&self) -> SetDefaultWaitView {
        match self {
            SetDefaultWait::Resolving { target, wait } => SetDefaultWaitView::Resolving {
                target: target@,
                wait: wait@,
            },
            SetDefaultWait::Storing => SetDefaultWaitView::Storing,
        }
    }
}

pub open spec fn unit_out_view(o: Result<(), StoreError>) -> Result<(), StoreErrorView> {
    match o {
        Ok(()) => Ok(()),
        Err(e) => Err(e@),
    }
}

/// Where resolving `target` leads when setting the default: a key stores
/// `key.<target>`, a profile stores `wif.<name>` (without the `wif:`
/// prefix), nothing found is the error that nothing goes by that name.
pub open spec fn set_default_after(
    target: Seq<char>,
    n: Next<ResolveWaitView, Result<Option<ResolvedView>, StoreErrorView>>,
) -> Next<SetDefaultWaitView, Result<(), StoreErrorView>> {
    match n {
        Next::Ask(op, w) => Next::Ask(op, SetDefaultWaitView::Resolving { target, wait: w }),
        Next::Done(Err(e)) => Next::Done(Err(e)),
        Next::Done(Ok(None)) => Next::Done(Err(StoreErrorView::NotFound { target })),
        Next::Done(Ok(Some(ResolvedView::Key(_)))) => Next::Ask(
            VaultOpView::Put { entry: DEFAULT_ENTRY@, value: encode_utf8(key_entry(target)) },
            SetDefaultWaitView::Storing,
        ),
        Next::Done(Ok(Some(ResolvedView::Wif(_)))) => Next::Ask(
            VaultOpView::Put {
                entry: DEFAULT_ENTRY@,
                value: encode_utf8(wif_entry(plain_name(target))),
            },
            SetDefaultWaitView::Storing,
        ),
    }
}

pub open spec fn set_default_begin(target: Seq<char>) -> Next<SetDefaultWaitView, Result<(), StoreErrorView>> {
    set_default_after(target, resolve_begin(target))
}

pub open spec fn set_default_next(w: SetDefaultWaitView, reply: VaultReplyView) -> Next<
    SetDefaultWaitView,
    Result<(), StoreErrorView>,
> {
    match w {
        SetDefaultWaitView::Resolving { target, wait } => set_default_after(
            target,
            resolve_next(wait, reply),
        ),
        SetDefaultWaitView::Storing => Next::Done(Ok(())),
    }
}

impl SetDefaultWait {
    pub open spec fn expects(self, reply: VaultReplyView) -> bool {
        match self {
            SetDefaultWait::Resolving { .. } => reply is Value,
            SetDefaultWait::Storing => reply is Stored,
        }
    }

    fn after(target: String, s: Step<ResolveWait, Result<Option<Resolved>, StoreError>>) -> (r: Step<
        SetDefaultWait,
        Result<(), StoreError>,
    >)
        ensures
            step_view(r, |o| unit_out_view(o)) == set_default_after(
                target@,
                step_view(s, |o| resolve_out_view(o)),
            ),
    {
        match s {
            Step::Ask(op, wait) => Step::Ask(op, SetDefaultWait::Resolving { target, wait }),
            Step::Done(Err(e)) => Step::Done(Err(e)),
            Step::Done(Ok(None)) => Step::Done(Err(StoreError::NotFound { target })),
            Step::Done(Ok(Some(Resolved::Key(_)))) => {
                let e = key_entry_of(target.as_str());
                Step::Ask(
                    VaultOp::Put { entry: String::from_str(DEFAULT_ENTRY), value: utf8_bytes(e.as_str()) },
                    SetDefaultWait::Storing,
                )
            },
            Step::Done(Ok(Some(Resolved::Wif(_)))) => {
                let n = plain_name_of(target.as_str());
                let e = wif_entry_of(n.as_str());
                Step::Ask(
                    VaultOp::Put { entry: String::from_str(DEFAULT_ENTRY), value: utf8_bytes(e.as_str()) },
                    SetDefaultWait::Storing,
                )
            },
        }
    }

    pub fn resume(self, reply: VaultReply) -> (r: Step<SetDefaultWait, Result<(), StoreError>>)
        requires
            self.expects(reply@),
        ensures
            step_view(r, |o| unit_out_view(o)) == set_default_next(self@, reply@),
    {
        match self {
            SetDefaultWait::Resolving { target, wait } => {
                let s = wait.resume(reply);
                Self::after(target, s)
            },
            SetDefaultWait::Storing => Step::Done(Ok(())),
        }
    }
}

/// Set the default entry. Accepts `name` or `wif:<name>`; checks that
/// the entry exists and stores its canonical entry name.
pub fn set_default(target: &str) -> (r: Step<SetDefaultWait, Result<(), StoreError>>)
    ensures
        step_view(r, |o| unit_out_view(o)) == set_default_begin(target@),
{
    let s = resolve(target);
    SetDefaultWait::after(String::from_str(target), s)
}

// ---------------------------------------------------------------------------
// Reading the default.

/// Reading the default: waiting for the default entry.
pub struct DefaultWait;

impl View for DefaultWait {
    type V = ();

    open spec fn view(&self) -> () {
        ()
    }
}

pub open spec fn default_begin() -> Next<(), Option<Seq<char>>> {
    Next::Ask(VaultOpView::Get { entry: DEFAULT_ENTRY@ }, ())
}

/// The default is the text of the stored entry name, if one is stored.
pub open spec fn default_next(reply: VaultReplyView) -> Next<(), Option<Seq<char>>> {
    match reply {
        VaultReplyView::Value(Some(b)) => Next::Done(Some(text_of(b))),
        _ => Next::Done(None),
    }
}

impl DefaultWait {
    pub open spec fn expects(self, reply: VaultReplyView) -> bool {
        reply is Value
    }

    pub fn resume(self, reply: VaultReply) -> (r: Step<DefaultWait, Option<String>>)
        requires
            self.expects(reply@),
        ensures
            step_view(r, |o| opt_view(o)) == default_next(reply@),
    {
        match reply {
            VaultReply::Value(Some(b)) => Step::Done(Some(stored_text(b.as_slice()))),
            _ => Step::Done(None),
        }
    }
}

/// The entry name stored as the default, if any.
pub fn default() -> (r: Step<DefaultWait, Option<String>>)
    ensures
        step_view(r, |o| opt_view(o)) == default_begin(),
{
    Step::Ask(VaultOp::Get { entry: String::from_str(DEFAULT_ENTRY) }, DefaultWait)
}

// ---------------------------------------------------------------------------
// The apiKeyHelper secret.

/// The helper: waiting for the default entry, or for the key itself.
pub enum HelperWait {
    Default,
    Entry,
}

pub enum HelperWaitView {
    Default,
    Entry,
}

impl View for HelperWait {
    type V = HelperWaitView;

    open spec fn view(&self) -> HelperWaitView {
        match self {
            HelperWait::Default => HelperWaitView::Default,
            HelperWait::Entry => HelperWaitView::Entry,
        }
    }
}

pub open spec fn secret_out_view(o: Result<Option<Vec<u8>>, StoreError>) -> Result<
    Option<Seq<u8>>,
    StoreErrorView,
> {
    match o {
        Ok(b) => Ok(bytes_view(b)),
        Err(e) => Err(e@),
    }
}

/// A named helper reads `key.<name>`; otherwise the default is read first.
pub open spec fn helper_begin(name: Option<Seq<char>>) -> Next<HelperWaitView, Result<Option<Seq<u8>>, StoreErrorView>> {
    match name {
        Some(n) => Next::Ask(VaultOpView::Get { entry: key_entry(n) }, HelperWaitView::Entry),
        None => Next::Ask(VaultOpView::Get { entry: DEFAULT_ENTRY@ }, HelperWaitView::Default),
    }
}

/// No default means no secret; a default that is not a key entry is an
/// error; a key entry is read and its bytes are the secret.
pub open spec fn helper_next(w: HelperWaitView, reply: VaultReplyView) -> Next<
    HelperWaitView,
    Result<Option<Seq<u8>>, StoreErrorView>,
> {
    match w {
        HelperWaitView::Default => match reply {
            VaultReplyView::Value(Some(b)) => if has_prefix(text_of(b), "key."@) {
                Next::Ask(VaultOpView::Get { entry: text_of(b) }, HelperWaitView::Entry)
            } else {
                Next::Done(Err(StoreErrorView::DefaultIsWif))
            },
            _ => Next::Done(Ok(None)),
        },
        HelperWaitView::Entry => match reply {
            VaultReplyView::Value(o) => Next::Done(Ok(o)),
            _ => Next::Done(Ok(None)),
        },
    }
}

impl HelperWait {
    pub open spec fn expects(self, reply: VaultReplyView) -> bool {
        reply is Value
    }

    pub fn resume(self, reply: VaultReply) -> (r: Step<HelperWait, Result<Option<Vec<u8>>, StoreError>>)
        requires
            self.expects(reply@),
        ensures
            step_view(r, |o| secret_out_view(o)) == helper_next(self@, reply@),
    {
        match self {
            HelperWait::Default => match reply {
                VaultReply::Value(Some(b)) => {
                    let e = stored_text(b.as_slice());
                    if starts_with_text(e.as_str(), "key.") {
                        Step::Ask(VaultOp::Get { entry: e }, HelperWait::Entry)
                    } else {
                        Step::Done(Err(StoreError::DefaultIsWif))
                    }
                },
                _ => Step::Done(Ok(None)),
            },
            HelperWait::Entry => match reply {
                VaultReply::Value(o) => Step::Done(Ok(o)),
                _ => Step::Done(Ok(None)),
            },
        }
    }
}

/// The default or a named key's secret — the `apiKeyHelper` contract.
pub fn helper_secret(name: Option<&str>) -> (r: Step<HelperWait, Result<Option<Vec<u8>>, StoreError>>)
    ensures
        step_view(r, |o| secret_out_view(o)) == helper_begin(
            match name {
                Some(n) => Some(n@),
                None => None,
            },
        ),
{
    match name {
        Some(n) => Step::Ask(VaultOp::Get { entry: key_entry_of(n) }, HelperWait::Entry),
        None => Step::Ask(VaultOp::Get { entry: String::from_str(DEFAULT_ENTRY) }, HelperWait::Default),
    }
}

// ---------------------------------------------------------------------------
// Removing a key or profile.

pub enum RemovePhase {
    /// The entry is being deleted.
    Deleting,
    /// The entry was deleted; the default is being read.
    CheckingDefault,
    /// The default named the deleted entry and is being deleted.
    ClearingDefault,
}

/// Removing `plain`: its key entry first, then (`second`) its profile
/// entry; `removed` tells whether anything was deleted so far.
pub struct RemoveWait {
    pub plain: String,
    pub second: bool,
    pub removed: bool,
    pub phase: RemovePhase,
}

pub struct RemoveWaitView {
    pub plain: Seq<char>,
    pub second: bool,
    pub removed: bool,
    pub phase: RemovePhase,
}

impl View for RemoveWait {
    type V = RemoveWaitView;

    open spec fn view(&self) -> RemoveWaitView {
        RemoveWaitView {
            plain: self.plain@,
            second: self.second,
            removed: self.removed,
            phase: match self.phase {
                RemovePhase::Deleting => RemovePhase::Deleting,
                RemovePhase::CheckingDefault => RemovePhase::CheckingDefault,
                RemovePhase::ClearingDefault => RemovePhase::ClearingDefault,
            },
        }
    }
}

/// The entry that a removal is working on.
pub open spec fn removal_entry(plain: Seq<char>, second: bool) -> Seq<char> {
    if second {
        wif_entry(plain)
    } else {
        key_entry(plain)
    }
}

/// On to the profile entry after the key entry, or done.
pub open spec fn remove_advance(plain: Seq<char>, second: bool, removed: bool) -> Next<RemoveWaitView, bool> {
    if !second {
        Next::Ask(
            VaultOpView::Delete { entry: wif_entry(plain) },
            RemoveWaitView { plain, second: true, removed, phase: RemovePhase::Deleting },
        )
    } else {
        Next::Done(removed)
    }
}

/// `wif:<name>` and `<name>` remove the same two entries.
pub open spec fn remove_begin(name: Seq<char>) -> Next<RemoveWaitView, bool> {
    let plain = plain_name(name);
    Next::Ask(
        VaultOpView::Delete { entry: key_entry(plain) },
        RemoveWaitView { plain, second: false, removed: false, phase: RemovePhase::Deleting },
    )
}

/// An entry that existed and was deleted makes the removal a success, and
/// clears the default when the default named it.
pub open spec fn remove_next(w: RemoveWaitView, reply: VaultReplyView) -> Next<RemoveWaitView, bool> {
    match w.phase {
        RemovePhase::Deleting => match reply {
            VaultReplyView::Deleted(true) => Next::Ask(
                VaultOpView::Get { entry: DEFAULT_ENTRY@ },
                RemoveWaitView { removed: true, phase: RemovePhase::CheckingDefault, ..w },
            ),
            _ => remove_advance(w.plain, w.second, w.removed),
        },
        RemovePhase::CheckingDefault => match reply {
            VaultReplyView::Value(Some(b)) => if text_of(b) == removal_entry(w.plain, w.second) {
                Next::Ask(
                    VaultOpView::Delete { entry: DEFAULT_ENTRY@ },
                    RemoveWaitView { phase: RemovePhase::ClearingDefault, ..w },
                )
            } else {
                remove_advance(w.plain, w.second, w.removed)
            },
            _ => remove_advance(w.plain, w.second, w.removed),
        },
        RemovePhase::ClearingDefault => remove_advance(w.plain, w.second, w.removed),
    }
}

impl RemoveWait {
    pub open spec fn expects(self, reply: VaultReplyView) -> bool {
        match self.phase {
            RemovePhase::CheckingDefault => reply is Value,
            _ => reply is Deleted,
        }
    }

    fn advance(plain: String, second: bool, removed: bool) -> (r: Step<RemoveWait, bool>)
        ensures
            step_view(r, |o| o) == remove_advance(plain@, second, removed),
    {
        if !second {
            let e = wif_entry_of(plain.as_str());
            Step::Ask(
                VaultOp::Delete { entry: e },
                RemoveWait { plain, second: true, removed, phase: RemovePhase::Deleting },
            )
        } else {
            Step::Done(removed)
        }
    }

    pub fn resume(self, reply: VaultReply) -> (r: Step<RemoveWait, bool>)
        requires
            self.expects(reply@),
        ensures
            step_view(r, |o| o) == remove_next(self@, reply@),
    {
        let RemoveWait { plain, second, removed, phase } = self;
        match phase {
            RemovePhase::Deleting => match reply {
                VaultReply::Deleted(true) => Step::Ask(
                    VaultOp::Get { entry: String::from_str(DEFAULT_ENTRY) },
                    RemoveWait { plain, second, removed: true, phase: RemovePhase::CheckingDefault },
                ),
                _ => Self::advance(plain, second, removed),
            },
            RemovePhase::CheckingDefault => match reply {
                VaultReply::Value(Some(b)) => {
                    let d = stored_text(b.as_slice());
                    let e = if second {
                        wif_entry_of(plain.as_str())
                    } else {
                        key_entry_of(plain.as_str())
                    };
                    if d == e {
                        Step::Ask(
                            VaultOp::Delete { entry: String::from_str(DEFAULT_ENTRY) },
                            RemoveWait { plain, second, removed, phase: RemovePhase::ClearingDefault },
                        )
                    } else {
                        Self::advance(plain, second, removed)
                    }
                },
                _ => Self::advance(plain, second, removed),
            },
            RemovePhase::ClearingDefault => Self::advance(plain, second, removed),
        }
    }
}

/// Delete `name` wherever it lives (key or wif); the outcome is whether
/// anything was deleted. Clears the default if it pointed at a deleted
/// entry.
pub fn remove(name: &str) -> (r: Step<RemoveWait, bool>)
    ensures
        step_view(r, |o| o) == remove_begin(name@),
{
    let plain = plain_name_of(name);
    let e = key_entry_of(plain.as_str());
    Step::Ask(
        VaultOp::Delete { entry: e },
        RemoveWait { plain, second: false, removed: false, phase: RemovePhase::Deleting },
    )
}

// ---------------------------------------------------------------------------
// Listing.

/// The names of the entries that begin with `pre`, without it, in order.
pub open spec fn names_under(ns: Seq<Seq<char>>, pre: Seq<char>) -> Seq<Seq<char>>
    decreases ns.len(),
{
    if ns.len() == 0 {
        Seq::empty()
    } else {
        let rest = names_under(ns.drop_last(), pre);
        if has_prefix(ns.last(), pre) {
            rest.push(ns.last().skip(pre.len() as int))
        } else {
            rest
        }
    }
}

/// The names of the profile entries: those that are not key entries and
/// begin with `wif.`, in order.
pub open spec fn profile_names(ns: Seq<Seq<char>>) -> Seq<Seq<char>>
    decreases ns.len(),
{
    if ns.len() == 0 {
        Seq::empty()
    } else {
        let rest = profile_names(ns.drop_last());
        if !has_prefix(ns.last(), "key."@) && has_prefix(ns.last(), "wif."@) {
            rest.push(ns.last().skip("wif."@.len() as int))
        } else {
            rest
        }
    }
}

/// The listing of the entry names `ns` with the default stored as `d`.
pub open spec fn listing_of(ns: Seq<Seq<char>>, d: Option<Seq<u8>>) -> ListingView {
    ListingView {
        keys: names_under(ns, "key."@),
        wifs: profile_names(ns),
        default: match d {
            Some(b) => Some(text_of(b)),
            None => None,
        },
    }
}

/// Listing: waiting for the entry names, then for the default.
pub enum ListWait {
    Names,
    Default { keys: Vec<String>, wifs: Vec<String> },
}

pub enum ListWaitView {
    Names,
    Default { keys: Seq<Seq<char>>, wifs: Seq<Seq<char>> },
}

impl View for ListWait {
    type V = ListWaitView;

    open spec fn view(&self) -> ListWaitView {
        match self {
            ListWait::Names => ListWaitView::Names,
            ListWait::Default { keys, wifs } => ListWaitView::Default {
                keys: keys.deep_view(),
                wifs: wifs.deep_view(),
            },
        }
    }
}

pub open spec fn list_begin() -> Next<ListWaitView, ListingView> {
    Next::Ask(VaultOpView::List, ListWaitView::Names)
}

pub open spec fn list_next(w: ListWaitView, reply: VaultReplyView) -> Next<ListWaitView, ListingView> {
    match w {
        ListWaitView::Names => {
            let ns = match reply {
                VaultReplyView::Names(ns) => ns,
                _ => Seq::empty(),
            };
            Next::Ask(
                VaultOpView::Get { entry: DEFAULT_ENTRY@ },
                ListWaitView::Default { keys: names_under(ns, "key."@), wifs: profile_names(ns) },
            )
        },
        ListWaitView::Default { keys, wifs } => {
            let d = match reply {
                VaultReplyView::Value(o) => o,
                _ => None,
            };
            Next::Done(ListingView { keys, wifs, default: listing_of(Seq::empty(), d).default })
        },
    }
}

/// Sorts entry names into key names and profile names.
fn sort_names(ns: &Vec<String>) -> (r: (Vec<String>, Vec<String>))
    ensures
        r.0.deep_view() == names_under(ns.deep_view(), "key."@),
        r.1.deep_view() == profile_names(ns.deep_view()),
{
    let ghost d = ns.deep_view();
    let mut keys: Vec<String> = Vec::new();
    let mut wifs: Vec<String> = Vec::new();
    let mut i: usize = 0;
    while i < ns.len()
        invariant
            d == ns.deep_view(),
            i <= ns@.len(),
            keys.deep_view() == names_under(d.take(i as int), "key."@),
            wifs.deep_view() == profile_names(d.take(i as int)),
        decreases ns@.len() - i,
    {
        let entry = ns[i].as_str();
        assert(d.take(i + 1).drop_last() =~= d.take(i as int));
        assert(d.take(i + 1).last() == entry@);
        match strip_prefix_text(entry, "key.") {
            Some(k) => {
                keys.push(k);
                assert(keys.deep_view() =~= names_under(d.take(i + 1), "key."@));
            },
            None => match strip_prefix_text(entry, "wif.") {
                Some(w) => {
                    wifs.push(w);
                    assert(wifs.deep_view() =~= profile_names(d.take(i + 1)));
                },
                None => {},
            },
        }
        i = i + 1;
    }
    assert(d.take(ns@.len() as int) =~= d);
    (keys, wifs)
}

impl ListWait {
    pub open spec fn expects(self, reply: VaultReplyView) -> bool {
        match self {
            ListWait::Names => reply is Names,
            ListWait::Default { .. } => reply is Value,
        }
    }

    pub fn resume(self, reply: VaultReply) -> (r: Step<ListWait, Listing>)
        requires
            self.expects(reply@),
        ensures
            step_view(r, |o: Listing| o@) == list_next(self@, reply@),
    {
        match self {
            ListWait::Names => match reply {
                VaultReply::Names(ns) => {
                    let (keys, wifs) = sort_names(&ns);
                    Step::Ask(
                        VaultOp::Get { entry: String::from_str(DEFAULT_ENTRY) },
                        ListWait::Default { keys, wifs },
                    )
                },
                _ => Step::Ask(
                    VaultOp::Get { entry: String::from_str(DEFAULT_ENTRY) },
                    ListWait::Default { keys: Vec::new(), wifs: Vec::new() },
                ),
            },
            ListWait::Default { keys, wifs } => {
                let default = match reply {
                    VaultReply::Value(Some(b)) => Some(stored_text(b.as_slice())),
                    _ => None,
                };
                Step::Done(Listing { keys, wifs, default })
            },
        }
    }
}

/// Everything stored, for `ls` and `status`.
pub fn list() -> (r: Step<ListWait, Listing>)
    ensures
        step_view(r, |o: Listing| o@) == list_begin(),
{
    Step::Ask(VaultOp::List, ListWait::Names)
}

// ---------------------------------------------------------------------------
// Storing a key entered by the user (`akey set`).

/// What `akey set` did.
#[derive(Debug, Clone, Copy, PartialEq, Eq)]
pub enum KeyStored {
    /// The input was empty after cleaning: nothing was stored.
    Empty,
    /// The key was stored.
    Stored,
    /// The key was stored and, there being no default yet, made the default.
    StoredAsDefault,
}

/// Storing a key: writing it, reading the default, setting the default.
pub enum StoreKeyWait {
    Writing { name: String },
    CheckingDefault { name: String },
    Defaulting { wait: SetDefaultWait },
}

pub enum StoreKeyWaitView {
    Writing { name: Seq<char> },
    CheckingDefault { name: Seq<char> },
    Defaulting { wait: SetDefaultWaitView },
}

impl View for StoreKeyWait {
    type V = StoreKeyWaitView;

    open spec fn view(&self) -> StoreKeyWaitView {
        match self {
            StoreKeyWait::Writing { name } => StoreKeyWaitView::Writing { name: name@ },
            StoreKeyWait::CheckingDefault { name } => StoreKeyWaitView::CheckingDefault { name: name@ },
            StoreKeyWait::Defaulting { wait } => StoreKeyWaitView::Defaulting { wait: wait@ },
        }
    }
}

pub open spec fn stored_out_view(o: Result<KeyStored, StoreError>) -> Result<KeyStored, StoreErrorView> {
    match o {
        Ok(k) => Ok(k),
        Err(e) => Err(e@),
    }
}

/// The cleaned input is stored under `key.<name>`; empty input stores
/// nothing.
pub open spec fn store_key_begin(name: Seq<char>, input: Seq<char>) -> Next<
    StoreKeyWaitView,
    Result<KeyStored, StoreErrorView>,
> {
    let secret = cleaned(input);
    if secret.len() == 0 {
        Next::Done(Ok(KeyStored::Empty))
    } else {
        Next::Ask(
            VaultOpView::Put { entry: key_entry(name), value: encode_utf8(secret) },
            StoreKeyWaitView::Writing { name },
        )
    }
}

pub open spec fn store_key_defaulting(n: Next<SetDefaultWaitView, Result<(), StoreErrorView>>) -> Next<
    StoreKeyWaitView,
    Result<KeyStored, StoreErrorView>,
> {
    match n {
        Next::Ask(op, w) => Next::Ask(op, StoreKeyWaitView::Defaulting { wait: w }),
        Next::Done(Ok(())) => Next::Done(Ok(KeyStored::StoredAsDefault)),
        Next::Done(Err(e)) => Next::Done(Err(e)),
    }
}

/// After the write, the default is read; when there is none, the new key
/// becomes the default.
pub open spec fn store_key_next(w: StoreKeyWaitView, reply: VaultReplyView) -> Next<
    StoreKeyWaitView,
    Result<KeyStored, StoreErrorView>,
> {
    match w {
        StoreKeyWaitView::Writing { name } => Next::Ask(
            VaultOpView::Get { entry: DEFAULT_ENTRY@ },
            StoreKeyWaitView::CheckingDefault { name },
        ),
        StoreKeyWaitView::CheckingDefault { name } => match reply {
            VaultReplyView::Value(Some(_)) => Next::Done(Ok(KeyStored::Stored)),
            _ => store_key_defaulting(set_default_begin(name)),
        },
        StoreKeyWaitView::Defaulting { wait } => store_key_defaulting(set_default_next(wait, reply)),
    }
}

impl StoreKeyWait {
    pub open spec fn expects(self, reply: VaultReplyView) -> bool {
        match self {
            StoreKeyWait::Writing { .. } => reply is Stored,
            StoreKeyWait::CheckingDefault { .. } => reply is Value,
            StoreKeyWait::Defaulting { wait } => wait.expects(reply),
        }
    }

    fn defaulting(s: Step<SetDefaultWait, Result<(), StoreError>>) -> (r: Step<
        StoreKeyWait,
        Result<KeyStored, StoreError>,
    >)
        ensures
            step_view(r, |o| stored_out_view(o)) == store_key_defaulting(
                step_view(s, |o| unit_out_view(o)),
            ),
    {
        match s {
            Step::Ask(op, wait) => Step::Ask(op, StoreKeyWait::Defaulting { wait }),
            Step::Done(Ok(())) => Step::Done(Ok(KeyStored::StoredAsDefault)),
            Step::Done(Err(e)) => Step::Done(Err(e)),
        }
    }

    pub fn resume(self, reply: VaultReply) -> (r: Step<StoreKeyWait, Result<KeyStored, StoreError>>)
        requires
            self.expects(reply@),
        ensures
            step_view(r, |o| stored_out_view(o)) == store_key_next(self@, reply@),
    {
        match self {
            StoreKeyWait::Writing { name } => Step::Ask(
                VaultOp::Get { entry: String::from_str(DEFAULT_ENTRY) },
                StoreKeyWait::CheckingDefault { name },
            ),
            StoreKeyWait::CheckingDefault { name } => match reply {
                VaultReply::Value(Some(_)) => Step::Done(Ok(KeyStored::Stored)),
                _ => Self::defaulting(set_default(name.as_str())),
            },
            StoreKeyWait::Defaulting { wait } => Self::defaulting(wait.resume(reply)),
        }
    }
}

/// Store the key `name` from the raw `input` (cleaned first); the first
/// key stored becomes the default.
pub fn store_key(name: &str, input: &str) -> (r: Step<StoreKeyWait, Result<KeyStored, StoreError>>)
    ensures
        step_view(r, |o| stored_out_view(o)) == store_key_begin(name@, input@),
{
    let secret = clean_secret_input(input);
    if secret.unicode_len() == 0 {
        Step::Done(Ok(KeyStored::Empty))
    } else {
        Step::Ask(
            VaultOp::Put { entry: key_entry_of(name), value: utf8_bytes(secret) },
            StoreKeyWait::Writing { name: String::from_str(name) },
        )
    }
}

// ---------------------------------------------------------------------------
// The operations carried through against a vault that holds `v`.

pub open spec fn resolve_in(v: Map<Seq<char>, Seq<u8>>, target: Seq<char>) -> Option<
    (Map<Seq<char>, Seq<u8>>, Result<Option<ResolvedView>, StoreErrorView>),
> {
    run(v, resolve_begin(target), |w: ResolveWaitView, r: VaultReplyView| resolve_next(w, r), 2)
}

pub open spec fn set_default_in(v: Map<Seq<char>, Seq<u8>>, target: Seq<char>) -> Option<
    (Map<Seq<char>, Seq<u8>>, Result<(), StoreErrorView>),
> {
    run(
        v,
        set_default_begin(target),
        |w: SetDefaultWaitView, r: VaultReplyView| set_default_next(w, r),
        3,
    )
}

pub open spec fn helper_in(v: Map<Seq<char>, Seq<u8>>, name: Option<Seq<char>>) -> Option<
    (Map<Seq<char>, Seq<u8>>, Result<Option<Seq<u8>>, StoreErrorView>),
> {
    run(v, helper_begin(name), |w: HelperWaitView, r: VaultReplyView| helper_next(w, r), 2)
}

pub open spec fn remove_in(v: Map<Seq<char>, Seq<u8>>, name: Seq<char>) -> Option<
    (Map<Seq<char>, Seq<u8>>, bool),
> {
    run(v, remove_begin(name), |w: RemoveWaitView, r: VaultReplyView| remove_next(w, r), 6)
}

pub open spec fn store_key_in(v: Map<Seq<char>, Seq<u8>>, name: Seq<char>, input: Seq<char>) -> Option<
    (Map<Seq<char>, Seq<u8>>, Result<KeyStored, StoreErrorView>),
> {
    run(
        v,
        store_key_begin(name, input),
        |w: StoreKeyWaitView, r: VaultReplyView| store_key_next(w, r),
        5,
    )
}

/// What deleting the entry `e` does to the vault: the entry goes, and so
/// does the default when it named `e`.
pub open spec fn without_entry(v: Map<Seq<char>, Seq<u8>>, e: Seq<char>) -> Map<Seq<char>, Seq<u8>> {
    if v.contains_key(e) {
        let v1 = v.remove(e);
        if v1.contains_key(DEFAULT_ENTRY@) && text_of(v1[DEFAULT_ENTRY@]) == e {
            v1.remove(DEFAULT_ENTRY@)
        } else {
            v1
        }
    } else {
        v
    }
}

proof fn lemma_entries_differ(n: Seq<char>, m: Seq<char>)
    ensures
        key_entry(n) != DEFAULT_ENTRY@,
        wif_entry(n) != DEFAULT_ENTRY@,
        key_entry(n) != wif_entry(m),
{
    reveal_strlit("key.");
    reveal_strlit("wif.");
    reveal_strlit("default");
    assert(key_entry(n)[0] != DEFAULT_ENTRY@[0]);
    assert(wif_entry(n)[0] != DEFAULT_ENTRY@[0]);
    assert(key_entry(n)[0] != wif_entry(m)[0]);
}

proof fn lemma_stored_text(s: Seq<char>)
    ensures
        text_of(encode_utf8(s)) == s,
{
    broadcast use vstd::utf8::group_utf8_lib;

}

proof fn lemma_wif_target(name: Seq<char>)
    ensures
        has_prefix("wif:"@ + name, "wif:"@),
        plain_name("wif:"@ + name) == name,
{
    assert(("wif:"@ + name).subrange(0, "wif:"@.len() as int) =~= "wif:"@);
    assert(("wif:"@ + name).skip("wif:"@.len() as int) =~= name);
}

proof fn lemma_key_entry_prefix(n: Seq<char>)
    ensures
        has_prefix(key_entry(n), "key."@),
{
    assert(key_entry(n).subrange(0, "key."@.len() as int) =~= "key."@);
}

// ---------------------------------------------------------------------------
// Laws.

/// A key written under a plain name reads back as that key.
pub proof fn law_key_reads_back(v: Map<Seq<char>, Seq<u8>>, name: Seq<char>, secret: Seq<u8>)
    requires
        !has_prefix(name, "wif:"@),
    ensures
        resolve_in(v.insert(key_entry(name), secret), name) == Some(
            (
                v.insert(key_entry(name), secret),
                Ok::<Option<ResolvedView>, StoreErrorView>(Some(ResolvedView::Key(secret))),
            ),
        ),
{
    reveal_with_fuel(run, 3);
}

/// A plain name resolves to its key even when a profile of the same name
/// exists; without a key, to the profile.
pub proof fn law_key_shadows_profile(v: Map<Seq<char>, Seq<u8>>, name: Seq<char>)
    requires
        !has_prefix(name, "wif:"@),
    ensures
        v.contains_key(key_entry(name)) ==> resolve_in(v, name) == Some(
            (v, Ok::<Option<ResolvedView>, StoreErrorView>(Some(ResolvedView::Key(v[key_entry(name)])))),
        ),
        !v.contains_key(key_entry(name)) ==> resolve_in(v, name) == resolve_in(v, "wif:"@ + name),
{
    reveal_with_fuel(run, 3);
    lemma_wif_target(name);
}

/// A profile written under `name` reads back, through `wif:<name>`, as
/// that profile.
pub proof fn law_profile_reads_back(v: Map<Seq<char>, Seq<u8>>, name: Seq<char>, p: WifProfileView)
    ensures
        ({
            let v2 = v.insert(wif_entry(name), encode_utf8(profile_json(p)));
            resolve_in(v2, "wif:"@ + name) == Some(
                (v2, Ok::<Option<ResolvedView>, StoreErrorView>(Some(ResolvedView::Wif(p)))),
            )
        }),
{
    reveal_with_fuel(run, 3);
    lemma_wif_target(name);
    lemma_stored_text(profile_json(p));
    lemma_profile_json_bounded(p);
    law_profile_json_round_trip(p);
}

/// Nothing stored under a name resolves to nothing.
pub proof fn law_missing_resolves_to_none(v: Map<Seq<char>, Seq<u8>>, target: Seq<char>)
    requires
        !v.contains_key(wif_entry(plain_name(target))),
        !has_prefix(target, "wif:"@) ==> !v.contains_key(key_entry(target)),
    ensures
        resolve_in(v, target) == Some((v, Ok::<Option<ResolvedView>, StoreErrorView>(None))),
{
    reveal_with_fuel(run, 3);
}

/// Making a stored key the default writes its entry name as the default.
pub proof fn law_set_default_to_key(v: Map<Seq<char>, Seq<u8>>, name: Seq<char>)
    requires
        !has_prefix(name, "wif:"@),
        v.contains_key(key_entry(name)),
    ensures
        set_default_in(v, name) == Some(
            (v.insert(DEFAULT_ENTRY@, encode_utf8(key_entry(name))), Ok::<(), StoreErrorView>(())),
        ),
{
    reveal_with_fuel(run, 4);
}

/// Making a stored profile the default, through `wif:<name>`, writes its
/// entry name `wif.<name>` as the default.
pub proof fn law_set_default_to_profile(v: Map<Seq<char>, Seq<u8>>, name: Seq<char>, p: WifProfileView)
    requires
        v.contains_key(wif_entry(name)),
        v[wif_entry(name)] == encode_utf8(profile_json(p)),
    ensures
        set_default_in(v, "wif:"@ + name) == Some(
            (v.insert(DEFAULT_ENTRY@, encode_utf8(wif_entry(name))), Ok::<(), StoreErrorView>(())),
        ),
{
    reveal_with_fuel(run, 4);
    lemma_wif_target(name);
    lemma_stored_text(profile_json(p));
    lemma_profile_json_bounded(p);
    law_profile_json_round_trip(p);
}

/// A name that goes by nothing cannot become the default, and the vault
/// is left as it was.
pub proof fn law_set_default_needs_entry(v: Map<Seq<char>, Seq<u8>>, target: Seq<char>)
    requires
        !v.contains_key(wif_entry(plain_name(target))),
        !has_prefix(target, "wif:"@) ==> !v.contains_key(key_entry(target)),
    ensures
        set_default_in(v, target) == Some(
            (v, Err::<(), StoreErrorView>(StoreErrorView::NotFound { target })),
        ),
{
    reveal_with_fuel(run, 4);
}

/// With a key as the default, the helper hands out that key's secret.
pub proof fn law_helper_gives_default_key(v: Map<Seq<char>, Seq<u8>>, name: Seq<char>)
    requires
        v.contains_key(key_entry(name)),
        v.contains_key(DEFAULT_ENTRY@),
        v[DEFAULT_ENTRY@] == encode_utf8(key_entry(name)),
    ensures
        helper_in(v, None) == Some(
            (v, Ok::<Option<Seq<u8>>, StoreErrorView>(Some(v[key_entry(name)]))),
        ),
{
    reveal_with_fuel(run, 3);
    lemma_stored_text(key_entry(name));
    lemma_key_entry_prefix(name);
}

/// With a WIF profile as the default, the helper refuses: `apiKeyHelper`
/// needs a static key.
pub proof fn law_helper_refuses_profile_default(v: Map<Seq<char>, Seq<u8>>, name: Seq<char>)
    requires
        v.contains_key(DEFAULT_ENTRY@),
        v[DEFAULT_ENTRY@] == encode_utf8(wif_entry(name)),
    ensures
        helper_in(v, None) == Some(
            (v, Err::<Option<Seq<u8>>, StoreErrorView>(StoreErrorView::DefaultIsWif)),
        ),
{
    reveal_with_fuel(run, 3);
    lemma_stored_text(wif_entry(name));
    reveal_strlit("key.");
    reveal_strlit("wif.");
    assert(wif_entry(name)[0] != "key."@[0]);
    assert(!has_prefix(wif_entry(name), "key."@)) by {
        if has_prefix(wif_entry(name), "key."@) {
            assert(wif_entry(name).subrange(0, 4)[0] == "key."@[0]);
        }
    }
}

/// Setting a key as the default and then asking the helper gives back the
/// key's secret.
pub proof fn law_default_key_round_trip(v: Map<Seq<char>, Seq<u8>>, name: Seq<char>)
    requires
        !has_prefix(name, "wif:"@),
        v.contains_key(key_entry(name)),
    ensures
        ({
            let v2 = v.insert(DEFAULT_ENTRY@, encode_utf8(key_entry(name)));
            &&& set_default_in(v, name) == Some((v2, Ok::<(), StoreErrorView>(())))
            &&& helper_in(v2, None) == Some(
                (v2, Ok::<Option<Seq<u8>>, StoreErrorView>(Some(v[key_entry(name)]))),
            )
        }),
{
    law_set_default_to_key(v, name);
    lemma_entries_differ(name, name);
    let v2 = v.insert(DEFAULT_ENTRY@, encode_utf8(key_entry(name)));
    assert(v2[key_entry(name)] == v[key_entry(name)]);
    law_helper_gives_default_key(v2, name);
}

/// Removing a name deletes its key entry and its profile entry, clears the
/// default where it named a deleted entry, leaves everything else, and
/// tells whether anything was there.
pub proof fn law_remove(v: Map<Seq<char>, Seq<u8>>, name: Seq<char>)
    ensures
        ({
            let k = key_entry(plain_name(name));
            let w = wif_entry(plain_name(name));
            remove_in(v, name) == Some(
                (without_entry(without_entry(v, k), w), v.contains_key(k) || v.contains_key(w)),
            )
        }),
{
    let p = plain_name(name);
    let k = key_entry(p);
    let w = wif_entry(p);
    lemma_entries_differ(p, p);
    reveal_with_fuel(run, 7);
    if !v.contains_key(k) {
        assert(v.remove(k) =~= v);
    }
    let v1 = without_entry(v, k);
    assert(v1.contains_key(w) == v.contains_key(w));
    if !v1.contains_key(w) {
        assert(v1.remove(w) =~= v1);
    }
}

/// After a name is removed, it resolves to nothing.
pub proof fn law_removed_resolves_to_none(v: Map<Seq<char>, Seq<u8>>, name: Seq<char>)
    ensures
        ({
            let v2 = without_entry(without_entry(v, key_entry(plain_name(name))), wif_entry(plain_name(name)));
            resolve_in(v2, name) == Some((v2, Ok::<Option<ResolvedView>, StoreErrorView>(None)))
        }),
{
    let p = plain_name(name);
    lemma_entries_differ(p, p);
    let v2 = without_entry(without_entry(v, key_entry(p)), wif_entry(p));
    assert(!v2.contains_key(wif_entry(p)));
    assert(!v2.contains_key(key_entry(p)));
    law_missing_resolves_to_none(v2, name);
}

/// The first key stored becomes the default.
pub proof fn law_first_key_becomes_default(v: Map<Seq<char>, Seq<u8>>, name: Seq<char>, input: Seq<char>)
    requires
        !v.contains_key(DEFAULT_ENTRY@),
        cleaned(input).len() > 0,
        !has_prefix(name, "wif:"@),
    ensures
        store_key_in(v, name, input) == Some(
            (
                v.insert(key_entry(name), encode_utf8(cleaned(input))).insert(
                    DEFAULT_ENTRY@,
                    encode_utf8(key_entry(name)),
                ),
                Ok::<KeyStored, StoreErrorView>(KeyStored::StoredAsDefault),
            ),
        ),
{
    lemma_entries_differ(name, name);
    reveal_with_fuel(run, 6);
}

/// A key stored while a default exists leaves the default as it was.
pub proof fn law_later_key_keeps_default(v: Map<Seq<char>, Seq<u8>>, name: Seq<char>, input: Seq<char>)
    requires
        v.contains_key(DEFAULT_ENTRY@),
        cleaned(input).len() > 0,
    ensures
        store_key_in(v, name, input) == Some(
            (
                v.insert(key_entry(name), encode_utf8(cleaned(input))),
                Ok::<KeyStored, StoreErrorView>(KeyStored::Stored),
            ),
        ),
{
    lemma_entries_differ(name, name);
    reveal_with_fuel(run, 6);
}

/// Input that cleans to nothing stores nothing.
pub proof fn law_empty_input_stores_nothing(v: Map<Seq<char>, Seq<u8>>, name: Seq<char>, input: Seq<char>)
    requires
        cleaned(input).len() == 0,
    ensures
        store_key_in(v, name, input) == Some((v, Ok::<KeyStored, StoreErrorView>(KeyStored::Empty))),
{
    reveal_with_fuel(run, 2);
}

/// What storing a key reports does not depend on the secret: two inputs
/// that both clean to something give the same outcome, and the vaults
/// after differ only in the key's own entry.
pub proof fn law_key_outcome_ignores_secret(
    v: Map<Seq<char>, Seq<u8>>,
    name: Seq<char>,
    i1: Seq<char>,
    i2: Seq<char>,
)
    requires
        cleaned(i1).len() > 0,
        cleaned(i2).len() > 0,
    ensures
        ({
            let a = store_key_in(v, name, i1);
            let b = store_key_in(v, name, i2);
            &&& a matches Some(x)
            &&& b matches Some(y)
            &&& x.1 == y.1
            &&& x.0 == y.0.insert(key_entry(name), encode_utf8(cleaned(i1)))
        }),
{
    let k = key_entry(name);
    let d = DEFAULT_ENTRY@;
    lemma_entries_differ(name, name);
    let v1 = v.insert(k, encode_utf8(cleaned(i1)));
    let v2 = v.insert(k, encode_utf8(cleaned(i2)));
    assert(v1 =~= v2.insert(k, encode_utf8(cleaned(i1))));
    if v.contains_key(d) {
        law_later_key_keeps_default(v, name, i1);
        law_later_key_keeps_default(v, name, i2);
    } else if !has_prefix(name, "wif:"@) {
        law_first_key_becomes_default(v, name, i1);
        law_first_key_becomes_default(v, name, i2);
        let e = encode_utf8(k);
        assert(v1.insert(d, e) =~= v2.insert(d, e).insert(k, encode_utf8(cleaned(i1))));
    } else {
        let w = wif_entry(plain_name(name));
        lemma_entries_differ(name, plain_name(name));
        assert(lookup(v1, w) == lookup(v, w));
        assert(lookup(v2, w) == lookup(v, w));
        assert(!v1.contains_key(d) && !v2.contains_key(d));
        reveal_with_fuel(run, 6);
        let e = encode_utf8(w);
        assert(v1.insert(d, e) =~= v2.insert(d, e).insert(k, encode_utf8(cleaned(i1))));
    }
}


/// Listing carried through against a vault that holds `v`.
pub open spec fn list_in(v: Map<Seq<char>, Seq<u8>>) -> Option<(Map<Seq<char>, Seq<u8>>, ListingView)> {
    run(v, list_begin(), |w: ListWaitView, r: VaultReplyView| list_next(w, r), 2)
}

/// Two vaults hold the same entries, with the same bytes in every entry
/// but the keys' own: they differ at most in secrets.
pub open spec fn same_but_secrets(v1: Map<Seq<char>, Seq<u8>>, v2: Map<Seq<char>, Seq<u8>>) -> bool {
    &&& v1.dom() == v2.dom()
    &&& forall|e: Seq<char>| #[trigger] v1.contains_key(e) && !has_prefix(e, "key."@) ==> v1[e] == v2[e]
}

/// What resolving found, with a key's secret left out.
pub open spec fn resolve_shape(r: Result<Option<ResolvedView>, StoreErrorView>) -> Result<
    Option<ResolvedView>,
    StoreErrorView,
> {
    match r {
        Ok(Some(ResolvedView::Key(_))) => Ok(Some(ResolvedView::Key(Seq::empty()))),
        _ => r,
    }
}

proof fn lemma_non_key_entries(n: Seq<char>)
    ensures
        !has_prefix(wif_entry(n), "key."@),
        !has_prefix(DEFAULT_ENTRY@, "key."@),
{
    reveal_strlit("key.");
    reveal_strlit("wif.");
    reveal_strlit("default");
    assert(wif_entry(n).subrange(0, 4)[0] != "key."@[0]);
    assert(DEFAULT_ENTRY@.subrange(0, 4)[0] != "key."@[0]);
}

/// What akey reports of the vault does not depend on the secrets in it:
/// in two vaults that differ only in the bytes of key entries, removing,
/// making a default and listing give the same outcomes, and resolving
/// finds the same thing but for the key's secret itself.
pub proof fn law_outcomes_ignore_secrets(
    v1: Map<Seq<char>, Seq<u8>>,
    v2: Map<Seq<char>, Seq<u8>>,
    target: Seq<char>,
)
    requires
        same_but_secrets(v1, v2),
    ensures
        resolve_in(v1, target) matches Some(a) && resolve_in(v2, target) matches Some(b) && resolve_shape(a.1)
            == resolve_shape(b.1),
        set_default_in(v1, target) matches Some(a) && set_default_in(v2, target) matches Some(b) && a.1
            == b.1,
        remove_in(v1, target) matches Some(a) && remove_in(v2, target) matches Some(b) && a.1 == b.1,
        list_in(v1) matches Some(a) && list_in(v2) matches Some(b) && a.1 == b.1,
{
    let p = plain_name(target);
    lemma_non_key_entries(p);
    lemma_non_key_entries(target);
    let w = wif_entry(p);
    let d = DEFAULT_ENTRY@;
    assert(v1.contains_key(w) == v2.contains_key(w));
    assert(lookup(v1, w) == lookup(v2, w));
    assert(lookup(v1, wif_entry(target)) == lookup(v2, wif_entry(target)));
    assert(lookup(v1, d) == lookup(v2, d));
    assert(v1.contains_key(key_entry(target)) == v2.contains_key(key_entry(target)));
    assert(v1.contains_key(key_entry(p)) == v2.contains_key(key_entry(p)));
    law_remove(v1, target);
    law_remove(v2, target);
    reveal_with_fuel(run, 4);
    assert(v1.dom().to_seq() == v2.dom().to_seq());
}


/// A plain name that goes by no key but by a stored profile makes that
/// profile the default: the default written is `wif.<name>`.
pub proof fn law_set_default_plain_name_to_profile(
    v: Map<Seq<char>, Seq<u8>>,
    name: Seq<char>,
    p: WifProfileView,
)
    requires
        !has_prefix(name, "wif:"@),
        !v.contains_key("key."@ + name),
        v.contains_key("wif."@ + name),
        v["wif."@ + name] == encode_utf8(profile_json(p)),
    ensures
        set_default_in(v, name) == Some(
            (v.insert("default"@, encode_utf8("wif."@ + name)), Ok::<(), StoreErrorView>(())),
        ),
{
    reveal_strlit("default");
    assert(DEFAULT_ENTRY@ == "default"@);
    reveal_with_fuel(run, 4);
    lemma_stored_text(profile_json(p));
    lemma_profile_json_bounded(p);
    law_profile_json_round_trip(p);
    assert(plain_name(name) == name);
}


/// A named helper hands out exactly what is stored under `key.<name>`
/// (nothing when there is no such key), whatever the default; with no
/// default stored, the unnamed helper hands out nothing. The vault is left
/// as it was.
pub proof fn law_helper_reads(v: Map<Seq<char>, Seq<u8>>, name: Seq<char>)
    ensures
        helper_in(v, Some(name)) == Some(
            (
                v,
                Ok::<Option<Seq<u8>>, StoreErrorView>(
                    if v.contains_key("key."@ + name) {
                        Some(v["key."@ + name])
                    } else {
                        None
                    },
                ),
            ),
        ),
        !v.contains_key("default"@) ==> helper_in(v, None) == Some(
            (v, Ok::<Option<Seq<u8>>, StoreErrorView>(None)),
        ),
{
    reveal_strlit("default");
    assert(DEFAULT_ENTRY@ == "default"@);
    reveal_with_fuel(run, 3);
}

/// Removing a key that is the default deletes the key and the default,
/// reports that something was removed, and leaves every other entry as it
/// was.
pub proof fn law_remove_default_key(v: Map<Seq<char>, Seq<u8>>, name: Seq<char>)
    requires
        !has_prefix(name, "wif:"@),
        v.contains_key("key."@ + name),
        !v.contains_key("wif."@ + name),
        v.contains_key("default"@),
        v["default"@] == encode_utf8("key."@ + name),
    ensures
        remove_in(v, name) matches Some(r) && r.1 && r.0 == v.remove("key."@ + name).remove("default"@),
{
    reveal_strlit("default");
    assert(DEFAULT_ENTRY@ == "default"@);
    lemma_entries_differ(name, name);
    lemma_stored_text(key_entry(name));
    law_remove(v, name);
    assert(plain_name(name) == name);
    let v1 = without_entry(v, key_entry(name));
    assert(v1 == v.remove(key_entry(name)).remove(DEFAULT_ENTRY@));
    assert(!v1.contains_key(wif_entry(name)));
}

/// What the listing makes of the entry names `ns` and the stored default
/// `d`: every key it lists is stored as `key.<name>`, every profile as
/// `wif.<name>`; every `key.` entry is listed as a key and every `wif.`
/// entry as a profile; the default is the text of what is stored.
pub proof fn law_listing_names(ns: Seq<Seq<char>>, d: Option<Seq<u8>>)
    ensures
        ({
            let l = match list_next(ListWaitView::Names, VaultReplyView::Names(ns)) {
                Next::Ask(_, w) => list_next(w, VaultReplyView::Value(d)),
                Next::Done(x) => Next::Done(x),
            };
            &&& l matches Next::Done(listing)
            &&& forall|i: int| 0 <= i < listing.keys.len() ==> ns.contains("key."@ + #[trigger] listing.keys[i])
            &&& forall|i: int| 0 <= i < listing.wifs.len() ==> ns.contains("wif."@ + #[trigger] listing.wifs[i])
            &&& forall|i: int|
                0 <= i < ns.len() && has_prefix(#[trigger] ns[i], "key."@) ==> listing.keys.contains(ns[i].skip(4))
            &&& forall|i: int|
                0 <= i < ns.len() && has_prefix(#[trigger] ns[i], "wif."@) ==> listing.wifs.contains(ns[i].skip(4))
            &&& listing.default == match d {
                Some(b) => Some(text_of(b)),
                None => None,
            }
        }),
{
    reveal_strlit("key.");
    reveal_strlit("wif.");
    lemma_names_listed(ns);
}

proof fn lemma_names_listed(ns: Seq<Seq<char>>)
    ensures
        forall|i: int|
            0 <= i < names_under(ns, "key."@).len() ==> ns.contains("key."@ + #[trigger] names_under(ns, "key."@)[i]),
        forall|i: int|
            0 <= i < profile_names(ns).len() ==> ns.contains("wif."@ + #[trigger] profile_names(ns)[i]),
        forall|i: int|
            0 <= i < ns.len() && has_prefix(#[trigger] ns[i], "key."@) ==> names_under(ns, "key."@).contains(
                ns[i].skip(4),
            ),
        forall|i: int|
            0 <= i < ns.len() && has_prefix(#[trigger] ns[i], "wif."@) ==> profile_names(ns).contains(
                ns[i].skip(4),
            ),
    decreases ns.len(),
{
    reveal_strlit("key.");
    reveal_strlit("wif.");
    if ns.len() > 0 {
        let rest = ns.drop_last();
        lemma_names_listed(rest);
        let e = ns.last();
        let ks = names_under(ns, "key."@);
        let ws = profile_names(ns);
        assert forall|i: int| 0 <= i < rest.len() implies rest[i] == ns[i] by {}
        assert forall|i: int| 0 <= i < ks.len() implies ns.contains("key."@ + #[trigger] ks[i]) by {
            if i < names_under(rest, "key."@).len() {
                assert(ks[i] == names_under(rest, "key."@)[i]);
                let j = choose|j: int| 0 <= j < rest.len() && rest[j] == "key."@ + ks[i];
                assert(ns[j] == rest[j]);
            } else {
                assert(ks[i] == e.skip(4));
                assert(e.subrange(0, 4) == "key."@);
                assert("key."@ + e.skip(4) =~= e);
                assert(ns[ns.len() - 1] == e);
            }
        }
        assert forall|i: int| 0 <= i < ws.len() implies ns.contains("wif."@ + #[trigger] ws[i]) by {
            if i < profile_names(rest).len() {
                assert(ws[i] == profile_names(rest)[i]);
                let j = choose|j: int| 0 <= j < rest.len() && rest[j] == "wif."@ + ws[i];
                assert(ns[j] == rest[j]);
            } else {
                assert(ws[i] == e.skip(4));
                assert(e.subrange(0, 4) == "wif."@);
                assert("wif."@ + e.skip(4) =~= e);
                assert(ns[ns.len() - 1] == e);
            }
        }
        assert forall|i: int| 0 <= i < ns.len() && has_prefix(#[trigger] ns[i], "key."@) implies ks.contains(
            ns[i].skip(4),
        ) by {
            if i < rest.len() {
                assert(rest[i] == ns[i]);
                let k = choose|k: int| 0 <= k < names_under(rest, "key."@).len() && names_under(rest, "key."@)[k] == ns[i].skip(4);
                assert(ks[k] == names_under(rest, "key."@)[k]);
            } else {
                assert(ks[ks.len() - 1] == e.skip(4));
            }
        }
        assert forall|i: int| 0 <= i < ns.len() && has_prefix(#[trigger] ns[i], "wif."@) implies ws.contains(
            ns[i].skip(4),
        ) by {
            if i < rest.len() {
                assert(rest[i] == ns[i]);
                let k = choose|k: int| 0 <= k < profile_names(rest).len() && profile_names(rest)[k] == ns[i].skip(4);
                assert(ws[k] == profile_names(rest)[k]);
            } else {
                assert(e.subrange(0, 4)[0] != "key."@[0]);
                assert(!has_prefix(e, "key."@));
                assert(ws[ws.len() - 1] == e.skip(4));
            }
        }
    }
}

} // verus!
