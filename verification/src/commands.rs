//! What each command shows and decides around the vault: the lines of
//! `ls`, the environment changes of `run`, the exit status of a finished
//! child, and the messages of the other commands.

use vstd::prelude::*;

use crate::store::{
    key_entry, opt_view, profile_env, wif_entry, Listing, ListingView, ResolvedView, StoreError,
    StoreErrorView,
};
use crate::text::{debug_quoted, joined2, joined3, quoted, same_text};
use crate::vault::KeyStored;
use crate::{resolved_env, API_KEY_VAR};

verus! {

// ---------------------------------------------------------------------------
// `ls`

/// `*` for the default entry, a blank otherwise.
pub open spec fn default_mark(is_default: bool) -> Seq<char> {
    if is_default {
        "*"@
    } else {
        " "@
    }
}

pub open spec fn key_line(k: Seq<char>, default: Option<Seq<char>>) -> Seq<char> {
    default_mark(default == Some(key_entry(k))) + " key  "@ + k
}

pub open spec fn wif_line(w: Seq<char>, default: Option<Seq<char>>) -> Seq<char> {
    default_mark(default == Some(wif_entry(w))) + " wif  "@ + w
}

/// One line per key, then one per profile, the default marked.
pub open spec fn ls_lines(l: ListingView) -> Seq<Seq<char>> {
    l.keys.map_values(|k: Seq<char>| key_line(k, l.default)) + l.wifs.map_values(
        |w: Seq<char>| wif_line(w, l.default),
    )
}

fn is_default_entry(default: &Option<String>, entry: &String) -> (r: bool)
    ensures
        r == (opt_view(*default) == Some(entry@)),
{
    match default {
        Some(d) => same_text(d.as_str(), entry.as_str()),
        None => false,
    }
}

/// The lines `akey ls` prints.
pub fn ls_lines_of(l: &Listing) -> (r: Vec<String>)
    ensures
        r.deep_view() == ls_lines(l@),
{
    let ghost lv = l@;
    let mut out: Vec<String> = Vec::new();
    let mut i: usize = 0;
    while i < l.keys.len()
        invariant
            lv == l@,
            i <= l.keys@.len(),
            out.deep_view() =~= lv.keys.take(i as int).map_values(|k: Seq<char>| key_line(k, lv.default)),
        decreases l.keys@.len() - i,
    {
        let k = &l.keys[i];
        let e = crate::store::key_entry_of(k.as_str());
        let mark = if is_default_entry(&l.default, &e) { "*" } else { " " };
        let line = joined3(mark, " key  ", k.as_str());
        assert(lv.keys[i as int] == k@);
        assert(line@ == key_line(k@, lv.default));
        let ghost before = out.deep_view();
        out.push(line);
        assert(out.deep_view() =~= before.push(key_line(k@, lv.default)));
        assert(lv.keys.take(i + 1) =~= lv.keys.take(i as int).push(k@));
        i = i + 1;
    }
    assert(lv.keys.take(lv.keys.len() as int) =~= lv.keys);
    let ghost keys_part = out.deep_view();
    let mut j: usize = 0;
    while j < l.wifs.len()
        invariant
            lv == l@,
            j <= l.wifs@.len(),
            keys_part == lv.keys.map_values(|k: Seq<char>| key_line(k, lv.default)),
            out.deep_view() =~= keys_part + lv.wifs.take(j as int).map_values(
                |w: Seq<char>| wif_line(w, lv.default),
            ),
        decreases l.wifs@.len() - j,
    {
        let w = &l.wifs[j];
        let e = crate::store::wif_entry_of(w.as_str());
        let mark = if is_default_entry(&l.default, &e) { "*" } else { " " };
        let line = joined3(mark, " wif  ", w.as_str());
        assert(lv.wifs[j as int] == w@);
        assert(line@ == wif_line(w@, lv.default));
        let ghost before = out.deep_view();
        out.push(line);
        assert(out.deep_view() =~= before.push(wif_line(w@, lv.default)));
        assert(lv.wifs.take(j + 1) =~= lv.wifs.take(j as int).push(w@));
        j = j + 1;
    }
    assert(lv.wifs.take(lv.wifs.len() as int) =~= lv.wifs);
    out
}

/// The vault holds neither keys nor profiles.
pub fn ls_is_empty(l: &Listing) -> (r: bool)
    ensures
        r == (l@.keys.len() == 0 && l@.wifs.len() == 0),
{
    l.keys.len() == 0 && l.wifs.len() == 0
}

// ---------------------------------------------------------------------------
// `run`

/// Some pair sets `ANTHROPIC_API_KEY`.
pub open spec fn sets_api_key(pairs: Seq<(Seq<char>, Seq<char>)>) -> bool {
    exists|i: int| 0 <= i < pairs.len() && #[trigger] pairs[i].0 == API_KEY_VAR@
}

/// The variables to remove from the child's environment before the pairs
/// are set: a federation profile never sets `ANTHROPIC_API_KEY`, and a
/// leftover static key would shadow the federation variables, so the
/// static-key variables are cleared whenever the pairs do not set the key.
pub open spec fn cleared_vars(pairs: Seq<(Seq<char>, Seq<char>)>) -> Seq<Seq<char>> {
    if sets_api_key(pairs) {
        Seq::empty()
    } else {
        seq![API_KEY_VAR@, "ANTHROPIC_AUTH_TOKEN"@]
    }
}

/// The variables `run` removes from the child's environment.
pub fn vars_to_clear(pairs: &Vec<(String, String)>) -> (r: Vec<String>)
    ensures
        r.deep_view() == cleared_vars(pairs.deep_view()),
{
    let ghost d = pairs.deep_view();
    let mut i: usize = 0;
    while i < pairs.len()
        invariant
            d == pairs.deep_view(),
            i <= pairs@.len(),
            forall|j: int| 0 <= j < i ==> d[j].0 != API_KEY_VAR@,
        decreases pairs@.len() - i,
    {
        if same_text(pairs[i].0.as_str(), API_KEY_VAR) {
            assert(d[i as int].0 == API_KEY_VAR@);
            let r: Vec<String> = Vec::new();
            assert(r.deep_view() =~= Seq::<Seq<char>>::empty());
            return r;
        }
        i = i + 1;
    }
    let mut r: Vec<String> = Vec::new();
    r.push(String::from_str(API_KEY_VAR));
    r.push(String::from_str("ANTHROPIC_AUTH_TOKEN"));
    assert(r.deep_view() =~= seq![API_KEY_VAR@, "ANTHROPIC_AUTH_TOKEN"@]);
    r
}

/// The exit status `run` passes on: the child's own code, kept within
/// 0..=255, or 1 when the child has none (killed by a signal).
pub open spec fn forwarded_status(code: Option<i32>) -> u8 {
    match code {
        Some(c) => if c < 0 {
            0
        } else if c > 255 {
            255
        } else {
            c as u8
        },
        None => 1,
    }
}

pub fn exit_status(code: Option<i32>) -> (r: u8)
    ensures
        r == forwarded_status(code),
{
    match code {
        Some(c) => if c < 0 {
            0
        } else if c > 255 {
            255
        } else {
            c as u8
        },
        None => 1,
    }
}

// ---------------------------------------------------------------------------
// Messages.

/// What `set` reports, and whether it succeeded.
pub open spec fn set_message(name: Seq<char>, outcome: KeyStored) -> (Seq<char>, bool) {
    match outcome {
        KeyStored::Empty => ("akey: empty input; nothing stored"@, false),
        KeyStored::Stored => ("stored "@ + debug_quoted(name) + " in the OS vault"@, true),
        KeyStored::StoredAsDefault => (
            "stored "@ + debug_quoted(name) + " in the OS vault (and made it the default)"@,
            true,
        ),
    }
}

pub fn set_report(name: &str, outcome: KeyStored) -> (r: (String, bool))
    ensures
        (r.0@, r.1) == set_message(name@, outcome),
{
    match outcome {
        KeyStored::Empty => (String::from_str("akey: empty input; nothing stored"), false),
        KeyStored::Stored => {
            let q = quoted(name);
            (joined3("stored ", q.as_str(), " in the OS vault"), true)
        },
        KeyStored::StoredAsDefault => {
            let q = quoted(name);
            (joined3("stored ", q.as_str(), " in the OS vault (and made it the default)"), true)
        },
    }
}

/// What `rm` reports, and whether it succeeded.
pub open spec fn rm_message(name: Seq<char>, removed: bool) -> (Seq<char>, bool) {
    if removed {
        ("removed "@ + debug_quoted(name), true)
    } else {
        ("akey: nothing named "@ + debug_quoted(name), false)
    }
}

pub fn rm_report(name: &str, removed: bool) -> (r: (String, bool))
    ensures
        (r.0@, r.1) == rm_message(name@, removed),
{
    let q = quoted(name);
    if removed {
        (joined2("removed ", q.as_str()), true)
    } else {
        (joined2("akey: nothing named ", q.as_str()), false)
    }
}

/// What `use` reports.
pub open spec fn use_message(name: Seq<char>) -> Seq<char> {
    "default is now "@ + debug_quoted(name)
}

pub fn use_report(name: &str) -> (r: String)
    ensures
        r@ == use_message(name@),
{
    let q = quoted(name);
    joined2("default is now ", q.as_str())
}

/// What `wif set` reports.
pub open spec fn wif_set_message(name: Seq<char>) -> Seq<char> {
    "stored WIF profile "@ + debug_quoted(name) + " (inject with: akey run wif:"@ + name + " -- <cmd>)"@
}

pub fn wif_set_report(name: &str) -> (r: String)
    ensures
        r@ == wif_set_message(name@),
{
    let q = quoted(name);
    let mut s = joined3("stored WIF profile ", q.as_str(), " (inject with: akey run wif:");
    s.append(name);
    s.append(" -- <cmd>)");
    s
}

/// What `helper` reports when there is no default key.
pub const NO_DEFAULT_MESSAGE: &'static str = "akey: no default key set (akey set <name>, akey use <name>)";

/// What `ls` reports on an empty vault.
pub const EMPTY_VAULT_MESSAGE: &'static str = "(vault is empty; `akey set <name>` stores a key)";

/// What `run` reports for a target that goes by no key or profile.
pub open spec fn run_missing_message(target: Seq<char>) -> Seq<char> {
    "akey: no key or WIF profile named "@ + debug_quoted(target)
}

pub fn run_missing_report(target: &str) -> (r: String)
    ensures
        r@ == run_missing_message(target@),
{
    let q = quoted(target);
    joined2("akey: no key or WIF profile named ", q.as_str())
}


/// What `helper` writes for what it found: the secret and a newline for
/// stdout (the `apiKeyHelper` contract), or, with no secret, the note that
/// no default key is set.
pub open spec fn helper_lines(found: Option<Seq<u8>>) -> Result<Seq<u8>, Seq<char>> {
    match found {
        Some(secret) => Ok(secret.push(10u8)),
        None => Err(NO_DEFAULT_MESSAGE@),
    }
}

pub fn helper_output(found: Option<Vec<u8>>) -> (r: Result<Vec<u8>, String>)
    ensures
        match (r, helper_lines(crate::vault::bytes_view(found))) {
            (Ok(out), Ok(want)) => out@ == want,
            (Err(msg), Err(want)) => msg@ == want,
            _ => false,
        },
{
    match found {
        Some(secret) => {
            let mut out = secret;
            out.push(10u8);
            Ok(out)
        },
        None => Err(String::from_str(NO_DEFAULT_MESSAGE)),
    }
}

/// How `run` reports a failed lookup: a target that goes by nothing is
/// reported as such (and `run` fails); any other error is passed on.
pub open spec fn run_failure_message(e: StoreErrorView) -> Option<Seq<char>> {
    match e {
        StoreErrorView::NotFound { target } => Some(run_missing_message(target)),
        _ => None,
    }
}

pub fn run_failure(e: &StoreError) -> (r: Option<String>)
    ensures
        opt_view(r) == run_failure_message(e@),
{
    match e {
        StoreError::NotFound { target } => Some(run_missing_report(target.as_str())),
        _ => None,
    }
}

// ---------------------------------------------------------------------------
// Laws.

/// `run` with a profile sets only federation variables and clears the
/// static-key variables, so a leftover key cannot shadow the profile; `run`
/// with a key sets `ANTHROPIC_API_KEY` and clears nothing.
pub proof fn law_run_environment(target: Seq<char>, found: ResolvedView)
    ensures
        match (found, resolved_env(target, Some(found))) {
            (ResolvedView::Wif(_), Ok(pairs)) => !sets_api_key(pairs) && cleared_vars(pairs) == seq![
                API_KEY_VAR@,
                "ANTHROPIC_AUTH_TOKEN"@,
            ],
            (ResolvedView::Key(_), Ok(pairs)) => sets_api_key(pairs) && cleared_vars(pairs) == Seq::<
                Seq<char>,
            >::empty(),
            _ => false,
        },
{
    match found {
        ResolvedView::Wif(p) => {
            let e = profile_env(p);
            reveal_strlit("ANTHROPIC_API_KEY");
            reveal_strlit("ANTHROPIC_FEDERATION_RULE_ID");
            reveal_strlit("ANTHROPIC_IDENTITY_TOKEN_FILE");
            reveal_strlit("ANTHROPIC_ORGANIZATION_ID");
            reveal_strlit("ANTHROPIC_SERVICE_ACCOUNT_ID");
            reveal_strlit("ANTHROPIC_WORKSPACE_ID");
            assert forall|i: int| 0 <= i < e.len() implies #[trigger] e[i].0 != API_KEY_VAR@ by {
                assert(e[i].0.len() != API_KEY_VAR@.len() || e[i].0[10] != API_KEY_VAR@[10]);
            }
        },
        ResolvedView::Key(b) => {
            let e = resolved_env(target, Some(found))->Ok_0;
            assert(e[0].0 == API_KEY_VAR@);
        },
    }
}


/// `ls` prints one line per key, then one per profile, in the listing's
/// order; a line is marked `*` exactly when the default is that line's
/// entry (`key.<name>` for a key, `wif.<name>` for a profile).
pub proof fn law_ls_marks_the_default(l: ListingView)
    ensures
        ls_lines(l).len() == l.keys.len() + l.wifs.len(),
        forall|i: int|
            0 <= i < l.keys.len() ==> #[trigger] ls_lines(l)[i] == (if l.default == Some("key."@ + l.keys[i]) {
                "*"@
            } else {
                " "@
            }) + " key  "@ + l.keys[i],
        forall|j: int|
            0 <= j < l.wifs.len() ==> #[trigger] ls_lines(l)[l.keys.len() + j] == (if l.default == Some(
                "wif."@ + l.wifs[j],
            ) {
                "*"@
            } else {
                " "@
            }) + " wif  "@ + l.wifs[j],
{
}


/// `run` exits with the child's own status when it fits in 0..=255, the
/// nearest end of that range when it does not, and 1 when the child left
/// no status.
pub proof fn law_exit_status(c: i32)
    ensures
        0 <= c <= 255 ==> forwarded_status(Some(c)) as int == c,
        c < 0 ==> forwarded_status(Some(c)) == 0,
        c > 255 ==> forwarded_status(Some(c)) == 255,
        forwarded_status(None) == 1,
{
}

/// `run` clears `ANTHROPIC_API_KEY` and `ANTHROPIC_AUTH_TOKEN` from the
/// child exactly when the injected pairs do not set `ANTHROPIC_API_KEY`,
/// and clears nothing else.
pub proof fn law_cleared_vars(pairs: Seq<(Seq<char>, Seq<char>)>)
    ensures
        (forall|i: int| 0 <= i < pairs.len() ==> (#[trigger] pairs[i]).0 != "ANTHROPIC_API_KEY"@)
            ==> cleared_vars(pairs) == seq!["ANTHROPIC_API_KEY"@, "ANTHROPIC_AUTH_TOKEN"@],
        (exists|i: int| 0 <= i < pairs.len() && (#[trigger] pairs[i]).0 == "ANTHROPIC_API_KEY"@)
            ==> cleared_vars(pairs) == Seq::<Seq<char>>::empty(),
{
}

} // verus!
