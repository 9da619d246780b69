//! `akey status`: walk the SDKs' documented five-tier credential
//! precedence for a given environment and say which source wins and why.
//! Pure: takes the environment's variables and a vault listing, returns
//! report lines, so the whole diagnosis is testable.
//!
//! Documented order (first hit wins): constructor arguments (invisible to
//! us), `ANTHROPIC_API_KEY` / `ANTHROPIC_AUTH_TOKEN`, an explicit
//! `ANTHROPIC_PROFILE`, the federation environment variables, the implicit
//! active profile.

use vstd::prelude::*;

use crate::json_text::distinct_keys;
use crate::store::{opt_view, Listing, ListingView};
use crate::text::{debug_quoted, joined2, joined3, quoted, same_text};

verus! {

// ---------------------------------------------------------------------------
// Small text pieces: decimal numbers and joined lists.

/// The decimal digit `d < 10`.
pub open spec fn digit_char(d: nat) -> char {
    (48 + d) as char
}

/// `n` written in decimal.
pub open spec fn decimal_text(n: nat) -> Seq<char>
    decreases n,
{
    if n < 10 {
        seq![digit_char(n)]
    } else {
        decimal_text(n / 10) + seq![digit_char(n % 10)]
    }
}

fn digit(d: usize) -> (c: char)
    requires
        d < 10,
    ensures
        c == digit_char(d as nat),
{
    if d == 0 {
        '0'
    } else if d == 1 {
        '1'
    } else if d == 2 {
        '2'
    } else if d == 3 {
        '3'
    } else if d == 4 {
        '4'
    } else if d == 5 {
        '5'
    } else if d == 6 {
        '6'
    } else if d == 7 {
        '7'
    } else if d == 8 {
        '8'
    } else {
        '9'
    }
}

/// `n` written in decimal.
pub fn decimal(n: usize) -> (r: String)
    ensures
        r@ == decimal_text(n as nat),
    decreases n,
{
    let c = digit(n % 10);
    if n < 10 {
        let mut s = String::new();
        crate::text::push_char(&mut s, c);
        assert(s@ =~= seq![digit_char(n as nat)]);
        s
    } else {
        let mut s = decimal(n / 10);
        crate::text::push_char(&mut s, c);
        s
    }
}

/// The items separated by `sep`.
pub open spec fn joined_with(items: Seq<Seq<char>>, sep: Seq<char>) -> Seq<char>
    decreases items.len(),
{
    if items.len() == 0 {
        Seq::empty()
    } else if items.len() == 1 {
        items[0]
    } else {
        joined_with(items.drop_last(), sep) + sep + items.last()
    }
}

/// The items separated by `sep`.
pub fn join(items: &Vec<String>, sep: &str) -> (r: String)
    ensures
        r@ == joined_with(items.deep_view(), sep@),
{
    let ghost d = items.deep_view();
    let mut s = String::new();
    let mut i: usize = 0;
    while i < items.len()
        invariant
            d == items.deep_view(),
            i <= items@.len(),
            s@ == joined_with(d.take(i as int), sep@),
        decreases items@.len() - i,
    {
        assert(d.take(i + 1).drop_last() =~= d.take(i as int));
        assert(d.take(i + 1).last() == items@[i as int]@);
        if i > 0 {
            s.append(sep);
        } else {
            assert(d.take(1)[0] == d[0]);
        }
        s.append(items[i].as_str());
        i = i + 1;
    }
    assert(d.take(items@.len() as int) =~= d);
    s
}

// ---------------------------------------------------------------------------
// The environment.

/// The value of the variable `k`: that of its first occurrence.
pub open spec fn env_value(env: Seq<(Seq<char>, Seq<char>)>, k: Seq<char>) -> Option<Seq<char>>
    decreases env.len(),
{
    if env.len() == 0 {
        None
    } else if env[0].0 == k {
        Some(env[0].1)
    } else {
        env_value(env.drop_first(), k)
    }
}

/// The variable `k` is set to something non-empty.
pub open spec fn has_var(env: Seq<(Seq<char>, Seq<char>)>, k: Seq<char>) -> bool {
    env_value(env, k) matches Some(v) && v.len() > 0
}

fn lookup_env(env: &[(String, String)], k: &str) -> (r: Option<String>)
    ensures
        opt_view(r) == env_value(env.deep_view(), k@),
{
    let ghost d = env.deep_view();
    assert(d.skip(0) =~= d);
    let mut i: usize = 0;
    while i < env.len()
        invariant
            d == env.deep_view(),
            i <= env@.len(),
            env_value(d, k@) == env_value(d.skip(i as int), k@),
        decreases env@.len() - i,
    {
        assert(d.skip(i as int)[0] == d[i as int]);
        assert(d.skip(i as int).drop_first() =~= d.skip(i + 1));
        if same_text(env[i].0.as_str(), k) {
            return Some(env[i].1.clone());
        }
        i = i + 1;
    }
    None
}

fn has(env: &[(String, String)], k: &str) -> (r: bool)
    ensures
        r == has_var(env.deep_view(), k@),
{
    match lookup_env(env, k) {
        Some(v) => v.as_str().unicode_len() > 0,
        None => false,
    }
}

/// `seq![k]` when `k` is not set, nothing when it is.
pub open spec fn if_unset(env: Seq<(Seq<char>, Seq<char>)>, k: Seq<char>) -> Seq<Seq<char>> {
    if has_var(env, k) {
        Seq::empty()
    } else {
        seq![k]
    }
}

/// The four required federation variables (the workspace is optional)
/// that are not set, in documented order.
pub open spec fn missing_federation_vars(env: Seq<(Seq<char>, Seq<char>)>) -> Seq<Seq<char>> {
    if_unset(env, "ANTHROPIC_FEDERATION_RULE_ID"@) + if_unset(env, "ANTHROPIC_ORGANIZATION_ID"@)
        + if_unset(env, "ANTHROPIC_SERVICE_ACCOUNT_ID"@) + if_unset(env, "ANTHROPIC_IDENTITY_TOKEN_FILE"@)
}

/// Some federation variable, the workspace included, is set.
pub open spec fn federation_present(env: Seq<(Seq<char>, Seq<char>)>) -> bool {
    ||| has_var(env, "ANTHROPIC_FEDERATION_RULE_ID"@)
    ||| has_var(env, "ANTHROPIC_ORGANIZATION_ID"@)
    ||| has_var(env, "ANTHROPIC_SERVICE_ACCOUNT_ID"@)
    ||| has_var(env, "ANTHROPIC_WORKSPACE_ID"@)
    ||| has_var(env, "ANTHROPIC_IDENTITY_TOKEN_FILE"@)
}

/// All required federation variables are set.
pub open spec fn federation_complete(env: Seq<(Seq<char>, Seq<char>)>) -> bool {
    missing_federation_vars(env).len() == 0
}

// ---------------------------------------------------------------------------
// The tiers.

/// A tier that can win.
pub enum Tier {
    EnvKey,
    Profile,
    Federation,
}

pub open spec fn env_key_hit(env: Seq<(Seq<char>, Seq<char>)>) -> bool {
    has_var(env, "ANTHROPIC_API_KEY"@) || has_var(env, "ANTHROPIC_AUTH_TOKEN"@)
}

pub open spec fn profile_hit(env: Seq<(Seq<char>, Seq<char>)>) -> bool {
    has_var(env, "ANTHROPIC_PROFILE"@)
}

/// The first tier that holds a credential, if any.
pub open spec fn winner(env: Seq<(Seq<char>, Seq<char>)>) -> Option<Tier> {
    if env_key_hit(env) {
        Some(Tier::EnvKey)
    } else if profile_hit(env) {
        Some(Tier::Profile)
    } else if federation_complete(env) {
        Some(Tier::Federation)
    } else {
        None
    }
}

/// The mark of a tier: `>>` for the winner, ` +` for a later hit, blank
/// otherwise.
pub open spec fn tier_mark(hit: bool, wins: bool) -> Seq<char> {
    if wins {
        ">>"@
    } else if hit {
        " +"@
    } else {
        "  "@
    }
}

pub open spec fn tier_line(mark: Seq<char>, text: Seq<char>) -> Seq<char> {
    " "@ + mark + " "@ + text
}

pub open spec fn set_or_unset(b: bool) -> Seq<char> {
    if b {
        "set"@
    } else {
        "unset"@
    }
}

pub open spec fn tier1_text() -> Seq<char> {
    "1. constructor arguments (only visible inside an application)"@
}

pub open spec fn tier2_text(env: Seq<(Seq<char>, Seq<char>)>) -> Seq<char> {
    "2. ANTHROPIC_API_KEY "@ + set_or_unset(has_var(env, "ANTHROPIC_API_KEY"@)) + " / ANTHROPIC_AUTH_TOKEN "@
        + set_or_unset(has_var(env, "ANTHROPIC_AUTH_TOKEN"@))
}

pub open spec fn tier3_text(env: Seq<(Seq<char>, Seq<char>)>) -> Seq<char> {
    "3. ANTHROPIC_PROFILE "@ + match env_value(env, "ANTHROPIC_PROFILE"@) {
        Some(v) => "= "@ + debug_quoted(v),
        None => "unset"@,
    }
}

pub open spec fn tier4_text(env: Seq<(Seq<char>, Seq<char>)>) -> Seq<char> {
    "4. federation env ("@ + decimal_text((4 - missing_federation_vars(env).len()) as nat) + "/4 required vars set)"@
}

pub open spec fn tier5_text() -> Seq<char> {
    "5. implicit active profile (if a profile file exists)"@
}

/// The five tier lines, the winner marked.
pub open spec fn tier_lines(env: Seq<(Seq<char>, Seq<char>)>) -> Seq<Seq<char>> {
    let w = winner(env);
    seq![
        tier_line(tier_mark(false, false), tier1_text()),
        tier_line(tier_mark(env_key_hit(env), w == Some(Tier::EnvKey)), tier2_text(env)),
        tier_line(tier_mark(profile_hit(env), w == Some(Tier::Profile)), tier3_text(env)),
        tier_line(tier_mark(federation_complete(env), w == Some(Tier::Federation)), tier4_text(env)),
        tier_line(tier_mark(false, false), tier5_text()),
    ]
}

pub open spec fn footgun_lines() -> Seq<Seq<char>> {
    seq![
        ""@,
        "!! ANTHROPIC_API_KEY is set AND federation variables are present:"@,
        "   the static key silently shadows federation (documented footgun)."@,
        "   unset ANTHROPIC_API_KEY to let federation win."@,
    ]
}

pub open spec fn partial_lines(env: Seq<(Seq<char>, Seq<char>)>) -> Seq<Seq<char>> {
    seq![
        ""@,
        "!! federation is partially configured, missing: "@ + joined_with(missing_federation_vars(env), ", "@),
    ]
}

pub open spec fn no_credentials_lines() -> Seq<Seq<char>> {
    seq![
        ""@,
        "no credentials in this environment."@,
        "   (the CLI's own OAuth login is separate and still applies to the CLI.)"@,
    ]
}

/// The warnings that follow the tiers: the static key shadowing
/// federation when the key variable wins while federation variables are
/// present; a partial federation setup when neither the key variables nor
/// a complete federation wins; and, when nothing wins, that there are no
/// credentials.
pub open spec fn warning_lines(env: Seq<(Seq<char>, Seq<char>)>) -> Seq<Seq<char>> {
    let w = winner(env);
    let first = if w == Some(Tier::EnvKey) {
        if has_var(env, "ANTHROPIC_API_KEY"@) && federation_present(env) {
            footgun_lines()
        } else {
            Seq::empty()
        }
    } else if w == Some(Tier::Federation) {
        Seq::empty()
    } else if federation_present(env) && !federation_complete(env) {
        partial_lines(env)
    } else {
        Seq::empty()
    };
    if w is None {
        first + no_credentials_lines()
    } else {
        first
    }
}

pub open spec fn vault_lines(vault: Option<ListingView>) -> Seq<Seq<char>> {
    match vault {
        Some(l) => seq![
            "vault: "@ + decimal_text(l.keys.len()) + " key(s) ["@ + joined_with(l.keys, ", "@) + "], "@
                + decimal_text(l.wifs.len()) + " WIF profile(s) ["@ + joined_with(l.wifs, ", "@)
                + "], default = "@ + match l.default {
                Some(d) => d,
                None => "none"@,
            },
            "   inject one with: akey run <name> -- <cmd>"@,
        ],
        None => seq!["vault: listing not supported on this platform"@],
    }
}

/// The whole report.
pub open spec fn report_lines(env: Seq<(Seq<char>, Seq<char>)>, vault: Option<ListingView>) -> Seq<Seq<char>> {
    seq!["credential precedence in this environment (first hit wins):"@] + tier_lines(env)
        + warning_lines(env) + seq![""@] + vault_lines(vault)
}

pub open spec fn listing_opt_view(vault: Option<&Listing>) -> Option<ListingView> {
    match vault {
        Some(l) => Some(l@),
        None => None,
    }
}


// ---------------------------------------------------------------------------
// Building the report.

fn push_line(out: &mut Vec<String>, line: String)
    ensures
        final(out).deep_view() == old(out).deep_view().push(line@),
{
    out.push(line);
    assert(out.deep_view() =~= old(out).deep_view().push(line@));
}

fn mark_of(hit: bool, wins: bool) -> (r: &'static str)
    ensures
        r@ == tier_mark(hit, wins),
{
    if wins {
        ">>"
    } else if hit {
        " +"
    } else {
        "  "
    }
}

fn tier(hit: bool, wins: bool, text: &str) -> (r: String)
    ensures
        r@ == tier_line(tier_mark(hit, wins), text@),
{
    let mut s = String::from_str(" ");
    s.append(mark_of(hit, wins));
    s.append(" ");
    s.append(text);
    s
}

fn set_word(b: bool) -> (r: &'static str)
    ensures
        r@ == set_or_unset(b),
{
    if b {
        "set"
    } else {
        "unset"
    }
}

fn push_if_unset(env: &[(String, String)], missing: &mut Vec<String>, k: &str)
    ensures
        final(missing).deep_view() == old(missing).deep_view() + if_unset(env.deep_view(), k@),
{
    if has(env, k) {
        assert(missing.deep_view() =~= old(missing).deep_view() + if_unset(env.deep_view(), k@));
    } else {
        missing.push(String::from_str(k));
        assert(missing.deep_view() =~= old(missing).deep_view() + if_unset(env.deep_view(), k@));
    }
}

fn vault_summary(l: &Listing) -> (r: String)
    ensures
        r@ == vault_lines(Some(l@))[0],
{
    let mut s = String::from_str("vault: ");
    s.append(decimal(l.keys.len()).as_str());
    s.append(" key(s) [");
    s.append(join(&l.keys, ", ").as_str());
    s.append("], ");
    s.append(decimal(l.wifs.len()).as_str());
    s.append(" WIF profile(s) [");
    s.append(join(&l.wifs, ", ").as_str());
    s.append("], default = ");
    match &l.default {
        Some(d) => s.append(d.as_str()),
        None => s.append("none"),
    }
    s
}

/// The tier lines, given what the environment holds.
fn tiers(
    env: &[(String, String)],
    api_key: bool,
    auth_token: bool,
    profile: bool,
    missing: &Vec<String>,
) -> (r: Vec<String>)
    requires
        api_key == has_var(env.deep_view(), "ANTHROPIC_API_KEY"@),
        auth_token == has_var(env.deep_view(), "ANTHROPIC_AUTH_TOKEN"@),
        profile == has_var(env.deep_view(), "ANTHROPIC_PROFILE"@),
        missing.deep_view() == missing_federation_vars(env.deep_view()),
    ensures
        r.deep_view() == tier_lines(env.deep_view()),
{
    let ghost e = env.deep_view();
    assert(if_unset(e, "ANTHROPIC_FEDERATION_RULE_ID"@).len() <= 1);
    assert(if_unset(e, "ANTHROPIC_ORGANIZATION_ID"@).len() <= 1);
    assert(if_unset(e, "ANTHROPIC_SERVICE_ACCOUNT_ID"@).len() <= 1);
    assert(if_unset(e, "ANTHROPIC_IDENTITY_TOKEN_FILE"@).len() <= 1);
    assert(missing.deep_view().len() == missing@.len());
    assert(missing@.len() <= 4);
    let fed_complete = missing.len() == 0;
    let key_hit = api_key || auth_token;
    let mut out: Vec<String> = Vec::new();
    push_line(&mut out, tier(false, false, "1. constructor arguments (only visible inside an application)"));
    let mut t2 = String::from_str("2. ANTHROPIC_API_KEY ");
    t2.append(set_word(api_key));
    t2.append(" / ANTHROPIC_AUTH_TOKEN ");
    t2.append(set_word(auth_token));
    push_line(&mut out, tier(key_hit, key_hit, t2.as_str()));
    let t3 = match lookup_env(env, "ANTHROPIC_PROFILE") {
        Some(v) => {
            let q = quoted(v.as_str());
            joined3("3. ANTHROPIC_PROFILE ", "= ", q.as_str())
        },
        None => joined2("3. ANTHROPIC_PROFILE ", "unset"),
    };
    assert(t3@ =~= tier3_text(e));
    push_line(&mut out, tier(profile, !key_hit && profile, t3.as_str()));
    let present = decimal(4 - missing.len());
    let t4 = joined3("4. federation env (", present.as_str(), "/4 required vars set)");
    assert(t4@ =~= tier4_text(e));
    push_line(&mut out, tier(fed_complete, !key_hit && !profile && fed_complete, t4.as_str()));
    push_line(&mut out, tier(false, false, "5. implicit active profile (if a profile file exists)"));
    assert(out.deep_view() =~= tier_lines(e));
    out
}

/// The warning lines, given what the environment holds.
fn warnings(
    env: &[(String, String)],
    api_key: bool,
    key_hit: bool,
    profile: bool,
    fed_present: bool,
    missing: &Vec<String>,
) -> (r: Vec<String>)
    requires
        api_key == has_var(env.deep_view(), "ANTHROPIC_API_KEY"@),
        key_hit == env_key_hit(env.deep_view()),
        profile == has_var(env.deep_view(), "ANTHROPIC_PROFILE"@),
        fed_present == federation_present(env.deep_view()),
        missing.deep_view() == missing_federation_vars(env.deep_view()),
    ensures
        r.deep_view() == warning_lines(env.deep_view()),
{
    let ghost e = env.deep_view();
    let fed_complete = missing.len() == 0;
    let mut out: Vec<String> = Vec::new();
    if key_hit {
        if api_key && fed_present {
            push_line(&mut out, String::from_str(""));
            push_line(&mut out, String::from_str("!! ANTHROPIC_API_KEY is set AND federation variables are present:"));
            push_line(&mut out, String::from_str("   the static key silently shadows federation (documented footgun)."));
            push_line(&mut out, String::from_str("   unset ANTHROPIC_API_KEY to let federation win."));
            assert(out.deep_view() =~= footgun_lines());
        } else {
            assert(out.deep_view() =~= Seq::<Seq<char>>::empty());
        }
    } else if !profile && fed_complete {
        assert(out.deep_view() =~= Seq::<Seq<char>>::empty());
    } else {
        if fed_present && !fed_complete {
            push_line(&mut out, String::from_str(""));
            let m = join(missing, ", ");
            push_line(&mut out, joined2("!! federation is partially configured, missing: ", m.as_str()));
            assert(out.deep_view() =~= partial_lines(e));
        } else {
            assert(out.deep_view() =~= Seq::<Seq<char>>::empty());
        }
    }
    let ghost first = out.deep_view();
    if !key_hit && !profile && !fed_complete {
        push_line(&mut out, String::from_str(""));
        push_line(&mut out, String::from_str("no credentials in this environment."));
        push_line(&mut out, String::from_str("   (the CLI's own OAuth login is separate and still applies to the CLI.)"));
        assert(out.deep_view() =~= first + no_credentials_lines());
    }
    out
}

/// The vault lines.
fn vault_block(vault: Option<&Listing>) -> (r: Vec<String>)
    ensures
        r.deep_view() == vault_lines(listing_opt_view(vault)),
{
    let mut out: Vec<String> = Vec::new();
    match vault {
        Some(l) => {
            push_line(&mut out, vault_summary(l));
            push_line(&mut out, String::from_str("   inject one with: akey run <name> -- <cmd>"));
        },
        None => {
            push_line(&mut out, String::from_str("vault: listing not supported on this platform"));
        },
    }
    assert(out.deep_view() =~= vault_lines(listing_opt_view(vault)));
    out
}

fn append_lines(out: &mut Vec<String>, more: Vec<String>)
    ensures
        final(out).deep_view() == old(out).deep_view() + more.deep_view(),
{
    let ghost start = out.deep_view();
    let mut i: usize = 0;
    while i < more.len()
        invariant
            i <= more@.len(),
            out.deep_view() == start + more.deep_view().take(i as int),
        decreases more@.len() - i,
    {
        push_line(out, more[i].clone());
        assert(more.deep_view().take(i + 1) =~= more.deep_view().take(i as int).push(more@[i as int]@));
        i = i + 1;
    }
    assert(more.deep_view().take(more@.len() as int) =~= more.deep_view());
}

/// The report for an environment (its variables as name/value pairs, no
/// name twice) and, where the platform can list the vault, its listing.
pub fn report(env: &[(String, String)], vault: Option<&Listing>) -> (r: Vec<String>)
    requires
        distinct_keys(env.deep_view()),
    ensures
        r.deep_view() == report_lines(env.deep_view(), listing_opt_view(vault)),
{
    let ghost e = env.deep_view();
    let api_key = has(env, "ANTHROPIC_API_KEY");
    let auth_token = has(env, "ANTHROPIC_AUTH_TOKEN");
    let profile = has(env, "ANTHROPIC_PROFILE");
    let fed_present = has(env, "ANTHROPIC_FEDERATION_RULE_ID") || has(env, "ANTHROPIC_ORGANIZATION_ID")
        || has(env, "ANTHROPIC_SERVICE_ACCOUNT_ID") || has(env, "ANTHROPIC_WORKSPACE_ID") || has(
        env,
        "ANTHROPIC_IDENTITY_TOKEN_FILE",
    );
    let mut missing: Vec<String> = Vec::new();
    push_if_unset(env, &mut missing, "ANTHROPIC_FEDERATION_RULE_ID");
    push_if_unset(env, &mut missing, "ANTHROPIC_ORGANIZATION_ID");
    push_if_unset(env, &mut missing, "ANTHROPIC_SERVICE_ACCOUNT_ID");
    push_if_unset(env, &mut missing, "ANTHROPIC_IDENTITY_TOKEN_FILE");
    assert(missing.deep_view() =~= missing_federation_vars(e));
    let key_hit = api_key || auth_token;

    let mut out: Vec<String> = Vec::new();
    push_line(&mut out, String::from_str("credential precedence in this environment (first hit wins):"));
    append_lines(&mut out, tiers(env, api_key, auth_token, profile, &missing));
    append_lines(&mut out, warnings(env, api_key, key_hit, profile, fed_present, &missing));
    push_line(&mut out, String::from_str(""));
    append_lines(&mut out, vault_block(vault));
    assert(out.deep_view() =~= report_lines(e, listing_opt_view(vault)));
    out
}


// ---------------------------------------------------------------------------
// Laws.

/// A report line that marks its tier as the winner.
pub open spec fn marked_as_winner(line: Seq<char>) -> bool {
    line.len() >= 3 && line.subrange(0, 3) == " >>"@
}

/// Exactly the winning tier is marked: tier 2 when a key variable is set,
/// else tier 3 when a profile is named, else tier 4 when federation is
/// complete; tiers 1 and 5 never; no tier when nothing wins.
pub proof fn law_winner_marked(env: Seq<(Seq<char>, Seq<char>)>)
    ensures
        !marked_as_winner(tier_lines(env)[0]),
        marked_as_winner(tier_lines(env)[1]) <==> winner(env) == Some(Tier::EnvKey),
        marked_as_winner(tier_lines(env)[2]) <==> winner(env) == Some(Tier::Profile),
        marked_as_winner(tier_lines(env)[3]) <==> winner(env) == Some(Tier::Federation),
        !marked_as_winner(tier_lines(env)[4]),
{
    reveal_strlit(" >>");
    reveal_strlit(">>");
    reveal_strlit(" +");
    reveal_strlit("  ");
    reveal_strlit(" ");
    let lines = tier_lines(env);
    assert forall|i: int| 0 <= i < 5 implies (marked_as_winner(#[trigger] lines[i]) <==> lines[i].subrange(0, 3)
        =~= " >>"@) by {}
    assert(lines[0].subrange(0, 3) =~= seq![' ', ' ', ' ']);
    assert(lines[4].subrange(0, 3) =~= seq![' ', ' ', ' ']);
    let w = winner(env);
    assert(lines[1].subrange(0, 3) =~= " "@ + tier_mark(env_key_hit(env), w == Some(Tier::EnvKey)));
    assert(lines[2].subrange(0, 3) =~= " "@ + tier_mark(profile_hit(env), w == Some(Tier::Profile)));
    assert(lines[3].subrange(0, 3) =~= " "@ + tier_mark(federation_complete(env), w == Some(Tier::Federation)));
    assert((" "@ + " +"@)[2] != (" >>"@)[2]);
    assert((" "@ + "  "@)[2] != (" >>"@)[2]);
    assert(" "@ + ">>"@ =~= " >>"@);
}

/// What the report warns about: a set `ANTHROPIC_API_KEY` next to any
/// federation variable is called out as shadowing federation (and nothing
/// else is said); a complete federation setup that wins draws no warning;
/// federation variables that are partly set, with no key variable and no
/// profile, are listed as missing and the environment is said to hold no
/// credentials; with nothing set at all, the report says so.
pub proof fn law_warnings(env: Seq<(Seq<char>, Seq<char>)>)
    ensures
        has_var(env, "ANTHROPIC_API_KEY"@) && federation_present(env) ==> warning_lines(env) == footgun_lines(),
        winner(env) == Some(Tier::Federation) ==> warning_lines(env) == Seq::<Seq<char>>::empty(),
        !env_key_hit(env) && !profile_hit(env) && federation_present(env) && !federation_complete(env)
            ==> warning_lines(env) == partial_lines(env) + no_credentials_lines(),
        winner(env) is None && !federation_present(env) ==> warning_lines(env) == no_credentials_lines(),
        winner(env) is None <==> !env_key_hit(env) && !profile_hit(env) && !federation_complete(env),
{
    assert(Seq::<Seq<char>>::empty() + no_credentials_lines() =~= no_credentials_lines());
}

/// The federation variables reported missing are exactly the required ones
/// that are not set; with all four set, federation is complete.
pub proof fn law_missing_vars(env: Seq<(Seq<char>, Seq<char>)>)
    ensures
        forall|i: int|
            0 <= i < missing_federation_vars(env).len() ==> !has_var(
                env,
                #[trigger] missing_federation_vars(env)[i],
            ),
        federation_complete(env) <==> (has_var(env, "ANTHROPIC_FEDERATION_RULE_ID"@) && has_var(
            env,
            "ANTHROPIC_ORGANIZATION_ID"@,
        ) && has_var(env, "ANTHROPIC_SERVICE_ACCOUNT_ID"@) && has_var(env, "ANTHROPIC_IDENTITY_TOKEN_FILE"@)),
{
    let a = if_unset(env, "ANTHROPIC_FEDERATION_RULE_ID"@);
    let b = if_unset(env, "ANTHROPIC_ORGANIZATION_ID"@);
    let c = if_unset(env, "ANTHROPIC_SERVICE_ACCOUNT_ID"@);
    let d = if_unset(env, "ANTHROPIC_IDENTITY_TOKEN_FILE"@);
    let m = missing_federation_vars(env);
    assert forall|i: int| 0 <= i < m.len() implies !has_var(env, #[trigger] m[i]) by {
        if i < a.len() {
            assert(m[i] == a[i]);
        } else if i < a.len() + b.len() {
            assert(m[i] == b[i - a.len()]);
        } else if i < a.len() + b.len() + c.len() {
            assert(m[i] == c[i - a.len() - b.len()]);
        } else {
            assert(m[i] == d[i - a.len() - b.len() - c.len()]);
        }
    }
}


/// The variables the report reads.
pub open spec fn reported_var(k: Seq<char>) -> bool {
    ||| k == "ANTHROPIC_API_KEY"@
    ||| k == "ANTHROPIC_AUTH_TOKEN"@
    ||| k == "ANTHROPIC_PROFILE"@
    ||| k == "ANTHROPIC_FEDERATION_RULE_ID"@
    ||| k == "ANTHROPIC_ORGANIZATION_ID"@
    ||| k == "ANTHROPIC_SERVICE_ACCOUNT_ID"@
    ||| k == "ANTHROPIC_WORKSPACE_ID"@
    ||| k == "ANTHROPIC_IDENTITY_TOKEN_FILE"@
}

/// Two environments set the same reported variables to something
/// non-empty.
pub open spec fn same_vars_set(e1: Seq<(Seq<char>, Seq<char>)>, e2: Seq<(Seq<char>, Seq<char>)>) -> bool {
    &&& has_var(e1, "ANTHROPIC_API_KEY"@) == has_var(e2, "ANTHROPIC_API_KEY"@)
    &&& has_var(e1, "ANTHROPIC_AUTH_TOKEN"@) == has_var(e2, "ANTHROPIC_AUTH_TOKEN"@)
    &&& has_var(e1, "ANTHROPIC_PROFILE"@) == has_var(e2, "ANTHROPIC_PROFILE"@)
    &&& has_var(e1, "ANTHROPIC_FEDERATION_RULE_ID"@) == has_var(e2, "ANTHROPIC_FEDERATION_RULE_ID"@)
    &&& has_var(e1, "ANTHROPIC_ORGANIZATION_ID"@) == has_var(e2, "ANTHROPIC_ORGANIZATION_ID"@)
    &&& has_var(e1, "ANTHROPIC_SERVICE_ACCOUNT_ID"@) == has_var(e2, "ANTHROPIC_SERVICE_ACCOUNT_ID"@)
    &&& has_var(e1, "ANTHROPIC_WORKSPACE_ID"@) == has_var(e2, "ANTHROPIC_WORKSPACE_ID"@)
    &&& has_var(e1, "ANTHROPIC_IDENTITY_TOKEN_FILE"@) == has_var(e2, "ANTHROPIC_IDENTITY_TOKEN_FILE"@)
}

/// Environments that set the same reported variables, each non-empty or
/// not alike, get the same marks, the same winner and the same warnings;
/// the tier lines differ at most in the third, which shows the value of
/// `ANTHROPIC_PROFILE`. An empty variable counts as unset throughout.
pub proof fn law_report_reads_set_vars(e1: Seq<(Seq<char>, Seq<char>)>, e2: Seq<(Seq<char>, Seq<char>)>)
    requires
        same_vars_set(e1, e2),
    ensures
        winner(e1) == winner(e2),
        warning_lines(e1) == warning_lines(e2),
        forall|i: int| 0 <= i < 5 && i != 2 ==> tier_lines(e1)[i] == tier_lines(e2)[i],
{
    assert(missing_federation_vars(e1) =~= missing_federation_vars(e2));
}

/// The report reads the environment only through the reported variables:
/// environments that agree on whether each is set non-empty, and on the
/// value of `ANTHROPIC_PROFILE`, get the same report. Other variables, and
/// the values of the key and federation variables, change nothing.
pub proof fn law_report_reads_only_reported_vars(
    e1: Seq<(Seq<char>, Seq<char>)>,
    e2: Seq<(Seq<char>, Seq<char>)>,
    vault: Option<ListingView>,
)
    requires
        same_vars_set(e1, e2),
        env_value(e1, "ANTHROPIC_PROFILE"@) == env_value(e2, "ANTHROPIC_PROFILE"@),
    ensures
        report_lines(e1, vault) == report_lines(e2, vault),
{
    law_report_reads_set_vars(e1, e2);
    assert(tier_lines(e1) =~= tier_lines(e2));
}

proof fn lemma_env_value_push(env: Seq<(Seq<char>, Seq<char>)>, k: Seq<char>, v: Seq<char>, n: Seq<char>)
    requires
        k != n,
    ensures
        env_value(env.push((k, v)), n) == env_value(env, n),
    decreases env.len(),
{
    let e2 = env.push((k, v));
    if env.len() > 0 {
        assert(e2[0] == env[0]);
        assert(e2.drop_first() =~= env.drop_first().push((k, v)));
        lemma_env_value_push(env.drop_first(), k, v, n);
        if env[0].0 != n {
            assert(env_value(e2, n) == env_value(e2.drop_first(), n));
            assert(env_value(env, n) == env_value(env.drop_first(), n));
        }
    } else {
        assert(e2[0] == (k, v));
        assert(e2.drop_first() =~= env);
        assert(env_value(e2, n) == env_value(e2.drop_first(), n));
    }
}

/// Adding a variable the report does not read leaves the report as it was.
pub proof fn law_other_vars_ignored(
    env: Seq<(Seq<char>, Seq<char>)>,
    k: Seq<char>,
    v: Seq<char>,
    vault: Option<ListingView>,
)
    requires
        !reported_var(k),
    ensures
        report_lines(env.push((k, v)), vault) == report_lines(env, vault),
{
    let e2 = env.push((k, v));
    lemma_env_value_push(env, k, v, "ANTHROPIC_API_KEY"@);
    lemma_env_value_push(env, k, v, "ANTHROPIC_AUTH_TOKEN"@);
    lemma_env_value_push(env, k, v, "ANTHROPIC_PROFILE"@);
    lemma_env_value_push(env, k, v, "ANTHROPIC_FEDERATION_RULE_ID"@);
    lemma_env_value_push(env, k, v, "ANTHROPIC_ORGANIZATION_ID"@);
    lemma_env_value_push(env, k, v, "ANTHROPIC_SERVICE_ACCOUNT_ID"@);
    lemma_env_value_push(env, k, v, "ANTHROPIC_WORKSPACE_ID"@);
    lemma_env_value_push(env, k, v, "ANTHROPIC_IDENTITY_TOKEN_FILE"@);
    law_report_reads_only_reported_vars(e2, env, vault);
}

/// A key or federation variable set to the empty string reads as unset:
/// adding it where it was absent leaves the report as it was.
pub proof fn law_empty_counts_as_unset(
    env: Seq<(Seq<char>, Seq<char>)>,
    k: Seq<char>,
    vault: Option<ListingView>,
)
    requires
        reported_var(k),
        k != "ANTHROPIC_PROFILE"@,
        env_value(env, k) is None,
    ensures
        report_lines(env.push((k, Seq::empty())), vault) == report_lines(env, vault),
{
    let e2 = env.push((k, Seq::<char>::empty()));
    assert forall|n: Seq<char>| #[trigger] has_var(e2, n) == has_var(env, n) by {
        if n != k {
            lemma_env_value_push(env, k, Seq::empty(), n);
        } else {
            lemma_env_value_absent_push(env, k, Seq::empty());
        }
    }
    lemma_env_value_push(env, k, Seq::empty(), "ANTHROPIC_PROFILE"@);
    law_report_reads_only_reported_vars(e2, env, vault);
}

proof fn lemma_env_value_absent_push(env: Seq<(Seq<char>, Seq<char>)>, k: Seq<char>, v: Seq<char>)
    requires
        env_value(env, k) is None,
    ensures
        env_value(env.push((k, v)), k) == Some(v),
    decreases env.len(),
{
    if env.len() > 0 {
        assert(env.push((k, v))[0] == env[0]);
        assert(env.push((k, v)).drop_first() =~= env.drop_first().push((k, v)));
        lemma_env_value_absent_push(env.drop_first(), k, v);
    } else {
        assert(env.push((k, v))[0] == (k, v));
    }
}


proof fn lemma_env_value_update(
    env: Seq<(Seq<char>, Seq<char>)>,
    i: int,
    k: Seq<char>,
    v: Seq<char>,
    n: Seq<char>,
)
    requires
        0 <= i < env.len(),
        env[i].0 != n,
        k != n,
    ensures
        env_value(env.update(i, (k, v)), n) == env_value(env, n),
    decreases env.len(),
{
    let e2 = env.update(i, (k, v));
    if i == 0 {
        assert(e2.drop_first() =~= env.drop_first());
    } else {
        assert(e2[0] == env[0]);
        assert(e2.drop_first() =~= env.drop_first().update(i - 1, (k, v)));
        lemma_env_value_update(env.drop_first(), i - 1, k, v, n);
    }
    assert(env_value(e2, n) == if e2[0].0 == n { Some(e2[0].1) } else { env_value(e2.drop_first(), n) });
}

/// Changing a variable the report does not read, name or value, into
/// another such variable leaves the report as it was.
pub proof fn law_other_var_changed(
    env: Seq<(Seq<char>, Seq<char>)>,
    i: int,
    k: Seq<char>,
    v: Seq<char>,
    vault: Option<ListingView>,
)
    requires
        0 <= i < env.len(),
        !reported_var(env[i].0),
        !reported_var(k),
    ensures
        report_lines(env.update(i, (k, v)), vault) == report_lines(env, vault),
{
    let e2 = env.update(i, (k, v));
    lemma_env_value_update(env, i, k, v, "ANTHROPIC_API_KEY"@);
    lemma_env_value_update(env, i, k, v, "ANTHROPIC_AUTH_TOKEN"@);
    lemma_env_value_update(env, i, k, v, "ANTHROPIC_PROFILE"@);
    lemma_env_value_update(env, i, k, v, "ANTHROPIC_FEDERATION_RULE_ID"@);
    lemma_env_value_update(env, i, k, v, "ANTHROPIC_ORGANIZATION_ID"@);
    lemma_env_value_update(env, i, k, v, "ANTHROPIC_SERVICE_ACCOUNT_ID"@);
    lemma_env_value_update(env, i, k, v, "ANTHROPIC_WORKSPACE_ID"@);
    lemma_env_value_update(env, i, k, v, "ANTHROPIC_IDENTITY_TOKEN_FILE"@);
    law_report_reads_only_reported_vars(e2, env, vault);
}

/// Changing the value of a key or federation variable, keeping it
/// non-empty, leaves the report as it was: the report never shows those
/// values.
pub proof fn law_secret_values_unseen(
    env: Seq<(Seq<char>, Seq<char>)>,
    i: int,
    v: Seq<char>,
    vault: Option<ListingView>,
)
    requires
        0 <= i < env.len(),
        reported_var(env[i].0),
        env[i].0 != "ANTHROPIC_PROFILE"@,
        env[i].1.len() > 0,
        v.len() > 0,
    ensures
        report_lines(env.update(i, (env[i].0, v)), vault) == report_lines(env, vault),
{
    let k = env[i].0;
    let e2 = env.update(i, (k, v));
    assert forall|n: Seq<char>| #[trigger] has_var(e2, n) == has_var(env, n) by {
        if n != k {
            lemma_env_value_update(env, i, k, v, n);
        } else {
            lemma_env_value_update_same(env, i, v);
        }
    }
    lemma_env_value_update(env, i, k, v, "ANTHROPIC_PROFILE"@);
    law_report_reads_only_reported_vars(e2, env, vault);
}

proof fn lemma_env_value_update_same(env: Seq<(Seq<char>, Seq<char>)>, i: int, v: Seq<char>)
    requires
        0 <= i < env.len(),
        env[i].1.len() > 0,
        v.len() > 0,
    ensures
        ({
            let k = env[i].0;
            let e2 = env.update(i, (k, v));
            &&& env_value(e2, k) is Some
            &&& env_value(env, k) is Some
            &&& (env_value(e2, k) matches Some(a) && a.len() > 0) == (env_value(env, k) matches Some(b)
                && b.len() > 0)
        }),
    decreases env.len(),
{
    let k = env[i].0;
    let e2 = env.update(i, (k, v));
    if env[0].0 == k {
        assert(e2[0].0 == k);
        if i == 0 {
        } else {
            assert(e2[0] == env[0]);
        }
    } else {
        assert(i != 0);
        assert(e2[0] == env[0]);
        assert(e2.drop_first() =~= env.drop_first().update(i - 1, (k, v)));
        assert(env.drop_first()[i - 1] == env[i]);
        lemma_env_value_update_same(env.drop_first(), i - 1, v);
    }
}

/// An `ANTHROPIC_PROFILE` set to the empty string reads as unset for the
/// marks, the winner and the warnings: only the third tier line, which
/// shows the value, differs from the report without it.
pub proof fn law_empty_profile_only_shown(env: Seq<(Seq<char>, Seq<char>)>)
    requires
        env_value(env, "ANTHROPIC_PROFILE"@) is None,
    ensures
        ({
            let e2 = env.push(("ANTHROPIC_PROFILE"@, Seq::empty()));
            &&& winner(e2) == winner(env)
            &&& warning_lines(e2) == warning_lines(env)
            &&& forall|i: int| 0 <= i < 5 && i != 2 ==> tier_lines(e2)[i] == tier_lines(env)[i]
        }),
{
    let k = "ANTHROPIC_PROFILE"@;
    let e2 = env.push((k, Seq::<char>::empty()));
    assert forall|n: Seq<char>| #[trigger] has_var(e2, n) == has_var(env, n) by {
        if n != k {
            lemma_env_value_push(env, k, Seq::empty(), n);
        } else {
            lemma_env_value_absent_push(env, k, Seq::empty());
        }
    }
    law_report_reads_set_vars(e2, env);
}


/// The federation variables that must all be set for federation to hold.
pub open spec fn all_federation_set(env: Seq<(Seq<char>, Seq<char>)>) -> bool {
    &&& has_var(env, "ANTHROPIC_FEDERATION_RULE_ID"@)
    &&& has_var(env, "ANTHROPIC_ORGANIZATION_ID"@)
    &&& has_var(env, "ANTHROPIC_SERVICE_ACCOUNT_ID"@)
    &&& has_var(env, "ANTHROPIC_IDENTITY_TOKEN_FILE"@)
}

/// The documented precedence, first hit wins: a key variable (tier 2),
/// then `ANTHROPIC_PROFILE` (tier 3), then complete federation (tier 4).
/// In the report, whose lines after the heading are the five tiers, the
/// winner alone is marked `>>`, and tiers 1 and 5 never are.
pub proof fn law_precedence(env: Seq<(Seq<char>, Seq<char>)>, vault: Option<ListingView>)
    ensures
        ({
            let r = report_lines(env, vault);
            let key = has_var(env, "ANTHROPIC_API_KEY"@) || has_var(env, "ANTHROPIC_AUTH_TOKEN"@);
            let profile = has_var(env, "ANTHROPIC_PROFILE"@);
            let fed = all_federation_set(env);
            &&& !marked_as_winner(r[1]) && !marked_as_winner(r[5])
            &&& key ==> marked_as_winner(r[2]) && !marked_as_winner(r[3]) && !marked_as_winner(r[4])
            &&& !key && profile ==> !marked_as_winner(r[2]) && marked_as_winner(r[3]) && !marked_as_winner(r[4])
            &&& !key && !profile && fed ==> !marked_as_winner(r[2]) && !marked_as_winner(r[3])
                && marked_as_winner(r[4])
            &&& !key && !profile && !fed ==> !marked_as_winner(r[2]) && !marked_as_winner(r[3])
                && !marked_as_winner(r[4])
        }),
{
    law_winner_marked(env);
    law_missing_vars(env);
    let r = report_lines(env, vault);
    let t = tier_lines(env);
    assert forall|i: int| 0 <= i < 5 implies r[i + 1] == t[i] by {}
}


/// A report line that marks its tier as a later hit.
pub open spec fn marked_as_later_hit(line: Seq<char>) -> bool {
    line.len() >= 3 && line.subrange(0, 3) == "  +"@
}

/// A tier that holds a credential but loses to an earlier one is marked
/// `+`: the profile and federation behind a key variable, federation
/// behind a profile.
pub proof fn law_later_hits_marked(env: Seq<(Seq<char>, Seq<char>)>, vault: Option<ListingView>)
    ensures
        ({
            let r = report_lines(env, vault);
            let key = has_var(env, "ANTHROPIC_API_KEY"@) || has_var(env, "ANTHROPIC_AUTH_TOKEN"@);
            let profile = has_var(env, "ANTHROPIC_PROFILE"@);
            let fed = all_federation_set(env);
            &&& key && profile ==> marked_as_later_hit(r[3])
            &&& (key || profile) && fed ==> marked_as_later_hit(r[4])
            &&& !profile ==> !marked_as_later_hit(r[3])
            &&& !fed ==> !marked_as_later_hit(r[4])
        }),
{
    law_missing_vars(env);
    reveal_strlit("  +");
    reveal_strlit(" +");
    reveal_strlit(">>");
    reveal_strlit("  ");
    reveal_strlit(" ");
    let r = report_lines(env, vault);
    let t = tier_lines(env);
    let w = winner(env);
    assert(r[3] == t[2]);
    assert(r[4] == t[3]);
    assert(t[2].subrange(0, 3) =~= " "@ + tier_mark(profile_hit(env), w == Some(Tier::Profile)));
    assert(t[3].subrange(0, 3) =~= " "@ + tier_mark(federation_complete(env), w == Some(Tier::Federation)));
    assert((" "@ + " +"@) =~= "  +"@);
    assert((" "@ + ">>"@)[1] != "  +"@[1]);
    assert((" "@ + "  "@)[2] != "  +"@[2]);
}


/// A set `ANTHROPIC_API_KEY` next to any single federation variable draws
/// the shadowing warning, and nothing else.
pub proof fn law_any_federation_var_is_shadowed(env: Seq<(Seq<char>, Seq<char>)>, k: Seq<char>)
    requires
        has_var(env, "ANTHROPIC_API_KEY"@),
        k == "ANTHROPIC_FEDERATION_RULE_ID"@ || k == "ANTHROPIC_ORGANIZATION_ID"@ || k
            == "ANTHROPIC_SERVICE_ACCOUNT_ID"@ || k == "ANTHROPIC_WORKSPACE_ID"@ || k
            == "ANTHROPIC_IDENTITY_TOKEN_FILE"@,
        has_var(env, k),
    ensures
        warning_lines(env) == seq![
            ""@,
            "!! ANTHROPIC_API_KEY is set AND federation variables are present:"@,
            "   the static key silently shadows federation (documented footgun)."@,
            "   unset ANTHROPIC_API_KEY to let federation win."@,
        ],
{
}

} // verus!
