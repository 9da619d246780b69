//! The vault layout and the values akey keeps in it. Everything akey
//! persists lives in the OS credential vault under one service namespace:
//!
//! * `key.<name>`  — an API key (the secret bytes as entered)
//! * `wif.<name>`  — a WIF profile serialized as JSON
//! * `default`     — the entry name (`key.x` or `wif.x`) that `helper` and
//!   `run` use when none is named

use vstd::prelude::*;

pub use crate::vault::{
    helper_secret, list, remove, resolve, set_default, set_key, set_wif, store_key,
};

use crate::json_text::{
    as_parsed, distinct_keys, json_member_text, json_members_text, json_object_of_strings,
    json_object_text, json_string_members, lemma_object_text_bounded, numbers_bounded, json_string_text, lemma_string_literal_determined,
    parse_json_object,
};
use crate::text::{
    char_vec, debug_quoted, has_prefix, joined2, joined3, lossy_text, quoted, same_text,
    strip_prefix_text, utf8_lossy,
};
use vstd::utf8::{decode_utf8, valid_utf8};

verus! {

/// A named Workload Identity Federation profile — the client-side inputs of
/// the documented exchange. Not the exchange itself: tokens are the SDKs'
/// job.
#[derive(Debug, Clone, PartialEq, Eq)]
pub struct WifProfile {
    pub rule: String,
    pub org: String,
    pub svc: String,
    pub workspace: Option<String>,
    pub token_file: String,
}

/// The mathematical content of a [`WifProfile`].
pub struct WifProfileView {
    pub rule: Seq<char>,
    pub org: Seq<char>,
    pub svc: Seq<char>,
    pub workspace: Option<Seq<char>>,
    pub token_file: Seq<char>,
}

/// The view of an optional string.
pub open spec fn opt_view(o: Option<String>) -> Option<Seq<char>> {
    match o {
        Some(s) => Some(s@),
        None => None,
    }
}

impl View for WifProfile {
    type V = WifProfileView;

    open spec fn view(&self) -> WifProfileView {
        WifProfileView {
            rule: self.rule@,
            org: self.org@,
            svc: self.svc@,
            workspace: opt_view(self.workspace),
            token_file: self.token_file@,
        }
    }
}

} // verus!

verus! {

pub const SERVICE: &'static str = "akey";

/// The five documented federation environment variables, in the order the
/// SDKs document them.
pub const WIF_ENV: [&'static str; 5] = [
    "ANTHROPIC_FEDERATION_RULE_ID",
    "ANTHROPIC_ORGANIZATION_ID",
    "ANTHROPIC_SERVICE_ACCOUNT_ID",
    "ANTHROPIC_WORKSPACE_ID",
    "ANTHROPIC_IDENTITY_TOKEN_FILE",
];


/// Unicode `White_Space`: what `str::trim` removes.
pub open spec fn is_white_space(c: char) -> bool {
    let u = c as u32;
    ||| 0x9 <= u <= 0xd
    ||| u == 0x20
    ||| u == 0x85
    ||| u == 0xa0
    ||| u == 0x1680
    ||| 0x2000 <= u <= 0x200a
    ||| u == 0x2028
    ||| u == 0x2029
    ||| u == 0x202f
    ||| u == 0x205f
    ||| u == 0x3000
}

/// U+FEFF, the byte order mark.
pub open spec fn is_bom(c: char) -> bool {
    c == '\u{feff}'
}

/// Characters that cleaning removes from either end of a secret.
pub open spec fn is_junk(c: char) -> bool {
    is_white_space(c) || is_bom(c)
}

/// How many characters at the front of `s` are white space or BOMs.
pub open spec fn junk_prefix_len(s: Seq<char>) -> nat
    decreases s.len(),
{
    if s.len() > 0 && is_junk(s[0]) {
        1 + junk_prefix_len(s.drop_first())
    } else {
        0
    }
}

/// The length of `s` without its trailing white space and BOMs.
pub open spec fn body_len(s: Seq<char>) -> nat
    decreases s.len(),
{
    if s.len() > 0 && is_junk(s.last()) {
        body_len(s.drop_last())
    } else {
        s.len()
    }
}

/// `s` without the white space and BOMs that surround it.
pub open spec fn cleaned(s: Seq<char>) -> Seq<char> {
    let t = s.skip(junk_prefix_len(s) as int);
    t.take(body_len(t) as int)
}

proof fn lemma_junk_prefix_len(s: Seq<char>, i: int)
    requires
        0 <= i <= s.len(),
        forall|k: int| 0 <= k < i ==> is_junk(#[trigger] s[k]),
        i == s.len() || !is_junk(s[i]),
    ensures
        junk_prefix_len(s) == i,
    decreases i,
{
    if i > 0 {
        assert(is_junk(s[0]));
        let t = s.drop_first();
        assert forall|k: int| 0 <= k < i - 1 implies is_junk(#[trigger] t[k]) by {
            assert(t[k] == s[k + 1]);
        }
        lemma_junk_prefix_len(t, i - 1);
    }
}

proof fn lemma_body_len(s: Seq<char>, j: int)
    requires
        0 <= j <= s.len(),
        forall|k: int| j <= k < s.len() ==> is_junk(#[trigger] s[k]),
        j == 0 || !is_junk(s[j - 1]),
    ensures
        body_len(s) == j,
    decreases s.len(),
{
    if j < s.len() {
        assert(is_junk(s[s.len() - 1]));
        let t = s.drop_last();
        assert forall|k: int| j <= k < t.len() implies is_junk(#[trigger] t[k]) by {
            assert(t[k] == s[k]);
        }
        lemma_body_len(t, j);
    }
}

fn white_space(c: char) -> (r: bool)
    ensures
        r == is_white_space(c),
{
    let u = c as u32;
    (0x9 <= u && u <= 0xd) || u == 0x20 || u == 0x85 || u == 0xa0 || u == 0x1680 || (0x2000 <= u
        && u <= 0x200a) || u == 0x2028 || u == 0x2029 || u == 0x202f || u == 0x205f || u == 0x3000
}

/// Clean pasted/piped key input: strip surrounding whitespace and any BOMs,
/// at either end. Windows PowerShell in particular prepends U+FEFF when
/// piping text into a native program, and `str::trim` does not remove it —
/// a stored key that invisibly starts with a BOM fails at the API with a
/// baffling 401.
pub fn clean_secret_input(input: &str) -> (r: &str)
    ensures
        r@ == cleaned(input@),
{
    let cs = char_vec(input);
    let n = cs.len();
    let mut i: usize = 0;
    while i < n && (white_space(cs[i]) || cs[i] == '\u{feff}')
        invariant
            cs@ == input@,
            n == cs@.len(),
            i <= n,
            forall|k: int| 0 <= k < i ==> is_junk(#[trigger] cs@[k]),
        decreases n - i,
    {
        i = i + 1;
    }
    proof {
        lemma_junk_prefix_len(input@, i as int);
    }
    let ghost t = input@.skip(i as int);
    let mut j: usize = n;
    while j > i && (white_space(cs[j - 1]) || cs[j - 1] == '\u{feff}')
        invariant
            cs@ == input@,
            n == cs@.len(),
            i <= j <= n,
            forall|k: int| j <= k < n ==> is_junk(#[trigger] cs@[k]),
        decreases j,
    {
        j = j - 1;
    }
    proof {
        assert forall|k: int| j - i <= k < t.len() implies is_junk(#[trigger] t[k]) by {
            assert(t[k] == input@[k + i]);
        }
        if j > i {
            assert(t[j - i - 1] == input@[j - 1]);
        }
        lemma_body_len(t, j - i);
        assert(input@.subrange(i as int, j as int) =~= t.take(j - i));
    }
    input.substring_char(i, j)
}


/// The members a profile is stored as, in the order they are written.
pub open spec fn profile_members(p: WifProfileView) -> Seq<(Seq<char>, Seq<char>)> {
    let base = seq![
        ("rule"@, p.rule),
        ("org"@, p.org),
        ("svc"@, p.svc),
        ("token_file"@, p.token_file),
    ];
    match p.workspace {
        Some(w) => base.push(("workspace"@, w)),
        None => base,
    }
}

/// The JSON text a profile is stored as.
pub open spec fn profile_json(p: WifProfileView) -> Seq<char> {
    json_object_text(profile_members(p))
}

/// The JSON text of a profile can always be handed to the parser.
pub proof fn lemma_profile_json_bounded(p: WifProfileView)
    ensures
        numbers_bounded(profile_json(p)),
{
    lemma_object_text_bounded(profile_members(p));
}

/// The string value of the first member named `k`, if it has one.
pub open spec fn member_str(ms: Seq<(Seq<char>, Option<Seq<char>>)>, k: Seq<char>) -> Option<Seq<char>>
    decreases ms.len(),
{
    if ms.len() == 0 {
        None
    } else if ms[0].0 == k {
        ms[0].1
    } else {
        member_str(ms.drop_first(), k)
    }
}

/// The profile that parsed members describe: `rule`, `org`, `svc` and
/// `token_file` must be strings, `workspace` is taken when it is one.
pub open spec fn profile_from_members(ms: Seq<(Seq<char>, Option<Seq<char>>)>) -> Option<WifProfileView> {
    let rule = member_str(ms, "rule"@);
    let org = member_str(ms, "org"@);
    let svc = member_str(ms, "svc"@);
    let token_file = member_str(ms, "token_file"@);
    if rule is Some && org is Some && svc is Some && token_file is Some {
        Some(
            WifProfileView {
                rule: rule->0,
                org: org->0,
                svc: svc->0,
                workspace: member_str(ms, "workspace"@),
                token_file: token_file->0,
            },
        )
    } else {
        None
    }
}

/// The profile a stored JSON text describes.
pub open spec fn profile_of_json(text: Seq<char>) -> Option<WifProfileView> {
    match json_string_members(text) {
        Some(ms) => profile_from_members(ms),
        None => None,
    }
}

pub open spec fn opt_profile_view(o: Option<WifProfile>) -> Option<WifProfileView> {
    match o {
        Some(p) => Some(p@),
        None => None,
    }
}

/// The environment a profile injects, sorted by variable name: the four
/// required federation variables, and the workspace when there is one.
pub open spec fn profile_env(p: WifProfileView) -> Seq<(Seq<char>, Seq<char>)> {
    let base = seq![
        ("ANTHROPIC_FEDERATION_RULE_ID"@, p.rule),
        ("ANTHROPIC_IDENTITY_TOKEN_FILE"@, p.token_file),
        ("ANTHROPIC_ORGANIZATION_ID"@, p.org),
        ("ANTHROPIC_SERVICE_ACCOUNT_ID"@, p.svc),
    ];
    match p.workspace {
        Some(w) => base.push(("ANTHROPIC_WORKSPACE_ID"@, w)),
        None => base,
    }
}

proof fn lemma_member_keys_distinct(p: WifProfileView)
    ensures
        distinct_keys(profile_members(p)),
{
    reveal_strlit("rule");
    reveal_strlit("org");
    reveal_strlit("svc");
    reveal_strlit("token_file");
    reveal_strlit("workspace");
    let ms = profile_members(p);
    assert forall|i: int, j: int| 0 <= i < ms.len() && 0 <= j < ms.len() && i != j implies ms[i].0
        != ms[j].0 by {
        assert(ms[i].0[0] != ms[j].0[0] || ms[i].0.len() != ms[j].0.len());
    }
}

proof fn lemma_member_str_at(ms: Seq<(Seq<char>, Option<Seq<char>>)>, k: Seq<char>, i: int)
    requires
        0 <= i <= ms.len(),
        forall|j: int| 0 <= j < i ==> (#[trigger] ms[j]).0 != k,
        i == ms.len() || ms[i].0 == k,
    ensures
        member_str(ms, k) == if i < ms.len() { ms[i].1 } else { None },
    decreases i,
{
    if i > 0 {
        let t = ms.drop_first();
        assert(ms[0].0 != k);
        assert forall|j: int| 0 <= j < i - 1 implies (#[trigger] t[j]).0 != k by {
            assert(t[j] == ms[j + 1]);
        }
        if i < ms.len() {
            assert(t[i - 1] == ms[i]);
        }
        lemma_member_str_at(t, k, i - 1);
    }
}

proof fn lemma_members_read_back(p: WifProfileView)
    ensures
        profile_from_members(as_parsed(profile_members(p))) == Some(p),
{
    reveal_strlit("rule");
    reveal_strlit("org");
    reveal_strlit("svc");
    reveal_strlit("token_file");
    reveal_strlit("workspace");
    let ms = as_parsed(profile_members(p));
    assert(ms[0] == ("rule"@, Some(p.rule)));
    assert(ms[1] == ("org"@, Some(p.org)));
    assert(ms[2] == ("svc"@, Some(p.svc)));
    assert(ms[3] == ("token_file"@, Some(p.token_file)));
    assert forall|a: int, b: int| 0 <= a < ms.len() && 0 <= b < ms.len() && a != b implies ms[a].0
        != ms[b].0 by {
        assert(ms[a].0[0] != ms[b].0[0] || ms[a].0.len() != ms[b].0.len());
    }
    lemma_member_str_at(ms, "rule"@, 0);
    lemma_member_str_at(ms, "org"@, 1);
    lemma_member_str_at(ms, "svc"@, 2);
    lemma_member_str_at(ms, "token_file"@, 3);
    if p.workspace is Some {
        assert(ms[4] == ("workspace"@, p.workspace));
        lemma_member_str_at(ms, "workspace"@, 4);
    } else {
        assert forall|j: int| 0 <= j < ms.len() implies (#[trigger] ms[j]).0 != "workspace"@ by {
            assert(ms[j].0.len() != 9 || ms[j].0[0] != 'w');
        }
        lemma_member_str_at(ms, "workspace"@, ms.len() as int);
    }
}

fn find_member(ms: &Vec<(String, Option<String>)>, k: &str) -> (r: Option<String>)
    ensures
        opt_view(r) == member_str(ms.deep_view(), k@),
{
    let ghost d = ms.deep_view();
    assert(d.skip(0) =~= d);
    let mut i: usize = 0;
    while i < ms.len()
        invariant
            d == ms.deep_view(),
            i <= ms@.len(),
            member_str(d, k@) == member_str(d.skip(i as int), k@),
        decreases ms@.len() - i,
    {
        assert(d.skip(i as int)[0] == d[i as int]);
        assert(d.skip(i as int).drop_first() =~= d.skip(i + 1));
        if same_text(ms[i].0.as_str(), k) {
            return ms[i].1.clone();
        }
        i = i + 1;
    }
    None
}

impl WifProfile {
    /// The profile as the JSON text it is stored as.
    pub fn to_json(&self) -> (r: String)
        ensures
            r@ == profile_json(self@),
            numbers_bounded(r@),
    {
        proof {
            lemma_profile_json_bounded(self@);
        }
        let mut members: Vec<(String, String)> = Vec::new();
        members.push((String::from_str("rule"), self.rule.clone()));
        members.push((String::from_str("org"), self.org.clone()));
        members.push((String::from_str("svc"), self.svc.clone()));
        members.push((String::from_str("token_file"), self.token_file.clone()));
        match &self.workspace {
            Some(w) => members.push((String::from_str("workspace"), w.clone())),
            None => {},
        }
        proof {
            assert(members.deep_view() =~= profile_members(self@));
            lemma_member_keys_distinct(self@);
        }
        json_object_of_strings(&members)
    }

    /// The profile a stored JSON text describes, if it describes one. Any
    /// text that `to_json` wrote reads back as the profile it was written
    /// from. No run of digits outside the text's strings is longer than
    /// the JSON parser can count (which every text `to_json` writes meets).
    pub fn from_json(text: &str) -> (r: Option<WifProfile>)
        requires
            numbers_bounded(text@),
        ensures
            opt_profile_view(r) == profile_of_json(text@),
            forall|p: WifProfileView| text@ == profile_json(p) ==> opt_profile_view(r) == Some(p),
            opt_profile_view(r) == stored_profile(text@),
    {
        let parsed = parse_json_object(text);
        proof {
            assert forall|p: WifProfileView| text@ == profile_json(p) implies parsed.deep_view()
                == Some(as_parsed(profile_members(p))) by {
                lemma_member_keys_distinct(p);
            }
            assert forall|p: WifProfileView| text@ == profile_json(p) implies profile_from_members(
                as_parsed(profile_members(p)),
            ) == Some(p) by {
                lemma_members_read_back(p);
            }
        }
        proof {
            if exists|p: WifProfileView| text@ == profile_json(p) {
                let q = choose|p: WifProfileView| text@ == profile_json(p);
                lemma_member_keys_distinct(q);
                lemma_members_read_back(q);
            }
        }
        let ms = match parsed {
            Some(ms) => ms,
            None => return None,
        };
        let rule = match find_member(&ms, "rule") {
            Some(v) => v,
            None => return None,
        };
        let org = match find_member(&ms, "org") {
            Some(v) => v,
            None => return None,
        };
        let svc = match find_member(&ms, "svc") {
            Some(v) => v,
            None => return None,
        };
        let token_file = match find_member(&ms, "token_file") {
            Some(v) => v,
            None => return None,
        };
        let workspace = find_member(&ms, "workspace");
        Some(WifProfile { rule, org, svc, workspace, token_file })
    }

    /// The environment this profile injects into a spawned process.
    pub fn env_pairs(&self) -> (r: Vec<(String, String)>)
        ensures
            r.deep_view() == profile_env(self@),
    {
        let mut pairs: Vec<(String, String)> = Vec::new();
        pairs.push((String::from_str(WIF_ENV[0]), self.rule.clone()));
        pairs.push((String::from_str(WIF_ENV[4]), self.token_file.clone()));
        pairs.push((String::from_str(WIF_ENV[1]), self.org.clone()));
        pairs.push((String::from_str(WIF_ENV[2]), self.svc.clone()));
        match &self.workspace {
            Some(w) => pairs.push((String::from_str(WIF_ENV[3]), w.clone())),
            None => {},
        }
        proof {
            assert(pairs.deep_view() =~= profile_env(self@));
        }
        pairs
    }
}


/// The profile a stored text stands for: the profile it was written from,
/// where it is the JSON text of one; otherwise what the JSON parser reads
/// out of it.
pub open spec fn stored_profile(text: Seq<char>) -> Option<WifProfileView> {
    if exists|p: WifProfileView| text == profile_json(p) {
        Some(choose|p: WifProfileView| text == profile_json(p))
    } else {
        profile_of_json(text)
    }
}

/// A credential target resolved from the vault.
#[derive(Debug)]
pub enum Resolved {
    Key(Vec<u8>),
    Wif(WifProfile),
}

pub enum ResolvedView {
    Key(Seq<u8>),
    Wif(WifProfileView),
}

impl View for Resolved {
    type V = ResolvedView;

    open spec fn view(&self) -> ResolvedView {
        match self {
            Resolved::Key(b) => ResolvedView::Key(b@),
            Resolved::Wif(p) => ResolvedView::Wif(p@),
        }
    }
}

/// Everything stored, for `ls` and `status`.
pub struct Listing {
    pub keys: Vec<String>,
    pub wifs: Vec<String>,
    pub default: Option<String>,
}

pub struct ListingView {
    pub keys: Seq<Seq<char>>,
    pub wifs: Seq<Seq<char>>,
    pub default: Option<Seq<char>>,
}

impl View for Listing {
    type V = ListingView;

    open spec fn view(&self) -> ListingView {
        ListingView { keys: self.keys.deep_view(), wifs: self.wifs.deep_view(), default: opt_view(self.default) }
    }
}

/// Why a store operation did not complete.
#[derive(Debug, Clone, PartialEq, Eq)]
pub enum StoreError {
    /// No key and no WIF profile goes by `target`.
    NotFound { target: String },
    /// The profile stored under `name` is not a readable profile.
    CorruptProfile { name: String },
    /// The default entry names a WIF profile where a static key is needed.
    DefaultIsWif,
}

pub enum StoreErrorView {
    NotFound { target: Seq<char> },
    CorruptProfile { name: Seq<char> },
    DefaultIsWif,
}

impl View for StoreError {
    type V = StoreErrorView;

    open spec fn view(&self) -> StoreErrorView {
        match self {
            StoreError::NotFound { target } => StoreErrorView::NotFound { target: target@ },
            StoreError::CorruptProfile { name } => StoreErrorView::CorruptProfile { name: name@ },
            StoreError::DefaultIsWif => StoreErrorView::DefaultIsWif,
        }
    }
}

pub const DEFAULT_IS_WIF_MESSAGE: &'static str = "the default is a WIF profile; apiKeyHelper needs a static key (use `akey helper <name>` or `akey use <key-name>`)";

/// The text of each error, as it is reported.
pub open spec fn error_message(e: StoreErrorView) -> Seq<char> {
    match e {
        StoreErrorView::NotFound { target } => "no key or WIF profile named "@ + debug_quoted(target),
        StoreErrorView::CorruptProfile { name } => "stored WIF profile "@ + debug_quoted(name) + " is corrupt"@,
        StoreErrorView::DefaultIsWif => DEFAULT_IS_WIF_MESSAGE@,
    }
}

impl StoreError {
    pub fn message(&self) -> (r: String)
        ensures
            r@ == error_message(self@),
    {
        match self {
            StoreError::NotFound { target } => {
                let q = quoted(target.as_str());
                joined2("no key or WIF profile named ", q.as_str())
            },
            StoreError::CorruptProfile { name } => {
                let q = quoted(name.as_str());
                joined3("stored WIF profile ", q.as_str(), " is corrupt")
            },
            StoreError::DefaultIsWif => String::from_str(DEFAULT_IS_WIF_MESSAGE),
        }
    }
}

/// The vault entry of the key `name`.
pub open spec fn key_entry(name: Seq<char>) -> Seq<char> {
    "key."@ + name
}

/// The vault entry of the WIF profile `name`.
pub open spec fn wif_entry(name: Seq<char>) -> Seq<char> {
    "wif."@ + name
}

/// A target with its `wif:` prefix, if any, taken off.
pub open spec fn plain_name(target: Seq<char>) -> Seq<char> {
    if has_prefix(target, "wif:"@) {
        target.skip("wif:"@.len() as int)
    } else {
        target
    }
}

/// The entry that names the default.
pub const DEFAULT_ENTRY: &'static str = "default";

/// The text of stored bytes: the decoded UTF-8 where they are valid,
/// otherwise the lossy decoding.
pub open spec fn text_of(b: Seq<u8>) -> Seq<char> {
    if valid_utf8(b) {
        decode_utf8(b)
    } else {
        utf8_lossy(b)
    }
}

/// The text of stored bytes (lossy UTF-8).
pub fn stored_text(b: &[u8]) -> (r: String)
    ensures
        r@ == text_of(b@),
{
    lossy_text(b)
}

/// The entry of the key `name`.
pub fn key_entry_of(name: &str) -> (r: String)
    ensures
        r@ == key_entry(name@),
{
    joined2("key.", name)
}

/// The entry of the WIF profile `name`.
pub fn wif_entry_of(name: &str) -> (r: String)
    ensures
        r@ == wif_entry(name@),
{
    joined2("wif.", name)
}

/// `target` without its `wif:` prefix.
pub fn plain_name_of(target: &str) -> (r: String)
    ensures
        r@ == plain_name(target@),
{
    match strip_prefix_text(target, "wif:") {
        Some(rest) => rest,
        None => String::from_str(target),
    }
}


/// What follows a profile's `token_file` value in its JSON text.
pub open spec fn json_tail(p: WifProfileView) -> Seq<char> {
    match p.workspace {
        Some(w) => seq![','] + json_string_text("workspace"@) + seq![':'] + json_string_text(w) + seq!['}'],
        None => seq!['}'],
    }
}

pub open spec fn json_after_svc(p: WifProfileView) -> Seq<char> {
    seq![','] + json_string_text("token_file"@) + seq![':'] + json_string_text(p.token_file) + json_tail(p)
}

pub open spec fn json_after_org(p: WifProfileView) -> Seq<char> {
    seq![','] + json_string_text("svc"@) + seq![':'] + json_string_text(p.svc) + json_after_svc(p)
}

pub open spec fn json_after_rule(p: WifProfileView) -> Seq<char> {
    seq![','] + json_string_text("org"@) + seq![':'] + json_string_text(p.org) + json_after_org(p)
}

#[verifier::rlimit(60)]
proof fn lemma_profile_json_shape(p: WifProfileView)
    ensures
        profile_json(p) == seq!['{'] + json_string_text("rule"@) + seq![':'] + json_string_text(p.rule)
            + json_after_rule(p),
{
    let m0 = ("rule"@, p.rule);
    let m1 = ("org"@, p.org);
    let m2 = ("svc"@, p.svc);
    let m3 = ("token_file"@, p.token_file);
    let b1 = seq![m0];
    let b2 = seq![m0, m1];
    let b3 = seq![m0, m1, m2];
    let b4 = seq![m0, m1, m2, m3];
    assert(json_members_text(b1) == json_member_text(m0));
    assert(b2.drop_last() =~= b1);
    assert(json_members_text(b2) == json_members_text(b1) + seq![','] + json_member_text(m1));
    assert(b3.drop_last() =~= b2);
    assert(json_members_text(b3) == json_members_text(b2) + seq![','] + json_member_text(m2));
    assert(b4.drop_last() =~= b3);
    assert(json_members_text(b4) == json_members_text(b3) + seq![','] + json_member_text(m3));
    let ms = profile_members(p);
    let body = json_members_text(ms);
    match p.workspace {
        Some(w) => {
            assert(ms.drop_last() =~= b4);
            assert(body == json_members_text(b4) + seq![','] + json_member_text(("workspace"@, w)));
        },
        None => {
            assert(ms =~= b4);
        },
    }
    assert(profile_json(p) =~= seq!['{'] + json_string_text("rule"@) + seq![':'] + json_string_text(
        p.rule,
    ) + json_after_rule(p));
}

/// Distinct profiles are stored as distinct JSON texts.
pub proof fn lemma_profile_json_injective(p: WifProfileView, q: WifProfileView)
    requires
        profile_json(p) == profile_json(q),
    ensures
        p == q,
{
    lemma_profile_json_shape(p);
    lemma_profile_json_shape(q);
    let a0 = seq!['{'] + json_string_text("rule"@) + seq![':'];
    lemma_string_literal_determined(a0, p.rule, json_after_rule(p), q.rule, json_after_rule(q));
    let a1 = seq![','] + json_string_text("org"@) + seq![':'];
    assert(json_after_rule(p) =~= a1 + json_string_text(p.org) + json_after_org(p));
    assert(json_after_rule(q) =~= a1 + json_string_text(q.org) + json_after_org(q));
    lemma_string_literal_determined(a1, p.org, json_after_org(p), q.org, json_after_org(q));
    let a2 = seq![','] + json_string_text("svc"@) + seq![':'];
    assert(json_after_org(p) =~= a2 + json_string_text(p.svc) + json_after_svc(p));
    assert(json_after_org(q) =~= a2 + json_string_text(q.svc) + json_after_svc(q));
    lemma_string_literal_determined(a2, p.svc, json_after_svc(p), q.svc, json_after_svc(q));
    let a3 = seq![','] + json_string_text("token_file"@) + seq![':'];
    assert(json_after_svc(p) =~= a3 + json_string_text(p.token_file) + json_tail(p));
    assert(json_after_svc(q) =~= a3 + json_string_text(q.token_file) + json_tail(q));
    lemma_string_literal_determined(a3, p.token_file, json_tail(p), q.token_file, json_tail(q));
    let a4 = seq![','] + json_string_text("workspace"@) + seq![':'];
    match (p.workspace, q.workspace) {
        (Some(w1), Some(w2)) => {
            assert(json_tail(p) =~= a4 + json_string_text(w1) + seq!['}']);
            assert(json_tail(q) =~= a4 + json_string_text(w2) + seq!['}']);
            lemma_string_literal_determined(a4, w1, seq!['}'], w2, seq!['}']);
        },
        (Some(w1), None) => {
            assert(json_tail(p)[0] != json_tail(q)[0]);
        },
        (None, Some(w2)) => {
            assert(json_tail(p)[0] != json_tail(q)[0]);
        },
        (None, None) => {},
    }
}

/// The JSON text of a profile stands for that profile.
pub proof fn law_profile_json_round_trip(p: WifProfileView)
    ensures
        stored_profile(profile_json(p)) == Some(p),
{
    let q = choose|q: WifProfileView| profile_json(p) == profile_json(q);
    assert(profile_json(p) == profile_json(p));
    lemma_profile_json_injective(p, q);
}


proof fn lemma_junk_prefix_facts(s: Seq<char>)
    ensures
        junk_prefix_len(s) <= s.len(),
        forall|k: int| 0 <= k < junk_prefix_len(s) ==> is_junk(#[trigger] s[k]),
        junk_prefix_len(s) < s.len() ==> !is_junk(s[junk_prefix_len(s) as int]),
    decreases s.len(),
{
    if s.len() > 0 && is_junk(s[0]) {
        let t = s.drop_first();
        lemma_junk_prefix_facts(t);
        assert forall|k: int| 0 <= k < junk_prefix_len(s) implies is_junk(#[trigger] s[k]) by {
            if k > 0 {
                assert(s[k] == t[k - 1]);
            }
        }
        if junk_prefix_len(s) < s.len() {
            assert(s[junk_prefix_len(s) as int] == t[junk_prefix_len(t) as int]);
        }
    }
}

proof fn lemma_body_len_facts(s: Seq<char>)
    ensures
        body_len(s) <= s.len(),
        forall|k: int| body_len(s) <= k < s.len() ==> is_junk(#[trigger] s[k]),
        body_len(s) > 0 ==> !is_junk(s[body_len(s) - 1]),
    decreases s.len(),
{
    if s.len() > 0 && is_junk(s.last()) {
        let t = s.drop_last();
        lemma_body_len_facts(t);
        assert forall|k: int| body_len(s) <= k < s.len() implies is_junk(#[trigger] s[k]) by {
            if k < s.len() - 1 {
                assert(s[k] == t[k]);
            }
        }
        if body_len(s) > 0 {
            assert(s[body_len(s) - 1] == t[body_len(t) - 1]);
        }
    }
}

/// Cleaning keeps a contiguous part of the input: what it drops at either
/// end is white space and BOMs, and what it keeps neither begins nor ends
/// with white space or a BOM.
pub proof fn law_cleaned_shape(s: Seq<char>)
    ensures
        exists|i: int, j: int|
            {
                &&& 0 <= i <= j <= s.len()
                &&& cleaned(s) == s.subrange(i, j)
                &&& forall|k: int| 0 <= k < i ==> is_junk(#[trigger] s[k])
                &&& forall|k: int| j <= k < s.len() ==> is_junk(#[trigger] s[k])
            },
        cleaned(s).len() > 0 ==> !is_junk(cleaned(s)[0]) && !is_junk(cleaned(s).last()),
{
    let i = junk_prefix_len(s) as int;
    lemma_junk_prefix_facts(s);
    let t = s.skip(i);
    lemma_body_len_facts(t);
    let j = i + body_len(t);
    assert(cleaned(s) =~= s.subrange(i, j));
    assert forall|k: int| j <= k < s.len() implies is_junk(#[trigger] s[k]) by {
        assert(s[k] == t[k - i]);
    }
    if cleaned(s).len() > 0 {
        assert(cleaned(s)[0] == s[i]);
        assert(cleaned(s).last() == t[body_len(t) - 1]);
    }
}

/// Cleaning a cleaned secret changes nothing.
pub proof fn law_cleaned_idempotent(s: Seq<char>)
    ensures
        cleaned(cleaned(s)) == cleaned(s),
{
    law_cleaned_shape(s);
    let r = cleaned(s);
    if r.len() > 0 {
        assert(junk_prefix_len(r) == 0);
        assert(r.skip(0) =~= r);
        assert(body_len(r) == r.len());
        assert(r.take(r.len() as int) =~= r);
    } else {
        assert(cleaned(r) =~= r);
    }
}

/// `a` comes before `b` in the order of `String`: code point by code point,
/// a proper prefix first.
pub open spec fn text_lt(a: Seq<char>, b: Seq<char>) -> bool
    decreases a.len(),
{
    if a.len() == 0 {
        b.len() > 0
    } else if b.len() == 0 {
        false
    } else if a[0] != b[0] {
        (a[0] as u32) < (b[0] as u32)
    } else {
        text_lt(a.drop_first(), b.drop_first())
    }
}

proof fn lemma_text_lt_at(a: Seq<char>, b: Seq<char>, n: int)
    requires
        0 <= n < a.len(),
        n < b.len(),
        forall|k: int| 0 <= k < n ==> a[k] == b[k],
        (a[n] as u32) < (b[n] as u32),
    ensures
        text_lt(a, b),
    decreases n,
{
    if n > 0 {
        lemma_text_lt_at(a.drop_first(), b.drop_first(), n - 1);
    }
}

/// The injected variables come sorted by name, each name once, and they
/// are exactly the federation variables: the four required ones, and the
/// workspace when the profile has one.
#[verifier::spinoff_prover]
#[verifier::rlimit(50)]
pub proof fn law_env_pairs_sorted(p: WifProfileView)
    ensures
        forall|i: int, j: int|
            0 <= i < j < profile_env(p).len() ==> text_lt(profile_env(p)[i].0, profile_env(p)[j].0),
        forall|i: int|
            0 <= i < profile_env(p).len() ==> exists|k: int|
                0 <= k < 5 && (#[trigger] profile_env(p)[i]).0 == WIF_ENV[k]@,
        forall|k: int|
            #![trigger WIF_ENV[k]]
            0 <= k < 5 && k != 3 ==> exists|i: int|
                0 <= i < profile_env(p).len() && (#[trigger] profile_env(p)[i]).0 == WIF_ENV[k]@,
        (exists|i: int| 0 <= i < profile_env(p).len() && (#[trigger] profile_env(p)[i]).0 == WIF_ENV[3]@)
            <==> p.workspace is Some,
{
    let fed = "ANTHROPIC_FEDERATION_RULE_ID"@;
    let tok = "ANTHROPIC_IDENTITY_TOKEN_FILE"@;
    let org = "ANTHROPIC_ORGANIZATION_ID"@;
    let svc = "ANTHROPIC_SERVICE_ACCOUNT_ID"@;
    let wsp = "ANTHROPIC_WORKSPACE_ID"@;
    reveal_strlit("ANTHROPIC_FEDERATION_RULE_ID");
    reveal_strlit("ANTHROPIC_IDENTITY_TOKEN_FILE");
    reveal_strlit("ANTHROPIC_ORGANIZATION_ID");
    reveal_strlit("ANTHROPIC_SERVICE_ACCOUNT_ID");
    reveal_strlit("ANTHROPIC_WORKSPACE_ID");
    let names = seq![fed, tok, org, svc, wsp];
    assert forall|i: int, j: int| 0 <= i < j < 5 implies text_lt(names[i], names[j]) by {
        assert forall|k: int| 0 <= k < 10 implies names[i][k] == names[j][k] by {}
        lemma_text_lt_at(names[i], names[j], 10);
    }
    let e = profile_env(p);
    assert forall|i: int| 0 <= i < e.len() implies e[i].0 == names[i] by {}
    assert(WIF_ENV[0]@ == fed);
    assert(WIF_ENV[1]@ == org);
    assert(WIF_ENV[2]@ == svc);
    assert(WIF_ENV[3]@ == wsp);
    assert(WIF_ENV[4]@ == tok);
    assert forall|i: int| 0 <= i < e.len() implies exists|k: int|
        0 <= k < 5 && (#[trigger] e[i]).0 == WIF_ENV[k]@ by {
        if i == 0 {
            assert(e[i].0 == WIF_ENV[0]@);
        } else if i == 1 {
            assert(e[i].0 == WIF_ENV[4]@);
        } else if i == 2 {
            assert(e[i].0 == WIF_ENV[1]@);
        } else if i == 3 {
            assert(e[i].0 == WIF_ENV[2]@);
        } else {
            assert(e[i].0 == WIF_ENV[3]@);
        }
    }
    assert forall|k: int| #![trigger WIF_ENV[k]] 0 <= k < 5 && k != 3 implies exists|i: int|
        0 <= i < e.len() && (#[trigger] e[i]).0 == WIF_ENV[k]@ by {
        if k == 0 {
            assert(e[0].0 == WIF_ENV[k]@);
        } else if k == 1 {
            assert(e[2].0 == WIF_ENV[k]@);
        } else if k == 2 {
            assert(e[3].0 == WIF_ENV[k]@);
        } else {
            assert(e[1].0 == WIF_ENV[k]@);
        }
    }
    if p.workspace is Some {
        assert(e[4].0 == WIF_ENV[3]@);
    } else {
        assert forall|i: int| 0 <= i < e.len() implies (#[trigger] e[i]).0 != WIF_ENV[3]@ by {
            assert(e[i].0[10] != wsp[10]);
        }
    }
}


/// Each injected variable carries its own field of the profile: the rule
/// as `ANTHROPIC_FEDERATION_RULE_ID`, the organization as
/// `ANTHROPIC_ORGANIZATION_ID`, the service account as
/// `ANTHROPIC_SERVICE_ACCOUNT_ID`, the token file as
/// `ANTHROPIC_IDENTITY_TOKEN_FILE`, and the workspace, when there is one,
/// as `ANTHROPIC_WORKSPACE_ID`; nothing else is injected.
pub proof fn law_env_pairs_carry_fields(p: WifProfileView)
    ensures
        ({
            let e = profile_env(p);
            &&& forall|i: int| 0 <= i < e.len() ==> {
                ||| #[trigger] e[i] == ("ANTHROPIC_FEDERATION_RULE_ID"@, p.rule)
                ||| e[i] == ("ANTHROPIC_ORGANIZATION_ID"@, p.org)
                ||| e[i] == ("ANTHROPIC_SERVICE_ACCOUNT_ID"@, p.svc)
                ||| e[i] == ("ANTHROPIC_IDENTITY_TOKEN_FILE"@, p.token_file)
                ||| (p.workspace matches Some(w) && e[i] == ("ANTHROPIC_WORKSPACE_ID"@, w))
            }
            &&& e.contains(("ANTHROPIC_FEDERATION_RULE_ID"@, p.rule))
            &&& e.contains(("ANTHROPIC_ORGANIZATION_ID"@, p.org))
            &&& e.contains(("ANTHROPIC_SERVICE_ACCOUNT_ID"@, p.svc))
            &&& e.contains(("ANTHROPIC_IDENTITY_TOKEN_FILE"@, p.token_file))
            &&& p.workspace matches Some(w) ==> e.contains(("ANTHROPIC_WORKSPACE_ID"@, w))
            &&& forall|i: int| 0 <= i < e.len() ==> (#[trigger] e[i]).0 != "ANTHROPIC_WORKSPACE_ID"@ || p.workspace is Some
        }),
{
    let e = profile_env(p);
    assert(e[0] == ("ANTHROPIC_FEDERATION_RULE_ID"@, p.rule));
    assert(e[1] == ("ANTHROPIC_IDENTITY_TOKEN_FILE"@, p.token_file));
    assert(e[2] == ("ANTHROPIC_ORGANIZATION_ID"@, p.org));
    assert(e[3] == ("ANTHROPIC_SERVICE_ACCOUNT_ID"@, p.svc));
    if p.workspace is None {
        reveal_strlit("ANTHROPIC_FEDERATION_RULE_ID");
        reveal_strlit("ANTHROPIC_IDENTITY_TOKEN_FILE");
        reveal_strlit("ANTHROPIC_ORGANIZATION_ID");
        reveal_strlit("ANTHROPIC_SERVICE_ACCOUNT_ID");
        reveal_strlit("ANTHROPIC_WORKSPACE_ID");
        assert forall|i: int| 0 <= i < e.len() implies (#[trigger] e[i]).0 != "ANTHROPIC_WORKSPACE_ID"@ by {
            assert(e[i].0[10] != "ANTHROPIC_WORKSPACE_ID"@[10]);
        }
    } else {
        assert(e[4] == ("ANTHROPIC_WORKSPACE_ID"@, p.workspace->0));
    }
}


/// A character cleaning strips: space, tab, line feed, carriage return
/// and the BOM.
pub open spec fn common_junk(c: char) -> bool {
    c == ' ' || c == '\t' || c == '\n' || c == '\r' || c == '\u{feff}'
}

/// An ASCII letter or digit.
pub open spec fn ascii_alnum(c: char) -> bool {
    ('a' <= c <= 'z') || ('A' <= c <= 'Z') || ('0' <= c <= '9')
}

/// Cleaning removes a space, tab, line break or BOM from either end of a
/// secret, and keeps a secret that begins and ends with a letter or digit
/// exactly as it is.
pub proof fn law_cleaning_strips_both_ends(s: Seq<char>, c: char)
    requires
        common_junk(c),
    ensures
        cleaned(seq![c] + s) == cleaned(s),
        cleaned(s + seq![c]) == cleaned(s),
        s.len() > 0 && ascii_alnum(s[0]) && ascii_alnum(s.last()) ==> cleaned(s) == s,
{
    assert(is_junk(c));
    lemma_junk_prefix_facts(s);
    // In front.
    let f = seq![c] + s;
    assert(f.drop_first() =~= s);
    assert(f[0] == c);
    assert(junk_prefix_len(f) == 1 + junk_prefix_len(s));
    assert(f.skip(1 + junk_prefix_len(s) as int) =~= s.skip(junk_prefix_len(s) as int));
    // At the end.
    let u = s + seq![c];
    lemma_junk_prefix_facts(s);
    let i = junk_prefix_len(s) as int;
    if i == s.len() {
        assert forall|k: int| 0 <= k < u.len() implies is_junk(#[trigger] u[k]) by {
            if k < s.len() {
                assert(u[k] == s[k]);
            }
        }
        lemma_junk_prefix_len(u, u.len() as int);
        assert(u.skip(u.len() as int) =~= Seq::<char>::empty());
        assert(s.skip(i) =~= Seq::<char>::empty());
        assert(cleaned(u) =~= Seq::<char>::empty());
        assert(cleaned(s) =~= Seq::<char>::empty());
    } else {
        assert forall|k: int| 0 <= k < i implies is_junk(#[trigger] u[k]) by {
            assert(u[k] == s[k]);
        }
        assert(u[i] == s[i]);
        lemma_junk_prefix_len(u, i);
        let t = s.skip(i);
        let t2 = u.skip(i);
        assert(t2 =~= t + seq![c]);
        lemma_body_len_facts(t);
        let b = body_len(t) as int;
        assert(t[0] == s[i]);
        if b == 0 {
            assert(is_junk(t[0]));
        }
        assert forall|k: int| b <= k < t2.len() implies is_junk(#[trigger] t2[k]) by {
            if k < t.len() {
                assert(t2[k] == t[k]);
            }
        }
        assert(t2[b - 1] == t[b - 1]);
        lemma_body_len(t2, b);
        assert(t2.take(b) =~= t.take(b));
    }
    // Kept whole.
    if s.len() > 0 && ascii_alnum(s[0]) && ascii_alnum(s.last()) {
        assert(!is_junk(s[0]));
        assert(!is_junk(s.last()));
        lemma_junk_prefix_len(s, 0);
        assert(s.skip(0) =~= s);
        lemma_body_len(s, s.len() as int);
        assert(s.take(s.len() as int) =~= s);
    }
}

} // verus!
