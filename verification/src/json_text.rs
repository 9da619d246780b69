//! JSON text for flat objects of string members, through the `json` crate:
//! serializing a list of members, and reading the string members back out
//! of a JSON text.

use vstd::prelude::*;

verus! {

/// A hexadecimal digit, lower case, for `d < 16`.
pub open spec fn hex_digit(d: u32) -> char {
    if d < 10 {
        (48 + d) as char
    } else {
        (87 + d) as char
    }
}

/// How the `json` crate writes one character inside a string: `"` and `\`
/// and the control characters are escaped, everything else stands as it is.
pub open spec fn json_escaped_char(c: char) -> Seq<char> {
    if c == '"' {
        seq!['\\', '"']
    } else if c == '\\' {
        seq!['\\', '\\']
    } else if c == '\u{8}' {
        seq!['\\', 'b']
    } else if c == '\t' {
        seq!['\\', 't']
    } else if c == '\n' {
        seq!['\\', 'n']
    } else if c == '\u{c}' {
        seq!['\\', 'f']
    } else if c == '\r' {
        seq!['\\', 'r']
    } else if (c as u32) < 0x20 {
        seq!['\\', 'u', '0', '0', hex_digit((c as u32) / 16), hex_digit((c as u32) % 16)]
    } else {
        seq![c]
    }
}

/// The escaped characters of `s`.
pub open spec fn json_escaped(s: Seq<char>) -> Seq<char>
    decreases s.len(),
{
    if s.len() == 0 {
        Seq::empty()
    } else {
        json_escaped(s.drop_last()) + json_escaped_char(s.last())
    }
}

/// A JSON string literal holding `s`.
pub open spec fn json_string_text(s: Seq<char>) -> Seq<char> {
    seq!['"'] + json_escaped(s) + seq!['"']
}

/// One `"key":"value"` member.
pub open spec fn json_member_text(m: (Seq<char>, Seq<char>)) -> Seq<char> {
    json_string_text(m.0) + seq![':'] + json_string_text(m.1)
}

/// The members, separated by commas.
pub open spec fn json_members_text(ms: Seq<(Seq<char>, Seq<char>)>) -> Seq<char>
    decreases ms.len(),
{
    if ms.len() == 0 {
        Seq::empty()
    } else if ms.len() == 1 {
        json_member_text(ms[0])
    } else {
        json_members_text(ms.drop_last()) + seq![','] + json_member_text(ms.last())
    }
}

/// The compact JSON object with the members `ms`, in order.
pub open spec fn json_object_text(ms: Seq<(Seq<char>, Seq<char>)>) -> Seq<char> {
    seq!['{'] + json_members_text(ms) + seq!['}']
}

/// No two members share a key.
pub open spec fn distinct_keys<V>(ms: Seq<(Seq<char>, V)>) -> bool {
    forall|i: int, j: int| 0 <= i < ms.len() && 0 <= j < ms.len() && i != j ==> ms[i].0 != ms[j].0
}

/// The members of a parsed text, each with a string value or none.
pub open spec fn as_parsed(ms: Seq<(Seq<char>, Seq<char>)>) -> Seq<(Seq<char>, Option<Seq<char>>)> {
    ms.map_values(|m: (Seq<char>, Seq<char>)| (m.0, Some(m.1)))
}

/// Serializes `members` as a JSON object, through the `json` crate
/// (`Object::insert` for each member, then `JsonValue::dump`).
/// Trusted: for members with distinct keys the dump is the compact object
/// text above, members in insertion order, strings escaped by the crate's
/// escape table.
#[verifier::external_body]
pub(crate) fn json_object_of_strings(members: &Vec<(String, String)>) -> (r: String)
    requires
        distinct_keys(members.deep_view()),
    ensures
        r@ == json_object_text(members.deep_view()),
{
    let mut obj = json::object::Object::new();
    for (k, v) in members.iter() {
        obj.insert(k, json::JsonValue::String(v.clone()));
    }
    json::JsonValue::Object(obj).dump()
}

/// What `json::parse` makes of `text`, seen as a flat object: `None` when
/// the text is not JSON or not an object; else each member with its string
/// value, or `None` where the value is not a string.
pub uninterp spec fn json_string_members(text: Seq<char>) -> Option<Seq<(Seq<char>, Option<Seq<char>>)>>;

/// Parses `text` with `json::parse` and reads out the members of the
/// object it holds (`Object::iter`, `JsonValue::as_str`).
/// Trusted: the result is a function of `text` alone; and the parser
/// reads back what `json_object_of_strings` writes: the same members in
/// the same order, each with its string value. The parser counts a
/// number's fraction digits down in an `i16` exponent, which overflows (and
/// panics) past 32768 digits, so no run of digits outside strings may be
/// longer than [`MAX_NUMBER_DIGITS`].
#[verifier::external_body]
pub(crate) fn parse_json_object(text: &str) -> (r: Option<Vec<(String, Option<String>)>>)
    requires
        numbers_bounded(text@),
    ensures
        r.deep_view() == json_string_members(text@),
        forall|ms: Seq<(Seq<char>, Seq<char>)>|
            distinct_keys(ms) && text@ == json_object_text(ms) ==> r.deep_view() == Some(
                as_parsed(ms),
            ),
{
    match json::parse(text) {
        Ok(json::JsonValue::Object(obj)) => {
            let mut out = Vec::new();
            for (k, v) in obj.iter() {
                out.push((k.to_string(), v.as_str().map(str::to_string)));
            }
            Some(out)
        },
        _ => None,
    }
}


// ---------------------------------------------------------------------------
// Reading an escaped string back: the escapes above lose nothing.

/// The value of a lower-case hexadecimal digit.
pub open spec fn hex_value(c: char) -> int {
    if '0' <= c <= '9' {
        c as int - 48
    } else {
        c as int - 87
    }
}

/// The first character that the escaped text `t` stands for, and how many
/// characters of `t` it takes; a width of 0 where `t` does not begin with
/// one of the escapes above.
pub open spec fn unescape_first(t: Seq<char>) -> (char, int) {
    if t.len() == 0 {
        (' ', 0)
    } else if t[0] != '\\' {
        (t[0], 1)
    } else if t.len() < 2 {
        (' ', 0)
    } else if t[1] == '"' {
        ('"', 2)
    } else if t[1] == '\\' {
        ('\\', 2)
    } else if t[1] == 'b' {
        ('\u{8}', 2)
    } else if t[1] == 't' {
        ('\t', 2)
    } else if t[1] == 'n' {
        ('\n', 2)
    } else if t[1] == 'f' {
        ('\u{c}', 2)
    } else if t[1] == 'r' {
        ('\r', 2)
    } else if t.len() >= 6 && t[1] == 'u' && t[2] == '0' && t[3] == '0' {
        ((16 * hex_value(t[4]) + hex_value(t[5])) as char, 6)
    } else {
        (' ', 0)
    }
}

/// Reads escaped text up to its closing, unescaped quote: the characters it
/// stands for, and how many characters it took, the quote included.
pub open spec fn unescape_until_quote(t: Seq<char>) -> Option<(Seq<char>, int)>
    decreases t.len(),
{
    if t.len() == 0 {
        None
    } else if t[0] == '"' {
        Some((Seq::empty(), 1))
    } else {
        let (c, n) = unescape_first(t);
        if 0 < n <= t.len() {
            match unescape_until_quote(t.skip(n)) {
                Some((s, m)) => Some((seq![c] + s, n + m)),
                None => None,
            }
        } else {
            None
        }
    }
}

proof fn lemma_escaped_front(s: Seq<char>)
    requires
        s.len() > 0,
    ensures
        json_escaped(s) == json_escaped_char(s[0]) + json_escaped(s.drop_first()),
    decreases s.len(),
{
    if s.len() == 1 {
        assert(s.drop_last() =~= Seq::<char>::empty());
        assert(s.drop_first() =~= Seq::<char>::empty());
        assert(json_escaped(s.drop_last()) =~= Seq::<char>::empty());
        assert(json_escaped(s.drop_first()) =~= Seq::<char>::empty());
        assert(s.last() == s[0]);
        assert(json_escaped(s) =~= json_escaped_char(s[0]));
    } else {
        lemma_escaped_front(s.drop_last());
        assert(s.drop_last().drop_first() =~= s.drop_first().drop_last());
        assert(s.drop_first().last() == s.last());
        assert(s.drop_last()[0] == s[0]);
    }
}

proof fn lemma_unescape_char(c: char, r: Seq<char>)
    ensures
        json_escaped_char(c).len() > 0,
        json_escaped_char(c)[0] != '"',
        unescape_first(json_escaped_char(c) + r) == (c, json_escaped_char(c).len() as int),
{
    let e = json_escaped_char(c);
    let t = e + r;
    if (c as u32) < 0x20 && c != '\u{8}' && c != '\t' && c != '\n' && c != '\u{c}' && c != '\r' {
        let u = c as u32;
        let hi = u / 16;
        let lo = u % 16;
        assert(hi < 2);
        assert(t[4] == hex_digit(hi));
        assert(t[5] == hex_digit(lo));
        assert(hex_value(hex_digit(hi)) == hi);
        assert(hex_value(hex_digit(lo)) == lo);
        assert(16 * hi + lo == u);
        assert((u as int) as char == c);
    }
}

/// An escaped string followed by a quote reads back as the string, taking
/// exactly its escaped length and the quote.
pub proof fn lemma_unescape(s: Seq<char>, r: Seq<char>)
    ensures
        unescape_until_quote(json_escaped(s) + seq!['"'] + r) == Some(
            (s, json_escaped(s).len() + 1int),
        ),
    decreases s.len(),
{
    let t = json_escaped(s) + seq!['"'] + r;
    if s.len() == 0 {
        assert(json_escaped(s) =~= Seq::<char>::empty());
        assert(t[0] == '"');
        assert(s =~= Seq::<char>::empty());
    } else {
        lemma_escaped_front(s);
        let e = json_escaped_char(s[0]);
        let rest = json_escaped(s.drop_first()) + seq!['"'] + r;
        assert(t =~= e + rest);
        lemma_unescape_char(s[0], rest);
        assert(t.skip(e.len() as int) =~= rest);
        lemma_unescape(s.drop_first(), r);
        assert(seq![s[0]] + s.drop_first() =~= s);
    }
}

/// Two JSON string literals at the same place of two equal texts hold the
/// same string, and what follows them is the same.
pub proof fn lemma_string_literal_determined(a: Seq<char>, x: Seq<char>, b: Seq<char>, y: Seq<char>, c: Seq<char>)
    requires
        a + json_string_text(x) + b == a + json_string_text(y) + c,
    ensures
        x == y,
        b == c,
{
    let l = a + json_string_text(x) + b;
    let r = a + json_string_text(y) + c;
    let tl = l.skip(a.len() + 1int);
    let tr = r.skip(a.len() + 1int);
    assert(tl =~= json_escaped(x) + seq!['"'] + b);
    assert(tr =~= json_escaped(y) + seq!['"'] + c);
    assert(tl == tr);
    lemma_unescape(x, b);
    lemma_unescape(y, c);
    let n: int = json_escaped(x).len() + 1int;
    assert(tl.skip(n) =~= b);
    assert(tr.skip(n) =~= c);
}


// ---------------------------------------------------------------------------
// Runs of digits outside strings: what bounds the numbers of a JSON text.

/// The most digits a run of digits outside strings may have.
pub const MAX_NUMBER_DIGITS: usize = 32768;

/// Where a left-to-right reading of a JSON text stands: outside strings,
/// inside a string, or just after a backslash inside a string.
pub enum Scan {
    Out,
    In,
    Escape,
}

/// The reading state, the length of the run of digits outside strings that
/// ends here, and whether every such run so far is within the bound.
pub type ScanState = (Scan, nat, bool);

pub open spec fn is_digit(c: char) -> bool {
    '0' <= c <= '9'
}

/// One character of reading.
pub open spec fn scan_step(st: ScanState, c: char) -> ScanState {
    let (mode, run, ok) = st;
    match mode {
        Scan::Out => if c == '"' {
            (Scan::In, 0, ok)
        } else if is_digit(c) {
            (Scan::Out, run + 1, ok && run + 1 <= MAX_NUMBER_DIGITS)
        } else {
            (Scan::Out, 0, ok)
        },
        Scan::In => if c == '"' {
            (Scan::Out, 0, ok)
        } else if c == '\\' {
            (Scan::Escape, 0, ok)
        } else {
            (Scan::In, 0, ok)
        },
        Scan::Escape => (Scan::In, 0, ok),
    }
}

/// Reading `t` from the state `st`.
pub open spec fn scan_from(st: ScanState, t: Seq<char>) -> ScanState
    decreases t.len(),
{
    if t.len() == 0 {
        st
    } else {
        scan_step(scan_from(st, t.drop_last()), t.last())
    }
}

/// The state at the start of a text.
pub open spec fn scan_start() -> ScanState {
    (Scan::Out, 0, true)
}

/// No run of digits outside strings in `t` is longer than
/// [`MAX_NUMBER_DIGITS`].
pub open spec fn numbers_bounded(t: Seq<char>) -> bool {
    scan_from(scan_start(), t).2
}

/// Whether `text` has no run of digits outside strings longer than
/// [`MAX_NUMBER_DIGITS`].
pub fn numbers_bounded_in(text: &str) -> (r: bool)
    ensures
        r == numbers_bounded(text@),
{
    let mut mode: u8 = 0;
    let mut run: usize = 0;
    let mut ok = true;
    let mut it_index: usize = 0;
    let ghost t = text@;
    let n = text.unicode_len();
    while it_index < n
        invariant
            t == text@,
            n == t.len(),
            it_index <= n,
            run <= MAX_NUMBER_DIGITS,
            mode <= 2,
            ({
                let st = scan_from(scan_start(), t.take(it_index as int));
                &&& st.0 == (if mode == 0 { Scan::Out } else if mode == 1 { Scan::In } else { Scan::Escape })
                &&& ok ==> st.1 == run
                &&& st.2 == ok
            }),
        decreases n - it_index,
    {
        let c = text.get_char(it_index);
        proof {
            assert(t.take(it_index + 1).drop_last() =~= t.take(it_index as int));
            assert(t.take(it_index + 1).last() == c);
        }
        if mode == 0 {
            if c == '"' {
                mode = 1;
                run = 0;
            } else if '0' <= c && c <= '9' {
                if run < MAX_NUMBER_DIGITS {
                    run = run + 1;
                } else {
                    ok = false;
                    run = 0;
                }
            } else {
                run = 0;
            }
        } else if mode == 1 {
            if c == '"' {
                mode = 0;
            } else if c == '\\' {
                mode = 2;
            }
            run = 0;
        } else {
            mode = 1;
            run = 0;
        }
        it_index = it_index + 1;
    }
    proof {
        assert(t.take(n as int) =~= t);
    }
    ok
}

proof fn lemma_scan_append(st: ScanState, a: Seq<char>, b: Seq<char>)
    ensures
        scan_from(st, a + b) == scan_from(scan_from(st, a), b),
    decreases b.len(),
{
    if b.len() == 0 {
        assert(a + b =~= a);
    } else {
        assert((a + b).drop_last() =~= a + b.drop_last());
        assert((a + b).last() == b.last());
        lemma_scan_append(st, a, b.drop_last());
    }
}

proof fn lemma_scan_push(st: ScanState, t: Seq<char>, c: char)
    ensures
        scan_from(st, t.push(c)) == scan_step(scan_from(st, t), c),
{
    assert(t.push(c).drop_last() =~= t);
    assert(t.push(c).last() == c);
}

proof fn lemma_scan_escaped_char(ok: bool, c: char)
    ensures
        scan_from((Scan::In, 0, ok), json_escaped_char(c)) == (Scan::In, 0nat, ok),
{
    let st = (Scan::In, 0nat, ok);
    let e = json_escaped_char(c);
    let z = Seq::<char>::empty();
    assert(scan_from(st, z) == st);
    if e.len() == 1 {
        assert(e =~= z.push(e[0]));
        lemma_scan_push(st, z, e[0]);
    } else if e.len() == 2 {
        assert(e =~= z.push('\\').push(e[1]));
        lemma_scan_push(st, z, '\\');
        lemma_scan_push(st, z.push('\\'), e[1]);
    } else {
        let u = c as u32;
        assert(u / 16 < 2);
        assert(u % 16 < 16);
        let t1 = z.push('\\');
        let t2 = t1.push('u');
        let t3 = t2.push('0');
        let t4 = t3.push('0');
        let t5 = t4.push(e[4]);
        assert(e =~= t5.push(e[5]));
        assert(e[4] != '"' && e[4] != '\\' && e[5] != '"' && e[5] != '\\');
        lemma_scan_push(st, z, '\\');
        lemma_scan_push(st, t1, 'u');
        lemma_scan_push(st, t2, '0');
        lemma_scan_push(st, t3, '0');
        lemma_scan_push(st, t4, e[4]);
        lemma_scan_push(st, t5, e[5]);
    }
}

proof fn lemma_scan_escaped(ok: bool, s: Seq<char>)
    ensures
        scan_from((Scan::In, 0, ok), json_escaped(s)) == (Scan::In, 0nat, ok),
    decreases s.len(),
{
    if s.len() > 0 {
        lemma_scan_escaped(ok, s.drop_last());
        lemma_scan_append((Scan::In, 0, ok), json_escaped(s.drop_last()), json_escaped_char(s.last()));
        lemma_scan_escaped_char(ok, s.last());
    } else {
        assert(json_escaped(s) =~= Seq::<char>::empty());
    }
}

proof fn lemma_scan_char(st: ScanState, c: char)
    ensures
        scan_from(st, seq![c]) == scan_step(st, c),
{
    let z = Seq::<char>::empty();
    assert(scan_from(st, z) == st);
    assert(seq![c] =~= z.push(c));
    lemma_scan_push(st, z, c);
}

proof fn lemma_scan_string(s: Seq<char>)
    ensures
        scan_from(scan_start(), json_string_text(s)) == scan_start(),
{
    let st0 = scan_start();
    lemma_scan_append(st0, seq!['"'] + json_escaped(s), seq!['"']);
    lemma_scan_append(st0, seq!['"'], json_escaped(s));
    lemma_scan_char(st0, '"');
    lemma_scan_escaped(true, s);
    lemma_scan_char((Scan::In, 0, true), '"');
}

proof fn lemma_scan_member(m: (Seq<char>, Seq<char>))
    ensures
        scan_from(scan_start(), json_member_text(m)) == scan_start(),
{
    let st0 = scan_start();
    lemma_scan_append(st0, json_string_text(m.0) + seq![':'], json_string_text(m.1));
    lemma_scan_append(st0, json_string_text(m.0), seq![':']);
    lemma_scan_string(m.0);
    lemma_scan_string(m.1);
    lemma_scan_char(st0, ':');
}

proof fn lemma_scan_members(ms: Seq<(Seq<char>, Seq<char>)>)
    ensures
        scan_from(scan_start(), json_members_text(ms)) == scan_start(),
    decreases ms.len(),
{
    let st0 = scan_start();
    if ms.len() == 0 {
        assert(json_members_text(ms) =~= Seq::<char>::empty());
    } else if ms.len() == 1 {
        lemma_scan_member(ms[0]);
    } else {
        lemma_scan_members(ms.drop_last());
        lemma_scan_append(st0, json_members_text(ms.drop_last()) + seq![','], json_member_text(ms.last()));
        lemma_scan_append(st0, json_members_text(ms.drop_last()), seq![',']);
        lemma_scan_char(st0, ',');
        lemma_scan_member(ms.last());
    }
}

/// The object text written for string members holds no digits outside
/// strings, so its numbers are bounded.
pub proof fn lemma_object_text_bounded(ms: Seq<(Seq<char>, Seq<char>)>)
    ensures
        numbers_bounded(json_object_text(ms)),
{
    let st0 = scan_start();
    lemma_scan_append(st0, seq!['{'] + json_members_text(ms), seq!['}']);
    lemma_scan_append(st0, seq!['{'], json_members_text(ms));
    lemma_scan_char(st0, '{');
    lemma_scan_members(ms);
    lemma_scan_char(st0, '}');
}

} // verus!
