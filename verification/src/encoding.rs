//! The textual form in which payloads, configurations, blocks and whole
//! ledgers travel on the wire and rest on disk: a fixed-layout JSON-style
//! rendering, written and read by this module alone. Strings are quoted with
//! only the quote and the backslash escaped; fields always appear in the
//! same order. Every renderer has a parser that reads back exactly what it
//! wrote.

use vstd::prelude::*;
use crate::text::chars_to_string;
use crate::text::str_to_chars;

verus! {

/// How one character is written inside a quoted string.
pub open spec fn esc_char(c: char) -> Seq<char> {
    if c == '"' {
        seq!['\\', '"']
    } else if c == '\\' {
        seq!['\\', '\\']
    } else {
        seq![c]
    }
}

/// A text with every character written in its escaped form.
pub open spec fn json_escape(s: Seq<char>) -> Seq<char>
    decreases s.len(),
{
    if s.len() == 0 {
        Seq::<char>::empty()
    } else {
        esc_char(s.first()) + json_escape(s.drop_first())
    }
}

/// A quoted, escaped string.
pub open spec fn render_string(s: Seq<char>) -> Seq<char> {
    seq!['"'] + json_escape(s) + seq!['"']
}

/// Reading the inside of a quoted string from position `i` to its closing
/// quote: the unescaped text and the position after the quote.
pub open spec fn spec_parse_string_chars(s: Seq<char>, i: int) -> Option<(Seq<char>, int)>
    recommends
        0 <= i <= s.len(),
    decreases s.len() - i,
{
    if i < 0 || i >= s.len() {
        None
    } else if s[i] == '"' {
        Some((Seq::<char>::empty(), i + 1))
    } else if s[i] == '\\' {
        if i + 1 >= s.len() {
            None
        } else if s[i + 1] == '"' || s[i + 1] == '\\' {
            match spec_parse_string_chars(s, i + 2) {
                Some(p) => Some((seq![s[i + 1]] + p.0, p.1)),
                None => None,
            }
        } else {
            None
        }
    } else {
        match spec_parse_string_chars(s, i + 1) {
            Some(p) => Some((seq![s[i]] + p.0, p.1)),
            None => None,
        }
    }
}

/// Reading a whole quoted string at position `i`.
pub open spec fn spec_parse_string(s: Seq<char>, i: int) -> Option<(Seq<char>, int)>
    recommends
        0 <= i <= s.len(),
{
    if 0 <= i < s.len() && s[i] == '"' {
        spec_parse_string_chars(s, i + 1)
    } else {
        None
    }
}

/// Splits knowledge of a subrange equal to a concatenation into knowledge of
/// its two parts.
pub proof fn lemma_subrange_split(s: Seq<char>, i: int, a: Seq<char>, b: Seq<char>)
    requires
        0 <= i,
        i + a.len() + b.len() <= s.len(),
        s.subrange(i, i + a.len() + b.len()) == a + b,
    ensures
        s.subrange(i, i + a.len()) == a,
        s.subrange(i + a.len(), i + a.len() + b.len()) == b,
{
    let whole = s.subrange(i, i + a.len() + b.len());
    assert forall|k: int| 0 <= k < a.len() implies s.subrange(i, i + a.len())[k] == a[k] by {
        assert(s.subrange(i, i + a.len())[k] == s[i + k]);
        assert(s[i + k] == whole[k]);
        assert((a + b)[k] == a[k]);
    }
    assert(s.subrange(i, i + a.len()) =~= a);
    assert forall|k: int| 0 <= k < b.len() implies s.subrange(
        i + a.len(),
        i + a.len() + b.len(),
    )[k] == b[k] by {
        assert(s.subrange(i + a.len(), i + a.len() + b.len())[k] == s[i + a.len() + k]);
        assert(s[i + a.len() + k] == whole[a.len() + k]);
        assert((a + b)[a.len() + k] == b[k]);
    }
    assert(s.subrange(i + a.len(), i + a.len() + b.len()) =~= b);
}

/// An escaped text laid down before a closing quote reads back as the text
/// it was made from.
pub proof fn lemma_parse_string_chars_at(s: Seq<char>, i: int, cs: Seq<char>)
    requires
        0 <= i,
        i + json_escape(cs).len() + 1 <= s.len(),
        s.subrange(i, i + json_escape(cs).len()) == json_escape(cs),
        s[i + json_escape(cs).len()] == '"',
    ensures
        spec_parse_string_chars(s, i) == Some((cs, i + json_escape(cs).len() + 1)),
    decreases cs.len(),
{
    let esc = json_escape(cs);
    if cs.len() == 0 {
        assert(esc.len() == 0);
        assert(s[i] == '"');
    } else {
        let e = esc_char(cs.first());
        let rest = cs.drop_first();
        assert(esc == e + json_escape(rest));
        lemma_subrange_split(s, i, e, json_escape(rest));
        let ei = i + e.len();
        assert(s.subrange(ei, ei + json_escape(rest).len()) == json_escape(rest));
        assert(s[ei + json_escape(rest).len()] == '"');
        lemma_parse_string_chars_at(s, ei, rest);
        if cs.first() == '"' || cs.first() == '\\' {
            assert(e.len() == 2);
            assert(s[i] == e[0] && s[i + 1] == e[1]) by {
                assert(s.subrange(i, i + 2)[0] == s[i]);
                assert(s.subrange(i, i + 2)[1] == s[i + 1]);
            }
            assert(s[i] == '\\');
            assert(s[i + 1] == cs.first());
            assert(spec_parse_string_chars(s, i) == Some(
                (seq![s[i + 1]] + rest, i + esc.len() + 1),
            ));
            assert(seq![cs.first()] + rest =~= cs);
        } else {
            assert(e.len() == 1);
            assert(s[i] == e[0]) by {
                assert(s.subrange(i, i + 1)[0] == s[i]);
            }
            assert(s[i] == cs.first());
            assert(s[i] != '"' && s[i] != '\\');
            assert(spec_parse_string_chars(s, i) == Some(
                (seq![s[i]] + rest, i + esc.len() + 1),
            ));
            assert(seq![cs.first()] + rest =~= cs);
        }
    }
}

/// A quoted string laid down in a longer text reads back as the text it was
/// made from.
pub proof fn lemma_parse_string_at(s: Seq<char>, i: int, cs: Seq<char>)
    requires
        0 <= i,
        i + render_string(cs).len() <= s.len(),
        s.subrange(i, i + render_string(cs).len()) == render_string(cs),
    ensures
        spec_parse_string(s, i) == Some((cs, i + render_string(cs).len())),
{
    let q = seq!['"'];
    assert(render_string(cs) =~= q + (json_escape(cs) + q));
    lemma_subrange_split(s, i, q, json_escape(cs) + q);
    assert(s[i] == '"') by {
        assert(s.subrange(i, i + 1)[0] == s[i]);
    }
    lemma_subrange_split(s, i + 1, json_escape(cs), q);
    assert(s[i + 1 + json_escape(cs).len()] == '"') by {
        let a = i + 1 + json_escape(cs).len();
        assert(s.subrange(a, a + 1)[0] == s[a]);
    }
    lemma_parse_string_chars_at(s, i + 1, cs);
}

/// Appends a string slice's characters to a character buffer.
pub fn append_str(out: &mut Vec<char>, s: &str)
    ensures
        final(out)@ == old(out)@ + s@,
{
    let mut cs = str_to_chars(s);
    out.append(&mut cs);
}

/// Appends the quoted, escaped form of a string.
pub fn append_json_string(out: &mut Vec<char>, s: &str)
    ensures
        final(out)@ == old(out)@ + render_string(s@),
{
    out.push('"');
    let cs = str_to_chars(s);
    let ghost base = out@;
    let mut k: usize = 0;
    assert(cs@.skip(0) =~= cs@);
    while k < cs.len()
        invariant
            k <= cs@.len(),
            out@ + json_escape(cs@.skip(k as int)) == base + json_escape(cs@),
        decreases cs@.len() - k,
    {
        let c = cs[k];
        proof {
            assert(cs@.skip(k as int).first() == cs@[k as int]);
            assert(cs@.skip(k as int).drop_first() =~= cs@.skip(k as int + 1));
        }
        if c == '"' {
            out.push('\\');
            out.push('"');
        } else if c == '\\' {
            out.push('\\');
            out.push('\\');
        } else {
            out.push(c);
        }
        k = k + 1;
        assert(out@ + json_escape(cs@.skip(k as int)) =~= base + json_escape(cs@));
    }
    assert(cs@.skip(cs@.len() as int) =~= Seq::<char>::empty());
    out.push('"');
    assert(out@ =~= old(out)@ + render_string(s@));
}

/// Joins a parsed prefix onto the outcome of parsing the remainder of a
/// quoted string.
pub open spec fn opt_prepend(pre: Seq<char>, o: Option<(Seq<char>, int)>) -> Option<
    (Seq<char>, int),
> {
    match o {
        Some(p) => Some((pre + p.0, p.1)),
        None => None,
    }
}

/// Reads a quoted string, returning exactly what `spec_parse_string` says.
pub fn parse_string(s: &Vec<char>, i: usize) -> (r: Option<(String, usize)>)
    requires
        i <= s@.len(),
    ensures
        match r {
            Some(p) => {
                &&& spec_parse_string(s@, i as int) matches Some(q)
                &&& q.0 == p.0@
                &&& q.1 == p.1 as int
                &&& i < p.1 <= s@.len()
            },
            None => spec_parse_string(s@, i as int) is None,
        },
{
    if i >= s.len() {
        return None;
    }
    if s[i] != '"' {
        return None;
    }
    let mut acc: Vec<char> = Vec::new();
    let mut cur: usize = i + 1;
    assert(acc@ + Seq::<char>::empty() =~= acc@);
    loop
        invariant
            i + 1 <= cur <= s@.len(),
            spec_parse_string(s@, i as int) == opt_prepend(
                acc@,
                spec_parse_string_chars(s@, cur as int),
            ),
        decreases s@.len() - cur,
    {
        if cur == s.len() {
            return None;
        }
        let c = s[cur];
        if c == '"' {
            assert(acc@ + Seq::<char>::empty() =~= acc@);
            let out = chars_to_string(&acc);
            return Some((out, cur + 1));
        } else if c == '\\' {
            if cur + 1 == s.len() {
                return None;
            }
            let d = s[cur + 1];
            if d == '"' || d == '\\' {
                proof {
                    match spec_parse_string_chars(s@, cur as int + 2) {
                        Some(p) => {
                            assert(acc@ + (seq![s@[cur as int + 1]] + p.0) =~= acc@.push(
                                s@[cur as int + 1]) + p.0);
                        },
                        None => {},
                    }
                }
                acc.push(d);
                cur = cur + 2;
            } else {
                return None;
            }
        } else {
            proof {
                match spec_parse_string_chars(s@, cur as int + 1) {
                    Some(p) => {
                        assert(acc@ + (seq![s@[cur as int]] + p.0) =~= acc@.push(s@[
                            cur as int]) + p.0);
                    },
                    None => {},
                }
            }
            acc.push(c);
            cur = cur + 1;
        }
    }
}

/// Reading a fixed text at position `i`: the position after it, where it is
/// present.
pub open spec fn spec_expect(s: Seq<char>, i: int, lit: Seq<char>) -> Option<int> {
    if 0 <= i && i + lit.len() <= s.len() && s.subrange(i, i + lit.len()) == lit {
        Some(i + lit.len())
    } else {
        None
    }
}

/// Reads a fixed text, returning exactly what `spec_expect` says.
pub fn expect(s: &Vec<char>, i: usize, lit: &str) -> (r: Option<usize>)
    requires
        i <= s@.len(),
    ensures
        match r {
            Some(j) => spec_expect(s@, i as int, lit@) == Some(j as int) && i <= j <= s@.len(),
            None => spec_expect(s@, i as int, lit@) is None,
        },
{
    let cs = str_to_chars(lit);
    let n = s.len();
    if n - i < cs.len() {
        return None;
    }
    let mut k: usize = 0;
    while k < cs.len()
        invariant
            k <= cs@.len(),
            n == s@.len(),
            i + cs@.len() <= n,
            cs@ == lit@,
            forall|m: int| 0 <= m < k ==> s@[i + m] == cs@[m],
        decreases cs@.len() - k,
    {
        if s[i + k] != cs[k] {
            proof {
                let sub = s@.subrange(i as int, i + lit@.len());
                assert(sub[k as int] == s@[i + k]);
                assert(sub != lit@);
            }
            return None;
        }
        k = k + 1;
    }
    assert(s@.subrange(i as int, i + lit@.len()) =~= lit@);
    Some(i + cs.len())
}

/// The written form of a boolean.
pub open spec fn render_bool(b: bool) -> Seq<char> {
    if b {
        "true"@
    } else {
        "false"@
    }
}

/// Reading a boolean at position `i`.
pub open spec fn spec_parse_bool(s: Seq<char>, i: int) -> Option<(bool, int)> {
    match spec_expect(s, i, "true"@) {
        Some(j) => Some((true, j)),
        None => match spec_expect(s, i, "false"@) {
            Some(j) => Some((false, j)),
            None => None,
        },
    }
}

/// Reads a boolean, returning exactly what `spec_parse_bool` says.
pub fn parse_bool(s: &Vec<char>, i: usize) -> (r: Option<(bool, usize)>)
    requires
        i <= s@.len(),
    ensures
        match r {
            Some(p) => spec_parse_bool(s@, i as int) == Some((p.0, p.1 as int)) && i <= p.1
                <= s@.len(),
            None => spec_parse_bool(s@, i as int) is None,
        },
{
    match expect(s, i, "true") {
        Some(j) => Some((true, j)),
        None => match expect(s, i, "false") {
            Some(j) => Some((false, j)),
            None => None,
        },
    }
}

/// A boolean laid down in a longer text reads back as itself.
pub proof fn lemma_parse_bool_at(s: Seq<char>, i: int, b: bool)
    requires
        0 <= i,
        i + render_bool(b).len() <= s.len(),
        s.subrange(i, i + render_bool(b).len()) == render_bool(b),
    ensures
        spec_parse_bool(s, i) == Some((b, i + render_bool(b).len())),
{
    reveal_strlit("true");
    reveal_strlit("false");
    if b {
    } else {
        assert(s[i] == 'f') by {
            assert(s.subrange(i, i + 5)[0] == s[i]);
        }
        assert(spec_expect(s, i, "true"@) is None) by {
            if i + 4 <= s.len() && s.subrange(i, i + 4) == "true"@ {
                assert(s.subrange(i, i + 4)[0] == s[i]);
            }
        }
    }
}

/// The written form of an optional string: `null`, or the quoted string.
pub open spec fn render_opt_string(v: Option<Seq<char>>) -> Seq<char> {
    match v {
        Some(cs) => render_string(cs),
        None => "null"@,
    }
}

/// Reading an optional string at position `i`.
pub open spec fn spec_parse_opt_string(s: Seq<char>, i: int) -> Option<
    (Option<Seq<char>>, int),
> {
    if 0 <= i < s.len() && s[i] == '"' {
        match spec_parse_string(s, i) {
            Some(p) => Some((Some(p.0), p.1)),
            None => None,
        }
    } else {
        match spec_expect(s, i, "null"@) {
            Some(j) => Some((None, j)),
            None => None,
        }
    }
}

/// Reads an optional string, returning exactly what `spec_parse_opt_string`
/// says.
pub fn parse_opt_string(s: &Vec<char>, i: usize) -> (r: Option<(Option<String>, usize)>)
    requires
        i <= s@.len(),
    ensures
        match r {
            Some(p) => {
                &&& spec_parse_opt_string(s@, i as int) matches Some(q)
                &&& (match (q.0, &p.0) {
                    (Some(cs), Some(v)) => cs == v@,
                    (None, None) => true,
                    _ => false,
                })
                &&& q.1 == p.1 as int
                &&& i <= p.1 <= s@.len()
            },
            None => spec_parse_opt_string(s@, i as int) is None,
        },
{
    if i < s.len() && s[i] == '"' {
        match parse_string(s, i) {
            Some((v, j)) => Some((Some(v), j)),
            None => None,
        }
    } else {
        match expect(s, i, "null") {
            Some(j) => Some((None, j)),
            None => None,
        }
    }
}

/// An optional string laid down in a longer text reads back as itself.
pub proof fn lemma_parse_opt_string_at(s: Seq<char>, i: int, v: Option<Seq<char>>)
    requires
        0 <= i,
        i + render_opt_string(v).len() <= s.len(),
        s.subrange(i, i + render_opt_string(v).len()) == render_opt_string(v),
    ensures
        spec_parse_opt_string(s, i) == Some((v, i + render_opt_string(v).len())),
{
    match v {
        Some(cs) => {
            assert(s[i] == '"') by {
                assert(render_string(cs)[0] == '"');
                assert(s.subrange(i, i + render_string(cs).len())[0] == s[i]);
            }
            lemma_parse_string_at(s, i, cs);
        },
        None => {
            reveal_strlit("null");
            assert(s[i] == 'n') by {
                assert(s.subrange(i, i + 4)[0] == s[i]);
            }
        },
    }
}

/// The written form of an optional number: `null`, or its numeral.
pub open spec fn render_opt_u64(v: Option<u64>) -> Seq<char> {
    match v {
        Some(n) => crate::text::dec_chars(n as nat),
        None => "null"@,
    }
}

/// Reading an optional number at position `i`.
pub open spec fn spec_parse_opt_u64(s: Seq<char>, i: int) -> Option<(Option<u64>, int)> {
    if 0 <= i < s.len() && crate::text::is_digit(s[i]) {
        match crate::text::spec_parse_u64(s, i) {
            Some(p) => Some((Some(p.0), p.1)),
            None => None,
        }
    } else {
        match spec_expect(s, i, "null"@) {
            Some(j) => Some((None, j)),
            None => None,
        }
    }
}

/// Reads an optional number, returning exactly what `spec_parse_opt_u64`
/// says.
pub fn parse_opt_u64(s: &Vec<char>, i: usize) -> (r: Option<(Option<u64>, usize)>)
    requires
        i <= s@.len(),
    ensures
        match r {
            Some(p) => spec_parse_opt_u64(s@, i as int) == Some((p.0, p.1 as int)) && i <= p.1
                <= s@.len(),
            None => spec_parse_opt_u64(s@, i as int) is None,
        },
{
    if i < s.len() && crate::text::char_is_digit(s[i]) {
        match crate::text::parse_u64(s, i) {
            Some((v, j)) => Some((Some(v), j)),
            None => None,
        }
    } else {
        match expect(s, i, "null") {
            Some(j) => Some((None, j)),
            None => None,
        }
    }
}

/// An optional numeral laid down in a longer text reads back as itself,
/// provided no digit directly follows it.
pub proof fn lemma_parse_opt_u64_at(s: Seq<char>, i: int, v: Option<u64>)
    requires
        0 <= i,
        i + render_opt_u64(v).len() <= s.len(),
        s.subrange(i, i + render_opt_u64(v).len()) == render_opt_u64(v),
        i + render_opt_u64(v).len() == s.len() || !crate::text::is_digit(
            s[i + render_opt_u64(v).len()],
        ),
    ensures
        spec_parse_opt_u64(s, i) == Some((v, i + render_opt_u64(v).len())),
{
    match v {
        Some(n) => {
            crate::text::lemma_dec_chars_val(n as nat);
            assert(crate::text::is_digit(s[i])) by {
                assert(s.subrange(i, i + render_opt_u64(v).len())[0] == s[i]);
            }
            crate::text::lemma_parse_u64_at(s, i, n);
        },
        None => {
            reveal_strlit("null");
            assert(s[i] == 'n') by {
                assert(s.subrange(i, i + 4)[0] == s[i]);
            }
            assert(!crate::text::is_digit('n'));
        },
    }
}

/// The written form of a message payload.
pub open spec fn render_mpayload(m: crate::payload::MPayloadView) -> Seq<char> {
    "{\"content\":"@ + render_string(m.content) + ",\"author\":"@ + render_string(m.author)
        + ",\"instance_id\":"@ + render_string(m.instance_id) + "}"@
}

/// Reading a message payload at position `i`.
pub open spec fn spec_parse_mpayload(s: Seq<char>, i: int) -> Option<
    (crate::payload::MPayloadView, int),
> {
    match spec_expect(s, i, "{\"content\":"@) {
        None => None,
        Some(j1) => match spec_parse_string(s, j1) {
            None => None,
            Some((content, j2)) => match spec_expect(s, j2, ",\"author\":"@) {
                None => None,
                Some(j3) => match spec_parse_string(s, j3) {
                    None => None,
                    Some((author, j4)) => match spec_expect(s, j4, ",\"instance_id\":"@) {
                        None => None,
                        Some(j5) => match spec_parse_string(s, j5) {
                            None => None,
                            Some((instance_id, j6)) => match spec_expect(s, j6, "}"@) {
                                None => None,
                                Some(j7) => Some(
                                    (
                                        crate::payload::MPayloadView {
                                            content,
                                            author,
                                            instance_id,
                                        },
                                        j7,
                                    ),
                                ),
                            },
                        },
                    },
                },
            },
        },
    }
}

/// Appends the written form of a message payload.
pub fn append_mpayload(out: &mut Vec<char>, m: &crate::payload::MPayload)
    ensures
        final(out)@ == old(out)@ + render_mpayload(m@),
{
    append_str(out, "{\"content\":");
    append_json_string(out, m.content.as_str());
    append_str(out, ",\"author\":");
    append_json_string(out, m.author.as_str());
    append_str(out, ",\"instance_id\":");
    append_json_string(out, m.instance_id.as_str());
    append_str(out, "}");
    assert(out@ =~= old(out)@ + render_mpayload(m@));
}

/// Reads a message payload, returning exactly what `spec_parse_mpayload`
/// says.
pub fn parse_mpayload(s: &Vec<char>, i: usize) -> (r: Option<(crate::payload::MPayload, usize)>)
    requires
        i <= s@.len(),
    ensures
        match r {
            Some(p) => {
                &&& spec_parse_mpayload(s@, i as int) matches Some(q)
                &&& q.0 == p.0@
                &&& q.1 == p.1 as int
                &&& i <= p.1 <= s@.len()
            },
            None => spec_parse_mpayload(s@, i as int) is None,
        },
{
    let j1 = match expect(s, i, "{\"content\":") {
        Some(j) => j,
        None => {
            return None;
        },
    };
    let (content, j2) = match parse_string(s, j1) {
        Some(p) => p,
        None => {
            return None;
        },
    };
    let j3 = match expect(s, j2, ",\"author\":") {
        Some(j) => j,
        None => {
            return None;
        },
    };
    let (author, j4) = match parse_string(s, j3) {
        Some(p) => p,
        None => {
            return None;
        },
    };
    let j5 = match expect(s, j4, ",\"instance_id\":") {
        Some(j) => j,
        None => {
            return None;
        },
    };
    let (instance_id, j6) = match parse_string(s, j5) {
        Some(p) => p,
        None => {
            return None;
        },
    };
    let j7 = match expect(s, j6, "}") {
        Some(j) => j,
        None => {
            return None;
        },
    };
    Some((crate::payload::MPayload { content, author, instance_id }, j7))
}

/// A message payload laid down in a longer text reads back as itself.
pub proof fn lemma_parse_mpayload_at(s: Seq<char>, i: int, m: crate::payload::MPayloadView)
    requires
        0 <= i,
        i + render_mpayload(m).len() <= s.len(),
        s.subrange(i, i + render_mpayload(m).len()) == render_mpayload(m),
    ensures
        spec_parse_mpayload(s, i) == Some((m, i + render_mpayload(m).len())),
{
    let p1 = "{\"content\":"@;
    let v1 = render_string(m.content);
    let p2 = ",\"author\":"@;
    let v2 = render_string(m.author);
    let p3 = ",\"instance_id\":"@;
    let v3 = render_string(m.instance_id);
    let p4 = "}"@;
    assert(render_mpayload(m) =~= p1 + (v1 + (p2 + (v2 + (p3 + (v3 + p4))))));
    lemma_subrange_split(s, i, p1, v1 + (p2 + (v2 + (p3 + (v3 + p4)))));
    let i1 = i + p1.len();
    lemma_subrange_split(s, i1, v1, p2 + (v2 + (p3 + (v3 + p4))));
    lemma_parse_string_at(s, i1, m.content);
    let i2 = i1 + v1.len();
    lemma_subrange_split(s, i2, p2, v2 + (p3 + (v3 + p4)));
    let i3 = i2 + p2.len();
    lemma_subrange_split(s, i3, v2, p3 + (v3 + p4));
    lemma_parse_string_at(s, i3, m.author);
    let i4 = i3 + v2.len();
    lemma_subrange_split(s, i4, p3, v3 + p4);
    let i5 = i4 + p3.len();
    lemma_subrange_split(s, i5, v3, p4);
    lemma_parse_string_at(s, i5, m.instance_id);
    let i6 = i5 + v3.len();
}

/// The written form of an offer payload.
pub open spec fn render_opayload(o: crate::payload::OPayloadView) -> Seq<char> {
    "{\"amount\":"@ + crate::text::dec_chars(o.amount as nat) + ",\"author\":"@ + render_string(
        o.author,
    ) + ",\"instance_id\":"@ + render_string(o.instance_id) + ",\"message\":"@
        + render_opt_string(o.message) + "}"@
}

/// Reading an offer payload at position `i`.
pub open spec fn spec_parse_opayload(s: Seq<char>, i: int) -> Option<
    (crate::payload::OPayloadView, int),
> {
    match spec_expect(s, i, "{\"amount\":"@) {
        None => None,
        Some(j1) => match crate::text::spec_parse_u64(s, j1) {
            None => None,
            Some((amount, j2)) => match spec_expect(s, j2, ",\"author\":"@) {
                None => None,
                Some(j3) => match spec_parse_string(s, j3) {
                    None => None,
                    Some((author, j4)) => match spec_expect(s, j4, ",\"instance_id\":"@) {
                        None => None,
                        Some(j5) => match spec_parse_string(s, j5) {
                            None => None,
                            Some((instance_id, j6)) => match spec_expect(
                                s,
                                j6,
                                ",\"message\":"@,
                            ) {
                                None => None,
                                Some(j7) => match spec_parse_opt_string(s, j7) {
                                    None => None,
                                    Some((message, j8)) => match spec_expect(s, j8, "}"@) {
                                        None => None,
                                        Some(j9) => Some(
                                            (
                                                crate::payload::OPayloadView {
                                                    amount,
                                                    author,
                                                    instance_id,
                                                    message,
                                                },
                                                j9,
                                            ),
                                        ),
                                    },
                                },
                            },
                        },
                    },
                },
            },
        },
    }
}

/// Appends the written form of an offer payload.
pub fn append_opayload(out: &mut Vec<char>, o: &crate::payload::OPayload)
    ensures
        final(out)@ == old(out)@ + render_opayload(o@),
{
    append_str(out, "{\"amount\":");
    crate::text::append_u64(out, o.amount);
    append_str(out, ",\"author\":");
    append_json_string(out, o.author.as_str());
    append_str(out, ",\"instance_id\":");
    append_json_string(out, o.instance_id.as_str());
    append_str(out, ",\"message\":");
    match &o.message {
        Some(msg) => {
            append_json_string(out, msg.as_str());
        },
        None => {
            append_str(out, "null");
        },
    }
    append_str(out, "}");
    assert(out@ =~= old(out)@ + render_opayload(o@));
}

/// Reads an offer payload, returning exactly what `spec_parse_opayload`
/// says.
pub fn parse_opayload(s: &Vec<char>, i: usize) -> (r: Option<(crate::payload::OPayload, usize)>)
    requires
        i <= s@.len(),
    ensures
        match r {
            Some(p) => {
                &&& spec_parse_opayload(s@, i as int) matches Some(q)
                &&& q.0 == p.0@
                &&& q.1 == p.1 as int
                &&& i <= p.1 <= s@.len()
            },
            None => spec_parse_opayload(s@, i as int) is None,
        },
{
    let j1 = match expect(s, i, "{\"amount\":") {
        Some(j) => j,
        None => {
            return None;
        },
    };
    let (amount, j2) = match crate::text::parse_u64(s, j1) {
        Some(p) => p,
        None => {
            return None;
        },
    };
    let j3 = match expect(s, j2, ",\"author\":") {
        Some(j) => j,
        None => {
            return None;
        },
    };
    let (author, j4) = match parse_string(s, j3) {
        Some(p) => p,
        None => {
            return None;
        },
    };
    let j5 = match expect(s, j4, ",\"instance_id\":") {
        Some(j) => j,
        None => {
            return None;
        },
    };
    let (instance_id, j6) = match parse_string(s, j5) {
        Some(p) => p,
        None => {
            return None;
        },
    };
    let j7 = match expect(s, j6, ",\"message\":") {
        Some(j) => j,
        None => {
            return None;
        },
    };
    let (message, j8) = match parse_opt_string(s, j7) {
        Some(p) => p,
        None => {
            return None;
        },
    };
    let j9 = match expect(s, j8, "}") {
        Some(j) => j,
        None => {
            return None;
        },
    };
    Some((crate::payload::OPayload { amount, author, instance_id, message }, j9))
}

/// An offer payload laid down in a longer text reads back as itself.
pub proof fn lemma_parse_opayload_at(s: Seq<char>, i: int, o: crate::payload::OPayloadView)
    requires
        0 <= i,
        i + render_opayload(o).len() <= s.len(),
        s.subrange(i, i + render_opayload(o).len()) == render_opayload(o),
    ensures
        spec_parse_opayload(s, i) == Some((o, i + render_opayload(o).len())),
{
    let p1 = "{\"amount\":"@;
    let v1 = crate::text::dec_chars(o.amount as nat);
    let p2 = ",\"author\":"@;
    let v2 = render_string(o.author);
    let p3 = ",\"instance_id\":"@;
    let v3 = render_string(o.instance_id);
    let p4 = ",\"message\":"@;
    let v4 = render_opt_string(o.message);
    let p5 = "}"@;
    assert(render_opayload(o) =~= p1 + (v1 + (p2 + (v2 + (p3 + (v3 + (p4 + (v4 + p5))))))));
    lemma_subrange_split(s, i, p1, v1 + (p2 + (v2 + (p3 + (v3 + (p4 + (v4 + p5)))))));
    let i1 = i + p1.len();
    lemma_subrange_split(s, i1, v1, p2 + (v2 + (p3 + (v3 + (p4 + (v4 + p5))))));
    let i2 = i1 + v1.len();
    reveal_strlit(",\"author\":");
    assert(s[i2] == ',') by {
        assert(s.subrange(i2, i2 + p2.len())[0] == s[i2]);
    }
    assert(!crate::text::is_digit(','));
    crate::text::lemma_parse_u64_at(s, i1, o.amount);
    lemma_subrange_split(s, i2, p2, v2 + (p3 + (v3 + (p4 + (v4 + p5)))));
    let i3 = i2 + p2.len();
    lemma_subrange_split(s, i3, v2, p3 + (v3 + (p4 + (v4 + p5))));
    lemma_parse_string_at(s, i3, o.author);
    let i4 = i3 + v2.len();
    lemma_subrange_split(s, i4, p3, v3 + (p4 + (v4 + p5)));
    let i5 = i4 + p3.len();
    lemma_subrange_split(s, i5, v3, p4 + (v4 + p5));
    lemma_parse_string_at(s, i5, o.instance_id);
    let i6 = i5 + v3.len();
    lemma_subrange_split(s, i6, p4, v4 + p5);
    let i7 = i6 + p4.len();
    lemma_subrange_split(s, i7, v4, p5);
    lemma_parse_opt_string_at(s, i7, o.message);
    let i8 = i7 + v4.len();
}

/// The written form of an optional member limit.
pub open spec fn opt_u16_as_u64(v: Option<u16>) -> Option<u64> {
    match v {
        Some(n) => Some(n as u64),
        None => None,
    }
}

/// The written form of a configuration's four trailing text fields.
pub open spec fn render_config_tail(c: crate::fchain::ConfigView) -> Seq<char> {
    ",\"description\":"@ + render_string(c.description) + ",\"name\":"@ + render_string(c.name)
        + ",\"hash\":"@ + render_opt_string(c.hash) + ",\"currency\":"@ + render_string(
        c.currency,
    ) + "}"@
}

/// The written form of a configuration.
pub open spec fn render_config(c: crate::fchain::ConfigView) -> Seq<char> {
    "{\"limit_members\":"@ + render_opt_u64(opt_u16_as_u64(c.limit_members))
        + ",\"private\":"@ + render_bool(c.private) + ",\"start_price\":"@ + render_opt_u64(
        c.start_price,
    ) + ",\"duration\":"@ + crate::text::dec_chars(c.duration as nat) + render_config_tail(c)
}

/// Reading a configuration at position `i`.
pub open spec fn spec_parse_config(s: Seq<char>, i: int) -> Option<
    (crate::fchain::ConfigView, int),
> {
    match spec_expect(s, i, "{\"limit_members\":"@) {
        None => None,
        Some(j1) => match spec_parse_opt_u64(s, j1) {
            None => None,
            Some((lm, j2)) => if !(lm matches Some(n) && n > u16::MAX) {
                match spec_expect(s, j2, ",\"private\":"@) {
                    None => None,
                    Some(j3) => match spec_parse_bool(s, j3) {
                        None => None,
                        Some((private, j4)) => match spec_expect(s, j4, ",\"start_price\":"@) {
                            None => None,
                            Some(j5) => match spec_parse_opt_u64(s, j5) {
                                None => None,
                                Some((start_price, j6)) => match spec_expect(
                                    s,
                                    j6,
                                    ",\"duration\":"@,
                                ) {
                                    None => None,
                                    Some(j7) => match crate::text::spec_parse_u64(s, j7) {
                                        None => None,
                                        Some((duration, j8)) => if duration <= u32::MAX
                                            as u64 {
                                            spec_parse_config_tail(
                                                s,
                                                j8,
                                                crate::fchain::ConfigView {
                                                    limit_members: match lm {
                                                        Some(n) => Some(n as u16),
                                                        None => None,
                                                    },
                                                    private,
                                                    start_price,
                                                    duration: duration as u32,
                                                    description: Seq::<char>::empty(),
                                                    name: Seq::<char>::empty(),
                                                    hash: None,
                                                    currency: Seq::<char>::empty(),
                                                },
                                            )
                                        } else {
                                            None
                                        },
                                    },
                                },
                            },
                        },
                    },
                }
            } else {
                None
            },
        },
    }
}

/// Reading the four trailing text fields of a configuration at position `i`,
/// filling them into `c`.
pub open spec fn spec_parse_config_tail(
    s: Seq<char>,
    i: int,
    c: crate::fchain::ConfigView,
) -> Option<(crate::fchain::ConfigView, int)> {
    match spec_expect(s, i, ",\"description\":"@) {
        None => None,
        Some(j1) => match spec_parse_string(s, j1) {
            None => None,
            Some((description, j2)) => match spec_expect(s, j2, ",\"name\":"@) {
                None => None,
                Some(j3) => match spec_parse_string(s, j3) {
                    None => None,
                    Some((name, j4)) => match spec_expect(s, j4, ",\"hash\":"@) {
                        None => None,
                        Some(j5) => match spec_parse_opt_string(s, j5) {
                            None => None,
                            Some((hash, j6)) => match spec_expect(s, j6, ",\"currency\":"@) {
                                None => None,
                                Some(j7) => match spec_parse_string(s, j7) {
                                    None => None,
                                    Some((currency, j8)) => match spec_expect(s, j8, "}"@) {
                                        None => None,
                                        Some(j9) => Some(
                                            (
                                                crate::fchain::ConfigView {
                                                    description,
                                                    name,
                                                    hash,
                                                    currency,
                                                    ..c
                                                },
                                                j9,
                                            ),
                                        ),
                                    },
                                },
                            },
                        },
                    },
                },
            },
        },
    }
}

/// Appends the written form of a boolean.
pub fn append_bool(out: &mut Vec<char>, b: bool)
    ensures
        final(out)@ == old(out)@ + render_bool(b),
{
    if b {
        append_str(out, "true");
    } else {
        append_str(out, "false");
    }
}

/// Appends the written form of an optional number.
pub fn append_opt_u64(out: &mut Vec<char>, v: Option<u64>)
    ensures
        final(out)@ == old(out)@ + render_opt_u64(v),
{
    match v {
        Some(n) => {
            crate::text::append_u64(out, n);
        },
        None => {
            append_str(out, "null");
        },
    }
}

/// Appends the written form of an optional string.
pub fn append_opt_string(out: &mut Vec<char>, v: &Option<String>)
    ensures
        final(out)@ == old(out)@ + render_opt_string(
            match *v {
                Some(ref h) => Some(h@),
                None => None,
            },
        ),
{
    match v {
        Some(h) => {
            append_json_string(out, h.as_str());
        },
        None => {
            append_str(out, "null");
        },
    }
}

/// Appends the written form of a configuration.
#[verifier::rlimit(80)]
pub fn append_config(out: &mut Vec<char>, c: &crate::fchain::CBCAConfig)
    ensures
        final(out)@ == old(out)@ + render_config(c@),
{
    append_str(out, "{\"limit_members\":");
    let lm: Option<u64> = match c.limit_members {
        Some(n) => Some(n as u64),
        None => None,
    };
    append_opt_u64(out, lm);
    append_str(out, ",\"private\":");
    append_bool(out, c.private);
    append_str(out, ",\"start_price\":");
    append_opt_u64(out, c.start_price);
    append_str(out, ",\"duration\":");
    crate::text::append_u64(out, c.duration as u64);
    let ghost head = old(out)@ + "{\"limit_members\":"@ + render_opt_u64(
        opt_u16_as_u64(c@.limit_members),
    ) + ",\"private\":"@ + render_bool(c@.private) + ",\"start_price\":"@ + render_opt_u64(
        c@.start_price,
    ) + ",\"duration\":"@ + crate::text::dec_chars(c@.duration as nat);
    assert(out@ =~= head);
    append_str(out, ",\"description\":");
    append_json_string(out, c.description.as_str());
    append_str(out, ",\"name\":");
    append_json_string(out, c.name.as_str());
    append_str(out, ",\"hash\":");
    append_opt_string(out, &c.hash);
    append_str(out, ",\"currency\":");
    append_json_string(out, c.currency.as_str());
    append_str(out, "}");
    assert(out@ =~= head + render_config_tail(c@));
    assert(out@ =~= old(out)@ + render_config(c@));
}

/// Reads a configuration, returning exactly what `spec_parse_config` says.
pub fn parse_config(s: &Vec<char>, i: usize) -> (r: Option<(crate::fchain::CBCAConfig, usize)>)
    requires
        i <= s@.len(),
    ensures
        match r {
            Some(p) => {
                &&& spec_parse_config(s@, i as int) matches Some(q)
                &&& q.0 == p.0@
                &&& q.1 == p.1 as int
                &&& i <= p.1 <= s@.len()
            },
            None => spec_parse_config(s@, i as int) is None,
        },
{
    let j1 = match expect(s, i, "{\"limit_members\":") {
        Some(j) => j,
        None => {
            return None;
        },
    };
    let (lm, j2) = match parse_opt_u64(s, j1) {
        Some(p) => p,
        None => {
            return None;
        },
    };
    let limit_members: Option<u16> = match lm {
        Some(n) => {
            if n > 0xffffu64 {
                return None;
            }
            Some(n as u16)
        },
        None => None,
    };
    let j3 = match expect(s, j2, ",\"private\":") {
        Some(j) => j,
        None => {
            return None;
        },
    };
    let (private, j4) = match parse_bool(s, j3) {
        Some(p) => p,
        None => {
            return None;
        },
    };
    let j5 = match expect(s, j4, ",\"start_price\":") {
        Some(j) => j,
        None => {
            return None;
        },
    };
    let (start_price, j6) = match parse_opt_u64(s, j5) {
        Some(p) => p,
        None => {
            return None;
        },
    };
    let j7 = match expect(s, j6, ",\"duration\":") {
        Some(j) => j,
        None => {
            return None;
        },
    };
    let (duration64, j8) = match crate::text::parse_u64(s, j7) {
        Some(p) => p,
        None => {
            return None;
        },
    };
    if duration64 > 0xffff_ffffu64 {
        return None;
    }
    let duration = duration64 as u32;
    let j9 = match expect(s, j8, ",\"description\":") {
        Some(j) => j,
        None => {
            return None;
        },
    };
    let (description, j10) = match parse_string(s, j9) {
        Some(p) => p,
        None => {
            return None;
        },
    };
    let j11 = match expect(s, j10, ",\"name\":") {
        Some(j) => j,
        None => {
            return None;
        },
    };
    let (name, j12) = match parse_string(s, j11) {
        Some(p) => p,
        None => {
            return None;
        },
    };
    let j13 = match expect(s, j12, ",\"hash\":") {
        Some(j) => j,
        None => {
            return None;
        },
    };
    let (hash, j14) = match parse_opt_string(s, j13) {
        Some(p) => p,
        None => {
            return None;
        },
    };
    let j15 = match expect(s, j14, ",\"currency\":") {
        Some(j) => j,
        None => {
            return None;
        },
    };
    let (currency, j16) = match parse_string(s, j15) {
        Some(p) => p,
        None => {
            return None;
        },
    };
    let j17 = match expect(s, j16, "}") {
        Some(j) => j,
        None => {
            return None;
        },
    };
    Some(
        (
            crate::fchain::CBCAConfig {
                limit_members,
                private,
                start_price,
                duration,
                description,
                name,
                hash,
                currency,
            },
            j17,
        ),
    )
}

/// The trailing text fields of a configuration laid down in a longer text
/// read back as themselves, filled into the partly built configuration.
pub proof fn lemma_parse_config_tail_at(
    s: Seq<char>,
    i: int,
    c0: crate::fchain::ConfigView,
    c: crate::fchain::ConfigView,
)
    requires
        0 <= i,
        i + render_config_tail(c).len() <= s.len(),
        s.subrange(i, i + render_config_tail(c).len()) == render_config_tail(c),
    ensures
        spec_parse_config_tail(s, i, c0) == Some(
            (
                crate::fchain::ConfigView {
                    description: c.description,
                    name: c.name,
                    hash: c.hash,
                    currency: c.currency,
                    ..c0
                },
                i + render_config_tail(c).len(),
            ),
        ),
{
    let p5 = ",\"description\":"@;
    let v5 = render_string(c.description);
    let p6 = ",\"name\":"@;
    let v6 = render_string(c.name);
    let p7 = ",\"hash\":"@;
    let v7 = render_opt_string(c.hash);
    let p8 = ",\"currency\":"@;
    let v8 = render_string(c.currency);
    let p9 = "}"@;
    assert(render_config_tail(c) =~= p5 + (v5 + (p6 + (v6 + (p7 + (v7 + (p8 + (v8
        + p9))))))));
    lemma_subrange_split(s, i, p5, v5 + (p6 + (v6 + (p7 + (v7 + (p8 + (v8 + p9)))))));
    let i1 = i + p5.len();
    lemma_subrange_split(s, i1, v5, p6 + (v6 + (p7 + (v7 + (p8 + (v8 + p9))))));
    lemma_parse_string_at(s, i1, c.description);
    let i2 = i1 + v5.len();
    lemma_subrange_split(s, i2, p6, v6 + (p7 + (v7 + (p8 + (v8 + p9)))));
    let i3 = i2 + p6.len();
    lemma_subrange_split(s, i3, v6, p7 + (v7 + (p8 + (v8 + p9))));
    lemma_parse_string_at(s, i3, c.name);
    let i4 = i3 + v6.len();
    lemma_subrange_split(s, i4, p7, v7 + (p8 + (v8 + p9)));
    let i5 = i4 + p7.len();
    lemma_subrange_split(s, i5, v7, p8 + (v8 + p9));
    lemma_parse_opt_string_at(s, i5, c.hash);
    let i6 = i5 + v7.len();
    lemma_subrange_split(s, i6, p8, v8 + p9);
    let i7 = i6 + p8.len();
    lemma_subrange_split(s, i7, v8, p9);
    lemma_parse_string_at(s, i7, c.currency);
    let i8 = i7 + v8.len();
}

/// A configuration laid down in a longer text reads back as itself.
#[verifier::rlimit(80)]
pub proof fn lemma_parse_config_at(s: Seq<char>, i: int, c: crate::fchain::ConfigView)
    requires
        0 <= i,
        i + render_config(c).len() <= s.len(),
        s.subrange(i, i + render_config(c).len()) == render_config(c),
    ensures
        spec_parse_config(s, i) == Some((c, i + render_config(c).len())),
{
    let p1 = "{\"limit_members\":"@;
    let v1 = render_opt_u64(opt_u16_as_u64(c.limit_members));
    let p2 = ",\"private\":"@;
    let v2 = render_bool(c.private);
    let p3 = ",\"start_price\":"@;
    let v3 = render_opt_u64(c.start_price);
    let p4 = ",\"duration\":"@;
    let v4 = crate::text::dec_chars(c.duration as nat);
    let tail = render_config_tail(c);
    assert(render_config(c) =~= p1 + (v1 + (p2 + (v2 + (p3 + (v3 + (p4 + (v4 + tail))))))));
    lemma_subrange_split(s, i, p1, v1 + (p2 + (v2 + (p3 + (v3 + (p4 + (v4 + tail)))))));
    let i1 = i + p1.len();
    lemma_subrange_split(s, i1, v1, p2 + (v2 + (p3 + (v3 + (p4 + (v4 + tail))))));
    let i2 = i1 + v1.len();
    reveal_strlit(",\"private\":");
    assert(s[i2] == ',') by {
        assert(s.subrange(i2, i2 + p2.len())[0] == s[i2]);
    }
    assert(!crate::text::is_digit(','));
    lemma_parse_opt_u64_at(s, i1, opt_u16_as_u64(c.limit_members));
    lemma_subrange_split(s, i2, p2, v2 + (p3 + (v3 + (p4 + (v4 + tail)))));
    let i3 = i2 + p2.len();
    lemma_subrange_split(s, i3, v2, p3 + (v3 + (p4 + (v4 + tail))));
    lemma_parse_bool_at(s, i3, c.private);
    let i4 = i3 + v2.len();
    lemma_subrange_split(s, i4, p3, v3 + (p4 + (v4 + tail)));
    let i5 = i4 + p3.len();
    lemma_subrange_split(s, i5, v3, p4 + (v4 + tail));
    let i6 = i5 + v3.len();
    reveal_strlit(",\"duration\":");
    assert(s[i6] == ',') by {
        assert(s.subrange(i6, i6 + p4.len())[0] == s[i6]);
    }
    lemma_parse_opt_u64_at(s, i5, c.start_price);
    lemma_subrange_split(s, i6, p4, v4 + tail);
    let i7 = i6 + p4.len();
    lemma_subrange_split(s, i7, v4, tail);
    let i8 = i7 + v4.len();
    reveal_strlit(",\"description\":");
    assert(s[i8] == ',') by {
        assert(tail =~= ",\"description\":"@ + (render_string(c.description) + (",\"name\":"@
            + (render_string(c.name) + (",\"hash\":"@ + (render_opt_string(c.hash) + (
        ",\"currency\":"@ + (render_string(c.currency) + "}"@))))))));
        assert(s.subrange(i8, i8 + tail.len())[0] == s[i8]);
    }
    crate::text::lemma_parse_u64_at(s, i7, c.duration as u64);
    let c0 = crate::fchain::ConfigView {
        limit_members: c.limit_members,
        private: c.private,
        start_price: c.start_price,
        duration: c.duration,
        description: Seq::<char>::empty(),
        name: Seq::<char>::empty(),
        hash: None,
        currency: Seq::<char>::empty(),
    };
    lemma_parse_config_tail_at(s, i8, c0, c);
}

/// The written form of an instance-creation payload.
pub open spec fn render_ipayload(p: crate::payload::IPayloadView) -> Seq<char> {
    "{\"instance_id\":"@ + render_string(p.instance_id) + ",\"config\":"@ + render_config(
        p.config,
    ) + "}"@
}

/// Reading an instance-creation payload at position `i`.
pub open spec fn spec_parse_ipayload(s: Seq<char>, i: int) -> Option<
    (crate::payload::IPayloadView, int),
> {
    match spec_expect(s, i, "{\"instance_id\":"@) {
        None => None,
        Some(j1) => match spec_parse_string(s, j1) {
            None => None,
            Some((instance_id, j2)) => match spec_expect(s, j2, ",\"config\":"@) {
                None => None,
                Some(j3) => match spec_parse_config(s, j3) {
                    None => None,
                    Some((config, j4)) => match spec_expect(s, j4, "}"@) {
                        None => None,
                        Some(j5) => Some(
                            (crate::payload::IPayloadView { instance_id, config }, j5),
                        ),
                    },
                },
            },
        },
    }
}

/// Appends the written form of an instance-creation payload.
pub fn append_ipayload(out: &mut Vec<char>, p: &crate::payload::IPayload)
    ensures
        final(out)@ == old(out)@ + render_ipayload(p@),
{
    append_str(out, "{\"instance_id\":");
    append_json_string(out, p.instance_id.as_str());
    append_str(out, ",\"config\":");
    append_config(out, &p.config);
    append_str(out, "}");
    assert(out@ =~= old(out)@ + render_ipayload(p@));
}

/// Reads an instance-creation payload, returning exactly what
/// `spec_parse_ipayload` says.
pub fn parse_ipayload(s: &Vec<char>, i: usize) -> (r: Option<(crate::payload::IPayload, usize)>)
    requires
        i <= s@.len(),
    ensures
        match r {
            Some(p) => {
                &&& spec_parse_ipayload(s@, i as int) matches Some(q)
                &&& q.0 == p.0@
                &&& q.1 == p.1 as int
                &&& i <= p.1 <= s@.len()
            },
            None => spec_parse_ipayload(s@, i as int) is None,
        },
{
    let j1 = match expect(s, i, "{\"instance_id\":") {
        Some(j) => j,
        None => {
            return None;
        },
    };
    let (instance_id, j2) = match parse_string(s, j1) {
        Some(p) => p,
        None => {
            return None;
        },
    };
    let j3 = match expect(s, j2, ",\"config\":") {
        Some(j) => j,
        None => {
            return None;
        },
    };
    let (config, j4) = match parse_config(s, j3) {
        Some(p) => p,
        None => {
            return None;
        },
    };
    let j5 = match expect(s, j4, "}") {
        Some(j) => j,
        None => {
            return None;
        },
    };
    Some((crate::payload::IPayload { instance_id, config }, j5))
}

/// An instance-creation payload laid down in a longer text reads back as
/// itself.
#[verifier::rlimit(100)]
#[verifier::spinoff_prover]
pub proof fn lemma_parse_ipayload_at(s: Seq<char>, i: int, p: crate::payload::IPayloadView)
    requires
        0 <= i,
        i + render_ipayload(p).len() <= s.len(),
        s.subrange(i, i + render_ipayload(p).len()) == render_ipayload(p),
    ensures
        spec_parse_ipayload(s, i) == Some((p, i + render_ipayload(p).len())),
{
    let p1 = "{\"instance_id\":"@;
    let v1 = render_string(p.instance_id);
    let p2 = ",\"config\":"@;
    let v2 = render_config(p.config);
    let p3 = "}"@;
    assert(render_ipayload(p) =~= p1 + (v1 + (p2 + (v2 + p3))));
    lemma_subrange_split(s, i, p1, v1 + (p2 + (v2 + p3)));
    let i1 = i + p1.len();
    lemma_subrange_split(s, i1, v1, p2 + (v2 + p3));
    lemma_parse_string_at(s, i1, p.instance_id);
    let i2 = i1 + v1.len();
    lemma_subrange_split(s, i2, p2, v2 + p3);
    let i3 = i2 + p2.len();
    lemma_subrange_split(s, i3, v2, p3);
    lemma_parse_config_at(s, i3, p.config);
    let i4 = i3 + v2.len();
}


/// The written form of a block payload: an object tagged with the variant
/// name.
pub open spec fn render_blocktype(b: crate::block::BlockTypeView) -> Seq<char> {
    match b {
        crate::block::BlockTypeView::MESSAGE(m) => "{\"MESSAGE\":"@ + render_mpayload(m) + "}"@,
        crate::block::BlockTypeView::OFFER(o) => "{\"OFFER\":"@ + render_opayload(o) + "}"@,
        crate::block::BlockTypeView::INSTANCE(p) => "{\"INSTANCE\":"@ + render_ipayload(p)
            + "}"@,
    }
}

/// Reading a block payload at position `i`: the three variant tags are tried
/// in turn.
pub open spec fn spec_parse_blocktype(s: Seq<char>, i: int) -> Option<
    (crate::block::BlockTypeView, int),
> {
    match spec_expect(s, i, "{\"MESSAGE\":"@) {
        Some(j1) => match spec_parse_mpayload(s, j1) {
            None => None,
            Some((m, j2)) => match spec_expect(s, j2, "}"@) {
                None => None,
                Some(j3) => Some((crate::block::BlockTypeView::MESSAGE(m), j3)),
            },
        },
        None => match spec_expect(s, i, "{\"OFFER\":"@) {
            Some(j1) => match spec_parse_opayload(s, j1) {
                None => None,
                Some((o, j2)) => match spec_expect(s, j2, "}"@) {
                    None => None,
                    Some(j3) => Some((crate::block::BlockTypeView::OFFER(o), j3)),
                },
            },
            None => match spec_expect(s, i, "{\"INSTANCE\":"@) {
                Some(j1) => match spec_parse_ipayload(s, j1) {
                    None => None,
                    Some((p, j2)) => match spec_expect(s, j2, "}"@) {
                        None => None,
                        Some(j3) => Some((crate::block::BlockTypeView::INSTANCE(p), j3)),
                    },
                },
                None => None,
            },
        },
    }
}

/// Appends the written form of a block payload.
pub fn append_blocktype(out: &mut Vec<char>, b: &crate::block::CBCABlockType)
    ensures
        final(out)@ == old(out)@ + render_blocktype(b@),
{
    match b {
        crate::block::CBCABlockType::MESSAGE(m) => {
            append_str(out, "{\"MESSAGE\":");
            append_mpayload(out, m);
            append_str(out, "}");
        },
        crate::block::CBCABlockType::OFFER(o) => {
            append_str(out, "{\"OFFER\":");
            append_opayload(out, o);
            append_str(out, "}");
        },
        crate::block::CBCABlockType::INSTANCE(p) => {
            append_str(out, "{\"INSTANCE\":");
            append_ipayload(out, p);
            append_str(out, "}");
        },
    }
    assert(out@ =~= old(out)@ + render_blocktype(b@));
}

/// Reads a block payload, returning exactly what `spec_parse_blocktype`
/// says.
pub fn parse_blocktype(s: &Vec<char>, i: usize) -> (r: Option<
    (crate::block::CBCABlockType, usize),
>)
    requires
        i <= s@.len(),
    ensures
        match r {
            Some(p) => {
                &&& spec_parse_blocktype(s@, i as int) matches Some(q)
                &&& q.0 == p.0@
                &&& q.1 == p.1 as int
                &&& i <= p.1 <= s@.len()
            },
            None => spec_parse_blocktype(s@, i as int) is None,
        },
{
    match expect(s, i, "{\"MESSAGE\":") {
        Some(j1) => {
            let (m, j2) = match parse_mpayload(s, j1) {
                Some(p) => p,
                None => {
                    return None;
                },
            };
            let j3 = match expect(s, j2, "}") {
                Some(j) => j,
                None => {
                    return None;
                },
            };
            Some((crate::block::CBCABlockType::MESSAGE(m), j3))
        },
        None => match expect(s, i, "{\"OFFER\":") {
            Some(j1) => {
                let (o, j2) = match parse_opayload(s, j1) {
                    Some(p) => p,
                    None => {
                        return None;
                    },
                };
                let j3 = match expect(s, j2, "}") {
                    Some(j) => j,
                    None => {
                        return None;
                    },
                };
                Some((crate::block::CBCABlockType::OFFER(o), j3))
            },
            None => match expect(s, i, "{\"INSTANCE\":") {
                Some(j1) => {
                    let (p, j2) = match parse_ipayload(s, j1) {
                        Some(p) => p,
                        None => {
                            return None;
                        },
                    };
                    let j3 = match expect(s, j2, "}") {
                        Some(j) => j,
                        None => {
                            return None;
                        },
                    };
                    Some((crate::block::CBCABlockType::INSTANCE(p), j3))
                },
                None => None,
            },
        },
    }
}

/// A block payload laid down in a longer text reads back as itself: the
/// variant tags differ from one another in their third character, so the
/// written variant is the one read back.
#[verifier::rlimit(100)]
pub proof fn lemma_parse_blocktype_at(s: Seq<char>, i: int, b: crate::block::BlockTypeView)
    requires
        0 <= i,
        i + render_blocktype(b).len() <= s.len(),
        s.subrange(i, i + render_blocktype(b).len()) == render_blocktype(b),
    ensures
        spec_parse_blocktype(s, i) == Some((b, i + render_blocktype(b).len())),
{
    match b {
        crate::block::BlockTypeView::MESSAGE(m) => {
            let p1 = "{\"MESSAGE\":"@;
            let v1 = render_mpayload(m);
            let p2 = "}"@;
            assert(render_blocktype(b) =~= p1 + (v1 + p2));
            lemma_subrange_split(s, i, p1, v1 + p2);
            let i1 = i + p1.len();
            lemma_subrange_split(s, i1, v1, p2);
            lemma_parse_mpayload_at(s, i1, m);
        },
        crate::block::BlockTypeView::OFFER(o) => {
            reveal_strlit("{\"MESSAGE\":");
            reveal_strlit("{\"OFFER\":");
            let p1 = "{\"OFFER\":"@;
            let v1 = render_opayload(o);
            let p2 = "}"@;
            assert(render_blocktype(b) =~= p1 + (v1 + p2));
            lemma_subrange_split(s, i, p1, v1 + p2);
            assert(s[i + 2] == 'O') by {
                assert(s.subrange(i, i + p1.len())[2] == s[i + 2]);
            }
            assert(spec_expect(s, i, "{\"MESSAGE\":"@) is None) by {
                let lm = "{\"MESSAGE\":"@;
                if i + lm.len() <= s.len() && s.subrange(i, i + lm.len()) == lm {
                    assert(s.subrange(i, i + lm.len())[2] == s[i + 2]);
                }
            }
            let i1 = i + p1.len();
            lemma_subrange_split(s, i1, v1, p2);
            lemma_parse_opayload_at(s, i1, o);
        },
        crate::block::BlockTypeView::INSTANCE(p) => {
            reveal_strlit("{\"MESSAGE\":");
            reveal_strlit("{\"OFFER\":");
            reveal_strlit("{\"INSTANCE\":");
            let p1 = "{\"INSTANCE\":"@;
            let v1 = render_ipayload(p);
            let p2 = "}"@;
            assert(render_blocktype(b) =~= p1 + (v1 + p2));
            lemma_subrange_split(s, i, p1, v1 + p2);
            assert(s[i + 2] == 'I') by {
                assert(s.subrange(i, i + p1.len())[2] == s[i + 2]);
            }
            assert(spec_expect(s, i, "{\"MESSAGE\":"@) is None) by {
                let lm = "{\"MESSAGE\":"@;
                if i + lm.len() <= s.len() && s.subrange(i, i + lm.len()) == lm {
                    assert(s.subrange(i, i + lm.len())[2] == s[i + 2]);
                }
            }
            assert(spec_expect(s, i, "{\"OFFER\":"@) is None) by {
                let lo = "{\"OFFER\":"@;
                if i + lo.len() <= s.len() && s.subrange(i, i + lo.len()) == lo {
                    assert(s.subrange(i, i + lo.len())[2] == s[i + 2]);
                }
            }
            let i1 = i + p1.len();
            lemma_subrange_split(s, i1, v1, p2);
            lemma_parse_ipayload_at(s, i1, p);
        },
    }
}

/// The written form of a block's timestamp and back link.
pub open spec fn render_block_tail(b: crate::block::BlockView) -> Seq<char> {
    ",\"timestamp\":"@ + crate::text::dec_chars_i64(b.timestamp as int)
        + ",\"previous_hash\":"@ + render_opt_string(b.previous_hash) + "}"@
}

/// The written form of one block.
#[verifier::opaque]
pub open spec fn render_block(b: crate::block::BlockView) -> Seq<char> {
    "{\"hash\":"@ + render_opt_string(b.hash) + ",\"payload\":"@ + render_blocktype(b.payload)
        + render_block_tail(b)
}

/// Reading a block's timestamp and back link at position `i`, completing a
/// block whose first two fields were already read.
pub open spec fn spec_parse_block_tail(
    s: Seq<char>,
    i: int,
    hash: Option<Seq<char>>,
    payload: crate::block::BlockTypeView,
) -> Option<(crate::block::BlockView, int)> {
    match spec_expect(s, i, ",\"timestamp\":"@) {
        None => None,
        Some(j5) => match crate::text::spec_parse_i64(s, j5) {
            None => None,
            Some((timestamp, j6)) => match spec_expect(s, j6, ",\"previous_hash\":"@) {
                None => None,
                Some(j7) => match spec_parse_opt_string(s, j7) {
                    None => None,
                    Some((previous_hash, j8)) => match spec_expect(s, j8, "}"@) {
                        None => None,
                        Some(j9) => Some(
                            (
                                crate::block::BlockView { hash, payload, timestamp, previous_hash },
                                j9,
                            ),
                        ),
                    },
                },
            },
        },
    }
}

/// Reading one block at position `i`.
#[verifier::opaque]
pub open spec fn spec_parse_block(s: Seq<char>, i: int) -> Option<(crate::block::BlockView, int)> {
    match spec_expect(s, i, "{\"hash\":"@) {
        None => None,
        Some(j1) => match spec_parse_opt_string(s, j1) {
            None => None,
            Some((hash, j2)) => match spec_expect(s, j2, ",\"payload\":"@) {
                None => None,
                Some(j3) => match spec_parse_blocktype(s, j3) {
                    None => None,
                    Some((payload, j4)) => spec_parse_block_tail(s, j4, hash, payload),
                },
            },
        },
    }
}

/// Appends the written form of one block.
pub fn append_block(out: &mut Vec<char>, b: &crate::block::CBCABlock)
    ensures
        final(out)@ == old(out)@ + render_block(b@),
{
    proof {
        reveal(render_block);
    }
    append_str(out, "{\"hash\":");
    append_opt_string(out, &b.hash);
    append_str(out, ",\"payload\":");
    append_blocktype(out, &b.payload);
    append_str(out, ",\"timestamp\":");
    crate::text::append_i64(out, b.timestamp);
    append_str(out, ",\"previous_hash\":");
    append_opt_string(out, &b.previous_hash);
    append_str(out, "}");
    assert(out@ =~= old(out)@ + render_block(b@));
}

/// Reads one block, returning exactly what `spec_parse_block` says.
pub fn parse_block(s: &Vec<char>, i: usize) -> (r: Option<(crate::block::CBCABlock, usize)>)
    requires
        i <= s@.len(),
    ensures
        match r {
            Some(p) => {
                &&& spec_parse_block(s@, i as int) matches Some(q)
                &&& q.0 == p.0@
                &&& q.1 == p.1 as int
                &&& i < p.1 <= s@.len()
            },
            None => spec_parse_block(s@, i as int) is None,
        },
{
    proof {
        reveal(spec_parse_block);
        reveal_strlit("{\"hash\":");
    }
    let j1 = match expect(s, i, "{\"hash\":") {
        Some(j) => j,
        None => {
            return None;
        },
    };
    let (hash, j2) = match parse_opt_string(s, j1) {
        Some(p) => p,
        None => {
            return None;
        },
    };
    let j3 = match expect(s, j2, ",\"payload\":") {
        Some(j) => j,
        None => {
            return None;
        },
    };
    let (payload, j4) = match parse_blocktype(s, j3) {
        Some(p) => p,
        None => {
            return None;
        },
    };
    let j5 = match expect(s, j4, ",\"timestamp\":") {
        Some(j) => j,
        None => {
            return None;
        },
    };
    let (timestamp, j6) = match crate::text::parse_i64(s, j5) {
        Some(p) => p,
        None => {
            return None;
        },
    };
    let j7 = match expect(s, j6, ",\"previous_hash\":") {
        Some(j) => j,
        None => {
            return None;
        },
    };
    let (previous_hash, j8) = match parse_opt_string(s, j7) {
        Some(p) => p,
        None => {
            return None;
        },
    };
    let j9 = match expect(s, j8, "}") {
        Some(j) => j,
        None => {
            return None;
        },
    };
    Some((crate::block::CBCABlock { hash, payload, timestamp, previous_hash }, j9))
}

/// A block's timestamp and back link laid down in a longer text read back as
/// themselves, completing the block.
pub proof fn lemma_parse_block_tail_at(s: Seq<char>, i: int, b: crate::block::BlockView)
    requires
        0 <= i,
        i + render_block_tail(b).len() <= s.len(),
        s.subrange(i, i + render_block_tail(b).len()) == render_block_tail(b),
    ensures
        spec_parse_block_tail(s, i, b.hash, b.payload) == Some(
            (b, i + render_block_tail(b).len()),
        ),
{
    let p3 = ",\"timestamp\":"@;
    let v3 = crate::text::dec_chars_i64(b.timestamp as int);
    let p4 = ",\"previous_hash\":"@;
    let v4 = render_opt_string(b.previous_hash);
    let p5 = "}"@;
    assert(render_block_tail(b) =~= p3 + (v3 + (p4 + (v4 + p5))));
    lemma_subrange_split(s, i, p3, v3 + (p4 + (v4 + p5)));
    let i5 = i + p3.len();
    lemma_subrange_split(s, i5, v3, p4 + (v4 + p5));
    let i6 = i5 + v3.len();
    reveal_strlit(",\"previous_hash\":");
    assert(s[i6] == ',') by {
        assert(s.subrange(i6, i6 + p4.len())[0] == s[i6]);
    }
    assert(!crate::text::is_digit(','));
    crate::text::lemma_parse_i64_at(s, i5, b.timestamp);
    lemma_subrange_split(s, i6, p4, v4 + p5);
    let i7 = i6 + p4.len();
    lemma_subrange_split(s, i7, v4, p5);
    lemma_parse_opt_string_at(s, i7, b.previous_hash);
    let i8 = i7 + v4.len();
}

/// One block laid down in a longer text reads back as itself.
#[verifier::rlimit(100)]
pub proof fn lemma_parse_block_at(s: Seq<char>, i: int, b: crate::block::BlockView)
    requires
        0 <= i,
        i + render_block(b).len() <= s.len(),
        s.subrange(i, i + render_block(b).len()) == render_block(b),
    ensures
        spec_parse_block(s, i) == Some((b, i + render_block(b).len())),
        render_block(b).len() >= 1,
        s[i] == '{',
{
    reveal(render_block);
    reveal(spec_parse_block);
    reveal_strlit("{\"hash\":");
    let p1 = "{\"hash\":"@;
    let v1 = render_opt_string(b.hash);
    let p2 = ",\"payload\":"@;
    let v2 = render_blocktype(b.payload);
    let tail = render_block_tail(b);
    assert(render_block(b) =~= p1 + (v1 + (p2 + (v2 + tail))));
    lemma_subrange_split(s, i, p1, v1 + (p2 + (v2 + tail)));
    assert(s[i] == '{') by {
        assert(s.subrange(i, i + p1.len())[0] == s[i]);
    }
    let i1 = i + p1.len();
    lemma_subrange_split(s, i1, v1, p2 + (v2 + tail));
    lemma_parse_opt_string_at(s, i1, b.hash);
    let i2 = i1 + v1.len();
    lemma_subrange_split(s, i2, p2, v2 + tail);
    let i3 = i2 + p2.len();
    lemma_subrange_split(s, i3, v2, tail);
    lemma_parse_blocktype_at(s, i3, b.payload);
    let i4 = i3 + v2.len();
    lemma_parse_block_tail_at(s, i4, b);
}


/// The written form of every block after the first, each preceded by a
/// comma.
pub open spec fn render_blocks_rest(bs: Seq<crate::block::BlockView>) -> Seq<char>
    decreases bs.len(),
{
    if bs.len() == 0 {
        Seq::<char>::empty()
    } else {
        ","@ + (render_block(bs.first()) + render_blocks_rest(bs.drop_first()))
    }
}

/// The written form of a sequence of blocks.
pub open spec fn render_blocks(bs: Seq<crate::block::BlockView>) -> Seq<char> {
    if bs.len() == 0 {
        "[]"@
    } else {
        "["@ + (render_block(bs.first()) + (render_blocks_rest(bs.drop_first()) + "]"@))
    }
}

/// Reading the blocks after the first, up to and including the closing
/// bracket, at position `i`.
pub open spec fn spec_parse_blocks_rest(s: Seq<char>, i: int) -> Option<
    (Seq<crate::block::BlockView>, int),
>
    decreases s.len() - i,
{
    match spec_expect(s, i, "]"@) {
        Some(j) => Some((Seq::<crate::block::BlockView>::empty(), j)),
        None => match spec_expect(s, i, ","@) {
            None => None,
            Some(j1) => match spec_parse_block(s, j1) {
                None => None,
                Some((b, j2)) => if i < j2 && j2 <= s.len() {
                    match spec_parse_blocks_rest(s, j2) {
                        None => None,
                        Some((bs, j3)) => Some((seq![b] + bs, j3)),
                    }
                } else {
                    None
                },
            },
        },
    }
}

/// Reading a whole bracketed sequence of blocks at position `i`.
pub open spec fn spec_parse_blocks(s: Seq<char>, i: int) -> Option<
    (Seq<crate::block::BlockView>, int),
> {
    match spec_expect(s, i, "["@) {
        None => None,
        Some(j) => match spec_expect(s, j, "]"@) {
            Some(j2) => Some((Seq::<crate::block::BlockView>::empty(), j2)),
            None => match spec_parse_block(s, j) {
                None => None,
                Some((b, j2)) => if j < j2 && j2 <= s.len() {
                    match spec_parse_blocks_rest(s, j2) {
                        None => None,
                        Some((bs, j3)) => Some((seq![b] + bs, j3)),
                    }
                } else {
                    None
                },
            },
        },
    }
}

/// Appends the written form of a sequence of blocks.
#[verifier::rlimit(100)]
#[verifier::spinoff_prover]
pub fn append_blocks(out: &mut Vec<char>, bs: &Vec<crate::block::CBCABlock>)
    ensures
        final(out)@ == old(out)@ + render_blocks(crate::block::blocks_view(bs@)),
{
    let ghost bv = crate::block::blocks_view(bs@);
    if bs.len() == 0 {
        append_str(out, "[]");
        assert(out@ =~= old(out)@ + render_blocks(bv));
        return ;
    }
    append_str(out, "[");
    append_block(out, &bs[0]);
    let ghost base = out@;
    assert(bv.first() == bs@[0]@);
    let mut k: usize = 1;
    assert(bv.drop_first() =~= bv.skip(1));
    while k < bs.len()
        invariant
            1 <= k <= bs@.len(),
            bv == crate::block::blocks_view(bs@),
            bv.len() == bs@.len(),
            out@ + render_blocks_rest(bv.skip(k as int)) + "]"@ == old(out)@ + render_blocks(
                bv,
            ),
        decreases bs@.len() - k,
    {
        proof {
            assert(bv.skip(k as int).first() == bv[k as int]);
            assert(bv.skip(k as int).drop_first() =~= bv.skip(k as int + 1));
            assert(bv[k as int] == bs@[k as int]@);
        }
        append_str(out, ",");
        append_block(out, &bs[k]);
        k = k + 1;
        assert(out@ + render_blocks_rest(bv.skip(k as int)) + "]"@ =~= old(out)@
            + render_blocks(bv));
    }
    assert(bv.skip(bv.len() as int) =~= Seq::<crate::block::BlockView>::empty());
    append_str(out, "]");
    assert(out@ =~= old(out)@ + render_blocks(bv));
}

/// Joins already parsed blocks onto the outcome of parsing the rest of a
/// block sequence.
pub open spec fn opt_prepend_blocks(
    pre: Seq<crate::block::BlockView>,
    o: Option<(Seq<crate::block::BlockView>, int)>,
) -> Option<(Seq<crate::block::BlockView>, int)> {
    match o {
        Some(p) => Some((pre + p.0, p.1)),
        None => None,
    }
}

/// Reads a bracketed sequence of blocks, returning exactly what
/// `spec_parse_blocks` says.
pub fn parse_blocks(s: &Vec<char>, i: usize) -> (r: Option<
    (Vec<crate::block::CBCABlock>, usize),
>)
    requires
        i <= s@.len(),
    ensures
        match r {
            Some(p) => {
                &&& spec_parse_blocks(s@, i as int) matches Some(q)
                &&& q.0 == crate::block::blocks_view(p.0@)
                &&& q.1 == p.1 as int
                &&& i <= p.1 <= s@.len()
            },
            None => spec_parse_blocks(s@, i as int) is None,
        },
{
    let j0 = match expect(s, i, "[") {
        Some(j) => j,
        None => {
            return None;
        },
    };
    match expect(s, j0, "]") {
        Some(j1) => {
            let out: Vec<crate::block::CBCABlock> = Vec::new();
            assert(crate::block::blocks_view(out@) =~= Seq::<crate::block::BlockView>::empty());
            return Some((out, j1));
        },
        None => {},
    }
    let (b0, j1) = match parse_block(s, j0) {
        Some(p) => p,
        None => {
            return None;
        },
    };
    let mut acc: Vec<crate::block::CBCABlock> = Vec::new();
    acc.push(b0);
    let mut cur: usize = j1;
    assert(crate::block::blocks_view(acc@) =~= seq![b0@]);
    loop
        invariant
            i < cur <= s@.len(),
            spec_parse_blocks(s@, i as int) == opt_prepend_blocks(
                crate::block::blocks_view(acc@),
                spec_parse_blocks_rest(s@, cur as int),
            ),
        decreases s@.len() - cur,
    {
        match expect(s, cur, "]") {
            Some(j) => {
                proof {
                    assert(crate::block::blocks_view(acc@) + Seq::<
                        crate::block::BlockView,
                    >::empty() =~= crate::block::blocks_view(acc@));
                }
                return Some((acc, j));
            },
            None => {},
        }
        let j2 = match expect(s, cur, ",") {
            Some(j) => j,
            None => {
                return None;
            },
        };
        let (b, j3) = match parse_block(s, j2) {
            Some(p) => p,
            None => {
                return None;
            },
        };
        proof {
            match spec_parse_blocks_rest(s@, j3 as int) {
                Some(p) => {
                    assert(crate::block::blocks_view(acc@) + (seq![b@] + p.0)
                        =~= crate::block::blocks_view(acc@.push(b)) + p.0);
                },
                None => {
                    assert(crate::block::blocks_view(acc@.push(b)) == crate::block::blocks_view(
                        acc@.push(b)));
                },
            }
        }
        acc.push(b);
        cur = j3;
    }
}

/// The written blocks after the first, followed by the closing bracket, read
/// back as themselves.
#[verifier::rlimit(100)]
#[verifier::spinoff_prover]
pub proof fn lemma_parse_blocks_rest_at(s: Seq<char>, i: int, bs: Seq<crate::block::BlockView>)
    requires
        0 <= i,
        i + render_blocks_rest(bs).len() + 1 <= s.len(),
        s.subrange(i, i + render_blocks_rest(bs).len()) == render_blocks_rest(bs),
        s[i + render_blocks_rest(bs).len()] == ']',
    ensures
        spec_parse_blocks_rest(s, i) == Some((bs, i + render_blocks_rest(bs).len() + 1)),
    decreases bs.len(),
{
    reveal_strlit("]");
    reveal_strlit(",");
    if bs.len() == 0 {
        assert(render_blocks_rest(bs).len() == 0);
        assert(s[i] == ']');
        assert(s.subrange(i, i + 1) =~= "]"@) by {
            assert(s.subrange(i, i + 1)[0] == s[i]);
        }
        assert(spec_expect(s, i, "]"@) == Some(i + 1));
        assert(bs =~= Seq::<crate::block::BlockView>::empty());
    } else {
        let pc = ","@;
        let v1 = render_block(bs.first());
        let rest = render_blocks_rest(bs.drop_first());
        assert(render_blocks_rest(bs) == pc + (v1 + rest));
        lemma_subrange_split(s, i, pc, v1 + rest);
        assert(s[i] == ',') by {
            assert(s.subrange(i, i + 1)[0] == s[i]);
        }
        assert(spec_expect(s, i, "]"@) is None) by {
            if i + 1 <= s.len() && s.subrange(i, i + 1) == "]"@ {
                assert(s.subrange(i, i + 1)[0] == s[i]);
            }
        }
        let i1 = i + 1;
        lemma_subrange_split(s, i1, v1, rest);
        lemma_parse_block_at(s, i1, bs.first());
        let i2 = i1 + v1.len();
        assert(s[i2 + rest.len()] == ']');
        lemma_parse_blocks_rest_at(s, i2, bs.drop_first());
        assert(seq![bs.first()] + bs.drop_first() =~= bs);
    }
}

/// An empty written sequence of blocks reads back as empty.
proof fn lemma_parse_blocks_at_empty(s: Seq<char>, i: int, bs: Seq<crate::block::BlockView>)
    requires
        0 <= i,
        bs.len() == 0,
        i + render_blocks(bs).len() <= s.len(),
        s.subrange(i, i + render_blocks(bs).len()) == render_blocks(bs),
    ensures
        spec_parse_blocks(s, i) == Some((bs, i + render_blocks(bs).len())),
{
    reveal_strlit("[");
    reveal_strlit("]");
    reveal_strlit("[]");
    assert(render_blocks(bs) == "[]"@);
    assert(s[i] == '[' && s[i + 1] == ']') by {
        assert(s.subrange(i, i + 2)[0] == s[i]);
        assert(s.subrange(i, i + 2)[1] == s[i + 1]);
    }
    assert(s.subrange(i, i + 1) =~= "["@) by {
        assert(s.subrange(i, i + 1)[0] == s[i]);
    }
    assert(s.subrange(i + 1, i + 2) =~= "]"@) by {
        assert(s.subrange(i + 1, i + 2)[0] == s[i + 1]);
    }
    assert(spec_expect(s, i, "["@) == Some(i + 1));
    assert(spec_expect(s, i + 1, "]"@) == Some(i + 2));
    assert(bs =~= Seq::<crate::block::BlockView>::empty());
}

/// A non-empty written sequence of blocks reads back as itself.
#[verifier::rlimit(100)]
#[verifier::spinoff_prover]
proof fn lemma_parse_blocks_at_nonempty(s: Seq<char>, i: int, bs: Seq<crate::block::BlockView>)
    requires
        0 <= i,
        bs.len() > 0,
        i + render_blocks(bs).len() <= s.len(),
        s.subrange(i, i + render_blocks(bs).len()) == render_blocks(bs),
    ensures
        spec_parse_blocks(s, i) == Some((bs, i + render_blocks(bs).len())),
{
    reveal_strlit("[");
    reveal_strlit("]");
    let po = "["@;
    let v1 = render_block(bs.first());
    let rest = render_blocks_rest(bs.drop_first());
    let pcl = "]"@;
    assert(render_blocks(bs) == po + (v1 + (rest + pcl)));
    lemma_subrange_split(s, i, po, v1 + (rest + pcl));
    let i1 = i + 1;
    lemma_subrange_split(s, i1, v1, rest + pcl);
    lemma_parse_block_at(s, i1, bs.first());
    let i2 = i1 + v1.len();
    lemma_subrange_split(s, i2, rest, pcl);
    assert(s[i2 + rest.len()] == ']') by {
        let a = i2 + rest.len();
        assert(s.subrange(a, a + 1)[0] == s[a]);
    }
    assert(spec_expect(s, i1, "]"@) is None) by {
        if i1 + 1 <= s.len() && s.subrange(i1, i1 + 1) == "]"@ {
            assert(s.subrange(i1, i1 + 1)[0] == s[i1]);
        }
    }
    lemma_parse_blocks_rest_at(s, i2, bs.drop_first());
    assert(seq![bs.first()] + bs.drop_first() =~= bs);
}

/// A written sequence of blocks reads back as itself.
pub proof fn lemma_parse_blocks_at(s: Seq<char>, i: int, bs: Seq<crate::block::BlockView>)
    requires
        0 <= i,
        i + render_blocks(bs).len() <= s.len(),
        s.subrange(i, i + render_blocks(bs).len()) == render_blocks(bs),
    ensures
        spec_parse_blocks(s, i) == Some((bs, i + render_blocks(bs).len())),
{
    if bs.len() == 0 {
        lemma_parse_blocks_at_empty(s, i, bs);
    } else {
        lemma_parse_blocks_at_nonempty(s, i, bs);
    }
}

/// The written form of a whole ledger.
pub open spec fn render_chain(c: crate::fchain::ChainView) -> Seq<char> {
    "{\"instance_id\":"@ + render_string(c.instance_id) + ",\"chain\":"@ + render_blocks(c.chain)
        + render_chain_tail(c)
}

/// The written form of a ledger's stored digest and closing brace.
pub open spec fn render_chain_tail(c: crate::fchain::ChainView) -> Seq<char> {
    ",\"hash\":"@ + render_opt_string(c.hash) + "}"@
}

/// Reading a ledger's stored digest and closing brace at position `i`,
/// completing a ledger whose first two fields were already read.
pub open spec fn spec_parse_chain_tail(
    s: Seq<char>,
    i: int,
    instance_id: Seq<char>,
    chain: Seq<crate::block::BlockView>,
) -> Option<(crate::fchain::ChainView, int)> {
    match spec_expect(s, i, ",\"hash\":"@) {
        None => None,
        Some(j5) => match spec_parse_opt_string(s, j5) {
            None => None,
            Some((hash, j6)) => match spec_expect(s, j6, "}"@) {
                None => None,
                Some(j7) => Some((crate::fchain::ChainView { instance_id, chain, hash }, j7)),
            },
        },
    }
}

/// Reading a whole ledger at position `i`.
pub open spec fn spec_parse_chain(s: Seq<char>, i: int) -> Option<
    (crate::fchain::ChainView, int),
> {
    match spec_expect(s, i, "{\"instance_id\":"@) {
        None => None,
        Some(j1) => match spec_parse_string(s, j1) {
            None => None,
            Some((instance_id, j2)) => match spec_expect(s, j2, ",\"chain\":"@) {
                None => None,
                Some(j3) => match spec_parse_blocks(s, j3) {
                    None => None,
                    Some((chain, j4)) => spec_parse_chain_tail(s, j4, instance_id, chain),
                },
            },
        },
    }
}

/// Appends the written form of a whole ledger.
pub fn append_chain(out: &mut Vec<char>, c: &crate::fchain::CBCAChain)
    ensures
        final(out)@ == old(out)@ + render_chain(c@),
{
    append_str(out, "{\"instance_id\":");
    append_json_string(out, c.instance_id.as_str());
    append_str(out, ",\"chain\":");
    append_blocks(out, &c.chain);
    append_str(out, ",\"hash\":");
    append_opt_string(out, &c.hash);
    append_str(out, "}");
    assert(crate::block::blocks_view(c.chain@) =~= c@.chain);
    assert(out@ =~= old(out)@ + render_chain(c@));
}

/// Reads a whole ledger, returning exactly what `spec_parse_chain` says.
pub fn parse_chain(s: &Vec<char>, i: usize) -> (r: Option<(crate::fchain::CBCAChain, usize)>)
    requires
        i <= s@.len(),
    ensures
        match r {
            Some(p) => {
                &&& spec_parse_chain(s@, i as int) matches Some(q)
                &&& q.0 == p.0@
                &&& q.1 == p.1 as int
                &&& i <= p.1 <= s@.len()
            },
            None => spec_parse_chain(s@, i as int) is None,
        },
{
    let j1 = match expect(s, i, "{\"instance_id\":") {
        Some(j) => j,
        None => {
            return None;
        },
    };
    let (instance_id, j2) = match parse_string(s, j1) {
        Some(p) => p,
        None => {
            return None;
        },
    };
    let j3 = match expect(s, j2, ",\"chain\":") {
        Some(j) => j,
        None => {
            return None;
        },
    };
    let (chain, j4) = match parse_blocks(s, j3) {
        Some(p) => p,
        None => {
            return None;
        },
    };
    let j5 = match expect(s, j4, ",\"hash\":") {
        Some(j) => j,
        None => {
            return None;
        },
    };
    let (hash, j6) = match parse_opt_string(s, j5) {
        Some(p) => p,
        None => {
            return None;
        },
    };
    let j7 = match expect(s, j6, "}") {
        Some(j) => j,
        None => {
            return None;
        },
    };
    let out = crate::fchain::CBCAChain { instance_id, chain, hash };
    assert(out@.chain =~= crate::block::blocks_view(out.chain@));
    Some((out, j7))
}

/// A ledger's stored digest and closing brace laid down in a longer text
/// read back as themselves, completing the ledger.
pub proof fn lemma_parse_chain_tail_at(s: Seq<char>, i: int, c: crate::fchain::ChainView)
    requires
        0 <= i,
        i + render_chain_tail(c).len() <= s.len(),
        s.subrange(i, i + render_chain_tail(c).len()) == render_chain_tail(c),
    ensures
        spec_parse_chain_tail(s, i, c.instance_id, c.chain) == Some(
            (c, i + render_chain_tail(c).len()),
        ),
{
    let p3 = ",\"hash\":"@;
    let v3 = render_opt_string(c.hash);
    let p4 = "}"@;
    assert(render_chain_tail(c) =~= p3 + (v3 + p4));
    lemma_subrange_split(s, i, p3, v3 + p4);
    let i5 = i + p3.len();
    lemma_subrange_split(s, i5, v3, p4);
    lemma_parse_opt_string_at(s, i5, c.hash);
    let i6 = i5 + v3.len();
}

/// A written ledger reads back as itself.
#[verifier::rlimit(100)]
#[verifier::spinoff_prover]
pub proof fn lemma_parse_chain_at(s: Seq<char>, i: int, c: crate::fchain::ChainView)
    requires
        0 <= i,
        i + render_chain(c).len() <= s.len(),
        s.subrange(i, i + render_chain(c).len()) == render_chain(c),
    ensures
        spec_parse_chain(s, i) == Some((c, i + render_chain(c).len())),
{
    let p1 = "{\"instance_id\":"@;
    let v1 = render_string(c.instance_id);
    let p2 = ",\"chain\":"@;
    let v2 = render_blocks(c.chain);
    let tail = render_chain_tail(c);
    assert(render_chain(c) =~= p1 + (v1 + (p2 + (v2 + tail))));
    lemma_subrange_split(s, i, p1, v1 + (p2 + (v2 + tail)));
    let i1 = i + p1.len();
    lemma_subrange_split(s, i1, v1, p2 + (v2 + tail));
    lemma_parse_string_at(s, i1, c.instance_id);
    let i2 = i1 + v1.len();
    lemma_subrange_split(s, i2, p2, v2 + tail);
    let i3 = i2 + p2.len();
    lemma_subrange_split(s, i3, v2, tail);
    lemma_parse_blocks_at(s, i3, c.chain);
    let i4 = i3 + v2.len();
    lemma_parse_chain_tail_at(s, i4, c);
}

/// Renders a whole ledger as the text stored in its artifact file.
pub fn chain_to_text(c: &crate::fchain::CBCAChain) -> (r: String)
    ensures
        r@ == render_chain(c@),
{
    let mut out: Vec<char> = Vec::new();
    append_chain(&mut out, c);
    chars_to_string(&out)
}

/// Renders a configuration as the text stored in its artifact file.
pub fn config_to_text(c: &crate::fchain::CBCAConfig) -> (r: String)
    ensures
        r@ == render_config(c@),
{
    let mut out: Vec<char> = Vec::new();
    append_config(&mut out, c);
    chars_to_string(&out)
}

/// Reads a ledger artifact, accepting exactly the texts this module writes:
/// the whole text must be one well-formed ledger.
pub fn chain_from_text(text: &str) -> (r: Option<crate::fchain::CBCAChain>)
    ensures
        match r {
            Some(c) => spec_parse_chain(text@, 0) == Some((c@, text@.len() as int)),
            None => !(spec_parse_chain(text@, 0) matches Some(p) && p.1 == text@.len()),
        },
{
    let cs = str_to_chars(text);
    match parse_chain(&cs, 0) {
        Some((c, j)) => {
            if j == cs.len() {
                Some(c)
            } else {
                None
            }
        },
        None => None,
    }
}

} // verus!
