//! The structured transcript text: a deterministic, order-preserving
//! encoding of a turn sequence, its strict decoder, and the proof that
//! decoding an encoded transcript gives the turns back unchanged.
//!
//! Each turn becomes one list entry of the form
//! `- role: <name>` / `  content: "<escaped>"`, the content quoted
//! with backslash escapes for backslash, quote, newline, carriage
//! return and tab.

use vstd::prelude::*;
use vstd::string::StrSliceExecFns;
use vstd::string::StringExecFns;
use crate::errors::ChatError;
use crate::message::{views_of, Message, MessageV};
use crate::role::Role;
use crate::text::chars_of;

verus! {

/// The characters that may follow a backslash in quoted content.
pub open spec fn is_escape_code(c: char) -> bool {
    c == '\\' || c == '"' || c == 'n' || c == 'r' || c == 't'
}

/// The character an escape code stands for.
pub open spec fn unescape_code(c: char) -> char {
    if c == '\\' {
        '\\'
    } else if c == '"' {
        '"'
    } else if c == 'n' {
        '\n'
    } else if c == 'r' {
        '\r'
    } else {
        '\t'
    }
}

/// How one character is written inside quoted content.
pub open spec fn esc_char(c: char) -> Seq<char> {
    if c == '\\' {
        seq!['\\', '\\']
    } else if c == '"' {
        seq!['\\', '"']
    } else if c == '\n' {
        seq!['\\', 'n']
    } else if c == '\r' {
        seq!['\\', 'r']
    } else if c == '\t' {
        seq!['\\', 't']
    } else {
        seq![c]
    }
}

/// The escaped form of content text.
pub open spec fn esc(s: Seq<char>) -> Seq<char>
    decreases s.len(),
{
    if s.len() == 0 {
        Seq::empty()
    } else {
        esc_char(s[0]) + esc(s.drop_first())
    }
}

/// The entry head announcing a turn of the given role, up to and
/// including the opening content quote.
pub open spec fn header(r: Role) -> Seq<char> {
    match r {
        Role::System => "- role: system\n  content: \""@,
        Role::User => "- role: user\n  content: \""@,
        Role::Assistant => "- role: assistant\n  content: \""@,
    }
}

/// The full entry text of one turn.
pub open spec fn entry_text(m: MessageV) -> Seq<char> {
    header(m.role) + esc(m.content) + "\"\n"@
}

/// The structured transcript text of a turn sequence, in order.
pub open spec fn encode_spec(ms: Seq<MessageV>) -> Seq<char>
    decreases ms.len(),
{
    if ms.len() == 0 {
        Seq::empty()
    } else {
        entry_text(ms[0]) + encode_spec(ms.drop_first())
    }
}

/// The turns that are written out: all of them, or all but the
/// system-role ones.
pub open spec fn visible(ms: Seq<MessageV>, exclude_system: bool) -> Seq<MessageV>
    decreases ms.len(),
{
    if ms.len() == 0 {
        Seq::empty()
    } else {
        let rest = visible(ms.drop_last(), exclude_system);
        if exclude_system && ms.last().role == Role::System {
            rest
        } else {
            rest.push(ms.last())
        }
    }
}

/// Whether `p` is a prefix of `s`.
pub open spec fn starts_with(s: Seq<char>, p: Seq<char>) -> bool {
    s.len() >= p.len() && s.take(p.len() as int) == p
}

/// Reads quoted content from the opening position up to the closing
/// quote: the content and the remainder after the quote, or nothing
/// if the text ends, a raw newline appears, or a backslash is not
/// followed by an escape code.
pub open spec fn parse_quoted(s: Seq<char>) -> Option<(Seq<char>, Seq<char>)>
    decreases s.len(),
{
    if s.len() == 0 {
        None
    } else if s[0] == '"' {
        Some((Seq::empty(), s.drop_first()))
    } else if s[0] == '\\' {
        if s.len() >= 2 && is_escape_code(s[1]) {
            match parse_quoted(s.skip(2)) {
                Some(p) => Some((seq![unescape_code(s[1])] + p.0, p.1)),
                None => None,
            }
        } else {
            None
        }
    } else if s[0] == '\n' {
        None
    } else {
        match parse_quoted(s.drop_first()) {
            Some(p) => Some((seq![s[0]] + p.0, p.1)),
            None => None,
        }
    }
}

/// Reads the entry head: which role it announces and the remainder.
pub open spec fn parse_role(s: Seq<char>) -> Option<(Role, Seq<char>)> {
    if starts_with(s, header(Role::System)) {
        Some((Role::System, s.skip(header(Role::System).len() as int)))
    } else if starts_with(s, header(Role::User)) {
        Some((Role::User, s.skip(header(Role::User).len() as int)))
    } else if starts_with(s, header(Role::Assistant)) {
        Some((Role::Assistant, s.skip(header(Role::Assistant).len() as int)))
    } else {
        None
    }
}

/// Reads one full entry: its turn and the remainder after the
/// entry-closing newline.
pub open spec fn parse_entry(s: Seq<char>) -> Option<(MessageV, Seq<char>)> {
    match parse_role(s) {
        Some(rp) => match parse_quoted(rp.1) {
            Some(qp) => if qp.1.len() >= 1 && qp.1[0] == '\n' {
                Some((MessageV { role: rp.0, content: qp.0 }, qp.1.skip(1)))
            } else {
                None
            },
            None => None,
        },
        None => None,
    }
}

/// Reads a run of entries to the end of the text.
pub open spec fn parse_entries(s: Seq<char>) -> Option<Seq<MessageV>>
    decreases s.len(),
{
    if s.len() == 0 {
        Some(Seq::empty())
    } else {
        match parse_entry(s) {
            Some(ep) => if ep.1.len() < s.len() {
                match parse_entries(ep.1) {
                    Some(ms) => Some(seq![ep.0] + ms),
                    None => None,
                }
            } else {
                None
            },
            None => None,
        }
    }
}

/// What a text decodes to: the turn sequence of a well-formed
/// structured transcript holding at least one entry, or nothing.
pub open spec fn decode_spec(s: Seq<char>) -> Option<Seq<MessageV>> {
    if s.len() == 0 {
        None
    } else {
        parse_entries(s)
    }
}

/// Encoding a sequence extended by one turn appends that turn's entry.
pub proof fn lemma_encode_snoc(ms: Seq<MessageV>, m: MessageV)
    ensures
        encode_spec(ms.push(m)) == encode_spec(ms) + entry_text(m),
    decreases ms.len(),
{
    let p = ms.push(m);
    if ms.len() == 0 {
        assert(p[0] == m);
        assert(p.drop_first() =~= Seq::<MessageV>::empty());
        assert(encode_spec(p) == entry_text(m) + encode_spec(p.drop_first()));
        assert(encode_spec(p) =~= encode_spec(ms) + entry_text(m));
    } else {
        assert(p[0] == ms[0]);
        assert(p.drop_first() =~= ms.drop_first().push(m));
        lemma_encode_snoc(ms.drop_first(), m);
        assert(encode_spec(p) == entry_text(ms[0]) + encode_spec(ms.drop_first().push(m)));
        assert(encode_spec(p) =~= encode_spec(ms) + entry_text(m));
    }
}

/// Reading quoted content back from its escaped form recovers it
/// exactly, leaving whatever follows the closing quote untouched.
proof fn lemma_parse_quoted_esc(s: Seq<char>, rest: Seq<char>)
    ensures
        parse_quoted(esc(s) + seq!['"'] + rest) == Some((s, rest)),
    decreases s.len(),
{
    let full = esc(s) + seq!['"'] + rest;
    if s.len() == 0 {
        assert(full[0] == '"');
        assert(full.drop_first() =~= rest);
        assert(parse_quoted(full) == Some((Seq::<char>::empty(), rest)));
        assert(Seq::<char>::empty() =~= s);
    } else {
        let c = s[0];
        let tail = esc(s.drop_first()) + seq!['"'] + rest;
        lemma_parse_quoted_esc(s.drop_first(), rest);
        if c == '\\' || c == '"' || c == '\n' || c == '\r' || c == '\t' {
            let code = esc_char(c)[1];
            assert(full =~= seq!['\\', code] + tail);
            assert(full[0] == '\\');
            assert(full[1] == code);
            assert(is_escape_code(code));
            assert(unescape_code(code) == c);
            assert(full.skip(2) =~= tail);
            assert(parse_quoted(full) == Some((seq![c] + s.drop_first(), rest)));
            assert(seq![c] + s.drop_first() =~= s);
        } else {
            assert(full =~= seq![c] + tail);
            assert(full[0] == c);
            assert(full[0] != '"' && full[0] != '\\' && full[0] != '\n');
            assert(full.drop_first() =~= tail);
            assert(parse_quoted(full) == Some((seq![c] + s.drop_first(), rest)));
            assert(seq![c] + s.drop_first() =~= s);
        }
    }
}

/// The three entry heads are told apart by their ninth character.
proof fn lemma_headers_distinct()
    ensures
        header(Role::System)[8] == 's',
        header(Role::User)[8] == 'u',
        header(Role::Assistant)[8] == 'a',
        header(Role::System).len() > 8,
        header(Role::User).len() > 8,
        header(Role::Assistant).len() > 8,
        "\"\n"@ =~= seq!['"', '\n'],
{
    reveal_strlit("- role: system\n  content: \"");
    reveal_strlit("- role: user\n  content: \"");
    reveal_strlit("- role: assistant\n  content: \"");
    reveal_strlit("\"\n");
}

/// Reading one entry back from its encoded text recovers the turn
/// exactly, leaving whatever follows the entry untouched.
proof fn lemma_parse_entry_encode(m: MessageV, rest: Seq<char>)
    ensures
        parse_entry(entry_text(m) + rest) == Some((m, rest)),
        entry_text(m).len() > 8,
{
    lemma_headers_distinct();
    let h = header(m.role);
    let full = entry_text(m) + rest;
    let tail = esc(m.content) + seq!['"'] + (seq!['\n'] + rest);
    assert(full =~= h + tail);
    assert(starts_with(full, h)) by {
        assert(full.take(h.len() as int) =~= h);
    }
    assert(forall|r2: Role| #[trigger] header(r2) != h ==> !starts_with(full, header(r2))) by {
        assert forall|r2: Role| #[trigger] header(r2) != h && starts_with(full, header(r2))
            implies false by {
            assert(full[8] == h[8]);
            assert(full.take(header(r2).len() as int)[8] == full[8]);
        }
    }
    assert(parse_role(full) == Some((m.role, full.skip(h.len() as int)))) by {
        if m.role is System {
            assert(header(Role::User) != h && header(Role::Assistant) != h);
        } else if m.role is User {
            assert(header(Role::System) != h && header(Role::Assistant) != h);
        } else {
            assert(header(Role::System) != h && header(Role::User) != h);
        }
    }
    assert(full.skip(h.len() as int) =~= tail);
    lemma_parse_quoted_esc(m.content, seq!['\n'] + rest);
    assert(parse_quoted(tail) == Some((m.content, seq!['\n'] + rest)));
    let after = seq!['\n'] + rest;
    assert(after[0] == '\n');
    assert(after.skip(1) =~= rest);
}

/// Reading entries back from an encoded sequence prepends the turns,
/// whatever well-formed tail follows.
proof fn lemma_parse_entries_encode(ms: Seq<MessageV>, rest: Seq<char>)
    requires
        parse_entries(rest) is Some,
    ensures
        parse_entries(encode_spec(ms) + rest) is Some,
        parse_entries(encode_spec(ms) + rest)->0 == ms + parse_entries(rest)->0,
    decreases ms.len(),
{
    if ms.len() == 0 {
        assert(encode_spec(ms) + rest =~= rest);
        assert(ms + parse_entries(rest)->0 =~= parse_entries(rest)->0);
    } else {
        let m = ms[0];
        let tail = encode_spec(ms.drop_first()) + rest;
        let full = encode_spec(ms) + rest;
        assert(full =~= entry_text(m) + tail);
        lemma_parse_entry_encode(m, tail);
        assert(full.len() > 0);
        assert(parse_entry(full) == Some((m, tail)));
        assert(tail.len() < full.len());
        lemma_parse_entries_encode(ms.drop_first(), rest);
        assert(parse_entries(full)->0 =~= ms + parse_entries(rest)->0);
    }
}

/// Decoding an encoded transcript gives the same ordered turns back:
/// the codec round trip, for any non-empty turn sequence.
pub proof fn lemma_codec_round_trip(ms: Seq<MessageV>)
    requires
        ms.len() > 0,
    ensures
        decode_spec(encode_spec(ms)) == Some(ms),
{
    lemma_parse_entry_encode(ms[0], Seq::empty());
    assert(encode_spec(ms).len() > 0) by {
        assert(encode_spec(ms) == entry_text(ms[0]) + encode_spec(ms.drop_first()));
    }
    assert(parse_entries(Seq::<char>::empty()) == Some(Seq::<MessageV>::empty()));
    lemma_parse_entries_encode(ms, Seq::empty());
    assert(encode_spec(ms) + Seq::<char>::empty() =~= encode_spec(ms));
    assert(parse_entries(encode_spec(ms))->0 =~= ms);
}

/// Re-encoding what a well-formed structured transcript decodes to
/// yields text with the same ordered turns: the decoded form survives
/// an encode/decode round trip unchanged.
pub proof fn lemma_reencode_preserves_turns(text: Seq<char>)
    requires
        decode_spec(text) is Some,
    ensures
        decode_spec(encode_spec(decode_spec(text)->0)) == decode_spec(text),
{
    let ms = decode_spec(text)->0;
    assert(ms.len() > 0) by {
        assert(parse_entries(text) is Some);
        assert(text.len() > 0);
    }
    lemma_codec_round_trip(ms);
}

/// Exporting and decoding back yields exactly the exported turns —
/// with exclusion, the subsequence of non-system turns in their
/// order — whenever at least one turn is written. A transcript whose
/// every turn is excluded exports as empty text, which is not a
/// structured transcript, so it alone has no decoded form.
pub proof fn lemma_export_round_trip(ms: Seq<MessageV>, exclude_system: bool)
    ensures
        visible(ms, exclude_system).len() > 0 ==> decode_spec(
            encode_spec(visible(ms, exclude_system)),
        ) == Some(visible(ms, exclude_system)),
        visible(ms, exclude_system).len() == 0 ==> encode_spec(visible(ms, exclude_system))
            == Seq::<char>::empty(),
{
    if visible(ms, exclude_system).len() > 0 {
        lemma_codec_round_trip(visible(ms, exclude_system));
    }
}

/// Without exclusion, every turn is written out unchanged.
pub proof fn lemma_visible_all(ms: Seq<MessageV>)
    ensures
        visible(ms, false) == ms,
    decreases ms.len(),
{
    if ms.len() == 0 {
        assert(visible(ms, false) =~= ms);
    } else {
        lemma_visible_all(ms.drop_last());
        assert(visible(ms, false) =~= ms);
    }
}

/// With exclusion, what is written is exactly the subsequence of
/// non-system turns, in order.
pub proof fn lemma_visible_excludes_system(ms: Seq<MessageV>)
    ensures
        visible(ms, true) == ms.filter(|m: MessageV| m.role != Role::System),
    decreases ms.len(),
{
    reveal(Seq::filter);
    let pred = |m: MessageV| m.role != Role::System;
    if ms.len() == 0 {
        assert(ms.filter(pred) == ms);
    } else {
        lemma_visible_excludes_system(ms.drop_last());
        assert(ms.filter(pred) == if pred(ms.last()) {
            ms.drop_last().filter(pred).push(ms.last())
        } else {
            ms.drop_last().filter(pred)
        });
        assert(visible(ms, true) == ms.filter(pred));
    }
}

/// Escaping a sequence extended by one character appends that
/// character's escape.
proof fn lemma_esc_push(s: Seq<char>, c: char)
    ensures
        esc(s.push(c)) == esc(s) + esc_char(c),
    decreases s.len(),
{
    let p = s.push(c);
    if s.len() == 0 {
        assert(p[0] == c);
        assert(p.drop_first() =~= Seq::<char>::empty());
        assert(esc(p) == esc_char(c) + esc(p.drop_first()));
        assert(esc(p) =~= esc(s) + esc_char(c));
    } else {
        assert(p[0] == s[0]);
        assert(p.drop_first() =~= s.drop_first().push(c));
        lemma_esc_push(s.drop_first(), c);
        assert(esc(p) == esc_char(s[0]) + esc(s.drop_first().push(c)));
        assert(esc(p) =~= esc(s) + esc_char(c));
    }
}

/// Appends the escape of one content character.
fn push_esc_char(out: &mut String, c: char)
    ensures
        final(out)@ == old(out)@ + esc_char(c),
{
    if c == '\\' {
        out.push('\\');
        out.push('\\');
    } else if c == '"' {
        out.push('\\');
        out.push('"');
    } else if c == '\n' {
        out.push('\\');
        out.push('n');
    } else if c == '\r' {
        out.push('\\');
        out.push('r');
    } else if c == '\t' {
        out.push('\\');
        out.push('t');
    } else {
        out.push(c);
    }
    proof {
        assert(final(out)@ =~= old(out)@ + esc_char(c));
    }
}

/// Appends the escaped form of content text.
fn push_esc(out: &mut String, s: &str)
    ensures
        final(out)@ == old(out)@ + esc(s@),
{
    let v = chars_of(s);
    let n = v.len();
    let mut i: usize = 0;
    proof {
        assert(s@.take(0) =~= Seq::<char>::empty());
        assert(out@ =~= out@ + esc(s@.take(0)));
    }
    while i < n
        invariant
            i <= n,
            n == v@.len(),
            v@ == s@,
            out@ == old(out)@ + esc(s@.take(i as int)),
        decreases n - i,
    {
        push_esc_char(out, v[i]);
        proof {
            assert(s@.take(i + 1 as int) =~= s@.take(i as int).push(s@[i as int]));
            lemma_esc_push(s@.take(i as int), s@[i as int]);
        }
        i += 1;
    }
    proof {
        assert(s@.take(n as int) =~= s@);
    }
}

/// Appends the entry head of the given role.
fn push_header(out: &mut String, role: Role)
    ensures
        final(out)@ == old(out)@ + header(role),
{
    match role {
        Role::System => out.append("- role: system\n  content: \""),
        Role::User => out.append("- role: user\n  content: \""),
        Role::Assistant => out.append("- role: assistant\n  content: \""),
    }
}

/// The structured transcript text of the given turns, in order,
/// optionally omitting every system-role turn.
pub fn encode_messages(messages: &Vec<Message>, exclude_system: bool) -> (r: String)
    ensures
        r@ == encode_spec(visible(views_of(messages@), exclude_system)),
{
    let ghost vs = views_of(messages@);
    let mut out = String::new();
    let n = messages.len();
    let mut i: usize = 0;
    proof {
        assert(vs.take(0) =~= Seq::<MessageV>::empty());
        assert(out@ =~= encode_spec(visible(vs.take(0), exclude_system)));
    }
    while i < n
        invariant
            i <= n,
            n == messages@.len(),
            vs == views_of(messages@),
            out@ == encode_spec(visible(vs.take(i as int), exclude_system)),
        decreases n - i,
    {
        proof {
            assert(vs.take(i + 1 as int).drop_last() =~= vs.take(i as int));
            assert(vs.take(i + 1 as int).last() == messages@[i as int]@);
        }
        let m = &messages[i];
        if exclude_system && m.role == Role::System {
            proof {
                assert(visible(vs.take(i + 1 as int), exclude_system) == visible(
                    vs.take(i as int),
                    exclude_system,
                ));
            }
        } else {
            push_header(&mut out, m.role);
            push_esc(&mut out, m.content.as_str());
            out.append("\"\n");
            proof {
                lemma_encode_snoc(visible(vs.take(i as int), exclude_system), m@);
                assert(visible(vs.take(i + 1 as int), exclude_system) == visible(
                    vs.take(i as int),
                    exclude_system,
                ).push(m@));
                assert(out@ =~= encode_spec(visible(vs.take(i + 1 as int), exclude_system)));
            }
        }
        i += 1;
    }
    proof {
        assert(vs.take(n as int) =~= vs);
    }
    out
}

/// Whether the characters from `i` on start with the given text.
fn match_prefix(v: &Vec<char>, i: usize, p: &str) -> (r: bool)
    requires
        i <= v@.len(),
    ensures
        r == starts_with(v@.skip(i as int), p@),
{
    let pc = chars_of(p);
    let n = pc.len();
    let vlen = v.len();
    if n > vlen - i {
        return false;
    }
    let mut k: usize = 0;
    while k < n
        invariant
            k <= n,
            n == p@.len(),
            pc@ == p@,
            i + n <= vlen,
            vlen == v@.len(),
            forall|t: int| 0 <= t < k ==> v@[i + t] == p@[t],
        decreases n - k,
    {
        if v[i + k] != pc[k] {
            proof {
                assert(v@.skip(i as int).take(n as int)[k as int] == v@[i + k]);
            }
            return false;
        }
        k += 1;
    }
    proof {
        assert(v@.skip(i as int).take(n as int) =~= p@);
    }
    true
}

/// Reads quoted content from position `start` up to the closing quote.
fn parse_quoted_at(v: &Vec<char>, start: usize) -> (r: Option<(String, usize)>)
    requires
        start <= v@.len(),
    ensures
        match r {
            Some(p) => start <= p.1 <= v@.len() && parse_quoted(v@.skip(start as int)) == Some(
                (p.0@, v@.skip(p.1 as int)),
            ),
            None => parse_quoted(v@.skip(start as int)) is None,
        },
{
    let mut content = String::new();
    let mut i: usize = start;
    loop
        invariant
            start <= i <= v@.len(),
            (match parse_quoted(v@.skip(i as int)) {
                Some(q) => parse_quoted(v@.skip(start as int)) == Some((content@ + q.0, q.1)),
                None => parse_quoted(v@.skip(start as int)) is None,
            }),
        decreases v@.len() - i,
    {
        let ghost s = v@.skip(i as int);
        if i == v.len() {
            proof {
                assert(s.len() == 0);
            }
            return None;
        }
        let c = v[i];
        proof {
            assert(s[0] == v@[i as int]);
        }
        if c == '"' {
            proof {
                assert(s.drop_first() =~= v@.skip(i + 1 as int));
                assert(parse_quoted(s) == Some((Seq::<char>::empty(), v@.skip(i + 1 as int))));
                assert(content@ + Seq::<char>::empty() =~= content@);
            }
            return Some((content, i + 1));
        } else if c == '\\' {
            if i + 1 < v.len() {
                let e = v[i + 1];
                proof {
                    assert(s[1] == v@[i + 1]);
                }
                if e == '\\' || e == '"' || e == 'n' || e == 'r' || e == 't' {
                    let u = if e == '\\' {
                        '\\'
                    } else if e == '"' {
                        '"'
                    } else if e == 'n' {
                        '\n'
                    } else if e == 'r' {
                        '\r'
                    } else {
                        '\t'
                    };
                    let ghost c0 = content@;
                    content.push(u);
                    proof {
                        assert(u == unescape_code(e));
                        assert(s.skip(2) =~= v@.skip(i + 2 as int));
                        match parse_quoted(v@.skip(i + 2 as int)) {
                            Some(q) => {
                                assert(parse_quoted(s) == Some((seq![u] + q.0, q.1)));
                                assert(c0 + (seq![u] + q.0) =~= content@ + q.0);
                            },
                            None => {
                                assert(parse_quoted(s) is None);
                            },
                        }
                    }
                    i += 2;
                } else {
                    proof {
                        assert(parse_quoted(s) is None);
                    }
                    return None;
                }
            } else {
                proof {
                    assert(s.len() < 2);
                    assert(parse_quoted(s) is None);
                }
                return None;
            }
        } else if c == '\n' {
            proof {
                assert(parse_quoted(s) is None);
            }
            return None;
        } else {
            let ghost c0 = content@;
            content.push(c);
            proof {
                assert(s.drop_first() =~= v@.skip(i + 1 as int));
                match parse_quoted(v@.skip(i + 1 as int)) {
                    Some(q) => {
                        assert(parse_quoted(s) == Some((seq![c] + q.0, q.1)));
                        assert(c0 + (seq![c] + q.0) =~= content@ + q.0);
                    },
                    None => {
                        assert(parse_quoted(s) is None);
                    },
                }
            }
            i += 1;
        }
    }
}

/// Reads the entry head at position `i`: the role it announces.
fn parse_role_at(v: &Vec<char>, i: usize) -> (r: Option<(Role, usize)>)
    requires
        i <= v@.len(),
    ensures
        match r {
            Some(p) => i < p.1 <= v@.len() && parse_role(v@.skip(i as int)) == Some(
                (p.0, v@.skip(p.1 as int)),
            ),
            None => parse_role(v@.skip(i as int)) is None,
        },
{
    proof {
        lemma_headers_distinct();
    }
    if match_prefix(v, i, "- role: system\n  content: \"") {
        let h = "- role: system\n  content: \"".unicode_len();
        let vlen = v.len();
        proof {
            assert(i + h <= vlen);
            assert(v@.skip(i as int).skip(h as int) =~= v@.skip(i + h as int));
        }
        Some((Role::System, i + h))
    } else if match_prefix(v, i, "- role: user\n  content: \"") {
        let h = "- role: user\n  content: \"".unicode_len();
        let vlen = v.len();
        proof {
            assert(i + h <= vlen);
            assert(v@.skip(i as int).skip(h as int) =~= v@.skip(i + h as int));
        }
        Some((Role::User, i + h))
    } else if match_prefix(v, i, "- role: assistant\n  content: \"") {
        let h = "- role: assistant\n  content: \"".unicode_len();
        let vlen = v.len();
        proof {
            assert(i + h <= vlen);
            assert(v@.skip(i as int).skip(h as int) =~= v@.skip(i + h as int));
        }
        Some((Role::Assistant, i + h))
    } else {
        None
    }
}

/// Reads one full entry at position `i`.
fn parse_entry_at(v: &Vec<char>, i: usize) -> (r: Option<(Message, usize)>)
    requires
        i <= v@.len(),
    ensures
        match r {
            Some(p) => i < p.1 <= v@.len() && parse_entry(v@.skip(i as int)) == Some(
                (p.0@, v@.skip(p.1 as int)),
            ),
            None => parse_entry(v@.skip(i as int)) is None,
        },
{
    let (role, j) = match parse_role_at(v, i) {
        Some(p) => p,
        None => {
            return None;
        },
    };
    let (content, k) = match parse_quoted_at(v, j) {
        Some(p) => p,
        None => {
            return None;
        },
    };
    let ghost after = v@.skip(k as int);
    if k < v.len() {
        let c = v[k];
        proof {
            assert(after[0] == v@[k as int]);
        }
        if c == '\n' {
            proof {
                assert(after.skip(1) =~= v@.skip(k + 1 as int));
            }
            return Some((Message { role, content }, k + 1));
        }
        proof {
            assert(parse_entry(v@.skip(i as int)) is None);
        }
        return None;
    }
    proof {
        assert(after.len() == 0);
        assert(parse_entry(v@.skip(i as int)) is None);
    }
    None
}

/// Decodes a structured transcript: the ordered turns of a well-formed
/// text, every role validated through the closed role model, or a
/// decode error — an invalid role or any other flaw anywhere fails the
/// whole decode.
pub fn decode_transcript(text: &str) -> (r: Result<Vec<Message>, ChatError>)
    ensures
        r is Ok <==> decode_spec(text@) is Some,
        r is Ok ==> views_of(r->Ok_0@) == decode_spec(text@)->0,
        r is Err ==> r->Err_0 is TranscriptDecodeError,
{
    let v = chars_of(text);
    if v.len() == 0 {
        return Err(ChatError::TranscriptDecodeError);
    }
    let mut out: Vec<Message> = Vec::new();
    let mut i: usize = 0;
    proof {
        assert(v@.skip(0) =~= v@);
        assert(views_of(out@) =~= Seq::<MessageV>::empty());
    }
    while i < v.len()
        invariant
            i <= v@.len(),
            v@ == text@,
            (match parse_entries(v@.skip(i as int)) {
                Some(ms) => parse_entries(v@) is Some && parse_entries(v@)->0 == views_of(out@)
                    + ms,
                None => parse_entries(v@) is None,
            }),
        decreases v@.len() - i,
    {
        let ghost s = v@.skip(i as int);
        match parse_entry_at(&v, i) {
            Some((m, j)) => {
                proof {
                    assert(s.len() > 0);
                    assert(parse_entry(s) == Some((m@, v@.skip(j as int))));
                    assert(v@.skip(j as int).len() < s.len());
                    let ghost o0 = views_of(out@);
                    match parse_entries(v@.skip(j as int)) {
                        Some(ms) => {
                            assert(parse_entries(s) is Some);
                            assert(parse_entries(s)->0 == seq![m@] + ms);
                        },
                        None => {
                            assert(parse_entries(s) is None);
                        },
                    }
                }
                let ghost o0 = views_of(out@);
                out.push(m);
                proof {
                    assert(views_of(out@) =~= o0.push(m@));
                    match parse_entries(v@.skip(j as int)) {
                        Some(ms) => {
                            assert(o0 + (seq![m@] + ms) =~= views_of(out@) + ms);
                        },
                        None => {},
                    }
                }
                i = j;
            },
            None => {
                proof {
                    assert(s.len() > 0);
                    assert(parse_entries(s) is None);
                }
                return Err(ChatError::TranscriptDecodeError);
            },
        }
    }
    proof {
        assert(v@.skip(i as int).len() == 0);
        assert(parse_entries(v@.skip(i as int)) == Some(Seq::<MessageV>::empty()));
        assert(views_of(out@) + Seq::<MessageV>::empty() =~= views_of(out@));
    }
    Ok(out)
}

/// Whether the text is a well-formed structured transcript: exactly
/// when it decodes.
pub fn is_structured_transcript(text: &str) -> (r: bool)
    ensures
        r == (decode_spec(text@) is Some),
{
    match decode_transcript(text) {
        Ok(_) => true,
        Err(_) => false,
    }
}

} // verus!
