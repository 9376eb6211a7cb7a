//! Building the completion request body: the JSON encoding of the
//! model name paired with the full ordered transcript, written and
//! proved character by character.

use vstd::prelude::*;
use vstd::string::StringExecFns;
use crate::message::{views_of, Message, MessageV};
use crate::role::role_name;
use crate::text::chars_of;

verus! {

/// The hexadecimal digit for a value below sixteen.
pub open spec fn hex_digit(n: int) -> char {
    if n == 0 {
        '0'
    } else if n == 1 {
        '1'
    } else if n == 2 {
        '2'
    } else if n == 3 {
        '3'
    } else if n == 4 {
        '4'
    } else if n == 5 {
        '5'
    } else if n == 6 {
        '6'
    } else if n == 7 {
        '7'
    } else if n == 8 {
        '8'
    } else if n == 9 {
        '9'
    } else if n == 10 {
        'a'
    } else if n == 11 {
        'b'
    } else if n == 12 {
        'c'
    } else if n == 13 {
        'd'
    } else if n == 14 {
        'e'
    } else {
        'f'
    }
}

/// How one character is written inside a JSON string: quote, backslash
/// and the named control characters get a short escape, the remaining
/// control characters a hexadecimal one, and every other character
/// stands as itself.
pub open spec fn json_escape_char(c: char) -> Seq<char> {
    if c == '"' {
        seq!['\\', '"']
    } else if c == '\\' {
        seq!['\\', '\\']
    } else if c == '\n' {
        seq!['\\', 'n']
    } else if c == '\r' {
        seq!['\\', 'r']
    } else if c == '\t' {
        seq!['\\', 't']
    } else if (c as u32) < 32 {
        seq!['\\', 'u', '0', '0', hex_digit((c as u32) as int / 16), hex_digit((c as u32) as int % 16)]
    } else {
        seq![c]
    }
}

/// The body of a JSON string: every character escaped as JSON asks.
pub open spec fn json_escape(s: Seq<char>) -> Seq<char>
    decreases s.len(),
{
    if s.len() == 0 {
        Seq::empty()
    } else {
        json_escape_char(s[0]) + json_escape(s.drop_first())
    }
}

/// Escaping a sequence extended by one character appends that
/// character's escape.
pub proof fn lemma_json_escape_push(s: Seq<char>, c: char)
    ensures
        json_escape(s.push(c)) == json_escape(s) + json_escape_char(c),
    decreases s.len(),
{
    let p = s.push(c);
    if s.len() == 0 {
        assert(p[0] == c);
        assert(p.drop_first() =~= Seq::<char>::empty());
        assert(json_escape(p) == json_escape_char(c) + json_escape(p.drop_first()));
        assert(json_escape(p) =~= json_escape(s) + json_escape_char(c));
    } else {
        assert(p[0] == s[0]);
        assert(p.drop_first() =~= s.drop_first().push(c));
        lemma_json_escape_push(s.drop_first(), c);
        assert(json_escape(p) == json_escape_char(s[0]) + json_escape(s.drop_first().push(c)));
        assert(json_escape(p) =~= json_escape(s) + json_escape_char(c));
    }
}

/// The JSON object for one turn.
pub open spec fn json_of_message(m: MessageV) -> Seq<char> {
    "{\"role\":\""@ + role_name(m.role) + "\",\"content\":\""@ + json_escape(m.content) + "\"}"@
}

/// The comma-separated JSON objects of a turn sequence, in order.
pub open spec fn json_of_messages(ms: Seq<MessageV>) -> Seq<char>
    decreases ms.len(),
{
    if ms.len() == 0 {
        Seq::empty()
    } else if ms.len() == 1 {
        json_of_message(ms[0])
    } else {
        json_of_messages(ms.drop_last()) + ","@ + json_of_message(ms.last())
    }
}

/// The full request body: the model name and the ordered turn list.
pub open spec fn json_of_request(model: Seq<char>, ms: Seq<MessageV>) -> Seq<char> {
    "{\"model\":\""@ + json_escape(model) + "\",\"messages\":["@ + json_of_messages(ms) + "]}"@
}

fn hex_digit_exec(n: u32) -> (c: char)
    requires
        n < 16,
    ensures
        c == hex_digit(n as int),
{
    if n == 0 {
        '0'
    } else if n == 1 {
        '1'
    } else if n == 2 {
        '2'
    } else if n == 3 {
        '3'
    } else if n == 4 {
        '4'
    } else if n == 5 {
        '5'
    } else if n == 6 {
        '6'
    } else if n == 7 {
        '7'
    } else if n == 8 {
        '8'
    } else if n == 9 {
        '9'
    } else if n == 10 {
        'a'
    } else if n == 11 {
        'b'
    } else if n == 12 {
        'c'
    } else if n == 13 {
        'd'
    } else if n == 14 {
        'e'
    } else {
        'f'
    }
}

/// Appends the JSON escape of one character.
fn push_escaped(out: &mut String, c: char)
    ensures
        final(out)@ == old(out)@ + json_escape_char(c),
{
    if c == '"' {
        out.push('\\');
        out.push('"');
        proof {
            assert(final(out)@ =~= old(out)@ + json_escape_char(c));
        }
    } else if c == '\\' {
        out.push('\\');
        out.push('\\');
        proof {
            assert(final(out)@ =~= old(out)@ + json_escape_char(c));
        }
    } else if c == '\n' {
        out.push('\\');
        out.push('n');
        proof {
            assert(final(out)@ =~= old(out)@ + json_escape_char(c));
        }
    } else if c == '\r' {
        out.push('\\');
        out.push('r');
        proof {
            assert(final(out)@ =~= old(out)@ + json_escape_char(c));
        }
    } else if c == '\t' {
        out.push('\\');
        out.push('t');
        proof {
            assert(final(out)@ =~= old(out)@ + json_escape_char(c));
        }
    } else if (c as u32) < 32 {
        out.push('\\');
        out.push('u');
        out.push('0');
        out.push('0');
        out.push(hex_digit_exec((c as u32) / 16));
        out.push(hex_digit_exec((c as u32) % 16));
        proof {
            assert(final(out)@ =~= old(out)@ + json_escape_char(c));
        }
    } else {
        out.push(c);
        proof {
            assert(final(out)@ =~= old(out)@ + json_escape_char(c));
        }
    }
}

/// Appends the escaped body of a JSON string.
pub fn push_json_escape(out: &mut String, s: &str)
    ensures
        final(out)@ == old(out)@ + json_escape(s@),
{
    let v = chars_of(s);
    let n = v.len();
    let mut i: usize = 0;
    proof {
        assert(s@.take(0) =~= Seq::<char>::empty());
        assert(out@ =~= out@ + json_escape(s@.take(0)));
    }
    while i < n
        invariant
            i <= n,
            n == v@.len(),
            v@ == s@,
            out@ == old(out)@ + json_escape(s@.take(i as int)),
        decreases n - i,
    {
        push_escaped(out, v[i]);
        proof {
            assert(s@.take(i + 1 as int) =~= s@.take(i as int).push(s@[i as int]));
            lemma_json_escape_push(s@.take(i as int), s@[i as int]);
        }
        i += 1;
    }
    proof {
        assert(s@.take(n as int) =~= s@);
    }
}

/// Appends the JSON object of one turn.
pub fn push_json_message(out: &mut String, m: &Message)
    ensures
        final(out)@ == old(out)@ + json_of_message(m@),
{
    out.append("{\"role\":\"");
    out.append(m.role.as_str());
    out.append("\",\"content\":\"");
    push_json_escape(out, m.content.as_str());
    out.append("\"}");
    proof {
        assert(final(out)@ =~= old(out)@ + json_of_message(m@));
    }
}

/// The request body pairing the model name with the full ordered turn
/// list, as one JSON object.
pub fn request_body(model: &str, messages: &Vec<Message>) -> (r: String)
    ensures
        r@ == json_of_request(model@, views_of(messages@)),
{
    let ghost vs = views_of(messages@);
    let mut out = String::new();
    out.append("{\"model\":\"");
    push_json_escape(&mut out, model);
    out.append("\",\"messages\":[");
    let ghost head = "{\"model\":\""@ + json_escape(model@) + "\",\"messages\":["@;
    proof {
        assert(out@ =~= head + json_of_messages(vs.take(0)));
    }
    let n = messages.len();
    let mut i: usize = 0;
    while i < n
        invariant
            i <= n,
            n == messages@.len(),
            vs == views_of(messages@),
            out@ == head + json_of_messages(vs.take(i as int)),
        decreases n - i,
    {
        if i > 0 {
            out.append(",");
        }
        push_json_message(&mut out, &messages[i]);
        proof {
            assert(vs.take(i + 1 as int).drop_last() =~= vs.take(i as int));
            assert(vs.take(i + 1 as int).last() == messages@[i as int]@);
            if i > 0 {
                assert(out@ =~= head + json_of_messages(vs.take(i + 1 as int)));
            } else {
                assert(vs.take(1).len() == 1);
                assert(out@ =~= head + json_of_messages(vs.take(i + 1 as int)));
            }
        }
        i += 1;
    }
    out.append("]}");
    proof {
        assert(vs.take(n as int) =~= vs);
        assert(out@ =~= json_of_request(model@, views_of(messages@)));
    }
    out
}

} // verus!
