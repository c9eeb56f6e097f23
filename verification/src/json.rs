//! JSON text framing for the response bodies: string encoding with the
//! exact escaping rules the service's serializer uses (quote, backslash,
//! and control characters; short escapes for the common ones, `\u00XX`
//! for the rest), and a two-member object of string values.

use vstd::prelude::*;

verus! {

/// The character for a hexadecimal digit value, lower case.
pub open spec fn hex_digit_char(d: nat) -> char
    recommends
        d < 16,
{
    if d == 0 {
        '0'
    } else if d == 1 {
        '1'
    } else if d == 2 {
        '2'
    } else if d == 3 {
        '3'
    } else if d == 4 {
        '4'
    } else if d == 5 {
        '5'
    } else if d == 6 {
        '6'
    } else if d == 7 {
        '7'
    } else if d == 8 {
        '8'
    } else if d == 9 {
        '9'
    } else if d == 10 {
        'a'
    } else if d == 11 {
        'b'
    } else if d == 12 {
        'c'
    } else if d == 13 {
        'd'
    } else if d == 14 {
        'e'
    } else {
        'f'
    }
}

/// Whether a character must be escaped inside a JSON string: the quote,
/// the backslash, and every control character below space.
pub open spec fn needs_escape(c: char) -> bool {
    c == '"' || c == '\\' || (c as int) < 0x20
}

/// The escape of one character inside a JSON string.
pub open spec fn escaped_char(c: char) -> Seq<char> {
    if c == '"' {
        seq!['\\', '"']
    } else if c == '\\' {
        seq!['\\', '\\']
    } else if c == '\u{8}' {
        seq!['\\', 'b']
    } else if c == '\t' {
        seq!['\\', 't']
    } else if c == '\n' {
        seq!['\\', 'n']
    } else if c == '\u{c}' {
        seq!['\\', 'f']
    } else if c == '\r' {
        seq!['\\', 'r']
    } else if (c as int) < 0x20 {
        seq!['\\', 'u', '0', '0', hex_digit_char((c as int / 16) as nat), hex_digit_char(
            (c as int % 16) as nat,
        )]
    } else {
        seq![c]
    }
}

/// The body of a JSON string: every character escaped as needed.
pub open spec fn escape_seq(s: Seq<char>) -> Seq<char>
    decreases s.len(),
{
    if s.len() == 0 {
        Seq::empty()
    } else {
        escape_seq(s.drop_last()) + escaped_char(s.last())
    }
}

/// The JSON string denoting the text `s`: quoted and escaped.
pub open spec fn json_string(s: Seq<char>) -> Seq<char> {
    seq!['"'] + escape_seq(s) + seq!['"']
}

/// A JSON object with two members whose values are strings, written
/// without any whitespace, members in the given order.
pub open spec fn json_object2(k1: Seq<char>, v1: Seq<char>, k2: Seq<char>, v2: Seq<char>) -> Seq<
    char,
> {
    seq!['{'] + json_string(k1) + seq![':'] + json_string(v1) + seq![','] + json_string(k2)
        + seq![':'] + json_string(v2) + seq!['}']
}

fn hex_digit_str(d: u32) -> (s: &'static str)
    requires
        d < 16,
    ensures
        s@ == seq![hex_digit_char(d as nat)],
{
    let s: &'static str = if d == 0 {
        "0"
    } else if d == 1 {
        "1"
    } else if d == 2 {
        "2"
    } else if d == 3 {
        "3"
    } else if d == 4 {
        "4"
    } else if d == 5 {
        "5"
    } else if d == 6 {
        "6"
    } else if d == 7 {
        "7"
    } else if d == 8 {
        "8"
    } else if d == 9 {
        "9"
    } else if d == 10 {
        "a"
    } else if d == 11 {
        "b"
    } else if d == 12 {
        "c"
    } else if d == 13 {
        "d"
    } else if d == 14 {
        "e"
    } else {
        "f"
    };
    proof {
        reveal_strlit("0");
        reveal_strlit("1");
        reveal_strlit("2");
        reveal_strlit("3");
        reveal_strlit("4");
        reveal_strlit("5");
        reveal_strlit("6");
        reveal_strlit("7");
        reveal_strlit("8");
        reveal_strlit("9");
        reveal_strlit("a");
        reveal_strlit("b");
        reveal_strlit("c");
        reveal_strlit("d");
        reveal_strlit("e");
        reveal_strlit("f");
        assert(s@ =~= seq![hex_digit_char(d as nat)]);
    }
    s
}

fn append_escape(out: &mut String, c: char)
    requires
        needs_escape(c),
    ensures
        final (out)@ == old(out)@ + escaped_char(c),
{
    if c == '"' {
        out.append("\\\"");
        proof {
            reveal_strlit("\\\"");
            assert(old(out)@ + "\\\""@ =~= old(out)@ + escaped_char(c));
        }
    } else if c == '\\' {
        out.append("\\\\");
        proof {
            reveal_strlit("\\\\");
            assert(old(out)@ + "\\\\"@ =~= old(out)@ + escaped_char(c));
        }
    } else if c == '\u{8}' {
        out.append("\\b");
        proof {
            reveal_strlit("\\b");
            assert(old(out)@ + "\\b"@ =~= old(out)@ + escaped_char(c));
        }
    } else if c == '\t' {
        out.append("\\t");
        proof {
            reveal_strlit("\\t");
            assert(old(out)@ + "\\t"@ =~= old(out)@ + escaped_char(c));
        }
    } else if c == '\n' {
        out.append("\\n");
        proof {
            reveal_strlit("\\n");
            assert(old(out)@ + "\\n"@ =~= old(out)@ + escaped_char(c));
        }
    } else if c == '\u{c}' {
        out.append("\\f");
        proof {
            reveal_strlit("\\f");
            assert(old(out)@ + "\\f"@ =~= old(out)@ + escaped_char(c));
        }
    } else if c == '\r' {
        out.append("\\r");
        proof {
            reveal_strlit("\\r");
            assert(old(out)@ + "\\r"@ =~= old(out)@ + escaped_char(c));
        }
    } else {
        let ghost prefix = out@;
        out.append("\\u00");
        let v = c as u32;
        out.append(hex_digit_str(v / 16));
        out.append(hex_digit_str(v % 16));
        proof {
            reveal_strlit("\\u00");
            assert(v < 0x20);
            assert(prefix + "\\u00"@ + seq![hex_digit_char((v / 16) as nat)] + seq![
                hex_digit_char((v % 16) as nat),
            ] =~= prefix + escaped_char(c));
        }
    }
}

/// Encode `s` as a JSON string, quotes and escapes included, exactly as
/// the service's serializer writes it.
pub fn encode_json_string(s: &str) -> (r: String)
    ensures
        r@ == json_string(s@),
{
    let mut out = String::from_str("\"");
    proof {
        reveal_strlit("\"");
        assert(out@ =~= seq!['"'] + escape_seq(s@.take(0)));
    }
    let n = s.unicode_len();
    let mut i: usize = 0;
    while i < n
        invariant
            i <= n,
            n == s@.len(),
            out@ == seq!['"'] + escape_seq(s@.take(i as int)),
        decreases n - i,
    {
        let c = s.get_char(i);
        proof {
            assert(s@.take(i + 1).drop_last() =~= s@.take(i as int));
            assert(s@.take(i + 1).last() == s@[i as int]);
        }
        let cv = c as u32;
        if cv < 0x20 || c == '"' || c == '\\' {
            append_escape(&mut out, c);
        } else {
            let piece = s.substring_char(i, i + 1);
            out.append(piece);
            proof {
                assert(piece@ =~= seq![c]);
                assert(escaped_char(c) == seq![c]);
            }
        }
        i += 1;
    }
    proof {
        assert(s@.take(n as int) =~= s@);
    }
    out.append("\"");
    proof {
        reveal_strlit("\"");
        assert(out@ =~= json_string(s@));
    }
    out
}

/// Encode a two-member JSON object whose values are strings.
pub fn encode_json_object2(k1: &str, v1: &str, k2: &str, v2: &str) -> (r: String)
    ensures
        r@ == json_object2(k1@, v1@, k2@, v2@),
{
    let mut out = String::from_str("{");
    let ek1 = encode_json_string(k1);
    out.append(ek1.as_str());
    out.append(":");
    let ev1 = encode_json_string(v1);
    out.append(ev1.as_str());
    out.append(",");
    let ek2 = encode_json_string(k2);
    out.append(ek2.as_str());
    out.append(":");
    let ev2 = encode_json_string(v2);
    out.append(ev2.as_str());
    out.append("}");
    proof {
        reveal_strlit("{");
        reveal_strlit(":");
        reveal_strlit(",");
        reveal_strlit("}");
        assert(out@ =~= json_object2(k1@, v1@, k2@, v2@));
    }
    out
}

/// Escaping is the identity on text with nothing to escape.
pub proof fn lemma_escape_plain(s: Seq<char>)
    requires
        forall|i: int| 0 <= i < s.len() ==> !needs_escape(#[trigger] s[i]),
    ensures
        escape_seq(s) == s,
    decreases s.len(),
{
    if s.len() == 0 {
        assert(escape_seq(s) =~= s);
    } else {
        lemma_escape_plain(s.drop_last());
        assert(!needs_escape(s.last()));
        assert(escaped_char(s.last()) == seq![s.last()]);
        assert(escape_seq(s) =~= s);
    }
}

} // verus!
