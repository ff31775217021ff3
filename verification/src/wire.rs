//! The wire format: one JSON object per line. A message is encoded as
//!
//! ```text
//! {"src":<string>,"dest":<string>,"body":{<payload fields>,"msg_id":<n>,"in_reply_to":<n>}}
//! ```
//!
//! where the payload fields are the already-rendered JSON text of the
//! workload's body (at least its `type` tag), spliced in verbatim, and the
//! two id fields are written only when present. Node ids are JSON-escaped;
//! the payload text is the workload's own responsibility.

use vstd::prelude::*;

verus! {

/// The decimal digit character for `d`.
pub open spec fn digit_char(d: nat) -> char {
    if d == 0 { '0' }
    else if d == 1 { '1' }
    else if d == 2 { '2' }
    else if d == 3 { '3' }
    else if d == 4 { '4' }
    else if d == 5 { '5' }
    else if d == 6 { '6' }
    else if d == 7 { '7' }
    else if d == 8 { '8' }
    else if d == 9 { '9' }
    else { 'x' }
}

/// The lower-case hexadecimal digit character for `d`.
pub open spec fn hex_char(d: nat) -> char {
    if d < 10 { digit_char(d) }
    else if d == 10 { 'a' }
    else if d == 11 { 'b' }
    else if d == 12 { 'c' }
    else if d == 13 { 'd' }
    else if d == 14 { 'e' }
    else if d == 15 { 'f' }
    else { 'x' }
}

/// The decimal rendering of `n`, most significant digit first, no sign and
/// no leading zeros (a single zero for 0).
pub open spec fn dec_digits(n: nat) -> Seq<char>
    decreases n,
{
    if n < 10 {
        seq![digit_char(n)]
    } else {
        dec_digits(n / 10).push(digit_char(n % 10))
    }
}

/// The JSON escaping of one character inside a string literal: quote and
/// backslash get a backslash, control characters become `\u00XX`, and every
/// other character stands for itself.
pub open spec fn escape_char(c: char) -> Seq<char> {
    if c == '"' {
        seq!['\\', '"']
    } else if c == '\\' {
        seq!['\\', '\\']
    } else if (c as u32) < 32 {
        seq!['\\', 'u', '0', '0', hex_char((c as u32 / 16) as nat), hex_char((c as u32 % 16) as nat)]
    } else {
        seq![c]
    }
}

/// The JSON escaping of a whole string body.
pub open spec fn escape_text(s: Seq<char>) -> Seq<char>
    decreases s.len(),
{
    if s.len() == 0 {
        Seq::empty()
    } else {
        escape_text(s.drop_last()) + escape_char(s.last())
    }
}

pub open spec fn lit_src() -> Seq<char> {
    seq!['{', '"', 's', 'r', 'c', '"', ':', '"']
}

pub open spec fn lit_dest() -> Seq<char> {
    seq!['"', ',', '"', 'd', 'e', 's', 't', '"', ':', '"']
}

pub open spec fn lit_body() -> Seq<char> {
    seq!['"', ',', '"', 'b', 'o', 'd', 'y', '"', ':', '{']
}

pub open spec fn lit_msg_id() -> Seq<char> {
    seq![',', '"', 'm', 's', 'g', '_', 'i', 'd', '"', ':']
}

pub open spec fn lit_in_reply_to() -> Seq<char> {
    seq![',', '"', 'i', 'n', '_', 'r', 'e', 'p', 'l', 'y', '_', 't', 'o', '"', ':']
}

pub open spec fn lit_close() -> Seq<char> {
    seq!['}', '}']
}

/// An optional id field: nothing when absent, `<label><digits>` when present.
pub open spec fn id_field(label: Seq<char>, v: Option<u64>) -> Seq<char> {
    match v {
        Option::None => Seq::empty(),
        Option::Some(k) => label + dec_digits(k as nat),
    }
}

/// The full JSON line for a message, newline excluded.
pub open spec fn encode_line(
    src: Seq<char>,
    dest: Seq<char>,
    payload: Seq<char>,
    msg_id: Option<u64>,
    in_reply_to: Option<u64>,
) -> Seq<char> {
    lit_src() + escape_text(src) + lit_dest() + escape_text(dest) + lit_body() + payload
        + id_field(lit_msg_id(), msg_id) + id_field(lit_in_reply_to(), in_reply_to) + lit_close()
}

/// The one-character string slice for a decimal digit.
fn digit_str(d: u64) -> (r: &'static str)
    requires
        d < 10,
    ensures
        r@ == seq![digit_char(d as nat)],
{
    proof {
        reveal_strlit("0");
        reveal_strlit("1");
        reveal_strlit("2");
        reveal_strlit("3");
        reveal_strlit("4");
        reveal_strlit("5");
        reveal_strlit("6");
        reveal_strlit("7");
        reveal_strlit("8");
        reveal_strlit("9");
    }
    let r = match d {
        0 => "0",
        1 => "1",
        2 => "2",
        3 => "3",
        4 => "4",
        5 => "5",
        6 => "6",
        7 => "7",
        8 => "8",
        _ => "9",
    };
    proof {
        assert(r@ =~= seq![digit_char(d as nat)]);
    }
    r
}

/// The one-character string slice for a lower-case hexadecimal digit.
fn hex_str(d: u32) -> (r: &'static str)
    requires
        d < 16,
    ensures
        r@ == seq![hex_char(d as nat)],
{
    if d < 10 {
        digit_str(d as u64)
    } else {
        proof {
            reveal_strlit("a");
            reveal_strlit("b");
            reveal_strlit("c");
            reveal_strlit("d");
            reveal_strlit("e");
            reveal_strlit("f");
        }
        let r = match d {
            10 => "a",
            11 => "b",
            12 => "c",
            13 => "d",
            14 => "e",
            _ => "f",
        };
        proof {
            assert(r@ =~= seq![hex_char(d as nat)]);
        }
        r
    }
}

/// Render `n` in decimal.
pub fn dec_u64(n: u64) -> (r: String)
    ensures
        r@ == dec_digits(n as nat),
    decreases n,
{
    if n < 10 {
        let mut r = String::new();
        r.append(digit_str(n));
        r
    } else {
        assert(n / 10 < n) by {
            assert(n >= 10);
        };
        let mut r = dec_u64(n / 10);
        r.append(digit_str(n % 10));
        proof {
            assert(r@ =~= dec_digits(n as nat));
        }
        r
    }
}

/// JSON-escape the body of a string literal.
pub fn escape_str(s: &str) -> (r: String)
    ensures
        r@ == escape_text(s@),
{
    let n = s.unicode_len();
    let mut r = String::new();
    let mut i: usize = 0;
    while i < n
        invariant
            n == s@.len(),
            0 <= i <= n,
            r@ == escape_text(s@.take(i as int)),
        decreases n - i,
    {
        let c = s.get_char(i);
        proof {
            assert(s@.take(i + 1 as int).drop_last() =~= s@.take(i as int));
            assert(s@.take(i + 1 as int).last() == c);
        }
        if c == '"' {
            proof {
                reveal_strlit("\\\"");
            }
            r.append("\\\"");
            proof {
                assert("\\\""@ =~= escape_char(c));
            }
        } else if c == '\\' {
            proof {
                reveal_strlit("\\\\");
            }
            r.append("\\\\");
            proof {
                assert("\\\\"@ =~= escape_char(c));
            }
        } else if (c as u32) < 32 {
            proof {
                reveal_strlit("\\u00");
            }
            r.append("\\u00");
            r.append(hex_str((c as u32) / 16));
            r.append(hex_str((c as u32) % 16));
            proof {
                assert("\\u00"@ + seq![hex_char((c as u32 / 16) as nat)] + seq![
                    hex_char((c as u32 % 16) as nat),
                ] =~= escape_char(c));
            }
        } else {
            let piece = s.substring_char(i, i + 1);
            proof {
                assert(piece@ =~= seq![c]);
                assert(piece@ =~= escape_char(c));
            }
            r.append(piece);
        }
        proof {
            assert(r@ =~= escape_text(s@.take(i + 1 as int)));
        }
        i = i + 1;
    }
    proof {
        assert(s@.take(n as int) =~= s@);
    }
    r
}

/// Encode a full message line: envelope, payload text, and the id fields
/// that are present.
pub fn render_line(
    src: &str,
    dest: &str,
    payload: &str,
    msg_id: Option<u64>,
    in_reply_to: Option<u64>,
) -> (r: String)
    ensures
        r@ == encode_line(src@, dest@, payload@, msg_id, in_reply_to),
{
    proof {
        reveal_strlit("{\"src\":\"");
        reveal_strlit("\",\"dest\":\"");
        reveal_strlit("\",\"body\":{");
        reveal_strlit(",\"msg_id\":");
        reveal_strlit(",\"in_reply_to\":");
        reveal_strlit("}}");
        assert("{\"src\":\""@ =~= lit_src());
        assert("\",\"dest\":\""@ =~= lit_dest());
        assert("\",\"body\":{"@ =~= lit_body());
        assert(",\"msg_id\":"@ =~= lit_msg_id());
        assert(",\"in_reply_to\":"@ =~= lit_in_reply_to());
        assert("}}"@ =~= lit_close());
    }
    let mut r = String::new();
    r.append("{\"src\":\"");
    let esc_src = escape_str(src);
    r.append(esc_src.as_str());
    r.append("\",\"dest\":\"");
    let esc_dest = escape_str(dest);
    r.append(esc_dest.as_str());
    r.append("\",\"body\":{");
    r.append(payload);
    match msg_id {
        Option::Some(k) => {
            r.append(",\"msg_id\":");
            let digits = dec_u64(k);
            r.append(digits.as_str());
        },
        Option::None => {},
    }
    match in_reply_to {
        Option::Some(k) => {
            r.append(",\"in_reply_to\":");
            let digits = dec_u64(k);
            r.append(digits.as_str());
        },
        Option::None => {},
    }
    r.append("}}");
    proof {
        assert(r@ =~= encode_line(src@, dest@, payload@, msg_id, in_reply_to));
    }
    r
}

} // verus!
