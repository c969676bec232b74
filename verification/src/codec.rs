//! The JSON wire format of the chat stream.
//!
//! Every event travels on the log as a type tag plus a payload: a flat JSON
//! object of string fields written in declaration order, with `\"`, `\\`,
//! `\b`, `\f`, `\n`, `\r`, `\t` escapes and `\u00XX` for the remaining
//! control characters.  [`decode`] reads exactly that shape back; a payload
//! of any other shape, or an unknown type tag, decodes to `None`, which
//! consumers treat as an anomaly to skip, never as a failure of the fold.

use vstd::prelude::*;
use vstd::string::*;

use crate::events::ChatCreatedEvent;
use crate::events::ChatCreatedView;
use crate::events::ChatMessageSentEvent;
use crate::events::ChatMessageSentView;
use crate::events::DomainEvent;
use crate::events::DomainEventView;
use crate::strutil::push_char;
use crate::strutil::str_eq;

verus! {

// ------------------------------------------------------------------
// Escaping
// ------------------------------------------------------------------

/// The lowercase hexadecimal digit for a value below 16.
pub open spec fn hex_digit_char(v: int) -> char {
    if v < 10 {
        ((0x30 + v) as u8) as char
    } else {
        ((0x57 + v) as u8) as char
    }
}

/// Whether `c` is a lowercase hexadecimal digit.
pub open spec fn is_hex_digit(c: char) -> bool {
    0x30 <= c as u32 <= 0x39 || 0x61 <= c as u32 <= 0x66
}

/// The value of a lowercase hexadecimal digit.
pub open spec fn hex_val(c: char) -> int {
    if 0x30 <= c as u32 <= 0x39 {
        c as u32 - 0x30
    } else {
        c as u32 - 0x57
    }
}

/// How one character appears inside a JSON string literal.
pub open spec fn escape_char(c: char) -> Seq<char> {
    if c == '"' {
        seq!['\\', '"']
    } else if c == '\\' {
        seq!['\\', '\\']
    } else if c == '\u{8}' {
        seq!['\\', 'b']
    } else if c == '\u{c}' {
        seq!['\\', 'f']
    } else if c == '\n' {
        seq!['\\', 'n']
    } else if c == '\r' {
        seq!['\\', 'r']
    } else if c == '\t' {
        seq!['\\', 't']
    } else if (c as u32) < 0x20 {
        seq!['\\', 'u', '0', '0', hex_digit_char(c as u32 as int / 16), hex_digit_char(c as u32 as int % 16)]
    } else {
        seq![c]
    }
}

/// The body of a JSON string literal holding the characters of `s`.
pub open spec fn escape_string(s: Seq<char>) -> Seq<char>
    decreases s.len(),
{
    if s.len() == 0 {
        Seq::empty()
    } else {
        escape_char(s[0]) + escape_string(s.skip(1))
    }
}

/// Escaping distributes over appending one character at the end.
pub proof fn lemma_escape_string_push(s: Seq<char>, c: char)
    ensures
        escape_string(s.push(c)) == escape_string(s) + escape_char(c),
    decreases s.len(),
{
    assert(escape_string(Seq::<char>::empty()) == Seq::<char>::empty());
    if s.len() == 0 {
        assert(s.push(c).len() == 1);
        assert(s.push(c)[0] == c);
        assert(s.push(c).skip(1) =~= Seq::<char>::empty());
        assert(escape_string(s.push(c)) == escape_char(c) + escape_string(s.push(c).skip(1)));
        assert(escape_string(s) == Seq::<char>::empty());
        assert(escape_string(s.push(c)) =~= escape_string(s) + escape_char(c));
    } else {
        lemma_escape_string_push(s.skip(1), c);
        assert(s.push(c).len() == s.len() + 1);
        assert(s.push(c)[0] == s[0]);
        assert(s.push(c).skip(1) =~= s.skip(1).push(c));
        assert(escape_string(s.push(c)) == escape_char(s[0]) + escape_string(s.skip(1).push(c)));
        assert(escape_string(s.skip(1).push(c)) == escape_string(s.skip(1)) + escape_char(c));
        assert(escape_string(s) == escape_char(s[0]) + escape_string(s.skip(1)));
        assert(escape_string(s.push(c)) =~= escape_string(s) + escape_char(c));
    }
}

pub(crate) fn hex_digit(v: u8) -> (c: char)
    requires
        v < 16,
    ensures
        c == hex_digit_char(v as int),
{
    if v < 10 {
        (0x30 + v) as char
    } else {
        (0x57 + v) as char
    }
}

/// Appends the escaped form of `s` to `out`.
pub fn append_escaped(out: &mut String, s: &str)
    ensures
        final(out)@ == old(out)@ + escape_string(s@),
{
    let n = s.unicode_len();
    let mut i: usize = 0;
    while i < n
        invariant
            i <= n,
            n == s@.len(),
            out@ == old(out)@ + escape_string(s@.take(i as int)),
        decreases n - i,
    {
        let c = s.get_char(i);
        proof {
            lemma_escape_string_push(s@.take(i as int), c);
            assert(s@.take(i + 1 as int) =~= s@.take(i as int).push(c));
        }
        if c == '"' {
            out.append("\\\"");
            proof {
                reveal_strlit("\\\"");
                assert("\\\""@ =~= escape_char(c));
            }
        } else if c == '\\' {
            out.append("\\\\");
            proof {
                reveal_strlit("\\\\");
                assert("\\\\"@ =~= escape_char(c));
            }
        } else if c == '\u{8}' {
            out.append("\\b");
            proof {
                reveal_strlit("\\b");
                assert("\\b"@ =~= escape_char(c));
            }
        } else if c == '\u{c}' {
            out.append("\\f");
            proof {
                reveal_strlit("\\f");
                assert("\\f"@ =~= escape_char(c));
            }
        } else if c == '\n' {
            out.append("\\n");
            proof {
                reveal_strlit("\\n");
                assert("\\n"@ =~= escape_char(c));
            }
        } else if c == '\r' {
            out.append("\\r");
            proof {
                reveal_strlit("\\r");
                assert("\\r"@ =~= escape_char(c));
            }
        } else if c == '\t' {
            out.append("\\t");
            proof {
                reveal_strlit("\\t");
                assert("\\t"@ =~= escape_char(c));
            }
        } else if (c as u32) < 0x20 {
            let code = c as u32;
            out.append("\\u00");
            push_char(out, hex_digit((code / 16) as u8));
            push_char(out, hex_digit((code % 16) as u8));
            proof {
                reveal_strlit("\\u00");
                assert(out@ =~= old(out)@ + escape_string(s@.take(i as int)) + escape_char(c));
            }
        } else {
            push_char(out, c);
            proof {
                assert(out@ =~= old(out)@ + escape_string(s@.take(i as int)) + escape_char(c));
            }
        }
        proof {
            assert(out@ =~= old(out)@ + escape_string(s@.take(i + 1 as int)));
        }
        i += 1;
    }
    proof {
        assert(s@.take(n as int) =~= s@);
    }
}

// ------------------------------------------------------------------
// The shape of each payload
// ------------------------------------------------------------------

/// `{"chat_id":"` — the opening of both event payloads.
pub open spec fn lit_chat_id_head() -> Seq<char> {
    seq!['{', '"', 'c', 'h', 'a', 't', '_', 'i', 'd', '"', ':', '"']
}

/// `,"user_id":"`
pub open spec fn lit_user_id_mid() -> Seq<char> {
    seq![',', '"', 'u', 's', 'e', 'r', '_', 'i', 'd', '"', ':', '"']
}

/// `,"subject":"`
pub open spec fn lit_subject_mid() -> Seq<char> {
    seq![',', '"', 's', 'u', 'b', 'j', 'e', 'c', 't', '"', ':', '"']
}

/// `,"message_id":"`
pub open spec fn lit_message_id_mid() -> Seq<char> {
    seq![',', '"', 'm', 'e', 's', 's', 'a', 'g', 'e', '_', 'i', 'd', '"', ':', '"']
}

/// `,"message":"`
pub open spec fn lit_message_mid() -> Seq<char> {
    seq![',', '"', 'm', 'e', 's', 's', 'a', 'g', 'e', '"', ':', '"']
}

/// `{"message":"` — the opening of the live delivery payload.
pub open spec fn lit_live_head() -> Seq<char> {
    seq!['{', '"', 'm', 'e', 's', 's', 'a', 'g', 'e', '"', ':', '"']
}

/// `,"sent_by":"`
pub open spec fn lit_sent_by_mid() -> Seq<char> {
    seq![',', '"', 's', 'e', 'n', 't', '_', 'b', 'y', '"', ':', '"']
}

/// `}`
pub open spec fn lit_close() -> Seq<char> {
    seq!['}']
}

/// A string field's characters as written on the wire, closing quote included.
pub open spec fn quoted_field(s: Seq<char>) -> Seq<char> {
    escape_string(s) + seq!['"']
}

/// The payload written for a [`ChatCreatedEvent`].
pub open spec fn chat_created_json(e: ChatCreatedView) -> Seq<char> {
    lit_chat_id_head() + quoted_field(e.chat_id) + lit_user_id_mid() + quoted_field(e.user_id)
        + lit_subject_mid() + quoted_field(e.subject) + lit_close()
}

/// The payload written for a [`ChatMessageSentEvent`].
pub open spec fn message_sent_json(e: ChatMessageSentView) -> Seq<char> {
    lit_chat_id_head() + quoted_field(e.chat_id) + lit_message_id_mid() + quoted_field(
        e.message_id,
    ) + lit_user_id_mid() + quoted_field(e.user_id) + lit_message_mid() + quoted_field(e.message)
        + lit_close()
}

/// The body pushed to a live listener for one delivered message.
pub open spec fn live_message_json(e: ChatMessageSentView) -> Seq<char> {
    lit_live_head() + quoted_field(e.message) + lit_message_id_mid() + quoted_field(e.message_id)
        + lit_sent_by_mid() + quoted_field(e.user_id) + lit_close()
}

// ------------------------------------------------------------------
// Encoders
// ------------------------------------------------------------------

/// Writes the payload of a [`ChatCreatedEvent`].
pub fn encode_chat_created(e: &ChatCreatedEvent) -> (r: String)
    ensures
        r@ == chat_created_json(e@),
{
    let mut out = String::new();
    out.append("{\"chat_id\":\"");
    append_escaped(&mut out, e.chat_id.as_str());
    out.append("\",\"user_id\":\"");
    append_escaped(&mut out, e.user_id.as_str());
    out.append("\",\"subject\":\"");
    append_escaped(&mut out, e.subject.as_str());
    out.append("\"}");
    proof {
        reveal_strlit("{\"chat_id\":\"");
        reveal_strlit("\",\"user_id\":\"");
        reveal_strlit("\",\"subject\":\"");
        reveal_strlit("\"}");
        assert("{\"chat_id\":\""@ =~= lit_chat_id_head());
        assert("\",\"user_id\":\""@ =~= seq!['"'] + lit_user_id_mid());
        assert("\",\"subject\":\""@ =~= seq!['"'] + lit_subject_mid());
        assert("\"}"@ =~= seq!['"'] + lit_close());
        assert(out@ =~= chat_created_json(e@));
    }
    out
}

/// Writes the payload of a [`ChatMessageSentEvent`].
pub fn encode_message_sent(e: &ChatMessageSentEvent) -> (r: String)
    ensures
        r@ == message_sent_json(e@),
{
    let mut out = String::new();
    out.append("{\"chat_id\":\"");
    append_escaped(&mut out, e.chat_id.as_str());
    out.append("\",\"message_id\":\"");
    append_escaped(&mut out, e.message_id.as_str());
    out.append("\",\"user_id\":\"");
    append_escaped(&mut out, e.user_id.as_str());
    out.append("\",\"message\":\"");
    append_escaped(&mut out, e.message.as_str());
    out.append("\"}");
    proof {
        reveal_strlit("{\"chat_id\":\"");
        reveal_strlit("\",\"message_id\":\"");
        reveal_strlit("\",\"user_id\":\"");
        reveal_strlit("\",\"message\":\"");
        reveal_strlit("\"}");
        assert("{\"chat_id\":\""@ =~= lit_chat_id_head());
        assert("\",\"message_id\":\""@ =~= seq!['"'] + lit_message_id_mid());
        assert("\",\"user_id\":\""@ =~= seq!['"'] + lit_user_id_mid());
        assert("\",\"message\":\""@ =~= seq!['"'] + lit_message_mid());
        assert("\"}"@ =~= seq!['"'] + lit_close());
        assert(out@ =~= message_sent_json(e@));
    }
    out
}

/// Writes the body pushed to a live listener for one delivered message.
pub fn encode_live_message(e: &ChatMessageSentEvent) -> (r: String)
    ensures
        r@ == live_message_json(e@),
{
    let mut out = String::new();
    out.append("{\"message\":\"");
    append_escaped(&mut out, e.message.as_str());
    out.append("\",\"message_id\":\"");
    append_escaped(&mut out, e.message_id.as_str());
    out.append("\",\"sent_by\":\"");
    append_escaped(&mut out, e.user_id.as_str());
    out.append("\"}");
    proof {
        reveal_strlit("{\"message\":\"");
        reveal_strlit("\",\"message_id\":\"");
        reveal_strlit("\",\"sent_by\":\"");
        reveal_strlit("\"}");
        assert("{\"message\":\""@ =~= lit_live_head());
        assert("\",\"message_id\":\""@ =~= seq!['"'] + lit_message_id_mid());
        assert("\",\"sent_by\":\""@ =~= seq!['"'] + lit_sent_by_mid());
        assert("\"}"@ =~= seq!['"'] + lit_close());
        assert(out@ =~= live_message_json(e@));
    }
    out
}

// ------------------------------------------------------------------
// Parsing
// ------------------------------------------------------------------

/// The character named by a single-letter escape, if any.
pub open spec fn unescape_named(c: char) -> Option<char> {
    if c == '"' {
        Some('"')
    } else if c == '\\' {
        Some('\\')
    } else if c == '/' {
        Some('/')
    } else if c == 'b' {
        Some('\u{8}')
    } else if c == 'f' {
        Some('\u{c}')
    } else if c == 'n' {
        Some('\n')
    } else if c == 'r' {
        Some('\r')
    } else if c == 't' {
        Some('\t')
    } else {
        None
    }
}

/// Reads a string literal's body up to and including its closing quote,
/// returning the characters it denotes and what follows the quote.
pub open spec fn sp_string_body(s: Seq<char>) -> Option<(Seq<char>, Seq<char>)>
    decreases s.len(),
{
    if s.len() == 0 {
        None
    } else if s[0] == '"' {
        Some((Seq::empty(), s.skip(1)))
    } else if s[0] == '\\' {
        if s.len() < 2 {
            None
        } else if s[1] == 'u' {
            if s.len() < 6 {
                None
            } else if s[2] == '0' && s[3] == '0' && is_hex_digit(s[4]) && is_hex_digit(s[5]) {
                let v = hex_val(s[4]) * 16 + hex_val(s[5]);
                match sp_string_body(s.skip(6)) {
                    Some(p) => Some((seq![(v as u8) as char] + p.0, p.1)),
                    None => None,
                }
            } else {
                None
            }
        } else {
            match unescape_named(s[1]) {
                Some(c) => match sp_string_body(s.skip(2)) {
                    Some(p) => Some((seq![c] + p.0, p.1)),
                    None => None,
                },
                None => None,
            }
        }
    } else {
        match sp_string_body(s.skip(1)) {
            Some(p) => Some((seq![s[0]] + p.0, p.1)),
            None => None,
        }
    }
}

/// Consumes an exact literal from the front.
pub open spec fn sp_expect(s: Seq<char>, lit: Seq<char>) -> Option<Seq<char>> {
    if lit.len() <= s.len() && s.take(lit.len() as int) == lit {
        Some(s.skip(lit.len() as int))
    } else {
        None
    }
}

/// The payload of a [`ChatCreatedEvent`], read back.
pub open spec fn decode_chat_created_spec(s: Seq<char>) -> Option<ChatCreatedView> {
    match sp_expect(s, lit_chat_id_head()) {
        Some(s1) => match sp_string_body(s1) {
            Some(p1) => match sp_expect(p1.1, lit_user_id_mid()) {
                Some(s2) => match sp_string_body(s2) {
                    Some(p2) => match sp_expect(p2.1, lit_subject_mid()) {
                        Some(s3) => match sp_string_body(s3) {
                            Some(p3) => match sp_expect(p3.1, lit_close()) {
                                Some(s4) => if s4.len() == 0 {
                                    Some(
                                        ChatCreatedView {
                                            chat_id: p1.0,
                                            user_id: p2.0,
                                            subject: p3.0,
                                        },
                                    )
                                } else {
                                    None
                                },
                                None => None,
                            },
                            None => None,
                        },
                        None => None,
                    },
                    None => None,
                },
                None => None,
            },
            None => None,
        },
        None => None,
    }
}

/// The payload of a [`ChatMessageSentEvent`], read back.
pub open spec fn decode_message_sent_spec(s: Seq<char>) -> Option<ChatMessageSentView> {
    match sp_expect(s, lit_chat_id_head()) {
        Some(s1) => match sp_string_body(s1) {
            Some(p1) => match sp_expect(p1.1, lit_message_id_mid()) {
                Some(s2) => match sp_string_body(s2) {
                    Some(p2) => match sp_expect(p2.1, lit_user_id_mid()) {
                        Some(s3) => match sp_string_body(s3) {
                            Some(p3) => match sp_expect(p3.1, lit_message_mid()) {
                                Some(s4) => match sp_string_body(s4) {
                                    Some(p4) => match sp_expect(p4.1, lit_close()) {
                                        Some(s5) => if s5.len() == 0 {
                                            Some(
                                                ChatMessageSentView {
                                                    chat_id: p1.0,
                                                    message_id: p2.0,
                                                    user_id: p3.0,
                                                    message: p4.0,
                                                },
                                            )
                                        } else {
                                            None
                                        },
                                        None => None,
                                    },
                                    None => None,
                                },
                                None => None,
                            },
                            None => None,
                        },
                        None => None,
                    },
                    None => None,
                },
                None => None,
            },
            None => None,
        },
        None => None,
    }
}

/// A pending parse with `prefix` already read: prepends `prefix` to
/// whatever contents the rest of the literal denotes.
pub open spec fn sp_cont(prefix: Seq<char>, r: Option<(Seq<char>, Seq<char>)>) -> Option<
    (Seq<char>, Seq<char>),
> {
    match r {
        Some(p) => Some((prefix + p.0, p.1)),
        None => None,
    }
}

proof fn lemma_sp_cont_push(prefix: Seq<char>, c: char, r: Option<(Seq<char>, Seq<char>)>)
    ensures
        sp_cont(prefix, sp_cont(seq![c], r)) == sp_cont(prefix.push(c), r),
{
    match r {
        Some(p) => {
            assert(prefix + (seq![c] + p.0) =~= prefix.push(c) + p.0);
        },
        None => {},
    }
}

fn hex_value(c: char) -> (r: Option<u8>)
    ensures
        match r {
            Some(v) => is_hex_digit(c) && v == hex_val(c),
            None => !is_hex_digit(c),
        },
{
    let u = c as u32;
    if 0x30 <= u && u <= 0x39 {
        Some((u - 0x30) as u8)
    } else if 0x61 <= u && u <= 0x66 {
        Some((u - 0x57) as u8)
    } else {
        None
    }
}

fn unescape_char(c: char) -> (r: Option<char>)
    ensures
        r == unescape_named(c),
{
    if c == '"' {
        Some('"')
    } else if c == '\\' {
        Some('\\')
    } else if c == '/' {
        Some('/')
    } else if c == 'b' {
        Some('\u{8}')
    } else if c == 'f' {
        Some('\u{c}')
    } else if c == 'n' {
        Some('\n')
    } else if c == 'r' {
        Some('\r')
    } else if c == 't' {
        Some('\t')
    } else {
        None
    }
}

/// Reads the exact characters of `lit` at position `i` of `s`.
fn expect_lit(s: &str, i: usize, lit: &str) -> (r: Option<usize>)
    requires
        i <= s@.len(),
    ensures
        match r {
            Some(j) => j <= s@.len() && sp_expect(s@.skip(i as int), lit@) == Some(
                s@.skip(j as int),
            ),
            None => sp_expect(s@.skip(i as int), lit@) is None,
        },
{
    let n = s.unicode_len();
    let m = lit.unicode_len();
    if m > n - i {
        return None;
    }
    let mut j: usize = 0;
    while j < m
        invariant
            j <= m,
            m == lit@.len(),
            n == s@.len(),
            i + m <= n,
            forall|t: int| 0 <= t < j ==> s@[i + t] == lit@[t],
        decreases m - j,
    {
        if s.get_char(i + j) != lit.get_char(j) {
            proof {
                let taken = s@.skip(i as int).take(m as int);
                assert(taken[j as int] == s@[i + j]);
                assert(taken != lit@) by {
                    if taken == lit@ {
                        assert(taken[j as int] == lit@[j as int]);
                    }
                }
            }
            return None;
        }
        j += 1;
    }
    proof {
        assert(s@.skip(i as int).take(m as int) =~= lit@);
        assert(s@.skip(i as int).skip(m as int) =~= s@.skip(i as int + m as int));
    }
    Some(i + m)
}

/// Reads a string literal's body starting at `i`, up to and including the
/// closing quote, returning the position after the quote and the contents.
fn parse_string_body(s: &str, i: usize) -> (r: Option<(usize, String)>)
    requires
        i <= s@.len(),
    ensures
        match r {
            Some(p) => p.0 <= s@.len() && sp_string_body(s@.skip(i as int)) == Some(
                (p.1@, s@.skip(p.0 as int)),
            ),
            None => sp_string_body(s@.skip(i as int)) is None,
        },
{
    let n = s.unicode_len();
    let mut k: usize = i;
    let mut out = String::new();
    loop
        invariant
            i <= k <= n,
            n == s@.len(),
            sp_string_body(s@.skip(i as int)) == sp_cont(out@, sp_string_body(s@.skip(k as int))),
        decreases n - k,
    {
        if k >= n {
            return None;
        }
        let c = s.get_char(k);
        proof {
            assert(s@.skip(k as int)[0] == s@[k as int]);
        }
        if c == '"' {
            proof {
                assert(s@.skip(k as int).skip(1) =~= s@.skip(k as int + 1));
                assert(out@ + Seq::<char>::empty() =~= out@);
            }
            return Some((k + 1, out));
        } else if c == '\\' {
            if k + 1 >= n {
                return None;
            }
            let e = s.get_char(k + 1);
            proof {
                assert(s@.skip(k as int)[1] == s@[k as int + 1]);
            }
            if e == 'u' {
                if n - k < 6 {
                    return None;
                }
                proof {
                    assert(s@.skip(k as int)[2] == s@[k as int + 2]);
                    assert(s@.skip(k as int)[3] == s@[k as int + 3]);
                    assert(s@.skip(k as int)[4] == s@[k as int + 4]);
                    assert(s@.skip(k as int)[5] == s@[k as int + 5]);
                }
                if s.get_char(k + 2) != '0' || s.get_char(k + 3) != '0' {
                    return None;
                }
                let h1 = match hex_value(s.get_char(k + 4)) {
                    Some(v) => v,
                    None => {
                        return None;
                    },
                };
                let h2 = match hex_value(s.get_char(k + 5)) {
                    Some(v) => v,
                    None => {
                        return None;
                    },
                };
                let c2 = (h1 * 16 + h2) as char;
                proof {
                    assert(s@.skip(k as int).skip(6) =~= s@.skip(k as int + 6));
                    lemma_sp_cont_push(out@, c2, sp_string_body(s@.skip(k as int + 6)));
                    assert(sp_string_body(s@.skip(k as int)) == sp_cont(
                        seq![c2],
                        sp_string_body(s@.skip(k as int + 6)),
                    ));
                }
                push_char(&mut out, c2);
                k = k + 6;
            } else {
                let u = match unescape_char(e) {
                    Some(u) => u,
                    None => {
                        return None;
                    },
                };
                proof {
                    assert(s@.skip(k as int).skip(2) =~= s@.skip(k as int + 2));
                    lemma_sp_cont_push(out@, u, sp_string_body(s@.skip(k as int + 2)));
                }
                push_char(&mut out, u);
                k = k + 2;
            }
        } else {
            proof {
                assert(s@.skip(k as int).skip(1) =~= s@.skip(k as int + 1));
                lemma_sp_cont_push(out@, c, sp_string_body(s@.skip(k as int + 1)));
            }
            push_char(&mut out, c);
            k = k + 1;
        }
    }
}

/// Reads the payload of a [`ChatCreatedEvent`].
pub fn decode_chat_created(s: &str) -> (r: Option<ChatCreatedEvent>)
    ensures
        match r {
            Some(e) => decode_chat_created_spec(s@) == Some(e@),
            None => decode_chat_created_spec(s@) is None,
        },
{
    proof {
        reveal_strlit("{\"chat_id\":\"");
        reveal_strlit(",\"user_id\":\"");
        reveal_strlit(",\"subject\":\"");
        reveal_strlit("}");
        assert("{\"chat_id\":\""@ =~= lit_chat_id_head());
        assert(",\"user_id\":\""@ =~= lit_user_id_mid());
        assert(",\"subject\":\""@ =~= lit_subject_mid());
        assert("}"@ =~= lit_close());
        assert(s@.skip(0) =~= s@);
    }
    let j0 = match expect_lit(s, 0, "{\"chat_id\":\"") {
        Some(j) => j,
        None => {
            return None;
        },
    };
    let (j1, chat_id) = match parse_string_body(s, j0) {
        Some(p) => p,
        None => {
            return None;
        },
    };
    let j2 = match expect_lit(s, j1, ",\"user_id\":\"") {
        Some(j) => j,
        None => {
            return None;
        },
    };
    let (j3, user_id) = match parse_string_body(s, j2) {
        Some(p) => p,
        None => {
            return None;
        },
    };
    let j4 = match expect_lit(s, j3, ",\"subject\":\"") {
        Some(j) => j,
        None => {
            return None;
        },
    };
    let (j5, subject) = match parse_string_body(s, j4) {
        Some(p) => p,
        None => {
            return None;
        },
    };
    let j6 = match expect_lit(s, j5, "}") {
        Some(j) => j,
        None => {
            return None;
        },
    };
    if j6 != s.unicode_len() {
        return None;
    }
    Some(ChatCreatedEvent { chat_id, user_id, subject })
}

/// Reads the payload of a [`ChatMessageSentEvent`].
pub fn decode_message_sent(s: &str) -> (r: Option<ChatMessageSentEvent>)
    ensures
        match r {
            Some(e) => decode_message_sent_spec(s@) == Some(e@),
            None => decode_message_sent_spec(s@) is None,
        },
{
    proof {
        reveal_strlit("{\"chat_id\":\"");
        reveal_strlit(",\"message_id\":\"");
        reveal_strlit(",\"user_id\":\"");
        reveal_strlit(",\"message\":\"");
        reveal_strlit("}");
        assert("{\"chat_id\":\""@ =~= lit_chat_id_head());
        assert(",\"message_id\":\""@ =~= lit_message_id_mid());
        assert(",\"user_id\":\""@ =~= lit_user_id_mid());
        assert(",\"message\":\""@ =~= lit_message_mid());
        assert("}"@ =~= lit_close());
        assert(s@.skip(0) =~= s@);
    }
    let j0 = match expect_lit(s, 0, "{\"chat_id\":\"") {
        Some(j) => j,
        None => {
            return None;
        },
    };
    let (j1, chat_id) = match parse_string_body(s, j0) {
        Some(p) => p,
        None => {
            return None;
        },
    };
    let j2 = match expect_lit(s, j1, ",\"message_id\":\"") {
        Some(j) => j,
        None => {
            return None;
        },
    };
    let (j3, message_id) = match parse_string_body(s, j2) {
        Some(p) => p,
        None => {
            return None;
        },
    };
    let j4 = match expect_lit(s, j3, ",\"user_id\":\"") {
        Some(j) => j,
        None => {
            return None;
        },
    };
    let (j5, user_id) = match parse_string_body(s, j4) {
        Some(p) => p,
        None => {
            return None;
        },
    };
    let j6 = match expect_lit(s, j5, ",\"message\":\"") {
        Some(j) => j,
        None => {
            return None;
        },
    };
    let (j7, message) = match parse_string_body(s, j6) {
        Some(p) => p,
        None => {
            return None;
        },
    };
    let j8 = match expect_lit(s, j7, "}") {
        Some(j) => j,
        None => {
            return None;
        },
    };
    if j8 != s.unicode_len() {
        return None;
    }
    Some(ChatMessageSentEvent { chat_id, message_id, user_id, message })
}

/// What a recorded event's tag and payload denote: a domain event, or
/// nothing when the tag is unknown or the payload malformed.
pub open spec fn decode_spec(tag: Seq<char>, payload: Seq<char>) -> Option<DomainEventView> {
    if tag == "ChatCreatedEvent"@ {
        match decode_chat_created_spec(payload) {
            Some(v) => Some(DomainEventView::ChatCreated(v)),
            None => None,
        }
    } else if tag == "ChatMessageSentEvent"@ {
        match decode_message_sent_spec(payload) {
            Some(v) => Some(DomainEventView::MessageSent(v)),
            None => None,
        }
    } else {
        None
    }
}

// ------------------------------------------------------------------
// Round trip: whatever the encoders write, decoding reads back
// ------------------------------------------------------------------

proof fn lemma_hex_digit_char(v: int)
    requires
        0 <= v < 16,
    ensures
        is_hex_digit(hex_digit_char(v)),
        hex_val(hex_digit_char(v)) == v,
{
    if v < 10 {
        assert(hex_digit_char(v) as u32 == 0x30 + v);
    } else {
        assert(hex_digit_char(v) as u32 == 0x57 + v);
    }
}

proof fn lemma_expect_prefix(lit: Seq<char>, rest: Seq<char>)
    requires
        lit.len() > 0,
    ensures
        sp_expect(lit + rest, lit) == Some(rest),
{
    assert((lit + rest).take(lit.len() as int) =~= lit);
    assert((lit + rest).skip(lit.len() as int) =~= rest);
}

/// A quoted, escaped field reads back as exactly the characters that were
/// written, leaving exactly what followed the closing quote.
pub proof fn lemma_string_round_trip(s: Seq<char>, rest: Seq<char>)
    ensures
        sp_string_body(quoted_field(s) + rest) == Some((s, rest)),
    decreases s.len(),
{
    let input = quoted_field(s) + rest;
    if s.len() == 0 {
        assert(input =~= seq!['"'] + rest);
        assert(input[0] == '"');
        assert(input.skip(1) =~= rest);
    } else {
        let c = s[0];
        let tail_input = quoted_field(s.skip(1)) + rest;
        lemma_string_round_trip(s.skip(1), rest);
        assert(input =~= escape_char(c) + tail_input);
        if c == '"' || c == '\\' {
            assert(input[0] == '\\');
            assert(input[1] == c);
            assert(input.len() >= 2);
            assert(unescape_named(c) == Some(c));
            assert(input.skip(2) =~= tail_input);
            assert(sp_string_body(input) == Some((seq![c] + s.skip(1), rest)));
            assert(seq![c] + s.skip(1) =~= s);
        } else if c == '\u{8}' || c == '\u{c}' || c == '\n' || c == '\r' || c == '\t' {
            let code = if c == '\u{8}' {
                'b'
            } else if c == '\u{c}' {
                'f'
            } else if c == '\n' {
                'n'
            } else if c == '\r' {
                'r'
            } else {
                't'
            };
            assert(escape_char(c) == seq!['\\', code]);
            assert(input[0] == '\\');
            assert(input[1] == code);
            assert(input.len() >= 2);
            assert(unescape_named(code) == Some(c));
            assert(input.skip(2) =~= tail_input);
            assert(sp_string_body(input) == Some((seq![c] + s.skip(1), rest)));
            assert(seq![c] + s.skip(1) =~= s);
        } else if (c as u32) < 0x20 {
            let v = c as u32 as int;
            let h1 = hex_digit_char(v / 16);
            let h2 = hex_digit_char(v % 16);
            lemma_hex_digit_char(v / 16);
            lemma_hex_digit_char(v % 16);
            assert(escape_char(c) == seq!['\\', 'u', '0', '0', h1, h2]);
            assert(input[0] == '\\');
            assert(input[1] == 'u');
            assert(input[2] == '0');
            assert(input[3] == '0');
            assert(input[4] == h1);
            assert(input[5] == h2);
            assert(input.len() >= 6);
            assert(hex_val(h1) * 16 + hex_val(h2) == v);
            assert(((v as u8) as char) == c) by {
                vstd::utf8::char_u32_cast(c, c as u32);
                assert(((c as u32) as u8) as u32 == c as u32);
            }
            assert(input.skip(6) =~= tail_input);
            assert(sp_string_body(input) == Some((seq![c] + s.skip(1), rest)));
            assert(seq![c] + s.skip(1) =~= s);
        } else {
            assert(escape_char(c) == seq![c]);
            assert(input[0] == c);
            assert(input.skip(1) =~= tail_input);
            assert(sp_string_body(input) == Some((seq![c] + s.skip(1), rest)));
            assert(seq![c] + s.skip(1) =~= s);
        }
    }
}

/// Law: a chat-created payload written by the encoder decodes to the very
/// event it was written from.
pub proof fn lemma_chat_created_round_trip(e: ChatCreatedView)
    ensures
        decode_chat_created_spec(chat_created_json(e)) == Some(e),
{
    let r3 = quoted_field(e.subject) + lit_close();
    let r2 = lit_subject_mid() + r3;
    let r1 = quoted_field(e.user_id) + r2;
    let r0 = lit_user_id_mid() + r1;
    let rc = quoted_field(e.chat_id) + r0;
    assert(chat_created_json(e) =~= lit_chat_id_head() + rc);
    lemma_expect_prefix(lit_chat_id_head(), rc);
    lemma_string_round_trip(e.chat_id, r0);
    lemma_expect_prefix(lit_user_id_mid(), r1);
    lemma_string_round_trip(e.user_id, r2);
    lemma_expect_prefix(lit_subject_mid(), r3);
    lemma_string_round_trip(e.subject, lit_close());
    assert(lit_close() =~= lit_close() + Seq::<char>::empty());
    lemma_expect_prefix(lit_close(), Seq::<char>::empty());
    assert(sp_expect(lit_close(), lit_close()) == Some(Seq::<char>::empty()));
    assert(decode_chat_created_spec(chat_created_json(e)) == Some(
        ChatCreatedView { chat_id: e.chat_id, user_id: e.user_id, subject: e.subject },
    ));
}

/// Law: a message-sent payload written by the encoder decodes to the very
/// event it was written from.
pub proof fn lemma_message_sent_round_trip(e: ChatMessageSentView)
    ensures
        decode_message_sent_spec(message_sent_json(e)) == Some(e),
{
    let r5 = quoted_field(e.message) + lit_close();
    let r4 = lit_message_mid() + r5;
    let r3 = quoted_field(e.user_id) + r4;
    let r2 = lit_user_id_mid() + r3;
    let r1 = quoted_field(e.message_id) + r2;
    let r0 = lit_message_id_mid() + r1;
    let rc = quoted_field(e.chat_id) + r0;
    assert(message_sent_json(e) =~= lit_chat_id_head() + rc);
    lemma_expect_prefix(lit_chat_id_head(), rc);
    lemma_string_round_trip(e.chat_id, r0);
    lemma_expect_prefix(lit_message_id_mid(), r1);
    lemma_string_round_trip(e.message_id, r2);
    lemma_expect_prefix(lit_user_id_mid(), r3);
    lemma_string_round_trip(e.user_id, r4);
    lemma_expect_prefix(lit_message_mid(), r5);
    lemma_string_round_trip(e.message, lit_close());
    assert(lit_close() =~= lit_close() + Seq::<char>::empty());
    lemma_expect_prefix(lit_close(), Seq::<char>::empty());
    assert(sp_expect(lit_close(), lit_close()) == Some(Seq::<char>::empty()));
    assert(decode_message_sent_spec(message_sent_json(e)) == Some(
        ChatMessageSentView {
            chat_id: e.chat_id,
            message_id: e.message_id,
            user_id: e.user_id,
            message: e.message,
        },
    ));
}

/// Law: encoding an event under its tag and decoding the pair gives the
/// event back, for both event kinds.
pub proof fn lemma_decode_encode(ev: DomainEventView)
    ensures
        match ev {
            DomainEventView::ChatCreated(e) => decode_spec("ChatCreatedEvent"@, chat_created_json(e))
                == Some(ev),
            DomainEventView::MessageSent(e) => decode_spec(
                "ChatMessageSentEvent"@,
                message_sent_json(e),
            ) == Some(ev),
        },
{
    match ev {
        DomainEventView::ChatCreated(e) => {
            lemma_chat_created_round_trip(e);
        },
        DomainEventView::MessageSent(e) => {
            lemma_message_sent_round_trip(e);
            assert("ChatMessageSentEvent"@ != "ChatCreatedEvent"@) by {
                reveal_strlit("ChatMessageSentEvent");
                reveal_strlit("ChatCreatedEvent");
                assert("ChatMessageSentEvent"@.len() == 20);
                assert("ChatCreatedEvent"@.len() == 16);
            }
        },
    }
}

/// Turns a recorded event's tag and payload into a domain event, or `None`
/// for an unknown tag or a malformed payload.
pub fn decode(event_type: &str, payload: &str) -> (r: Option<DomainEvent>)
    ensures
        match r {
            Some(ev) => decode_spec(event_type@, payload@) == Some(ev@),
            None => decode_spec(event_type@, payload@) is None,
        },
{
    if str_eq(event_type, "ChatCreatedEvent") {
        match decode_chat_created(payload) {
            Some(e) => Some(DomainEvent::ChatCreated(e)),
            None => None,
        }
    } else if str_eq(event_type, "ChatMessageSentEvent") {
        match decode_message_sent(payload) {
            Some(e) => Some(DomainEvent::MessageSent(e)),
            None => None,
        }
    } else {
        None
    }
}

} // verus!
