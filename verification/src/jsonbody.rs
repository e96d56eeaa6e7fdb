//! Framing of the chat-completion POST body: a JSON object with the model
//! name, the ordered message list, and the streaming flag, with string
//! contents escaped as JSON demands.

use vstd::prelude::*;
use vstd::string::{StrSliceExecFns, StringExecFns};
use crate::messages::{Message, message_views, role_name_text};

verus! {

/// The lowercase hexadecimal digit of a value below 16.
pub open spec fn hex_digit(n: u32) -> char {
    if n == 0 {
        '0'
    } else if n == 1 {
        '1'
    } else if n == 2 {
        '2'
    } else if n == 3 {
        '3'
    } else if n == 4 {
        '4'
    } else if n == 5 {
        '5'
    } else if n == 6 {
        '6'
    } else if n == 7 {
        '7'
    } else if n == 8 {
        '8'
    } else if n == 9 {
        '9'
    } else if n == 10 {
        'a'
    } else if n == 11 {
        'b'
    } else if n == 12 {
        'c'
    } else if n == 13 {
        'd'
    } else if n == 14 {
        'e'
    } else {
        'f'
    }
}

/// How one character is written inside a JSON string literal: the quote, the
/// backslash and the common control characters get a short escape, the other
/// control characters a `\u00..` escape, and everything else stands as it is.
pub open spec fn escape_char(c: char) -> Seq<char> {
    if c == '"' {
        "\\\""@
    } else if c == '\\' {
        "\\\\"@
    } else if c == '\n' {
        "\\n"@
    } else if c == '\r' {
        "\\r"@
    } else if c == '\t' {
        "\\t"@
    } else if (c as u32) < 32 {
        "\\u00"@ + seq![hex_digit((c as u32) / 16), hex_digit((c as u32) % 16)]
    } else {
        seq![c]
    }
}

/// A text with every character escaped for a JSON string literal.
pub open spec fn escape_text(s: Seq<char>) -> Seq<char>
    decreases s.len(),
{
    if s.len() == 0 {
        Seq::empty()
    } else {
        escape_text(s.drop_last()) + escape_char(s.last())
    }
}

/// A text as a JSON string literal.
pub open spec fn quoted(s: Seq<char>) -> Seq<char> {
    "\""@ + escape_text(s) + "\""@
}

/// One message as a JSON object with its role and content.
pub open spec fn message_object_text(role: Seq<char>, content: Seq<char>) -> Seq<char> {
    "{\"role\":"@ + quoted(role) + ",\"content\":"@ + quoted(content) + "}"@
}

/// The comma-separated message objects, in order.
pub open spec fn messages_items_text(ms: Seq<(Seq<char>, Seq<char>)>) -> Seq<char>
    decreases ms.len(),
{
    if ms.len() == 0 {
        Seq::empty()
    } else if ms.len() == 1 {
        message_object_text(ms[0].0, ms[0].1)
    } else {
        messages_items_text(ms.drop_last()) + ","@ + message_object_text(
            ms.last().0,
            ms.last().1,
        )
    }
}

/// The whole POST body for a chat-completion request.
pub open spec fn request_body_text(
    model: Seq<char>,
    ms: Seq<(Seq<char>, Seq<char>)>,
    stream: bool,
) -> Seq<char> {
    "{\"model\":"@ + quoted(model) + ",\"messages\":["@ + messages_items_text(ms) + "],\"stream\":"@
        + (if stream {
        "true"@
    } else {
        "false"@
    }) + "}"@
}

/// The lowercase hexadecimal digit of a value below 16.
fn hex_char(n: u32) -> (r: &'static str)
    requires
        n < 16,
    ensures
        r@ == seq![hex_digit(n)],
{
    match n {
        0 => {
            let s = "0";
            proof {
                reveal_strlit("0");
                assert(s@ =~= seq![hex_digit(n)]);
            }
            s
        },
        1 => {
            let s = "1";
            proof {
                reveal_strlit("1");
                assert(s@ =~= seq![hex_digit(n)]);
            }
            s
        },
        2 => {
            let s = "2";
            proof {
                reveal_strlit("2");
                assert(s@ =~= seq![hex_digit(n)]);
            }
            s
        },
        3 => {
            let s = "3";
            proof {
                reveal_strlit("3");
                assert(s@ =~= seq![hex_digit(n)]);
            }
            s
        },
        4 => {
            let s = "4";
            proof {
                reveal_strlit("4");
                assert(s@ =~= seq![hex_digit(n)]);
            }
            s
        },
        5 => {
            let s = "5";
            proof {
                reveal_strlit("5");
                assert(s@ =~= seq![hex_digit(n)]);
            }
            s
        },
        6 => {
            let s = "6";
            proof {
                reveal_strlit("6");
                assert(s@ =~= seq![hex_digit(n)]);
            }
            s
        },
        7 => {
            let s = "7";
            proof {
                reveal_strlit("7");
                assert(s@ =~= seq![hex_digit(n)]);
            }
            s
        },
        8 => {
            let s = "8";
            proof {
                reveal_strlit("8");
                assert(s@ =~= seq![hex_digit(n)]);
            }
            s
        },
        9 => {
            let s = "9";
            proof {
                reveal_strlit("9");
                assert(s@ =~= seq![hex_digit(n)]);
            }
            s
        },
        10 => {
            let s = "a";
            proof {
                reveal_strlit("a");
                assert(s@ =~= seq![hex_digit(n)]);
            }
            s
        },
        11 => {
            let s = "b";
            proof {
                reveal_strlit("b");
                assert(s@ =~= seq![hex_digit(n)]);
            }
            s
        },
        12 => {
            let s = "c";
            proof {
                reveal_strlit("c");
                assert(s@ =~= seq![hex_digit(n)]);
            }
            s
        },
        13 => {
            let s = "d";
            proof {
                reveal_strlit("d");
                assert(s@ =~= seq![hex_digit(n)]);
            }
            s
        },
        14 => {
            let s = "e";
            proof {
                reveal_strlit("e");
                assert(s@ =~= seq![hex_digit(n)]);
            }
            s
        },
        _ => {
            let s = "f";
            proof {
                reveal_strlit("f");
                assert(s@ =~= seq![hex_digit(n)]);
            }
            s
        },
    }
}

/// Append `s` to `out` with every character JSON-escaped.
fn append_escaped(out: &mut String, s: &str)
    ensures
        final(out)@ == old(out)@ + escape_text(s@),
{
    let len = s.unicode_len();
    proof {
        assert(s@.subrange(0, 0) =~= Seq::<char>::empty());
        assert(out@ =~= out@ + escape_text(s@.subrange(0, 0)));
    }
    let mut i: usize = 0;
    while i < len
        invariant
            i <= len,
            len == s@.len(),
            out@ == old(out)@ + escape_text(s@.subrange(0, i as int)),
        decreases len - i,
    {
        let ghost pre = s@.subrange(0, i as int);
        let ghost cur = s@.subrange(0, i as int + 1);
        proof {
            assert(cur.drop_last() =~= pre);
            assert(cur.last() == s@[i as int]);
        }
        let c = s.get_char(i);
        if c == '"' {
            out.append("\\\"");
        } else if c == '\\' {
            out.append("\\\\");
        } else if c == '\n' {
            out.append("\\n");
        } else if c == '\r' {
            out.append("\\r");
        } else if c == '\t' {
            out.append("\\t");
        } else if (c as u32) < 32 {
            out.append("\\u00");
            out.append(hex_char((c as u32) / 16));
            out.append(hex_char((c as u32) % 16));
        } else {
            out.append(s.substring_char(i, i + 1));
            proof {
                assert(s@.subrange(i as int, i as int + 1) =~= seq![s@[i as int]]);
            }
        }
        proof {
            assert(out@ =~= old(out)@ + escape_text(cur));
        }
        i = i + 1;
    }
    proof {
        assert(s@.subrange(0, len as int) =~= s@);
    }
}

/// Append `s` to `out` as a JSON string literal.
fn append_quoted(out: &mut String, s: &str)
    ensures
        final(out)@ == old(out)@ + quoted(s@),
{
    out.append("\"");
    append_escaped(out, s);
    out.append("\"");
    proof {
        assert(out@ =~= old(out)@ + quoted(s@));
    }
}

/// Append one message as its JSON object.
fn append_message(out: &mut String, m: &Message)
    ensures
        final(out)@ == old(out)@ + message_object_text(role_name_text(m.role), m.content@),
{
    out.append("{\"role\":");
    append_quoted(out, m.role.name());
    out.append(",\"content\":");
    append_quoted(out, m.content.as_str());
    out.append("}");
    proof {
        assert(out@ =~= old(out)@ + message_object_text(role_name_text(m.role), m.content@));
    }
}

/// Build the POST body for the given model, message list and streaming flag.
pub fn build_request_body(model: &str, messages: &Vec<Message>, stream: bool) -> (r: String)
    ensures
        r@ == request_body_text(model@, message_views(messages@), stream),
{
    let ghost ms = message_views(messages@);
    let mut out = String::new();
    out.append("{\"model\":");
    append_quoted(&mut out, model);
    out.append(",\"messages\":[");
    let ghost head = "{\"model\":"@ + quoted(model@) + ",\"messages\":["@;
    proof {
        assert(out@ =~= head + messages_items_text(ms.subrange(0, 0)));
    }
    let mut i: usize = 0;
    while i < messages.len()
        invariant
            i <= messages@.len(),
            ms == message_views(messages@),
            out@ == head + messages_items_text(ms.subrange(0, i as int)),
        decreases messages@.len() - i,
    {
        let ghost pre = ms.subrange(0, i as int);
        let ghost cur = ms.subrange(0, i as int + 1);
        proof {
            assert(cur.drop_last() =~= pre);
            assert(cur.last() == ms[i as int]);
            assert(ms[i as int] == (
                role_name_text(messages@[i as int].role),
                messages@[i as int].content@,
            ));
        }
        if i > 0 {
            out.append(",");
        }
        append_message(&mut out, &messages[i]);
        proof {
            if i == 0 {
                assert(cur.len() == 1);
                assert(messages_items_text(cur) == message_object_text(cur[0].0, cur[0].1));
                assert(messages_items_text(pre) =~= Seq::<char>::empty());
            }
            assert(out@ =~= head + messages_items_text(cur));
        }
        i = i + 1;
    }
    proof {
        assert(ms.subrange(0, ms.len() as int) =~= ms);
    }
    out.append("],\"stream\":");
    if stream {
        out.append("true");
    } else {
        out.append("false");
    }
    out.append("}");
    proof {
        assert(out@ =~= request_body_text(model@, ms, stream));
    }
    out
}

} // verus!
