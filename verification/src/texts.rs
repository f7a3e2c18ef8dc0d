//! What the texts on the wire say: numbers, strings and messages.

use crate::connection::carries;
use crate::json::{escaped, escaped_char, hex_digit, quoted};
use crate::laws::law_messages_carry_one_number;
use crate::message::message_text;
use crate::reference::{decimal, digit, issued, lemma_decimal_injective};
use vstd::prelude::*;

verus! {

/// The number that a text of decimal digits stands for.
pub open spec fn read_number(text: Seq<char>) -> int
    decreases text.len(),
{
    if text.len() == 0 {
        0
    } else {
        10 * read_number(text.drop_last()) + (text.last() as int - '0' as int)
    }
}

/// The value of a lower-case hexadecimal digit.
pub open spec fn read_hex(c: char) -> int {
    if '0' <= c <= '9' {
        c as int - '0' as int
    } else {
        c as int - 'a' as int + 10
    }
}

proof fn lemma_digit(d: nat)
    requires
        d < 10,
    ensures
        digit(d) as int == '0' as int + d,
{
    if d == 0 {
    } else if d == 1 {
    } else if d == 2 {
    } else if d == 3 {
    } else if d == 4 {
    } else if d == 5 {
    } else if d == 6 {
    } else if d == 7 {
    } else if d == 8 {
    } else {
        assert(d == 9);
    }
}

proof fn lemma_hex_digit(d: int)
    requires
        0 <= d < 16,
    ensures
        read_hex(hex_digit(d)) == d,
        '0' <= hex_digit(d) <= '9' || 'a' <= hex_digit(d) <= 'f',
{
    if d == 0 {
    } else if d == 1 {
    } else if d == 2 {
    } else if d == 3 {
    } else if d == 4 {
    } else if d == 5 {
    } else if d == 6 {
    } else if d == 7 {
    } else if d == 8 {
    } else if d == 9 {
    } else if d == 10 {
    } else if d == 11 {
    } else if d == 12 {
    } else if d == 13 {
    } else if d == 14 {
    } else {
        assert(d == 15);
    }
}

/// The text of a number is made of decimal digits, begins with zero only where it is
/// zero, and reads as that number.
pub proof fn law_numbers_read_as_written(n: nat)
    ensures
        decimal(n).len() > 0,
        forall|i: int| 0 <= i < decimal(n).len() ==> '0' <= #[trigger] decimal(n)[i] <= '9',
        decimal(n)[0] == '0' ==> n == 0 && decimal(n).len() == 1,
        read_number(decimal(n)) == n,
    decreases n,
{
    let text = decimal(n);
    if n < 10 {
        lemma_digit(n);
        assert(text.drop_last() =~= Seq::<char>::empty());
        assert(read_number(text.drop_last()) == 0);
    } else {
        law_numbers_read_as_written(n / 10);
        lemma_digit(n % 10);
        assert(text.drop_last() =~= decimal(n / 10));
        assert(text[0] == decimal(n / 10)[0]);
        assert forall|i: int| 0 <= i < text.len() implies '0' <= #[trigger] text[i] <= '9' by {
            if i < text.len() - 1 {
                assert(text[i] == decimal(n / 10)[i]);
            }
        }
    }
}

/// The references handed out by a counter are the texts of the numbers below it, and
/// no others.
pub proof fn law_issued_references_are_the_numbers_below(n: nat, next: nat)
    ensures
        issued(decimal(n), next) <==> n < next,
{
    if issued(decimal(n), next) {
        let m = choose|m: nat| m < next && #[trigger] decimal(m) == decimal(n);
        lemma_decimal_injective(m, n);
    }
}

/// Strings are written character by character, in order: what stands for two strings
/// one after the other is what stands for each.
pub proof fn law_strings_are_written_in_order(s: Seq<char>, t: Seq<char>)
    ensures
        escaped(s + t) == escaped(s) + escaped(t),
        quoted(s + t) == "\""@ + escaped(s) + escaped(t) + "\""@,
    decreases t.len(),
{
    reveal_strlit("\"");
    if t.len() == 0 {
        assert(s + t =~= s);
    } else {
        law_strings_are_written_in_order(s, t.drop_last());
        assert((s + t).drop_last() =~= s + t.drop_last());
        assert((s + t).last() == t.last());
    }
    assert(escaped(s + t) =~= escaped(s) + escaped(t));
    assert(quoted(s + t) =~= "\""@ + escaped(s) + escaped(t) + "\""@);
}

proof fn lemma_escaped_one(c: char)
    ensures
        escaped(seq![c]) == escaped_char(c),
{
    assert(seq![c].drop_last() =~= Seq::<char>::empty());
    assert(escaped(Seq::<char>::empty()) =~= Seq::<char>::empty());
    assert(escaped(seq![c]) =~= escaped_char(c));
}

/// Every character but the quote, the backslash and the control characters stands for
/// itself in a string. The quote and the backslash stand behind a backslash, a control
/// character with a short name is written by it, and the others by their code.
pub proof fn law_characters_stand_in_strings(c: char)
    ensures
        c as int >= 0x20 && c != '"' && c != '\\' ==> escaped(seq![c]) == seq![c],
        c == '"' ==> escaped(seq![c]) == "\\\""@,
        c == '\\' ==> escaped(seq![c]) == "\\\\"@,
        c == '\n' ==> escaped(seq![c]) == "\\n"@,
        c == '\r' ==> escaped(seq![c]) == "\\r"@,
        c == '\t' ==> escaped(seq![c]) == "\\t"@,
        c as int == 8 ==> escaped(seq![c]) == "\\b"@,
        c as int == 12 ==> escaped(seq![c]) == "\\f"@,
        (c as int) < 0x20 && c != '\n' && c != '\r' && c != '\t' && c as int != 8 && c as int != 12 ==> {
            let text = escaped(seq![c]);
            &&& text.len() == 6
            &&& text.take(4) == "\\u00"@
            &&& '0' <= text[4] <= '9' || 'a' <= text[4] <= 'f'
            &&& '0' <= text[5] <= '9' || 'a' <= text[5] <= 'f'
            &&& 16 * read_hex(text[4]) + read_hex(text[5]) == c as int
        },
        escaped(Seq::empty()) == Seq::<char>::empty(),
{
    lemma_escaped_one(c);
    reveal_strlit("\\\"");
    reveal_strlit("\\\\");
    reveal_strlit("\\n");
    reveal_strlit("\\r");
    reveal_strlit("\\t");
    reveal_strlit("\\b");
    reveal_strlit("\\f");
    reveal_strlit("\\u00");
    if c == '"' {
        assert(escaped(seq![c]) =~= "\\\""@);
    } else if c == '\\' {
        assert(escaped(seq![c]) =~= "\\\\"@);
    } else if c == '\n' {
        assert(escaped(seq![c]) =~= "\\n"@);
    } else if c == '\r' {
        assert(escaped(seq![c]) =~= "\\r"@);
    } else if c == '\t' {
        assert(escaped(seq![c]) =~= "\\t"@);
    } else if c as int == 8 {
        assert(escaped(seq![c]) =~= "\\b"@);
    } else if c as int == 12 {
        assert(escaped(seq![c]) =~= "\\f"@);
    } else if (c as int) < 0x20 {
        lemma_hex_digit(c as int / 16);
        lemma_hex_digit(c as int % 16);
        assert(escaped(seq![c]).take(4) =~= "\\u00"@);
    }
}

proof fn lemma_escaped_first(s: Seq<char>)
    requires
        s.len() > 0,
    ensures
        escaped(s) == escaped_char(s[0]) + escaped(s.skip(1)),
{
    law_strings_are_written_in_order(seq![s[0]], s.skip(1));
    lemma_escaped_one(s[0]);
    assert(seq![s[0]] + s.skip(1) =~= s);
}

/// What `text` begins with says which character it is.
proof fn lemma_characters_are_told_apart(text: Seq<char>, c: char, d: char)
    requires
        escaped_char(c).is_prefix_of(text),
        escaped_char(d).is_prefix_of(text),
    ensures
        c == d,
{
    let a = escaped_char(c);
    let b = escaped_char(d);
    assert(a[0] == text[0] && b[0] == text[0]);
    if a.len() > 1 && b.len() > 1 {
        assert(a[1] == text[1] && b[1] == text[1]);
        if a.len() > 2 && b.len() > 2 {
            assert(a[4] == text[4] && b[4] == text[4]);
            assert(a[5] == text[5] && b[5] == text[5]);
            lemma_hex_digit(c as int / 16);
            lemma_hex_digit(c as int % 16);
            lemma_hex_digit(d as int / 16);
            lemma_hex_digit(d as int % 16);
        }
    }
}

/// How a string goes on in its quotes: it ends, or its first character comes.
proof fn lemma_escaped_begins(s: Seq<char>, tail: Seq<char>)
    requires
        tail.len() > 0,
        tail[0] == '"',
    ensures
        s.len() == 0 ==> escaped(s) + tail == tail,
        s.len() > 0 ==> {
            &&& escaped(s) + tail == escaped_char(s[0]) + (escaped(s.skip(1)) + tail)
            &&& escaped_char(s[0]).is_prefix_of(escaped(s) + tail)
            &&& (escaped(s) + tail)[0] != '"'
        },
{
    if s.len() == 0 {
        assert(escaped(s) + tail =~= tail);
    } else {
        lemma_escaped_first(s);
        assert(escaped(s) + tail =~= escaped_char(s[0]) + (escaped(s.skip(1)) + tail));
        assert((escaped(s) + tail)[0] == escaped_char(s[0])[0]);
    }
}

proof fn lemma_escaped_told_apart(s: Seq<char>, t: Seq<char>, u: Seq<char>, v: Seq<char>)
    requires
        u.len() > 0 && u[0] == '"',
        v.len() > 0 && v[0] == '"',
        escaped(s) + u == escaped(t) + v,
    ensures
        s == t,
        u == v,
    decreases s.len(),
{
    lemma_escaped_begins(s, u);
    lemma_escaped_begins(t, v);
    if s.len() > 0 && t.len() > 0 {
        lemma_characters_are_told_apart(escaped(s) + u, s[0], t[0]);
        lemma_same_beginning(
            escaped_char(s[0]),
            escaped(s.skip(1)) + u,
            escaped(t.skip(1)) + v,
        );
        lemma_escaped_told_apart(s.skip(1), t.skip(1), u, v);
        assert(s =~= seq![s[0]] + s.skip(1));
        assert(t =~= seq![t[0]] + t.skip(1));
    } else {
        assert(s =~= t);
    }
}

/// A string in its quotes says which string it is and where it ends.
pub proof fn law_strings_are_told_apart(
    s: Seq<char>,
    t: Seq<char>,
    after_s: Seq<char>,
    after_t: Seq<char>,
)
    requires
        quoted(s) + after_s == quoted(t) + after_t,
    ensures
        s == t,
        after_s == after_t,
{
    let rest_s = seq!['"'] + after_s;
    let rest_t = seq!['"'] + after_t;
    assert(quoted(s) + after_s =~= seq!['"'] + (escaped(s) + rest_s));
    assert(quoted(t) + after_t =~= seq!['"'] + (escaped(t) + rest_t));
    lemma_same_beginning(seq!['"'], escaped(s) + rest_s, escaped(t) + rest_t);
    lemma_escaped_told_apart(s, t, rest_s, rest_t);
    lemma_same_beginning(seq!['"'], after_s, after_t);
}

/// The text of a message is one JSON object with the fields `topic`, `event`,
/// `payload` and `ref`, in this order; all but the payload are strings.
pub proof fn law_messages_have_four_fields(
    topic: Seq<char>,
    event: Seq<char>,
    payload: Seq<char>,
    reference: Seq<char>,
)
    ensures
        message_text(topic, event, payload, reference) == "{\"topic\":\""@ + escaped(topic)
            + "\",\"event\":\""@ + escaped(event) + "\",\"payload\":"@ + payload
            + ",\"ref\":\""@ + escaped(reference) + "\"}"@,
{
    reveal_strlit("{\"topic\":");
    reveal_strlit(",\"event\":");
    reveal_strlit(",\"payload\":");
    reveal_strlit(",\"ref\":");
    reveal_strlit("}");
    reveal_strlit("{\"topic\":\"");
    reveal_strlit("\",\"event\":\"");
    reveal_strlit("\",\"payload\":");
    reveal_strlit(",\"ref\":\"");
    reveal_strlit("\"}");
    assert("{\"topic\":\""@ =~= "{\"topic\":"@ + seq!['"']);
    assert("\",\"event\":\""@ =~= seq!['"'] + ",\"event\":"@ + seq!['"']);
    assert("\",\"payload\":"@ =~= seq!['"'] + ",\"payload\":"@);
    assert(",\"ref\":\""@ =~= ",\"ref\":"@ + seq!['"']);
    assert("\"}"@ =~= seq!['"'] + "}"@);
    assert(message_text(topic, event, payload, reference) =~= "{\"topic\":\""@ + escaped(topic)
        + "\",\"event\":\""@ + escaped(event) + "\",\"payload\":"@ + payload + ",\"ref\":\""@
        + escaped(reference) + "\"}"@);
}

/// Texts that begin alike go on alike.
proof fn lemma_same_beginning(head: Seq<char>, a: Seq<char>, b: Seq<char>)
    requires
        head + a == head + b,
    ensures
        a == b,
{
    assert(a =~= (head + a).skip(head.len() as int));
    assert(b =~= (head + b).skip(head.len() as int));
}

/// Texts that end alike begin alike.
proof fn lemma_same_end(tail: Seq<char>, a: Seq<char>, b: Seq<char>)
    requires
        a + tail == b + tail,
    ensures
        a == b,
{
    assert((a + tail).len() == a.len() + tail.len());
    assert((b + tail).len() == b.len() + tail.len());
    assert(a =~= (a + tail).take(a.len() as int));
    assert(b =~= (b + tail).take(b.len() as int));
}

proof fn lemma_message_parts(
    topic: Seq<char>,
    event: Seq<char>,
    payload: Seq<char>,
    reference: Seq<char>,
)
    ensures
        message_text(topic, event, payload, reference) == "{\"topic\":"@ + (quoted(topic) + (
        ",\"event\":"@ + (quoted(event) + (",\"payload\":"@ + (payload + (",\"ref\":"@ + quoted(
            reference,
        ) + "}"@)))))),
{
    assert(message_text(topic, event, payload, reference) =~= "{\"topic\":"@ + (quoted(topic) + (
    ",\"event\":"@ + (quoted(event) + (",\"payload\":"@ + (payload + (",\"ref\":"@ + quoted(
        reference,
    ) + "}"@)))))));
}

/// The text of a message says which topic, event, payload and number it has: no two
/// different messages have the same text.
pub proof fn law_messages_are_told_apart(
    topic: Seq<char>,
    event: Seq<char>,
    payload: Seq<char>,
    m: nat,
    other_topic: Seq<char>,
    other_event: Seq<char>,
    other_payload: Seq<char>,
    n: nat,
)
    requires
        message_text(topic, event, payload, decimal(m)) == message_text(
            other_topic,
            other_event,
            other_payload,
            decimal(n),
        ),
    ensures
        topic == other_topic,
        event == other_event,
        payload == other_payload,
        m == n,
{
    let text = message_text(topic, event, payload, decimal(m));
    assert(carries(text, m));
    assert(carries(text, n));
    law_messages_carry_one_number(text, m, n);
    lemma_message_parts(topic, event, payload, decimal(m));
    lemma_message_parts(other_topic, other_event, other_payload, decimal(m));
    let tail = ",\"ref\":"@ + quoted(decimal(m)) + "}"@;
    let rest = ",\"payload\":"@ + (payload + tail);
    let other_rest = ",\"payload\":"@ + (other_payload + tail);
    let middle = ",\"event\":"@ + (quoted(event) + rest);
    let other_middle = ",\"event\":"@ + (quoted(other_event) + other_rest);
    lemma_same_beginning("{\"topic\":"@, quoted(topic) + middle, quoted(other_topic) + other_middle);
    law_strings_are_told_apart(topic, other_topic, middle, other_middle);
    lemma_same_beginning(",\"event\":"@, quoted(event) + rest, quoted(other_event) + other_rest);
    law_strings_are_told_apart(event, other_event, rest, other_rest);
    lemma_same_beginning(",\"payload\":"@, payload + tail, other_payload + tail);
    lemma_same_end(tail, payload, other_payload);
}

} // verus!
