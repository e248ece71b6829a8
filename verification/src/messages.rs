//! Reading chat messages: quoted replies, and the command that a message
//! addressed to the bot names.

use vstd::prelude::*;

use crate::text::{chars_of, exec_char_width, lemma_utf8_width_push, utf8_width};

verus! {

/// A chat message, split into its parts.
pub enum ParsedMessage<'a> {
    /// A reply: the quoted part, then the answer after the first blank line.
    Reply(&'a str, &'a str),
    /// An ordinary message.
    Message(&'a str),
    /// A quote that no blank line closes.
    Undefined,
}

/// Two line breaks in a row start at position `i` of `s`.
pub open spec fn is_break_at(s: Seq<char>, i: int) -> bool {
    &&& 0 <= i
    &&& i + 1 < s.len()
    &&& s[i] == '\n'
    &&& s[i + 1] == '\n'
}

/// Position `i` holds the first blank line of `s`.
pub open spec fn is_first_break(s: Seq<char>, i: int) -> bool {
    &&& is_break_at(s, i)
    &&& forall|j: int| 0 <= j < i ==> !is_break_at(s, j)
}

/// The message starts with a quote marker.
pub open spec fn starts_with_quote(s: Seq<char>) -> bool {
    s.len() > 0 && s[0] == '>'
}

/// Splits a message that starts with `>` at its first blank line into the
/// quoted part and the answer; any other message is returned whole.
pub fn parse_message<'a>(message: &'a str) -> (r: ParsedMessage<'a>)
    ensures
        !starts_with_quote(message@) ==> (r matches ParsedMessage::Message(m) && m@ == message@),
        starts_with_quote(message@) ==> match r {
            ParsedMessage::Reply(quote, answer) => exists|i: int|
                is_first_break(message@, i) && quote@ == message@.take(i) && answer@
                    == message@.skip(i + 2),
            ParsedMessage::Undefined => forall|i: int| !is_break_at(message@, i),
            ParsedMessage::Message(_) => false,
        },
{
    let chars = chars_of(message);
    let n = chars.len();
    if n == 0 || chars[0] != '>' {
        return ParsedMessage::Message(message);
    }
    let mut i: usize = 0;
    while i + 1 < n
        invariant
            chars@ == message@,
            n == chars.len(),
            i < n,
            starts_with_quote(message@),
            forall|j: int| 0 <= j < i ==> !is_break_at(message@, j),
        decreases n - i,
    {
        if chars[i] == '\n' && chars[i + 1] == '\n' {
            let quote = message.substring_char(0, i);
            let answer = message.substring_char(i + 2, n);
            assert(is_first_break(message@, i as int));
            return ParsedMessage::Reply(quote, answer);
        }
        i = i + 1;
    }
    ParsedMessage::Undefined
}

/// Where the command name ends: the scan stops at the first space, at the
/// end of the text, or once the name has reached `max` bytes.
pub open spec fn split_point(msg: Seq<char>, max: nat, i: int) -> int
    decreases msg.len() - i,
{
    if i < 0 || i >= msg.len() || msg[i] == ' ' || utf8_width(msg.take(i)) >= max {
        i
    } else {
        split_point(msg, max, i + 1)
    }
}

/// The first `max` bytes of `msg` end on a character boundary, or `msg` is
/// shorter than `max` bytes.
pub open spec fn cut_on_boundary(msg: Seq<char>, max: nat) -> bool {
    utf8_width(msg) < max || exists|k: int| 0 <= k <= msg.len() && utf8_width(msg.take(k)) == max
}

/// `s` starts with `prefix`.
pub open spec fn has_prefix(s: Seq<char>, prefix: Seq<char>) -> bool {
    prefix.len() <= s.len() && s.take(prefix.len() as int) == prefix
}

/// Reads a message addressed to the bot: `None` when `body` does not start
/// with `prefix`; otherwise the command name and the rest of the message.
/// The name ends at the first space, and is cut after `max_len` bytes.
pub fn split_command<'a>(body: &'a str, prefix: &str, max_len: usize) -> (r: Option<
    (&'a str, &'a str),
>)
    requires
        has_prefix(body@, prefix@) ==> cut_on_boundary(
            body@.skip(prefix@.len() as int),
            max_len as nat,
        ),
    ensures
        r is Some <==> has_prefix(body@, prefix@),
        r matches Some((name, rest)) ==> {
            let msg = body@.skip(prefix@.len() as int);
            let p = split_point(msg, max_len as nat, 0);
            &&& name@ == msg.take(p)
            &&& rest@ == msg.skip(p)
        },
{
    let body_chars = chars_of(body);
    let prefix_chars = chars_of(prefix);
    let plen = prefix_chars.len();
    let blen = body_chars.len();
    if plen > blen {
        return None;
    }
    let mut i: usize = 0;
    while i < plen
        invariant
            body_chars@ == body@,
            prefix_chars@ == prefix@,
            plen == prefix_chars.len(),
            plen <= blen == body_chars.len(),
            i <= plen,
            forall|j: int| 0 <= j < i ==> body@[j] == prefix@[j],
        decreases plen - i,
    {
        if body_chars[i] != prefix_chars[i] {
            assert(body@.take(plen as int)[i as int] != prefix@[i as int]);
            return None;
        }
        i = i + 1;
    }
    assert(body@.take(plen as int) =~= prefix@);
    let ghost msg = body@.skip(plen as int);
    let mut pos: usize = plen;
    let mut width: usize = 0;
    let ghost max = max_len as nat;
    // Scan the command name: `pos` walks over `body`, `pos - plen` over `msg`.
    loop
        invariant_except_break
            width as nat == utf8_width(msg.take(pos - plen)),
            width < max_len || pos == plen,
            split_point(msg, max, (pos - plen) as int) == split_point(msg, max, 0),
        invariant
            body_chars@ == body@,
            blen == body_chars.len(),
            plen <= pos <= blen,
            msg == body@.skip(plen as int),
            max == max_len as nat,
        ensures
            plen <= pos <= blen,
            (pos - plen) as int == split_point(msg, max, 0),
        decreases blen - pos,
    {
        let ghost i = (pos - plen) as int;
        if pos == plen && max_len == 0 {
            break;
        }
        if pos == blen {
            break;
        }
        let c = body_chars[pos];
        assert(msg[i] == c);
        if c == ' ' {
            break;
        }
        let w = exec_char_width(c);
        proof {
            lemma_utf8_width_push(msg, i);
        }
        if w >= max_len - width {
            pos = pos + 1;
            assert(split_point(msg, max, i + 1) == i + 1);
            break;
        }
        width = width + w;
        pos = pos + 1;
    }
    let name = body.substring_char(plen, pos);
    let rest = body.substring_char(pos, blen);
    assert(name@ =~= msg.take((pos - plen) as int));
    assert(rest@ =~= msg.skip((pos - plen) as int));
    Some((name, rest))
}

/// A reply splits its message without loss: the quote, the blank line and
/// the answer make up the message again, and the quote holds no blank line.
pub proof fn lemma_reply_reassembles(message: Seq<char>, quote: Seq<char>, answer: Seq<char>, i: int)
    requires
        is_first_break(message, i),
        quote == message.take(i),
        answer == message.skip(i + 2),
    ensures
        quote + "\n\n"@ + answer == message,
        forall|j: int| !is_break_at(quote, j),
{
    reveal_strlit("\n\n");
    assert(quote + "\n\n"@ + answer =~= message);
    assert forall|j: int| !is_break_at(quote, j) by {
        if is_break_at(quote, j) {
            assert(is_break_at(message, j));
        }
    }
}

/// The scan for the end of a command name stops within the text, and
/// before every later stopping place.
proof fn lemma_split_point_bounds(msg: Seq<char>, max: nat, i: int)
    requires
        0 <= i <= msg.len(),
    ensures
        i <= split_point(msg, max, i) <= msg.len(),
        forall|j: int| i <= j < split_point(msg, max, i) ==> msg[j] != ' ' && utf8_width(msg.take(j)) < max,
    decreases msg.len() - i,
{
    if !(i >= msg.len() || msg[i] == ' ' || utf8_width(msg.take(i)) >= max) {
        lemma_split_point_bounds(msg, max, i + 1);
    }
}

/// Widths of prefixes grow with the prefix.
proof fn lemma_utf8_width_monotone(s: Seq<char>, i: int, j: int)
    requires
        0 <= i <= j <= s.len(),
    ensures
        utf8_width(s.take(i)) <= utf8_width(s.take(j)),
    decreases j - i,
{
    if i < j {
        lemma_utf8_width_push(s, j - 1);
        lemma_utf8_width_monotone(s, i, j - 1);
    }
}

/// A command name is read without loss and within its limit: the name and
/// the rest make up the message, the name holds no space, and it takes at
/// most `max` bytes (when the cut falls on a character boundary, as
/// `split_command` requires).
pub proof fn lemma_command_name_bounds(msg: Seq<char>, max: nat)
    requires
        cut_on_boundary(msg, max),
    ensures
        ({
            let p = split_point(msg, max, 0);
            &&& msg.take(p) + msg.skip(p) == msg
            &&& forall|j: int| 0 <= j < p ==> msg[j] != ' '
            &&& utf8_width(msg.take(p)) <= max
        }),
{
    lemma_split_point_bounds(msg, max, 0);
    let p = split_point(msg, max, 0);
    assert(msg.take(p) + msg.skip(p) =~= msg);
    if p > 0 {
        lemma_utf8_width_push(msg, p - 1);
        if utf8_width(msg.take(p)) > max {
            // The prefix one shorter is under the limit; no prefix can then
            // take exactly `max` bytes.
            if utf8_width(msg) < max {
                lemma_utf8_width_monotone(msg, p, msg.len() as int);
                assert(msg.take(msg.len() as int) =~= msg);
            } else {
                let k = choose|k: int| 0 <= k <= msg.len() && utf8_width(msg.take(k)) == max;
                if k < p {
                    lemma_utf8_width_monotone(msg, k, p - 1);
                } else {
                    lemma_utf8_width_monotone(msg, p, k);
                }
            }
        }
    }
}

} // verus!
