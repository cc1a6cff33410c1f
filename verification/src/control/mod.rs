//! The control channel's framing: one message per line.

use vstd::prelude::*;

use crate::text::{chars_of, string_of_chars};

pub mod msg;
pub mod tls;

verus! {

/// `s` without its trailing `c` characters.
pub open spec fn trim_end_char(s: Seq<char>, c: char) -> Seq<char>
    decreases s.len(),
{
    if s.len() > 0 && s.last() == c {
        trim_end_char(s.drop_last(), c)
    } else {
        s
    }
}

/// One encoded message made into a line of the channel.
pub fn frame_line(mut encoded: Vec<u8>) -> (r: Vec<u8>)
    ensures
        r@ == encoded@.push(10u8),
{
    encoded.push(10u8);
    encoded
}

/// The message text of a received line: its trailing newlines removed, then
/// its trailing carriage returns. An empty read means the peer has closed the
/// channel.
pub fn unframe_line(line: &str) -> (r: Result<String, String>)
    ensures
        line@.len() == 0 ==> (r matches Err(e) && e@ == "connection closed"@),
        line@.len() > 0 ==> (r matches Ok(t) && t@ == trim_end_char(trim_end_char(line@, '\n'), '\r')),
{
    let chars = chars_of(line);
    if chars.len() == 0 {
        return Err("connection closed".to_owned());
    }
    let mut end = chars.len();
    assert(chars@.take(end as int) =~= chars@);
    while end > 0 && chars[end - 1] == '\n'
        invariant
            end <= chars@.len(),
            trim_end_char(chars@, '\n') == trim_end_char(chars@.take(end as int), '\n'),
        decreases end,
    {
        assert(chars@.take(end as int).drop_last() =~= chars@.take(end - 1));
        end = end - 1;
    }
    let ghost after_newlines = chars@.take(end as int);
    assert(trim_end_char(after_newlines, '\n') == after_newlines);
    while end > 0 && chars[end - 1] == '\r'
        invariant
            end <= after_newlines.len(),
            after_newlines.len() <= chars@.len(),
            after_newlines == chars@.take(after_newlines.len() as int),
            trim_end_char(after_newlines, '\r') == trim_end_char(chars@.take(end as int), '\r'),
        decreases end,
    {
        assert(chars@.take(end as int).drop_last() =~= chars@.take(end - 1));
        end = end - 1;
    }
    assert(chars@.take(chars@.len() as int) =~= chars@);
    let text = string_of_chars(&chars, 0, end);
    assert(text@ =~= chars@.take(end as int));
    Ok(text)
}

/// What a line reads back as: a message text that does not end with a
/// newline or a carriage return, sent with the newline that ends its line,
/// is received as the same text.
pub proof fn lemma_unframe_of_framed(text: Seq<char>)
    requires
        text.len() == 0 || (text.last() != '\n' && text.last() != '\r'),
    ensures
        trim_end_char(trim_end_char(text.push('\n'), '\n'), '\r') == text,
{
    let line = text.push('\n');
    assert(line.drop_last() =~= text);
    assert(line.last() == '\n');
    assert(trim_end_char(line, '\n') == trim_end_char(text, '\n'));
    assert(trim_end_char(text, '\n') == text);
    assert(trim_end_char(text, '\r') == text);
}

/// The channel's stream after the message texts `texts` were sent in order,
/// each as a line ended by a newline.
pub open spec fn framed_stream(texts: Seq<Seq<char>>) -> Seq<char>
    decreases texts.len(),
{
    if texts.len() == 0 {
        Seq::empty()
    } else {
        texts[0].push('\n') + framed_stream(texts.drop_first())
    }
}

/// The length of the first line of `stream`: up to and including its first
/// newline, or all of it when it holds none.
pub open spec fn first_line_len(stream: Seq<char>) -> nat
    decreases stream.len(),
{
    if stream.len() == 0 {
        0
    } else if stream[0] == '\n' {
        1
    } else {
        1 + first_line_len(stream.drop_first())
    }
}

/// The texts that `count` successive reads of a line from `stream` give,
/// each line read up to and including a newline and made into a text as
/// `unframe_line` does.
pub open spec fn received_texts(stream: Seq<char>, count: nat) -> Seq<Seq<char>>
    decreases count,
{
    if count == 0 {
        Seq::empty()
    } else {
        let n = first_line_len(stream) as int;
        seq![trim_end_char(trim_end_char(stream.take(n), '\n'), '\r')] + received_texts(stream.skip(n), (count - 1) as nat)
    }
}

/// Whether `text` can travel as one line: it holds no newline and does not
/// end with a carriage return.
pub open spec fn fits_one_line(text: Seq<char>) -> bool {
    &&& forall|j: int| 0 <= j < text.len() ==> text[j] != '\n'
    &&& (text.len() == 0 || text.last() != '\r')
}

/// The first line of a text without newlines, sent with its newline, is that
/// text and its newline, whatever follows it.
proof fn lemma_first_line_of_framed(text: Seq<char>, rest: Seq<char>)
    requires
        forall|j: int| 0 <= j < text.len() ==> text[j] != '\n',
    ensures
        first_line_len(text.push('\n') + rest) == text.len() + 1,
    decreases text.len(),
{
    let stream = text.push('\n') + rest;
    if text.len() > 0 {
        assert(stream.drop_first() =~= text.drop_first().push('\n') + rest);
        lemma_first_line_of_framed(text.drop_first(), rest);
    }
}

/// What the channel promises of a stream of messages: texts sent one after
/// another, each on a line of its own, come back from as many reads of a line
/// in the order they were sent, each the same as sent, none lost or merged,
/// as long as each text holds no newline and does not end with a carriage
/// return.
pub proof fn lemma_framed_stream_reads_back(texts: Seq<Seq<char>>)
    requires
        forall|i: int| 0 <= i < texts.len() ==> #[trigger] fits_one_line(texts[i]),
    ensures
        received_texts(framed_stream(texts), texts.len()) == texts,
    decreases texts.len(),
{
    if texts.len() > 0 {
        let first = texts[0];
        let rest = framed_stream(texts.drop_first());
        let stream = framed_stream(texts);
        assert(fits_one_line(first));
        lemma_first_line_of_framed(first, rest);
        let n = first.len() + 1int;
        assert(stream.take(n) =~= first.push('\n'));
        assert(stream.skip(n) =~= rest);
        lemma_unframe_of_framed(first);
        assert forall|i: int| 0 <= i < texts.drop_first().len() implies #[trigger] fits_one_line(
            texts.drop_first()[i],
        ) by {
            assert(fits_one_line(texts[i + 1]));
        }
        lemma_framed_stream_reads_back(texts.drop_first());
        assert(received_texts(stream, texts.len()) =~= seq![first] + texts.drop_first());
        assert(seq![first] + texts.drop_first() =~= texts);
    }
}

} // verus!
