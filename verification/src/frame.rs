//! The frames in which messages travel: a header line that says how many bytes the message has,
//! an empty line, and the message.

use vstd::prelude::*;
use vstd::string::StringExecFns;
#[allow(unused_imports)]
use vstd::utf8::{
    decode_utf8, encode_utf8, encode_utf8_decode_utf8, encode_utf8_valid_utf8, is_ascii_chars,
    is_ascii_chars_encode_utf8, valid_utf8,
};

use crate::text::{chars_of, decimal_text, find_after, parse_size, trimmed_len};
#[allow(unused_imports)]
use crate::text::{
    after_first, decimal, is_digit, law_first_occurrence_is_found, law_size_reads_back,
    law_what_is_not_there_is_not_found, law_white_space_at_the_end_is_cut_off, lemma_decimal,
    parsed_size, trimmed_end, white_space,
};

verus! {

/// The number of bytes that a header line announces: what stands behind the first
/// `Content-Length: ` of the line, white space at the end of the line aside.
pub open spec fn content_length(line: Seq<char>) -> Option<usize> {
    match after_first(trimmed_end(line), "Content-Length: "@) {
        Some(number) => parsed_size(number),
        None => None,
    }
}

/// Reads the number of bytes that a header line announces.
pub fn parse_content_length(line: &str) -> (len: Option<usize>)
    ensures
        len == content_length(line@),
{
    let chars = chars_of(line);
    let end = trimmed_len(&chars);
    let needle = chars_of("Content-Length: ");
    proof {
        reveal_strlit("Content-Length: ");
    }
    let start = find_after(&chars, end, &needle)?;
    parse_size(&chars, start, end)
}

/// The line that announces a message of `len` bytes.
pub open spec fn header_line(len: nat) -> Seq<char> {
    "Content-Length: "@ + decimal(len) + "\r\n"@
}

/// The frame around a message.
pub open spec fn frame(message: Seq<char>) -> Seq<char> {
    header_line(encode_utf8(message).len()) + "\r\n"@ + message
}

/// Puts the frame around a message.
pub fn encode_frame(message: &str) -> (framed: String)
    ensures
        framed@ == frame(message@),
        framed@ == "Content-Length: "@ + decimal(encode_utf8(message@).len()) + "\r\n\r\n"@
            + message@,
{
    let len = message.as_bytes().len();
    let mut framed = "Content-Length: ".to_owned();
    framed.append(decimal_text(len as u64).as_str());
    framed.append("\r\n");
    framed.append("\r\n");
    framed.append(message);
    proof {
        law_header_ends_with_an_empty_line(message@);
    }
    framed
}

/// The first line of a stream of bytes, with the newline at its end where there is one.
pub open spec fn first_line(stream: Seq<u8>) -> Seq<u8>
    decreases stream.len(),
{
    if stream.len() == 0 {
        stream
    } else if stream[0] == 0x0a {
        stream.take(1)
    } else {
        stream.take(1) + first_line(stream.skip(1))
    }
}

/// The first line of a stream is what the stream starts with.
pub proof fn lemma_first_line_is_a_prefix(stream: Seq<u8>)
    ensures
        first_line(stream).len() <= stream.len(),
        first_line(stream) == stream.take(first_line(stream).len() as int),
    decreases stream.len(),
{
    if stream.len() > 0 && stream[0] != 0x0a {
        lemma_first_line_is_a_prefix(stream.skip(1));
        let line = first_line(stream.skip(1));
        assert(stream.take(1) + line =~= stream.take((1 + line.len()) as int));
    } else {
        assert(first_line(stream) =~= stream.take(first_line(stream).len() as int));
    }
}

/// A line that is followed by anything is the first line.
proof fn lemma_first_line(line: Seq<u8>, rest: Seq<u8>)
    requires
        line.len() > 0,
        line.last() == 0x0a,
        forall|i: int| 0 <= i < line.len() - 1 ==> line[i] != 0x0a,
    ensures
        first_line(line + rest) == line,
    decreases line.len(),
{
    let stream = line + rest;
    assert(stream.take(1) =~= line.take(1));
    if line.len() > 1 {
        assert(stream.skip(1) =~= line.skip(1) + rest);
        lemma_first_line(line.skip(1), rest);
    }
    assert(first_line(stream) =~= line);
}

/// The bytes of two texts in a row are the bytes of the one and then of the other.
proof fn lemma_encode_concat(a: Seq<char>, b: Seq<char>)
    ensures
        encode_utf8(a + b) == encode_utf8(a) + encode_utf8(b),
    decreases a.len(),
{
    if a.len() == 0 {
        assert(a + b =~= b);
        assert(encode_utf8(a) + encode_utf8(b)
            =~= encode_utf8(b));
    } else {
        assert((a + b).drop_first() =~= a.drop_first() + b);
        lemma_encode_concat(a.drop_first(), b);
        assert(encode_utf8(a + b) =~= encode_utf8(a)
            + encode_utf8(b));
    }
}

/// The line that announces a message of `len` bytes is read as `len`.
pub proof fn law_header_reads_back(len: usize)
    ensures
        content_length(header_line(len as nat)) == Some(len),
{
    let name = "Content-Length: "@;
    let number = decimal(len as nat);
    let line = header_line(len as nat);
    reveal_strlit("Content-Length: ");
    reveal_strlit("\r\n");
    lemma_decimal(len as nat);
    let once = line.drop_last();
    let twice = once.drop_last();
    assert(twice =~= name + number);
    assert(twice.last() == number.last());
    assert(is_digit(number[number.len() - 1]));
    reveal_with_fuel(trimmed_end, 3);
    assert(trimmed_end(line) == name + number);
    assert((name + number).take(name.len() as int) =~= name);
    assert((name + number).skip(name.len() as int) =~= number);
    law_size_reads_back(len);
}

/// The first message in a stream, and what follows it: the first line announces how many bytes
/// it has, the second line is passed over, and the message starts behind it. There is none where
/// the lines are no text, the first line announces nothing or the stream ends too soon.
pub open spec fn read_frame(stream: Seq<u8>) -> Option<(Seq<u8>, Seq<u8>)> {
    let header = first_line(stream);
    let separator = first_line(stream.skip(header.len() as int));
    let body = stream.skip((header.len() + separator.len()) as int);
    if !valid_utf8(header) || !valid_utf8(separator) {
        None
    } else {
        match content_length(decode_utf8(header)) {
            Some(len) if len <= body.len() => Some(
                (body.take(len as int), body.skip(len as int)),
            ),
            _ => None,
        }
    }
}

/// A message that is written in a frame is the first message in the stream, whatever follows.
pub proof fn law_frame_reads_back(message: Seq<char>, rest: Seq<u8>)
    requires
        encode_utf8(message).len() <= usize::MAX,
    ensures
        read_frame(encode_utf8(frame(message)) + rest) == Some(
            (encode_utf8(message), rest),
        ),
{
    let bytes = encode_utf8(message);
    let stream = encode_utf8(frame(message)) + rest;
    let line = header_line(bytes.len());
    let crlf = "\r\n"@;
    let header = encode_utf8(line);
    let separator = encode_utf8(crlf);
    reveal_strlit("Content-Length: ");
    reveal_strlit("\r\n");
    lemma_decimal(bytes.len());
    assert(is_ascii_chars(line)) by {
        assert forall|i: int| 0 <= i < line.len() implies '\0' <= #[trigger] line[i]
            <= '\u{7f}' by {
            let number = decimal(bytes.len());
            if "Content-Length: "@.len() <= i < "Content-Length: "@.len() + number.len() {
                assert(is_digit(number[i - "Content-Length: "@.len()]));
            }
        }
    }
    assert(is_ascii_chars(crlf));
    is_ascii_chars_encode_utf8(line);
    is_ascii_chars_encode_utf8(crlf);
    lemma_encode_concat(line + crlf, message);
    lemma_encode_concat(line, crlf);
    assert(stream =~= header + (separator + (bytes + rest)));
    assert forall|i: int| 0 <= i < header.len() - 1 implies header[i] != 0x0a by {
        let number = decimal(bytes.len());
        if "Content-Length: "@.len() <= i < "Content-Length: "@.len() + number.len() {
            assert(is_digit(number[i - "Content-Length: "@.len()]));
        }
        assert(line[i] as u8 == header[i]);
    }
    lemma_first_line(header, separator + (bytes + rest));
    assert(stream.skip(header.len() as int) =~= separator + (bytes + rest));
    lemma_first_line(separator, bytes + rest);
    assert(stream.skip((header.len() + separator.len()) as int) =~= bytes + rest);
    encode_utf8_valid_utf8(line);
    encode_utf8_valid_utf8(crlf);
    encode_utf8_decode_utf8(line);
    law_header_reads_back(bytes.len() as usize);
    assert((bytes + rest).take(bytes.len() as int) =~= bytes);
    assert((bytes + rest).skip(bytes.len() as int) =~= rest);
}

/// The bytes of messages in a row, each in its frame.
pub open spec fn frames(messages: Seq<Seq<char>>) -> Seq<u8>
    decreases messages.len(),
{
    if messages.len() == 0 {
        Seq::empty()
    } else {
        encode_utf8(frame(messages[0])) + frames(messages.skip(1))
    }
}

/// One more message comes in its frame behind the others.
pub(crate) proof fn lemma_frames_push(messages: Seq<Seq<char>>, message: Seq<char>)
    ensures
        frames(messages.push(message)) == frames(messages) + encode_utf8(frame(message)),
    decreases messages.len(),
{
    let all = messages.push(message);
    if messages.len() == 0 {
        assert(all.skip(1) =~= messages);
        assert(frames(all) =~= frames(messages) + encode_utf8(frame(message)));
    } else {
        assert(all.skip(1) =~= messages.skip(1).push(message));
        lemma_frames_push(messages.skip(1), message);
        assert(frames(all) =~= frames(messages) + encode_utf8(frame(message)));
    }
}

/// The first `n` messages in a stream, where there are that many.
pub open spec fn read_frames(stream: Seq<u8>, n: nat) -> Option<Seq<Seq<u8>>>
    decreases n,
{
    if n == 0 {
        Some(Seq::empty())
    } else {
        match read_frame(stream) {
            Some((message, rest)) => match read_frames(rest, (n - 1) as nat) {
                Some(messages) => Some(seq![message] + messages),
                None => None,
            },
            None => None,
        }
    }
}

/// Messages that are written in frames are read back in their order, each with its own bytes.
pub proof fn law_frames_read_back(messages: Seq<Seq<char>>)
    requires
        forall|i: int|
            0 <= i < messages.len() ==> encode_utf8(#[trigger] messages[i]).len()
                <= usize::MAX,
    ensures
        read_frames(frames(messages), messages.len()) == Some(
            messages.map_values(|message: Seq<char>| encode_utf8(message)),
        ),
    decreases messages.len(),
{
    let all = messages.map_values(|message: Seq<char>| encode_utf8(message));
    if messages.len() == 0 {
        assert(all =~= Seq::empty());
    } else {
        let later = messages.skip(1);
        assert forall|i: int| 0 <= i < later.len() implies encode_utf8(
            #[trigger] later[i],
        ).len() <= usize::MAX by {
            assert(later[i] == messages[i + 1]);
        }
        law_frames_read_back(later);
        law_frame_reads_back(messages[0], frames(later));
        assert(all =~= seq![all[0]] + later.map_values(
            |message: Seq<char>| encode_utf8(message),
        ));
    }
}

/// A frame is the number of bytes of its message, an empty line and the message: the header ends
/// with the empty line, and nothing stands between it and the message.
pub proof fn law_header_ends_with_an_empty_line(message: Seq<char>)
    ensures
        frame(message) == "Content-Length: "@ + decimal(encode_utf8(message).len()) + "\r\n\r\n"@
            + message,
{
    reveal_strlit("\r\n");
    reveal_strlit("\r\n\r\n");
    assert("\r\n\r\n"@ =~= "\r\n"@ + "\r\n"@);
    assert(frame(message) =~= "Content-Length: "@ + decimal(encode_utf8(message).len())
        + "\r\n\r\n"@ + message);
}

/// A header line announces what stands behind the first `Content-Length: `, up to the white space
/// at its end.
pub proof fn law_number_behind_the_name_is_announced(
    before: Seq<char>,
    number: Seq<char>,
    spaces: Seq<char>,
)
    requires
        number.len() > 0,
        !white_space(number.last()),
        forall|i: int| 0 <= i < spaces.len() ==> white_space(#[trigger] spaces[i]),
        forall|j: int|
            0 <= j < before.len() ==> #[trigger] (before + "Content-Length: "@ + number).subrange(
                j,
                j + "Content-Length: "@.len(),
            ) != "Content-Length: "@,
    ensures
        content_length(before + "Content-Length: "@ + number + spaces) == parsed_size(number),
{
    let line = before + "Content-Length: "@ + number;
    assert(line.last() == number.last());
    law_white_space_at_the_end_is_cut_off(line, spaces);
    law_first_occurrence_is_found(before, "Content-Length: "@, number);
}

/// A line in which `Content-Length: ` stands nowhere before the white space at its end announces
/// nothing.
pub proof fn law_other_lines_announce_nothing(line: Seq<char>, spaces: Seq<char>)
    requires
        line.len() > 0 ==> !white_space(line.last()),
        forall|i: int| 0 <= i < spaces.len() ==> white_space(#[trigger] spaces[i]),
        forall|j: int|
            0 <= j <= line.len() - "Content-Length: "@.len() ==> #[trigger] line.subrange(
                j,
                j + "Content-Length: "@.len(),
            ) != "Content-Length: "@,
    ensures
        content_length(line + spaces) is None,
{
    law_white_space_at_the_end_is_cut_off(line, spaces);
    law_what_is_not_there_is_not_found(line, "Content-Length: "@);
}

/// No messages are no bytes, and one more message comes in its frame behind the others.
pub proof fn law_frames_follow_each_other(messages: Seq<Seq<char>>, message: Seq<char>)
    ensures
        frames(Seq::empty()) == Seq::<u8>::empty(),
        frames(messages.push(message)) == frames(messages) + encode_utf8(frame(message)),
{
    lemma_frames_push(messages, message);
}

} // verus!
