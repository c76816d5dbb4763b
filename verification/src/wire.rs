//! The frames that a worker process is sent and answers with: numbers on
//! lines of their own, and texts as UTF-8 behind their length in bytes.
use crate::text;
use vstd::prelude::*;
use vstd::utf8::*;

verus! {

/// The bytes of a line that holds the numeral of `n`.
pub open spec fn number_line(n: nat) -> Seq<u8> {
    encode_utf8(text::decimal(n).push('\n'))
}

/// The bytes of one text: its length on a line, and the text itself.
pub open spec fn text_frame(t: Seq<char>) -> Seq<u8> {
    number_line(encode_utf8(t).len()) + encode_utf8(t)
}

/// The bytes of some texts, one frame behind the other.
pub open spec fn frames(texts: Seq<Seq<char>>) -> Seq<u8>
    decreases texts.len(),
{
    if texts.len() == 0 {
        Seq::empty()
    } else {
        text_frame(texts[0]) + frames(texts.skip(1))
    }
}

/// The bytes of a batch: how many texts there are, and their frames.
pub open spec fn batch_frame(texts: Seq<Seq<char>>) -> Seq<u8> {
    number_line(texts.len()) + frames(texts)
}

/// The first line of a stream, with its line feed, or all of the stream where
/// it holds none.
pub open spec fn first_line(stream: Seq<u8>) -> Seq<u8>
    decreases stream.len(),
{
    if stream.len() == 0 || stream[0] == 10 {
        stream.take(if stream.len() == 0 { 0 } else { 1 })
    } else {
        seq![stream[0]] + first_line(stream.skip(1))
    }
}

/// The line that holds the numeral of `n`.
pub fn line_of(n: usize) -> (line: Vec<u8>)
    ensures
        line@ == number_line(n as nat),
{
    let mut line = text::decimal_text(n as u64);
    line.append("\n");
    proof {
        reveal_strlit("\n");
        assert(line@ =~= text::decimal(n as nat).push('\n'));
    }
    line.as_str().as_bytes_vec()
}

/// A number's line is ASCII.
proof fn number_line_is_ascii(n: nat)
    ensures
        is_ascii_chars(text::decimal(n).push('\n')),
{
    let chars = text::decimal(n).push('\n');
    text::decimal_is_a_numeral(n);
    assert forall|i: int| 0 <= i < chars.len() implies '\0' <= #[trigger] chars[i] <= '\u{7f}' by {
        if i < text::decimal(n).len() {
            assert(chars[i] == text::decimal(n)[i]);
            assert(text::is_digit(text::decimal(n)[i]));
        }
    }
}

/// A line that holds a number is ASCII, ends in the stream's first line feed,
/// and gives the number back.
pub proof fn number_line_is_read_back(n: nat, rest: Seq<u8>)
    ensures
        number_line(n).len() > 0,
        first_line(number_line(n) + rest) == number_line(n),
        valid_utf8(number_line(n)),
        decode_utf8(number_line(n)) == text::decimal(n).push('\n'),
        text::numeral(text::trimmed_end(text::decimal(n).push('\n'))) == Some(n),
{
    let chars = text::decimal(n).push('\n');
    text::decimal_is_a_numeral(n);
    number_line_is_ascii(n);
    is_ascii_chars_encode_utf8(chars);
    encode_utf8_valid_utf8(chars);
    encode_utf8_decode_utf8(chars);
    let line = number_line(n);
    assert forall|i: int| 0 <= i < line.len() implies ((#[trigger] line[i]) == 10 <==> i == line.len() - 1) by {
        if i < text::decimal(n).len() {
            assert(chars[i] == text::decimal(n)[i]);
            assert(text::is_digit(text::decimal(n)[i]));
        }
    }
    line_is_first(line, rest);
    assert(chars.drop_last() =~= text::decimal(n));
    assert(text::trimmed_end(chars) == text::trimmed_end(text::decimal(n)));
    assert(text::is_digit(text::decimal(n).last()));
    assert(text::trimmed_end(text::decimal(n)) == text::decimal(n));
}

/// Bytes whose only line feed is their last byte are the first line of any
/// stream that begins with them.
proof fn line_is_first(line: Seq<u8>, rest: Seq<u8>)
    requires
        line.len() > 0,
        forall|i: int| 0 <= i < line.len() ==> ((#[trigger] line[i]) == 10 <==> i == line.len() - 1),
    ensures
        first_line(line + rest) == line,
    decreases line.len(),
{
    let stream = line + rest;
    if line.len() == 1 {
        assert(line[0] == 10);
        assert(stream.take(1) =~= line);
    } else {
        assert(stream[0] == line[0]);
        let tail = line.skip(1);
        assert forall|i: int| 0 <= i < tail.len() implies ((#[trigger] tail[i]) == 10 <==> i == tail.len() - 1) by {
            assert(tail[i] == line[i + 1]);
        }
        line_is_first(tail, rest);
        assert(stream.skip(1) =~= tail + rest);
        assert(seq![line[0]] + tail =~= line);
    }
}

/// The line of zero differs from that of any other number in its first byte.
pub proof fn farewell_line_differs(n: nat)
    requires
        n > 0,
    ensures
        number_line(0)[0] != number_line(n)[0],
{
    text::decimal_has_no_leading_zero(n);
    text::decimal_is_a_numeral(n);
    assert(text::is_digit(text::decimal(n)[0]));
    number_line_starts_with_its_numeral(0);
    number_line_starts_with_its_numeral(n);
}

/// The first byte of a number's line is the first digit of its numeral.
proof fn number_line_starts_with_its_numeral(n: nat)
    ensures
        number_line(n)[0] == text::decimal(n)[0] as u8,
{
    let chars = text::decimal(n).push('\n');
    text::decimal_is_a_numeral(n);
    number_line_is_ascii(n);
    is_ascii_chars_encode_utf8(chars);
}

/// A stream that holds no line feed is one line.
proof fn a_stream_without_line_feed_is_a_line(stream: Seq<u8>)
    requires
        forall|i: int| 0 <= i < stream.len() ==> #[trigger] stream[i] != 10,
    ensures
        first_line(stream) == stream,
    decreases stream.len(),
{
    if stream.len() == 0 {
        assert(stream.take(0) =~= stream);
    } else {
        let tail = stream.skip(1);
        assert forall|i: int| 0 <= i < tail.len() implies #[trigger] tail[i] != 10 by {
            assert(tail[i] == stream[i + 1]);
        }
        a_stream_without_line_feed_is_a_line(tail);
        assert(seq![stream[0]] + tail =~= stream);
    }
}

/// A number's line that is cut short and is all that a stream holds is read as
/// the line of another number, which is zero only where the number is.
pub proof fn a_cut_number_line_is_a_number(n: nat, k: int)
    requires
        0 < k < number_line(n).len(),
    ensures
        first_line(number_line(n).take(k)) == number_line(n).take(k),
        valid_utf8(number_line(n).take(k)),
        decode_utf8(number_line(n).take(k)) == text::decimal(n).take(k),
        text::trimmed_end(text::decimal(n).take(k)) == text::decimal(n).take(k),
        text::numeral(text::decimal(n).take(k)) matches Some(v) && (v == 0 <==> n == 0),
{
    let chars = text::decimal(n).push('\n');
    let digits = text::decimal(n).take(k);
    let cut = number_line(n).take(k);
    text::decimal_is_a_numeral(n);
    number_line_is_ascii(n);
    is_ascii_chars_encode_utf8(chars);
    assert forall|i: int| 0 <= i < digits.len() implies text::is_digit(#[trigger] digits[i]) by {
        assert(digits[i] == text::decimal(n)[i]);
    }
    assert(is_ascii_chars(digits)) by {
        assert forall|i: int| 0 <= i < digits.len() implies '\0' <= #[trigger] digits[i]
            <= '\u{7f}' by {
            assert(text::is_digit(digits[i]));
        }
    }
    is_ascii_chars_encode_utf8(digits);
    assert(encode_utf8(digits) =~= cut) by {
        assert forall|i: int| 0 <= i < cut.len() implies encode_utf8(digits)[i] == #[trigger] cut[i] by {
            assert(chars[i] == digits[i]);
        }
    }
    encode_utf8_valid_utf8(digits);
    encode_utf8_decode_utf8(digits);
    assert forall|i: int| 0 <= i < cut.len() implies #[trigger] cut[i] != 10 by {
        assert(text::is_digit(digits[i]));
        assert(encode_utf8(digits)[i] == digits[i] as u8);
    }
    a_stream_without_line_feed_is_a_line(cut);
    assert(text::is_digit(digits.last()));
    assert(text::is_digit(digits[0]));
    if n == 0 {
        assert(digits =~= seq!['0']);
        assert(digits.drop_last() =~= Seq::empty());
        assert(text::digits_value(Seq::<char>::empty()) == 0);
    } else {
        text::decimal_has_no_leading_zero(n);
        text::leading_digit_counts(digits);
    }
}

/// A text is empty exactly where its bytes are.
pub proof fn only_the_empty_text_has_no_bytes(t: Seq<char>)
    ensures
        encode_utf8(t).len() == 0 <==> t.len() == 0,
{
    if encode_utf8(t).len() == 0 {
        encode_utf8_decode_utf8(t);
        assert(encode_utf8(t) =~= encode_utf8(Seq::empty()));
        encode_utf8_decode_utf8(Seq::empty());
    }
}

/// The line of zero is its digit and the line feed.
pub proof fn zero_takes_two_bytes()
    ensures
        number_line(0).len() == 2,
{
    number_line_is_ascii(0);
    is_ascii_chars_encode_utf8(text::decimal(0).push('\n'));
}

/// A number's line is the digits of its numeral, one byte each, and a line
/// feed.
pub proof fn a_number_stands_before_a_line_feed(n: nat)
    ensures
        number_line(n).len() == text::decimal(n).len() + 1,
        forall|i: int|
            0 <= i < text::decimal(n).len() ==> #[trigger] number_line(n)[i] as int
                == text::decimal(n)[i] as int,
        number_line(n).last() == 10,
{
    let chars = text::decimal(n).push('\n');
    text::decimal_is_a_numeral(n);
    number_line_is_ascii(n);
    is_ascii_chars_encode_utf8(chars);
    assert(chars[chars.len() - 1] == '\n');
    assert forall|i: int| 0 <= i < text::decimal(n).len() implies #[trigger] number_line(n)[i] as int
        == text::decimal(n)[i] as int by {
        assert(chars[i] == text::decimal(n)[i]);
        assert(text::is_digit(text::decimal(n)[i]));
    }
}

/// The frames of some texts stand one behind the other, in the order of the
/// texts, and nothing stands between them.
pub proof fn frames_stand_in_the_order_of_their_texts(before: Seq<Seq<char>>, behind: Seq<Seq<char>>)
    ensures
        frames(before + behind) == frames(before) + frames(behind),
    decreases before.len(),
{
    let all = before + behind;
    if before.len() == 0 {
        assert(all =~= behind);
        assert(frames(before) + frames(behind) =~= frames(behind));
    } else {
        assert(all[0] == before[0]);
        assert(all.skip(1) =~= before.skip(1) + behind);
        frames_stand_in_the_order_of_their_texts(before.skip(1), behind);
        assert(frames(all) =~= frames(before) + frames(behind));
    }
}

/// The frame of a text is the line of its length in bytes and its bytes; no
/// texts have no frames; and a batch is the line of how many texts it holds
/// and their frames.
pub proof fn a_text_stands_behind_its_length(t: Seq<char>, texts: Seq<Seq<char>>)
    ensures
        frames(seq![t]) == number_line(encode_utf8(t).len()) + encode_utf8(t),
        frames(Seq::empty()) == Seq::<u8>::empty(),
        batch_frame(texts) == number_line(texts.len()) + frames(texts),
{
    let one = seq![t];
    assert(one.skip(1) =~= Seq::empty());
    assert(frames(one.skip(1)) == Seq::<u8>::empty());
    assert(text_frame(t) + Seq::<u8>::empty() =~= text_frame(t));
}

/// A line begins the stream, holds a line feed at its end only, and ends there
/// or where the stream does.
pub proof fn a_line_ends_with_the_first_line_feed(stream: Seq<u8>)
    ensures
        first_line(stream).len() <= stream.len(),
        first_line(stream) == stream.take(first_line(stream).len() as int),
        forall|i: int| 0 <= i < first_line(stream).len() - 1 ==> #[trigger] stream[i] != 10,
        first_line(stream).len() < stream.len() ==> first_line(stream).len() > 0 && first_line(
            stream,
        ).last() == 10,
    decreases stream.len(),
{
    if stream.len() == 0 || stream[0] == 10 {
    } else {
        let tail = stream.skip(1);
        a_line_ends_with_the_first_line_feed(tail);
        let line = first_line(stream);
        assert(line =~= stream.take(line.len() as int)) by {
            assert forall|i: int| 0 <= i < line.len() implies line[i] == stream[i] by {
                if i > 0 {
                    assert(first_line(tail)[i - 1] == tail[i - 1]);
                }
            }
        }
        assert forall|i: int| 0 <= i < line.len() - 1 implies #[trigger] stream[i] != 10 by {
            if i > 0 {
                assert(tail[i - 1] == stream[i]);
            }
        }
    }
}

} // verus!
