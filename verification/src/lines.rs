//! Line-oriented text: how a run of bytes falls into lines, and the text that
//! stands for a run of lines.
//!
//! A line ends at a line feed; a carriage return directly before that line
//! feed belongs to the line ending.  What follows the last line feed is a line
//! of its own unless it is empty.

use vstd::prelude::*;
use vstd::utf8::*;

verus! {

/// The line feed byte.
pub open spec fn line_feed() -> u8 {
    10u8
}

/// The carriage return byte.
pub open spec fn carriage_return() -> u8 {
    13u8
}

/// The number of bytes before the first line feed of `bytes`, which is the
/// length of `bytes` where there is no line feed.
pub open spec fn first_break(bytes: Seq<u8>) -> int
    decreases bytes.len(),
{
    if bytes.len() == 0 || bytes[0] == line_feed() {
        0
    } else {
        1 + first_break(bytes.drop_first())
    }
}

/// `chunk` without a carriage return at its end.
pub open spec fn trimmed(chunk: Seq<u8>) -> Seq<u8> {
    if chunk.len() > 0 && chunk.last() == carriage_return() {
        chunk.drop_last()
    } else {
        chunk
    }
}

/// The lines of `bytes`, each without its line ending.
pub open spec fn lines_of(bytes: Seq<u8>) -> Seq<Seq<u8>>
    decreases bytes.len(),
{
    let at = first_break(bytes);
    if bytes.len() == 0 {
        Seq::empty()
    } else if 0 <= at < bytes.len() {
        seq![trimmed(bytes.take(at))] + lines_of(bytes.skip(at + 1))
    } else {
        seq![bytes]
    }
}

/// The text that stands for `lines`: each line followed by one newline.
pub open spec fn joined(lines: Seq<Seq<char>>) -> Seq<char>
    decreases lines.len(),
{
    if lines.len() == 0 {
        Seq::empty()
    } else {
        joined(lines.drop_last()) + lines.last() + seq!['\n']
    }
}

/// Every line is well-formed UTF-8.
pub open spec fn all_valid(lines: Seq<Seq<u8>>) -> bool {
    forall|i: int| 0 <= i < lines.len() ==> valid_utf8(#[trigger] lines[i])
}

/// The characters of each line.
pub open spec fn decoded(lines: Seq<Seq<u8>>) -> Seq<Seq<char>> {
    Seq::new(lines.len(), |i: int| decode_utf8(lines[i]))
}

/// The text read from a source that holds `bytes`: its lines, each followed by
/// one newline; none where a line is not well-formed UTF-8.
pub open spec fn text_of(bytes: Seq<u8>) -> Option<Seq<char>> {
    if all_valid(lines_of(bytes)) {
        Some(joined(decoded(lines_of(bytes))))
    } else {
        None
    }
}

/// The number of newline characters in `text`.
pub open spec fn newlines(text: Seq<char>) -> nat
    decreases text.len(),
{
    if text.len() == 0 {
        0
    } else if text.last() == '\n' {
        1 + newlines(text.drop_last())
    } else {
        newlines(text.drop_last())
    }
}

/// `first_break` lies within the bytes, no line feed stands before it, and a
/// line feed stands at it unless it is the end.
pub proof fn first_break_bounds(bytes: Seq<u8>)
    ensures
        0 <= first_break(bytes) <= bytes.len(),
        forall|i: int| 0 <= i < first_break(bytes) ==> bytes[i] != line_feed(),
        first_break(bytes) < bytes.len() ==> bytes[first_break(bytes)] == line_feed(),
    decreases bytes.len(),
{
    if bytes.len() == 0 || bytes[0] == line_feed() {
    } else {
        let rest = bytes.drop_first();
        first_break_bounds(rest);
        assert forall|i: int| 0 <= i < first_break(bytes) implies bytes[i] != line_feed() by {
            if i > 0 {
                assert(bytes[i] == rest[i - 1]);
            }
        }
        let at = first_break(rest);
        assert(at < rest.len() ==> bytes[at + 1] == rest[at]);
    }
}

/// A position that no line feed precedes, and that holds a line feed or is the
/// end, is the first break.
pub proof fn first_break_found(bytes: Seq<u8>, at: int)
    requires
        0 <= at <= bytes.len(),
        forall|i: int| 0 <= i < at ==> bytes[i] != line_feed(),
        at < bytes.len() ==> bytes[at] == line_feed(),
    ensures
        first_break(bytes) == at,
    decreases bytes.len(),
{
    if bytes.len() == 0 || bytes[0] == line_feed() {
    } else {
        let rest = bytes.drop_first();
        assert forall|i: int| 0 <= i < at - 1 implies rest[i] != line_feed() by {
            assert(rest[i] == bytes[i + 1]);
        }
        first_break_found(rest, at - 1);
    }
}

/// The newlines of two texts put together are those of the one and those of
/// the other.
pub proof fn newlines_add(left: Seq<char>, right: Seq<char>)
    ensures
        newlines(left + right) == newlines(left) + newlines(right),
    decreases right.len(),
{
    if right.len() == 0 {
        assert(left + right =~= left);
    } else {
        assert((left + right).drop_last() =~= left + right.drop_last());
        newlines_add(left, right.drop_last());
    }
}

/// A text without a newline character counts none.
pub proof fn newlines_absent(text: Seq<char>)
    requires
        forall|i: int| 0 <= i < text.len() ==> text[i] != '\n',
    ensures
        newlines(text) == 0,
    decreases text.len(),
{
    if text.len() > 0 {
        newlines_absent(text.drop_last());
    }
}

/// The text of a first line and further lines is the first line, a newline,
/// and the text of the further lines.
pub proof fn joined_front(first: Seq<char>, rest: Seq<Seq<char>>)
    ensures
        joined(seq![first] + rest) == first + seq!['\n'] + joined(rest),
    decreases rest.len(),
{
    let all = seq![first] + rest;
    if rest.len() == 0 {
        assert(all.drop_last() =~= Seq::<Seq<char>>::empty());
        assert(all.last() == first);
        assert(joined(all.drop_last()) =~= Seq::<char>::empty());
        assert(joined(rest) =~= Seq::<char>::empty());
        assert(joined(all) =~= first + seq!['\n'] + joined(rest));
    } else {
        assert(all.drop_last() =~= seq![first] + rest.drop_last());
        joined_front(first, rest.drop_last());
        assert(all.last() == rest.last());
        assert(joined(all) =~= first + seq!['\n'] + joined(rest));
    }
}

/// The text of lines that hold no newline has as many newline characters as
/// there are lines; it ends with a newline where there is a line, and is
/// empty where there is none.
pub proof fn joined_counts_lines(lines: Seq<Seq<char>>)
    requires
        forall|i: int, j: int|
            0 <= i < lines.len() && 0 <= j < lines[i].len() ==> lines[i][j] != '\n',
    ensures
        newlines(joined(lines)) == lines.len(),
        lines.len() > 0 ==> joined(lines).len() > 0 && joined(lines).last() == '\n',
        lines.len() == 0 ==> joined(lines) == Seq::<char>::empty(),
    decreases lines.len(),
{
    if lines.len() > 0 {
        let before = lines.drop_last();
        joined_counts_lines(before);
        newlines_absent(lines.last());
        newlines_add(joined(before), lines.last());
        newlines_add(joined(before) + lines.last(), seq!['\n']);
        assert(newlines(seq!['\n']) == 1) by {
            assert(seq!['\n'].drop_last() =~= Seq::<char>::empty());
            reveal_with_fuel(newlines, 2);
        }
    }
}

/// A newline character is encoded as the line feed byte alone.
proof fn newline_encoding()
    ensures
        encode_scalar('\n' as u32) == seq![line_feed()],
        '\n' as u32 == 10u32,
{
    assert(leading_byte_width_1(10u32) == 10u8) by {
        assert((10u32 & 0x7F) as u8 == 10u8) by (bit_vector);
    }
}

/// Well-formed UTF-8 without a line feed byte decodes to text without a
/// newline character.
pub proof fn decoded_without_newline(bytes: Seq<u8>)
    requires
        valid_utf8(bytes),
        forall|i: int| 0 <= i < bytes.len() ==> bytes[i] != line_feed(),
    ensures
        forall|j: int| 0 <= j < decode_utf8(bytes).len() ==> decode_utf8(bytes)[j] != '\n',
    decreases bytes.len(),
{
    if bytes.len() > 0 {
        let first = decode_first_scalar(bytes) as char;
        let rest = pop_first_scalar(bytes);
        assert(first != '\n') by {
            if first == '\n' {
                decode_utf8_first_scalar(bytes);
                newline_encoding();
                assert(take_first_scalar(bytes)[0] == bytes[0]);
            }
        }
        assert forall|i: int| 0 <= i < rest.len() implies rest[i] != line_feed() by {
            assert(rest[i] == bytes[i + length_of_first_scalar(bytes)]);
        }
        decoded_without_newline(rest);
        assert(decode_utf8(bytes) =~= seq![first] + decode_utf8(rest));
    }
}

/// No line holds a line feed.
pub proof fn lines_without_line_feed(bytes: Seq<u8>)
    ensures
        forall|i: int, j: int|
            0 <= i < lines_of(bytes).len() && 0 <= j < lines_of(bytes)[i].len() ==> lines_of(
                bytes,
            )[i][j] != line_feed(),
    decreases bytes.len(),
{
    let at = first_break(bytes);
    first_break_bounds(bytes);
    if bytes.len() == 0 {
    } else if at < bytes.len() {
        let head = trimmed(bytes.take(at));
        let rest = lines_of(bytes.skip(at + 1));
        lines_without_line_feed(bytes.skip(at + 1));
        assert forall|i: int, j: int|
            0 <= i < lines_of(bytes).len() && 0 <= j < lines_of(bytes)[i].len() implies lines_of(
            bytes,
        )[i][j] != line_feed() by {
            if i == 0 {
                assert(lines_of(bytes)[0] == head);
                assert(head[j] == bytes[j]);
            } else {
                assert(lines_of(bytes)[i] == rest[i - 1]);
            }
        }
    } else {
    }
}

/// A source holds no line exactly where it holds no byte.
pub proof fn lines_of_nothing(bytes: Seq<u8>)
    ensures
        lines_of(bytes).len() == 0 <==> bytes.len() == 0,
{
    first_break_bounds(bytes);
}

/// The text read from a source has as many newline characters as the source
/// has lines; it ends with a newline where the source has a line, and is
/// empty where it has none.
pub proof fn text_counts_lines(bytes: Seq<u8>)
    ensures
        text_of(bytes) matches Some(text) ==> {
            &&& newlines(text) == lines_of(bytes).len()
            &&& lines_of(bytes).len() > 0 ==> text.len() > 0 && text.last() == '\n'
            &&& lines_of(bytes).len() == 0 ==> text == Seq::<char>::empty()
        },
{
    if text_of(bytes) is Some {
        let raw = lines_of(bytes);
        let lines = decoded(raw);
        lines_without_line_feed(bytes);
        assert forall|i: int, j: int|
            0 <= i < lines.len() && 0 <= j < lines[i].len() implies lines[i][j] != '\n' by {
            assert(valid_utf8(raw[i]));
            decoded_without_newline(raw[i]);
        }
        joined_counts_lines(lines);
    }
}

/// `bytes` is text whose lines are all ended, each by a line feed alone: it
/// is empty or ends with a line feed, and no carriage return stands directly
/// before a line feed.
pub open spec fn settled(bytes: Seq<u8>) -> bool {
    &&& bytes.len() > 0 ==> bytes.last() == line_feed()
    &&& forall|i: int|
        0 <= i < bytes.len() - 1 && #[trigger] bytes[i] == carriage_return() ==> bytes[i + 1]
            != line_feed()
}

/// Well-formed UTF-8 that begins with a line feed decodes to a newline and
/// what the bytes after the line feed decode to, which are well-formed too.
proof fn decode_after_line_feed(bytes: Seq<u8>)
    requires
        valid_utf8(bytes),
        bytes.len() > 0,
        bytes[0] == line_feed(),
    ensures
        valid_utf8(bytes.skip(1)),
        decode_utf8(bytes) == seq!['\n'] + decode_utf8(bytes.skip(1)),
{
    assert(pop_first_scalar(bytes) =~= bytes.skip(1));
    assert(decode_first_scalar(bytes) == 10u32) by {
        assert((10u8 & 0x7F) as u32 == 10u32) by (bit_vector);
    }
    assert(10u32 as char == '\n') by {
        char_u32_cast('\n', 10u32);
    }
}

/// Reading settled text line by line gives the text itself: what a source
/// read line by line yields is what the same bytes hold as a whole.
pub proof fn settled_text_is_kept(bytes: Seq<u8>)
    requires
        valid_utf8(bytes),
        settled(bytes),
    ensures
        text_of(bytes) == Some(decode_utf8(bytes)),
    decreases bytes.len(),
{
    if bytes.len() == 0 {
        assert(joined(decoded(lines_of(bytes))) =~= decode_utf8(bytes));
    } else {
        let at = first_break(bytes);
        first_break_bounds(bytes);
        assert(at < bytes.len());
        let head = bytes.take(at);
        let tail = bytes.subrange(at, bytes.len() as int);
        let rest = bytes.skip(at + 1);
        assert(trimmed(head) == head) by {
            if at > 0 {
                assert(head.last() == bytes[at - 1]);
            }
        }
        is_char_boundary_iff_not_is_continuation_byte(bytes, at);
        valid_utf8_split(bytes, at);
        decode_utf8_split(bytes, at);
        assert(head =~= bytes.subrange(0, at));
        decode_after_line_feed(tail);
        assert(tail.skip(1) =~= rest);
        assert(settled(rest)) by {
            if rest.len() > 0 {
                assert(rest.last() == bytes.last());
            }
            assert forall|i: int|
                0 <= i < rest.len() - 1 && #[trigger] rest[i] == carriage_return() implies rest[i
                + 1] != line_feed() by {
                assert(rest[i] == bytes[i + at + 1]);
                assert(rest[i + 1] == bytes[i + at + 2]);
            }
        }
        settled_text_is_kept(rest);
        let further = lines_of(rest);
        assert(lines_of(bytes) == seq![head] + further);
        assert(all_valid(lines_of(bytes))) by {
            assert forall|i: int| 0 <= i < lines_of(bytes).len() implies valid_utf8(
                #[trigger] lines_of(bytes)[i],
            ) by {
                if i > 0 {
                    assert(lines_of(bytes)[i] == further[i - 1]);
                }
            }
        }
        assert(decoded(lines_of(bytes)) =~= seq![decode_utf8(head)] + decoded(further));
        joined_front(decode_utf8(head), decoded(further));
        assert(joined(decoded(lines_of(bytes))) =~= decode_utf8(bytes));
    }
}

/// A single byte below 128 is well-formed UTF-8.
proof fn single_byte_is_valid(byte: u8)
    requires
        byte < 128,
    ensures
        valid_utf8(seq![byte]),
{
    let only = seq![byte];
    assert(only[0] == byte);
    assert(is_leading_byte_width_1(byte));
    assert(length_of_first_scalar(only) == 1);
    assert(pop_first_scalar(only) =~= Seq::<u8>::empty());
    assert((byte & 0x7F) as u32 <= 0x7F) by (bit_vector);
    assert(valid_first_scalar(only));
    assert(valid_utf8(Seq::<u8>::empty()));
}

/// A line without its carriage return is well-formed exactly where the line
/// with it is.
proof fn trimmed_is_as_valid(chunk: Seq<u8>)
    ensures
        valid_utf8(trimmed(chunk)) <==> valid_utf8(chunk),
{
    if chunk.len() > 0 && chunk.last() == carriage_return() {
        let short = chunk.drop_last();
        assert(chunk =~= short + seq![carriage_return()]);
        single_byte_is_valid(carriage_return());
        if valid_utf8(short) {
            valid_utf8_concat(short, seq![carriage_return()]);
        }
        if valid_utf8(chunk) {
            is_char_boundary_iff_not_is_continuation_byte(chunk, chunk.len() - 1);
            valid_utf8_split(chunk, chunk.len() - 1);
            assert(short =~= chunk.subrange(0, chunk.len() - 1));
        }
    }
}

/// Reading line by line fails exactly on bytes that are, as a whole, not
/// well-formed UTF-8: a source read line by line yields a text exactly where
/// the same bytes read at once are a text.
pub proof fn text_of_well_formed_bytes(bytes: Seq<u8>)
    ensures
        text_of(bytes) is Some <==> valid_utf8(bytes),
    decreases bytes.len(),
{
    let at = first_break(bytes);
    first_break_bounds(bytes);
    if bytes.len() == 0 {
    } else if at < bytes.len() {
        let head = bytes.take(at);
        let tail = bytes.subrange(at, bytes.len() as int);
        let rest = bytes.skip(at + 1);
        let further = lines_of(rest);
        assert(lines_of(bytes) == seq![trimmed(head)] + further);
        assert(lines_of(bytes)[0] == trimmed(head));
        assert(head =~= bytes.subrange(0, at));
        assert(tail =~= seq![line_feed()] + rest);
        assert(bytes =~= head + tail);
        text_of_well_formed_bytes(rest);
        trimmed_is_as_valid(head);
        single_byte_is_valid(line_feed());
        if valid_utf8(bytes) {
            is_char_boundary_iff_not_is_continuation_byte(bytes, at);
            valid_utf8_split(bytes, at);
            decode_after_line_feed(tail);
            assert(tail.skip(1) =~= rest);
            assert forall|i: int| 0 <= i < lines_of(bytes).len() implies valid_utf8(
                #[trigger] lines_of(bytes)[i],
            ) by {
                if i > 0 {
                    assert(lines_of(bytes)[i] == further[i - 1]);
                }
            }
        }
        if all_valid(lines_of(bytes)) {
            assert forall|i: int| 0 <= i < further.len() implies valid_utf8(
                #[trigger] further[i],
            ) by {
                assert(further[i] == lines_of(bytes)[i + 1]);
            }
            valid_utf8_concat(seq![line_feed()], rest);
            valid_utf8_concat(head, tail);
        }
    } else {
        assert(lines_of(bytes)[0] == bytes);
    }
}

} // verus!
