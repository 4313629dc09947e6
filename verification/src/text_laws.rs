//! What holds of text, numbers in text, and the file names in paths.
use crate::numbers::{decimal_of, hexadecimal_of};
use crate::paths::{
    file_name_of, is_empty_piece, is_parent_piece, last_piece_start, lemma_last_piece_start,
    PathUnit,
};
use crate::text::{
    after_prefix, deduplicated, ended_line, is_white_space, joined, lemma_first_line,
    lemma_length_before, length_before, lines_of, split, trimmed, trimmed_end, trimmed_start,
    view_of, views, without_suffixes,
};
use vstd::arithmetic::div_mod::lemma_mod_breakdown;
use vstd::arithmetic::power::{lemma_pow0, lemma_pow1, lemma_pow_adds, lemma_pow_positive, pow};
use vstd::prelude::*;

verus! {

/// A list of strings is told apart by its characters: each string keeps its place and all of its
/// characters.
pub proof fn law_views_keep_every_string(list: Seq<String>)
    ensures
        views(list).len() == list.len(),
        forall|i: int| 0 <= i < list.len() ==> views(list)[i] == (#[trigger] list[i])@,
{
}

/// An optional string is there exactly where its characters are.
pub proof fn law_view_keeps_optional_string(text: Option<String>)
    ensures
        match text {
            Some(text) => view_of(Some(text)) == Some(text@),
            None => view_of(text) is None,
        },
{
}

proof fn lemma_trimmed_start_of(before: Seq<char>, rest: Seq<char>)
    requires
        forall|i: int| 0 <= i < before.len() ==> is_white_space(#[trigger] before[i]),
        rest.len() > 0 ==> !is_white_space(rest.first()),
    ensures
        trimmed_start(before + rest) == rest,
    decreases before.len(),
{
    if before.len() == 0 {
        assert(before + rest == rest);
    } else {
        assert((before + rest).first() == before[0]);
        assert((before + rest).drop_first() == before.drop_first() + rest);
        lemma_trimmed_start_of(before.drop_first(), rest);
    }
}

proof fn lemma_trimmed_end_of(rest: Seq<char>, after: Seq<char>)
    requires
        forall|i: int| 0 <= i < after.len() ==> is_white_space(#[trigger] after[i]),
        rest.len() > 0 ==> !is_white_space(rest.last()),
    ensures
        trimmed_end(rest + after) == rest,
    decreases after.len(),
{
    if after.len() == 0 {
        assert(rest + after == rest);
    } else {
        assert((rest + after).last() == after[after.len() - 1]);
        assert((rest + after).drop_last() == rest + after.drop_last());
        lemma_trimmed_end_of(rest, after.drop_last());
    }
}

/// Trimming takes off the white space around a text, however much there is, and nothing of the
/// text itself.
pub proof fn law_only_white_space_around_is_dropped(
    before: Seq<char>,
    text: Seq<char>,
    after: Seq<char>,
)
    requires
        forall|i: int| 0 <= i < before.len() ==> is_white_space(#[trigger] before[i]),
        forall|i: int| 0 <= i < after.len() ==> is_white_space(#[trigger] after[i]),
        text.len() > 0 ==> !is_white_space(text.first()) && !is_white_space(text.last()),
    ensures
        trimmed(before + text + after) == text,
{
    if text.len() > 0 {
        assert(before + text + after == before + (text + after));
        assert((text + after).first() == text.first());
        lemma_trimmed_start_of(before, text + after);
        lemma_trimmed_end_of(text, after);
    } else {
        let all = before + text + after;
        assert forall|i: int| 0 <= i < all.len() implies is_white_space(#[trigger] all[i]) by {
            if i < before.len() {
                assert(all[i] == before[i]);
            } else {
                assert(all[i] == after[i - before.len()]);
            }
        }
        lemma_trimmed_start_of(all, seq![]);
        assert(all + Seq::<char>::empty() == all);
        assert(trimmed_end(Seq::<char>::empty()) == Seq::<char>::empty());
    }
}

/// What follows a prefix is the rest of the text, whatever it is, and a text that does not start
/// with the prefix has no such rest.
pub proof fn law_prefix_and_rest_make_the_text(prefix: Seq<char>, rest: Seq<char>, text: Seq<char>)
    ensures
        after_prefix(prefix + rest, prefix) == Some(rest),
        match after_prefix(text, prefix) {
            Some(rest) => text == prefix + rest,
            None => forall|other: Seq<char>| text != #[trigger] (prefix + other),
        },
{
    assert((prefix + rest).skip(prefix.len() as int) == rest);
    assert(prefix.is_prefix_of(prefix + rest)) by {
        assert((prefix + rest).subrange(0, prefix.len() as int) == prefix);
    }
    match after_prefix(text, prefix) {
        Some(rest) => {
            assert(text == prefix + rest);
        },
        None => {
            assert forall|other: Seq<char>| text != #[trigger] (prefix + other) by {
                assert((prefix + other).subrange(0, prefix.len() as int) == prefix);
            }
        },
    }
}

/// A suffix is taken off as often as it stands at the end, and a text that does not end with it
/// stays as it is. An empty suffix takes nothing off.
pub proof fn law_every_suffix_is_taken_off(text: Seq<char>, suffix: Seq<char>)
    ensures
        without_suffixes(text + suffix, suffix) == without_suffixes(text, suffix),
        suffix.len() == 0 || !suffix.is_suffix_of(text) ==> without_suffixes(text, suffix) == text,
        suffix.len() > 0 ==> !suffix.is_suffix_of(without_suffixes(text, suffix)),
    decreases text.len(),
{
    let all = text + suffix;
    if suffix.len() == 0 {
        assert(all == text);
    } else {
        assert(all.subrange(all.len() - suffix.len(), all.len() as int) == suffix);
        assert(suffix.is_suffix_of(all));
        assert(all.take(all.len() - suffix.len()) == text);
        if suffix.is_suffix_of(text) {
            law_every_suffix_is_taken_off(text.take(text.len() - suffix.len()), suffix);
        }
    }
}

/// A piece ends at the first separator, and the other pieces are those of the text behind it. A
/// text without a separator is its only piece.
pub proof fn law_pieces_end_at_separators(piece: Seq<char>, rest: Seq<char>, c: char)
    requires
        !piece.contains(c),
    ensures
        split(piece, c) == seq![piece],
        split(piece + seq![c] + rest, c) == seq![piece] + split(rest, c),
{
    lemma_length_before(piece, c);
    let n = length_before(piece, c) as int;
    if n < piece.len() {
        assert(piece.contains(piece[n]));
    }
    let all = piece + seq![c] + rest;
    lemma_length_before(all, c);
    let m = length_before(all, c) as int;
    assert(all[piece.len() as int] == c);
    if m < piece.len() {
        assert(all[m] == piece[m]);
        assert(piece.contains(piece[m]));
    }
    assert(m == piece.len());
    assert(all.take(m) == piece);
    assert(all.skip(m + 1) == rest);
}

/// A line ends at the first line feed, or at a carriage return and a line feed, and the other
/// lines are those of the text behind it. Text without a line feed is a single line, and no text
/// has no line.
pub proof fn law_lines_end_at_line_feeds(line: Seq<char>, rest: Seq<char>)
    requires
        !line.contains('\n'),
    ensures
        lines_of(seq![]).len() == 0,
        line.len() > 0 ==> lines_of(line) == seq![line],
        line.len() == 0 || line.last() != '\r' ==> lines_of(line + seq!['\n'] + rest) == seq![line]
            + lines_of(rest),
        lines_of(line + seq!['\r', '\n'] + rest) == seq![line] + lines_of(rest),
{
    lemma_length_before(line, '\n');
    let n = length_before(line, '\n') as int;
    if n < line.len() {
        assert(line.contains(line[n]));
    }
    if line.len() == 0 || line.last() != '\r' {
        lemma_first_line(line, rest);
    }
    let all = line + seq!['\r', '\n'] + rest;
    lemma_length_before(all, '\n');
    let m = length_before(all, '\n') as int;
    assert(all[line.len() as int] == '\r');
    assert(all[line.len() as int + 1] == '\n');
    if m < line.len() {
        assert(all[m] == line[m]);
        assert(line.contains(line[m]));
    }
    assert(m == line.len() + 1);
    assert(all.take(m) == line.push('\r'));
    assert(ended_line(all.take(m)) == line);
    assert(all.skip(m + 1) == rest);
}

/// Joining a list of one gives its string, joining none gives nothing, and two lists that are
/// joined one after the other have one separator between them.
pub proof fn law_parts_are_joined_by_separators(
    first: Seq<Seq<char>>,
    second: Seq<Seq<char>>,
    part: Seq<char>,
    separator: Seq<char>,
)
    ensures
        joined(seq![], separator).len() == 0,
        joined(seq![part], separator) == part,
        first.len() > 0 && second.len() > 0 ==> joined(first + second, separator) == joined(
            first,
            separator,
        ) + separator + joined(second, separator),
    decreases second.len(),
{
    if first.len() > 0 && second.len() > 0 {
        let all = first + second;
        assert(all.last() == second.last());
        assert(all.drop_last() == first + second.drop_last());
        if second.len() == 1 {
            assert(all.drop_last() == first);
        } else {
            law_parts_are_joined_by_separators(first, second.drop_last(), part, separator);
            assert(joined(all, separator) == joined(first, separator) + separator + (joined(
                second.drop_last(),
                separator,
            ) + separator + second.last()));
        }
    }
}

/// A string that repeats the one before it makes no difference, wherever it stands. Where no
/// string repeats the one before it, nothing is dropped.
pub proof fn law_repetitions_are_dropped(
    before: Seq<Seq<char>>,
    part: Seq<char>,
    after: Seq<Seq<char>>,
)
    ensures
        deduplicated(before.push(part).push(part) + after) == deduplicated(
            before.push(part) + after,
        ),
        (forall|i: int|
            0 < i < before.len() ==> (#[trigger] before[i]) != before[i - 1]) ==> deduplicated(
            before,
        ) == before,
{
    lemma_repetition(before, part, after);
    lemma_no_repetitions(before);
}

proof fn lemma_repetition(before: Seq<Seq<char>>, part: Seq<char>, after: Seq<Seq<char>>)
    ensures
        deduplicated(before.push(part).push(part) + after) == deduplicated(
            before.push(part) + after,
        ),
    decreases after.len(),
{
    let long = before.push(part).push(part) + after;
    let short = before.push(part) + after;
    if after.len() == 0 {
        assert(short == before.push(part));
        assert(long == before.push(part).push(part));
        assert(long.drop_last() == short);
    } else {
        assert(long.drop_last() == before.push(part).push(part) + after.drop_last());
        assert(short.drop_last() == before.push(part) + after.drop_last());
        lemma_repetition(before, part, after.drop_last());
        assert(long.last() == short.last());
        assert(long[long.len() - 2] == short[short.len() - 2]);
    }
}

proof fn lemma_no_repetitions(parts: Seq<Seq<char>>)
    ensures
        (forall|i: int|
            0 < i < parts.len() ==> (#[trigger] parts[i]) != parts[i - 1]) ==> deduplicated(parts)
            == parts,
    decreases parts.len(),
{
    if parts.len() > 1 && (forall|i: int|
        0 < i < parts.len() ==> (#[trigger] parts[i]) != parts[i - 1]) {
        let shorter = parts.drop_last();
        assert forall|i: int| 0 < i < shorter.len() implies (#[trigger] shorter[i]) != shorter[i
            - 1] by {
            assert(shorter[i] == parts[i]);
        }
        lemma_no_repetitions(shorter);
        assert(parts[parts.len() - 1] != parts[parts.len() - 2]);
        assert(shorter.push(parts.last()) == parts);
    }
}

/// The number that a digit stands for, in bases up to sixteen.
pub open spec fn value_of_digit(c: char) -> int {
    if '0' <= c <= '9' {
        c as int - '0' as int
    } else {
        c as int - 'a' as int + 10
    }
}

/// The number that a text of digits stands for.
pub open spec fn value_of(digits: Seq<char>, base: int) -> int
    decreases digits.len(),
{
    if digits.len() == 0 {
        0
    } else {
        value_of(digits.drop_last(), base) * base + value_of_digit(digits.last())
    }
}

/// A number in decimal is made of decimal digits that stand for the number, without a zero in
/// front.
pub proof fn law_decimal_stands_for_the_number(n: nat)
    ensures
        value_of(decimal_of(n), 10) == n,
        decimal_of(n).len() > 0,
        forall|i: int| 0 <= i < decimal_of(n).len() ==> '0' <= #[trigger] decimal_of(n)[i] <= '9',
        decimal_of(n).first() == '0' ==> n == 0 && decimal_of(n).len() == 1,
    decreases n,
{
    let text = decimal_of(n);
    if n < 10 {
        assert(text.drop_last() == Seq::<char>::empty());
        assert(value_of(text.drop_last(), 10) == 0);
    } else {
        law_decimal_stands_for_the_number(n / 10);
        assert(text.drop_last() == decimal_of(n / 10));
        assert(text.first() == decimal_of(n / 10)[0]);
        assert forall|i: int| 0 <= i < text.len() implies '0' <= #[trigger] text[i] <= '9' by {
            if i < text.len() - 1 {
                assert(text[i] == decimal_of(n / 10)[i]);
            }
        }
    }
}

/// Hexadecimal digits of a given width have that width, are digits in lower case, and stand for
/// the number, or for what is left of it where it does not fit.
pub proof fn law_hexadecimal_stands_for_the_number(n: nat, width: nat)
    ensures
        hexadecimal_of(n, width).len() == width,
        forall|i: int|
            0 <= i < width ==> '0' <= #[trigger] hexadecimal_of(n, width)[i] <= '9' || 'a'
                <= hexadecimal_of(n, width)[i] <= 'f',
        value_of(hexadecimal_of(n, width), 16) == n as int % pow(16, width),
    decreases width,
{
    let text = hexadecimal_of(n, width);
    if width == 0 {
        lemma_pow0(16);
    } else {
        let shorter = (width - 1) as nat;
        law_hexadecimal_stands_for_the_number(n / 16, shorter);
        assert(text.drop_last() == hexadecimal_of(n / 16, shorter));
        lemma_pow_adds(16, 1, shorter);
        lemma_pow1(16);
        lemma_pow_positive(16, shorter);
        lemma_mod_breakdown(n as int, 16, pow(16, shorter));
        assert forall|i: int| 0 <= i < width implies '0' <= #[trigger] text[i] <= '9' || 'a'
            <= text[i] <= 'f' by {
            if i < width - 1 {
                assert(text[i] == hexadecimal_of(n / 16, shorter)[i]);
            }
        }
    }
}

/// The last piece of a path starts behind its last separator.
proof fn lemma_last_piece<U: PathUnit>(directory: Seq<U>, separator: U, piece: Seq<U>)
    requires
        separator.is_separator(),
        forall|i: int| 0 <= i < piece.len() ==> !(#[trigger] piece[i]).is_separator(),
    ensures
        last_piece_start(piece) == 0,
        last_piece_start(directory.push(separator) + piece) == directory.len() + 1,
{
    lemma_last_piece_start(piece);
    if last_piece_start(piece) > 0 {
        assert(piece[last_piece_start(piece) - 1].is_separator());
    }
    let path = directory.push(separator) + piece;
    lemma_last_piece_start(path);
    let start = last_piece_start(path);
    assert(path[directory.len() as int] == separator);
    if start > directory.len() + 1 {
        assert(path[start - 1] == piece[start - 1 - directory.len() - 1]);
    }
}

proof fn lemma_file_name<U: PathUnit>(directory: Seq<U>, separator: U, piece: Seq<U>)
    requires
        separator.is_separator(),
        forall|i: int| 0 <= i < piece.len() ==> !(#[trigger] piece[i]).is_separator(),
    ensures
        is_empty_piece(piece) ==> file_name_of(directory.push(separator) + piece) == file_name_of(
            directory,
        ) && file_name_of(piece) is None,
        is_parent_piece(piece) ==> file_name_of(directory.push(separator) + piece) is None
            && file_name_of(piece) is None,
        !is_empty_piece(piece) && !is_parent_piece(piece) ==> file_name_of(
            directory.push(separator) + piece,
        ) == Some(piece) && file_name_of(piece) == Some(piece),
{
    let path = directory.push(separator) + piece;
    lemma_last_piece(directory, separator, piece);
    assert(path.skip(directory.len() as int + 1) == piece);
    assert(path.take(directory.len() as int) == directory);
    assert(piece.skip(0) == piece);
}

/// The file name in a path is the last piece of it, whatever directory it stands in. An empty
/// last piece and a single full stop do not count. No file name is in the empty path, and none in
/// a path that ends in the parent directory.
pub proof fn law_file_name_is_the_last_piece(directory: Seq<char>, name: Seq<char>)
    requires
        !name.contains('/'),
    ensures
        name.len() > 0 && name != seq!['.'] && name != seq!['.', '.'] ==> {
            &&& file_name_of(directory + seq!['/'] + name) == Some(name)
            &&& file_name_of(name) == Some(name)
        },
        file_name_of(directory + seq!['/']) == file_name_of(directory),
        file_name_of(directory + seq!['/', '.']) == file_name_of(directory),
        file_name_of(directory + seq!['/', '.', '.']) is None,
        file_name_of(seq!['.', '.']) is None,
        file_name_of(seq!['.']) is None,
        file_name_of(Seq::<char>::empty()) is None,
{
    assert forall|i: int| 0 <= i < name.len() implies !(#[trigger] name[i]).is_separator() by {
        assert(name.contains(name[i]));
    }
    lemma_file_name(directory, '/', name);
    assert(directory.push('/') + name == directory + seq!['/'] + name);
    if name.len() == 1 && name[0] == '.' {
        assert(name == seq!['.']);
    }
    if name.len() == 2 && name[0] == '.' && name[1] == '.' {
        assert(name == seq!['.', '.']);
    }
    lemma_file_name(directory, '/', Seq::<char>::empty());
    assert(directory.push('/') + Seq::<char>::empty() == directory + seq!['/']);
    lemma_file_name(directory, '/', seq!['.']);
    assert(directory.push('/') + seq!['.'] == directory + seq!['/', '.']);
    lemma_file_name(directory, '/', seq!['.', '.']);
    assert(directory.push('/') + seq!['.', '.'] == directory + seq!['/', '.', '.']);
}

/// The file name in a path of bytes, where `/` is 0x2f and the full stop is 0x2e, is its last
/// piece in the same way.
pub proof fn law_file_name_in_bytes_is_the_last_piece(directory: Seq<u8>, name: Seq<u8>)
    requires
        !name.contains(0x2fu8),
    ensures
        name.len() > 0 && name != seq![0x2eu8] && name != seq![0x2eu8, 0x2eu8] ==> {
            &&& file_name_of(directory + seq![0x2fu8] + name) == Some(name)
            &&& file_name_of(name) == Some(name)
        },
        file_name_of(directory + seq![0x2fu8]) == file_name_of(directory),
        file_name_of(directory + seq![0x2fu8, 0x2eu8]) == file_name_of(directory),
        file_name_of(directory + seq![0x2fu8, 0x2eu8, 0x2eu8]) is None,
        file_name_of(seq![0x2eu8, 0x2eu8]) is None,
        file_name_of(seq![0x2eu8]) is None,
        file_name_of(Seq::<u8>::empty()) is None,
{
    assert forall|i: int| 0 <= i < name.len() implies !(#[trigger] name[i]).is_separator() by {
        assert(name.contains(name[i]));
    }
    lemma_file_name(directory, 0x2fu8, name);
    assert(directory.push(0x2fu8) + name == directory + seq![0x2fu8] + name);
    if name.len() == 1 && name[0] == 0x2eu8 {
        assert(name == seq![0x2eu8]);
    }
    if name.len() == 2 && name[0] == 0x2eu8 && name[1] == 0x2eu8 {
        assert(name == seq![0x2eu8, 0x2eu8]);
    }
    lemma_file_name(directory, 0x2fu8, Seq::<u8>::empty());
    assert(directory.push(0x2fu8) + Seq::<u8>::empty() == directory + seq![0x2fu8]);
    lemma_file_name(directory, 0x2fu8, seq![0x2eu8]);
    assert(directory.push(0x2fu8) + seq![0x2eu8] == directory + seq![0x2fu8, 0x2eu8]);
    lemma_file_name(directory, 0x2fu8, seq![0x2eu8, 0x2eu8]);
    assert(directory.push(0x2fu8) + seq![0x2eu8, 0x2eu8] == directory + seq![
        0x2fu8,
        0x2eu8,
        0x2eu8,
    ]);
}

} // verus!
