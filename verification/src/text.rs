//! Text: comparing, trimming, splitting and joining strings.
use vstd::prelude::*;

verus! {

/// The characters that count as white space: the code points with the Unicode property
/// `White_Space`.
pub open spec fn is_white_space(c: char) -> bool {
    ||| '\u{9}' <= c <= '\u{d}'
    ||| c == ' '
    ||| c == '\u{85}'
    ||| c == '\u{a0}'
    ||| c == '\u{1680}'
    ||| '\u{2000}' <= c <= '\u{200a}'
    ||| c == '\u{2028}'
    ||| c == '\u{2029}'
    ||| c == '\u{202f}'
    ||| c == '\u{205f}'
    ||| c == '\u{3000}'
}

/// Whether `c` is white space.
pub fn white_space(c: char) -> (yes: bool)
    ensures
        yes == is_white_space(c),
{
    ('\u{9}' <= c && c <= '\u{d}') || c == ' ' || c == '\u{85}' || c == '\u{a0}' || c == '\u{1680}'
        || ('\u{2000}' <= c && c <= '\u{200a}') || c == '\u{2028}' || c == '\u{2029}' || c
        == '\u{202f}' || c == '\u{205f}' || c == '\u{3000}'
}

/// The characters of `text`, in order.
pub fn chars_of(text: &str) -> (chars: Vec<char>)
    ensures
        chars@ == text@,
{
    let mut chars: Vec<char> = Vec::new();
    for c in it: text.chars()
        invariant
            it.seq() == text@,
            chars@ == it.seq().take(it.index() as int),
    {
        chars.push(c);
    }
    chars
}

/// Whether two strings are made of the same characters.
pub fn same(a: &str, b: &str) -> (yes: bool)
    ensures
        yes == (a@ == b@),
{
    a.to_owned() == b.to_owned()
}

/// The characters of each string of a list.
pub open spec fn views(list: Seq<String>) -> Seq<Seq<char>> {
    list.map_values(|s: String| s@)
}

/// The characters of an optional string.
pub open spec fn view_of(text: Option<String>) -> Option<Seq<char>> {
    match text {
        Some(text) => Some(text@),
        None => None,
    }
}

/// Whether an optional string is there and made of the characters of `b`.
pub fn is_some_text(a: &Option<String>, b: &str) -> (yes: bool)
    ensures
        yes == (view_of(*a) == Some(b@)),
{
    match a {
        Some(a) => same(a.as_str(), b),
        None => false,
    }
}

/// A copy of an optional string.
pub fn copy_option(text: &Option<String>) -> (copy: Option<String>)
    ensures
        view_of(copy) == view_of(*text),
{
    match text {
        Some(text) => Some(text.clone()),
        None => None,
    }
}

/// Whether `item` is in `list`.
pub fn contains(list: &Vec<String>, item: &str) -> (yes: bool)
    ensures
        yes == views(list@).contains(item@),
{
    for i in 0..list.len()
        invariant
            forall|j: int| 0 <= j < i ==> views(list@)[j] != item@,
    {
        if same(list[i].as_str(), item) {
            assert(views(list@)[i as int] == item@);
            return true;
        }
    }
    false
}

/// `s` without the white space at its start.
pub open spec fn trimmed_start(s: Seq<char>) -> Seq<char>
    decreases s.len(),
{
    if s.len() > 0 && is_white_space(s.first()) {
        trimmed_start(s.drop_first())
    } else {
        s
    }
}

/// `s` without the white space at its end.
pub open spec fn trimmed_end(s: Seq<char>) -> Seq<char>
    decreases s.len(),
{
    if s.len() > 0 && is_white_space(s.last()) {
        trimmed_end(s.drop_last())
    } else {
        s
    }
}

/// `s` without the white space at its two ends.
pub open spec fn trimmed(s: Seq<char>) -> Seq<char> {
    trimmed_end(trimmed_start(s))
}

/// Takes the white space off both ends of `text`.
pub fn trim<'a>(text: &'a str) -> (inner: &'a str)
    ensures
        inner@ == trimmed(text@),
{
    let chars: Vec<char> = chars_of(text);
    let mut start: usize = 0;
    assert(chars@.skip(0) == chars@);
    while start < chars.len() && white_space(chars[start])
        invariant
            start <= chars.len(),
            trimmed_start(chars@.skip(start as int)) == trimmed_start(chars@),
        decreases chars.len() - start,
    {
        assert(chars@.skip(start as int).drop_first() == chars@.skip(start + 1));
        start = start + 1;
    }
    let mut end: usize = chars.len();
    assert(chars@.subrange(start as int, end as int) == chars@.skip(start as int));
    while start < end && white_space(chars[end - 1])
        invariant
            start <= end <= chars.len(),
            trimmed_end(chars@.subrange(start as int, end as int)) == trimmed_end(
                chars@.skip(start as int),
            ),
        decreases end,
    {
        assert(chars@.subrange(start as int, end as int).drop_last() == chars@.subrange(
            start as int,
            end - 1,
        ));
        end = end - 1;
    }
    text.substring_char(start, end)
}

/// Text that was trimmed has no white space at its ends, and trimming it again changes nothing.
pub proof fn law_trimmed_text_is_stable(s: Seq<char>)
    ensures
        trimmed(s).len() > 0 ==> !is_white_space(trimmed(s).first()) && !is_white_space(
            trimmed(s).last(),
        ),
        trimmed(trimmed(s)) == trimmed(s),
{
    lemma_trimmed_start(s);
    lemma_trimmed_end(trimmed_start(s));
}

proof fn lemma_trimmed_start(s: Seq<char>)
    ensures
        trimmed_start(s).len() > 0 ==> !is_white_space(trimmed_start(s).first()),
    decreases s.len(),
{
    if s.len() > 0 && is_white_space(s.first()) {
        lemma_trimmed_start(s.drop_first());
    }
}

proof fn lemma_trimmed_end(s: Seq<char>)
    ensures
        trimmed_end(s).is_prefix_of(s),
        trimmed_end(s).len() > 0 ==> !is_white_space(trimmed_end(s).last()),
    decreases s.len(),
{
    if s.len() > 0 && is_white_space(s.last()) {
        lemma_trimmed_end(s.drop_last());
    }
}

/// What follows `prefix` in `s`, where `s` starts with it.
pub open spec fn after_prefix(s: Seq<char>, prefix: Seq<char>) -> Option<Seq<char>> {
    if prefix.is_prefix_of(s) {
        Some(s.skip(prefix.len() as int))
    } else {
        None
    }
}

/// Takes `prefix` off the start of `text`, or gives `None` where `text` does not start with it.
pub fn strip_prefix<'a>(text: &'a str, prefix: &str) -> (rest: Option<&'a str>)
    ensures
        match rest {
            Some(rest) => after_prefix(text@, prefix@) == Some(rest@),
            None => after_prefix(text@, prefix@) is None,
        },
{
    let length: usize = text.unicode_len();
    let skipped: usize = prefix.unicode_len();
    if skipped > length {
        return None;
    }
    if same(text.substring_char(0, skipped), prefix) {
        assert(text@.subrange(skipped as int, length as int) == text@.skip(skipped as int));
        Some(text.substring_char(skipped, length))
    } else {
        proof {
            if prefix@.is_prefix_of(text@) {
                assert(text@.subrange(0, skipped as int) == prefix@);
            }
        }
        None
    }
}

/// `s` without `suffix` at its end, as often as it stands there.
pub open spec fn without_suffixes(s: Seq<char>, suffix: Seq<char>) -> Seq<char>
    decreases s.len(),
{
    if suffix.len() > 0 && suffix.is_suffix_of(s) {
        without_suffixes(s.take(s.len() - suffix.len()), suffix)
    } else {
        s
    }
}

/// Takes `suffix` off the end of `text`, as often as it stands there.
pub fn trim_end_matches<'a>(text: &'a str, suffix: &str) -> (rest: &'a str)
    ensures
        rest@ == without_suffixes(text@, suffix@),
{
    let size: usize = suffix.unicode_len();
    let mut end: usize = text.unicode_len();
    assert(text@.take(end as int) == text@);
    while size > 0 && size <= end && same(text.substring_char(end - size, end), suffix)
        invariant
            size == suffix@.len(),
            end <= text@.len(),
            without_suffixes(text@.take(end as int), suffix@) == without_suffixes(text@, suffix@),
        decreases end,
    {
        let ghost kept = text@.take(end as int);
        assert(kept.subrange(end - size, end as int) == text@.subrange(end - size, end as int));
        assert(suffix@.is_suffix_of(kept));
        assert(kept.take(kept.len() - size) == text@.take(end - size));
        end = end - size;
    }
    proof {
        let kept = text@.take(end as int);
        if size > 0 && suffix@.is_suffix_of(kept) {
            assert(text@.subrange(end - size, end as int) == suffix@);
        }
        assert(text@.subrange(0, end as int) == kept);
    }
    text.substring_char(0, end)
}

/// How many characters of `s` stand before its first `c`: all of them where it has none.
pub open spec fn length_before(s: Seq<char>, c: char) -> nat
    decreases s.len(),
{
    if s.len() == 0 || s.first() == c {
        0
    } else {
        1 + length_before(s.drop_first(), c)
    }
}

/// `length_before` counts within `s`, stops at a `c`, and passes none.
pub proof fn lemma_length_before(s: Seq<char>, c: char)
    ensures
        length_before(s, c) <= s.len(),
        length_before(s, c) < s.len() ==> s[length_before(s, c) as int] == c,
        forall|i: int| 0 <= i < length_before(s, c) ==> s[i] != c,
    decreases s.len(),
{
    if s.len() > 0 && s.first() != c {
        lemma_length_before(s.drop_first(), c);
        assert forall|i: int| 0 <= i < length_before(s, c) implies s[i] != c by {
            if i > 0 {
                assert(s[i] == s.drop_first()[i - 1]);
            }
        }
    }
}

/// `s` up to each `c` and after the last one: one piece more than `s` has such characters.
pub open spec fn split(s: Seq<char>, c: char) -> Seq<Seq<char>>
    decreases s.len(),
{
    let n = length_before(s, c) as int;
    if n >= s.len() {
        seq![s]
    } else {
        seq![s.take(n)] + split(s.skip(n + 1), c)
    }
}

/// A line that a line feed ended, without the carriage return that may stand before it.
pub open spec fn ended_line(s: Seq<char>) -> Seq<char> {
    if s.len() > 0 && s.last() == '\r' {
        s.drop_last()
    } else {
        s
    }
}

/// The lines of `s`: each ends with a line feed, or a carriage return and a line feed, which
/// are not part of it. The end of `s` ends its last line too.
pub open spec fn lines_of(s: Seq<char>) -> Seq<Seq<char>>
    decreases s.len(),
{
    let n = length_before(s, '\n') as int;
    if s.len() == 0 {
        seq![]
    } else if n >= s.len() {
        seq![s]
    } else {
        seq![ended_line(s.take(n))] + lines_of(s.skip(n + 1))
    }
}

/// A line that a line feed ends comes first, and the lines of the rest follow.
pub proof fn lemma_first_line(line: Seq<char>, rest: Seq<char>)
    requires
        !line.contains('\n'),
        line.len() > 0 ==> line.last() != '\r',
    ensures
        lines_of(line + seq!['\n'] + rest) == seq![line] + lines_of(rest),
{
    let all = line + seq!['\n'] + rest;
    lemma_length_before(all, '\n');
    let n = length_before(all, '\n') as int;
    if n < line.len() {
        assert(line[n] == '\n');
    }
    assert(all[line.len() as int] == '\n');
    assert(n == line.len());
    assert(all.take(n) == line);
    assert(all.skip(n + 1) == rest);
}

/// The lines of two texts, one after the other, are those of the first and then those of the
/// second, where a line feed ends the first.
pub proof fn lemma_lines_of_concat(first: Seq<char>, second: Seq<char>)
    requires
        first.len() > 0 ==> first.last() == '\n',
    ensures
        lines_of(first + second) == lines_of(first) + lines_of(second),
    decreases first.len(),
{
    if first.len() == 0 {
        assert(first + second == second);
    } else {
        let all = first + second;
        let n = length_before(first, '\n') as int;
        let m = length_before(all, '\n') as int;
        lemma_length_before(first, '\n');
        lemma_length_before(all, '\n');
        assert(first[first.len() - 1] == '\n');
        assert(n < first.len());
        assert(all[n] == '\n');
        if m < n {
            assert(all[m] == first[m]);
        }
        assert(m == n);
        let rest = first.skip(n + 1);
        assert(all.take(n) == first.take(n));
        assert(all.skip(n + 1) == rest + second);
        if rest.len() > 0 {
            assert(rest.last() == first.last());
        }
        lemma_lines_of_concat(rest, second);
    }
}

/// The lines of `text`, without their ends.
pub fn lines<'a>(text: &'a str) -> (lines: Vec<&'a str>)
    ensures
        lines@.map_values(|line: &str| line@) == lines_of(text@),
{
    let chars: Vec<char> = chars_of(text);
    let mut lines: Vec<&'a str> = Vec::new();
    let mut start: usize = 0;
    assert(chars@.skip(0) == chars@);
    while start < chars.len()
        invariant
            chars@ == text@,
            start <= chars.len(),
            lines_of(text@) == lines@.map_values(|line: &str| line@) + lines_of(
                text@.skip(start as int),
            ),
        decreases chars.len() - start,
    {
        let ghost rest = text@.skip(start as int);
        let ghost before = lines@.map_values(|line: &str| line@);
        let mut end: usize = start;
        while end < chars.len() && chars[end] != '\n'
            invariant
                chars@ == text@,
                start <= end <= chars.len(),
                forall|i: int| start <= i < end ==> chars@[i] != '\n',
            decreases chars.len() - end,
        {
            end = end + 1;
        }
        proof {
            lemma_length_before(rest, '\n');
            let n = length_before(rest, '\n') as int;
            if n < end - start {
                assert(rest[n] == chars@[start + n]);
            }
            if n > end - start {
                assert(rest[end - start] == chars@[end as int]);
            }
            assert(n == end - start);
            assert(text@.subrange(start as int, end as int) == rest.take(n));
        }
        if end < chars.len() {
            let kept: usize = if end > start && chars[end - 1] == '\r' {
                end - 1
            } else {
                end
            };
            let line: &'a str = text.substring_char(start, kept);
            assert(line@ == ended_line(rest.take(end - start)));
            lines.push(line);
            assert(rest.skip(end - start + 1) == text@.skip(end + 1));
            start = end + 1;
        } else {
            let line: &'a str = text.substring_char(start, end);
            assert(line@ == rest);
            lines.push(line);
            start = end;
        }
        assert(lines@.map_values(|line: &str| line@) == before.push(lines@.last()@));
    }
    assert(text@.skip(start as int) == Seq::<char>::empty());
    lines
}

/// The strings of `parts`, one after the other, with `separator` between each two.
pub open spec fn joined(parts: Seq<Seq<char>>, separator: Seq<char>) -> Seq<char>
    decreases parts.len(),
{
    if parts.len() == 0 {
        seq![]
    } else if parts.len() == 1 {
        parts[0]
    } else {
        joined(parts.drop_last(), separator) + separator + parts.last()
    }
}

/// Joins the strings of `parts`, with `separator` between each two.
pub fn join(parts: &Vec<String>, separator: &str) -> (text: String)
    ensures
        text@ == joined(views(parts@), separator@),
{
    let mut text: String = String::new();
    for i in 0..parts.len()
        invariant
            text@ == joined(views(parts@).take(i as int), separator@),
    {
        if i > 0 {
            text.append(separator);
        }
        text.append(parts[i].as_str());
        assert(views(parts@).take(i + 1).drop_last() == views(parts@).take(i as int));
    }
    assert(views(parts@).take(parts.len() as int) == views(parts@));
    text
}

/// `parts` without each string that equals the one before it.
pub open spec fn deduplicated(parts: Seq<Seq<char>>) -> Seq<Seq<char>>
    decreases parts.len(),
{
    if parts.len() <= 1 {
        parts
    } else if parts.last() == parts[parts.len() - 2] {
        deduplicated(parts.drop_last())
    } else {
        deduplicated(parts.drop_last()).push(parts.last())
    }
}

/// Drops each string that equals the one before it.
pub fn dedup(parts: &Vec<String>) -> (kept: Vec<String>)
    ensures
        views(kept@) == deduplicated(views(parts@)),
{
    let mut kept: Vec<String> = Vec::new();
    for i in 0..parts.len()
        invariant
            views(kept@) == deduplicated(views(parts@).take(i as int)),
    {
        let ghost before = views(kept@);
        assert(views(parts@).take(i + 1).drop_last() == views(parts@).take(i as int));
        if i == 0 || !same(parts[i].as_str(), parts[i - 1].as_str()) {
            kept.push(parts[i].clone());
            assert(views(kept@) == before.push(parts[i as int]@));
        }
    }
    assert(views(parts@).take(parts.len() as int) == views(parts@));
    kept
}

} // verus!
