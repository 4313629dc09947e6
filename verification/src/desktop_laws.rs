//! What holds of desktop entries.
use crate::desktop::{
    ascii_bytes, command_for, command_of, command_view, decoded, end_of_last, entry_with_id,
    fields_in, fields_of, file_views, id_part, localized, DesktopFile, Fields,
};
use crate::text::{joined, lemma_length_before, length_before, split};
use crate::text_laws::{law_parts_are_joined_by_separators, law_pieces_end_at_separators};
use vstd::prelude::*;

verus! {

/// A list of files is told apart by its paths and contents: each file keeps its place, its path
/// and its contents.
pub proof fn law_views_keep_every_file(files: Seq<DesktopFile>)
    ensures
        file_views(files).len() == files.len(),
        forall|i: int|
            0 <= i < files.len() ==> file_views(files)[i] == ((#[trigger] files[i]).path@,
                files[i].contents@),
{
}

/// The fields of an application keep their characters, each on its own.
pub proof fn law_view_keeps_every_field(fields: Fields)
    ensures
        fields@.appid == fields.appid@,
        fields@.name is Some <==> fields.name is Some,
        fields.name matches Some(name) ==> fields@.name == Some(name@),
        fields@.flatpak is Some <==> fields.flatpak is Some,
        fields.flatpak matches Some(app) ==> fields@.flatpak == Some(app@),
        fields@.mime_types is Some <==> fields.mime_types is Some,
        fields.mime_types matches Some(types) ==> (fields@.mime_types matches Some(all)
            && all.len() == types@.len() && forall|i: int|
            0 <= i < types@.len() ==> all[i] == (#[trigger] types@[i])@),
        fields@.command is Some <==> fields.command is Some,
        fields.command matches Some(words) ==> (fields@.command matches Some(all) && all.len()
            == words@.len() && forall|i: int|
            0 <= i < words@.len() ==> all[i] == (#[trigger] words@[i])@),
{
}

/// A command keeps each of its words, and an error its words.
pub proof fn law_view_keeps_every_word(command: Result<Vec<String>, String>)
    ensures
        match command {
            Ok(words) => command_view(command) matches Ok(all) && all.len() == words@.len()
                && forall|i: int| 0 <= i < words@.len() ==> all[i] == (#[trigger] words@[i])@,
            Err(words) => command_view(command) == Err::<Seq<Seq<char>>, Seq<char>>(words@),
        },
{
}

/// The language of a locale: what stands before its first underscore.
pub open spec fn language_of(locale: Seq<char>) -> Seq<char> {
    split(locale, '_')[0]
}

/// Whether there is a value for a locale, or for its language.
pub open spec fn has_value_for(values: Map<Seq<char>, Seq<char>>, locale: Seq<char>) -> bool {
    values.contains_key(locale) || values.contains_key(language_of(locale))
}

proof fn lemma_language_of(locale: Seq<char>)
    ensures
        locale.take(length_before(locale, '_') as int) == language_of(locale),
{
    lemma_length_before(locale, '_');
    if length_before(locale, '_') >= locale.len() {
        assert(locale.take(length_before(locale, '_') as int) == locale);
    }
}

/// The value for the first locale that has one is used, wherever that locale stands in the list.
/// The locale itself goes before its language.
pub proof fn law_first_locale_with_value_is_used(
    value: (Seq<char>, Map<Seq<char>, Seq<char>>),
    locales: Seq<Seq<char>>,
    i: int,
)
    requires
        0 <= i < locales.len(),
        has_value_for(value.1, locales[i]),
        forall|j: int| 0 <= j < i ==> !has_value_for(value.1, #[trigger] locales[j]),
    ensures
        localized(value, locales) == (if value.1.contains_key(locales[i]) {
            value.1[locales[i]]
        } else {
            value.1[language_of(locales[i])]
        }),
    decreases locales.len(),
{
    lemma_language_of(locales.first());
    if i > 0 {
        let rest = locales.drop_first();
        assert(!has_value_for(value.1, locales[0]));
        assert forall|j: int| 0 <= j < i - 1 implies !has_value_for(value.1, #[trigger] rest[j]) by {
            assert(rest[j] == locales[j + 1]);
        }
        law_first_locale_with_value_is_used(value, rest, i - 1);
    }
}

/// The value for no locale is used where none of the locales has one.
pub proof fn law_value_without_locale_is_used(
    value: (Seq<char>, Map<Seq<char>, Seq<char>>),
    locales: Seq<Seq<char>>,
)
    requires
        forall|i: int| 0 <= i < locales.len() ==> !has_value_for(value.1, #[trigger] locales[i]),
    ensures
        localized(value, locales) == value.0,
    decreases locales.len(),
{
    if locales.len() > 0 {
        let rest = locales.drop_first();
        lemma_language_of(locales.first());
        assert(!has_value_for(value.1, locales[0]));
        assert forall|i: int| 0 <= i < rest.len() implies !has_value_for(
            value.1,
            #[trigger] rest[i],
        ) by {
            assert(rest[i] == locales[i + 1]);
        }
        law_value_without_locale_is_used(value, rest);
    }
}

/// Whether `pattern` stands in `path` so that it ends at `end`.
pub open spec fn ends_at(path: Seq<u8>, pattern: Seq<u8>, end: int) -> bool {
    pattern.len() <= end <= path.len() && path.subrange(end - pattern.len(), end) == pattern
}

proof fn lemma_ends_at(path: Seq<u8>, pattern: Seq<u8>)
    ensures
        match end_of_last(path, pattern) {
            Some(end) => ends_at(path, pattern, end) && forall|other: int|
                end < other ==> !ends_at(path, pattern, other),
            None => forall|other: int| !ends_at(path, pattern, other),
        },
    decreases path.len(),
{
    if pattern.is_suffix_of(path) {
        assert(path.subrange(path.len() - pattern.len(), path.len() as int) == pattern);
    } else {
        assert(!ends_at(path, pattern, path.len() as int));
        if path.len() > 0 {
            let shorter = path.drop_last();
            lemma_ends_at(shorter, pattern);
            assert forall|other: int| other < path.len() implies ends_at(path, pattern, other)
                == ends_at(shorter, pattern, other) by {
                if pattern.len() <= other {
                    assert(path.subrange(other - pattern.len(), other) == shorter.subrange(
                        other - pattern.len(),
                        other,
                    ));
                }
            }
        } else {
            assert forall|other: int| !ends_at(path, pattern, other) by {
                if ends_at(path, pattern, other) {
                    assert(other == 0);
                }
            }
        }
    }
}

/// The bytes of `/applications/`.
pub open spec fn applications_bytes() -> Seq<u8> {
    seq![
        0x2fu8, 0x61u8, 0x70u8, 0x70u8, 0x6cu8, 0x69u8, 0x63u8, 0x61u8, 0x74u8, 0x69u8, 0x6fu8,
        0x6eu8, 0x73u8, 0x2fu8,
    ]
}

/// The part of a path that makes the id of a desktop entry starts behind the last directory
/// `applications`. Without one it starts behind the last `/`, and without that it is the path.
pub proof fn law_id_part_follows_applications(path: Seq<u8>, end: int)
    ensures
        ends_at(path, applications_bytes(), end) && (forall|other: int|
            end < other ==> !ends_at(path, applications_bytes(), other)) ==> id_part(path)
            == path.skip(end),
        (forall|other: int| !ends_at(path, applications_bytes(), other)) ==> {
            &&& 0 < end <= path.len() && path[end - 1] == 0x2f && (forall|i: int|
                end <= i < path.len() ==> path[i] != 0x2f) ==> id_part(path) == path.skip(end)
            &&& !path.contains(0x2f) ==> id_part(path) == path
        },
{
    reveal_strlit("/applications/");
    reveal_strlit("/");
    assert(ascii_bytes("/applications/"@) == applications_bytes());
    assert(ascii_bytes("/"@) == seq![0x2fu8]);
    let slash = seq![0x2fu8];
    lemma_ends_at(path, applications_bytes());
    lemma_ends_at(path, slash);
    if ends_at(path, applications_bytes(), end) && (forall|other: int|
        end < other ==> !ends_at(path, applications_bytes(), other)) {
        let found = end_of_last(path, applications_bytes());
        assert(found == Some(end));
    }
    if forall|other: int| !ends_at(path, applications_bytes(), other) {
        assert(end_of_last(path, applications_bytes()) is None);
        assert forall|other: int| ends_at(path, slash, other) == (0 < other <= path.len()
            && path[other - 1] == 0x2f) by {
            if 0 < other <= path.len() {
                assert(path.subrange(other - 1, other)[0] == path[other - 1]);
                if path[other - 1] == 0x2f {
                    assert(path.subrange(other - 1, other) == slash);
                }
            }
        }
        if 0 < end <= path.len() && path[end - 1] == 0x2f && (forall|i: int|
            end <= i < path.len() ==> path[i] != 0x2f) {
            assert(ends_at(path, slash, end));
            if let Some(found) = end_of_last(path, slash) {
                if found > end {
                    assert(path[found - 1] != 0x2f);
                }
            }
        }
        if !path.contains(0x2f) {
            if let Some(found) = end_of_last(path, slash) {
                assert(path.contains(path[found - 1]));
            }
        }
    }
}

proof fn lemma_split_of_joined(parts: Seq<Seq<char>>, c: char)
    requires
        parts.len() > 0,
        forall|i: int| 0 <= i < parts.len() ==> !(#[trigger] parts[i]).contains(c),
    ensures
        split(joined(parts, seq![c]), c) == parts,
    decreases parts.len(),
{
    let first = parts.first();
    assert(first == parts[0]);
    if parts.len() == 1 {
        law_pieces_end_at_separators(first, seq![], c);
        assert(parts == seq![first]);
    } else {
        let rest = parts.drop_first();
        assert forall|i: int| 0 <= i < rest.len() implies !(#[trigger] rest[i]).contains(c) by {
            assert(rest[i] == parts[i + 1]);
        }
        assert(parts == seq![first] + rest);
        law_parts_are_joined_by_separators(seq![first], rest, first, seq![c]);
        law_pieces_end_at_separators(first, joined(rest, seq![c]), c);
        lemma_split_of_joined(rest, c);
    }
}

/// An entry declares the types that stand in its `MimeType`, with semicolons between them: all of
/// them, in their order. Without that key it declares none.
pub proof fn law_entry_declares_each_type(
    id: Seq<char>,
    path: Seq<char>,
    values: Map<Seq<char>, (Seq<char>, Map<Seq<char>, Seq<char>>)>,
    locales: Seq<Seq<char>>,
    types: Seq<Seq<char>>,
)
    requires
        types.len() > 0,
        forall|i: int| 0 <= i < types.len() ==> !(#[trigger] types[i]).contains(';'),
    ensures
        values.contains_key("MimeType"@) && values["MimeType"@].0 == joined(types, seq![';'])
            ==> fields_of(id, path, values, locales).mime_types == Some(types),
        !values.contains_key("MimeType"@) ==> fields_of(id, path, values, locales).mime_types is None,
{
    lemma_split_of_joined(types, ';');
}

/// The other fields of an entry: its id, its name for the locales, the Flatpak application that
/// it names, and the words of the command that it gives for no links and no locales.
pub proof fn law_entry_has_its_fields(
    id: Seq<char>,
    path: Seq<char>,
    values: Map<Seq<char>, (Seq<char>, Map<Seq<char>, Seq<char>>)>,
    locales: Seq<Seq<char>>,
)
    ensures
        ({
            let fields = fields_of(id, path, values, locales);
            &&& fields.appid == id
            &&& fields.name is Some <==> values.contains_key("Name"@)
            &&& fields.name matches Some(name) ==> name == localized(values["Name"@], locales)
            &&& fields.flatpak is Some <==> values.contains_key("X-Flatpak"@)
            &&& fields.flatpak matches Some(app) ==> app == values["X-Flatpak"@].0
            &&& fields.command is Some <==> command_of(path, values, seq![], seq![]) is Ok
            &&& fields.command matches Some(words) ==> command_of(path, values, seq![], seq![])
                == Ok::<Seq<Seq<char>>, Seq<char>>(words)
        }),
{
}

/// A file has fields exactly where it holds a desktop entry, and they are those of its entry.
pub proof fn law_file_has_fields_of_its_entry(
    path: Seq<char>,
    contents: Seq<char>,
    locales: Seq<Seq<char>>,
)
    ensures
        fields_in((path, contents), locales) is Some <==> decoded(path, contents, locales) is Some,
        decoded(path, contents, locales) matches Some((id, values)) ==> fields_in(
            (path, contents),
            locales,
        ) == Some(fields_of(id, path, values, locales)),
{
}

/// Whether the file at `i` holds the entry with the id `appid`.
pub open spec fn entry_is_at(
    files: Seq<(Seq<char>, Seq<char>)>,
    appid: Seq<char>,
    locales: Seq<Seq<char>>,
    i: int,
) -> bool {
    &&& 0 <= i < files.len()
    &&& decoded(files[i].0, files[i].1, locales) matches Some((id, _)) && id == appid
}

proof fn lemma_entry_at(
    files: Seq<(Seq<char>, Seq<char>)>,
    appid: Seq<char>,
    locales: Seq<Seq<char>>,
    k: int,
)
    requires
        entry_is_at(files, appid, locales, k),
        forall|j: int| 0 <= j < k ==> !entry_is_at(files, appid, locales, j),
    ensures
        decoded(files[k].0, files[k].1, locales) matches Some((_, values)) && entry_with_id(
            files,
            appid,
            locales,
        ) == Some((files[k].0, values)),
    decreases files.len(),
{
    assert(files.first() == files[0]);
    if k > 0 {
        let rest = files.drop_first();
        assert(!entry_is_at(files, appid, locales, 0));
        assert(rest[k - 1] == files[k]);
        assert forall|j: int| 0 <= j < k - 1 implies !entry_is_at(rest, appid, locales, j) by {
            assert(rest[j] == files[j + 1]);
            assert(!entry_is_at(files, appid, locales, j + 1));
        }
        lemma_entry_at(rest, appid, locales, k - 1);
    }
}

proof fn lemma_no_entry(
    files: Seq<(Seq<char>, Seq<char>)>,
    appid: Seq<char>,
    locales: Seq<Seq<char>>,
)
    requires
        forall|j: int| !entry_is_at(files, appid, locales, j),
    ensures
        entry_with_id(files, appid, locales) is None,
    decreases files.len(),
{
    if files.len() > 0 {
        let rest = files.drop_first();
        assert(files.first() == files[0]);
        assert(!entry_is_at(files, appid, locales, 0));
        assert forall|j: int| !entry_is_at(rest, appid, locales, j) by {
            if 0 <= j < rest.len() {
                assert(rest[j] == files[j + 1]);
                assert(!entry_is_at(files, appid, locales, j + 1));
            }
        }
        lemma_no_entry(rest, appid, locales);
    }
}

/// The command for an application is the one that the first entry with its id gives for the links
/// and the locales, wherever that entry stands among the files. There is none exactly where no
/// file holds an entry with the id.
pub proof fn law_first_entry_gives_the_command(
    files: Seq<(Seq<char>, Seq<char>)>,
    appid: Seq<char>,
    links: Seq<Seq<char>>,
    locales: Seq<Seq<char>>,
    k: int,
)
    ensures
        entry_is_at(files, appid, locales, k) && (forall|j: int|
            0 <= j < k ==> !entry_is_at(files, appid, locales, j)) ==> (decoded(
            files[k].0,
            files[k].1,
            locales,
        ) matches Some((_, values)) && command_for(files, appid, links, locales) == Some(
            command_of(files[k].0, values, links, locales),
        )),
        (forall|j: int| !entry_is_at(files, appid, locales, j)) ==> command_for(
            files,
            appid,
            links,
            locales,
        ) is None,
{
    if entry_is_at(files, appid, locales, k) && (forall|j: int|
        0 <= j < k ==> !entry_is_at(files, appid, locales, j)) {
        lemma_entry_at(files, appid, locales, k);
    }
    if forall|j: int| !entry_is_at(files, appid, locales, j) {
        lemma_no_entry(files, appid, locales);
    }
}

} // verus!
