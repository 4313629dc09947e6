//! Desktop entries: the files that describe installed applications.
use crate::encoding::{from_utf8, from_utf8_lossy, lossy_text};
use crate::text::{length_before, same, split, view_of, views};
use freedesktop_desktop_entry::{DecodeError, DesktopEntry, ExecError};
use vstd::prelude::*;
use vstd::slice::slice_subrange;
use vstd::utf8::{decode_utf8, is_ascii_chars, is_ascii_chars_encode_utf8, valid_utf8};

verus! {

/// A parsed desktop entry.
#[verifier::external_type_specification]
#[verifier::external_body]
pub struct ExDesktopEntry(DesktopEntry);

/// Why a file holds no desktop entry.
#[verifier::external_type_specification]
#[verifier::external_body]
pub struct ExDecodeError(DecodeError);

/// Why a desktop entry gives no command.
#[verifier::external_type_specification]
#[verifier::external_body]
pub struct ExExecError(ExecError);

/// The application id that a parsed desktop entry holds.
pub uninterp spec fn id_of(entry: DesktopEntry) -> Seq<char>;

/// The path that a parsed desktop entry holds.
pub uninterp spec fn path_of(entry: DesktopEntry) -> Seq<char>;

/// What a parsed desktop entry holds in its group `Desktop Entry`: for each key its value, and
/// its values for single locales.
pub uninterp spec fn values_of(entry: DesktopEntry) -> Map<
    Seq<char>,
    (Seq<char>, Map<Seq<char>, Seq<char>>),
>;

/// The words of an error about a command.
pub uninterp spec fn words_of(error: ExecError) -> Seq<char>;

/// What `DesktopEntry::from_str` makes of a file: the application id and the values of the group
/// `Desktop Entry`, or nothing where it refuses the file.
pub uninterp spec fn decoded(path: Seq<char>, contents: Seq<char>, locales: Seq<Seq<char>>) -> Option<
    (Seq<char>, Map<Seq<char>, (Seq<char>, Map<Seq<char>, Seq<char>>)>),
>;

/// What `DesktopEntry::parse_exec_with_uris` makes of an entry: the program and its arguments,
/// or the words of its error.
pub uninterp spec fn command_of(
    path: Seq<char>,
    values: Map<Seq<char>, (Seq<char>, Map<Seq<char>, Seq<char>>)>,
    links: Seq<Seq<char>>,
    locales: Seq<Seq<char>>,
) -> Result<Seq<Seq<char>>, Seq<char>>;

/// The value for the first of `locales` that has one. A locale such as `pt_BR` falls back on
/// `pt`. Where none has a value, the one for no locale.
pub open spec fn localized(
    value: (Seq<char>, Map<Seq<char>, Seq<char>>),
    locales: Seq<Seq<char>>,
) -> Seq<char>
    decreases locales.len(),
{
    if locales.len() == 0 {
        value.0
    } else {
        let locale = locales.first();
        let language = locale.take(length_before(locale, '_') as int);
        if value.1.contains_key(locale) {
            value.1[locale]
        } else if value.1.contains_key(language) {
            value.1[language]
        } else {
            localized(value, locales.drop_first())
        }
    }
}

/// The path of the desktop entry `id` in the directory `applications` under `directory`.
pub open spec fn path_in_applications(directory: Seq<char>, id: Seq<char>) -> Seq<char> {
    directory + "/applications/"@ + id + ".desktop"@
}

/// Calls `DesktopEntry::from_str`, which keeps the values for `locales` only. Trusted, for paths
/// as Unix reads them: whether it succeeds, the id and the values depend on the arguments alone;
/// the entry holds the path that it was given; and a file right in a directory `applications`
/// has its name, without `.desktop`, for its id.
#[verifier::external_body]
fn from_str(path: &str, contents: &str, locales: &Vec<String>) -> (entry: Result<
    DesktopEntry,
    DecodeError,
>)
    ensures
        match entry {
            Ok(entry) => {
                &&& decoded(path@, contents@, views(locales@)) == Some(
                    (id_of(entry), values_of(entry)),
                )
                &&& path_of(entry) == path@
            },
            Err(_) => decoded(path@, contents@, views(locales@)) is None,
        },
        forall|directory: Seq<char>, id: Seq<char>|
            path@ == #[trigger] path_in_applications(directory, id) && !id.contains('/') ==> (
            entry matches Ok(entry) ==> id_of(entry) == id),
{
    DesktopEntry::from_str(path, contents, Some(locales))
}

/// Reads the field `DesktopEntry::appid`. Trusted: it is the id that the entry holds.
#[verifier::external_body]
fn appid(entry: &DesktopEntry) -> (id: String)
    ensures
        id@ == id_of(*entry),
{
    entry.appid.clone()
}

/// Calls `DesktopEntry::mime_type`. Trusted: it gives the value of `MimeType`, where there is
/// one, split at each semicolon.
#[verifier::external_body]
fn mime_type(entry: &DesktopEntry) -> (types: Option<Vec<String>>)
    ensures
        match types {
            Some(types) => {
                &&& values_of(*entry).contains_key("MimeType"@)
                &&& views(types@) == split(values_of(*entry)["MimeType"@].0, ';')
            },
            None => !values_of(*entry).contains_key("MimeType"@),
        },
{
    entry.mime_type().map(|types| types.into_iter().map(str::to_owned).collect())
}

/// Calls `DesktopEntry::name`. Trusted: it gives the value of `Name`, where there is one, for the
/// first of `locales` that has its own. (The crate is built without its feature `gettext`, which
/// would look for translations outside the entry.)
#[verifier::external_body]
fn name(entry: &DesktopEntry, locales: &Vec<String>) -> (name: Option<String>)
    ensures
        match name {
            Some(name) => {
                &&& values_of(*entry).contains_key("Name"@)
                &&& name@ == localized(values_of(*entry)["Name"@], views(locales@))
            },
            None => !values_of(*entry).contains_key("Name"@),
        },
{
    entry.name(locales).map(|name| name.into_owned())
}

/// Calls `DesktopEntry::flatpak`. Trusted: it gives the value of `X-Flatpak`, where there is one.
#[verifier::external_body]
fn flatpak(entry: &DesktopEntry) -> (app: Option<String>)
    ensures
        match app {
            Some(app) => {
                &&& values_of(*entry).contains_key("X-Flatpak"@)
                &&& app@ == values_of(*entry)["X-Flatpak"@].0
            },
            None => !values_of(*entry).contains_key("X-Flatpak"@),
        },
{
    entry.flatpak().map(str::to_owned)
}

/// Calls `DesktopEntry::parse_exec`. Trusted: it gives what `parse_exec_with_uris` gives for no
/// links and no locales.
#[verifier::external_body]
fn parse_exec(entry: &DesktopEntry) -> (command: Result<Vec<String>, ExecError>)
    ensures
        match command {
            Ok(command) => command_of(path_of(*entry), values_of(*entry), seq![], seq![]) == Ok::<
                Seq<Seq<char>>,
                Seq<char>,
            >(views(command@)),
            Err(error) => command_of(path_of(*entry), values_of(*entry), seq![], seq![]) == Err::<
                Seq<Seq<char>>,
                Seq<char>,
            >(words_of(error)),
        },
{
    entry.parse_exec()
}

/// Calls `DesktopEntry::parse_exec_with_uris`. Trusted: the result depends on the path and the
/// values of the entry, on the links and on the locales alone, again without `gettext`.
#[verifier::external_body]
fn parse_exec_with_uris(entry: &DesktopEntry, links: &Vec<String>, locales: &Vec<String>) -> (command:
    Result<Vec<String>, ExecError>)
    ensures
        match command {
            Ok(command) => command_of(
                path_of(*entry),
                values_of(*entry),
                views(links@),
                views(locales@),
            ) == Ok::<Seq<Seq<char>>, Seq<char>>(views(command@)),
            Err(error) => command_of(
                path_of(*entry),
                values_of(*entry),
                views(links@),
                views(locales@),
            ) == Err::<Seq<Seq<char>>, Seq<char>>(words_of(error)),
        },
{
    let links: Vec<&str> = links.iter().map(String::as_str).collect();
    entry.parse_exec_with_uris(&links, locales)
}

/// Writes an `ExecError` out, as its `Display` does. Trusted: the words depend on the error
/// alone.
#[verifier::external_body]
fn exec_error_words(error: &ExecError) -> (words: String)
    ensures
        words@ == words_of(*error),
{
    error.to_string()
}

/// The bytes of text whose characters are ASCII.
pub open spec fn ascii_bytes(text: Seq<char>) -> Seq<u8> {
    text.map_values(|c: char| c as u8)
}

/// Where the last `pattern` in `path` ends.
pub open spec fn end_of_last(path: Seq<u8>, pattern: Seq<u8>) -> Option<int>
    decreases path.len(),
{
    if pattern.is_suffix_of(path) {
        Some(path.len() as int)
    } else if path.len() == 0 {
        None
    } else {
        end_of_last(path.drop_last(), pattern)
    }
}

/// The part of the path of a desktop entry that makes its id: what follows the last directory
/// `applications`, or the file name where there is no such directory.
pub open spec fn id_part(path: Seq<u8>) -> Seq<u8> {
    match end_of_last(path, ascii_bytes("/applications/"@)) {
        Some(end) => path.skip(end),
        None => match end_of_last(path, ascii_bytes("/"@)) {
            Some(end) => path.skip(end),
            None => path,
        },
    }
}

/// Where the last `pattern` in `path` ends. The pattern must be ASCII.
fn find_end_of_last(path: &Vec<u8>, pattern: &str) -> (end: Option<usize>)
    requires
        is_ascii_chars(pattern@),
    ensures
        match end {
            Some(end) => end <= path@.len() && end_of_last(path@, ascii_bytes(pattern@)) == Some(
                end as int,
            ),
            None => end_of_last(path@, ascii_bytes(pattern@)) is None,
        },
{
    let bytes: &[u8] = pattern.as_bytes();
    let size: usize = bytes.len();
    proof {
        is_ascii_chars_encode_utf8(pattern@);
        assert(bytes@ == ascii_bytes(pattern@));
        assert(path@.take(path@.len() as int) == path@);
    }
    let mut end: usize = path.len();
    loop
        invariant
            end <= path@.len(),
            size == bytes@.len(),
            bytes@ == ascii_bytes(pattern@),
            end_of_last(path@, bytes@) == end_of_last(path@.take(end as int), bytes@),
        decreases end,
    {
        let ghost part = path@.take(end as int);
        if size <= end {
            let mut i: usize = 0;
            while i < size && path[end - size + i] == bytes[i]
                invariant
                    i <= size <= end <= path@.len(),
                    size == bytes@.len(),
                    forall|j: int| 0 <= j < i ==> path@[end - size + j] == bytes@[j],
                decreases size - i,
            {
                i = i + 1;
            }
            if i == size {
                assert(part.subrange(end - size, end as int) == bytes@);
                assert(bytes@.is_suffix_of(part));
                return Some(end);
            }
            assert(part.subrange(end - size, end as int)[i as int] != bytes@[i as int]);
        }
        assert(!bytes@.is_suffix_of(part));
        if end == 0 {
            return None;
        }
        assert(part.drop_last() == path@.take(end - 1));
        end = end - 1;
    }
}

/// The path of a desktop entry as text. The part that makes the id must be UTF-8, but the
/// directories above it need not be.
pub fn entry_path(path: &Vec<u8>) -> (text: Option<String>)
    ensures
        match text {
            Some(text) => {
                &&& valid_utf8(id_part(path@))
                &&& text@ == lossy_text(path@)
                &&& valid_utf8(path@) ==> text@ == decode_utf8(path@)
            },
            None => !valid_utf8(id_part(path@)),
        },
{
    proof {
        reveal_strlit("/applications/");
        reveal_strlit("/");
    }
    let start: usize = match find_end_of_last(path, "/applications/") {
        Some(end) => end,
        None => match find_end_of_last(path, "/") {
            Some(end) => end,
            None => 0,
        },
    };
    assert(path@.subrange(start as int, path@.len() as int) == id_part(path@));
    match from_utf8(slice_subrange(path.as_slice(), start, path.len())) {
        Some(_) => Some(from_utf8_lossy(path)),
        None => None,
    }
}

/// A file that may hold a desktop entry.
#[derive(Debug)]
pub struct DesktopFile {
    pub path: String,
    pub contents: String,
}

impl View for DesktopFile {
    type V = (Seq<char>, Seq<char>);

    open spec fn view(&self) -> (Seq<char>, Seq<char>) {
        (self.path@, self.contents@)
    }
}

/// The paths and contents of a list of files.
pub open spec fn file_views(files: Seq<DesktopFile>) -> Seq<(Seq<char>, Seq<char>)> {
    files.map_values(|file: DesktopFile| file@)
}

/// What tells whether an application is a browser, and how its windows are recognized.
#[derive(Debug)]
pub struct Fields {
    pub appid: String,
    /// The types of content and links that it opens.
    pub mime_types: Option<Vec<String>>,
    pub name: Option<String>,
    /// The Flatpak application that it is.
    pub flatpak: Option<String>,
    /// The program that it starts, with its arguments.
    pub command: Option<Vec<String>>,
}

/// The characters in a `Fields`.
pub struct FieldsView {
    pub appid: Seq<char>,
    pub mime_types: Option<Seq<Seq<char>>>,
    pub name: Option<Seq<char>>,
    pub flatpak: Option<Seq<char>>,
    pub command: Option<Seq<Seq<char>>>,
}

/// The characters of an optional list of strings.
pub open spec fn list_view(list: Option<Vec<String>>) -> Option<Seq<Seq<char>>> {
    match list {
        Some(list) => Some(views(list@)),
        None => None,
    }
}

impl View for Fields {
    type V = FieldsView;

    open spec fn view(&self) -> FieldsView {
        FieldsView {
            appid: self.appid@,
            mime_types: list_view(self.mime_types),
            name: view_of(self.name),
            flatpak: view_of(self.flatpak),
            command: list_view(self.command),
        }
    }
}

/// The fields of an entry with the given id, path and values.
pub open spec fn fields_of(
    id: Seq<char>,
    path: Seq<char>,
    values: Map<Seq<char>, (Seq<char>, Map<Seq<char>, Seq<char>>)>,
    locales: Seq<Seq<char>>,
) -> FieldsView {
    FieldsView {
        appid: id,
        mime_types: if values.contains_key("MimeType"@) {
            Some(split(values["MimeType"@].0, ';'))
        } else {
            None
        },
        name: if values.contains_key("Name"@) {
            Some(localized(values["Name"@], locales))
        } else {
            None
        },
        flatpak: if values.contains_key("X-Flatpak"@) {
            Some(values["X-Flatpak"@].0)
        } else {
            None
        },
        command: match command_of(path, values, seq![], seq![]) {
            Ok(command) => Some(command),
            Err(_) => None,
        },
    }
}

/// The fields of a file, where it holds a desktop entry.
pub open spec fn fields_in(file: (Seq<char>, Seq<char>), locales: Seq<Seq<char>>) -> Option<
    FieldsView,
> {
    match decoded(file.0, file.1, locales) {
        Some((id, values)) => Some(fields_of(id, file.0, values, locales)),
        None => None,
    }
}

/// Reads the fields of the desktop entry in `file`, or gives `None` where it holds none.
pub fn read_fields(file: &DesktopFile, locales: &Vec<String>) -> (fields: Option<Fields>)
    ensures
        match fields {
            Some(fields) => fields_in(file@, views(locales@)) == Some(fields@),
            None => fields_in(file@, views(locales@)) is None,
        },
        forall|directory: Seq<char>, id: Seq<char>|
            file.path@ == #[trigger] path_in_applications(directory, id) && !id.contains('/') ==> (
            fields matches Some(fields) ==> fields.appid@ == id),
{
    match from_str(file.path.as_str(), file.contents.as_str(), locales) {
        Ok(entry) => Some(
            Fields {
                appid: appid(&entry),
                mime_types: mime_type(&entry),
                name: name(&entry, locales),
                flatpak: flatpak(&entry),
                command: match parse_exec(&entry) {
                    Ok(command) => Some(command),
                    Err(_) => None,
                },
            },
        ),
        Err(_) => None,
    }
}

/// The path and the values of the first entry in `files` whose id is `appid`.
pub open spec fn entry_with_id(
    files: Seq<(Seq<char>, Seq<char>)>,
    appid: Seq<char>,
    locales: Seq<Seq<char>>,
) -> Option<(Seq<char>, Map<Seq<char>, (Seq<char>, Map<Seq<char>, Seq<char>>)>)>
    decreases files.len(),
{
    if files.len() == 0 {
        None
    } else {
        match decoded(files.first().0, files.first().1, locales) {
            Some((id, values)) if id == appid => Some((files.first().0, values)),
            _ => entry_with_id(files.drop_first(), appid, locales),
        }
    }
}

/// The command that opens `links` with the application `appid`: nothing where no entry in
/// `files` has this id, and the words of the error where its entry gives no command.
pub open spec fn command_for(
    files: Seq<(Seq<char>, Seq<char>)>,
    appid: Seq<char>,
    links: Seq<Seq<char>>,
    locales: Seq<Seq<char>>,
) -> Option<Result<Seq<Seq<char>>, Seq<char>>> {
    match entry_with_id(files, appid, locales) {
        Some((path, values)) => Some(command_of(path, values, links, locales)),
        None => None,
    }
}

/// The characters of a command, or of the words that stand in its place.
pub open spec fn command_view(command: Result<Vec<String>, String>) -> Result<
    Seq<Seq<char>>,
    Seq<char>,
> {
    match command {
        Ok(command) => Ok(views(command@)),
        Err(words) => Err(words@),
    }
}

/// Finds the command that opens `links` with the application `appid`.
pub fn find_command(
    files: &Vec<DesktopFile>,
    id: &str,
    links: &Vec<String>,
    locales: &Vec<String>,
) -> (command: Option<Result<Vec<String>, String>>)
    ensures
        match command {
            Some(command) => command_for(
                file_views(files@),
                id@,
                views(links@),
                views(locales@),
            ) == Some(command_view(command)),
            None => command_for(
                file_views(files@),
                id@,
                views(links@),
                views(locales@),
            ) is None,
        },
{
    assert(file_views(files@).skip(0) == file_views(files@));
    for i in 0..files.len()
        invariant
            entry_with_id(file_views(files@), id@, views(locales@)) == entry_with_id(
                file_views(files@).skip(i as int),
                id@,
                views(locales@),
            ),
    {
        let file: &DesktopFile = &files[i];
        let ghost rest = file_views(files@).skip(i as int);
        assert(rest.first() == file@);
        assert(rest.drop_first() == file_views(files@).skip(i + 1));
        if let Ok(entry) = from_str(file.path.as_str(), file.contents.as_str(), locales) {
            if same(appid(&entry).as_str(), id) {
                return Some(
                    match parse_exec_with_uris(&entry, links, locales) {
                        Ok(command) => Ok(command),
                        Err(error) => Err(exec_error_words(&error)),
                    },
                );
            }
        }
    }
    None
}

} // verus!
