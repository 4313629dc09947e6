//! What the single steps of the program on Linux make of their inputs.
use crate::desktop::{command_of, decoded, fields_in, FieldsView};
use crate::desktop_laws::{entry_is_at, law_first_entry_gives_the_command};
use crate::linux::{
    activated_by, browser_in, browser_of, browser_running, browser_view, browser_views,
    browsers_in, bytes_view, default_file_name, error_words, first_after_prefix, first_recognized,
    launch_view, launched, learned, loaded, most_recent_after, opened, recognition, recognized,
    recognized_view, shown_name, tray_menu, Browser, Event, Launch, OpenError, RecognizedBy,
};
use crate::menu::MenuItem;
use crate::messages::{NO_BROWSER_ADVICE, SET_DEFAULT_PROMPT};
use crate::paths::file_name_of;
use crate::text::{after_prefix, is_white_space, lines_of};
use crate::text_laws::{
    law_every_suffix_is_taken_off, law_file_name_is_the_last_piece,
    law_only_white_space_around_is_dropped, law_prefix_and_rest_make_the_text,
};
use vstd::prelude::*;
use vstd::utf8::{decode_utf8, valid_utf8};

verus! {

/// A list of browsers is told apart by its characters: each browser keeps its place, its id, its
/// name, and what it is recognized by.
pub proof fn law_views_keep_every_browser(browsers: Seq<Browser>)
    ensures
        browser_views(browsers).len() == browsers.len(),
        forall|i: int|
            0 <= i < browsers.len() ==> {
                let view = browser_views(browsers)[i];
                &&& view.appid == (#[trigger] browsers[i]).appid@
                &&& view.display_name == browsers[i].display_name@
                &&& match browsers[i].recognized_by {
                    RecognizedBy::Executable(name) => view.recognized_by
                        == RecognizedBy::Executable(name@),
                    RecognizedBy::FlatpakApp(name) => view.recognized_by
                        == RecognizedBy::FlatpakApp(name@),
                }
            },
{
}

/// An optional browser, what a process is recognized by, and the bytes of a path are there
/// exactly where their views are, and keep what they hold.
pub proof fn law_views_keep_optional_values(
    browser: Option<Browser>,
    by: Option<RecognizedBy>,
    path: Option<Vec<u8>>,
)
    ensures
        match browser {
            Some(browser) => browser_view(Some(browser)) == Some(browser_views(seq![browser])[0]),
            None => browser_view(browser) is None,
        },
        match by {
            Some(RecognizedBy::Executable(name)) => recognized_view(by) == Some(
                RecognizedBy::Executable(name@),
            ),
            Some(RecognizedBy::FlatpakApp(name)) => recognized_view(by) == Some(
                RecognizedBy::FlatpakApp(name@),
            ),
            None => recognized_view(by) is None,
        },
        match path {
            Some(path) => bytes_view(Some(path)) == Some(path@),
            None => bytes_view(path) is None,
        },
{
}

/// An event is told apart by its kind and its characters.
pub proof fn law_view_keeps_the_event(event: Event)
    ensures
        match event {
            Event::WindowActivated { sender: Some(sender) } => event@ == (Event::WindowActivated {
                sender: Some(sender@),
            }),
            Event::WindowActivated { sender: None } => event@ == (Event::WindowActivated {
                sender: None::<Seq<char>>,
            }),
            Event::StateChanged { state, enabled, sender: Some(sender) } => event@ == (
            Event::StateChanged { state: state@, enabled, sender: Some(sender@) }),
            Event::StateChanged { state, enabled, sender: None } => event@ == (
            Event::StateChanged { state: state@, enabled, sender: None::<Seq<char>> }),
            Event::Other => event@ is Other,
        },
{
}

/// What to start is told apart by its program and each of its arguments, and an error by its kind
/// and its characters.
pub proof fn law_view_keeps_the_launch(launch: Result<Launch, OpenError>)
    ensures
        match launch {
            Ok(launched) => launch_view(launch) matches Ok((program, arguments)) && program
                == launched.program@ && arguments.len() == launched.arguments@.len() && forall|
                i: int,
            |
                0 <= i < arguments.len() ==> arguments[i] == (#[trigger] launched.arguments@[i])@,
            Err(OpenError::NoBrowser) => launch_view(launch) matches Err(error)
                && error is NoBrowser,
            Err(OpenError::Gone { appid }) => launch_view(launch) matches Err(error) && error == (
            OpenError::Gone { appid: appid@ }),
            Err(OpenError::BadExec { appid, cause }) => launch_view(launch) matches Err(error)
                && error == (OpenError::BadExec { appid: appid@, cause: cause@ }),
            Err(OpenError::EmptyCommand) => launch_view(launch) matches Err(error)
                && error is EmptyCommand,
        },
{
}

/// A Flatpak application is recognized as such, whatever command it has.
pub proof fn law_flatpak_is_recognized_as_such(fields: FieldsView, app: Seq<char>)
    requires
        fields.flatpak == Some(app),
    ensures
        recognition(fields) == Some(RecognizedBy::FlatpakApp(app)),
{
}

/// Any other application is recognized by the file name of its program, whatever directory that
/// stands in and whatever arguments follow. Without a command, or with one that names no file, it
/// is not recognized.
pub proof fn law_program_is_recognized_by_its_file_name(
    fields: FieldsView,
    directory: Seq<char>,
    name: Seq<char>,
    arguments: Seq<Seq<char>>,
)
    requires
        fields.flatpak is None,
        !name.contains('/'),
        name.len() > 0,
        name != seq!['.'],
        name != seq!['.', '.'],
    ensures
        fields.command == Some(seq![directory + seq!['/'] + name] + arguments) ==> recognition(
            fields,
        ) == Some(RecognizedBy::Executable(name)),
        fields.command == Some(seq![name] + arguments) ==> recognition(fields) == Some(
            RecognizedBy::Executable(name),
        ),
        fields.command is None ==> recognition(fields) is None,
        fields.command matches Some(words) ==> (recognition(fields) is None <==> words.len() == 0
            || file_name_of(words[0]) is None),
{
    law_file_name_is_the_last_piece(directory, name);
    assert((seq![directory + seq!['/'] + name] + arguments)[0] == directory + seq!['/'] + name);
    assert((seq![name] + arguments)[0] == name);
}

/// An application that can be recognized and is not this program is a browser exactly where the
/// type of `http` links stands among its types, at any place. It has the id of the application,
/// its name, or the id where it has no name, and is recognized in the same way.
pub proof fn law_browser_opens_http_links(fields: FieldsView)
    ensures
        browser_of(fields) is Some <==> {
            &&& fields.appid != "overbrowsered"@
            &&& recognition(fields) is Some
            &&& fields.mime_types matches Some(types) && exists|i: int|
                0 <= i < types.len() && #[trigger] types[i] == "x-scheme-handler/http"@
        },
        browser_of(fields) matches Some(browser) ==> {
            &&& browser.appid == fields.appid
            &&& Some(browser.recognized_by) == recognition(fields)
            &&& fields.name matches Some(name) ==> browser.display_name == name
            &&& fields.name is None ==> browser.display_name == fields.appid
        },
{
    if let Some(types) = fields.mime_types {
        if exists|i: int|
            0 <= i < types.len() && #[trigger] types[i] == "x-scheme-handler/http"@ {
            let i = choose|i: int|
                0 <= i < types.len() && #[trigger] types[i] == "x-scheme-handler/http"@;
            assert(types.contains(types[i]));
        }
    }
}

/// Further types, in front or behind, never make a browser disappear or change.
pub proof fn law_further_types_keep_the_browser(
    fields: FieldsView,
    before: Seq<Seq<char>>,
    types: Seq<Seq<char>>,
    after: Seq<Seq<char>>,
)
    requires
        fields.mime_types == Some(types),
        browser_of(fields) is Some,
    ensures
        browser_of(FieldsView { mime_types: Some(before + types + after), ..fields }) == browser_of(
            fields,
        ),
{
    let all = before + types + after;
    let more = FieldsView { mime_types: Some(all), ..fields };
    law_browser_opens_http_links(fields);
    law_browser_opens_http_links(more);
    assert(recognition(more) == recognition(fields));
    let i = choose|i: int| 0 <= i < types.len() && #[trigger] types[i] == "x-scheme-handler/http"@;
    assert(all[before.len() + i] == types[i]);
}

/// The order of the types does not matter, nor how often one is listed.
pub proof fn law_order_of_types_does_not_matter(fields: FieldsView, types: Seq<Seq<char>>, other: Seq<
    Seq<char>,
>)
    requires
        fields.mime_types == Some(types),
        forall|t: Seq<char>| types.contains(t) <==> other.contains(t),
    ensures
        browser_of(FieldsView { mime_types: Some(other), ..fields }) == browser_of(fields),
{
    let changed = FieldsView { mime_types: Some(other), ..fields };
    assert(recognition(changed) == recognition(fields));
    assert(types.contains("x-scheme-handler/http"@) <==> other.contains("x-scheme-handler/http"@));
    law_browser_opens_http_links(fields);
    law_browser_opens_http_links(changed);
}

/// A file describes the browser that its entry is, and none where it holds no entry.
pub proof fn law_file_describes_its_browser(file: (Seq<char>, Seq<char>), locales: Seq<Seq<char>>)
    ensures
        fields_in(file, locales) is None ==> browser_in(file, locales) is None,
        fields_in(file, locales) matches Some(fields) ==> browser_in(file, locales) == browser_of(
            fields,
        ),
{
}

/// Each file adds its browser, if it describes one, and nothing else, and the order is that of
/// the files.
pub proof fn law_each_file_adds_its_browser(
    first: Seq<(Seq<char>, Seq<char>)>,
    second: Seq<(Seq<char>, Seq<char>)>,
    file: (Seq<char>, Seq<char>),
    locales: Seq<Seq<char>>,
)
    ensures
        browsers_in(seq![], locales).len() == 0,
        browser_in(file, locales) is None ==> browsers_in(seq![file], locales).len() == 0,
        browser_in(file, locales) matches Some(browser) ==> browsers_in(seq![file], locales)
            == seq![browser],
        browsers_in(first + second, locales) == browsers_in(first, locales) + browsers_in(
            second,
            locales,
        ),
    decreases second.len(),
{
    assert(seq![file].drop_last() == Seq::<(Seq<char>, Seq<char>)>::empty());
    assert(seq![file].last() == file);
    reveal_with_fuel(browsers_in, 2);
    if second.len() == 0 {
        assert(first + second == first);
    } else {
        assert((first + second).drop_last() == first + second.drop_last());
        assert((first + second).last() == second.last());
        law_each_file_adds_its_browser(first, second.drop_last(), file, locales);
    }
}

proof fn lemma_first_after_prefix(lines: Seq<Seq<char>>, prefix: Seq<char>, k: int)
    requires
        0 <= k <= lines.len(),
        forall|j: int| 0 <= j < k ==> after_prefix(#[trigger] lines[j], prefix) is None,
        k < lines.len() ==> after_prefix(lines[k], prefix) is Some,
    ensures
        first_after_prefix(lines, prefix) == (if k < lines.len() {
            after_prefix(lines[k], prefix)
        } else {
            None
        }),
    decreases lines.len(),
{
    if lines.len() > 0 {
        assert(lines.first() == lines[0]);
        if k > 0 {
            let rest = lines.drop_first();
            assert forall|j: int| 0 <= j < k - 1 implies after_prefix(
                #[trigger] rest[j],
                prefix,
            ) is None by {
                assert(rest[j] == lines[j + 1]);
            }
            if k < lines.len() {
                assert(rest[k - 1] == lines[k]);
            }
            lemma_first_after_prefix(rest, prefix, k - 1);
        }
    }
}

/// A process with a Flatpak description is recognized by what follows `name=` on the first line
/// that starts so, wherever that line stands, and whatever program it runs.
pub proof fn law_flatpak_process_is_recognized_by_its_name(
    info: Seq<char>,
    executable: Option<Seq<u8>>,
    app: Seq<char>,
    k: int,
)
    requires
        0 <= k < lines_of(info).len(),
        lines_of(info)[k] == "name="@ + app,
        forall|j: int| 0 <= j < k ==> !"name="@.is_prefix_of(#[trigger] lines_of(info)[j]),
    ensures
        recognized(Some(info), executable) == Some(RecognizedBy::FlatpakApp(app)),
{
    let lines = lines_of(info);
    law_prefix_and_rest_make_the_text("name="@, app, lines[k]);
    lemma_first_after_prefix(lines, "name="@, k);
}

/// A process whose Flatpak description has no such line is not recognized, whatever program it
/// runs.
pub proof fn law_flatpak_process_without_name_is_not_recognized(
    info: Seq<char>,
    executable: Option<Seq<u8>>,
)
    requires
        forall|j: int|
            0 <= j < lines_of(info).len() ==> !"name="@.is_prefix_of(#[trigger] lines_of(info)[j]),
    ensures
        recognized(Some(info), executable) is None,
{
    lemma_first_after_prefix(lines_of(info), "name="@, lines_of(info).len() as int);
}

/// Any other process is recognized by the file name of its program, exactly where there is one
/// and it is UTF-8.
pub proof fn law_process_is_recognized_by_its_program(path: Seq<u8>)
    ensures
        recognized(None, None) is None,
        match file_name_of(path) {
            Some(name) => {
                &&& valid_utf8(name) ==> recognized(None, Some(path)) == Some(
                    RecognizedBy::Executable(decode_utf8(name)),
                )
                &&& !valid_utf8(name) ==> recognized(None, Some(path)) is None
            },
            None => recognized(None, Some(path)) is None,
        },
{
}

/// A window that was activated tells its sender, and so does an object that became active. An
/// object that left that state, another state, and any other event tell none.
pub proof fn law_activation_tells_its_sender(
    sender: Option<Seq<char>>,
    state: Seq<char>,
    enabled: bool,
)
    ensures
        activated_by(Event::WindowActivated { sender }) == sender,
        activated_by(Event::StateChanged { state: "active"@, enabled: true, sender }) == sender,
        activated_by(Event::StateChanged { state, enabled: false, sender }) is None,
        state != "active"@ ==> activated_by(
            Event::StateChanged { state, enabled, sender },
        ) is None,
        activated_by(Event::Other) is None,
{
}

/// The browser that a process runs is the first installed one that is recognized by what the
/// process runs as, wherever it stands in the list.
pub proof fn law_first_recognized_browser_is_found(
    installed: Seq<Browser<Seq<char>>>,
    by: RecognizedBy<Seq<char>>,
    k: int,
)
    requires
        0 <= k < installed.len(),
        installed[k].recognized_by == by,
        forall|j: int| 0 <= j < k ==> (#[trigger] installed[j]).recognized_by != by,
    ensures
        browser_running(installed, Some(by)) == Some(installed[k]),
    decreases installed.len(),
{
    assert(installed.first() == installed[0]);
    if k > 0 {
        let rest = installed.drop_first();
        assert(rest[k - 1] == installed[k]);
        assert forall|j: int| 0 <= j < k - 1 implies (#[trigger] rest[j]).recognized_by != by by {
            assert(rest[j] == installed[j + 1]);
        }
        law_first_recognized_browser_is_found(rest, by, k - 1);
    }
}

/// No browser is found exactly where none of the installed ones is recognized by what the process
/// runs as, or the process was not recognized.
pub proof fn law_no_browser_is_found_only_where_none_is_recognized(
    installed: Seq<Browser<Seq<char>>>,
    by: RecognizedBy<Seq<char>>,
)
    ensures
        browser_running(installed, None) is None,
        browser_running(installed, Some(by)) is None <==> forall|i: int|
            0 <= i < installed.len() ==> (#[trigger] installed[i]).recognized_by != by,
{
    if exists|i: int| 0 <= i < installed.len() && (#[trigger] installed[i]).recognized_by == by {
        let i = choose|i: int|
            0 <= i < installed.len() && (#[trigger] installed[i]).recognized_by == by;
        lemma_some_is_recognized(installed, by, i);
    } else {
        lemma_none_is_recognized(installed, by);
    }
}

proof fn lemma_some_is_recognized(
    installed: Seq<Browser<Seq<char>>>,
    by: RecognizedBy<Seq<char>>,
    i: int,
)
    requires
        0 <= i < installed.len(),
        installed[i].recognized_by == by,
    ensures
        first_recognized(installed, by) is Some,
    decreases installed.len(),
{
    if installed.first().recognized_by != by {
        assert(installed.first() == installed[0]);
        assert(installed.drop_first()[i - 1] == installed[i]);
        lemma_some_is_recognized(installed.drop_first(), by, i - 1);
    }
}

proof fn lemma_none_is_recognized(
    installed: Seq<Browser<Seq<char>>>,
    by: RecognizedBy<Seq<char>>,
)
    requires
        forall|i: int| 0 <= i < installed.len() ==> (#[trigger] installed[i]).recognized_by != by,
    ensures
        first_recognized(installed, by) is None,
    decreases installed.len(),
{
    if installed.len() > 0 {
        let rest = installed.drop_first();
        assert(installed.first() == installed[0]);
        assert forall|i: int| 0 <= i < rest.len() implies (#[trigger] rest[i]).recognized_by
            != by by {
            assert(rest[i] == installed[i + 1]);
        }
        lemma_none_is_recognized(rest, by);
    }
}

/// A process that gets the focus makes the first installed browser that it is recognized as, if
/// any, the most recently used one, wherever that browser stands in the list. Its id is learned
/// exactly where it is not the most recently used one already.
pub proof fn law_focused_browser_is_learned(
    installed: Seq<Browser<Seq<char>>>,
    most_recent: Option<Seq<char>>,
    by: RecognizedBy<Seq<char>>,
    k: int,
)
    requires
        0 <= k < installed.len(),
        installed[k].recognized_by == by,
        forall|j: int| 0 <= j < k ==> (#[trigger] installed[j]).recognized_by != by,
    ensures
        most_recent_after(installed, most_recent, Some(by)) == Some(installed[k].appid),
        most_recent == Some(installed[k].appid) ==> learned(installed, most_recent, Some(by)) is None,
        most_recent != Some(installed[k].appid) ==> learned(installed, most_recent, Some(by))
            == Some(installed[k].appid),
{
    law_first_recognized_browser_is_found(installed, by, k);
}

/// A process that is no installed browser changes nothing, and nothing is learned from it.
pub proof fn law_other_process_teaches_nothing(
    installed: Seq<Browser<Seq<char>>>,
    most_recent: Option<Seq<char>>,
    running_as: Option<RecognizedBy<Seq<char>>>,
)
    requires
        forall|i: int|
            0 <= i < installed.len() ==> Some((#[trigger] installed[i]).recognized_by)
                != running_as,
    ensures
        most_recent_after(installed, most_recent, running_as) == most_recent,
        learned(installed, most_recent, running_as) is None,
{
    if let Some(by) = running_as {
        lemma_none_is_recognized(installed, by);
    }
}

/// The id that the file holds is loaded without the white space around it, and with all of its
/// own characters. A file that is not there holds none.
pub proof fn law_id_is_loaded_without_white_space(
    before: Seq<char>,
    id: Seq<char>,
    after: Seq<char>,
)
    requires
        forall|i: int| 0 <= i < before.len() ==> is_white_space(#[trigger] before[i]),
        forall|i: int| 0 <= i < after.len() ==> is_white_space(#[trigger] after[i]),
        id.len() > 0 ==> !is_white_space(id.first()) && !is_white_space(id.last()),
    ensures
        loaded(Some(before + id + after)) == Some(id),
        loaded(None) is None,
{
    law_only_white_space_around_is_dropped(before, id, after);
}

/// The desktop file of the default browser is the text without the white space around it. There
/// is none where nothing else is in the text.
pub proof fn law_default_file_is_named_without_white_space(
    before: Seq<char>,
    file: Seq<char>,
    after: Seq<char>,
)
    requires
        forall|i: int| 0 <= i < before.len() ==> is_white_space(#[trigger] before[i]),
        forall|i: int| 0 <= i < after.len() ==> is_white_space(#[trigger] after[i]),
        file.len() > 0 ==> !is_white_space(file.first()) && !is_white_space(file.last()),
    ensures
        file.len() > 0 ==> default_file_name(before + file + after) == Some(file),
        file.len() == 0 ==> default_file_name(before + file + after) is None,
{
    law_only_white_space_around_is_dropped(before, file, after);
}

proof fn lemma_shown_name(browsers: Seq<Browser<Seq<char>>>, appid: Seq<char>, k: int)
    requires
        0 <= k <= browsers.len(),
        k < browsers.len() ==> browsers[k].appid == appid,
        forall|j: int| 0 <= j < k ==> (#[trigger] browsers[j]).appid != appid,
    ensures
        shown_name(browsers, appid) == (if k < browsers.len() {
            browsers[k].display_name
        } else {
            appid
        }),
    decreases browsers.len(),
{
    if browsers.len() > 0 {
        assert(browsers.first() == browsers[0]);
        if k > 0 {
            let rest = browsers.drop_first();
            assert forall|j: int| 0 <= j < k - 1 implies (#[trigger] rest[j]).appid != appid by {
                assert(rest[j] == browsers[j + 1]);
            }
            if k < browsers.len() {
                assert(rest[k - 1] == browsers[k]);
            }
            lemma_shown_name(rest, appid, k - 1);
        }
    }
}

/// The menu shows the display name of the first installed browser with the remembered id,
/// wherever it stands in the list.
pub proof fn law_menu_shows_the_display_name(
    browsers: Seq<Browser<Seq<char>>>,
    appid: Seq<char>,
    default_handler: Option<Seq<char>>,
    k: int,
)
    requires
        0 <= k < browsers.len(),
        browsers[k].appid == appid,
        forall|j: int| 0 <= j < k ==> (#[trigger] browsers[j]).appid != appid,
    ensures
        tray_menu(browsers, Some(appid), default_handler)[2] == MenuItem::Label(
            "Most recently used browser: "@ + browsers[k].display_name,
        ),
{
    lemma_shown_name(browsers, appid, k);
    lemma_menu_lines(browsers, Some(appid), default_handler);
}

/// The menu shows the remembered id itself only where no installed browser has it, and tells so
/// where nothing is remembered.
pub proof fn law_menu_shows_the_id_of_a_browser_that_is_gone(
    browsers: Seq<Browser<Seq<char>>>,
    appid: Seq<char>,
    default_handler: Option<Seq<char>>,
)
    ensures
        (forall|j: int| 0 <= j < browsers.len() ==> (#[trigger] browsers[j]).appid != appid)
            ==> tray_menu(browsers, Some(appid), default_handler)[2] == MenuItem::Label(
            "Most recently used browser: "@ + appid,
        ),
        tray_menu(browsers, None, default_handler)[2] == MenuItem::Label(
            "Most recently used browser: "@ + "none detected yet"@,
        ),
{
    if forall|j: int| 0 <= j < browsers.len() ==> (#[trigger] browsers[j]).appid != appid {
        lemma_shown_name(browsers, appid, browsers.len() as int);
    }
    lemma_menu_lines(browsers, Some(appid), default_handler);
    lemma_menu_lines(browsers, None, default_handler);
}

proof fn lemma_menu_lines(
    browsers: Seq<Browser<Seq<char>>>,
    most_recent: Option<Seq<char>>,
    default_handler: Option<Seq<char>>,
)
    ensures
        most_recent matches Some(appid) ==> tray_menu(browsers, most_recent, default_handler)[2]
            == MenuItem::Label("Most recently used browser: "@ + shown_name(browsers, appid)),
        most_recent is None ==> tray_menu(browsers, most_recent, default_handler)[2]
            == MenuItem::Label("Most recently used browser: "@ + "none detected yet"@),
{
}

/// The menu names the desktop file of the default browser without `.desktop`, however often that
/// stands at its end, and offers to become the default. Only this program's own desktop file
/// makes it the default.
pub proof fn law_menu_names_the_default_browser(
    browsers: Seq<Browser<Seq<char>>>,
    most_recent: Option<Seq<char>>,
    name: Seq<char>,
    file: Seq<char>,
)
    requires
        !".desktop"@.is_suffix_of(name),
    ensures
        ({
            let menu = tray_menu(browsers, most_recent, Some(name + ".desktop"@));
            let line = MenuItem::Label("Default http handler: "@ + name + " ☹️"@);
            &&& name != "overbrowsered"@ ==> menu.len() == 7 && menu[3] == line && menu[4]
                == MenuItem::SetDefault(SET_DEFAULT_PROMPT@)
            &&& tray_menu(browsers, most_recent, Some(name)).len() == 7
            &&& tray_menu(browsers, most_recent, Some(name))[3] == line
        }),
        file != "overbrowsered.desktop"@ && file + ".desktop"@ != "overbrowsered.desktop"@
            ==> tray_menu(browsers, most_recent, Some(file + ".desktop"@)) == tray_menu(
            browsers,
            most_recent,
            Some(file),
        ),
{
    reveal_strlit("overbrowsered.desktop");
    reveal_strlit("overbrowsered");
    reveal_strlit(".desktop");
    let suffix = ".desktop"@;
    law_every_suffix_is_taken_off(name, suffix);
    law_every_suffix_is_taken_off(file, suffix);
    let own = "overbrowsered.desktop"@;
    assert(own == "overbrowsered"@ + suffix);
    if name + suffix == own {
        assert(name == own.take(own.len() - suffix.len()));
        assert("overbrowsered"@ == own.take(own.len() - suffix.len()));
    }
    if name == own {
        assert(own.subrange(own.len() - suffix.len(), own.len() as int) == suffix);
    }
}

/// The menu tells that this program is the default exactly where the desktop file of the default
/// browser is its own, and then makes no offer. Where none is known, it says so.
pub proof fn law_menu_tells_whether_we_are_default(
    browsers: Seq<Browser<Seq<char>>>,
    most_recent: Option<Seq<char>>,
)
    ensures
        ({
            let own = tray_menu(browsers, most_recent, Some("overbrowsered.desktop"@));
            let none = tray_menu(browsers, most_recent, None);
            &&& own.len() == 6
            &&& own[3] == MenuItem::Label("Default http handler: me 👌"@)
            &&& none.len() == 7
            &&& none[3] == MenuItem::Label("Default http handler: "@ + "not me"@ + " ☹️"@)
        }),
{
}

/// A command is started with all of its words: the program and the arguments behind it are
/// exactly the words of the command, in their order. A command without words, and one that was
/// not found, are not started.
pub proof fn law_every_word_is_started(appid: Seq<char>, words: Seq<Seq<char>>, cause: Seq<char>)
    ensures
        words.len() > 0 ==> (launched(appid, Ok(words)) matches Ok((program, arguments))
            && seq![program] + arguments == words && arguments.len() == words.len() - 1),
        words.len() == 0 ==> launched(appid, Ok(words)) == Err::<
            (Seq<char>, Seq<Seq<char>>),
            OpenError<Seq<char>>,
        >(OpenError::EmptyCommand),
        launched(appid, Err(cause)) == Err::<(Seq<char>, Seq<Seq<char>>), OpenError<Seq<char>>>(
            OpenError::BadExec { appid, cause },
        ),
{
    if words.len() > 0 {
        if let Ok((program, arguments)) = launched(appid, Ok(words)) {
            assert(seq![program] + arguments == words);
        }
    }
}

/// Opening links starts exactly the words that the first desktop entry with the remembered id
/// gives for all of the links, wherever the entry stands among the files. Where it gives no
/// command, or one without words, the error tells so.
pub proof fn law_links_are_opened_with_the_whole_command(
    links: Seq<Seq<char>>,
    appid: Seq<char>,
    files: Seq<(Seq<char>, Seq<char>)>,
    locales: Seq<Seq<char>>,
    k: int,
)
    requires
        entry_is_at(files, appid, locales, k),
        forall|j: int| 0 <= j < k ==> !entry_is_at(files, appid, locales, j),
    ensures
        decoded(files[k].0, files[k].1, locales) matches Some((_, values)) && match opened(
            links,
            Some(appid),
            files,
            locales,
        ) {
            Ok((program, arguments)) => command_of(files[k].0, values, links, locales) == Ok::<
                Seq<Seq<char>>,
                Seq<char>,
            >(seq![program] + arguments),
            Err(OpenError::BadExec { appid: id, cause }) => id == appid && command_of(
                files[k].0,
                values,
                links,
                locales,
            ) == Err::<Seq<Seq<char>>, Seq<char>>(cause),
            Err(OpenError::EmptyCommand) => command_of(files[k].0, values, links, locales) == Ok::<
                Seq<Seq<char>>,
                Seq<char>,
            >(seq![]),
            Err(_) => false,
        },
{
    law_first_entry_gives_the_command(files, appid, links, locales, k);
    if let Some((_, values)) = decoded(files[k].0, files[k].1, locales) {
        match command_of(files[k].0, values, links, locales) {
            Ok(words) => {
                law_every_word_is_started(appid, words, seq![]);
                assert(words.len() == 0 ==> words == Seq::<Seq<char>>::empty());
            },
            Err(cause) => law_every_word_is_started(appid, seq![], cause),
        }
    }
}

/// Without a remembered browser, and with one that no file describes any more, nothing is
/// started, and the error tells which.
pub proof fn law_missing_browser_opens_nothing(
    links: Seq<Seq<char>>,
    appid: Seq<char>,
    files: Seq<(Seq<char>, Seq<char>)>,
    locales: Seq<Seq<char>>,
)
    ensures
        opened(links, None, files, locales) matches Err(error) && error is NoBrowser,
        (forall|j: int| !entry_is_at(files, appid, locales, j)) ==> opened(
            links,
            Some(appid),
            files,
            locales,
        ) == Err::<(Seq<char>, Seq<Seq<char>>), OpenError<Seq<char>>>(OpenError::Gone { appid }),
{
    law_first_entry_gives_the_command(files, appid, links, locales, 0);
}

/// The words for an error name the whole id of the browser and the whole cause.
pub proof fn law_error_names_the_browser(appid: Seq<char>, cause: Seq<char>)
    ensures
        error_words(OpenError::NoBrowser) == NO_BROWSER_ADVICE@,
        error_words(OpenError::Gone { appid }) == appid
            + " seems to be gone. Focus another browser window so Overbrowsered can learn your new one, then try the link again."@,
        error_words(OpenError::BadExec { appid, cause }) == "parsing the Exec line of "@ + appid
            + ": "@ + cause,
        error_words(OpenError::EmptyCommand) == "empty launch command"@,
{
}

} // verus!
