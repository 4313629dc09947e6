//! What the single steps of the program on Windows make of their inputs.
use crate::encoding::lowercase;
use crate::menu::MenuItem;
use crate::messages::{NO_BROWSER_ADVICE, SET_DEFAULT_PROMPT};
use crate::numbers::hexadecimal_of;
use crate::text_laws::{law_hexadecimal_stands_for_the_number, value_of};
use crate::windows::{
    application_views, browser_of, browser_ref_view, browser_view, browser_views,
    browser_with_path, browser_with_window, browsers_among, display_name_of, first_with_path,
    learned, name_with_id, program_of, tray_menu, window_views, ApplicationView, Browser,
    RegisteredApplication, Window,
};
use crate::windows_laws::{
    first_failure, law_equal_reasons_are_given_once,
    law_first_browser_that_opens_all_links_is_remembered, law_remembered_browser_comes_second,
    law_topmost_browser_comes_first, lemma_after, outcome, performed,
};
use crate::windows_messages::{
    choice_of, instance_of, number_of, reaction_to, restart_failure,
};
use crate::windows_open::{
    candidate_view, candidates_of, launch_failure, lemma_settled, started, topmost_view, Action,
    Opening, Progress,
};
use crate::windows_registration::{
    first_of, icon_location_of, registration, shell_command_of, units_of, units_of_char,
    value_views, Data, RegistryValue,
};
use vstd::arithmetic::power::{lemma_pow1, lemma_pow_adds, pow};
use vstd::prelude::*;

verus! {

/// A list of browsers is told apart by its characters: each browser keeps its place, its id, its
/// name and its path.
pub proof fn law_views_keep_every_browser(browsers: Seq<Browser>, browser: Browser)
    ensures
        browser_views(browsers).len() == browsers.len(),
        forall|i: int|
            0 <= i < browsers.len() ==> {
                let view = browser_views(browsers)[i];
                &&& view.program_id == (#[trigger] browsers[i]).program_id@
                &&& view.display_name == browsers[i].display_name@
                &&& view.executable_path == browsers[i].executable_path@
            },
        browser_view(None) is None,
        browser_ref_view(None) is None,
        browser_view(Some(browser)) == Some(browser_views(seq![browser])[0]),
        browser_ref_view(Some(&browser)) == Some(browser_views(seq![browser])[0]),
{
}

/// A list of applications is told apart by its characters: each application keeps its place and
/// what the registry says of it.
pub proof fn law_views_keep_every_application(applications: Seq<RegisteredApplication>)
    ensures
        application_views(applications).len() == applications.len(),
        forall|i: int|
            0 <= i < applications.len() ==> {
                let view = application_views(applications)[i];
                let application = #[trigger] applications[i];
                &&& view.name == application.name@
                &&& view.http_handler is Some <==> application.http_handler is Some
                &&& application.http_handler matches Some(id) ==> view.http_handler == Some(id@)
                &&& view.application_name is Some <==> application.application_name is Some
                &&& application.application_name matches Some(name) ==> view.application_name
                    == Some(name@)
                &&& view.command is Some <==> application.command is Some
                &&& application.command matches Some(words) ==> (view.command matches Some(all)
                    && all.len() == words@.len() && forall|j: int|
                    0 <= j < words@.len() ==> all[j] == (#[trigger] words@[j])@)
            },
{
}

/// A list of windows is told apart by which of them are visible, and by their programs.
pub proof fn law_views_keep_every_window(windows: Seq<Window>)
    ensures
        window_views(windows).len() == windows.len(),
        forall|i: int|
            0 <= i < windows.len() ==> {
                let view = window_views(windows)[i];
                let window = #[trigger] windows[i];
                &&& view.0 == window.visible
                &&& view.1 is Some <==> window.executable is Some
                &&& window.executable matches Some(path) ==> view.1 == Some(path@)
            },
{
}

/// Actions and what is known of the topmost browser are told apart by their kinds and their
/// characters.
pub proof fn law_views_keep_actions(
    action: Action,
    topmost: Result<Option<String>, String>,
)
    ensures
        match action {
            Action::Launch { link, program_id } => action@ == (Action::Launch {
                link: link@,
                program_id: program_id@,
            }),
            Action::Save { program_id } => action@ == (Action::Save { program_id: program_id@ }),
            Action::Fail { message } => action@ == (Action::Fail { message: message@ }),
        },
        match topmost {
            Ok(Some(id)) => topmost_view(topmost) == Ok::<Option<Seq<char>>, Seq<char>>(Some(id@)),
            Ok(None) => topmost_view(topmost) == Ok::<Option<Seq<char>>, Seq<char>>(None),
            Err(reason) => topmost_view(topmost) == Err::<Option<Seq<char>>, Seq<char>>(reason@),
        },
{
}

/// The opening of links is told apart by its links, its candidates, its counts and its failures.
pub proof fn law_view_keeps_the_opening(opening: Opening)
    ensures
        opening@.tried == opening.tried,
        opening@.opened == opening.opened,
        opening@.links.len() == opening.links@.len(),
        forall|i: int|
            0 <= i < opening.links@.len() ==> opening@.links[i] == (#[trigger] opening.links@[i])@,
        opening@.failures.len() == opening.failures@.len(),
        forall|i: int|
            0 <= i < opening.failures@.len() ==> opening@.failures[i] == (
            #[trigger] opening.failures@[i])@,
        opening@.candidates.len() == opening.candidates@.len(),
        forall|i: int|
            0 <= i < opening.candidates@.len() ==> match #[trigger] opening.candidates@[i] {
                Ok(id) => opening@.candidates[i] == Ok::<Seq<char>, Seq<char>>(id@),
                Err(reason) => opening@.candidates[i] == Err::<Seq<char>, Seq<char>>(reason@),
            },
{
    assert forall|i: int| 0 <= i < opening.candidates@.len() implies opening@.candidates[i]
        == candidate_view(#[trigger] opening.candidates@[i]) by {
    }
}

/// A list of registry values is told apart by the keys, the names and what the values hold.
pub proof fn law_views_keep_every_value(values: Seq<RegistryValue>)
    ensures
        value_views(values).len() == values.len(),
        forall|i: int|
            0 <= i < values.len() ==> {
                let view = value_views(values)[i];
                let value = #[trigger] values[i];
                &&& view.key == value.key@
                &&& view.name == value.name@
                &&& match value.data {
                    Data::Text(text) => view.data == Data::<Seq<char>, Seq<u16>>::Text(text@),
                    Data::Wide(units) => view.data == Data::<Seq<char>, Seq<u16>>::Wide(units@),
                }
            },
{
}

/// The program of a command is its first word, whatever words follow and however many. Without a
/// command, or with one without words, there is no program.
pub proof fn law_program_is_the_first_word(
    application: ApplicationView,
    program: Seq<char>,
    rest: Seq<Seq<char>>,
)
    ensures
        program_of(
            ApplicationView { command: Some(seq![program] + rest), ..application },
        ) == Some(program),
        program_of(ApplicationView { command: Some(seq![]), ..application }) is None,
        program_of(ApplicationView { command: None, ..application }) is None,
{
    assert((seq![program] + rest)[0] == program);
}

/// An application is shown under the name that it gives itself, unless that starts with `@`, and
/// under the one that it is listed under otherwise.
pub proof fn law_application_is_shown_under_its_own_name(
    application: ApplicationView,
    name: Seq<char>,
    rest: Seq<char>,
)
    ensures
        name.len() == 0 || name.first() != '@' ==> display_name_of(
            ApplicationView { application_name: Some(name), ..application },
        ) == name,
        display_name_of(
            ApplicationView { application_name: Some(seq!['@'] + rest), ..application },
        ) == application.name,
        display_name_of(ApplicationView { application_name: None, ..application })
            == application.name,
{
    assert((seq!['@'] + rest)[0] == '@');
}

/// An application is a browser exactly where it opens `http` links under an id other than this
/// program's, and its command has a first word. Its program is that word, in lower case, whatever
/// words follow.
pub proof fn law_application_with_program_is_a_browser(
    application: ApplicationView,
    id: Seq<char>,
    program: Seq<char>,
    rest: Seq<Seq<char>>,
)
    requires
        id != "Overbrowsered.Url"@,
    ensures
        browser_of(
            ApplicationView {
                http_handler: Some(id),
                command: Some(seq![program] + rest),
                ..application
            },
        ) == Some(
            Browser {
                program_id: id,
                display_name: display_name_of(application),
                executable_path: lowercase(program),
            },
        ),
        browser_of(ApplicationView { http_handler: None, ..application }) is None,
        browser_of(
            ApplicationView { http_handler: Some("Overbrowsered.Url"@), ..application },
        ) is None,
        browser_of(ApplicationView { command: None, ..application }) is None,
        browser_of(ApplicationView { command: Some(seq![]), ..application }) is None,
{
    law_program_is_the_first_word(
        ApplicationView { http_handler: Some(id), ..application },
        program,
        rest,
    );
}

/// A browser with a known path has that path, and there is none where no path is known.
pub proof fn law_registered_browser_has_its_path(
    application: ApplicationView,
    id: Seq<char>,
    path: Seq<char>,
)
    requires
        application.http_handler == Some(id),
    ensures
        id != "Overbrowsered.Url"@ ==> browser_with_path(application, Some(path)) == Some(
            Browser {
                program_id: id,
                display_name: display_name_of(application),
                executable_path: path,
            },
        ),
        id == "Overbrowsered.Url"@ ==> browser_with_path(application, Some(path)) is None,
        browser_with_path(application, None) is None,
        browser_with_path(
            ApplicationView { http_handler: None, ..application },
            Some(path),
        ) is None,
{
}

/// Each application adds the browser that it is, if it is one, and nothing else, and the order is
/// that of the applications.
pub proof fn law_each_application_adds_its_browser(
    first: Seq<ApplicationView>,
    second: Seq<ApplicationView>,
    application: ApplicationView,
)
    ensures
        browsers_among(seq![]).len() == 0,
        browser_of(application) is None ==> browsers_among(seq![application]).len() == 0,
        browser_of(application) matches Some(browser) ==> browsers_among(seq![application])
            == seq![browser],
        browsers_among(first + second) == browsers_among(first) + browsers_among(second),
    decreases second.len(),
{
    assert(seq![application].drop_last() == Seq::<ApplicationView>::empty());
    assert(seq![application].last() == application);
    reveal_with_fuel(browsers_among, 2);
    if second.len() == 0 {
        assert(first + second == first);
    } else {
        assert((first + second).drop_last() == first + second.drop_last());
        assert((first + second).last() == second.last());
        law_each_application_adds_its_browser(first, second.drop_last(), application);
    }
}

proof fn lemma_first_with_path(installed: Seq<Browser<Seq<char>>>, path: Seq<char>, k: int)
    requires
        0 <= k <= installed.len(),
        k < installed.len() ==> installed[k].executable_path == path,
        forall|j: int| 0 <= j < k ==> (#[trigger] installed[j]).executable_path != path,
    ensures
        first_with_path(installed, path) == (if k < installed.len() {
            Some(installed[k])
        } else {
            None
        }),
    decreases installed.len(),
{
    if installed.len() > 0 {
        assert(installed.first() == installed[0]);
        if k > 0 {
            let rest = installed.drop_first();
            assert forall|j: int| 0 <= j < k - 1 implies (#[trigger] rest[j]).executable_path
                != path by {
                assert(rest[j] == installed[j + 1]);
            }
            if k < installed.len() {
                assert(rest[k - 1] == installed[k]);
            }
            lemma_first_with_path(rest, path, k - 1);
        }
    }
}

/// A window belongs to the first installed browser whose path is that of the window's program in
/// lower case, wherever that browser stands in the list.
pub proof fn law_window_belongs_to_the_first_browser_with_its_path(
    installed: Seq<Browser<Seq<char>>>,
    path: Seq<char>,
    k: int,
)
    requires
        0 <= k < installed.len(),
        installed[k].executable_path == lowercase(path),
        forall|j: int| 0 <= j < k ==> (#[trigger] installed[j]).executable_path != lowercase(path),
    ensures
        browser_with_window(installed, Some(path)) == Some(installed[k]),
        first_with_path(installed, lowercase(path)) == Some(installed[k]),
{
    lemma_first_with_path(installed, lowercase(path), k);
}

/// A window belongs to no browser where no installed one has its path, or its program is not
/// known.
pub proof fn law_window_of_another_program_belongs_to_no_browser(
    installed: Seq<Browser<Seq<char>>>,
    path: Seq<char>,
    lower: Seq<char>,
)
    ensures
        (forall|j: int|
            0 <= j < installed.len() ==> (#[trigger] installed[j]).executable_path != lowercase(
                path,
            )) ==> browser_with_window(installed, Some(path)) is None,
        (forall|j: int|
            0 <= j < installed.len() ==> (#[trigger] installed[j]).executable_path != lower)
            ==> first_with_path(installed, lower) is None,
        browser_with_window(installed, None) is None,
{
    if forall|j: int|
        0 <= j < installed.len() ==> (#[trigger] installed[j]).executable_path != lowercase(path) {
        lemma_first_with_path(installed, lowercase(path), installed.len() as int);
    }
    if forall|j: int|
        0 <= j < installed.len() ==> (#[trigger] installed[j]).executable_path != lower {
        lemma_first_with_path(installed, lower, installed.len() as int);
    }
}

/// The first browser with a path is found by that path, wherever it stands in the list.
pub proof fn law_browser_is_found_by_its_path(
    installed: Seq<Browser<Seq<char>>>,
    path: Seq<char>,
    k: int,
)
    requires
        0 <= k < installed.len(),
        installed[k].executable_path == path,
        forall|j: int| 0 <= j < k ==> (#[trigger] installed[j]).executable_path != path,
    ensures
        first_with_path(installed, path) == Some(installed[k]),
{
    lemma_first_with_path(installed, path, k);
}

/// The browser of the window in the foreground is learned exactly where it is not remembered
/// already, and nothing is learned from a window that belongs to no browser.
pub proof fn law_browser_in_foreground_is_learned(
    installed: Seq<Browser<Seq<char>>>,
    most_recent: Option<Seq<char>>,
    path: Seq<char>,
    k: int,
)
    ensures
        0 <= k < installed.len() && installed[k].executable_path == lowercase(path) && (forall|
            j: int,
        |
            0 <= j < k ==> (#[trigger] installed[j]).executable_path != lowercase(path)) ==> {
            &&& most_recent == Some(installed[k].program_id) ==> learned(
                installed,
                most_recent,
                Some(path),
            ) is None
            &&& most_recent != Some(installed[k].program_id) ==> learned(
                installed,
                most_recent,
                Some(path),
            ) == Some(installed[k].program_id)
        },
        (forall|j: int|
            0 <= j < installed.len() ==> (#[trigger] installed[j]).executable_path != lowercase(
                path,
            )) ==> learned(installed, most_recent, Some(path)) is None,
        learned(installed, most_recent, None) is None,
{
    law_window_of_another_program_belongs_to_no_browser(installed, path, path);
    if 0 <= k < installed.len() && installed[k].executable_path == lowercase(path) && (forall|j: int|
        0 <= j < k ==> (#[trigger] installed[j]).executable_path != lowercase(path)) {
        law_window_belongs_to_the_first_browser_with_its_path(installed, path, k);
    }
}

proof fn lemma_name_with_id(installed: Seq<Browser<Seq<char>>>, id: Seq<char>, k: int)
    requires
        0 <= k <= installed.len(),
        k < installed.len() ==> installed[k].program_id == id,
        forall|j: int| 0 <= j < k ==> (#[trigger] installed[j]).program_id != id,
    ensures
        name_with_id(installed, id) == (if k < installed.len() {
            Some(installed[k].display_name)
        } else {
            None
        }),
    decreases installed.len(),
{
    if installed.len() > 0 {
        assert(installed.first() == installed[0]);
        if k > 0 {
            let rest = installed.drop_first();
            assert forall|j: int| 0 <= j < k - 1 implies (#[trigger] rest[j]).program_id != id by {
                assert(rest[j] == installed[j + 1]);
            }
            if k < installed.len() {
                assert(rest[k - 1] == installed[k]);
            }
            lemma_name_with_id(rest, id, k - 1);
        }
    }
}

/// The menu shows the display name of the first installed browser with the remembered id,
/// wherever it stands in the list, and the id itself only where no browser has it.
pub proof fn law_menu_shows_the_remembered_browser(
    installed: Seq<Browser<Seq<char>>>,
    id: Seq<char>,
    default_handler: Option<Seq<char>>,
    k: int,
)
    ensures
        0 <= k < installed.len() && installed[k].program_id == id && (forall|j: int|
            0 <= j < k ==> (#[trigger] installed[j]).program_id != id) ==> tray_menu(
            installed,
            Some(id),
            default_handler,
        )[2] == MenuItem::Label("Most recently used browser: "@ + installed[k].display_name),
        (forall|j: int| 0 <= j < installed.len() ==> (#[trigger] installed[j]).program_id != id)
            ==> tray_menu(installed, Some(id), default_handler)[2] == MenuItem::Label(
            "Most recently used browser: "@ + id,
        ),
        tray_menu(installed, None, default_handler)[2] == MenuItem::Label(
            "Most recently used browser: "@ + "none detected yet"@,
        ),
{
    if 0 <= k < installed.len() && installed[k].program_id == id && (forall|j: int|
        0 <= j < k ==> (#[trigger] installed[j]).program_id != id) {
        lemma_name_with_id(installed, id, k);
    }
    if forall|j: int| 0 <= j < installed.len() ==> (#[trigger] installed[j]).program_id != id {
        lemma_name_with_id(installed, id, installed.len() as int);
    }
}

/// The menu names the program that opens links by default: this program, the first installed
/// browser with its id, or just another one. It makes its offer in all cases but the first.
pub proof fn law_menu_names_the_default_browser(
    installed: Seq<Browser<Seq<char>>>,
    most_recent: Option<Seq<char>>,
    id: Seq<char>,
    k: int,
)
    requires
        id != "Overbrowsered.Url"@,
    ensures
        ({
            let own = tray_menu(installed, most_recent, Some("Overbrowsered.Url"@));
            let other = tray_menu(installed, most_recent, Some(id));
            let none = tray_menu(installed, most_recent, None);
            &&& own.len() == 6
            &&& own[3] == MenuItem::Label("Default http handler: me 👌"@)
            &&& other.len() == 7
            &&& other[4] == MenuItem::SetDefault(SET_DEFAULT_PROMPT@)
            &&& 0 <= k < installed.len() && installed[k].program_id == id && (forall|j: int|
                0 <= j < k ==> (#[trigger] installed[j]).program_id != id) ==> other[3]
                == MenuItem::Label(
                "Default http handler: "@ + installed[k].display_name + " ☹️"@,
            )
            &&& (forall|j: int|
                0 <= j < installed.len() ==> (#[trigger] installed[j]).program_id != id)
                ==> other[3] == none[3]
            &&& none.len() == 7
            &&& none[3] == MenuItem::Label("Default http handler: "@ + "not me"@ + " ☹️"@)
        }),
{
    if 0 <= k < installed.len() && installed[k].program_id == id && (forall|j: int|
        0 <= j < k ==> (#[trigger] installed[j]).program_id != id) {
        lemma_name_with_id(installed, id, k);
    }
    if forall|j: int| 0 <= j < installed.len() ==> (#[trigger] installed[j]).program_id != id {
        lemma_name_with_id(installed, id, installed.len() as int);
    }
}

/// Two browsers are tried: the one of the topmost window, then the remembered one, whatever their
/// ids. In place of one that is not known stands the reason.
pub proof fn law_topmost_and_remembered_browsers_are_tried(
    id: Seq<char>,
    reason: Seq<char>,
    topmost: Result<Option<Seq<char>>, Seq<char>>,
    remembered: Option<Seq<char>>,
)
    ensures
        candidates_of(topmost, remembered).len() == 2,
        candidates_of(Ok(Some(id)), remembered)[0] == Ok::<Seq<char>, Seq<char>>(id),
        candidates_of(Ok(None), remembered)[0] == Err::<Seq<char>, Seq<char>>(
            "no browser window is open"@,
        ),
        candidates_of(Err(reason), remembered)[0] == Err::<Seq<char>, Seq<char>>(reason),
        candidates_of(topmost, Some(id))[1] == Ok::<Seq<char>, Seq<char>>(id),
        candidates_of(topmost, None)[1] == Err::<Seq<char>, Seq<char>>(NO_BROWSER_ADVICE@),
{
}

/// The words for a link that did not open hold the whole link, the whole id and the whole cause.
pub proof fn law_failure_names_link_browser_and_cause(
    link: Seq<char>,
    program_id: Seq<char>,
    cause: Seq<char>,
)
    ensures
        launch_failure(link, program_id, cause) == "opening "@ + link + " with "@ + program_id
            + ": "@ + cause,
{
}

/// Once the opening of links has come to its end, nothing changes it any more.
pub proof fn law_finished_opening_stays_finished(progress: Progress, cause: Option<Seq<char>>)
    requires
        !(progress.action() is Launch),
    ensures
        progress.after(cause) == progress,
{
}

/// What is launched, in order, when each action is performed in turn, where `cause` tells why a
/// link does not open under an id.
pub open spec fn launches(
    progress: Progress,
    cause: spec_fn(Seq<char>, Seq<char>) -> Option<Seq<char>>,
) -> Seq<(Seq<char>, Seq<char>)>
    decreases
            progress.candidates.len() - progress.tried,
            progress.links.len() - progress.opened,
    when progress.valid()
{
    match progress.action() {
        Action::Launch { link, program_id } => {
            proof {
                lemma_after(progress, cause(link, program_id));
            }
            seq![(link, program_id)] + launches(progress.after(cause(link, program_id)), cause)
        },
        _ => seq![],
    }
}

/// The links that are tried with a browser: each in turn, up to the first that does not open.
pub open spec fn tried_with(
    links: Seq<Seq<char>>,
    program_id: Seq<char>,
    cause: spec_fn(Seq<char>, Seq<char>) -> Option<Seq<char>>,
) -> Seq<(Seq<char>, Seq<char>)>
    decreases links.len(),
{
    if links.len() == 0 {
        seq![]
    } else if cause(links.first(), program_id) is Some {
        seq![(links.first(), program_id)]
    } else {
        seq![(links.first(), program_id)] + tried_with(links.drop_first(), program_id, cause)
    }
}

/// Whether all of `links` open under an id.
pub open spec fn all_open(
    links: Seq<Seq<char>>,
    program_id: Seq<char>,
    cause: spec_fn(Seq<char>, Seq<char>) -> Option<Seq<char>>,
) -> bool {
    forall|i: int| 0 <= i < links.len() ==> cause(#[trigger] links[i], program_id) is None
}

/// What is launched with the candidates from `tried` on.
pub open spec fn launches_with(
    links: Seq<Seq<char>>,
    candidates: Seq<Result<Seq<char>, Seq<char>>>,
    tried: int,
    cause: spec_fn(Seq<char>, Seq<char>) -> Option<Seq<char>>,
) -> Seq<(Seq<char>, Seq<char>)>
    decreases candidates.len() - tried,
{
    if 0 <= tried < candidates.len() {
        match candidates[tried] {
            Err(_) => launches_with(links, candidates, tried + 1, cause),
            Ok(id) => tried_with(links, id, cause) + (if all_open(links, id, cause) {
                seq![]
            } else {
                launches_with(links, candidates, tried + 1, cause)
            }),
        }
    } else {
        seq![]
    }
}

proof fn lemma_settled_launches(
    progress: Progress,
    cause: spec_fn(Seq<char>, Seq<char>) -> Option<Seq<char>>,
)
    requires
        0 <= progress.tried <= progress.candidates.len(),
    ensures
        launches_with(progress.links, progress.candidates, progress.settled().tried, cause)
            == launches_with(progress.links, progress.candidates, progress.tried, cause),
    decreases progress.candidates.len() - progress.tried,
{
    if progress.tried < progress.candidates.len() {
        if let Err(reason) = progress.candidates[progress.tried] {
            lemma_settled_launches(
                Progress {
                    tried: progress.tried + 1,
                    failures: progress.failures.push(reason),
                    ..progress
                },
                cause,
            );
        }
    }
}

proof fn lemma_launches(
    progress: Progress,
    cause: spec_fn(Seq<char>, Seq<char>) -> Option<Seq<char>>,
)
    requires
        progress.valid(),
    ensures
        progress.tried >= progress.candidates.len() ==> launches(progress, cause).len() == 0,
        progress.tried < progress.candidates.len() ==> ({
            let id = progress.candidates[progress.tried]->Ok_0;
            let rest = progress.links.skip(progress.opened);
            launches(progress, cause) == tried_with(rest, id, cause) + (if all_open(
                rest,
                id,
                cause,
            ) {
                seq![]
            } else {
                launches_with(progress.links, progress.candidates, progress.tried + 1, cause)
            })
        }),
    decreases
            progress.candidates.len() - progress.tried,
            progress.links.len() - progress.opened,
{
    if let Action::Launch { link, program_id } = progress.action() {
        let rest = progress.links.skip(progress.opened);
        let shorter = progress.links.skip(progress.opened + 1);
        assert(rest.first() == link);
        assert(rest[0] == link);
        assert(rest.drop_first() == shorter);
        let next = progress.after(cause(link, program_id));
        lemma_after(progress, cause(link, program_id));
        lemma_launches(next, cause);
        match cause(link, program_id) {
            Some(why) => {
                assert(!all_open(rest, program_id, cause));
                let failed = Progress {
                    tried: progress.tried + 1,
                    opened: 0,
                    failures: progress.failures.push(launch_failure(link, program_id, why)),
                    ..progress
                };
                lemma_settled(failed);
                lemma_settled_launches(failed, cause);
                assert(next.links.skip(0) == next.links);
                assert(launches(next, cause) == launches_with(
                    progress.links,
                    progress.candidates,
                    progress.tried + 1,
                    cause,
                ));
            },
            None => {
                assert(forall|i: int|
                    0 <= i < shorter.len() ==> #[trigger] shorter[i] == rest[i + 1]);
                assert(forall|i: int|
                    1 <= i < rest.len() ==> #[trigger] rest[i] == shorter[i - 1]);
                assert(all_open(rest, program_id, cause) == all_open(shorter, program_id, cause))
                    by {
                    if all_open(rest, program_id, cause) {
                        assert forall|i: int| 0 <= i < shorter.len() implies cause(
                            #[trigger] shorter[i],
                            program_id,
                        ) is None by {
                            assert(cause(rest[i + 1], program_id) is None);
                        }
                    }
                }
                let tail = if all_open(rest, program_id, cause) {
                    seq![]
                } else {
                    launches_with(progress.links, progress.candidates, progress.tried + 1, cause)
                };
                assert(seq![(link, program_id)] + (tried_with(shorter, program_id, cause) + tail)
                    == seq![(link, program_id)] + tried_with(shorter, program_id, cause) + tail);
            },
        }
    } else {
        if progress.tried < progress.candidates.len() {
            assert(progress.links.skip(progress.opened) == Seq::<Seq<char>>::empty());
        }
    }
}

/// Each link is handed to the browser of the topmost window once, in order, up to the first that
/// does not open. Only then, or where there is no such browser, all of the links are handed to
/// the remembered browser in the same way, from the first one on.
pub proof fn law_links_are_launched_in_order(
    links: Seq<Seq<char>>,
    first: Seq<char>,
    second: Seq<char>,
    topmost: Result<Option<Seq<char>>, Seq<char>>,
    cause: spec_fn(Seq<char>, Seq<char>) -> Option<Seq<char>>,
)
    ensures
        launches(started(links, Ok(Some(first)), Some(second)), cause) == tried_with(
            links,
            first,
            cause,
        ) + (if all_open(links, first, cause) {
            seq![]
        } else {
            tried_with(links, second, cause)
        }),
        launches(started(links, Ok(Some(first)), None), cause) == tried_with(links, first, cause),
        !(topmost matches Ok(Some(_))) ==> {
            &&& launches(started(links, topmost, Some(second)), cause) == tried_with(
                links,
                second,
                cause,
            )
            &&& launches(started(links, topmost, None), cause).len() == 0
        },
{
    lemma_started_launches(links, Ok(Some(first)), Some(second), cause);
    lemma_started_launches(links, Ok(Some(first)), None, cause);
    lemma_started_launches(links, topmost, Some(second), cause);
    lemma_started_launches(links, topmost, None, cause);
    reveal_with_fuel(launches_with, 3);
}

proof fn lemma_started_launches(
    links: Seq<Seq<char>>,
    topmost: Result<Option<Seq<char>>, Seq<char>>,
    remembered: Option<Seq<char>>,
    cause: spec_fn(Seq<char>, Seq<char>) -> Option<Seq<char>>,
)
    ensures
        launches(started(links, topmost, remembered), cause) == launches_with(
            links,
            candidates_of(topmost, remembered),
            0,
            cause,
        ),
{
    let first = Progress {
        links,
        candidates: candidates_of(topmost, remembered),
        tried: 0,
        opened: 0,
        failures: seq![],
    };
    lemma_settled(first);
    lemma_settled_launches(first, cause);
    lemma_launches(first.settled(), cause);
    assert(links.skip(0) == links);
}

/// Where all links open under an id, each of them is tried once, in order. Otherwise each is,
/// from the first one up to the first that does not open, and none behind it.
pub proof fn law_links_are_tried_up_to_the_first_failure(
    links: Seq<Seq<char>>,
    program_id: Seq<char>,
    cause: spec_fn(Seq<char>, Seq<char>) -> Option<Seq<char>>,
    k: int,
)
    requires
        0 <= k <= links.len(),
        forall|j: int| 0 <= j < k ==> cause(#[trigger] links[j], program_id) is None,
        k < links.len() ==> cause(links[k], program_id) is Some,
    ensures
        tried_with(links, program_id, cause).len() == (if k < links.len() {
            k + 1
        } else {
            k
        }),
        forall|i: int|
            0 <= i < tried_with(links, program_id, cause).len() ==> (#[trigger] tried_with(
                links,
                program_id,
                cause,
            )[i]) == (links[i], program_id),
    decreases links.len(),
{
    if links.len() > 0 {
        assert(links.first() == links[0]);
        if k > 0 {
            let rest = links.drop_first();
            assert forall|j: int| 0 <= j < k - 1 implies cause(
                #[trigger] rest[j],
                program_id,
            ) is None by {
                assert(rest[j] == links[j + 1]);
            }
            if k < links.len() {
                assert(rest[k - 1] == links[k]);
            }
            law_links_are_tried_up_to_the_first_failure(rest, program_id, cause, k - 1);
            let all = tried_with(links, program_id, cause);
            assert forall|i: int| 0 <= i < all.len() implies (#[trigger] all[i]) == (
                links[i],
                program_id,
            ) by {
                if i > 0 {
                    assert(all[i] == tried_with(rest, program_id, cause)[i - 1]);
                    assert(rest[i - 1] == links[i]);
                }
            }
        }
    }
}

/// Why a browser that was to be tried failed: the reason that stands in its place, or the words
/// for the first link that it could not open.
pub open spec fn fails_with(
    links: Seq<Seq<char>>,
    candidate: Result<Seq<char>, Seq<char>>,
    cause: spec_fn(Seq<char>, Seq<char>) -> Option<Seq<char>>,
    reason: Seq<char>,
) -> bool {
    match candidate {
        Err(why) => reason == why,
        Ok(id) => exists|k: int|
            {
                &&& 0 <= k < links.len()
                &&& (cause(#[trigger] links[k], id) matches Some(why) && reason == launch_failure(
                    links[k],
                    id,
                    why,
                ))
                &&& all_open(links.take(k), id, cause)
            },
    }
}

proof fn lemma_first_failure(
    links: Seq<Seq<char>>,
    id: Seq<char>,
    cause: spec_fn(Seq<char>, Seq<char>) -> Option<Seq<char>>,
    k: int,
)
    requires
        0 <= k <= links.len(),
        forall|j: int| 0 <= j < k ==> cause(#[trigger] links[j], id) is None,
        k < links.len() ==> cause(links[k], id) is Some,
    ensures
        k == links.len() ==> first_failure(links, id, cause) is None,
        k < links.len() ==> first_failure(links, id, cause) == Some(
            launch_failure(links[k], id, cause(links[k], id)->Some_0),
        ),
    decreases links.len(),
{
    if links.len() > 0 {
        assert(links.first() == links[0]);
        if k > 0 {
            let rest = links.drop_first();
            assert forall|j: int| 0 <= j < k - 1 implies cause(#[trigger] rest[j], id) is None by {
                assert(rest[j] == links[j + 1]);
            }
            if k < links.len() {
                assert(rest[k - 1] == links[k]);
            }
            lemma_first_failure(rest, id, cause, k - 1);
        }
    }
}

proof fn lemma_fails_with(
    links: Seq<Seq<char>>,
    id: Seq<char>,
    cause: spec_fn(Seq<char>, Seq<char>) -> Option<Seq<char>>,
    reason: Seq<char>,
)
    requires
        fails_with(links, Ok(id), cause, reason),
    ensures
        first_failure(links, id, cause) == Some(reason),
{
    let k = choose|k: int|
        {
            &&& 0 <= k < links.len()
            &&& (cause(#[trigger] links[k], id) matches Some(why) && reason == launch_failure(
                links[k],
                id,
                why,
            ))
            &&& all_open(links.take(k), id, cause)
        };
    assert forall|j: int| 0 <= j < k implies cause(#[trigger] links[j], id) is None by {
        assert(links.take(k)[j] == links[j]);
    }
    lemma_first_failure(links, id, cause, k);
}

/// The browser of the topmost window is the one to remember where all links open with it. Where
/// they do not, or there is none, it is the remembered browser, where all links open with that.
pub proof fn law_browser_that_opens_all_links_is_saved(
    links: Seq<Seq<char>>,
    first: Seq<char>,
    second: Seq<char>,
    topmost: Result<Option<Seq<char>>, Seq<char>>,
    remembered: Option<Seq<char>>,
    cause: spec_fn(Seq<char>, Seq<char>) -> Option<Seq<char>>,
    reason: Seq<char>,
)
    ensures
        all_open(links, first, cause) ==> performed(
            started(links, Ok(Some(first)), remembered),
            cause,
        ) == (Action::Save { program_id: first }),
        fails_with(links, candidates_of(topmost, None)[0], cause, reason) && all_open(
            links,
            second,
            cause,
        ) ==> performed(started(links, topmost, Some(second)), cause) == (Action::Save {
            program_id: second,
        }),
{
    if all_open(links, first, cause) {
        lemma_first_failure(links, first, cause, links.len() as int);
        law_topmost_browser_comes_first(links, first, remembered, cause);
    }
    if fails_with(links, candidates_of(topmost, None)[0], cause, reason) && all_open(
        links,
        second,
        cause,
    ) {
        if let Ok(Some(id)) = topmost {
            lemma_fails_with(links, id, cause, reason);
        }
        lemma_first_failure(links, second, cause, links.len() as int);
        law_remembered_browser_comes_second(links, topmost, second, cause);
    }
}

/// Where neither browser opens all links, the message gives the reasons for both, in order, and
/// just one where they are the same.
pub proof fn law_message_gives_the_reasons_for_both(
    links: Seq<Seq<char>>,
    topmost: Result<Option<Seq<char>>, Seq<char>>,
    remembered: Option<Seq<char>>,
    cause: spec_fn(Seq<char>, Seq<char>) -> Option<Seq<char>>,
    first: Seq<char>,
    second: Seq<char>,
)
    requires
        fails_with(links, candidates_of(topmost, remembered)[0], cause, first),
        fails_with(links, candidates_of(topmost, remembered)[1], cause, second),
    ensures
        performed(started(links, topmost, remembered), cause) == (Action::Fail {
            message: "Overbrowsered could not open the link.\n\n"@ + (if first == second {
                first
            } else {
                first + "\n\n"@ + second
            }),
        }),
{
    let candidates = candidates_of(topmost, remembered);
    if let Ok(id) = candidates[0] {
        lemma_fails_with(links, id, cause, first);
    }
    if let Ok(id) = candidates[1] {
        lemma_fails_with(links, id, cause, second);
    }
    law_first_browser_that_opens_all_links_is_remembered(links, topmost, remembered, cause);
    law_equal_reasons_are_given_once(first, second);
    reveal_with_fuel(outcome, 3);
    let rest = candidates.drop_first();
    assert(candidates.first() == candidates[0]);
    assert(rest.first() == candidates[1]);
    assert(rest.drop_first() == Seq::<Result<Seq<char>, Seq<char>>>::empty());
    assert(Seq::<Seq<char>>::empty().push(first).push(second) == seq![first, second]);
}

/// A click on the tray icon, with either button of the mouse, shows the menu, whatever the upper
/// half of the parameter holds. Any other message of the tray icon is ignored.
pub proof fn law_click_shows_the_menu(click: u32, upper: int, taskbar_created: Option<u32>)
    ensures
        (reaction_to(0x8000, upper * 0x1_0000_0000 + click, taskbar_created) is ShowMenu) <==> (
        click == 0x202 || click == 0x205),
        (reaction_to(0x8000, upper * 0x1_0000_0000 + click, taskbar_created) is Ignore) <==> !(
        click == 0x202 || click == 0x205),
{
    assert((upper * 0x1_0000_0000 + click) % 0x1_0000_0000 == click) by (nonlinear_arith)
        requires
            0 <= click < 0x1_0000_0000,
    ;
}

/// The message that the window goes away ends the program. A message other than those gets the
/// tray icon back exactly where it has the number for a new taskbar, and is passed on otherwise.
pub proof fn law_other_messages(message: u32, lparam: int, taskbar_created: Option<u32>)
    ensures
        reaction_to(2, lparam, taskbar_created) is Quit,
        message != 0x8000 && message != 2 ==> {
            &&& reaction_to(message, lparam, Some(message)) is RestoreTrayIcon
            &&& taskbar_created != Some(message) ==> reaction_to(
                message,
                lparam,
                taskbar_created,
            ) is PassOn
        },
{
}

/// Only items that can be clicked have a number, and only their numbers make a choice.
pub proof fn law_only_numbers_of_items_are_choices<S>(
    item: MenuItem<S>,
    quit: S,
    offer: S,
    chosen: Option<i32>,
)
    ensures
        number_of(item) is Some <==> item is SetDefault || item is Quit,
        choice_of(chosen) is Quit <==> (number_of(MenuItem::Quit(quit)) matches Some(number)
            && chosen == Some(number as i32)),
        choice_of(chosen) is OpenSettings <==> (number_of(MenuItem::SetDefault(offer)) matches Some(
            number,
        ) && chosen == Some(number as i32)),
{
}

/// Another instance runs exactly where the mutex was given and existed already, which has the
/// error number 183. Without the mutex nothing is known.
pub proof fn law_existing_mutex_means_another_instance(last_error: u32)
    ensures
        instance_of(false, last_error) is Unknown,
        instance_of(true, 183) is Another,
        last_error != 183 ==> instance_of(true, last_error) is Only,
{
}

/// A registration for restart failed exactly where its result is negative. The words end with
/// eight hexadecimal digits that stand for the result as an unsigned number.
pub proof fn law_failed_restart_registration_tells_its_result(result: i32)
    ensures
        result >= 0 ==> restart_failure(result) is None,
        result < 0 ==> (restart_failure(result) matches Some(words) && exists|digits: Seq<char>|
            {
                &&& words == "RegisterApplicationRestart failed with HRESULT 0x"@ + digits
                &&& digits.len() == 8
                &&& #[trigger] value_of(digits, 16) == result + 0x1_0000_0000
            }),
{
    if result < 0 {
        let n = (result + 0x1_0000_0000) as nat;
        law_hexadecimal_stands_for_the_number(n, 8);
        lemma_pow1(16);
        lemma_pow_adds(16, 1, 1);
        lemma_pow_adds(16, 2, 2);
        lemma_pow_adds(16, 4, 4);
        assert(pow(16, 2) == 0x100) by (nonlinear_arith)
            requires
                pow(16, 1) == 16,
                pow(16, 2) == pow(16, 1) * pow(16, 1),
        ;
        assert(pow(16, 4) == 0x1_0000) by (nonlinear_arith)
            requires
                pow(16, 2) == 0x100,
                pow(16, 4) == pow(16, 2) * pow(16, 2),
        ;
        assert(pow(16, 8) == 0x1_0000_0000) by (nonlinear_arith)
            requires
                pow(16, 4) == 0x1_0000,
                pow(16, 8) == pow(16, 4) * pow(16, 4),
        ;
        assert(value_of(hexadecimal_of(n, 8), 16) == result + 0x1_0000_0000);
    }
}

/// A character within the first 0x10000 is its own unit. Any other is a pair of surrogates that
/// tell its number.
pub proof fn law_units_tell_the_character(c: char)
    ensures
        c <= '\u{ffff}' ==> units_of_char(c).len() == 1 && units_of_char(c)[0] as int == c as int,
        c > '\u{ffff}' ==> {
            &&& units_of_char(c).len() == 2
            &&& 0xd800 <= units_of_char(c)[0] < 0xdc00
            &&& 0xdc00 <= units_of_char(c)[1] < 0xe000
            &&& 0x10000 + (units_of_char(c)[0] - 0xd800) * 0x400 + (units_of_char(c)[1] - 0xdc00)
                == c as int
        },
{
}

/// The units of a text are those of its characters, one after the other.
pub proof fn law_units_follow_the_characters(text: Seq<char>, c: char)
    ensures
        units_of(seq![]).len() == 0,
        units_of(text.push(c)) == units_of(text) + units_of_char(c),
{
    assert(text.push(c).drop_last() == text);
}

/// The command that opens a link and the place of the icon hold the whole path of the program, in
/// quotes, whatever it is. Behind it stand the quoted `%1`, and the number of the icon.
pub proof fn law_path_is_quoted(executable: Seq<u16>)
    ensures
        shell_command_of(executable) == seq![0x22u16] + executable + seq![
            0x22u16, 0x20u16, 0x22u16, 0x25u16, 0x31u16, 0x22u16,
        ],
        icon_location_of(executable) == seq![0x22u16] + executable + seq![
            0x22u16, 0x2cu16, 0x30u16,
        ],
{
    reveal_strlit("\"");
    reveal_strlit("\" \"%1\"");
    reveal_strlit("\",0");
    reveal_with_fuel(units_of, 7);
    assert(units_of("\""@) == seq![0x22u16]);
    assert(units_of("\" \"%1\""@) == seq![
        0x22u16, 0x20u16, 0x22u16, 0x25u16, 0x31u16, 0x22u16,
    ]);
    assert(units_of("\",0"@) == seq![0x22u16, 0x2cu16, 0x30u16]);
}

/// The registration writes fifteen values, and only the commands and the places of the icon
/// depend on the path of the program. They stand at the class and at the client, and the icon
/// among the capabilities too.
pub proof fn law_registration_writes_its_values(executable: Seq<u16>, other: Seq<u16>)
    ensures
        ({
            let values = registration(executable);
            let class = "Software\\Classes\\Overbrowsered.Url"@;
            let client = "Software\\Clients\\StartMenuInternet\\Overbrowsered"@;
            let capabilities =
                "Software\\Clients\\StartMenuInternet\\Overbrowsered\\Capabilities"@;
            let command = Data::<Seq<char>, Seq<u16>>::Wide(shell_command_of(executable));
            let icon = Data::<Seq<char>, Seq<u16>>::Wide(icon_location_of(executable));
            &&& values.len() == 15
            &&& values[1] == (RegistryValue {
                key: class + "\\shell\\open\\command"@,
                name: ""@,
                data: command,
            })
            &&& values[2] == (RegistryValue {
                key: class + "\\DefaultIcon"@,
                name: ""@,
                data: icon,
            })
            &&& values[4] == (RegistryValue {
                key: client + "\\shell\\open\\command"@,
                name: ""@,
                data: command,
            })
            &&& values[5] == (RegistryValue {
                key: client + "\\DefaultIcon"@,
                name: ""@,
                data: icon,
            })
            &&& values[8] == (RegistryValue {
                key: capabilities,
                name: "ApplicationIcon"@,
                data: icon,
            })
            &&& forall|i: int|
                0 <= i < 15 && i != 1 && i != 2 && i != 4 && i != 5 && i != 8
                    ==> #[trigger] values[i] == registration(other)[i] && values[i].data is Text
        }),
{
}

/// The first of two texts that is there is taken, whatever the other one is.
pub proof fn law_first_text_that_is_there_is_taken(text: Seq<char>, other: Option<Seq<char>>)
    ensures
        first_of(Some(text), other) == Some(text),
        first_of(None, other) == other,
{
}

} // verus!
