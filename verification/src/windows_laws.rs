//! What holds of the program on Windows as a whole.
use crate::encoding::lowercase;
use crate::text::{deduplicated, joined, trimmed};
use crate::windows::{
    browser_of, browser_with_window, browsers_among, first_with_path, learned, program_of, topmost,
    ApplicationView, Browser, OUR_PROGRAM_ID,
};
use crate::windows_open::{
    candidates_of, launch_failure, lemma_settled, open_failure, started, Action, Progress,
};
use crate::windows_registration::{
    first_of, lemma_units_of_concat, registration, shell_command_of, text_value, units_of, Data,
    RegistryValue, APPLICATIONS_KEY, CAPABILITIES_KEY, CLASS_KEY, CLIENT_KEY, HTTP_CHOICE_KEY,
    MOST_RECENT_BROWSER, SETTINGS_KEY,
};
use vstd::prelude::*;

verus! {

/// Why a browser cannot open all of `links`: the words for the first one that it cannot open,
/// where `cause` tells why a link does not open under an id.
pub open spec fn first_failure(
    links: Seq<Seq<char>>,
    program_id: Seq<char>,
    cause: spec_fn(Seq<char>, Seq<char>) -> Option<Seq<char>>,
) -> Option<Seq<char>>
    decreases links.len(),
{
    if links.len() == 0 {
        None
    } else {
        match cause(links.first(), program_id) {
            Some(cause) => Some(launch_failure(links.first(), program_id, cause)),
            None => first_failure(links.drop_first(), program_id, cause),
        }
    }
}

/// How opening links ends with the browsers to try, after the given failures: the first browser
/// that opens all links is remembered.
pub open spec fn outcome(
    links: Seq<Seq<char>>,
    candidates: Seq<Result<Seq<char>, Seq<char>>>,
    failures: Seq<Seq<char>>,
    cause: spec_fn(Seq<char>, Seq<char>) -> Option<Seq<char>>,
) -> Action<Seq<char>>
    decreases candidates.len(),
{
    if candidates.len() == 0 {
        Action::Fail { message: open_failure(failures) }
    } else {
        match candidates.first() {
            Err(reason) => outcome(links, candidates.drop_first(), failures.push(reason), cause),
            Ok(program_id) => match first_failure(links, program_id, cause) {
                None => Action::Save { program_id },
                Some(failure) => outcome(
                    links,
                    candidates.drop_first(),
                    failures.push(failure),
                    cause,
                ),
            },
        }
    }
}

/// How opening links ends when each action is performed in turn, where `cause` tells why a link
/// does not open under an id.
pub open spec fn performed(
    progress: Progress,
    cause: spec_fn(Seq<char>, Seq<char>) -> Option<Seq<char>>,
) -> Action<Seq<char>>
    decreases
            progress.candidates.len() - progress.tried,
            progress.links.len() - progress.opened,
    when progress.valid()
{
    match progress.action() {
        Action::Launch { link, program_id } => {
            proof {
                lemma_after(progress, cause(link, program_id));
            }
            performed(progress.after(cause(link, program_id)), cause)
        },
        action => action,
    }
}

/// Each link that is tried brings the opening of links nearer to its end.
pub proof fn lemma_after(progress: Progress, cause: Option<Seq<char>>)
    requires
        progress.valid(),
        progress.action() is Launch,
    ensures
        progress.after(cause).valid(),
        progress.after(cause).links == progress.links,
        progress.after(cause).candidates == progress.candidates,
        progress.after(cause).tried > progress.tried || (progress.after(cause).tried
            == progress.tried && progress.after(cause).opened > progress.opened),
{
    if let (Some(cause), Action::Launch { link, program_id }) = (cause, progress.action()) {
        lemma_settled(
            Progress {
                tried: progress.tried + 1,
                opened: 0,
                failures: progress.failures.push(launch_failure(link, program_id, cause)),
                ..progress
            },
        );
    }
}

/// Passing over candidates that are no browsers does not change the outcome.
proof fn lemma_settled_outcome(
    progress: Progress,
    cause: spec_fn(Seq<char>, Seq<char>) -> Option<Seq<char>>,
)
    requires
        0 <= progress.tried <= progress.candidates.len(),
    ensures
        outcome(
            progress.links,
            progress.settled().candidates.skip(progress.settled().tried),
            progress.settled().failures,
            cause,
        ) == outcome(
            progress.links,
            progress.candidates.skip(progress.tried),
            progress.failures,
            cause,
        ),
    decreases progress.candidates.len() - progress.tried,
{
    if progress.tried < progress.candidates.len() {
        let rest = progress.candidates.skip(progress.tried);
        assert(rest.first() == progress.candidates[progress.tried]);
        assert(rest.drop_first() == progress.candidates.skip(progress.tried + 1));
        if let Err(reason) = progress.candidates[progress.tried] {
            lemma_settled_outcome(
                Progress {
                    tried: progress.tried + 1,
                    failures: progress.failures.push(reason),
                    ..progress
                },
                cause,
            );
        }
    }
}

/// From anywhere on the way, the current browser is remembered if it opens the links that are
/// left, and else the outcome is that of the other browsers.
proof fn lemma_performed(
    progress: Progress,
    cause: spec_fn(Seq<char>, Seq<char>) -> Option<Seq<char>>,
)
    requires
        progress.valid(),
    ensures
        progress.tried >= progress.candidates.len() ==> performed(progress, cause) == outcome(
            progress.links,
            seq![],
            progress.failures,
            cause,
        ),
        progress.tried < progress.candidates.len() ==> ({
            let program_id = progress.candidates[progress.tried]->Ok_0;
            performed(progress, cause) == match first_failure(
                progress.links.skip(progress.opened),
                program_id,
                cause,
            ) {
                None => Action::Save { program_id },
                Some(failure) => outcome(
                    progress.links,
                    progress.candidates.skip(progress.tried + 1),
                    progress.failures.push(failure),
                    cause,
                ),
            }
        }),
    decreases
            progress.candidates.len() - progress.tried,
            progress.links.len() - progress.opened,
{
    if let Action::Launch { link, program_id } = progress.action() {
        let rest = progress.links.skip(progress.opened);
        assert(rest.first() == link);
        assert(rest.drop_first() == progress.links.skip(progress.opened + 1));
        let next = progress.after(cause(link, program_id));
        lemma_after(progress, cause(link, program_id));
        lemma_performed(next, cause);
        if let Some(why) = cause(link, program_id) {
            let failed = Progress {
                tried: progress.tried + 1,
                opened: 0,
                failures: progress.failures.push(launch_failure(link, program_id, why)),
                ..progress
            };
            lemma_settled(failed);
            lemma_settled_outcome(failed, cause);
            if next.tried < next.candidates.len() {
                let others = next.candidates.skip(next.tried);
                assert(others.first() == next.candidates[next.tried]);
                assert(others.drop_first() == next.candidates.skip(next.tried + 1));
                assert(next.links.skip(0) == next.links);
            } else {
                assert(next.candidates.skip(next.tried) == Seq::<Result<Seq<char>, Seq<char>>>::empty());
            }
        }
    } else {
        if progress.tried < progress.candidates.len() {
            assert(progress.links.skip(progress.opened) == Seq::<Seq<char>>::empty());
        }
    }
}

/// Links are opened with the browser of the topmost window, or else with the remembered one, and
/// the browser that opened all of them is the one to remember. Where neither can open them, the
/// message gives the reasons for both.
pub proof fn law_first_browser_that_opens_all_links_is_remembered(
    links: Seq<Seq<char>>,
    topmost: Result<Option<Seq<char>>, Seq<char>>,
    remembered: Option<Seq<char>>,
    cause: spec_fn(Seq<char>, Seq<char>) -> Option<Seq<char>>,
)
    ensures
        started(links, topmost, remembered).valid(),
        performed(started(links, topmost, remembered), cause) == outcome(
            links,
            candidates_of(topmost, remembered),
            seq![],
            cause,
        ),
{
    let first = Progress {
        links,
        candidates: candidates_of(topmost, remembered),
        tried: 0,
        opened: 0,
        failures: seq![],
    };
    let start = first.settled();
    lemma_settled(first);
    lemma_settled_outcome(first, cause);
    lemma_performed(start, cause);
    assert(first.candidates.skip(0) == first.candidates);
    assert(start.links.skip(0) == start.links);
    let others = start.candidates.skip(start.tried);
    if start.tried < start.candidates.len() {
        assert(others.first() == start.candidates[start.tried]);
        assert(others.drop_first() == start.candidates.skip(start.tried + 1));
    } else {
        assert(others == Seq::<Result<Seq<char>, Seq<char>>>::empty());
    }
}

/// A browser in the topmost window that opens all links is the one to remember, whatever was
/// remembered before.
pub proof fn law_topmost_browser_comes_first(
    links: Seq<Seq<char>>,
    program_id: Seq<char>,
    remembered: Option<Seq<char>>,
    cause: spec_fn(Seq<char>, Seq<char>) -> Option<Seq<char>>,
)
    requires
        first_failure(links, program_id, cause) is None,
    ensures
        performed(started(links, Ok(Some(program_id)), remembered), cause) == (Action::Save {
            program_id,
        }),
{
    law_first_browser_that_opens_all_links_is_remembered(
        links,
        Ok(Some(program_id)),
        remembered,
        cause,
    );
}

/// Where no browser window is open, or its browser fails, the remembered browser opens the links
/// if it can.
pub proof fn law_remembered_browser_comes_second(
    links: Seq<Seq<char>>,
    topmost: Result<Option<Seq<char>>, Seq<char>>,
    program_id: Seq<char>,
    cause: spec_fn(Seq<char>, Seq<char>) -> Option<Seq<char>>,
)
    requires
        topmost matches Ok(Some(id)) ==> first_failure(links, id, cause) is Some,
        first_failure(links, program_id, cause) is None,
    ensures
        performed(started(links, topmost, Some(program_id)), cause) == (Action::Save { program_id }),
{
    let candidates = candidates_of(topmost, Some(program_id));
    law_first_browser_that_opens_all_links_is_remembered(links, topmost, Some(program_id), cause);
    reveal_with_fuel(outcome, 2);
    assert(candidates.drop_first().first() == Ok::<Seq<char>, Seq<char>>(program_id));
}

proof fn lemma_outcome_is_of_a_candidate(
    links: Seq<Seq<char>>,
    candidates: Seq<Result<Seq<char>, Seq<char>>>,
    failures: Seq<Seq<char>>,
    cause: spec_fn(Seq<char>, Seq<char>) -> Option<Seq<char>>,
)
    ensures
        match outcome(links, candidates, failures, cause) {
            Action::Save { program_id } => {
                &&& candidates.contains(Ok(program_id))
                &&& first_failure(links, program_id, cause) is None
            },
            Action::Fail { .. } => true,
            Action::Launch { .. } => false,
        },
    decreases candidates.len(),
{
    if candidates.len() > 0 {
        assert(candidates[0] == candidates.first());
        let rest = candidates.drop_first();
        match candidates.first() {
            Err(reason) => lemma_outcome_is_of_a_candidate(
                links,
                rest,
                failures.push(reason),
                cause,
            ),
            Ok(program_id) => if let Some(failure) = first_failure(links, program_id, cause) {
                lemma_outcome_is_of_a_candidate(links, rest, failures.push(failure), cause);
            },
        }
        assert(forall|i: int| 0 <= i < rest.len() ==> #[trigger] rest[i] == candidates[i + 1]);
    }
}

/// Opening links comes to an end, and only a browser that was to be tried and opened all links
/// is remembered.
pub proof fn law_remembered_browser_opened_all_links(
    links: Seq<Seq<char>>,
    topmost: Result<Option<Seq<char>>, Seq<char>>,
    remembered: Option<Seq<char>>,
    cause: spec_fn(Seq<char>, Seq<char>) -> Option<Seq<char>>,
)
    ensures
        match performed(started(links, topmost, remembered), cause) {
            Action::Save { program_id } => {
                &&& topmost == Ok::<Option<Seq<char>>, Seq<char>>(Some(program_id)) || remembered
                    == Some(program_id)
                &&& first_failure(links, program_id, cause) is None
            },
            Action::Fail { .. } => true,
            Action::Launch { .. } => false,
        },
{
    law_first_browser_that_opens_all_links_is_remembered(links, topmost, remembered, cause);
    lemma_outcome_is_of_a_candidate(links, candidates_of(topmost, remembered), seq![], cause);
}

/// A reason that holds for both browsers is given once, and two different ones are both given.
pub proof fn law_equal_reasons_are_given_once(first: Seq<char>, second: Seq<char>)
    ensures
        open_failure(seq![first, second]) == "Overbrowsered could not open the link.\n\n"@ + (
        if first == second {
            first
        } else {
            first + "\n\n"@ + second
        }),
{
    let both = seq![first, second];
    assert(both.drop_last() == seq![first]);
    let kept = deduplicated(both);
    reveal_with_fuel(deduplicated, 2);
    reveal_with_fuel(joined, 3);
    if first == second {
        assert(kept == seq![first]);
    } else {
        assert(kept == both);
        assert(joined(both, "\n\n"@) == first + "\n\n"@ + second);
    }
}

/// Letter case in the path of a program does not matter: two paths that are the same in lower
/// case belong to the same browser.
pub proof fn law_letter_case_does_not_matter(
    installed: Seq<Browser<Seq<char>>>,
    path: Seq<char>,
    other: Seq<char>,
)
    requires
        lowercase(path) == lowercase(other),
    ensures
        browser_with_window(installed, Some(path)) == browser_with_window(installed, Some(other)),
{
}

proof fn lemma_first_with_path(installed: Seq<Browser<Seq<char>>>, path: Seq<char>)
    ensures
        first_with_path(installed, path) matches Some(browser) ==> installed.contains(browser)
            && browser.executable_path == path,
    decreases installed.len(),
{
    if installed.len() > 0 {
        if installed.first().executable_path == path {
            assert(installed[0] == installed.first());
        } else {
            lemma_first_with_path(installed.drop_first(), path);
            if let Some(browser) = first_with_path(installed, path) {
                let i = choose|i: int|
                    0 <= i < installed.drop_first().len() && installed.drop_first()[i] == browser;
                assert(installed[i + 1] == browser);
            }
        }
    }
}

/// The browser of a window is an installed one, and its program is that of the window.
pub proof fn law_browser_of_window_is_installed(
    installed: Seq<Browser<Seq<char>>>,
    executable: Option<Seq<char>>,
)
    ensures
        browser_with_window(installed, executable) matches Some(browser) ==> {
            &&& installed.contains(browser)
            &&& executable matches Some(path) && browser.executable_path == lowercase(path)
        },
{
    if let Some(path) = executable {
        lemma_first_with_path(installed, lowercase(path));
    }
}

/// The browser of the topmost window is that of a visible window, and no visible window above it
/// belongs to a browser.
pub proof fn law_topmost_browser_is_first(
    installed: Seq<Browser<Seq<char>>>,
    windows: Seq<(bool, Option<Seq<char>>)>,
)
    ensures
        match topmost(installed, windows) {
            Some(browser) => exists|i: int|
                {
                    &&& 0 <= i < windows.len()
                    &&& (#[trigger] windows[i]).0
                    &&& browser_with_window(installed, windows[i].1) == Some(browser)
                    &&& forall|j: int|
                        0 <= j < i && (#[trigger] windows[j]).0 ==> browser_with_window(
                            installed,
                            windows[j].1,
                        ) is None
                },
            None => forall|i: int|
                0 <= i < windows.len() && (#[trigger] windows[i]).0 ==> browser_with_window(
                    installed,
                    windows[i].1,
                ) is None,
        },
    decreases windows.len(),
{
    if windows.len() > 0 {
        let rest = windows.drop_first();
        law_topmost_browser_is_first(installed, rest);
        assert(windows[0] == windows.first());
        assert forall|i: int| 1 <= i < windows.len() implies #[trigger] windows[i] == rest[i - 1] by {
        }
        if !(windows[0].0 && browser_with_window(installed, windows[0].1) is Some) {
            if let Some(browser) = topmost(installed, windows) {
                let k = choose|i: int|
                    {
                        &&& 0 <= i < rest.len()
                        &&& (#[trigger] rest[i]).0
                        &&& browser_with_window(installed, rest[i].1) == Some(browser)
                        &&& forall|j: int|
                            0 <= j < i && (#[trigger] rest[j]).0 ==> browser_with_window(
                                installed,
                                rest[j].1,
                            ) is None
                    };
                assert(windows[k + 1] == rest[k]);
            }
        }
    }
}

/// This program is not among the installed browsers.
pub proof fn law_installed_browser_is_another_program(
    applications: Seq<ApplicationView>,
    browser: Browser<Seq<char>>,
)
    requires
        browsers_among(applications).contains(browser),
    ensures
        browser.program_id != OUR_PROGRAM_ID@,
    decreases applications.len(),
{
    let all = browsers_among(applications);
    let before = browsers_among(applications.drop_last());
    let i = choose|i: int| 0 <= i < all.len() && all[i] == browser;
    if i < before.len() {
        assert(before[i] == browser);
        law_installed_browser_is_another_program(applications.drop_last(), browser);
    }
}

/// What is remembered after a window came to the foreground, where `saved` tells whether a new
/// id could be saved.
pub open spec fn remembered_after(
    installed: Seq<Browser<Seq<char>>>,
    most_recent: Option<Seq<char>>,
    executable: Option<Seq<char>>,
    saved: bool,
) -> Option<Seq<char>> {
    match learned(installed, most_recent, executable) {
        Some(id) if saved => Some(id),
        _ => most_recent,
    }
}

/// A window that came to the foreground.
pub struct Foreground {
    /// The path of the program that it belongs to, as far as it is known.
    pub executable: Option<Seq<char>>,
    /// Whether the id that was learned from it, if any, could be saved.
    pub saved: bool,
}

/// What the running program remembers after a history of windows that came to the foreground.
pub open spec fn remembered_after_all(
    installed: Seq<Browser<Seq<char>>>,
    most_recent: Option<Seq<char>>,
    history: Seq<Foreground>,
) -> Option<Seq<char>>
    decreases history.len(),
{
    if history.len() == 0 {
        most_recent
    } else {
        remembered_after(
            installed,
            remembered_after_all(installed, most_recent, history.drop_last()),
            history.last().executable,
            history.last().saved,
        )
    }
}

/// The browser of the last window in a history whose browser was saved or was remembered
/// already.
pub open spec fn last_remembered(
    installed: Seq<Browser<Seq<char>>>,
    most_recent: Option<Seq<char>>,
    history: Seq<Foreground>,
) -> Option<Browser<Seq<char>>>
    decreases history.len(),
{
    if history.len() == 0 {
        None
    } else {
        let before = remembered_after_all(installed, most_recent, history.drop_last());
        match browser_with_window(installed, history.last().executable) {
            Some(browser) if history.last().saved || before == Some(browser.program_id) => Some(
                browser,
            ),
            _ => last_remembered(installed, most_recent, history.drop_last()),
        }
    }
}

/// The browser that was in the foreground last in a history of windows.
pub open spec fn last_in_foreground(
    installed: Seq<Browser<Seq<char>>>,
    history: Seq<Foreground>,
) -> Option<Browser<Seq<char>>>
    decreases history.len(),
{
    if history.len() == 0 {
        None
    } else {
        match browser_with_window(installed, history.last().executable) {
            Some(browser) => Some(browser),
            None => last_in_foreground(installed, history.drop_last()),
        }
    }
}

/// Whether the last window in a history that belongs to a browser had that browser saved, or
/// remembered already.
pub open spec fn newest_is_saved(
    installed: Seq<Browser<Seq<char>>>,
    most_recent: Option<Seq<char>>,
    history: Seq<Foreground>,
) -> bool
    decreases history.len(),
{
    if history.len() == 0 {
        true
    } else {
        let before = remembered_after_all(installed, most_recent, history.drop_last());
        match browser_with_window(installed, history.last().executable) {
            Some(browser) => history.last().saved || before == Some(browser.program_id),
            None => newest_is_saved(installed, most_recent, history.drop_last()),
        }
    }
}

/// However the windows came to the foreground, and whichever saves failed, the remembered
/// browser is that of the last window whose browser was saved or was remembered already. Without
/// such a window it is the one that was remembered at the start.
pub proof fn law_last_saved_is_remembered(
    installed: Seq<Browser<Seq<char>>>,
    most_recent: Option<Seq<char>>,
    history: Seq<Foreground>,
)
    ensures
        remembered_after_all(installed, most_recent, history) == match last_remembered(
            installed,
            most_recent,
            history,
        ) {
            Some(browser) => Some(browser.program_id),
            None => most_recent,
        },
    decreases history.len(),
{
    if history.len() > 0 {
        law_last_saved_is_remembered(installed, most_recent, history.drop_last());
    }
}

/// However the windows came to the foreground, the remembered browser is the one that was there
/// last, or the one that was remembered at the start where no browser was. The browser that was
/// there last must have been saved then, or remembered already.
pub proof fn law_last_in_foreground_is_remembered(
    installed: Seq<Browser<Seq<char>>>,
    most_recent: Option<Seq<char>>,
    history: Seq<Foreground>,
)
    requires
        newest_is_saved(installed, most_recent, history),
    ensures
        remembered_after_all(installed, most_recent, history) == match last_in_foreground(
            installed,
            history,
        ) {
            Some(browser) => Some(browser.program_id),
            None => most_recent,
        },
    decreases history.len(),
{
    if history.len() > 0 {
        if browser_with_window(installed, history.last().executable) is None {
            law_last_in_foreground_is_remembered(installed, most_recent, history.drop_last());
        }
    }
}

/// A browser whose id was saved is not saved again when it stays in the foreground.
pub proof fn law_same_window_is_saved_once(
    installed: Seq<Browser<Seq<char>>>,
    most_recent: Option<Seq<char>>,
    executable: Option<Seq<char>>,
)
    ensures
        learned(
            installed,
            remembered_after(installed, most_recent, executable, true),
            executable,
        ) is None,
{
}

/// Only the id of an installed browser is ever saved, and never this program's own.
pub proof fn law_saved_id_is_of_installed_browser(
    applications: Seq<ApplicationView>,
    most_recent: Option<Seq<char>>,
    executable: Option<Seq<char>>,
)
    ensures
        learned(browsers_among(applications), most_recent, executable) matches Some(id) ==> {
            &&& id != OUR_PROGRAM_ID@
            &&& exists|browser: Browser<Seq<char>>| #[trigger]
                browsers_among(applications).contains(browser) && browser.program_id == id
        },
{
    let installed = browsers_among(applications);
    law_browser_of_window_is_installed(installed, executable);
    if let Some(browser) = browser_with_window(installed, executable) {
        law_installed_browser_is_another_program(applications, browser);
    }
}

/// What the registry holds at `key` under `name` once `values` are written in order.
pub open spec fn held(
    values: Seq<RegistryValue<Seq<char>, Seq<u16>>>,
    key: Seq<char>,
    name: Seq<char>,
) -> Option<Data<Seq<char>, Seq<u16>>>
    decreases values.len(),
{
    if values.len() == 0 {
        None
    } else if values.last().key == key && values.last().name == name {
        Some(values.last().data)
    } else {
        held(values.drop_last(), key, name)
    }
}

proof fn lemma_held(
    values: Seq<RegistryValue<Seq<char>, Seq<u16>>>,
    i: int,
)
    requires
        0 <= i < values.len(),
        forall|j: int|
            i < j < values.len() ==> (#[trigger] values[j]).key != values[i].key || values[j].name
                != values[i].name,
    ensures
        held(values, values[i].key, values[i].name) == Some(values[i].data),
    decreases values.len(),
{
    if i < values.len() - 1 {
        let before = values.drop_last();
        assert(values.last() == values[values.len() - 1]);
        assert(before[i] == values[i]);
        assert forall|j: int| i < j < before.len() implies (#[trigger] before[j]).key
            != before[i].key || before[j].name != before[i].name by {
            assert(before[j] == values[j]);
        }
        lemma_held(before, i);
    }
}

/// The user's choice of the program that opens links is left alone: nothing is written at or
/// below the key where it stands, neither to register this program nor to remember a browser.
pub proof fn law_user_choice_is_left_alone(executable: Seq<u16>, id: Seq<char>)
    ensures
        forall|i: int|
            0 <= i < registration(executable).len() ==> !HTTP_CHOICE_KEY@.is_prefix_of(
                (#[trigger] registration(executable)[i]).key,
            ),
        !HTTP_CHOICE_KEY@.is_prefix_of(text_value(SETTINGS_KEY@, MOST_RECENT_BROWSER@, id).key),
{
    reveal_strlit("Software\\Microsoft\\Windows\\Shell\\Associations\\UrlAssociations\\http");
    reveal_strlit("Software\\Classes\\Overbrowsered.Url");
    reveal_strlit("Software\\Clients\\StartMenuInternet\\Overbrowsered");
    reveal_strlit("Software\\Clients\\StartMenuInternet\\Overbrowsered\\Capabilities");
    reveal_strlit("Software\\RegisteredApplications");
    reveal_strlit("Software\\Overbrowsered");
    let values = registration(executable);
    assert(HTTP_CHOICE_KEY@[9] == 'M');
    assert forall|i: int| 0 <= i < values.len() implies !HTTP_CHOICE_KEY@.is_prefix_of(
        (#[trigger] values[i]).key,
    ) by {
        assert(values[i].key[9] != 'M');
    }
    assert(SETTINGS_KEY@[9] != 'M');
}

/// The registration leads the system to this program. The list of applications holds the key of
/// its capabilities; they hold its program id for `http` and `https` links and for web pages;
/// and the class with that id holds the command that starts it, as does its key among the browsers.
pub proof fn law_registration_leads_to_this_program(executable: Seq<u16>)
    ensures
        ({
            let values = registration(executable);
            let capabilities = CAPABILITIES_KEY@;
            let urls = capabilities + "\\URLAssociations"@;
            let files = capabilities + "\\FileAssociations"@;
            let command = "Software\\Classes\\"@ + OUR_PROGRAM_ID@ + "\\shell\\open\\command"@;
            &&& held(values, APPLICATIONS_KEY@, "Overbrowsered"@) == Some(
                Data::<Seq<char>, Seq<u16>>::Text(capabilities),
            )
            &&& held(values, urls, "http"@) == Some(
                Data::<Seq<char>, Seq<u16>>::Text(OUR_PROGRAM_ID@),
            )
            &&& held(values, urls, "https"@) == Some(
                Data::<Seq<char>, Seq<u16>>::Text(OUR_PROGRAM_ID@),
            )
            &&& held(values, files, ".htm"@) == Some(
                Data::<Seq<char>, Seq<u16>>::Text(OUR_PROGRAM_ID@),
            )
            &&& held(values, files, ".html"@) == Some(
                Data::<Seq<char>, Seq<u16>>::Text(OUR_PROGRAM_ID@),
            )
            &&& held(values, command, ""@) == Some(
                Data::<Seq<char>, Seq<u16>>::Wide(shell_command_of(executable)),
            )
            &&& held(values, CLIENT_KEY@ + "\\shell\\open\\command"@, ""@) == Some(
                Data::<Seq<char>, Seq<u16>>::Wide(shell_command_of(executable)),
            )
        }),
{
    reveal_strlit("Software\\Classes\\Overbrowsered.Url");
    reveal_strlit("Software\\Classes\\");
    reveal_strlit("Overbrowsered.Url");
    reveal_strlit("Software\\Clients\\StartMenuInternet\\Overbrowsered");
    reveal_strlit("Software\\Clients\\StartMenuInternet\\Overbrowsered\\Capabilities");
    reveal_strlit("Software\\RegisteredApplications");
    reveal_strlit("\\Startmenu");
    reveal_strlit("\\URLAssociations");
    reveal_strlit("\\FileAssociations");
    reveal_strlit("\\DefaultIcon");
    reveal_strlit("\\shell\\open\\command");
    reveal_strlit("http");
    reveal_strlit("https");
    reveal_strlit(".htm");
    reveal_strlit(".html");
    let values = registration(executable);
    assert(values.len() == 15);
    // The keys are told apart by their lengths, or by single characters.
    assert(CLASS_KEY@ == "Software\\Classes\\"@ + OUR_PROGRAM_ID@);
    assert(values[14].key[9] == 'R');
    assert(forall|j: int| 3 <= j < 14 ==> (#[trigger] values[j]).key[11] == 'i');
    assert(values[1].key[11] == 'a');
    assert(values[1].key[9] == 'C');
    assert(values[1].key.len() != values[2].key.len());
    assert(forall|j: int| 10 <= j < 14 ==> (#[trigger] values[j]).key[9] == 'C');
    assert(forall|j: int|
        4 < j < 15 ==> (#[trigger] values[j]).key.len() != values[4].key.len());
    assert(values[10].key.len() != values[12].key.len());
    assert(values[10].name.len() != values[11].name.len());
    assert(values[12].name.len() != values[13].name.len());
    lemma_held(values, 14);
    lemma_held(values, 13);
    lemma_held(values, 12);
    lemma_held(values, 11);
    lemma_held(values, 10);
    lemma_held(values, 4);
    lemma_held(values, 1);
}

/// The command that starts the program at `path` for a link, which is quoted because the path may
/// hold spaces, as text.
pub open spec fn quoted_command(path: Seq<char>) -> Seq<char> {
    "\""@ + path + "\" \"%1\""@
}

/// The command that a program registers for itself leads back to the program. It reaches `split`,
/// the system's way to split a command into words, as it was written. Where that gives the words
/// in the quotes, the program is the path without them, and the argument is dropped. Where it
/// gives nothing, there is no program.
pub proof fn law_quoted_command_starts_its_program(
    path: Seq<char>,
    split: spec_fn(Seq<char>) -> Option<Seq<Seq<char>>>,
    application: ApplicationView,
)
    requires
        application.command == split(trimmed(quoted_command(path))),
    ensures
        units_of(quoted_command(path)) == shell_command_of(units_of(path)),
        trimmed(quoted_command(path)) == quoted_command(path),
        split(quoted_command(path)) == Some(seq![path, "%1"@]) ==> program_of(application) == Some(
            path,
        ),
        split(quoted_command(path)) is None ==> program_of(application) is None && browser_of(
            application,
        ) is None,
{
    reveal_strlit("\"");
    reveal_strlit("\" \"%1\"");
    lemma_units_of_concat("\""@ + path, "\" \"%1\""@);
    lemma_units_of_concat("\""@, path);
    let command = quoted_command(path);
    assert(command.first() == '"' && command.last() == '"');
}

/// An id that was saved is loaded back, whatever the default value of the key holds.
pub proof fn law_saved_id_is_loaded_back(id: Seq<char>, unnamed: Option<Seq<char>>)
    ensures
        held(
            seq![text_value(SETTINGS_KEY@, MOST_RECENT_BROWSER@, id)],
            SETTINGS_KEY@,
            MOST_RECENT_BROWSER@,
        ) == Some(Data::<Seq<char>, Seq<u16>>::Text(id)),
        first_of(Some(id), unnamed) == Some(id),
{
}

} // verus!
