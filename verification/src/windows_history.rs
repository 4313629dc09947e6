//! What is remembered on Windows over a history of windows in the foreground, starts of the
//! program, and links that were opened.
use crate::windows::{
    browser_with_window, browsers_among, learned, topmost, ApplicationView, Browser, OUR_PROGRAM_ID,
};
use crate::windows_laws::{
    first_failure, law_browser_of_window_is_installed,
    law_first_browser_that_opens_all_links_is_remembered, law_installed_browser_is_another_program,
    law_remembered_browser_comes_second, law_remembered_browser_opened_all_links,
    law_topmost_browser_is_first, outcome, performed, remembered_after, remembered_after_all,
    Foreground,
};
use crate::windows_open::{candidates_of, started, Action};
use crate::windows_registration::first_of;
use vstd::prelude::*;

verus! {

/// Something that can change what is remembered. Each step tells in `saved` whether an id that is
/// to be saved in it, if any, could be saved.
pub enum Step {
    /// A window of the program at `executable` came to the foreground.
    Foreground { executable: Option<Seq<char>>, saved: bool },
    /// The program that watches the windows started, with these applications, and with these
    /// windows as far as they are known. Where its save fails, it ends at once.
    Start {
        applications: Seq<ApplicationView>,
        windows: Seq<(bool, Option<Seq<char>>)>,
        saved: bool,
    },
    /// Links were opened, with these applications and windows, or the reason why the windows are
    /// not known. `cause` tells why a link does not open under an id.
    Open {
        applications: Seq<ApplicationView>,
        windows: Result<Seq<(bool, Option<Seq<char>>)>, Seq<char>>,
        links: Seq<Seq<char>>,
        cause: spec_fn(Seq<char>, Seq<char>) -> Option<Seq<char>>,
        saved: bool,
    },
}

/// What is remembered.
pub struct Memory {
    /// The browsers that the running program knows.
    pub installed: Seq<Browser<Seq<char>>>,
    /// The id that the running program remembers.
    pub most_recent: Option<Seq<char>>,
    /// The value in the registry that remembers the id.
    pub named: Option<Seq<char>>,
    /// The default value of the same key, which is never written.
    pub unnamed: Option<Seq<char>>,
}

impl Memory {
    /// The id that the registry remembers.
    pub open spec fn stored(self) -> Option<Seq<char>> {
        first_of(self.named, self.unnamed)
    }
}

/// What is remembered when the program has just read the registry.
pub open spec fn read_memory(
    applications: Seq<ApplicationView>,
    named: Option<Seq<char>>,
    unnamed: Option<Seq<char>>,
) -> Memory {
    Memory {
        installed: browsers_among(applications),
        most_recent: first_of(named, unnamed),
        named,
        unnamed,
    }
}

/// The id of the browser of the topmost window, if there is one.
pub open spec fn topmost_id(
    applications: Seq<ApplicationView>,
    windows: Seq<(bool, Option<Seq<char>>)>,
) -> Option<Seq<char>> {
    match topmost(browsers_among(applications), windows) {
        Some(browser) => Some(browser.program_id),
        None => None,
    }
}

/// The id of the browser of the topmost window, if there is one, or the reason why the windows
/// are not known.
pub open spec fn topmost_found(
    applications: Seq<ApplicationView>,
    windows: Result<Seq<(bool, Option<Seq<char>>)>, Seq<char>>,
) -> Result<Option<Seq<char>>, Seq<char>> {
    match windows {
        Ok(windows) => Ok(topmost_id(applications, windows)),
        Err(reason) => Err(reason),
    }
}

/// The id of the browser that is used in a step: that of the window in the foreground, that of
/// the topmost window when the program starts, or that of the browser that opened the links.
pub open spec fn used(memory: Memory, step: Step) -> Option<Seq<char>> {
    match step {
        Step::Foreground { executable, .. } => match browser_with_window(
            memory.installed,
            executable,
        ) {
            Some(browser) => Some(browser.program_id),
            None => None,
        },
        Step::Start { applications, windows, .. } => topmost_id(applications, windows),
        Step::Open { applications, windows, links, cause, .. } => match performed(
            started(links, topmost_found(applications, windows), memory.stored()),
            cause,
        ) {
            Action::Save { program_id } => Some(program_id),
            _ => None,
        },
    }
}

/// The id that is saved in a step. A browser in the foreground is only saved where the running
/// program does not remember it already.
pub open spec fn saved(memory: Memory, step: Step) -> Option<Seq<char>> {
    match step {
        Step::Foreground { executable, saved } => if saved {
            learned(memory.installed, memory.most_recent, executable)
        } else {
            None
        },
        Step::Start { saved, .. } => if saved {
            used(memory, step)
        } else {
            None
        },
        Step::Open { saved, .. } => if saved {
            used(memory, step)
        } else {
            None
        },
    }
}

/// What is remembered after a step. A save that fails leaves the registry as it was. Opening
/// links leaves the running program as it was.
pub open spec fn after_step(memory: Memory, step: Step) -> Memory {
    let named = match saved(memory, step) {
        Some(id) => Some(id),
        None => memory.named,
    };
    match step {
        Step::Foreground { executable, saved } => Memory {
            named,
            most_recent: remembered_after(
                memory.installed,
                memory.most_recent,
                executable,
                saved,
            ),
            ..memory
        },
        Step::Start { applications, .. } => read_memory(applications, named, memory.unnamed),
        Step::Open { .. } => Memory { named, ..memory },
    }
}

/// What is remembered after a history of steps.
pub open spec fn after_all(start: Memory, history: Seq<Step>) -> Memory
    decreases history.len(),
{
    if history.len() == 0 {
        start
    } else {
        after_step(after_all(start, history.drop_last()), history.last())
    }
}

/// The id that was saved last in a history.
pub open spec fn last_saved(start: Memory, history: Seq<Step>) -> Option<Seq<char>>
    decreases history.len(),
{
    if history.len() == 0 {
        None
    } else {
        match saved(after_all(start, history.drop_last()), history.last()) {
            Some(id) => Some(id),
            None => last_saved(start, history.drop_last()),
        }
    }
}

/// The id that opening links saved last, where the running program has neither started nor saved
/// an id since.
pub open spec fn saved_by_opening(start: Memory, history: Seq<Step>) -> Option<Seq<char>>
    decreases history.len(),
{
    if history.len() == 0 {
        None
    } else {
        let id = saved(after_all(start, history.drop_last()), history.last());
        match history.last() {
            Step::Start { .. } => None,
            Step::Foreground { .. } => if id is Some {
                None
            } else {
                saved_by_opening(start, history.drop_last())
            },
            Step::Open { .. } => if id is Some {
                id
            } else {
                saved_by_opening(start, history.drop_last())
            },
        }
    }
}

/// The id of the browser that was used last in a history.
pub open spec fn last_used(start: Memory, history: Seq<Step>) -> Option<Seq<char>>
    decreases history.len(),
{
    if history.len() == 0 {
        None
    } else {
        match used(after_all(start, history.drop_last()), history.last()) {
            Some(id) => Some(id),
            None => last_used(start, history.drop_last()),
        }
    }
}

/// Whether the id of the browser that was used last in a history, if any, was saved then or stood
/// in the registry already.
pub open spec fn newest_is_stored(start: Memory, history: Seq<Step>) -> bool
    decreases history.len(),
{
    if history.len() == 0 {
        true
    } else {
        let before = after_all(start, history.drop_last());
        match used(before, history.last()) {
            Some(id) => saved(before, history.last()) == Some(id) || before.stored() == Some(id),
            None => newest_is_stored(start, history.drop_last()),
        }
    }
}

/// However the windows came to the foreground, whenever the program started or opened links, and
/// whichever saves failed, the registry holds the id that was saved last, or what it held at the
/// start where none was.
pub proof fn law_setting_holds_last_saved_id(start: Memory, history: Seq<Step>)
    ensures
        after_all(start, history).named == match last_saved(start, history) {
            Some(id) => Some(id),
            None => start.named,
        },
        after_all(start, history).unnamed == start.unnamed,
    decreases history.len(),
{
    if history.len() > 0 {
        law_setting_holds_last_saved_id(start, history.drop_last());
    }
}

/// The running program and the registry keep step: from the moment when the program has read the
/// registry, the registry remembers what the running program remembers, unless opening links
/// saved an id since. Then it remembers that one.
pub proof fn law_setting_keeps_step(start: Memory, history: Seq<Step>)
    requires
        start.stored() == start.most_recent,
    ensures
        after_all(start, history).stored() == match saved_by_opening(start, history) {
            Some(id) => Some(id),
            None => after_all(start, history).most_recent,
        },
    decreases history.len(),
{
    if history.len() > 0 {
        law_setting_keeps_step(start, history.drop_last());
    }
}

/// The windows that came to the foreground in a history.
pub open spec fn foregrounds(history: Seq<Step>) -> Seq<Foreground>
    decreases history.len(),
{
    if history.len() == 0 {
        seq![]
    } else {
        let before = foregrounds(history.drop_last());
        match history.last() {
            Step::Foreground { executable, saved } => before.push(Foreground { executable, saved }),
            _ => before,
        }
    }
}

/// While the program runs, it remembers what the windows in the foreground tell, whatever links
/// were opened meanwhile.
pub proof fn law_running_program_goes_by_windows(start: Memory, history: Seq<Step>)
    requires
        forall|i: int| 0 <= i < history.len() ==> !((#[trigger] history[i]) is Start),
    ensures
        after_all(start, history).installed == start.installed,
        after_all(start, history).most_recent == remembered_after_all(
            start.installed,
            start.most_recent,
            foregrounds(history),
        ),
    decreases history.len(),
{
    if history.len() > 0 {
        let earlier = history.drop_last();
        assert forall|i: int| 0 <= i < earlier.len() implies !((#[trigger] earlier[i]) is Start) by {
            assert(earlier[i] == history[i]);
        }
        law_running_program_goes_by_windows(start, earlier);
        assert(history.last() == history[history.len() - 1]);
        if let Step::Foreground { executable, saved } = history.last() {
            let all = foregrounds(history);
            assert(all.drop_last() == foregrounds(earlier));
            assert(all.last() == (Foreground { executable, saved }));
        }
    }
}

/// The registry remembers the browser that was used last: the one of the last window in the
/// foreground, of the topmost window when the program started, or the one that opened links. Its
/// id must have been saved then, or have stood in the registry already. Where no browser was
/// used, the registry remembers what it did at the start.
pub proof fn law_last_used_browser_is_stored(start: Memory, history: Seq<Step>)
    requires
        newest_is_stored(start, history),
    ensures
        after_all(start, history).stored() == match last_used(start, history) {
            Some(id) => Some(id),
            None => start.stored(),
        },
    decreases history.len(),
{
    if history.len() > 0 {
        let before = after_all(start, history.drop_last());
        if used(before, history.last()) is None {
            law_last_used_browser_is_stored(start, history.drop_last());
        }
    }
}

/// Links open in the browser of the topmost window, or else in the one whose id was saved last,
/// whatever happened before and whichever saves failed.
pub proof fn law_links_open_in_last_saved_browser(
    start: Memory,
    history: Seq<Step>,
    links: Seq<Seq<char>>,
    topmost: Result<Option<Seq<char>>, Seq<char>>,
    cause: spec_fn(Seq<char>, Seq<char>) -> Option<Seq<char>>,
)
    ensures
        performed(started(links, topmost, after_all(start, history).stored()), cause) == outcome(
            links,
            candidates_of(
                topmost,
                match last_saved(start, history) {
                    Some(id) => Some(id),
                    None => start.stored(),
                },
            ),
            seq![],
            cause,
        ),
{
    law_setting_holds_last_saved_id(start, history);
    law_first_browser_that_opens_all_links_is_remembered(
        links,
        topmost,
        after_all(start, history).stored(),
        cause,
    );
}

/// Links open in the browser of the topmost window, or else in the one that was used last. The id
/// of that one must have been saved then, or have stood in the registry already. Where it opens
/// all links while the topmost window is of no help, it is the one to remember.
pub proof fn law_links_open_in_last_used_browser(
    start: Memory,
    history: Seq<Step>,
    links: Seq<Seq<char>>,
    topmost: Result<Option<Seq<char>>, Seq<char>>,
    cause: spec_fn(Seq<char>, Seq<char>) -> Option<Seq<char>>,
    id: Seq<char>,
)
    requires
        last_used(start, history) == Some(id),
        newest_is_stored(start, history),
    ensures
        ({
            let progress = started(links, topmost, after_all(start, history).stored());
            &&& performed(progress, cause) == outcome(
                links,
                candidates_of(topmost, Some(id)),
                seq![],
                cause,
            )
            &&& (topmost matches Ok(Some(first)) ==> first_failure(links, first, cause) is Some)
                && first_failure(links, id, cause) is None ==> performed(progress, cause) == (
            Action::Save { program_id: id })
        }),
{
    law_last_used_browser_is_stored(start, history);
    law_first_browser_that_opens_all_links_is_remembered(links, topmost, Some(id), cause);
    if (topmost matches Ok(Some(first)) ==> first_failure(links, first, cause) is Some)
        && first_failure(links, id, cause) is None {
        law_remembered_browser_comes_second(links, topmost, id, cause);
    }
}

proof fn lemma_topmost_is_another_program(
    applications: Seq<ApplicationView>,
    windows: Seq<(bool, Option<Seq<char>>)>,
)
    ensures
        topmost_id(applications, windows) != Some(OUR_PROGRAM_ID@),
{
    let installed = browsers_among(applications);
    law_topmost_browser_is_first(installed, windows);
    if let Some(browser) = topmost(installed, windows) {
        let i = choose|i: int|
            0 <= i < windows.len() && (#[trigger] windows[i]).0 && browser_with_window(
                installed,
                windows[i].1,
            ) == Some(browser);
        law_browser_of_window_is_installed(installed, windows[i].1);
        law_installed_browser_is_another_program(applications, browser);
    }
}

/// This program is never remembered as a browser, neither while it runs nor in the registry, so
/// that it does not hand links to itself, unless the registry named it at the start.
pub proof fn law_own_id_is_never_remembered(
    applications: Seq<ApplicationView>,
    named: Option<Seq<char>>,
    unnamed: Option<Seq<char>>,
    history: Seq<Step>,
)
    requires
        first_of(named, unnamed) != Some(OUR_PROGRAM_ID@),
    ensures
        ({
            let memory = after_all(read_memory(applications, named, unnamed), history);
            &&& memory.most_recent != Some(OUR_PROGRAM_ID@)
            &&& memory.stored() != Some(OUR_PROGRAM_ID@)
            &&& forall|browser: Browser<Seq<char>>| #[trigger]
                memory.installed.contains(browser) ==> browser.program_id != OUR_PROGRAM_ID@
        }),
    decreases history.len(),
{
    let start = read_memory(applications, named, unnamed);
    if history.len() == 0 {
        lemma_installed_are_other_programs(applications);
    } else {
        let before = after_all(start, history.drop_last());
        law_own_id_is_never_remembered(applications, named, unnamed, history.drop_last());
        match history.last() {
            Step::Foreground { executable, .. } => {
                law_browser_of_window_is_installed(before.installed, executable);
            },
            Step::Start { applications, windows, .. } => {
                lemma_installed_are_other_programs(applications);
                lemma_topmost_is_another_program(applications, windows);
            },
            Step::Open { applications, windows, links, cause, .. } => {
                if let Ok(windows) = windows {
                    lemma_topmost_is_another_program(applications, windows);
                }
                law_remembered_browser_opened_all_links(
                    links,
                    topmost_found(applications, windows),
                    before.stored(),
                    cause,
                );
            },
        }
    }
}

proof fn lemma_installed_are_other_programs(applications: Seq<ApplicationView>)
    ensures
        forall|browser: Browser<Seq<char>>| #[trigger]
            browsers_among(applications).contains(browser) ==> browser.program_id
                != OUR_PROGRAM_ID@,
{
    assert forall|browser: Browser<Seq<char>>| #[trigger]
        browsers_among(applications).contains(browser) implies browser.program_id
        != OUR_PROGRAM_ID@ by {
        law_installed_browser_is_another_program(applications, browser);
    }
}

} // verus!
