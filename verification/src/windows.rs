//! The program on Windows: browsers are known by the registry, and recognized by the program
//! file of the window in the foreground.
use crate::encoding::{lowercase, to_lowercase};
use crate::menu::{menu_items, menu_of, menu_view, MenuItem};
use crate::messages::{
    default_handler_line, handler_line, most_recent_browser_line, most_recent_line, str_view,
};
use crate::text::{is_some_text, same, trim, trimmed, view_of, views};
use vstd::prelude::*;

verus! {

/// The id under which this program opens links.
pub const OUR_PROGRAM_ID: &'static str = "Overbrowsered.Url";

/// An installed browser.
#[derive(Debug, PartialEq, Eq)]
pub struct Browser<S = String> {
    /// The id under which it opens links.
    pub program_id: S,
    pub display_name: S,
    /// The path of its program, in lower case.
    pub executable_path: S,
}

impl View for Browser<String> {
    type V = Browser<Seq<char>>;

    open spec fn view(&self) -> Browser<Seq<char>> {
        Browser {
            program_id: self.program_id@,
            display_name: self.display_name@,
            executable_path: self.executable_path@,
        }
    }
}

/// The characters of a list of browsers.
pub open spec fn browser_views(browsers: Seq<Browser>) -> Seq<Browser<Seq<char>>> {
    browsers.map_values(|browser: Browser| browser@)
}

/// The characters of a browser, if there is one.
pub open spec fn browser_view(browser: Option<Browser>) -> Option<Browser<Seq<char>>> {
    match browser {
        Some(browser) => Some(browser@),
        None => None,
    }
}

/// The characters of a browser that is pointed to, if there is one.
pub open spec fn browser_ref_view(browser: Option<&Browser>) -> Option<Browser<Seq<char>>> {
    match browser {
        Some(browser) => Some(browser@),
        None => None,
    }
}

/// An application that the registry lists.
#[derive(Debug)]
pub struct RegisteredApplication {
    /// The name that it is listed under.
    pub name: String,
    /// The id under which it opens `http` links.
    pub http_handler: Option<String>,
    /// The name that it gives itself.
    pub application_name: Option<String>,
    /// The command that opens a link under that id, split into words by the system. How it splits
    /// them is not stated here.
    pub command: Option<Vec<String>>,
}

/// The characters of a `RegisteredApplication`.
pub struct ApplicationView {
    pub name: Seq<char>,
    pub http_handler: Option<Seq<char>>,
    pub application_name: Option<Seq<char>>,
    pub command: Option<Seq<Seq<char>>>,
}

impl View for RegisteredApplication {
    type V = ApplicationView;

    open spec fn view(&self) -> ApplicationView {
        ApplicationView {
            name: self.name@,
            http_handler: view_of(self.http_handler),
            application_name: view_of(self.application_name),
            command: match self.command {
                Some(command) => Some(views(command@)),
                None => None,
            },
        }
    }
}

/// The characters of a list of applications.
pub open spec fn application_views(applications: Seq<RegisteredApplication>) -> Seq<
    ApplicationView,
> {
    applications.map_values(|application: RegisteredApplication| application@)
}

/// The program that an application starts: the first word of its command.
pub open spec fn program_of(application: ApplicationView) -> Option<Seq<char>> {
    match application.command {
        Some(command) => if command.len() > 0 {
            Some(command[0])
        } else {
            None
        },
        None => None,
    }
}

/// The name that is shown for an application: the one that it gives itself, unless that refers
/// to a resource, or else the one that it is listed under.
pub open spec fn display_name_of(application: ApplicationView) -> Seq<char> {
    match application.application_name {
        Some(name) => if name.len() > 0 && name[0] == '@' {
            application.name
        } else {
            name
        },
        None => application.name,
    }
}

/// The browser that an application is, where its program is `executable_path` in lower case: it
/// must open `http` links, not be this program, and have a program.
pub open spec fn browser_with_path(
    application: ApplicationView,
    executable_path: Option<Seq<char>>,
) -> Option<Browser<Seq<char>>> {
    match (application.http_handler, executable_path) {
        (Some(program_id), Some(executable_path)) => if program_id == OUR_PROGRAM_ID@ {
            None
        } else {
            Some(
                Browser { program_id, display_name: display_name_of(application), executable_path },
            )
        },
        _ => None,
    }
}

/// The browser that an application is, if it is one.
pub open spec fn browser_of(application: ApplicationView) -> Option<Browser<Seq<char>>> {
    browser_with_path(
        application,
        match program_of(application) {
            Some(program) => Some(lowercase(program)),
            None => None,
        },
    )
}

/// The browsers among a list of applications, in their order.
pub open spec fn browsers_among(applications: Seq<ApplicationView>) -> Seq<Browser<Seq<char>>>
    decreases applications.len(),
{
    if applications.len() == 0 {
        seq![]
    } else {
        let before = browsers_among(applications.drop_last());
        match browser_of(applications.last()) {
            Some(browser) => before.push(browser),
            None => before,
        }
    }
}

/// The command line in a registry value, without the white space around it, ready to be split
/// into words.
pub fn command_line(value: &str) -> (line: String)
    ensures
        line@ == trimmed(value@),
{
    trim(value).to_owned()
}

/// The program that an application starts.
pub fn command_executable(application: &RegisteredApplication) -> (program: Option<String>)
    ensures
        view_of(program) == program_of(application@),
{
    match &application.command {
        Some(command) => if command.len() > 0 {
            assert(views(command@)[0] == command@[0]@);
            Some(command[0].clone())
        } else {
            None
        },
        None => None,
    }
}

/// The name that is shown for an application.
fn display_name(application: &RegisteredApplication) -> (name: String)
    ensures
        name@ == display_name_of(application@),
{
    if let Some(name) = &application.application_name {
        if name.as_str().is_empty() || name.as_str().get_char(0) != '@' {
            return name.clone();
        }
    }
    application.name.clone()
}

/// The browser that an application is, where its program is `executable_path` in lower case.
pub fn registered_browser(application: &RegisteredApplication, executable_path: Option<String>) -> (browser:
    Option<Browser>)
    ensures
        browser_view(browser) == browser_with_path(application@, view_of(executable_path)),
{
    match (&application.http_handler, executable_path) {
        (Some(program_id), Some(executable_path)) => if same(program_id.as_str(), OUR_PROGRAM_ID) {
            None
        } else {
            Some(
                Browser {
                    program_id: program_id.clone(),
                    display_name: display_name(application),
                    executable_path,
                },
            )
        },
        _ => None,
    }
}

/// The browsers among `applications`, in their order. This program is never among them.
pub fn installed_browsers(applications: &Vec<RegisteredApplication>) -> (browsers: Vec<Browser>)
    ensures
        browser_views(browsers@) == browsers_among(application_views(applications@)),
        forall|i: int|
            0 <= i < browsers@.len() ==> (#[trigger] browsers@[i]).program_id@ != OUR_PROGRAM_ID@,
{
    let mut browsers: Vec<Browser> = Vec::new();
    for i in 0..applications.len()
        invariant
            browser_views(browsers@) == browsers_among(
                application_views(applications@).take(i as int),
            ),
            forall|j: int|
                0 <= j < browsers@.len() ==> (#[trigger] browsers@[j]).program_id@
                    != OUR_PROGRAM_ID@,
    {
        let ghost before = browsers@;
        assert(application_views(applications@).take(i + 1).drop_last() == application_views(
            applications@,
        ).take(i as int));
        let path: Option<String> = match command_executable(&applications[i]) {
            Some(program) => Some(to_lowercase(program.as_str())),
            None => None,
        };
        if let Some(browser) = registered_browser(&applications[i], path) {
            browsers.push(browser);
            assert(browser_views(browsers@) == browser_views(before).push(browser@));
        }
    }
    assert(application_views(applications@).take(applications.len() as int) == application_views(
        applications@,
    ));
    browsers
}

/// The first browser whose program is `path`.
pub open spec fn first_with_path(installed: Seq<Browser<Seq<char>>>, path: Seq<char>) -> Option<
    Browser<Seq<char>>,
>
    decreases installed.len(),
{
    if installed.len() == 0 {
        None
    } else if installed.first().executable_path == path {
        Some(installed.first())
    } else {
        first_with_path(installed.drop_first(), path)
    }
}

/// The first browser whose program is `path`, which is in lower case.
pub fn browser_of_path<'a>(installed: &'a Vec<Browser>, path: &str) -> (browser: Option<&'a Browser>)
    ensures
        browser_ref_view(browser) == first_with_path(browser_views(installed@), path@),
{
    let ghost all = browser_views(installed@);
    assert(all.skip(0) == all);
    for i in 0..installed.len()
        invariant
            all == browser_views(installed@),
            first_with_path(all, path@) == first_with_path(all.skip(i as int), path@),
    {
        assert(all.skip(i as int).first() == installed@[i as int]@);
        assert(all.skip(i as int).drop_first() == all.skip(i + 1));
        if same(installed[i].executable_path.as_str(), path) {
            return Some(&installed[i]);
        }
    }
    None
}

/// The browser that a window belongs to, as far as the path of its program is known. Letter case
/// in the path does not matter.
pub open spec fn browser_with_window(
    installed: Seq<Browser<Seq<char>>>,
    executable: Option<Seq<char>>,
) -> Option<Browser<Seq<char>>> {
    match executable {
        Some(path) => first_with_path(installed, lowercase(path)),
        None => None,
    }
}

/// The browser that a window belongs to, as far as the path of its program is known.
pub fn browser_of_window<'a>(installed: &'a Vec<Browser>, executable: &Option<String>) -> (browser:
    Option<&'a Browser>)
    ensures
        browser_ref_view(browser) == browser_with_window(
            browser_views(installed@),
            view_of(*executable),
        ),
{
    match executable {
        Some(path) => browser_of_path(installed, to_lowercase(path.as_str()).as_str()),
        None => None,
    }
}

/// A window on the desktop.
#[derive(Debug)]
pub struct Window {
    pub visible: bool,
    /// The path of the program that it belongs to, as far as it is known.
    pub executable: Option<String>,
}

impl View for Window {
    type V = (bool, Option<Seq<char>>);

    open spec fn view(&self) -> (bool, Option<Seq<char>>) {
        (self.visible, view_of(self.executable))
    }
}

/// The characters of a list of windows.
pub open spec fn window_views(windows: Seq<Window>) -> Seq<(bool, Option<Seq<char>>)> {
    windows.map_values(|window: Window| window@)
}

/// The browser of the first visible window that belongs to one.
pub open spec fn topmost(
    installed: Seq<Browser<Seq<char>>>,
    windows: Seq<(bool, Option<Seq<char>>)>,
) -> Option<Browser<Seq<char>>>
    decreases windows.len(),
{
    if windows.len() == 0 {
        None
    } else {
        match browser_with_window(installed, windows.first().1) {
            Some(browser) if windows.first().0 => Some(browser),
            _ => topmost(installed, windows.drop_first()),
        }
    }
}

/// The browser of the first visible window that belongs to one, where `windows` are listed from
/// the top down.
pub fn topmost_browser<'a>(installed: &'a Vec<Browser>, windows: &Vec<Window>) -> (browser: Option<
    &'a Browser,
>)
    ensures
        browser_ref_view(browser) == topmost(browser_views(installed@), window_views(windows@)),
{
    let ghost all = window_views(windows@);
    assert(all.skip(0) == all);
    for i in 0..windows.len()
        invariant
            all == window_views(windows@),
            topmost(browser_views(installed@), all) == topmost(
                browser_views(installed@),
                all.skip(i as int),
            ),
    {
        assert(all.skip(i as int).first() == windows@[i as int]@);
        assert(all.skip(i as int).drop_first() == all.skip(i + 1));
        if windows[i].visible {
            if let Some(browser) = browser_of_window(installed, &windows[i].executable) {
                return Some(browser);
            }
        }
    }
    None
}

/// The id to remember when a window comes to the foreground: that of the browser that it belongs
/// to, unless it is remembered already.
pub open spec fn learned(
    installed: Seq<Browser<Seq<char>>>,
    most_recent: Option<Seq<char>>,
    executable: Option<Seq<char>>,
) -> Option<Seq<char>> {
    match browser_with_window(installed, executable) {
        Some(browser) => if most_recent == Some(browser.program_id) {
            None
        } else {
            Some(browser.program_id)
        },
        None => None,
    }
}

/// The name that is shown for a program id: that of the first browser with it, if there is one.
pub open spec fn name_with_id(installed: Seq<Browser<Seq<char>>>, id: Seq<char>) -> Option<
    Seq<char>,
>
    decreases installed.len(),
{
    if installed.len() == 0 {
        None
    } else if installed.first().program_id == id {
        Some(installed.first().display_name)
    } else {
        name_with_id(installed.drop_first(), id)
    }
}

/// The menu, for the installed browsers, the most recently used one and the program id that
/// opens links by default.
pub open spec fn tray_menu(
    installed: Seq<Browser<Seq<char>>>,
    most_recent: Option<Seq<char>>,
    default_handler: Option<Seq<char>>,
) -> Seq<MenuItem<Seq<char>>> {
    let we_are_default = default_handler == Some(OUR_PROGRAM_ID@);
    menu_of(
        most_recent_line(
            match most_recent {
                Some(id) => match name_with_id(installed, id) {
                    Some(name) => Some(name),
                    None => Some(id),
                },
                None => None,
            },
        ),
        handler_line(
            we_are_default,
            match default_handler {
                Some(id) => name_with_id(installed, id),
                None => None,
            },
        ),
        we_are_default,
    )
}

/// What the running program knows.
#[derive(Debug)]
pub struct State {
    pub installed_browsers: Vec<Browser>,
    pub most_recent_browser_id: Option<String>,
}

impl State {
    /// Starts with the installed browsers and the browser that is remembered.
    pub fn new(installed_browsers: Vec<Browser>, most_recent_browser_id: Option<String>) -> (state:
        State)
        ensures
            state.installed_browsers == installed_browsers,
            state.most_recent_browser_id == most_recent_browser_id,
    {
        State { installed_browsers, most_recent_browser_id }
    }

    /// The id to save when the window of `executable` comes to the foreground, if any.
    pub fn foreground_changed(&self, executable: &Option<String>) -> (id: Option<String>)
        ensures
            view_of(id) == learned(
                browser_views(self.installed_browsers@),
                view_of(self.most_recent_browser_id),
                view_of(*executable),
            ),
    {
        match browser_of_window(&self.installed_browsers, executable) {
            Some(browser) => if is_some_text(
                &self.most_recent_browser_id,
                browser.program_id.as_str(),
            ) {
                None
            } else {
                Some(browser.program_id.clone())
            },
            None => None,
        }
    }

    /// The id to save at the start: that of the browser of the topmost window, if any.
    pub fn remember_topmost_browser(&self, windows: &Vec<Window>) -> (id: Option<String>)
        ensures
            view_of(id) == (match topmost(
                browser_views(self.installed_browsers@),
                window_views(windows@),
            ) {
                Some(browser) => Some(browser.program_id),
                None => None,
            }),
    {
        match topmost_browser(&self.installed_browsers, windows) {
            Some(browser) => Some(browser.program_id.clone()),
            None => None,
        }
    }

    /// Takes note that `id` was saved.
    pub fn saved(&mut self, id: String)
        ensures
            final(self).installed_browsers == old(self).installed_browsers,
            final(self).most_recent_browser_id == Some(id),
    {
        self.most_recent_browser_id = Some(id);
    }

    /// The name that is shown for a program id.
    fn name_of(&self, id: &str) -> (name: Option<&str>)
        ensures
            str_view(name) == name_with_id(browser_views(self.installed_browsers@), id@),
    {
        let ghost all = browser_views(self.installed_browsers@);
        assert(all.skip(0) == all);
        for i in 0..self.installed_browsers.len()
            invariant
                all == browser_views(self.installed_browsers@),
                name_with_id(all, id@) == name_with_id(all.skip(i as int), id@),
        {
            assert(all.skip(i as int).first() == self.installed_browsers@[i as int]@);
            assert(all.skip(i as int).drop_first() == all.skip(i + 1));
            if same(self.installed_browsers[i].program_id.as_str(), id) {
                return Some(self.installed_browsers[i].display_name.as_str());
            }
        }
        None
    }

    /// Builds the menu, where `default_handler` is the program id that opens links by default.
    pub fn show_menu(&self, default_handler: &Option<String>) -> (items: Vec<MenuItem>)
        ensures
            menu_view(items@) == tray_menu(
                browser_views(self.installed_browsers@),
                view_of(self.most_recent_browser_id),
                view_of(*default_handler),
            ),
    {
        let browser_line: String = match &self.most_recent_browser_id {
            Some(id) => match self.name_of(id.as_str()) {
                Some(name) => most_recent_browser_line(Some(name)),
                None => most_recent_browser_line(Some(id.as_str())),
            },
            None => most_recent_browser_line(None),
        };
        let we_are_default: bool = is_some_text(default_handler, OUR_PROGRAM_ID);
        let default_line: String = match default_handler {
            Some(id) => default_handler_line(we_are_default, self.name_of(id.as_str())),
            None => default_handler_line(we_are_default, None),
        };
        menu_items(browser_line, default_line, we_are_default)
    }
}

} // verus!
