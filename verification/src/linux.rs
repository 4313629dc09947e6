//! The program on Linux: browsers are known by their desktop entries, and recognized by the
//! process whose window has the focus.
use crate::desktop::{
    command_for, command_view, fields_in, file_views, find_command, path_in_applications,
    read_fields, DesktopFile, Fields, FieldsView,
};
use crate::encoding::{from_utf8, from_utf8_lossy, lossy_text};
use crate::menu::{menu_items, menu_of, menu_view, MenuItem};
use crate::messages::{
    default_handler_line, handler_line, most_recent_browser_line, most_recent_line, str_view,
    APP_DESCRIPTION, NO_BROWSER_ADVICE,
};
use crate::numbers::{decimal, decimal_of};
use crate::paths::{file_name, file_name_of};
use crate::text::{
    after_prefix, chars_of, contains, copy_option, is_some_text, lines, lines_of, same,
    strip_prefix, trim, trim_end_matches, trimmed, view_of, views, without_suffixes,
};
use vstd::prelude::*;
use vstd::slice::slice_subrange;
use vstd::utf8::{decode_utf8, valid_utf8};

verus! {

/// The name of this program's own desktop entry.
pub const DESKTOP_FILE: &'static str = "overbrowsered.desktop";

/// This program's own application id.
pub const OWN_ID: &'static str = "overbrowsered";

/// The type of content that a browser opens.
pub const HTTP_TYPE: &'static str = "x-scheme-handler/http";

/// What a running browser is recognized by.
#[derive(Clone, Debug, PartialEq, Eq)]
pub enum RecognizedBy<S = String> {
    /// The file name of its program.
    Executable(S),
    /// The Flatpak application that it is.
    FlatpakApp(S),
}

impl View for RecognizedBy<String> {
    type V = RecognizedBy<Seq<char>>;

    open spec fn view(&self) -> RecognizedBy<Seq<char>> {
        match self {
            RecognizedBy::Executable(name) => RecognizedBy::Executable(name@),
            RecognizedBy::FlatpakApp(name) => RecognizedBy::FlatpakApp(name@),
        }
    }
}

/// An installed browser.
#[derive(Clone, Debug, PartialEq, Eq)]
pub struct Browser<S = String> {
    pub appid: S,
    pub display_name: S,
    pub recognized_by: RecognizedBy<S>,
}

impl View for Browser<String> {
    type V = Browser<Seq<char>>;

    open spec fn view(&self) -> Browser<Seq<char>> {
        Browser {
            appid: self.appid@,
            display_name: self.display_name@,
            recognized_by: self.recognized_by@,
        }
    }
}

/// The characters of a list of browsers.
pub open spec fn browser_views(browsers: Seq<Browser>) -> Seq<Browser<Seq<char>>> {
    browsers.map_values(|browser: Browser| browser@)
}

/// The characters of what a process was recognized by, if it was.
pub open spec fn recognized_view(by: Option<RecognizedBy>) -> Option<RecognizedBy<Seq<char>>> {
    match by {
        Some(by) => Some(by@),
        None => None,
    }
}

impl RecognizedBy<String> {
    /// Whether this is the same as `other`.
    pub fn equals(&self, other: &RecognizedBy) -> (yes: bool)
        ensures
            yes == (self@ == other@),
    {
        match (self, other) {
            (RecognizedBy::Executable(a), RecognizedBy::Executable(b)) => same(
                a.as_str(),
                b.as_str(),
            ),
            (RecognizedBy::FlatpakApp(a), RecognizedBy::FlatpakApp(b)) => same(
                a.as_str(),
                b.as_str(),
            ),
            _ => false,
        }
    }
}

/// How a window of an application is recognized: by its Flatpak application, or else by the file
/// name of its program.
pub open spec fn recognition(fields: FieldsView) -> Option<RecognizedBy<Seq<char>>> {
    match fields.flatpak {
        Some(app) => Some(RecognizedBy::FlatpakApp(app)),
        None => match fields.command {
            Some(command) => if command.len() > 0 {
                match file_name_of(command[0]) {
                    Some(name) => Some(RecognizedBy::Executable(name)),
                    None => None,
                }
            } else {
                None
            },
            None => None,
        },
    }
}

/// The browser that an application is: one that opens `http` links, is not this program, and
/// can be recognized.
pub open spec fn browser_of(fields: FieldsView) -> Option<Browser<Seq<char>>> {
    match (fields.mime_types, recognition(fields)) {
        (Some(types), Some(recognized_by)) => if fields.appid != OWN_ID@ && types.contains(
            HTTP_TYPE@,
        ) {
            Some(
                Browser {
                    appid: fields.appid,
                    display_name: match fields.name {
                        Some(name) => name,
                        None => fields.appid,
                    },
                    recognized_by,
                },
            )
        } else {
            None
        },
        _ => None,
    }
}

/// The characters of a browser, if there is one.
pub open spec fn browser_view(browser: Option<Browser>) -> Option<Browser<Seq<char>>> {
    match browser {
        Some(browser) => Some(browser@),
        None => None,
    }
}

/// The file name in a path.
fn program_name(path: &str) -> (name: Option<String>)
    ensures
        view_of(name) == file_name_of(path@),
{
    let chars: Vec<char> = chars_of(path);
    match file_name(&chars) {
        Some((start, end)) => Some(path.substring_char(start, end).to_owned()),
        None => None,
    }
}

/// How a window of an application is recognized.
fn recognized_by(fields: &Fields) -> (by: Option<RecognizedBy>)
    ensures
        recognized_view(by) == recognition(fields@),
{
    if let Some(app) = &fields.flatpak {
        return Some(RecognizedBy::FlatpakApp(app.clone()));
    }
    match &fields.command {
        Some(command) => {
            if command.len() == 0 {
                return None;
            }
            assert(views(command@)[0] == command@[0]@);
            match program_name(command[0].as_str()) {
                Some(name) => Some(RecognizedBy::Executable(name)),
                None => None,
            }
        },
        None => None,
    }
}

/// The browser that an application is, if it is one.
pub fn browser_of_fields(fields: &Fields) -> (browser: Option<Browser>)
    ensures
        browser_view(browser) == browser_of(fields@),
{
    if same(fields.appid.as_str(), OWN_ID) {
        return None;
    }
    match &fields.mime_types {
        Some(types) => {
            if !contains(types, HTTP_TYPE) {
                return None;
            }
        },
        None => {
            return None;
        },
    }
    match recognized_by(fields) {
        Some(by) => Some(
            Browser {
                appid: fields.appid.clone(),
                display_name: match &fields.name {
                    Some(name) => name.clone(),
                    None => fields.appid.clone(),
                },
                recognized_by: by,
            },
        ),
        None => None,
    }
}

/// The browser that a file describes, if it describes one.
pub open spec fn browser_in(file: (Seq<char>, Seq<char>), locales: Seq<Seq<char>>) -> Option<
    Browser<Seq<char>>,
> {
    match fields_in(file, locales) {
        Some(fields) => browser_of(fields),
        None => None,
    }
}

/// The browsers that a list of files describes, in their order.
pub open spec fn browsers_in(
    files: Seq<(Seq<char>, Seq<char>)>,
    locales: Seq<Seq<char>>,
) -> Seq<Browser<Seq<char>>>
    decreases files.len(),
{
    if files.len() == 0 {
        seq![]
    } else {
        let before = browsers_in(files.drop_last(), locales);
        match browser_in(files.last(), locales) {
            Some(browser) => before.push(browser),
            None => before,
        }
    }
}

/// The browser that `file` describes, if it describes one. This program's own desktop entry,
/// wherever it stands, describes none.
pub fn browser_of_file(file: &DesktopFile, locales: &Vec<String>) -> (browser: Option<Browser>)
    ensures
        browser_view(browser) == browser_in(file@, views(locales@)),
        forall|directory: Seq<char>|
            file.path@ == #[trigger] path_in_applications(directory, OWN_ID@) ==> browser is None,
{
    proof {
        reveal_strlit("overbrowsered");
    }
    match read_fields(file, locales) {
        Some(fields) => browser_of_fields(&fields),
        None => None,
    }
}

/// The browsers that `files` describe, in their order. This program is never among them.
pub fn installed_browsers(files: &Vec<DesktopFile>, locales: &Vec<String>) -> (browsers: Vec<
    Browser,
>)
    ensures
        browser_views(browsers@) == browsers_in(file_views(files@), views(locales@)),
        forall|i: int| 0 <= i < browsers@.len() ==> (#[trigger] browsers@[i]).appid@ != OWN_ID@,
{
    let mut browsers: Vec<Browser> = Vec::new();
    for i in 0..files.len()
        invariant
            browser_views(browsers@) == browsers_in(
                file_views(files@).take(i as int),
                views(locales@),
            ),
            forall|j: int| 0 <= j < browsers@.len() ==> (#[trigger] browsers@[j]).appid@ != OWN_ID@,
    {
        let ghost before = browsers@;
        assert(file_views(files@).take(i + 1).drop_last() == file_views(files@).take(i as int));
        if let Some(browser) = browser_of_file(&files[i], locales) {
            browsers.push(browser);
            assert(browser_views(browsers@) == browser_views(before).push(browser@));
        }
    }
    assert(file_views(files@).take(files.len() as int) == file_views(files@));
    browsers
}

/// The rest of the first line that starts with `prefix`.
pub open spec fn first_after_prefix(lines: Seq<Seq<char>>, prefix: Seq<char>) -> Option<Seq<char>>
    decreases lines.len(),
{
    if lines.len() == 0 {
        None
    } else {
        match after_prefix(lines.first(), prefix) {
            Some(rest) => Some(rest),
            None => first_after_prefix(lines.drop_first(), prefix),
        }
    }
}

/// What a process is recognized by. One that has a Flatpak description is known by the first name
/// in it. Any other is known by the file name of its program, where that is UTF-8.
pub open spec fn recognized(
    flatpak_info: Option<Seq<char>>,
    executable: Option<Seq<u8>>,
) -> Option<RecognizedBy<Seq<char>>> {
    match flatpak_info {
        Some(info) => match first_after_prefix(lines_of(info), "name="@) {
            Some(app) => Some(RecognizedBy::FlatpakApp(app)),
            None => None,
        },
        None => match executable {
            Some(path) => match file_name_of(path) {
                Some(name) => if valid_utf8(name) {
                    Some(RecognizedBy::Executable(decode_utf8(name)))
                } else {
                    None
                },
                None => None,
            },
            None => None,
        },
    }
}

/// The bytes of an optional path.
pub open spec fn bytes_view(path: Option<Vec<u8>>) -> Option<Seq<u8>> {
    match path {
        Some(path) => Some(path@),
        None => None,
    }
}

/// Where the Flatpak description of a process stands.
pub fn flatpak_info_path(pid: u32) -> (path: String)
    ensures
        path@ == "/proc/"@ + decimal_of(pid as nat) + "/root/.flatpak-info"@,
{
    "/proc/".to_owned().concat(decimal(pid).as_str()).concat("/root/.flatpak-info")
}

/// The link to the program that a process runs.
pub fn executable_link(pid: u32) -> (path: String)
    ensures
        path@ == "/proc/"@ + decimal_of(pid as nat) + "/exe"@,
{
    "/proc/".to_owned().concat(decimal(pid).as_str()).concat("/exe")
}

/// Recognizes a process by its Flatpak description, where it has one, or else by the path of the
/// program that it runs.
pub fn recognize_process(flatpak_info: Option<&str>, executable: &Option<Vec<u8>>) -> (by: Option<
    RecognizedBy,
>)
    ensures
        recognized_view(by) == recognized(str_view(flatpak_info), bytes_view(*executable)),
{
    if let Some(info) = flatpak_info {
        let all: Vec<&str> = lines(info);
        let ghost texts = all@.map_values(|line: &str| line@);
        assert(texts.skip(0) == texts);
        for i in 0..all.len()
            invariant
                flatpak_info == Some(info),
                texts == lines_of(info@),
                texts == all@.map_values(|line: &str| line@),
                first_after_prefix(texts, "name="@) == first_after_prefix(
                    texts.skip(i as int),
                    "name="@,
                ),
        {
            assert(texts.skip(i as int).first() == all@[i as int]@);
            assert(texts.skip(i as int).drop_first() == texts.skip(i + 1));
            if let Some(app) = strip_prefix(all[i], "name=") {
                return Some(RecognizedBy::FlatpakApp(app.to_owned()));
            }
        }
        return None;
    }
    match executable {
        Some(path) => match file_name(path) {
            Some((start, end)) => match from_utf8(slice_subrange(path.as_slice(), start, end)) {
                Some(name) => Some(RecognizedBy::Executable(name)),
                None => None,
            },
            None => None,
        },
        None => None,
    }
}

/// What to set the flag that switches accessibility on to, where it is `enabled` or not: nothing
/// where it is on.
pub fn enable_accessibility(enabled: bool) -> (set: Option<bool>)
    ensures
        set == (if enabled {
            None
        } else {
            Some(true)
        }),
{
    if enabled {
        None
    } else {
        Some(true)
    }
}

/// What the accessibility bus tells of windows.
#[derive(Debug)]
pub enum Event<S = String> {
    /// A window announces that it has the focus.
    WindowActivated { sender: Option<S> },
    /// An object announces that it entered or left a state.
    StateChanged { state: S, enabled: bool, sender: Option<S> },
    Other,
}

impl View for Event<String> {
    type V = Event<Seq<char>>;

    open spec fn view(&self) -> Event<Seq<char>> {
        match self {
            Event::WindowActivated { sender } => Event::WindowActivated { sender: view_of(*sender) },
            Event::StateChanged { state, enabled, sender } => Event::StateChanged {
                state: state@,
                enabled: *enabled,
                sender: view_of(*sender),
            },
            Event::Other => Event::Other,
        }
    }
}

/// The bus name of the application whose window got the focus: that of a window that was
/// activated, or of an object that became active.
pub open spec fn activated_by(event: Event<Seq<char>>) -> Option<Seq<char>> {
    match event {
        Event::WindowActivated { sender } => sender,
        Event::StateChanged { state, enabled, sender } => if state == "active"@ && enabled {
            sender
        } else {
            None
        },
        Event::Other => None,
    }
}

/// The bus name of the application whose window got the focus, where the event tells of one.
pub fn activated_sender(event: &Event) -> (sender: Option<String>)
    ensures
        view_of(sender) == activated_by(event@),
{
    match event {
        Event::WindowActivated { sender } => copy_option(sender),
        Event::StateChanged { state, enabled, sender } => if *enabled && same(
            state.as_str(),
            "active",
        ) {
            copy_option(sender)
        } else {
            None
        },
        Event::Other => None,
    }
}

/// The first browser that is recognized by `by`.
pub open spec fn first_recognized(
    installed: Seq<Browser<Seq<char>>>,
    by: RecognizedBy<Seq<char>>,
) -> Option<Browser<Seq<char>>>
    decreases installed.len(),
{
    if installed.len() == 0 {
        None
    } else if installed.first().recognized_by == by {
        Some(installed.first())
    } else {
        first_recognized(installed.drop_first(), by)
    }
}

/// The browser that a process runs, as far as the process was recognized.
pub open spec fn browser_running(
    installed: Seq<Browser<Seq<char>>>,
    running_as: Option<RecognizedBy<Seq<char>>>,
) -> Option<Browser<Seq<char>>> {
    match running_as {
        Some(by) => first_recognized(installed, by),
        None => None,
    }
}

/// The id to remember when a process gets the focus: that of the browser that it runs, unless
/// it is remembered already.
pub open spec fn learned(
    installed: Seq<Browser<Seq<char>>>,
    most_recent: Option<Seq<char>>,
    running_as: Option<RecognizedBy<Seq<char>>>,
) -> Option<Seq<char>> {
    match browser_running(installed, running_as) {
        Some(browser) => if most_recent == Some(browser.appid) {
            None
        } else {
            Some(browser.appid)
        },
        None => None,
    }
}

/// The most recently used browser after a process got the focus.
pub open spec fn most_recent_after(
    installed: Seq<Browser<Seq<char>>>,
    most_recent: Option<Seq<char>>,
    running_as: Option<RecognizedBy<Seq<char>>>,
) -> Option<Seq<char>> {
    match learned(installed, most_recent, running_as) {
        Some(id) => Some(id),
        None => most_recent,
    }
}

/// Watches which browser had the focus last.
#[derive(Debug)]
pub struct FocusWatch {
    pub installed: Vec<Browser>,
    pub most_recent: Option<String>,
}

impl FocusWatch {
    /// Starts with the installed browsers and the browser that is remembered.
    pub fn new(installed: Vec<Browser>, most_recent: Option<String>) -> (watch: FocusWatch)
        ensures
            watch.installed == installed,
            watch.most_recent == most_recent,
    {
        FocusWatch { installed, most_recent }
    }

    /// Takes note of the process that got the focus. Where it runs a browser other than the
    /// remembered one, that one is remembered from now on, and its id is given for saving.
    pub fn focused(&mut self, running_as: &Option<RecognizedBy>) -> (id: Option<String>)
        ensures
            view_of(id) == learned(
                browser_views(old(self).installed@),
                view_of(old(self).most_recent),
                recognized_view(*running_as),
            ),
            final(self).installed == old(self).installed,
            view_of(final(self).most_recent) == most_recent_after(
                browser_views(old(self).installed@),
                view_of(old(self).most_recent),
                recognized_view(*running_as),
            ),
    {
        let by: &RecognizedBy = match running_as {
            Some(by) => by,
            None => {
                return None;
            },
        };
        let ghost all = browser_views(self.installed@);
        assert(all.skip(0) == all);
        let mut i: usize = 0;
        while i < self.installed.len()
            invariant
                i <= self.installed@.len(),
                *self == *old(self),
                all == browser_views(self.installed@),
                first_recognized(all, by@) == first_recognized(all.skip(i as int), by@),
                *running_as == Some(*by),
            decreases self.installed@.len() - i,
        {
            assert(all.skip(i as int).first() == self.installed@[i as int]@);
            assert(all.skip(i as int).drop_first() == all.skip(i + 1));
            if self.installed[i].recognized_by.equals(by) {
                if is_some_text(&self.most_recent, self.installed[i].appid.as_str()) {
                    return None;
                }
                let id: String = self.installed[i].appid.clone();
                self.most_recent = Some(id.clone());
                return Some(id);
            }
            i = i + 1;
        }
        None
    }
}

/// What is remembered, for contents of the file that remembers it.
pub open spec fn loaded(contents: Option<Seq<char>>) -> Option<Seq<char>> {
    match contents {
        Some(contents) => Some(trimmed(contents)),
        None => None,
    }
}

/// The id of the most recently used browser, as the file that remembers it has it. The file
/// holds the id alone, and white space around it is no part of it.
pub fn load_most_recent_browser_id(contents: Option<&str>) -> (id: Option<String>)
    ensures
        view_of(id) == loaded(str_view(contents)),
{
    match contents {
        Some(contents) => Some(trim(contents).to_owned()),
        None => None,
    }
}

/// The desktop file that a text names: the text without the white space around it, unless
/// nothing is left.
pub open spec fn default_file_name(text: Seq<char>) -> Option<Seq<char>> {
    if trimmed(text).len() == 0 {
        None
    } else {
        Some(trimmed(text))
    }
}

/// The desktop file that a text names, if it names one.
pub fn default_file(text: &str) -> (file: Option<String>)
    ensures
        view_of(file) == default_file_name(text@),
{
    let file: &str = trim(text);
    if file.is_empty() {
        None
    } else {
        Some(file.to_owned())
    }
}

/// Reads the desktop file of the default browser out of what `xdg-settings` printed.
pub fn default_browser_desktop_file(output: &Vec<u8>) -> (file: Option<String>)
    ensures
        view_of(file) == default_file_name(lossy_text(output@)),
        valid_utf8(output@) ==> view_of(file) == default_file_name(decode_utf8(output@)),
{
    default_file(from_utf8_lossy(output).as_str())
}

/// The name that is shown for an application: that of the first browser with its id, or else
/// the id.
pub open spec fn shown_name(browsers: Seq<Browser<Seq<char>>>, appid: Seq<char>) -> Seq<char>
    decreases browsers.len(),
{
    if browsers.len() == 0 {
        appid
    } else if browsers.first().appid == appid {
        browsers.first().display_name
    } else {
        shown_name(browsers.drop_first(), appid)
    }
}

/// The menu, for the installed browsers, the most recently used one and the desktop file of the
/// default browser.
pub open spec fn tray_menu(
    browsers: Seq<Browser<Seq<char>>>,
    most_recent: Option<Seq<char>>,
    default_handler: Option<Seq<char>>,
) -> Seq<MenuItem<Seq<char>>> {
    let we_are_default = default_handler == Some(DESKTOP_FILE@);
    menu_of(
        most_recent_line(
            match most_recent {
                Some(appid) => Some(shown_name(browsers, appid)),
                None => None,
            },
        ),
        handler_line(
            we_are_default,
            match default_handler {
                Some(file) => Some(without_suffixes(file, ".desktop"@)),
                None => None,
            },
        ),
        we_are_default,
    )
}

/// What the tray icon shows.
#[derive(Debug)]
pub struct Overbrowsered {
    pub browsers: Vec<Browser>,
    pub most_recent: Option<String>,
    /// The desktop file of the default browser.
    pub default_handler: Option<String>,
}

impl Overbrowsered {
    /// The name of the tray icon.
    pub fn id(&self) -> (id: String)
        ensures
            id@ == OWN_ID@,
    {
        OWN_ID.to_owned()
    }

    /// The name that is shown for an application.
    fn name_of(&self, appid: &str) -> (name: String)
        ensures
            name@ == shown_name(browser_views(self.browsers@), appid@),
    {
        let ghost all = browser_views(self.browsers@);
        assert(all.skip(0) == all);
        for i in 0..self.browsers.len()
            invariant
                all == browser_views(self.browsers@),
                shown_name(all, appid@) == shown_name(all.skip(i as int), appid@),
        {
            assert(all.skip(i as int).first() == self.browsers@[i as int]@);
            assert(all.skip(i as int).drop_first() == all.skip(i + 1));
            if same(self.browsers[i].appid.as_str(), appid) {
                return self.browsers[i].display_name.clone();
            }
        }
        appid.to_owned()
    }

    /// Builds the menu.
    pub fn menu(&self) -> (items: Vec<MenuItem>)
        ensures
            menu_view(items@) == tray_menu(
                browser_views(self.browsers@),
                view_of(self.most_recent),
                view_of(self.default_handler),
            ),
    {
        let browser_line: String = match &self.most_recent {
            Some(appid) => {
                let name: String = self.name_of(appid.as_str());
                most_recent_browser_line(Some(name.as_str()))
            },
            None => most_recent_browser_line(None),
        };
        let we_are_default: bool = is_some_text(&self.default_handler, DESKTOP_FILE);
        let default_line: String = match &self.default_handler {
            Some(file) => default_handler_line(
                we_are_default,
                Some(trim_end_matches(file.as_str(), ".desktop")),
            ),
            None => default_handler_line(we_are_default, None),
        };
        menu_items(browser_line, default_line, we_are_default)
    }
}

/// A program to start, with its arguments.
#[derive(Debug, PartialEq, Eq)]
pub struct Launch {
    pub program: String,
    pub arguments: Vec<String>,
}

/// Why links cannot be opened.
#[derive(Debug, PartialEq, Eq)]
pub enum OpenError<S = String> {
    /// No browser is remembered.
    NoBrowser,
    /// The remembered browser is not installed any more.
    Gone { appid: S },
    /// The desktop entry of the remembered browser gives no command, for the given cause.
    BadExec { appid: S, cause: S },
    /// The command of the remembered browser names no program.
    EmptyCommand,
}

impl View for OpenError<String> {
    type V = OpenError<Seq<char>>;

    open spec fn view(&self) -> OpenError<Seq<char>> {
        match self {
            OpenError::NoBrowser => OpenError::NoBrowser,
            OpenError::Gone { appid } => OpenError::Gone { appid: appid@ },
            OpenError::BadExec { appid, cause } => OpenError::BadExec {
                appid: appid@,
                cause: cause@,
            },
            OpenError::EmptyCommand => OpenError::EmptyCommand,
        }
    }
}

/// The words for an error.
pub open spec fn error_words(error: OpenError<Seq<char>>) -> Seq<char> {
    match error {
        OpenError::NoBrowser => NO_BROWSER_ADVICE@,
        OpenError::Gone { appid } => appid
            + " seems to be gone. Focus another browser window so Overbrowsered can learn your new one, then try the link again."@,
        OpenError::BadExec { appid, cause } => "parsing the Exec line of "@ + appid + ": "@ + cause,
        OpenError::EmptyCommand => "empty launch command"@,
    }
}

impl OpenError<String> {
    /// Tells the user what is wrong.
    pub fn message(&self) -> (words: String)
        ensures
            words@ == error_words(self@),
    {
        match self {
            OpenError::NoBrowser => NO_BROWSER_ADVICE.to_owned(),
            OpenError::Gone { appid } => appid.clone().concat(
                " seems to be gone. Focus another browser window so Overbrowsered can learn your new one, then try the link again.",
            ),
            OpenError::BadExec { appid, cause } => "parsing the Exec line of ".to_owned().concat(
                appid.as_str(),
            ).concat(": ").concat(cause.as_str()),
            OpenError::EmptyCommand => "empty launch command".to_owned(),
        }
    }
}

/// The characters of a program and its arguments, or of the error in their place.
pub open spec fn launch_view(launch: Result<Launch, OpenError>) -> Result<
    (Seq<char>, Seq<Seq<char>>),
    OpenError<Seq<char>>,
> {
    match launch {
        Ok(launch) => Ok((launch.program@, views(launch.arguments@))),
        Err(error) => Err(error@),
    }
}

/// What to start for a command of the application `appid`: its first word is the program, and
/// the others are the arguments.
pub open spec fn launched(appid: Seq<char>, command: Result<Seq<Seq<char>>, Seq<char>>) -> Result<
    (Seq<char>, Seq<Seq<char>>),
    OpenError<Seq<char>>,
> {
    match command {
        Ok(command) => if command.len() == 0 {
            Err(OpenError::EmptyCommand)
        } else {
            Ok((command.first(), command.drop_first()))
        },
        Err(cause) => Err(OpenError::BadExec { appid, cause }),
    }
}

/// What to start for a command of the application `appid`.
pub fn launch(appid: &str, command: Result<Vec<String>, String>) -> (launch: Result<
    Launch,
    OpenError,
>)
    ensures
        launch_view(launch) == launched(appid@, command_view(command)),
{
    match command {
        Ok(mut words) => {
            if words.len() == 0 {
                return Err(OpenError::EmptyCommand);
            }
            let ghost all = words@;
            let program: String = words.remove(0);
            assert(views(words@) == views(all).drop_first());
            Ok(Launch { program, arguments: words })
        },
        Err(cause) => Err(OpenError::BadExec { appid: appid.to_owned(), cause }),
    }
}

/// What to start to open `links` with the remembered browser, where `files` describe the
/// installed applications.
pub open spec fn opened(
    links: Seq<Seq<char>>,
    remembered: Option<Seq<char>>,
    files: Seq<(Seq<char>, Seq<char>)>,
    locales: Seq<Seq<char>>,
) -> Result<(Seq<char>, Seq<Seq<char>>), OpenError<Seq<char>>> {
    match remembered {
        Some(appid) => match command_for(files, appid, links, locales) {
            Some(command) => launched(appid, command),
            None => Err(OpenError::Gone { appid }),
        },
        None => Err(OpenError::NoBrowser),
    }
}

/// What to start to open `links` with the remembered browser.
pub fn open(
    links: &Vec<String>,
    remembered: &Option<String>,
    files: &Vec<DesktopFile>,
    locales: &Vec<String>,
) -> (launch: Result<Launch, OpenError>)
    ensures
        launch_view(launch) == opened(
            views(links@),
            view_of(*remembered),
            file_views(files@),
            views(locales@),
        ),
{
    match remembered {
        Some(appid) => match find_command(files, appid.as_str(), links, locales) {
            Some(command) => self::launch(appid.as_str(), command),
            None => Err(OpenError::Gone { appid: appid.clone() }),
        },
        None => Err(OpenError::NoBrowser),
    }
}

/// This program's own desktop entry. It lists every type that `xdg-settings` registers for a
/// default browser, in that order.
pub open spec fn own_entry(executable: Seq<char>) -> Seq<char> {
    "[Desktop Entry]\nType=Application\nName=Overbrowsered\nComment="@ + APP_DESCRIPTION@ + "\nExec="@
        + executable
        + " %u\nIcon=overbrowsered\nTerminal=false\nStartupNotify=false\nCategories=Network;WebBrowser;\nMimeType=x-scheme-handler/unknown;x-scheme-handler/about;text/html;x-scheme-handler/http;x-scheme-handler/https;\n"@
}

/// What to write to this program's own desktop entry, where it holds `existing`: nothing where
/// it is as it should be.
pub open spec fn registration(executable: Seq<char>, existing: Option<Seq<char>>) -> Option<
    Seq<char>,
> {
    if existing == Some(own_entry(executable)) {
        None
    } else {
        Some(own_entry(executable))
    }
}

/// What to write to this program's own desktop entry, where it holds `existing`.
pub fn register_as_link_handler(executable: &str, existing: Option<&str>) -> (entry: Option<String>)
    ensures
        view_of(entry) == registration(executable@, str_view(existing)),
{
    let entry: String = "[Desktop Entry]\nType=Application\nName=Overbrowsered\nComment=".to_owned().concat(
        APP_DESCRIPTION,
    ).concat("\nExec=").concat(executable).concat(
        " %u\nIcon=overbrowsered\nTerminal=false\nStartupNotify=false\nCategories=Network;WebBrowser;\nMimeType=x-scheme-handler/unknown;x-scheme-handler/about;text/html;x-scheme-handler/http;x-scheme-handler/https;\n",
    );
    if let Some(existing) = existing {
        if same(existing, entry.as_str()) {
            return None;
        }
    }
    Some(entry)
}

/// The arguments of `notify-send` that show `message` to the user.
pub fn report(message: &str) -> (arguments: Vec<String>)
    ensures
        views(arguments@) == seq!["--app-name=Overbrowsered"@, "Overbrowsered"@, message@],
{
    let mut arguments: Vec<String> = Vec::new();
    arguments.push("--app-name=Overbrowsered".to_owned());
    arguments.push("Overbrowsered".to_owned());
    arguments.push(message.to_owned());
    arguments
}

} // verus!
