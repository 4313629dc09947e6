use overbrowsered::menu::MenuItem;
use overbrowsered::messages::NO_BROWSER_ADVICE;
use overbrowsered::windows::{
    browser_of_path, browser_of_window, command_executable, command_line, installed_browsers,
    registered_browser, topmost_browser, Browser, RegisteredApplication, State, Window,
    OUR_PROGRAM_ID,
};
use overbrowsered::windows_messages::{
    ensure_only_one_app_instance, menu_choice, menu_item_number, needs_taskbar_message,
    register_for_autorestart, window_proc, Choice, Instance, Reaction,
};
use overbrowsered::windows_open::{open, Action, Opening};
use overbrowsered::windows_registration::{
    default_http_handler, icon_location, load_most_recent_browser_id, register_as_link_handler,
    save_most_recent_browser_id, shell_command, Data,
};

fn some(text: &str) -> Option<String> {
    Some(text.to_string())
}

fn application(name: &str, id: Option<&str>, shown: Option<&str>, program: Option<&str>) -> RegisteredApplication {
    RegisteredApplication {
        name: name.to_string(),
        http_handler: id.map(str::to_string),
        application_name: shown.map(str::to_string),
        command: program.map(|p| vec![p.to_string(), "%1".to_string()]),
    }
}

fn browser(id: &str, name: &str, path: &str) -> Browser {
    Browser {
        program_id: id.to_string(),
        display_name: name.to_string(),
        executable_path: path.to_string(),
    }
}

fn both() -> Vec<Browser> {
    vec![
        browser("FirefoxURL", "Firefox", "c:\\firefox\\firefox.exe"),
        browser("ChromeHTML", "Chrome", "c:\\chrome\\chrome.exe"),
    ]
}

fn window(visible: bool, path: Option<&str>) -> Window {
    Window { visible, executable: path.map(str::to_string) }
}

fn wide(text: &str) -> Vec<u16> {
    text.encode_utf16().collect()
}

#[test]
fn browsers_are_found_among_the_applications() {
    let applications = vec![
        application("Firefox-308", Some("FirefoxURL"), Some("Firefox"), Some("C:\\Firefox\\FIREFOX.exe")),
        application("Paint", None, None, Some("c:\\paint.exe")),
        application("Overbrowsered", Some(OUR_PROGRAM_ID), Some("Overbrowsered"), Some("c:\\o.exe")),
        application("Edge", Some("MSEdgeHTM"), Some("@{resource}"), Some("C:\\ÉDGE.exe")),
        application("Broken", Some("Broken"), None, None),
        application("Plain", Some("Plain"), None, Some("p.exe")),
        application("Nameless", Some("Nameless"), Some(""), Some("n.exe")),
    ];
    assert_eq!(
        installed_browsers(&applications),
        vec![
            browser("FirefoxURL", "Firefox", "c:\\firefox\\firefox.exe"),
            browser("MSEdgeHTM", "Edge", "c:\\édge.exe"),
            browser("Plain", "Plain", "p.exe"),
            browser("Nameless", "", "n.exe"),
        ]
    );
    let mut empty = application("a", Some("A"), None, Some("x"));
    empty.command = Some(Vec::new());
    assert_eq!(command_executable(&empty), None);
    assert_eq!(registered_browser(&empty, None), None);
    assert_eq!(registered_browser(&empty, some("p")), Some(browser("A", "a", "p")));
    assert_eq!(command_line("  \"C:\\a b.exe\" \"%1\"\r\n"), "\"C:\\a b.exe\" \"%1\"");
}

#[test]
fn windows_are_recognized_in_any_letter_case() {
    let installed = both();
    let found = browser_of_window(&installed, &some("C:\\Chrome\\Chrome.EXE"));
    assert_eq!(found, Some(&installed[1]));
    assert_eq!(browser_of_window(&installed, &None), None);
    assert_eq!(browser_of_window(&installed, &some("c:\\other.exe")), None);
    assert_eq!(browser_of_path(&installed, "c:\\firefox\\firefox.exe"), Some(&installed[0]));
    assert_eq!(browser_of_path(&installed, "C:\\firefox\\firefox.exe"), None);
}

#[test]
fn topmost_browser_is_the_first_visible_one() {
    let installed = both();
    let windows = vec![
        window(true, Some("c:\\editor.exe")),
        window(false, Some("c:\\firefox\\firefox.exe")),
        window(true, None),
        window(true, Some("c:\\chrome\\chrome.exe")),
        window(true, Some("c:\\firefox\\firefox.exe")),
    ];
    assert_eq!(topmost_browser(&installed, &windows), Some(&installed[1]));
    assert_eq!(topmost_browser(&installed, &windows[..3].iter().map(|w| window(w.visible, w.executable.as_deref())).collect()), None);
}

#[test]
fn browser_in_the_foreground_is_remembered() {
    let mut state = State::new(both(), None);
    let firefox = some("C:\\FIREFOX\\firefox.exe");
    let id = state.foreground_changed(&firefox);
    assert_eq!(id.as_deref(), Some("FirefoxURL"));
    assert_eq!(state.foreground_changed(&firefox), id);
    state.saved(id.unwrap());
    assert_eq!(state.foreground_changed(&firefox), None);
    assert_eq!(state.foreground_changed(&some("c:\\editor.exe")), None);
    assert_eq!(state.foreground_changed(&None), None);
    assert_eq!(state.most_recent_browser_id.as_deref(), Some("FirefoxURL"));
    let windows = vec![window(true, Some("c:\\firefox\\firefox.exe"))];
    assert_eq!(state.remember_topmost_browser(&windows).as_deref(), Some("FirefoxURL"));
    assert_eq!(state.remember_topmost_browser(&Vec::new()), None);
}

#[test]
fn failed_save_is_tried_again() {
    let mut setting: Option<String> = None;
    let unnamed = some("ChromeHTML");
    let mut state = State::new(both(), load_most_recent_browser_id(&setting, &unnamed));
    let firefox = some("c:\\firefox\\firefox.exe");
    // This save fails, so the browser is remembered neither here nor in the setting.
    assert_eq!(state.foreground_changed(&firefox), some("FirefoxURL"));
    assert_eq!(state.most_recent_browser_id, some("ChromeHTML"));
    assert_eq!(load_most_recent_browser_id(&setting, &unnamed), state.most_recent_browser_id);
    let opening =
        open(vec!["x".to_string()], Ok(None), load_most_recent_browser_id(&setting, &unnamed));
    assert_eq!(
        opening.action(),
        Action::Launch { link: "x".to_string(), program_id: "ChromeHTML".to_string() }
    );
    // The next one succeeds.
    let id = state.foreground_changed(&firefox).unwrap();
    if let Data::Text(text) = save_most_recent_browser_id(&id).data {
        setting = Some(text);
    }
    state.saved(id);
    assert_eq!(load_most_recent_browser_id(&setting, &unnamed), state.most_recent_browser_id);
    let opening =
        open(vec!["x".to_string()], Ok(None), load_most_recent_browser_id(&setting, &unnamed));
    let (tried, end) = perform(opening, &[("x", "FirefoxURL")]);
    assert_eq!(tried, pairs(&[("x", "FirefoxURL")]));
    assert_eq!(end, Action::Save { program_id: "FirefoxURL".to_string() });
}

#[test]
fn opening_links_saves_for_the_next_start() {
    let stored = |id: &str| match save_most_recent_browser_id(id).data {
        Data::Text(text) => load_most_recent_browser_id(&Some(text), &None),
        Data::Wide(_) => None,
    };
    // At the start the browser of the topmost window is saved.
    let mut state = State::new(both(), None);
    let windows = vec![window(true, Some("c:\\firefox\\firefox.exe"))];
    let id = state.remember_topmost_browser(&windows).unwrap();
    let mut setting = stored(&id);
    state.saved(id);
    assert_eq!(setting, state.most_recent_browser_id);
    // Opening links saves the browser that is topmost now, behind the running program's back.
    let windows = vec![window(true, Some("c:\\chrome\\chrome.exe"))];
    let topmost = topmost_browser(&state.installed_browsers, &windows).map(|b| b.program_id.clone());
    let (_, end) = perform(open(vec!["x".to_string()], Ok(topmost), setting), &[("x", "ChromeHTML")]);
    assert_eq!(end, Action::Save { program_id: "ChromeHTML".to_string() });
    setting = stored("ChromeHTML");
    assert_eq!(setting, some("ChromeHTML"));
    assert_eq!(state.most_recent_browser_id, some("FirefoxURL"));
    // A browser that the running program remembers is not saved again.
    assert_eq!(state.foreground_changed(&some("c:\\firefox\\firefox.exe")), None);
    let opening = open(vec!["x".to_string()], Ok(None), setting);
    assert_eq!(
        opening.action(),
        Action::Launch { link: "x".to_string(), program_id: "ChromeHTML".to_string() }
    );
    // Another one is, and the two agree again.
    let id = state.foreground_changed(&some("c:\\chrome\\chrome.exe")).unwrap();
    let setting = stored(&id);
    state.saved(id);
    assert_eq!(setting, state.most_recent_browser_id);
}

#[test]
fn menu_names_the_browsers() {
    let label = |text: &str| MenuItem::Label(text.to_string());
    let mut state = State::new(both(), None);
    let menu = state.show_menu(&None);
    assert_eq!(menu.len(), 7);
    assert_eq!(menu[2], label("Most recently used browser: none detected yet"));
    assert_eq!(menu[3], label("Default http handler: not me ☹️"));
    state.saved("ChromeHTML".to_string());
    let menu = state.show_menu(&some("FirefoxURL"));
    assert_eq!(menu[2], label("Most recently used browser: Chrome"));
    assert_eq!(menu[3], label("Default http handler: Firefox ☹️"));
    state.saved("Gone".to_string());
    let menu = state.show_menu(&some("Unknown"));
    assert_eq!(menu[2], label("Most recently used browser: Gone"));
    assert_eq!(menu[3], label("Default http handler: not me ☹️"));
    let menu = state.show_menu(&some(OUR_PROGRAM_ID));
    assert_eq!(menu.len(), 6);
    assert_eq!(menu[3], label("Default http handler: me 👌"));
    assert_eq!(menu[5], MenuItem::Quit("Quit".to_string()));
}

/// Performs the actions of `opening`, where only the given pairs of link and id work.
fn perform(mut opening: Opening, working: &[(&str, &str)]) -> (Vec<(String, String)>, Action) {
    let mut tried = Vec::new();
    loop {
        match opening.action() {
            Action::Launch { link, program_id } => {
                let works = working.contains(&(link.as_str(), program_id.as_str()));
                opening.launched(if works { None } else { some("no") });
                tried.push((link, program_id));
            }
            action => return (tried, action),
        }
    }
}

fn pairs(list: &[(&str, &str)]) -> Vec<(String, String)> {
    list.iter().map(|(a, b)| (a.to_string(), b.to_string())).collect()
}

#[test]
fn topmost_browser_opens_the_links() {
    let links = vec!["x".to_string(), "y".to_string()];
    let opening = open(links, Ok(some("A")), some("B"));
    let (tried, end) = perform(opening, &[("x", "A"), ("y", "A")]);
    assert_eq!(tried, pairs(&[("x", "A"), ("y", "A")]));
    assert_eq!(end, Action::Save { program_id: "A".to_string() });
}

#[test]
fn remembered_browser_opens_the_links_otherwise() {
    let links = || vec!["x".to_string(), "y".to_string()];
    let (tried, end) = perform(open(links(), Ok(some("A")), some("B")), &[("x", "A"), ("x", "B"), ("y", "B")]);
    assert_eq!(tried, pairs(&[("x", "A"), ("y", "A"), ("x", "B"), ("y", "B")]));
    assert_eq!(end, Action::Save { program_id: "B".to_string() });
    let (tried, end) = perform(open(links(), Ok(None), some("B")), &[("x", "B"), ("y", "B")]);
    assert_eq!(tried, pairs(&[("x", "B"), ("y", "B")]));
    assert_eq!(end, Action::Save { program_id: "B".to_string() });
}

#[test]
fn failures_are_listed() {
    let links = || vec!["x".to_string()];
    let (_, end) = perform(open(links(), Ok(some("A")), some("B")), &[]);
    assert_eq!(
        end,
        Action::Fail {
            message: "Overbrowsered could not open the link.\n\nopening x with A: no\n\nopening x with B: no".to_string()
        }
    );
    let (tried, end) = perform(open(links(), Ok(some("A")), some("A")), &[]);
    assert_eq!(tried.len(), 2);
    assert_eq!(
        end,
        Action::Fail {
            message: "Overbrowsered could not open the link.\n\nopening x with A: no".to_string()
        }
    );
    let (tried, end) = perform(open(links(), Ok(None), None), &[]);
    assert!(tried.is_empty());
    assert_eq!(
        end,
        Action::Fail {
            message: format!("Overbrowsered could not open the link.\n\nno browser window is open\n\n{}", NO_BROWSER_ADVICE)
        }
    );
    let (_, end) = perform(open(links(), Err("denied".to_string()), some("B")), &[]);
    assert_eq!(
        end,
        Action::Fail {
            message: "Overbrowsered could not open the link.\n\ndenied\n\nopening x with B: no".to_string()
        }
    );
}

#[test]
fn finished_opening_stays_finished() {
    let mut opening = open(Vec::new(), Ok(some("A")), None);
    let end = opening.action();
    assert_eq!(end, Action::Save { program_id: "A".to_string() });
    opening.launched(some("no"));
    assert_eq!(opening.action(), end);
}

#[test]
fn opening_made_by_hand_is_safe() {
    let mut opening = Opening {
        links: vec!["x".to_string()],
        candidates: vec![Ok("A".to_string()), Err("no".to_string())],
        tried: 5,
        opened: 7,
        failures: Vec::new(),
    };
    let end =
        Action::Fail { message: "Overbrowsered could not open the link.\n\n".to_string() };
    assert_eq!(opening.action(), end);
    opening.launched(None);
    assert_eq!(opening.action(), end);
    opening.tried = 0;
    assert_eq!(opening.action(), Action::Save { program_id: "A".to_string() });
    opening.tried = 1;
    assert_eq!(opening.action(), Action::Fail { message: "no".to_string() });
    opening.launched(some("y"));
    assert_eq!((opening.tried, opening.opened), (1, 7));
}

#[test]
fn messages_to_the_tray_window() {
    assert_eq!(window_proc(0x8000, 0x0202, None), Reaction::ShowMenu);
    assert_eq!(window_proc(0x8000, 0x0205, None), Reaction::ShowMenu);
    assert_eq!(window_proc(0x8000, 0x1_0000_0202, None), Reaction::ShowMenu);
    assert_eq!(window_proc(0x8000, 0x0202 - 0x1_0000_0000, None), Reaction::ShowMenu);
    assert_eq!(window_proc(0x8000, 0x0201, Some(0x8000)), Reaction::Ignore);
    assert_eq!(window_proc(0x8000, -1, None), Reaction::Ignore);
    assert_eq!(window_proc(2, 0, Some(2)), Reaction::Quit);
    assert_eq!(window_proc(0xc123, 0, Some(0xc123)), Reaction::RestoreTrayIcon);
    assert_eq!(window_proc(0xc123, 0, None), Reaction::PassOn);
    assert_eq!(window_proc(1, 0, Some(0xc123)), Reaction::PassOn);
    assert!(needs_taskbar_message(1));
    assert!(!needs_taskbar_message(2));
    assert!(!needs_taskbar_message(0x8000));
}

#[test]
fn menu_items_are_chosen_by_number() {
    assert_eq!(menu_item_number(&MenuItem::Quit("Quit".to_string())), Some(1));
    assert_eq!(menu_item_number(&MenuItem::SetDefault("x".to_string())), Some(2));
    assert_eq!(menu_item_number(&MenuItem::Label("x".to_string())), None);
    assert_eq!(menu_item_number(&MenuItem::Separator), None);
    assert_eq!(menu_choice(Some(1)), Choice::Quit);
    assert_eq!(menu_choice(Some(2)), Choice::OpenSettings);
    assert_eq!(menu_choice(Some(0)), Choice::Nothing);
    assert_eq!(menu_choice(None), Choice::Nothing);
}

#[test]
fn only_one_instance_runs() {
    assert_eq!(ensure_only_one_app_instance(true, 0), Instance::Only);
    assert_eq!(ensure_only_one_app_instance(true, 183), Instance::Another);
    assert_eq!(ensure_only_one_app_instance(false, 183), Instance::Unknown);
}

#[test]
fn failed_restart_registration_is_told() {
    assert_eq!(register_for_autorestart(0), None);
    assert_eq!(
        register_for_autorestart(-2147467259).as_deref(),
        Some("RegisterApplicationRestart failed with HRESULT 0x80004005")
    );
    assert_eq!(
        register_for_autorestart(-1).as_deref(),
        Some("RegisterApplicationRestart failed with HRESULT 0xffffffff")
    );
}

#[test]
fn program_is_registered_as_a_browser() {
    let path = wide("C:\\Program Files\\o.exe");
    assert_eq!(shell_command(&path), wide("\"C:\\Program Files\\o.exe\" \"%1\""));
    assert_eq!(icon_location(&path), wide("\"C:\\Program Files\\o.exe\",0"));
    assert_eq!(shell_command(&vec![0xd800]), vec![0x22, 0xd800, 0x22, 0x20, 0x22, 0x25, 0x31, 0x22]);
    let values = register_as_link_handler(&path);
    let command = Data::Wide(shell_command(&path));
    let icon = Data::Wide(icon_location(&path));
    let text = |text: &str| Data::Text(text.to_string());
    let class = "Software\\Classes\\Overbrowsered.Url";
    let client = "Software\\Clients\\StartMenuInternet\\Overbrowsered";
    let expected = vec![
        (class.to_string(), "", text("Overbrowsered URL Handler")),
        (format!("{class}\\shell\\open\\command"), "", Data::Wide(shell_command(&path))),
        (format!("{class}\\DefaultIcon"), "", Data::Wide(icon_location(&path))),
        (client.to_string(), "", text("Overbrowsered")),
        (format!("{client}\\shell\\open\\command"), "", command),
        (format!("{client}\\DefaultIcon"), "", icon),
        (format!("{client}\\Capabilities"), "ApplicationName", text("Overbrowsered")),
        (
            format!("{client}\\Capabilities"),
            "ApplicationDescription",
            text("Opens links in your most recently used browser"),
        ),
        (format!("{client}\\Capabilities"), "ApplicationIcon", Data::Wide(icon_location(&path))),
        (format!("{client}\\Capabilities\\Startmenu"), "StartMenuInternet", text("Overbrowsered")),
        (format!("{client}\\Capabilities\\URLAssociations"), "http", text("Overbrowsered.Url")),
        (format!("{client}\\Capabilities\\URLAssociations"), "https", text("Overbrowsered.Url")),
        (format!("{client}\\Capabilities\\FileAssociations"), ".htm", text("Overbrowsered.Url")),
        (format!("{client}\\Capabilities\\FileAssociations"), ".html", text("Overbrowsered.Url")),
        (
            "Software\\RegisteredApplications".to_string(),
            "Overbrowsered",
            text("Software\\Clients\\StartMenuInternet\\Overbrowsered\\Capabilities"),
        ),
    ];
    assert_eq!(values.len(), expected.len());
    for (value, (key, name, data)) in values.into_iter().zip(expected) {
        assert_eq!(value.key, key);
        assert_eq!(value.name, name);
        assert_eq!(value.data, data);
        assert!(!value.key.contains("UserChoice"));
    }
}

#[test]
fn quoted_command_starts_its_program() {
    let path = "C:\\Program Files\\\u{1f600}\\o.exe";
    let line = format!("\"{path}\" \"%1\"");
    assert_eq!(shell_command(&wide(path)), wide(&line));
    assert_eq!(command_line(&line), line);
    let split = application("o", Some("O"), None, Some(path));
    assert_eq!(command_executable(&split).as_deref(), Some(path));
    let unread = application("o", Some("O"), None, None);
    assert_eq!(command_executable(&unread), None);
    assert_eq!(installed_browsers(&vec![unread]), Vec::new());
}

#[test]
fn registration_leads_to_the_command() {
    let path = wide("C:\\o.exe");
    let values = register_as_link_handler(&path);
    let held = |key: &str, name: &str| {
        values.iter().rev().find(|v| v.key == key && v.name == name).map(|v| &v.data)
    };
    let Some(Data::Text(capabilities)) = held("Software\\RegisteredApplications", "Overbrowsered")
    else {
        panic!("not listed");
    };
    let Some(Data::Text(id)) = held(&format!("{capabilities}\\URLAssociations"), "https") else {
        panic!("no program id");
    };
    assert_eq!(id, OUR_PROGRAM_ID);
    assert_eq!(
        held(&format!("Software\\Classes\\{id}\\shell\\open\\command"), ""),
        Some(&Data::Wide(shell_command(&path)))
    );
    assert_eq!(
        held("Software\\Clients\\StartMenuInternet\\Overbrowsered\\shell\\open\\command", ""),
        Some(&Data::Wide(shell_command(&path)))
    );
}

#[test]
fn settings_have_a_fallback() {
    assert_eq!(default_http_handler(&some("a"), &some("b")), some("a"));
    assert_eq!(default_http_handler(&None, &some("b")), some("b"));
    assert_eq!(default_http_handler(&None, &None), None);
    let value = save_most_recent_browser_id("FirefoxURL");
    assert_eq!(value.key, "Software\\Overbrowsered");
    assert_eq!(value.name, "MostRecentBrowser");
    assert_eq!(value.data, Data::Text("FirefoxURL".to_string()));
    assert_eq!(load_most_recent_browser_id(&some("FirefoxURL"), &some("old")), some("FirefoxURL"));
    assert_eq!(load_most_recent_browser_id(&None, &some("old")), some("old"));
}
