use overbrowsered::desktop::{entry_path, find_command, read_fields, DesktopFile, Fields};
use overbrowsered::linux::{
    activated_sender, browser_of_fields, browser_of_file, default_browser_desktop_file,
    default_file, enable_accessibility, executable_link, flatpak_info_path, installed_browsers, launch,
    load_most_recent_browser_id, open, recognize_process, register_as_link_handler, report, Browser,
    Event, FocusWatch, Launch, OpenError, Overbrowsered, RecognizedBy, DESKTOP_FILE,
};
use overbrowsered::menu::MenuItem;
use overbrowsered::messages::{
    default_handler_line, most_recent_browser_line, AUTHOR_LINE, NO_BROWSER_ADVICE,
    SET_DEFAULT_PROMPT,
};

fn file(path: &str, contents: &str) -> DesktopFile {
    DesktopFile { path: path.to_string(), contents: contents.to_string() }
}

fn strings(list: &[&str]) -> Vec<String> {
    list.iter().map(|s| s.to_string()).collect()
}

fn firefox() -> DesktopFile {
    file(
        "/usr/share/applications/firefox.desktop",
        "[Desktop Entry]\nType=Application\nName=Firefox\nName[fr]=Renard\nExec=/usr/lib/firefox/firefox %u\nMimeType=text/html;x-scheme-handler/http;x-scheme-handler/https;\n",
    )
}

fn chromium() -> DesktopFile {
    file(
        "/var/lib/flatpak/exports/share/applications/org.chromium.Chromium.desktop",
        "[Desktop Entry]\nType=Application\nExec=/usr/bin/flatpak run --branch=stable org.chromium.Chromium @@u %U @@\nX-Flatpak=org.chromium.Chromium\nMimeType=x-scheme-handler/http\n",
    )
}

fn editor() -> DesktopFile {
    file(
        "/usr/share/applications/editor.desktop",
        "[Desktop Entry]\nName=Editor\nExec=editor %F\nMimeType=text/plain;\n",
    )
}

fn own() -> DesktopFile {
    let entry = register_as_link_handler("/opt/overbrowsered", None).unwrap();
    file("/home/me/.local/share/applications/overbrowsered.desktop", &entry)
}

fn browser(appid: &str, name: &str, recognized_by: RecognizedBy) -> Browser {
    Browser { appid: appid.to_string(), display_name: name.to_string(), recognized_by }
}

fn executable(name: &str) -> RecognizedBy {
    RecognizedBy::Executable(name.to_string())
}

fn flatpak(name: &str) -> RecognizedBy {
    RecognizedBy::FlatpakApp(name.to_string())
}

fn both() -> Vec<Browser> {
    vec![
        browser("firefox", "Firefox", executable("firefox")),
        browser("org.chromium.Chromium", "org.chromium.Chromium", flatpak("org.chromium.Chromium")),
    ]
}

#[test]
fn lines_of_the_menu() {
    assert_eq!(most_recent_browser_line(None), "Most recently used browser: none detected yet");
    assert_eq!(most_recent_browser_line(Some("Firefox")), "Most recently used browser: Firefox");
    assert_eq!(default_handler_line(true, Some("x")), "Default http handler: me 👌");
    assert_eq!(default_handler_line(false, Some("Edge")), "Default http handler: Edge ☹️");
    assert_eq!(default_handler_line(false, None), "Default http handler: not me ☹️");
}

#[test]
fn browsers_are_found_among_the_entries() {
    let files = vec![firefox(), editor(), own(), chromium(), file("/a/applications/x.txt", "")];
    assert_eq!(installed_browsers(&files, &Vec::new()), both());
    assert_eq!(
        installed_browsers(&vec![firefox()], &strings(&["fr_FR"])),
        vec![browser("firefox", "Renard", executable("firefox"))]
    );
    assert!(installed_browsers(&Vec::new(), &Vec::new()).is_empty());
}

#[test]
fn this_program_is_no_browser() {
    assert!(own().contents.contains("x-scheme-handler/http;"));
    assert_eq!(browser_of_file(&own(), &Vec::new()), None);
}

#[test]
fn entry_in_a_subdirectory_has_a_dashed_id() {
    let mut kde = firefox();
    kde.path = "/usr/share/applications/kde4/firefox.desktop".to_string();
    assert_eq!(read_fields(&kde, &Vec::new()).unwrap().appid, "kde4-firefox");
}

#[test]
fn fields_are_read_from_the_entry() {
    let fields = read_fields(&firefox(), &strings(&["fr"])).unwrap();
    assert_eq!(fields.appid, "firefox");
    assert_eq!(
        fields.mime_types,
        Some(strings(&["text/html", "x-scheme-handler/http", "x-scheme-handler/https", ""]))
    );
    assert_eq!(fields.name.as_deref(), Some("Renard"));
    assert_eq!(fields.flatpak, None);
    assert_eq!(fields.command, Some(strings(&["/usr/lib/firefox/firefox"])));
    let fields = read_fields(&chromium(), &Vec::new()).unwrap();
    assert_eq!(fields.flatpak.as_deref(), Some("org.chromium.Chromium"));
    assert_eq!(fields.name, None);
    let bare = read_fields(&file("/a/applications/b.desktop", "[Desktop Entry]\n"), &Vec::new());
    let bare = bare.unwrap();
    assert_eq!(bare.mime_types, None);
    assert_eq!(bare.command, None);
    assert!(read_fields(&file("/a/b.desktop", "no entry\n"), &Vec::new()).is_none());
}

fn fields(appid: &str, types: Option<&[&str]>, command: Option<&[&str]>) -> Fields {
    Fields {
        appid: appid.to_string(),
        mime_types: types.map(strings),
        name: None,
        flatpak: None,
        command: command.map(strings),
    }
}

#[test]
fn browser_must_open_http_and_be_recognizable() {
    let http: &[&str] = &["x-scheme-handler/http"];
    assert_eq!(
        browser_of_fields(&fields("a", Some(http), Some(&["/opt/a/run", "-x"]))),
        Some(browser("a", "a", executable("run")))
    );
    assert_eq!(browser_of_fields(&fields("overbrowsered", Some(http), Some(&["a"]))), None);
    assert_eq!(browser_of_fields(&fields("a", None, Some(&["a"]))), None);
    assert_eq!(
        browser_of_fields(&fields("a", Some(&["x-scheme-handler/https"]), Some(&["a"]))),
        None
    );
    assert_eq!(browser_of_fields(&fields("a", Some(http), None)), None);
    assert_eq!(browser_of_fields(&fields("a", Some(http), Some(&[]))), None);
    assert_eq!(browser_of_fields(&fields("a", Some(http), Some(&["/"]))), None);
    let mut packaged = fields("a", Some(http), None);
    packaged.flatpak = Some("org.a".to_string());
    packaged.name = Some("A".to_string());
    assert_eq!(browser_of_fields(&packaged), Some(browser("a", "A", flatpak("org.a"))));
}

#[test]
fn processes_are_recognized() {
    let info = "[Application]\nname=org.chromium.Chromium\nruntime=x\nname=second\n";
    assert_eq!(
        recognize_process(Some(info), &Some(b"/usr/bin/bwrap".to_vec())),
        Some(flatpak("org.chromium.Chromium"))
    );
    assert_eq!(recognize_process(Some("[Instance]\n"), &Some(b"/bin/x".to_vec())), None);
    assert_eq!(
        recognize_process(None, &Some(b"/usr/lib/firefox/firefox".to_vec())),
        Some(executable("firefox"))
    );
    assert_eq!(
        recognize_process(None, &Some(b"/home/\xff/bin/caf\xc3\xa9".to_vec())),
        Some(executable("café"))
    );
    assert_eq!(recognize_process(None, &Some(b"/usr/bin/\xff".to_vec())), None);
    assert_eq!(recognize_process(None, &Some(b"/".to_vec())), None);
    assert_eq!(recognize_process(None, &None), None);
    assert_eq!(flatpak_info_path(4012), "/proc/4012/root/.flatpak-info");
    assert_eq!(executable_link(1), "/proc/1/exe");
}

#[test]
fn focus_is_announced_by_two_events() {
    let sender = Some(":1.7".to_string());
    assert_eq!(activated_sender(&Event::WindowActivated { sender: sender.clone() }), sender);
    let change = |state: &str, enabled: bool| Event::StateChanged {
        state: state.to_string(),
        enabled,
        sender: Some(":1.7".to_string()),
    };
    assert_eq!(activated_sender(&change("active", true)), sender);
    assert_eq!(activated_sender(&change("active", false)), None);
    assert_eq!(activated_sender(&change("focused", true)), None);
    assert_eq!(activated_sender(&Event::WindowActivated { sender: None }), None);
    assert_eq!(activated_sender(&Event::Other), None);
}

#[test]
fn last_focused_browser_is_remembered() {
    let mut watch = FocusWatch::new(both(), Some("firefox".to_string()));
    assert_eq!(watch.focused(&Some(executable("firefox"))), None);
    assert_eq!(watch.focused(&Some(executable("gedit"))), None);
    assert_eq!(watch.focused(&None), None);
    assert_eq!(watch.most_recent.as_deref(), Some("firefox"));
    let chromium = Some(flatpak("org.chromium.Chromium"));
    assert_eq!(watch.focused(&chromium).as_deref(), Some("org.chromium.Chromium"));
    assert_eq!(watch.most_recent.as_deref(), Some("org.chromium.Chromium"));
    assert_eq!(watch.focused(&chromium), None);
    assert_eq!(watch.focused(&Some(executable("org.chromium.Chromium"))), None);
    assert_eq!(watch.focused(&Some(executable("firefox"))).as_deref(), Some("firefox"));
    assert_eq!(watch.installed, both());
}

#[test]
fn links_open_in_the_last_focused_browser() {
    let files = vec![firefox(), chromium(), own()];
    let mut watch = FocusWatch::new(installed_browsers(&files, &Vec::new()), None);
    let saved = watch.focused(&Some(executable("firefox"))).unwrap();
    let remembered = load_most_recent_browser_id(Some(&saved));
    let links = strings(&["https://example.org/"]);
    assert_eq!(
        open(&links, &remembered, &files, &Vec::new()),
        Ok(Launch {
            program: "/usr/lib/firefox/firefox".to_string(),
            arguments: strings(&["https://example.org/"]),
        })
    );
}

#[test]
fn links_open_in_the_last_saved_browser() {
    let files = vec![firefox(), chromium(), own()];
    let mut contents = "firefox\n".to_string();
    let remembered = load_most_recent_browser_id(Some(&contents));
    let mut watch = FocusWatch::new(installed_browsers(&files, &Vec::new()), remembered);
    let other = Some(flatpak("org.chromium.Chromium"));
    // This save fails, so the file stays as it was while the running program remembers.
    assert_eq!(watch.focused(&other).as_deref(), Some("org.chromium.Chromium"));
    assert_eq!(watch.focused(&other), None);
    assert_eq!(watch.most_recent.as_deref(), Some("org.chromium.Chromium"));
    let links = strings(&["https://example.org/"]);
    let remembered = load_most_recent_browser_id(Some(&contents));
    let launch = open(&links, &remembered, &files, &Vec::new()).unwrap();
    assert_eq!(launch.program, "/usr/lib/firefox/firefox");
    // The next ones succeed.
    contents = watch.focused(&Some(executable("firefox"))).unwrap();
    assert_eq!(contents, "firefox");
    contents = watch.focused(&other).unwrap();
    let remembered = load_most_recent_browser_id(Some(&contents));
    assert_eq!(remembered, watch.most_recent);
    let launch = open(&links, &remembered, &files, &Vec::new()).unwrap();
    assert_eq!(launch.program, "/usr/bin/flatpak");
}

#[test]
fn links_that_cannot_be_opened() {
    let links = strings(&["https://example.org/"]);
    let files = vec![
        firefox(),
        file("/x/applications/noexec.desktop", "[Desktop Entry]\nName=x\n"),
        file("/x/applications/quote.desktop", "[Desktop Entry]\nExec=\"x\n"),
    ];
    let none = open(&links, &None, &files, &Vec::new()).unwrap_err();
    assert_eq!(none, OpenError::NoBrowser);
    assert_eq!(none.message(), NO_BROWSER_ADVICE);
    assert_eq!(
        none.message(),
        "Overbrowsered could not find a browser to open this link.\n\nFocus any browser window once so it can learn which one you use, then try the link again."
    );
    let gone = open(&links, &Some("opera".to_string()), &files, &Vec::new()).unwrap_err();
    assert_eq!(gone, OpenError::Gone { appid: "opera".to_string() });
    assert_eq!(
        gone.message(),
        "opera seems to be gone. Focus another browser window so Overbrowsered can learn your new one, then try the link again."
    );
    let bad = open(&links, &Some("noexec".to_string()), &files, &Vec::new()).unwrap_err();
    assert_eq!(bad.message(), "parsing the Exec line of noexec: Exec key was not found");
    let bad = open(&links, &Some("quote".to_string()), &files, &Vec::new()).unwrap_err();
    assert_eq!(
        bad,
        OpenError::BadExec { appid: "quote".to_string(), cause: "unmatched quote".to_string() }
    );
    assert_eq!(launch("x", Ok(Vec::new())), Err(OpenError::EmptyCommand));
    assert_eq!(OpenError::<String>::EmptyCommand.message(), "empty launch command");
}

#[test]
fn commands_take_links_and_locales() {
    let files = vec![file(
        "/x/applications/all.desktop",
        "[Desktop Entry]\nName=All\nName[de]=Alle\nIcon=i\nExec=run %U %c %i %k\n",
    )];
    assert_eq!(
        find_command(&files, "all", &strings(&["a", "b"]), &strings(&["de_DE"])),
        Some(Ok(strings(&["run", "a", "b", "Alle", "i", "/x/applications/all.desktop"])))
    );
    assert_eq!(find_command(&files, "al", &Vec::new(), &Vec::new()), None);
}

#[test]
fn path_of_an_entry_needs_an_id_in_utf8() {
    let path = |bytes: &[u8]| entry_path(&bytes.to_vec());
    assert_eq!(
        path("/usr/share/applications/é.desktop".as_bytes()).as_deref(),
        Some("/usr/share/applications/é.desktop")
    );
    assert_eq!(
        path(b"/home/\xff/applications/a/b.desktop").as_deref(),
        Some("/home/\u{fffd}/applications/a/b.desktop")
    );
    assert_eq!(path(b"/x/applications/\xff/b.desktop"), None);
    assert_eq!(path(b"/x/applications/applications/\xff"), None);
    assert_eq!(path(b"/\xff/b.desktop").as_deref(), Some("/\u{fffd}/b.desktop"));
    assert_eq!(path(b"/a/\xff.desktop"), None);
    assert_eq!(path(b"b.desktop").as_deref(), Some("b.desktop"));
    assert_eq!(path(b"\xff"), None);
}

#[test]
fn first_entry_with_the_id_is_used() {
    let mut second = firefox();
    second.contents = second.contents.replace("/usr/lib", "/opt");
    let files = vec![second, firefox()];
    let launch = open(&Vec::new(), &Some("firefox".to_string()), &files, &Vec::new()).unwrap();
    assert_eq!(launch.program, "/opt/firefox/firefox");
}

#[test]
fn remembered_id_is_trimmed() {
    assert_eq!(load_most_recent_browser_id(Some(" firefox\n")).as_deref(), Some("firefox"));
    assert_eq!(load_most_recent_browser_id(Some("\n")).as_deref(), Some(""));
    assert_eq!(load_most_recent_browser_id(None), None);
    assert_eq!(load_most_recent_browser_id(Some("my browser")).as_deref(), Some("my browser"));
}

#[test]
fn default_browser_is_read_from_the_output() {
    assert_eq!(
        default_browser_desktop_file(&b"firefox.desktop\n".to_vec()).as_deref(),
        Some("firefox.desktop")
    );
    assert_eq!(default_browser_desktop_file(&b" \n".to_vec()), None);
    assert_eq!(default_browser_desktop_file(&b"a\xffb".to_vec()).as_deref(), Some("a\u{fffd}b"));
    assert_eq!(default_file("").as_deref(), None);
    assert_eq!(default_file("x ").as_deref(), Some("x"));
}

#[test]
fn menu_shows_what_is_known() {
    let label = |text: &str| MenuItem::Label(text.to_string());
    let mut tray = Overbrowsered { browsers: both(), most_recent: None, default_handler: None };
    assert_eq!(tray.id(), "overbrowsered");
    assert_eq!(
        tray.menu(),
        vec![
            label("Overbrowsered by @ibmisiak"),
            MenuItem::Separator,
            label("Most recently used browser: none detected yet"),
            label("Default http handler: not me ☹️"),
            MenuItem::SetDefault(SET_DEFAULT_PROMPT.to_string()),
            MenuItem::Separator,
            MenuItem::Quit("Quit".to_string()),
        ]
    );
    tray.most_recent = Some("firefox".to_string());
    tray.default_handler = Some("org.gnome.Epiphany.desktop".to_string());
    assert_eq!(tray.menu()[2], label("Most recently used browser: Firefox"));
    assert_eq!(tray.menu()[3], label("Default http handler: org.gnome.Epiphany ☹️"));
    tray.most_recent = Some("opera".to_string());
    tray.default_handler = Some(DESKTOP_FILE.to_string());
    assert_eq!(
        tray.menu(),
        vec![
            label(AUTHOR_LINE),
            MenuItem::Separator,
            label("Most recently used browser: opera"),
            label("Default http handler: me 👌"),
            MenuItem::Separator,
            MenuItem::Quit("Quit".to_string()),
        ]
    );
}

#[test]
fn registration_is_written_once() {
    let entry = register_as_link_handler("/usr/bin/overbrowsered", None).unwrap();
    assert_eq!(
        entry,
        "[Desktop Entry]\nType=Application\nName=Overbrowsered\nComment=Opens links in your most recently used browser\nExec=/usr/bin/overbrowsered %u\nIcon=overbrowsered\nTerminal=false\nStartupNotify=false\nCategories=Network;WebBrowser;\nMimeType=x-scheme-handler/unknown;x-scheme-handler/about;text/html;x-scheme-handler/http;x-scheme-handler/https;\n"
    );
    assert_eq!(register_as_link_handler("/usr/bin/overbrowsered", Some(&entry)), None);
    assert!(register_as_link_handler("/opt/overbrowsered", Some(&entry)).is_some());
}

#[test]
fn types_are_declared_on_one_line() {
    let entry = register_as_link_handler("/opt/MimeType=x/overbrowsered", None).unwrap();
    let lines: Vec<&str> = entry.lines().collect();
    assert_eq!(lines.len(), 10);
    assert_eq!(lines[4], "Exec=/opt/MimeType=x/overbrowsered %u");
    let declared: Vec<usize> =
        (0..lines.len()).filter(|i| lines[*i].starts_with("MimeType=")).collect();
    assert_eq!(declared, vec![9]);
}

#[test]
fn types_are_declared_last() {
    let declared = |path: &str| -> Vec<bool> {
        let entry = register_as_link_handler(path, None).unwrap();
        entry.lines().map(|line| line.starts_with("MimeType=")).collect()
    };
    let mut expected = vec![false; 11];
    expected[10] = true;
    assert_eq!(declared("/opt/a\nb MimeType=x"), expected);
    expected[5] = true;
    assert_eq!(declared("/opt/a\nMimeType=x"), expected);
}

#[test]
fn accessibility_is_switched_on_once() {
    assert_eq!(enable_accessibility(false), Some(true));
    assert_eq!(enable_accessibility(true), None);
}

#[test]
fn errors_are_shown_as_notifications() {
    assert_eq!(
        report("it failed"),
        strings(&["--app-name=Overbrowsered", "Overbrowsered", "it failed"])
    );
}
