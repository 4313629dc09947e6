//! What holds of the program on Linux as a whole.
use crate::desktop::{command_of, decoded, entry_with_id, path_in_applications};
use crate::linux::{
    browser_in, browser_running, browsers_in, first_recognized, launched, learned, loaded,
    most_recent_after, opened, own_entry, registration, Browser, RecognizedBy, DESKTOP_FILE, OWN_ID,
};
use crate::messages::APP_DESCRIPTION;
use crate::text::{
    law_trimmed_text_is_stable, lemma_first_line, lemma_lines_of_concat, lines_of, trimmed,
};
use vstd::prelude::*;

verus! {

/// An id that was saved is loaded back, unless it starts or ends with white space.
pub proof fn law_saved_id_is_loaded_back(id: Seq<char>)
    requires
        trimmed(id) == id,
    ensures
        loaded(Some(id)) == Some(id),
{
}

/// An id that was loaded stays the same when it is saved and loaded again.
pub proof fn law_loaded_id_stays(contents: Option<Seq<char>>)
    ensures
        loaded(loaded(contents)) == loaded(contents),
{
    if let Some(contents) = contents {
        law_trimmed_text_is_stable(contents);
    }
}

/// Registering leaves this program's own entry in place, and registering again then writes
/// nothing.
pub proof fn law_registration_settles(executable: Seq<char>, existing: Option<Seq<char>>)
    ensures
        ({
            let after = match registration(executable, existing) {
                Some(entry) => Some(entry),
                None => existing,
            };
            &&& after == Some(own_entry(executable))
            &&& registration(executable, after) is None
        }),
{
}

/// The file that this program registers itself in is the desktop entry with its own id.
pub proof fn law_own_entry_has_own_id(directory: Seq<char>)
    ensures
        directory + "/applications/"@ + DESKTOP_FILE@ == path_in_applications(directory, OWN_ID@),
{
    reveal_strlit("overbrowsered.desktop");
    reveal_strlit("overbrowsered");
    reveal_strlit(".desktop");
    assert(DESKTOP_FILE@ == OWN_ID@ + ".desktop"@);
}

/// The lines of this program's own desktop entry before the one with its command.
pub open spec fn lines_before_command() -> Seq<Seq<char>> {
    seq![
        "[Desktop Entry]"@,
        "Type=Application"@,
        "Name=Overbrowsered"@,
        "Comment="@ + APP_DESCRIPTION@,
    ]
}

/// The line of this program's own desktop entry with its command. A path that holds line feeds
/// spreads it over several lines.
pub open spec fn command_part(executable: Seq<char>) -> Seq<char> {
    "Exec="@ + executable + " %u\n"@
}

/// The line of this program's own desktop entry with the types of links that it opens.
pub open spec fn types_line() -> Seq<char> {
    "MimeType=x-scheme-handler/unknown;x-scheme-handler/about;text/html;x-scheme-handler/http;x-scheme-handler/https;"@
}

/// The lines of this program's own desktop entry behind the one with its command.
pub open spec fn lines_behind_command() -> Seq<Seq<char>> {
    seq![
        "Icon=overbrowsered"@,
        "Terminal=false"@,
        "StartupNotify=false"@,
        "Categories=Network;WebBrowser;"@,
        types_line(),
    ]
}

/// `lines` as text, each with a line feed behind it.
pub open spec fn ended_lines(lines: Seq<Seq<char>>) -> Seq<char>
    decreases lines.len(),
{
    if lines.len() == 0 {
        seq![]
    } else {
        lines.first() + seq!['\n'] + ended_lines(lines.drop_first())
    }
}

proof fn lemma_lines_of_ended_lines(lines: Seq<Seq<char>>)
    requires
        forall|i: int|
            0 <= i < lines.len() ==> !(#[trigger] lines[i]).contains('\n') && lines[i].len() > 0
                && lines[i].last() != '\r',
    ensures
        lines_of(ended_lines(lines)) == lines,
    decreases lines.len(),
{
    if lines.len() > 0 {
        let rest = lines.drop_first();
        assert forall|i: int| 0 <= i < rest.len() implies !(#[trigger] rest[i]).contains('\n')
            && rest[i].len() > 0 && rest[i].last() != '\r' by {
            assert(rest[i] == lines[i + 1]);
        }
        assert(lines.first() == lines[0]);
        lemma_first_line(lines.first(), ended_lines(rest));
        lemma_lines_of_ended_lines(rest);
        assert(seq![lines.first()] + rest == lines);
    }
}

/// This program's own desktop entry is made of its lines, one after the other, each with a line
/// feed behind it. The path of the program stands in it as it is.
pub proof fn law_own_entry_is_made_of_its_lines(executable: Seq<char>)
    ensures
        own_entry(executable) == ended_lines(lines_before_command()) + command_part(executable)
            + ended_lines(lines_behind_command()),
{
    reveal_strlit("[Desktop Entry]\nType=Application\nName=Overbrowsered\nComment=");
    reveal_strlit("[Desktop Entry]");
    reveal_strlit("Type=Application");
    reveal_strlit("Name=Overbrowsered");
    reveal_strlit("Comment=");
    reveal_strlit("\nExec=");
    reveal_strlit("Exec=");
    reveal_strlit(" %u\n");
    reveal_strlit("Icon=overbrowsered");
    reveal_strlit("Terminal=false");
    reveal_strlit("StartupNotify=false");
    reveal_strlit("Categories=Network;WebBrowser;");
    reveal_strlit(
        "MimeType=x-scheme-handler/unknown;x-scheme-handler/about;text/html;x-scheme-handler/http;x-scheme-handler/https;",
    );
    reveal_strlit(
        " %u\nIcon=overbrowsered\nTerminal=false\nStartupNotify=false\nCategories=Network;WebBrowser;\nMimeType=x-scheme-handler/unknown;x-scheme-handler/about;text/html;x-scheme-handler/http;x-scheme-handler/https;\n",
    );
    let feed = seq!['\n'];
    let before = lines_before_command();
    let behind = lines_behind_command();
    let start = before[0] + feed + before[1] + feed + before[2] + feed + "Comment="@;
    let end = behind[0] + feed + behind[1] + feed + behind[2] + feed + behind[3] + feed + behind[4]
        + feed;
    assert(own_entry(executable) == start + APP_DESCRIPTION@ + feed + command_part(executable) + end);
    reveal_with_fuel(ended_lines, 6);
    let none = Seq::<Seq<char>>::empty();
    assert(before.drop_first().drop_first().drop_first().drop_first() == none);
    assert(behind.drop_first().drop_first().drop_first().drop_first().drop_first() == none);
    assert(ended_lines(before) == start + APP_DESCRIPTION@ + feed);
    assert(ended_lines(behind) == end);
}

proof fn lemma_ended_lines(lines: Seq<Seq<char>>)
    ensures
        ended_lines(lines).len() > 0 ==> ended_lines(lines).last() == '\n',
    decreases lines.len(),
{
    if lines.len() > 0 {
        lemma_ended_lines(lines.drop_first());
    }
}

/// The lines of this program's own desktop entry, for every path of the program.
proof fn lemma_lines_of_own_entry(executable: Seq<char>)
    ensures
        lines_of(own_entry(executable)) == lines_before_command() + lines_of(
            command_part(executable),
        ) + lines_behind_command(),
        forall|i: int|
            0 <= i < 4 ==> !"MimeType="@.is_prefix_of(#[trigger] lines_before_command()[i]),
        forall|i: int|
            0 <= i < 5 ==> ("MimeType="@.is_prefix_of(#[trigger] lines_behind_command()[i])
                <==> i == 4),
{
    reveal_strlit("[Desktop Entry]");
    reveal_strlit("Type=Application");
    reveal_strlit("Name=Overbrowsered");
    reveal_strlit("Comment=");
    reveal_strlit("Opens links in your most recently used browser");
    reveal_strlit(" %u\n");
    reveal_strlit("Icon=overbrowsered");
    reveal_strlit("Terminal=false");
    reveal_strlit("StartupNotify=false");
    reveal_strlit("Categories=Network;WebBrowser;");
    reveal_strlit(
        "MimeType=x-scheme-handler/unknown;x-scheme-handler/about;text/html;x-scheme-handler/http;x-scheme-handler/https;",
    );
    reveal_strlit("MimeType=");
    let before = lines_before_command();
    let command = command_part(executable);
    let behind = lines_behind_command();
    law_own_entry_is_made_of_its_lines(executable);
    lemma_lines_of_ended_lines(before);
    lemma_lines_of_ended_lines(behind);
    lemma_ended_lines(before);
    assert(command.last() == '\n');
    lemma_lines_of_concat(ended_lines(before), command + ended_lines(behind));
    lemma_lines_of_concat(command, ended_lines(behind));
    assert(ended_lines(before) + command + ended_lines(behind) == ended_lines(before) + (command
        + ended_lines(behind)));
    assert("MimeType="@[0] == 'M');
    assert(forall|i: int| 0 <= i < 4 ==> (#[trigger] before[i])[0] != 'M');
    assert(forall|i: int| 0 <= i < 4 ==> (#[trigger] behind[i])[0] != 'M');
}

/// This program's own desktop entry declares the types of links that it opens on its last line,
/// and on no other. No line of the path of the program may look like such a declaration.
pub proof fn law_own_entry_declares_types_once(executable: Seq<char>)
    requires
        forall|i: int|
            0 <= i < lines_of(command_part(executable)).len() ==> !"MimeType="@.is_prefix_of(
                #[trigger] lines_of(command_part(executable))[i],
            ),
    ensures
        ({
            let lines = lines_of(own_entry(executable));
            &&& lines.len() > 0
            &&& lines.last() == types_line()
            &&& forall|i: int|
                0 <= i < lines.len() ==> ("MimeType="@.is_prefix_of(#[trigger] lines[i]) <==> i
                    == lines.len() - 1)
        }),
{
    let before = lines_before_command();
    let command = lines_of(command_part(executable));
    let behind = lines_behind_command();
    let lines = lines_of(own_entry(executable));
    lemma_lines_of_own_entry(executable);
    assert forall|i: int| 0 <= i < lines.len() implies ("MimeType="@.is_prefix_of(
        #[trigger] lines[i],
    ) <==> i == lines.len() - 1) by {
        if i < before.len() {
            assert(lines[i] == before[i]);
        } else if i < before.len() + command.len() {
            assert(lines[i] == command[i - before.len()]);
        } else {
            assert(lines[i] == behind[i - before.len() - command.len()]);
        }
    }
}

/// A path of the program without a line feed stands on one line of this program's own desktop
/// entry, which holds its command.
pub proof fn law_own_entry_holds_command(executable: Seq<char>)
    requires
        !executable.contains('\n'),
    ensures
        lines_of(own_entry(executable)) == lines_before_command().push(
            "Exec="@ + executable + " %u"@,
        ) + lines_behind_command(),
{
    reveal_strlit("Exec=");
    reveal_strlit(" %u");
    reveal_strlit(" %u\n");
    let line = "Exec="@ + executable + " %u"@;
    lemma_lines_of_own_entry(executable);
    assert forall|i: int| 0 <= i < line.len() implies line[i] != '\n' by {
        if 5 <= i < 5 + executable.len() {
            assert(line[i] == executable[i - 5]);
        }
    }
    lemma_first_line(line, seq![]);
    assert(command_part(executable) == line + seq!['\n'] + Seq::<char>::empty());
    assert(lines_of(command_part(executable)) == seq![line]);
    assert(lines_before_command() + seq![line] == lines_before_command().push(line));
}

/// A browser that gets the focus is the most recently used one from then on. Any other process
/// changes nothing.
pub proof fn law_focus_is_remembered(
    installed: Seq<Browser<Seq<char>>>,
    most_recent: Option<Seq<char>>,
    running_as: Option<RecognizedBy<Seq<char>>>,
)
    ensures
        most_recent_after(installed, most_recent, running_as) == match browser_running(
            installed,
            running_as,
        ) {
            Some(browser) => Some(browser.appid),
            None => most_recent,
        },
{
}

/// A browser that gets the focus twice in a row is saved at most once.
pub proof fn law_same_focus_is_saved_once(
    installed: Seq<Browser<Seq<char>>>,
    most_recent: Option<Seq<char>>,
    running_as: Option<RecognizedBy<Seq<char>>>,
)
    ensures
        learned(installed, most_recent_after(installed, most_recent, running_as), running_as) is None,
{
}

proof fn lemma_first_recognized(
    installed: Seq<Browser<Seq<char>>>,
    by: RecognizedBy<Seq<char>>,
)
    ensures
        first_recognized(installed, by) matches Some(browser) ==> installed.contains(browser)
            && browser.recognized_by == by,
    decreases installed.len(),
{
    if installed.len() > 0 {
        if installed.first().recognized_by == by {
            assert(installed[0] == installed.first());
        } else {
            lemma_first_recognized(installed.drop_first(), by);
            if let Some(browser) = first_recognized(installed, by) {
                let i = choose|i: int|
                    0 <= i < installed.drop_first().len() && installed.drop_first()[i] == browser;
                assert(installed[i + 1] == browser);
            }
        }
    }
}

/// The browser that a process runs is an installed one, and is recognized by that process.
pub proof fn law_running_browser_is_installed(
    installed: Seq<Browser<Seq<char>>>,
    running_as: Option<RecognizedBy<Seq<char>>>,
)
    ensures
        browser_running(installed, running_as) matches Some(browser) ==> {
            &&& installed.contains(browser)
            &&& running_as == Some(browser.recognized_by)
        },
{
    if let Some(by) = running_as {
        lemma_first_recognized(installed, by);
    }
}

/// Each browser comes from one of the files, has the id of its entry, and is not this program.
proof fn lemma_browser_has_file(
    files: Seq<(Seq<char>, Seq<char>)>,
    locales: Seq<Seq<char>>,
    browser: Browser<Seq<char>>,
) -> (i: int)
    requires
        browsers_in(files, locales).contains(browser),
    ensures
        0 <= i < files.len(),
        browser_in(files[i], locales) == Some(browser),
        browser.appid != OWN_ID@,
    decreases files.len(),
{
    let all = browsers_in(files, locales);
    let before = browsers_in(files.drop_last(), locales);
    let j = choose|j: int| 0 <= j < all.len() && all[j] == browser;
    if j < before.len() {
        assert(before[j] == browser);
        let i = lemma_browser_has_file(files.drop_last(), locales, browser);
        assert(files.drop_last()[i] == files[i]);
        i
    } else {
        files.len() - 1
    }
}

proof fn lemma_entry_is_found(
    files: Seq<(Seq<char>, Seq<char>)>,
    locales: Seq<Seq<char>>,
    appid: Seq<char>,
    i: int,
)
    requires
        0 <= i < files.len(),
        decoded(files[i].0, files[i].1, locales) matches Some((id, _)) && id == appid,
    ensures
        entry_with_id(files, appid, locales) is Some,
    decreases files.len(),
{
    if i > 0 {
        assert(files.drop_first()[i - 1] == files[i]);
        lemma_entry_is_found(files.drop_first(), locales, appid, i - 1);
    }
}

/// This program is not among the installed browsers, and each of them has a desktop entry that
/// is found by its id.
pub proof fn law_installed_browser_has_entry(
    files: Seq<(Seq<char>, Seq<char>)>,
    locales: Seq<Seq<char>>,
    browser: Browser<Seq<char>>,
)
    requires
        browsers_in(files, locales).contains(browser),
    ensures
        browser.appid != OWN_ID@,
        entry_with_id(files, browser.appid, locales) is Some,
{
    let i = lemma_browser_has_file(files, locales, browser);
    lemma_entry_is_found(files, locales, browser.appid, i);
}

/// A process that got the focus.
pub struct Focus {
    /// What it is recognized by, as far as it was recognized.
    pub running_as: Option<RecognizedBy<Seq<char>>>,
    /// Whether the id that was learned from it, if any, could be saved.
    pub saved: bool,
}

/// The most recently used browser after a history of processes that got the focus. Whether its
/// id could be saved does not matter to the running program.
pub open spec fn remembered_after(
    installed: Seq<Browser<Seq<char>>>,
    most_recent: Option<Seq<char>>,
    history: Seq<Focus>,
) -> Option<Seq<char>>
    decreases history.len(),
{
    if history.len() == 0 {
        most_recent
    } else {
        most_recent_after(
            installed,
            remembered_after(installed, most_recent, history.drop_last()),
            history.last().running_as,
        )
    }
}

/// What the file that remembers the browser holds after a history of processes that got the
/// focus. A save that fails leaves the file as it was.
pub open spec fn saved_after(
    installed: Seq<Browser<Seq<char>>>,
    contents: Option<Seq<char>>,
    history: Seq<Focus>,
) -> Option<Seq<char>>
    decreases history.len(),
{
    if history.len() == 0 {
        contents
    } else {
        match learned(
            installed,
            remembered_after(installed, loaded(contents), history.drop_last()),
            history.last().running_as,
        ) {
            Some(id) if history.last().saved => Some(id),
            _ => saved_after(installed, contents, history.drop_last()),
        }
    }
}

/// The browser that had the focus last in a history of processes that got it.
pub open spec fn last_focused(
    installed: Seq<Browser<Seq<char>>>,
    history: Seq<Focus>,
) -> Option<Browser<Seq<char>>>
    decreases history.len(),
{
    if history.len() == 0 {
        None
    } else {
        match browser_running(installed, history.last().running_as) {
            Some(browser) => Some(browser),
            None => last_focused(installed, history.drop_last()),
        }
    }
}

/// The browser whose id was saved last in a history of processes that got the focus: the last one
/// that got it while another was remembered, and whose id could be saved.
pub open spec fn last_saved(
    installed: Seq<Browser<Seq<char>>>,
    most_recent: Option<Seq<char>>,
    history: Seq<Focus>,
) -> Option<Browser<Seq<char>>>
    decreases history.len(),
{
    if history.len() == 0 {
        None
    } else {
        let before = remembered_after(installed, most_recent, history.drop_last());
        match browser_running(installed, history.last().running_as) {
            Some(browser) if history.last().saved && before != Some(browser.appid) => Some(browser),
            _ => last_saved(installed, most_recent, history.drop_last()),
        }
    }
}

/// Whether the id that was learned last in a history, if any, could be saved or stood in the file
/// already.
pub open spec fn newest_is_saved(
    installed: Seq<Browser<Seq<char>>>,
    contents: Option<Seq<char>>,
    history: Seq<Focus>,
) -> bool
    decreases history.len(),
{
    if history.len() == 0 {
        true
    } else {
        let earlier = history.drop_last();
        match learned(
            installed,
            remembered_after(installed, loaded(contents), earlier),
            history.last().running_as,
        ) {
            Some(id) => history.last().saved || loaded(saved_after(installed, contents, earlier))
                == Some(id),
            None => newest_is_saved(installed, contents, earlier),
        }
    }
}

/// However the focus went, and whichever saves failed, the most recently used browser is the one
/// that had the focus last, or the one that was remembered at the start where no browser had it.
pub proof fn law_last_focused_is_remembered(
    installed: Seq<Browser<Seq<char>>>,
    most_recent: Option<Seq<char>>,
    history: Seq<Focus>,
)
    ensures
        remembered_after(installed, most_recent, history) == match last_focused(
            installed,
            history,
        ) {
            Some(browser) => Some(browser.appid),
            None => most_recent,
        },
    decreases history.len(),
{
    if history.len() > 0 {
        law_last_focused_is_remembered(installed, most_recent, history.drop_last());
    }
}

/// However the focus went, and whichever saves failed, the file holds the last id that could be
/// saved, or what it held at the start where none could.
pub proof fn law_file_holds_last_saved_id(
    installed: Seq<Browser<Seq<char>>>,
    contents: Option<Seq<char>>,
    history: Seq<Focus>,
)
    ensures
        saved_after(installed, contents, history) == match last_saved(
            installed,
            loaded(contents),
            history,
        ) {
            Some(browser) => Some(browser.appid),
            None => contents,
        },
    decreases history.len(),
{
    if history.len() > 0 {
        law_file_holds_last_saved_id(installed, contents, history.drop_last());
    }
}

/// The saved file remembers what the running program remembers, for an id without white space
/// at its ends that could be saved when it was learned, or stood in the file already.
pub proof fn law_saved_file_keeps_step(
    installed: Seq<Browser<Seq<char>>>,
    contents: Option<Seq<char>>,
    history: Seq<Focus>,
)
    requires
        remembered_after(installed, loaded(contents), history) matches Some(id) ==> trimmed(id)
            == id,
        newest_is_saved(installed, contents, history),
    ensures
        loaded(saved_after(installed, contents, history)) == remembered_after(
            installed,
            loaded(contents),
            history,
        ),
    decreases history.len(),
{
    if history.len() > 0 {
        let before = remembered_after(installed, loaded(contents), history.drop_last());
        if learned(installed, before, history.last().running_as) is None {
            law_saved_file_keeps_step(installed, contents, history.drop_last());
        }
    }
}

/// Links open in the browser whose id was saved last. However the focus went, and whichever saves
/// failed, opening links starts the command that the desktop entry of that browser gives for
/// them. Its id must not start or end with white space.
pub proof fn law_links_open_in_last_saved_browser(
    files: Seq<(Seq<char>, Seq<char>)>,
    locales: Seq<Seq<char>>,
    links: Seq<Seq<char>>,
    contents: Option<Seq<char>>,
    history: Seq<Focus>,
    browser: Browser<Seq<char>>,
)
    requires
        last_saved(browsers_in(files, locales), loaded(contents), history) == Some(browser),
        trimmed(browser.appid) == browser.appid,
    ensures
        browser.appid != OWN_ID@,
        entry_with_id(files, browser.appid, locales) matches Some((path, values)) && opened(
            links,
            loaded(saved_after(browsers_in(files, locales), contents, history)),
            files,
            locales,
        ) == launched(browser.appid, command_of(path, values, links, locales)),
{
    let installed = browsers_in(files, locales);
    law_file_holds_last_saved_id(installed, contents, history);
    lemma_last_browsers_are_installed(installed, loaded(contents), history);
    law_installed_browser_has_entry(files, locales, browser);
}

/// Links open in the most recently used browser. However the focus went, opening links starts the
/// command that the desktop entry of the browser that had the focus last gives for them. Its id
/// must not start or end with white space, and must have been saved when it was learned, or have
/// stood in the file already.
pub proof fn law_links_open_in_last_focused_browser(
    files: Seq<(Seq<char>, Seq<char>)>,
    locales: Seq<Seq<char>>,
    links: Seq<Seq<char>>,
    contents: Option<Seq<char>>,
    history: Seq<Focus>,
    browser: Browser<Seq<char>>,
)
    requires
        last_focused(browsers_in(files, locales), history) == Some(browser),
        trimmed(browser.appid) == browser.appid,
        newest_is_saved(browsers_in(files, locales), contents, history),
    ensures
        browser.appid != OWN_ID@,
        entry_with_id(files, browser.appid, locales) matches Some((path, values)) && opened(
            links,
            loaded(saved_after(browsers_in(files, locales), contents, history)),
            files,
            locales,
        ) == launched(browser.appid, command_of(path, values, links, locales)),
{
    let installed = browsers_in(files, locales);
    law_last_focused_is_remembered(installed, loaded(contents), history);
    law_saved_file_keeps_step(installed, contents, history);
    lemma_last_browsers_are_installed(installed, loaded(contents), history);
    law_installed_browser_has_entry(files, locales, browser);
}

proof fn lemma_last_browsers_are_installed(
    installed: Seq<Browser<Seq<char>>>,
    most_recent: Option<Seq<char>>,
    history: Seq<Focus>,
)
    ensures
        last_focused(installed, history) matches Some(browser) ==> installed.contains(browser),
        last_saved(installed, most_recent, history) matches Some(browser) ==> installed.contains(
            browser,
        ),
    decreases history.len(),
{
    if history.len() > 0 {
        law_running_browser_is_installed(installed, history.last().running_as);
        lemma_last_browsers_are_installed(installed, most_recent, history.drop_last());
    }
}

} // verus!
