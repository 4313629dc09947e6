//! The words that the user sees.
use vstd::prelude::*;

verus! {

/// The first line of the menu.
pub const AUTHOR_LINE: &'static str = "Overbrowsered by @ibmisiak";

/// What the program does, as it tells the desktop.
pub const APP_DESCRIPTION: &'static str = "Opens links in your most recently used browser";

/// The menu item that offers to become the default browser.
pub const SET_DEFAULT_PROMPT: &'static str =
    "⚠️ For Overbrowsered to work, click here to set it as the default \"browser\".";

/// What to do when no browser is known.
pub const NO_BROWSER_ADVICE: &'static str =
    "Overbrowsered could not find a browser to open this link.\n\nFocus any browser window once so it can learn which one you use, then try the link again.";

/// The line for the most recently used browser.
pub open spec fn most_recent_line(display_name: Option<Seq<char>>) -> Seq<char> {
    "Most recently used browser: "@ + (match display_name {
        Some(name) => name,
        None => "none detected yet"@,
    })
}

/// The line for the program that opens links by default.
pub open spec fn handler_line(we_are_default: bool, handler_name: Option<Seq<char>>) -> Seq<char> {
    if we_are_default {
        "Default http handler: me 👌"@
    } else {
        "Default http handler: "@ + (match handler_name {
            Some(name) => name,
            None => "not me"@,
        }) + " ☹️"@
    }
}

/// The characters of an optional string slice.
pub open spec fn str_view(text: Option<&str>) -> Option<Seq<char>> {
    match text {
        Some(text) => Some(text@),
        None => None,
    }
}

/// The line for the most recently used browser ends with its whole name, so that no two browsers
/// share a line.
pub proof fn law_browser_line_tells_the_name(name: Seq<char>, other: Seq<char>)
    ensures
        most_recent_line(Some(name)) == "Most recently used browser: "@ + name,
        most_recent_line(None) == "Most recently used browser: "@ + "none detected yet"@,
        most_recent_line(Some(name)) == most_recent_line(Some(other)) ==> name == other,
{
    let start = "Most recently used browser: "@;
    assert((start + name).skip(start.len() as int) == name);
    assert((start + other).skip(start.len() as int) == other);
}

/// The line for the program that opens links by default holds its whole name, unless this program
/// is the default, whatever its name.
pub proof fn law_handler_line_tells_the_name(name: Seq<char>, any: Option<Seq<char>>)
    ensures
        handler_line(true, any) == "Default http handler: me 👌"@,
        handler_line(false, Some(name)) == "Default http handler: "@ + name + " ☹️"@,
        handler_line(false, None) == "Default http handler: "@ + "not me"@ + " ☹️"@,
{
}

/// An optional string slice is there exactly where its characters are.
pub proof fn law_view_keeps_optional_slice(text: Option<&str>)
    ensures
        match text {
            Some(text) => str_view(Some(text)) == Some(text@),
            None => str_view(text) is None,
        },
{
}

/// Tells the most recently used browser, by its display name.
pub fn most_recent_browser_line(display_name: Option<&str>) -> (line: String)
    ensures
        line@ == most_recent_line(str_view(display_name)),
{
    "Most recently used browser: ".to_owned().concat(display_name.unwrap_or("none detected yet"))
}

/// Tells whether this program opens links by default, and else which one does.
pub fn default_handler_line(we_are_default: bool, handler_name: Option<&str>) -> (line: String)
    ensures
        line@ == handler_line(we_are_default, str_view(handler_name)),
{
    if we_are_default {
        "Default http handler: me 👌".to_owned()
    } else {
        "Default http handler: ".to_owned().concat(handler_name.unwrap_or("not me")).concat(" ☹️")
    }
}

} // verus!
