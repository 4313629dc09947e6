//! The menu of the tray icon.
use crate::messages::{AUTHOR_LINE, SET_DEFAULT_PROMPT};
use vstd::prelude::*;

verus! {

/// An item of the menu.
#[derive(Debug, PartialEq, Eq)]
pub enum MenuItem<S = String> {
    /// A line that cannot be clicked.
    Label(S),
    Separator,
    /// Offers to make this program the default browser.
    SetDefault(S),
    /// Ends the program.
    Quit(S),
}

impl View for MenuItem<String> {
    type V = MenuItem<Seq<char>>;

    open spec fn view(&self) -> MenuItem<Seq<char>> {
        match self {
            MenuItem::Label(label) => MenuItem::Label(label@),
            MenuItem::Separator => MenuItem::Separator,
            MenuItem::SetDefault(label) => MenuItem::SetDefault(label@),
            MenuItem::Quit(label) => MenuItem::Quit(label@),
        }
    }
}

/// The items of a menu, with their characters.
pub open spec fn menu_view(items: Seq<MenuItem>) -> Seq<MenuItem<Seq<char>>> {
    items.map_values(|item: MenuItem| item@)
}

/// The menu for two lines about the browsers. The offer to become the default browser stands in
/// it exactly while this program is not the default.
pub open spec fn menu_of(
    browser_line: Seq<char>,
    default_line: Seq<char>,
    we_are_default: bool,
) -> Seq<MenuItem<Seq<char>>> {
    let offer: Seq<MenuItem<Seq<char>>> = if we_are_default {
        seq![]
    } else {
        seq![MenuItem::SetDefault(SET_DEFAULT_PROMPT@)]
    };
    seq![
        MenuItem::Label(AUTHOR_LINE@),
        MenuItem::Separator,
        MenuItem::Label(browser_line),
        MenuItem::Label(default_line),
    ] + offer + seq![MenuItem::Separator, MenuItem::Quit("Quit"@)]
}

/// The menu offers to become the default browser exactly while this program is not the default,
/// and it always ends with the item that ends the program.
pub proof fn law_menu_offers_to_become_default(
    browser_line: Seq<char>,
    default_line: Seq<char>,
    we_are_default: bool,
)
    ensures
        ({
            let menu = menu_of(browser_line, default_line, we_are_default);
            &&& (exists|i: int| 0 <= i < menu.len() && #[trigger] menu[i] is SetDefault) <==> !we_are_default
            &&& menu.last() is Quit
        }),
{
    let menu = menu_of(browser_line, default_line, we_are_default);
    if !we_are_default {
        assert(menu[4] is SetDefault);
    }
}

/// The menu shows the author, a separator, and the two lines about the browsers, whatever they
/// are. The offer to become the default browser follows, where there is one, then a separator and
/// the item that ends the program, and nothing else.
pub proof fn law_menu_shows_its_lines(
    browser_line: Seq<char>,
    default_line: Seq<char>,
    we_are_default: bool,
)
    ensures
        ({
            let menu = menu_of(browser_line, default_line, we_are_default);
            &&& menu.len() == (if we_are_default {
                6
            } else {
                7int
            })
            &&& menu[0] == MenuItem::Label("Overbrowsered by @ibmisiak"@)
            &&& menu[1] is Separator
            &&& menu[2] == MenuItem::Label(browser_line)
            &&& menu[3] == MenuItem::Label(default_line)
            &&& !we_are_default ==> menu[4] == MenuItem::SetDefault(
                "⚠️ For Overbrowsered to work, click here to set it as the default \"browser\"."@,
            )
            &&& menu[menu.len() - 2] is Separator
            &&& menu[menu.len() - 1] == MenuItem::Quit("Quit"@)
        }),
{
}

/// The items of a menu are told apart by their kinds and their characters, each in its place.
pub proof fn law_view_keeps_every_item(items: Seq<MenuItem>)
    ensures
        menu_view(items).len() == items.len(),
        forall|i: int|
            0 <= i < items.len() ==> match #[trigger] items[i] {
                MenuItem::Label(label) => menu_view(items)[i] == MenuItem::Label(label@),
                MenuItem::Separator => menu_view(items)[i] is Separator,
                MenuItem::SetDefault(label) => menu_view(items)[i] == MenuItem::SetDefault(label@),
                MenuItem::Quit(label) => menu_view(items)[i] == MenuItem::Quit(label@),
            },
{
}

/// Builds the menu for two lines about the browsers.
pub fn menu_items(browser_line: String, default_line: String, we_are_default: bool) -> (items: Vec<
    MenuItem,
>)
    ensures
        menu_view(items@) == menu_of(browser_line@, default_line@, we_are_default),
{
    let mut items: Vec<MenuItem> = Vec::new();
    items.push(MenuItem::Label(AUTHOR_LINE.to_owned()));
    items.push(MenuItem::Separator);
    items.push(MenuItem::Label(browser_line));
    items.push(MenuItem::Label(default_line));
    if !we_are_default {
        items.push(MenuItem::SetDefault(SET_DEFAULT_PROMPT.to_owned()));
    }
    items.push(MenuItem::Separator);
    items.push(MenuItem::Quit("Quit".to_owned()));
    items
}

} // verus!
