//! What the system tells the program on Windows, and what the program does about it.
use crate::menu::MenuItem;
use crate::numbers::{hexadecimal, hexadecimal_of};
use crate::text::view_of;
use vstd::prelude::*;

verus! {

/// The number of the menu item that ends the program.
pub const QUIT_MENU_ITEM: u16 = 1;

/// The number of the menu item that offers to make this program the default browser.
pub const SET_DEFAULT_MENU_ITEM: u16 = 2;

/// The message that the tray icon sends: `WM_APP`.
pub const WM_TRAY_ICON: u32 = 0x8000;

/// The message that a window is going away.
pub const WM_DESTROY: u32 = 0x0002;

/// The message that the left button of the mouse was let go.
pub const WM_LBUTTONUP: u32 = 0x0202;

/// The message that the right button of the mouse was let go.
pub const WM_RBUTTONUP: u32 = 0x0205;

/// The error number for something that exists already.
pub const ERROR_ALREADY_EXISTS: u32 = 183;

/// What to do about a message to the tray window.
#[derive(Debug, PartialEq, Eq, Clone, Copy)]
pub enum Reaction {
    ShowMenu,
    /// Nothing.
    Ignore,
    /// End the program.
    Quit,
    /// Put the tray icon back.
    RestoreTrayIcon,
    /// Leave the message to the system.
    PassOn,
}

/// Whether a message is dealt with whatever number stands for a new taskbar.
pub open spec fn is_own_message(message: u32) -> bool {
    message == WM_TRAY_ICON || message == WM_DESTROY
}

/// What to do about a message. A click on the tray icon shows the menu, and a new taskbar, whose
/// message has the number `taskbar_created`, gets the tray icon.
pub open spec fn reaction_to(message: u32, lparam: int, taskbar_created: Option<u32>) -> Reaction {
    if message == WM_TRAY_ICON {
        let click = lparam % 0x1_0000_0000;
        if click == WM_LBUTTONUP || click == WM_RBUTTONUP {
            Reaction::ShowMenu
        } else {
            Reaction::Ignore
        }
    } else if message == WM_DESTROY {
        Reaction::Quit
    } else if taskbar_created == Some(message) {
        Reaction::RestoreTrayIcon
    } else {
        Reaction::PassOn
    }
}

/// What to do about a message to the tray window, where `taskbar_created` is the number of the
/// message for a new taskbar, as far as it is known.
pub fn window_proc(message: u32, lparam: i64, taskbar_created: Option<u32>) -> (reaction: Reaction)
    ensures
        reaction == reaction_to(message, lparam as int, taskbar_created),
{
    if message == WM_TRAY_ICON {
        assert(lparam as u32 == lparam % 0x1_0000_0000) by (bit_vector);
        let click: u32 = #[verifier::truncate] (lparam as u32);
        if click == WM_LBUTTONUP || click == WM_RBUTTONUP {
            return Reaction::ShowMenu;
        }
        return Reaction::Ignore;
    }
    if message == WM_DESTROY {
        return Reaction::Quit;
    }
    match taskbar_created {
        Some(created) => if created == message {
            Reaction::RestoreTrayIcon
        } else {
            Reaction::PassOn
        },
        None => Reaction::PassOn,
    }
}

/// Whether the number of the message for a new taskbar matters for what to do about `message`.
pub fn needs_taskbar_message(message: u32) -> (yes: bool)
    ensures
        yes == !is_own_message(message),
{
    message != WM_TRAY_ICON && message != WM_DESTROY
}

/// What to do about the window's own messages does not depend on the number for a new taskbar.
pub proof fn law_own_messages_need_no_taskbar_message(
    message: u32,
    lparam: int,
    taskbar_created: Option<u32>,
    other: Option<u32>,
)
    requires
        is_own_message(message),
    ensures
        reaction_to(message, lparam, taskbar_created) == reaction_to(message, lparam, other),
{
}

/// The number of a menu item: only items that can be clicked have one.
pub open spec fn number_of<S>(item: MenuItem<S>) -> Option<u16> {
    match item {
        MenuItem::SetDefault(_) => Some(SET_DEFAULT_MENU_ITEM),
        MenuItem::Quit(_) => Some(QUIT_MENU_ITEM),
        _ => None,
    }
}

/// The number of a menu item.
pub fn menu_item_number(item: &MenuItem) -> (number: Option<u16>)
    ensures
        number == number_of(item@),
{
    match item {
        MenuItem::SetDefault(_) => Some(SET_DEFAULT_MENU_ITEM),
        MenuItem::Quit(_) => Some(QUIT_MENU_ITEM),
        _ => None,
    }
}

/// What the user chose in the menu.
#[derive(Debug, PartialEq, Eq, Clone, Copy)]
pub enum Choice {
    Nothing,
    /// End the program.
    Quit,
    /// Show the settings for default applications.
    OpenSettings,
}

/// What the user chose, for the number of the chosen item.
pub open spec fn choice_of(chosen: Option<i32>) -> Choice {
    if chosen == Some(QUIT_MENU_ITEM as i32) {
        Choice::Quit
    } else if chosen == Some(SET_DEFAULT_MENU_ITEM as i32) {
        Choice::OpenSettings
    } else {
        Choice::Nothing
    }
}

/// What the user chose in the menu, for the number of the chosen item.
pub fn menu_choice(chosen: Option<i32>) -> (choice: Choice)
    ensures
        choice == choice_of(chosen),
{
    match chosen {
        Some(number) => if number == QUIT_MENU_ITEM as i32 {
            Choice::Quit
        } else if number == SET_DEFAULT_MENU_ITEM as i32 {
            Choice::OpenSettings
        } else {
            Choice::Nothing
        },
        None => Choice::Nothing,
    }
}

/// Choosing an item that can be clicked does what the item says, and no other item has a number.
pub proof fn law_chosen_item_is_done<S>(item: MenuItem<S>)
    ensures
        match number_of(item) {
            Some(number) => choice_of(Some(number as i32)) == (if item is Quit {
                Choice::Quit
            } else {
                Choice::OpenSettings
            }),
            None => item is Label || item is Separator,
        },
{
}

/// Whether this is the only running instance of the program.
#[derive(Debug, PartialEq, Eq, Clone, Copy)]
pub enum Instance {
    /// It is the only one.
    Only,
    /// Another one runs already.
    Another,
    /// It could not be found out.
    Unknown,
}

/// Whether this is the only running instance, where a mutex that all instances share was asked
/// for: whether it was given, and the error number that was left behind.
pub open spec fn instance_of(given: bool, last_error: u32) -> Instance {
    if !given {
        Instance::Unknown
    } else if last_error == ERROR_ALREADY_EXISTS {
        Instance::Another
    } else {
        Instance::Only
    }
}

/// Whether this is the only running instance of the program.
pub fn ensure_only_one_app_instance(given: bool, last_error: u32) -> (instance: Instance)
    ensures
        instance == instance_of(given, last_error),
{
    if !given {
        Instance::Unknown
    } else if last_error == ERROR_ALREADY_EXISTS {
        Instance::Another
    } else {
        Instance::Only
    }
}

/// The words for a failed registration for restart, where `result` is the `HRESULT`: none where
/// it did not fail.
pub open spec fn restart_failure(result: i32) -> Option<Seq<char>> {
    if result < 0 {
        Some(
            "RegisterApplicationRestart failed with HRESULT 0x"@ + hexadecimal_of(
                (result + 0x1_0000_0000) as nat,
                8,
            ),
        )
    } else {
        None
    }
}

/// The words for a failed registration for restart, where `result` is the `HRESULT`.
pub fn register_for_autorestart(result: i32) -> (failure: Option<String>)
    ensures
        view_of(failure) == restart_failure(result),
{
    if result < 0 {
        assert(result < 0 ==> result as u32 == result + 0x1_0000_0000) by (bit_vector);
        Some(
            "RegisterApplicationRestart failed with HRESULT 0x".to_owned().concat(
                hexadecimal(#[verifier::truncate] (result as u32), 8).as_str(),
            ),
        )
    } else {
        None
    }
}

} // verus!
