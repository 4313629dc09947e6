//! What the registry holds about this program on Windows.
use crate::messages::APP_DESCRIPTION;
use crate::text::{chars_of, copy_option, view_of};
use crate::windows::OUR_PROGRAM_ID;
use vstd::prelude::*;

verus! {

/// The key under which this program keeps what it remembers.
pub const SETTINGS_KEY: &'static str = "Software\\Overbrowsered";

/// The value that holds the id of the most recently used browser.
pub const MOST_RECENT_BROWSER: &'static str = "MostRecentBrowser";

/// The key under which the user's choice of the program that opens `http` links stands.
pub const HTTP_CHOICE_KEY: &'static str =
    "Software\\Microsoft\\Windows\\Shell\\Associations\\UrlAssociations\\http";

/// The key of the class that opens links with this program.
pub const CLASS_KEY: &'static str = "Software\\Classes\\Overbrowsered.Url";

/// The key of this program among the browsers.
pub const CLIENT_KEY: &'static str = "Software\\Clients\\StartMenuInternet\\Overbrowsered";

/// The key that tells what this program can open.
pub const CAPABILITIES_KEY: &'static str =
    "Software\\Clients\\StartMenuInternet\\Overbrowsered\\Capabilities";

/// The key that lists the programs that tell what they can open.
pub const APPLICATIONS_KEY: &'static str = "Software\\RegisteredApplications";

/// The UTF-16 units of a character: one, or a pair of surrogates.
pub open spec fn units_of_char(c: char) -> Seq<u16> {
    if c <= '\u{ffff}' {
        seq![c as u16]
    } else {
        let offset = c as int - 0x10000;
        seq![(0xd800 + offset / 0x400) as u16, (0xdc00 + offset % 0x400) as u16]
    }
}

/// The UTF-16 units of text.
pub open spec fn units_of(text: Seq<char>) -> Seq<u16>
    decreases text.len(),
{
    if text.len() == 0 {
        seq![]
    } else {
        units_of(text.drop_last()) + units_of_char(text.last())
    }
}

/// The units of two texts, one after the other, are those of the first and then those of the
/// second.
pub proof fn lemma_units_of_concat(first: Seq<char>, second: Seq<char>)
    ensures
        units_of(first + second) == units_of(first) + units_of(second),
    decreases second.len(),
{
    if second.len() == 0 {
        assert(first + second == first);
    } else {
        assert((first + second).drop_last() == first + second.drop_last());
        lemma_units_of_concat(first, second.drop_last());
    }
}

/// The UTF-16 units of `text`, whose characters must be ASCII.
fn units(text: &str) -> (units: Vec<u16>)
    requires
        forall|i: int| 0 <= i < text@.len() ==> #[trigger] text@[i] <= '\u{7f}',
    ensures
        units@ == units_of(text@),
{
    let chars: Vec<char> = chars_of(text);
    let mut units: Vec<u16> = Vec::new();
    for i in 0..chars.len()
        invariant
            chars@ == text@,
            units@ == units_of(text@.take(i as int)),
            forall|i: int| 0 <= i < text@.len() ==> #[trigger] text@[i] <= '\u{7f}',
    {
        let c: char = chars[i];
        assert(text@[i as int] <= '\u{7f}');
        units.push(c as u16);
        assert(text@.take(i + 1).drop_last() == text@.take(i as int));
    }
    assert(text@.take(text@.len() as int) == text@);
    units
}

/// The command that opens a link with `executable`.
pub open spec fn shell_command_of(executable: Seq<u16>) -> Seq<u16> {
    units_of("\""@) + executable + units_of("\" \"%1\""@)
}

/// Where the icon in `executable` stands.
pub open spec fn icon_location_of(executable: Seq<u16>) -> Seq<u16> {
    units_of("\""@) + executable + units_of("\",0"@)
}

/// The command that opens a link with `executable`, whose path is given in UTF-16 units.
pub fn shell_command(executable: &Vec<u16>) -> (command: Vec<u16>)
    ensures
        command@ == shell_command_of(executable@),
{
    proof {
        reveal_strlit("\"");
        reveal_strlit("\" \"%1\"");
    }
    let mut command: Vec<u16> = units("\"");
    let mut path: Vec<u16> = executable.clone();
    command.append(&mut path);
    let mut rest: Vec<u16> = units("\" \"%1\"");
    command.append(&mut rest);
    command
}

/// Where the icon in `executable` stands, whose path is given in UTF-16 units.
pub fn icon_location(executable: &Vec<u16>) -> (location: Vec<u16>)
    ensures
        location@ == icon_location_of(executable@),
{
    proof {
        reveal_strlit("\"");
        reveal_strlit("\",0");
    }
    let mut location: Vec<u16> = units("\"");
    let mut path: Vec<u16> = executable.clone();
    location.append(&mut path);
    let mut rest: Vec<u16> = units("\",0");
    location.append(&mut rest);
    location
}

/// What a registry value holds: text, or UTF-16 units that need not be text.
#[derive(Debug, PartialEq, Eq)]
pub enum Data<S = String, W = Vec<u16>> {
    Text(S),
    Wide(W),
}

/// A registry value of the current user.
#[derive(Debug, PartialEq, Eq)]
pub struct RegistryValue<S = String, W = Vec<u16>> {
    pub key: S,
    /// The name of the value, which is empty for the default value of the key.
    pub name: S,
    pub data: Data<S, W>,
}

impl View for RegistryValue<String, Vec<u16>> {
    type V = RegistryValue<Seq<char>, Seq<u16>>;

    open spec fn view(&self) -> RegistryValue<Seq<char>, Seq<u16>> {
        RegistryValue {
            key: self.key@,
            name: self.name@,
            data: match self.data {
                Data::Text(text) => Data::Text(text@),
                Data::Wide(units) => Data::Wide(units@),
            },
        }
    }
}

/// The contents of a list of registry values.
pub open spec fn value_views(values: Seq<RegistryValue>) -> Seq<
    RegistryValue<Seq<char>, Seq<u16>>,
> {
    values.map_values(|value: RegistryValue| value@)
}

/// A value that holds text.
pub open spec fn text_value(key: Seq<char>, name: Seq<char>, text: Seq<char>) -> RegistryValue<
    Seq<char>,
    Seq<u16>,
> {
    RegistryValue { key, name, data: Data::Text(text) }
}

/// A value that holds UTF-16 units.
pub open spec fn wide_value(key: Seq<char>, name: Seq<char>, units: Seq<u16>) -> RegistryValue<
    Seq<char>,
    Seq<u16>,
> {
    RegistryValue { key, name, data: Data::Wide(units) }
}

/// The values that make this program, which stands at `executable`, a browser to choose, in the
/// order in which they are written.
pub open spec fn registration(executable: Seq<u16>) -> Seq<RegistryValue<Seq<char>, Seq<u16>>> {
    let command = shell_command_of(executable);
    let icon = icon_location_of(executable);
    seq![
        text_value(CLASS_KEY@, ""@, "Overbrowsered URL Handler"@),
        wide_value(CLASS_KEY@ + "\\shell\\open\\command"@, ""@, command),
        wide_value(CLASS_KEY@ + "\\DefaultIcon"@, ""@, icon),
        text_value(CLIENT_KEY@, ""@, "Overbrowsered"@),
        wide_value(CLIENT_KEY@ + "\\shell\\open\\command"@, ""@, command),
        wide_value(CLIENT_KEY@ + "\\DefaultIcon"@, ""@, icon),
        text_value(CAPABILITIES_KEY@, "ApplicationName"@, "Overbrowsered"@),
        text_value(CAPABILITIES_KEY@, "ApplicationDescription"@, APP_DESCRIPTION@),
        wide_value(CAPABILITIES_KEY@, "ApplicationIcon"@, icon),
        text_value(CAPABILITIES_KEY@ + "\\Startmenu"@, "StartMenuInternet"@, "Overbrowsered"@),
        text_value(CAPABILITIES_KEY@ + "\\URLAssociations"@, "http"@, OUR_PROGRAM_ID@),
        text_value(CAPABILITIES_KEY@ + "\\URLAssociations"@, "https"@, OUR_PROGRAM_ID@),
        text_value(CAPABILITIES_KEY@ + "\\FileAssociations"@, ".htm"@, OUR_PROGRAM_ID@),
        text_value(CAPABILITIES_KEY@ + "\\FileAssociations"@, ".html"@, OUR_PROGRAM_ID@),
        text_value(APPLICATIONS_KEY@, "Overbrowsered"@, CAPABILITIES_KEY@),
    ]
}

/// A value that holds text, at `key` with `below` behind it.
fn text_at(key: &str, below: &str, name: &str, text: &str) -> (value: RegistryValue)
    ensures
        value@ == text_value(key@ + below@, name@, text@),
{
    RegistryValue {
        key: key.to_owned().concat(below),
        name: name.to_owned(),
        data: Data::Text(text.to_owned()),
    }
}

/// A value that holds UTF-16 units, at `key` with `below` behind it.
fn wide_at(key: &str, below: &str, name: &str, units: &Vec<u16>) -> (value: RegistryValue)
    ensures
        value@ == wide_value(key@ + below@, name@, units@),
{
    RegistryValue {
        key: key.to_owned().concat(below),
        name: name.to_owned(),
        data: Data::Wide(units.clone()),
    }
}

/// The values to write so that this program, which stands at `executable`, is a browser to
/// choose.
pub fn register_as_link_handler(executable: &Vec<u16>) -> (values: Vec<RegistryValue>)
    ensures
        value_views(values@) == registration(executable@),
{
    let command: Vec<u16> = shell_command(executable);
    let icon: Vec<u16> = icon_location(executable);
    let mut values: Vec<RegistryValue> = Vec::new();
    proof {
        reveal_strlit("");
        assert(CLASS_KEY@ + ""@ == CLASS_KEY@);
        assert(CLIENT_KEY@ + ""@ == CLIENT_KEY@);
        assert(CAPABILITIES_KEY@ + ""@ == CAPABILITIES_KEY@);
        assert(APPLICATIONS_KEY@ + ""@ == APPLICATIONS_KEY@);
    }
    values.push(text_at(CLASS_KEY, "", "", "Overbrowsered URL Handler"));
    values.push(wide_at(CLASS_KEY, "\\shell\\open\\command", "", &command));
    values.push(wide_at(CLASS_KEY, "\\DefaultIcon", "", &icon));
    values.push(text_at(CLIENT_KEY, "", "", "Overbrowsered"));
    values.push(wide_at(CLIENT_KEY, "\\shell\\open\\command", "", &command));
    values.push(wide_at(CLIENT_KEY, "\\DefaultIcon", "", &icon));
    values.push(text_at(CAPABILITIES_KEY, "", "ApplicationName", "Overbrowsered"));
    values.push(text_at(CAPABILITIES_KEY, "", "ApplicationDescription", APP_DESCRIPTION));
    values.push(wide_at(CAPABILITIES_KEY, "", "ApplicationIcon", &icon));
    values.push(text_at(CAPABILITIES_KEY, "\\Startmenu", "StartMenuInternet", "Overbrowsered"));
    values.push(text_at(CAPABILITIES_KEY, "\\URLAssociations", "http", OUR_PROGRAM_ID));
    values.push(text_at(CAPABILITIES_KEY, "\\URLAssociations", "https", OUR_PROGRAM_ID));
    values.push(text_at(CAPABILITIES_KEY, "\\FileAssociations", ".htm", OUR_PROGRAM_ID));
    values.push(text_at(CAPABILITIES_KEY, "\\FileAssociations", ".html", OUR_PROGRAM_ID));
    values.push(text_at(APPLICATIONS_KEY, "", "Overbrowsered", CAPABILITIES_KEY));
    assert(value_views(values@) =~= registration(executable@));
    values
}

/// The first of two texts that is there.
pub open spec fn first_of(first: Option<Seq<char>>, second: Option<Seq<char>>) -> Option<
    Seq<char>,
> {
    match first {
        Some(text) => Some(text),
        None => second,
    }
}

/// The program id that opens `http` links by default: the one of the user's latest choice, or
/// else the one of the choice as it was kept before.
pub fn default_http_handler(latest: &Option<String>, earlier: &Option<String>) -> (id: Option<
    String,
>)
    ensures
        view_of(id) == first_of(view_of(*latest), view_of(*earlier)),
{
    match latest {
        Some(id) => Some(id.clone()),
        None => copy_option(earlier),
    }
}

/// The id of the most recently used browser: the one in the value for it, or else the one in the
/// default value of the same key.
pub fn load_most_recent_browser_id(named: &Option<String>, unnamed: &Option<String>) -> (id: Option<
    String,
>)
    ensures
        view_of(id) == first_of(view_of(*named), view_of(*unnamed)),
{
    match named {
        Some(id) => Some(id.clone()),
        None => copy_option(unnamed),
    }
}

/// The value to write so that `id` is remembered.
pub fn save_most_recent_browser_id(id: &str) -> (value: RegistryValue)
    ensures
        value@ == text_value(SETTINGS_KEY@, MOST_RECENT_BROWSER@, id@),
{
    proof {
        reveal_strlit("");
        assert(SETTINGS_KEY@ + ""@ == SETTINGS_KEY@);
    }
    text_at(SETTINGS_KEY, "", MOST_RECENT_BROWSER, id)
}

} // verus!
