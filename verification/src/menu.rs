//! The menu bar, and keeping the notes on top.
use vstd::prelude::*;

verus! {

/// What a menu item does.
#[derive(Clone, Copy, Debug, PartialEq, Eq, Structural)]
pub enum Command {
    Quit,
    Cut,
    Copy,
    Paste,
    SelectAll,
    ToggleKeepOnTop,
}

/// A menu item. With no key it has no shortcut.
#[derive(Debug)]
pub struct Item {
    pub title: &'static str,
    pub command: Command,
    pub key: &'static str,
}

/// A menu of the bar.
#[derive(Debug)]
pub struct Menu {
    pub title: &'static str,
    pub items: Vec<Item>,
}

/// What an `Item` is: its title, command and key.
pub type Entry = (Seq<char>, Command, Seq<char>);

impl View for Item {
    type V = Entry;

    open spec fn view(&self) -> Entry {
        (self.title@, self.command, self.key@)
    }
}

impl View for Menu {
    type V = (Seq<char>, Seq<Entry>);

    open spec fn view(&self) -> (Seq<char>, Seq<Entry>) {
        (self.title@, Seq::new(self.items@.len(), |i: int| self.items@[i]@))
    }
}

/// The menus of the bar. Without them there's no Cmd+Q and no copy and paste in the notes.
pub open spec fn bar() -> Seq<(Seq<char>, Seq<Entry>)> {
    seq![
        ("App"@, seq![("Quit"@, Command::Quit, "q"@)]),
        (
            "Edit"@,
            seq![
                ("Cut"@, Command::Cut, "x"@),
                ("Copy"@, Command::Copy, "c"@),
                ("Paste"@, Command::Paste, "v"@),
                ("Select All"@, Command::SelectAll, "a"@),
            ],
        ),
        ("Window"@, seq![("Keep All Windows on Top"@, Command::ToggleKeepOnTop, ""@)]),
    ]
}

/// The menus of the bar.
pub fn main_menu() -> (r: Vec<Menu>)
    ensures
        r@.len() == bar().len(),
        forall|i: int| 0 <= i < r@.len() ==> (#[trigger] r@[i])@ == bar()[i],
{
    let mut app: Vec<Item> = Vec::new();
    app.push(Item { title: "Quit", command: Command::Quit, key: "q" });
    let mut edit: Vec<Item> = Vec::new();
    edit.push(Item { title: "Cut", command: Command::Cut, key: "x" });
    edit.push(Item { title: "Copy", command: Command::Copy, key: "c" });
    edit.push(Item { title: "Paste", command: Command::Paste, key: "v" });
    edit.push(Item { title: "Select All", command: Command::SelectAll, key: "a" });
    let mut window: Vec<Item> = Vec::new();
    window.push(
        Item { title: "Keep All Windows on Top", command: Command::ToggleKeepOnTop, key: "" },
    );
    let mut all: Vec<Menu> = Vec::new();
    all.push(Menu { title: "App", items: app });
    all.push(Menu { title: "Edit", items: edit });
    all.push(Menu { title: "Window", items: window });
    proof {
        assert(all@[0]@.1 =~= bar()[0].1);
        assert(all@[1]@.1 =~= bar()[1].1);
        assert(all@[2]@.1 =~= bar()[2].1);
    }
    all
}

/// The message that carries out a command. It goes to the first in the responder chain that takes
/// it: the text, the app, then the app's delegate.
pub open spec fn selector_of(command: Command) -> Seq<char> {
    match command {
        Command::Quit => "terminate:"@,
        Command::Cut => "cut:"@,
        Command::Copy => "copy:"@,
        Command::Paste => "paste:"@,
        Command::SelectAll => "selectAll:"@,
        Command::ToggleKeepOnTop => "toggleKeepOnTop:"@,
    }
}

/// The message that carries out a command.
pub fn selector(command: Command) -> (r: &'static str)
    ensures
        r@ == selector_of(command),
{
    match command {
        Command::Quit => "terminate:",
        Command::Cut => "cut:",
        Command::Copy => "copy:",
        Command::Paste => "paste:",
        Command::SelectAll => "selectAll:",
        Command::ToggleKeepOnTop => "toggleKeepOnTop:",
    }
}

/// The level of the notes' windows. Floating ones stay above other apps' windows, even when the
/// app is in the background.
#[derive(Clone, Copy, Debug, PartialEq, Eq, Structural)]
pub enum Level {
    Floating,
    Normal,
}

/// The level of the notes' windows, by whether they are kept on top.
pub open spec fn level_of(keep_on_top: bool) -> Level {
    if keep_on_top {
        Level::Floating
    } else {
        Level::Normal
    }
}

/// The level of the notes' windows, by whether they are kept on top.
pub fn float(keep_on_top: bool) -> (r: Level)
    ensures
        r == level_of(keep_on_top),
{
    if keep_on_top {
        Level::Floating
    } else {
        Level::Normal
    }
}

/// Whether the item that keeps the notes on top has a checkmark.
#[derive(Clone, Copy, Debug, PartialEq, Eq, Structural)]
pub enum Mark {
    On,
    Off,
}

/// The mark of the item that keeps the notes on top, by whether they are.
pub open spec fn mark_of(keep_on_top: bool) -> Mark {
    if keep_on_top {
        Mark::On
    } else {
        Mark::Off
    }
}

/// The mark of the item that keeps the notes on top, by whether they are.
pub fn validate_menu_item(keep_on_top: bool) -> (r: Mark)
    ensures
        r == mark_of(keep_on_top),
{
    if keep_on_top {
        Mark::On
    } else {
        Mark::Off
    }
}

/// Whether to keep the notes on top from now on, and the level that their windows get for it.
pub open spec fn toggled(keep_on_top: bool) -> (bool, Level) {
    (!keep_on_top, level_of(!keep_on_top))
}

/// Keeps the notes on top, or no longer.
pub fn toggle_keep_on_top(keep_on_top: bool) -> (r: (bool, Level))
    ensures
        r == toggled(keep_on_top),
{
    (!keep_on_top, float(!keep_on_top))
}

/// The checkmark tells whether the windows float, before a toggle and after it, and a second
/// toggle takes back the first.
pub proof fn mark_tells_the_level(keep_on_top: bool)
    ensures
        mark_of(keep_on_top) is On <==> level_of(keep_on_top) is Floating,
        mark_of(toggled(keep_on_top).0) is On <==> toggled(keep_on_top).1 is Floating,
        toggled(toggled(keep_on_top).0) == (keep_on_top, level_of(keep_on_top)),
{
}

/// Each command is in the bar once, and no two of its items have the same key.
pub proof fn items_differ(m: int, i: int, n: int, j: int)
    requires
        0 <= m < bar().len(),
        0 <= n < bar().len(),
        0 <= i < bar()[m].1.len(),
        0 <= j < bar()[n].1.len(),
        (m, i) != (n, j),
    ensures
        bar()[m].1[i].1 != bar()[n].1[j].1,
        bar()[m].1[i].2 != bar()[n].1[j].2,
{
    reveal_strlit("q");
    reveal_strlit("x");
    reveal_strlit("c");
    reveal_strlit("v");
    reveal_strlit("a");
    reveal_strlit("");
    assert("q"@[0] == 'q' && "x"@[0] == 'x' && "c"@[0] == 'c' && "v"@[0] == 'v' && "a"@[0] == 'a');
    assert("q"@.len() == 1 && "x"@.len() == 1 && "c"@.len() == 1 && "v"@.len() == 1);
    assert("a"@.len() == 1 && ""@.len() == 0);
}

} // verus!
