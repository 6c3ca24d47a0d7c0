//! The native menu bar: its entries, their identifiers and labels, and the
//! event that each entry sends to the web frontend.

use vstd::prelude::*;

verus! {

/// One entry of the menu bar that the user can click.
#[derive(Clone, Copy, Debug, PartialEq, Eq, Structural)]
pub enum MenuId {
    Save,
    Load,
    SaveAs,
    LoadFrom,
    Quit,
    Pen,
    Eraser,
    Clear,
    Undo,
    Redo,
    PencilSize,
}

impl MenuId {
    /// The identifier under which the host runtime reports a click.
    pub open spec fn name_text(self) -> Seq<char> {
        match self {
            MenuId::Save => "save"@,
            MenuId::Load => "load"@,
            MenuId::SaveAs => "save-as"@,
            MenuId::LoadFrom => "load-from"@,
            MenuId::Quit => "quit"@,
            MenuId::Pen => "pen"@,
            MenuId::Eraser => "eraser"@,
            MenuId::Clear => "clear"@,
            MenuId::Undo => "undo"@,
            MenuId::Redo => "redo"@,
            MenuId::PencilSize => "pencil-size"@,
        }
    }

    /// The text that the menu shows for the entry.
    pub open spec fn label_text(self) -> Seq<char> {
        match self {
            MenuId::Save => "Save"@,
            MenuId::Load => "Load"@,
            MenuId::SaveAs => "Save As"@,
            MenuId::LoadFrom => "Load From"@,
            MenuId::Quit => "Quit"@,
            MenuId::Pen => "Pen"@,
            MenuId::Eraser => "Eraser"@,
            MenuId::Clear => "Clear All"@,
            MenuId::Undo => "Undo"@,
            MenuId::Redo => "Redo"@,
            MenuId::PencilSize => "Line Size"@,
        }
    }

    /// The identifier of the entry.
    pub fn name(self) -> (name: &'static str)
        ensures
            name@ == self.name_text(),
    {
        match self {
            MenuId::Save => "save",
            MenuId::Load => "load",
            MenuId::SaveAs => "save-as",
            MenuId::LoadFrom => "load-from",
            MenuId::Quit => "quit",
            MenuId::Pen => "pen",
            MenuId::Eraser => "eraser",
            MenuId::Clear => "clear",
            MenuId::Undo => "undo",
            MenuId::Redo => "redo",
            MenuId::PencilSize => "pencil-size",
        }
    }

    /// The label of the entry.
    pub fn label(self) -> (label: &'static str)
        ensures
            label@ == self.label_text(),
    {
        match self {
            MenuId::Save => "Save",
            MenuId::Load => "Load",
            MenuId::SaveAs => "Save As",
            MenuId::LoadFrom => "Load From",
            MenuId::Quit => "Quit",
            MenuId::Pen => "Pen",
            MenuId::Eraser => "Eraser",
            MenuId::Clear => "Clear All",
            MenuId::Undo => "Undo",
            MenuId::Redo => "Redo",
            MenuId::PencilSize => "Line Size",
        }
    }
}

/// One place in a submenu: an entry or a separator line.
#[derive(Clone, Copy, Debug, PartialEq, Eq, Structural)]
pub enum MenuEntry {
    Item(MenuId),
    Separator,
}

/// One submenu of the menu bar.
#[derive(Clone, Copy, Debug, PartialEq, Eq, Structural)]
pub enum Submenu {
    File,
    Tools,
    Actions,
    Settings,
}

impl Submenu {
    /// The text that the menu bar shows for the submenu.
    pub open spec fn title_text(self) -> Seq<char> {
        match self {
            Submenu::File => "File"@,
            Submenu::Tools => "Tools"@,
            Submenu::Actions => "Actions"@,
            Submenu::Settings => "Settings"@,
        }
    }

    /// What the submenu holds, from top to bottom.
    pub open spec fn layout(self) -> Seq<MenuEntry> {
        match self {
            Submenu::File => seq![
                MenuEntry::Item(MenuId::Save),
                MenuEntry::Item(MenuId::Load),
                MenuEntry::Separator,
                MenuEntry::Item(MenuId::SaveAs),
                MenuEntry::Item(MenuId::LoadFrom),
                MenuEntry::Separator,
                MenuEntry::Item(MenuId::Quit),
            ],
            Submenu::Tools => seq![MenuEntry::Item(MenuId::Pen), MenuEntry::Item(MenuId::Eraser)],
            Submenu::Actions => seq![
                MenuEntry::Item(MenuId::Clear),
                MenuEntry::Separator,
                MenuEntry::Item(MenuId::Undo),
                MenuEntry::Item(MenuId::Redo),
            ],
            Submenu::Settings => seq![MenuEntry::Item(MenuId::PencilSize)],
        }
    }

    /// The title of the submenu.
    pub fn title(self) -> (title: &'static str)
        ensures
            title@ == self.title_text(),
    {
        match self {
            Submenu::File => "File",
            Submenu::Tools => "Tools",
            Submenu::Actions => "Actions",
            Submenu::Settings => "Settings",
        }
    }

    /// The entries and separators of the submenu, from top to bottom.
    pub fn entries(self) -> (entries: Vec<MenuEntry>)
        ensures
            entries@ == self.layout(),
    {
        let mut entries: Vec<MenuEntry> = Vec::new();
        match self {
            Submenu::File => {
                entries.push(MenuEntry::Item(MenuId::Save));
                entries.push(MenuEntry::Item(MenuId::Load));
                entries.push(MenuEntry::Separator);
                entries.push(MenuEntry::Item(MenuId::SaveAs));
                entries.push(MenuEntry::Item(MenuId::LoadFrom));
                entries.push(MenuEntry::Separator);
                entries.push(MenuEntry::Item(MenuId::Quit));
            },
            Submenu::Tools => {
                entries.push(MenuEntry::Item(MenuId::Pen));
                entries.push(MenuEntry::Item(MenuId::Eraser));
            },
            Submenu::Actions => {
                entries.push(MenuEntry::Item(MenuId::Clear));
                entries.push(MenuEntry::Separator);
                entries.push(MenuEntry::Item(MenuId::Undo));
                entries.push(MenuEntry::Item(MenuId::Redo));
            },
            Submenu::Settings => {
                entries.push(MenuEntry::Item(MenuId::PencilSize));
            },
        }
        entries
    }
}

/// Where an entry stands: its submenu, and its place in it from the top.
pub open spec fn place_of(id: MenuId) -> (Submenu, int) {
    match id {
        MenuId::Save => (Submenu::File, 0),
        MenuId::Load => (Submenu::File, 1),
        MenuId::SaveAs => (Submenu::File, 3),
        MenuId::LoadFrom => (Submenu::File, 4),
        MenuId::Quit => (Submenu::File, 6),
        MenuId::Pen => (Submenu::Tools, 0),
        MenuId::Eraser => (Submenu::Tools, 1),
        MenuId::Clear => (Submenu::Actions, 0),
        MenuId::Undo => (Submenu::Actions, 2),
        MenuId::Redo => (Submenu::Actions, 3),
        MenuId::PencilSize => (Submenu::Settings, 0),
    }
}

/// Every entry stands in the menu bar, at one place and no other.
pub proof fn lemma_entry_once(id: MenuId, menu: Submenu, at: int)
    ensures
        (0 <= at < menu.layout().len() && menu.layout()[at] == MenuEntry::Item(id)) <==> (menu, at)
            == place_of(id),
{
}

/// The menu bar: its submenus from left to right.
pub open spec fn bar_layout() -> Seq<Submenu> {
    seq![Submenu::File, Submenu::Tools, Submenu::Actions, Submenu::Settings]
}

/// The submenus to build the menu bar from, from left to right.
pub fn menu_bar() -> (bar: Vec<Submenu>)
    ensures
        bar@ == bar_layout(),
{
    let mut bar: Vec<Submenu> = Vec::new();
    bar.push(Submenu::File);
    bar.push(Submenu::Tools);
    bar.push(Submenu::Actions);
    bar.push(Submenu::Settings);
    bar
}

} // verus!
