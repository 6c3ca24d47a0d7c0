//! The dispatch table: what a click on a menu entry makes the backend do.
//!
//! The backend itself neither owns the window nor the menu widgets. A click
//! is therefore answered with a [`Response`], the list of things that the
//! host loop has to carry out, in order: change flags of menu entries, send
//! one event to the frontend, end the process.

use crate::menu::MenuId;
use crate::text::{chars_of, spells};
use vstd::prelude::*;

verus! {

/// An event that the frontend listens for.
#[derive(Clone, Copy, Debug, PartialEq, Eq, Structural)]
pub enum Event {
    Save,
    Load,
    SaveAs,
    LoadFrom,
    Clear,
    Undo,
    Redo,
    PencilSize,
    ToolChange,
}

impl Event {
    /// The name under which the event is sent.
    pub open spec fn name_text(self) -> Seq<char> {
        match self {
            Event::Save => "save"@,
            Event::Load => "load"@,
            Event::SaveAs => "save-as"@,
            Event::LoadFrom => "load-from"@,
            Event::Clear => "clear"@,
            Event::Undo => "undo"@,
            Event::Redo => "redo"@,
            Event::PencilSize => "pencil-size"@,
            Event::ToolChange => "tool-change"@,
        }
    }

    /// The name of the event.
    pub fn name(self) -> (name: &'static str)
        ensures
            name@ == self.name_text(),
    {
        match self {
            Event::Save => "save",
            Event::Load => "load",
            Event::SaveAs => "save-as",
            Event::LoadFrom => "load-from",
            Event::Clear => "clear",
            Event::Undo => "undo",
            Event::Redo => "redo",
            Event::PencilSize => "pencil-size",
            Event::ToolChange => "tool-change",
        }
    }
}

/// An event together with the number it carries.
#[derive(Clone, Copy, Debug, PartialEq, Eq, Structural)]
pub struct Emission {
    pub event: Event,
    pub payload: i32,
}

/// The two flags that a menu entry has.
#[derive(Clone, Copy, Debug, PartialEq, Eq, Structural)]
pub enum Flag {
    Enabled,
    Selected,
}

/// The order to set one flag of one menu entry.
#[derive(Clone, Copy, Debug, PartialEq, Eq, Structural)]
pub struct FlagUpdate {
    pub item: MenuId,
    pub flag: Flag,
    pub value: bool,
}

/// What a click on `quit` asks for. A shell that closes with its window may
/// keep the entry without giving it an effect.
#[derive(Clone, Copy, Debug, PartialEq, Eq, Structural)]
pub enum QuitPolicy {
    /// The process ends.
    Terminate,
    /// Nothing happens.
    Ignore,
}

/// What the host has to do after a click: first the flag updates in their
/// order, then the emission, then end the process if `quit` is set.
#[derive(Debug, PartialEq, Eq)]
pub struct Response {
    pub quit: bool,
    pub updates: Vec<FlagUpdate>,
    pub emission: Option<Emission>,
}

/// A [`Response`] as a mathematical value.
pub ghost struct ResponseView {
    pub quit: bool,
    pub updates: Seq<FlagUpdate>,
    pub emission: Option<Emission>,
}

impl View for Response {
    type V = ResponseView;

    open spec fn view(&self) -> ResponseView {
        ResponseView { quit: self.quit, updates: self.updates@, emission: self.emission }
    }
}

impl ResponseView {
    /// The number of single effects that the response asks for.
    pub open spec fn effect_count(self) -> nat {
        let quits: nat = if self.quit { 1 } else { 0 };
        let emits: nat = if self.emission is Some { 1 } else { 0 };
        quits + self.updates.len() + emits
    }
}

/// The response that asks for nothing.
pub open spec fn no_response() -> ResponseView {
    ResponseView { quit: false, updates: Seq::empty(), emission: None }
}

/// The response that sends `event` with `payload` and does nothing else.
pub open spec fn emit_only(event: Event, payload: i32) -> ResponseView {
    ResponseView {
        quit: false,
        updates: Seq::empty(),
        emission: Some(Emission { event, payload }),
    }
}

/// The number that `tool-change` carries for a drawing tool.
pub open spec fn tool_payload(tool: MenuId) -> i32 {
    if tool == MenuId::Eraser {
        1
    } else {
        0
    }
}

/// The response that makes `tool` the one selected drawing tool: `pen` gets
/// its mark, then `eraser`, then the frontend is told.
pub open spec fn select_tool(tool: MenuId) -> ResponseView {
    ResponseView {
        quit: false,
        updates: seq![
            FlagUpdate { item: MenuId::Pen, flag: Flag::Selected, value: tool == MenuId::Pen },
            FlagUpdate {
                item: MenuId::Eraser,
                flag: Flag::Selected,
                value: tool == MenuId::Eraser,
            },
        ],
        emission: Some(Emission { event: Event::ToolChange, payload: tool_payload(tool) }),
    }
}

/// The response to a click on `quit`.
pub open spec fn quit_response(policy: QuitPolicy) -> ResponseView {
    ResponseView { quit: policy == QuitPolicy::Terminate, updates: Seq::empty(), emission: None }
}

/// The dispatch table.
pub open spec fn response_to(id: MenuId, policy: QuitPolicy) -> ResponseView {
    match id {
        MenuId::Quit => quit_response(policy),
        MenuId::Save => emit_only(Event::Save, 0),
        MenuId::Load => emit_only(Event::Load, 0),
        MenuId::SaveAs => emit_only(Event::SaveAs, 0),
        MenuId::LoadFrom => emit_only(Event::LoadFrom, 0),
        MenuId::Clear => emit_only(Event::Clear, 0),
        MenuId::Undo => emit_only(Event::Undo, 0),
        MenuId::Redo => emit_only(Event::Redo, 0),
        MenuId::PencilSize => emit_only(Event::PencilSize, 0),
        MenuId::Pen => select_tool(MenuId::Pen),
        MenuId::Eraser => select_tool(MenuId::Eraser),
    }
}

/// The entry whose identifier is `name`, if there is one.
pub open spec fn id_named(name: Seq<char>) -> Option<MenuId> {
    if name == MenuId::Save.name_text() {
        Some(MenuId::Save)
    } else if name == MenuId::Load.name_text() {
        Some(MenuId::Load)
    } else if name == MenuId::SaveAs.name_text() {
        Some(MenuId::SaveAs)
    } else if name == MenuId::LoadFrom.name_text() {
        Some(MenuId::LoadFrom)
    } else if name == MenuId::Quit.name_text() {
        Some(MenuId::Quit)
    } else if name == MenuId::Pen.name_text() {
        Some(MenuId::Pen)
    } else if name == MenuId::Eraser.name_text() {
        Some(MenuId::Eraser)
    } else if name == MenuId::Clear.name_text() {
        Some(MenuId::Clear)
    } else if name == MenuId::Undo.name_text() {
        Some(MenuId::Undo)
    } else if name == MenuId::Redo.name_text() {
        Some(MenuId::Redo)
    } else if name == MenuId::PencilSize.name_text() {
        Some(MenuId::PencilSize)
    } else {
        None
    }
}

/// The response to a click reported under the identifier `name`. An
/// identifier that no entry has is answered with nothing.
pub open spec fn response_to_name(name: Seq<char>, policy: QuitPolicy) -> ResponseView {
    match id_named(name) {
        Some(id) => response_to(id, policy),
        None => no_response(),
    }
}

/// Every entry is found under its own identifier: no two entries share one.
pub proof fn lemma_names_found(id: MenuId)
    ensures
        id_named(id.name_text()) == Some(id),
{
    reveal_strlit("save");
    reveal_strlit("load");
    reveal_strlit("save-as");
    reveal_strlit("load-from");
    reveal_strlit("quit");
    reveal_strlit("pen");
    reveal_strlit("eraser");
    reveal_strlit("clear");
    reveal_strlit("undo");
    reveal_strlit("redo");
    reveal_strlit("pencil-size");
    assert("save-as"@.len() == 7 && "load-from"@.len() == 9 && "pen"@.len() == 3);
    assert("eraser"@.len() == 6 && "clear"@.len() == 5 && "pencil-size"@.len() == 11);
    assert("save"@[0] == 's' && "load"@[0] == 'l' && "quit"@[0] == 'q');
    assert("undo"@[0] == 'u' && "redo"@[0] == 'r');
}

/// An identifier finds an entry if and only if it is the entry's own.
pub proof fn lemma_id_named(name: Seq<char>, id: MenuId)
    ensures
        id_named(name) == Some(id) <==> name == id.name_text(),
{
    lemma_names_found(id);
}

/// A click on an entry asks for exactly one thing: that the process end, or
/// that one event be sent. This holds of every entry but three. The two
/// drawing tools are left out, see [`lemma_tool_effects`], and so is `quit`
/// where it is ignored, which asks for nothing.
pub proof fn lemma_single_effect(id: MenuId, policy: QuitPolicy)
    requires
        id != MenuId::Pen,
        id != MenuId::Eraser,
        id == MenuId::Quit ==> policy == QuitPolicy::Terminate,
    ensures
        response_to_name(id.name_text(), policy) == response_to(id, policy),
        response_to(id, policy).effect_count() == 1,
        response_to(id, policy).updates.len() == 0,
        response_to(id, policy).quit <==> id == MenuId::Quit,
{
    lemma_names_found(id);
}

/// A click on a drawing tool asks for three things: the two flags that move
/// the mark, and the event that tells the frontend.
pub proof fn lemma_tool_effects(tool: MenuId, policy: QuitPolicy)
    requires
        tool == MenuId::Pen || tool == MenuId::Eraser,
    ensures
        response_to_name(tool.name_text(), policy) == select_tool(tool),
        select_tool(tool).effect_count() == 3,
{
    lemma_names_found(tool);
}

/// An identifier that no entry has is answered with nothing.
pub proof fn lemma_unknown_ignored(name: Seq<char>, policy: QuitPolicy)
    requires
        forall|id: MenuId| id.name_text() != name,
    ensures
        response_to_name(name, policy) == no_response(),
        no_response().effect_count() == 0,
{
}

/// Finds the entry with the identifier `name`.
pub fn lookup(name: &str) -> (found: Option<MenuId>)
    ensures
        found == id_named(name@),
{
    let chars = chars_of(name);
    if spells(&chars, MenuId::Save.name()) {
        Some(MenuId::Save)
    } else if spells(&chars, MenuId::Load.name()) {
        Some(MenuId::Load)
    } else if spells(&chars, MenuId::SaveAs.name()) {
        Some(MenuId::SaveAs)
    } else if spells(&chars, MenuId::LoadFrom.name()) {
        Some(MenuId::LoadFrom)
    } else if spells(&chars, MenuId::Quit.name()) {
        Some(MenuId::Quit)
    } else if spells(&chars, MenuId::Pen.name()) {
        Some(MenuId::Pen)
    } else if spells(&chars, MenuId::Eraser.name()) {
        Some(MenuId::Eraser)
    } else if spells(&chars, MenuId::Clear.name()) {
        Some(MenuId::Clear)
    } else if spells(&chars, MenuId::Undo.name()) {
        Some(MenuId::Undo)
    } else if spells(&chars, MenuId::Redo.name()) {
        Some(MenuId::Redo)
    } else if spells(&chars, MenuId::PencilSize.name()) {
        Some(MenuId::PencilSize)
    } else {
        None
    }
}

/// The response that sends `event` with the number zero.
fn emit(event: Event) -> (r: Response)
    ensures
        r@ == emit_only(event, 0),
{
    Response { quit: false, updates: Vec::new(), emission: Some(Emission { event, payload: 0 }) }
}

/// The response that makes `tool` the selected drawing tool.
fn select(tool: MenuId) -> (r: Response)
    requires
        tool == MenuId::Pen || tool == MenuId::Eraser,
    ensures
        r@ == select_tool(tool),
{
    let erasing = tool == MenuId::Eraser;
    let mut updates: Vec<FlagUpdate> = Vec::new();
    updates.push(FlagUpdate { item: MenuId::Pen, flag: Flag::Selected, value: !erasing });
    updates.push(FlagUpdate { item: MenuId::Eraser, flag: Flag::Selected, value: erasing });
    let payload: i32 = if erasing { 1 } else { 0 };
    assert(updates@ =~= select_tool(tool).updates);
    let emission = Some(Emission { event: Event::ToolChange, payload });
    Response { quit: false, updates, emission }
}

/// The response to a click on the entry `id`.
pub fn respond(id: MenuId, policy: QuitPolicy) -> (r: Response)
    ensures
        r@ == response_to(id, policy),
{
    match id {
        MenuId::Quit => Response {
            quit: policy == QuitPolicy::Terminate,
            updates: Vec::new(),
            emission: None,
        },
        MenuId::Save => emit(Event::Save),
        MenuId::Load => emit(Event::Load),
        MenuId::SaveAs => emit(Event::SaveAs),
        MenuId::LoadFrom => emit(Event::LoadFrom),
        MenuId::Clear => emit(Event::Clear),
        MenuId::Undo => emit(Event::Undo),
        MenuId::Redo => emit(Event::Redo),
        MenuId::PencilSize => emit(Event::PencilSize),
        MenuId::Pen => select(MenuId::Pen),
        MenuId::Eraser => select(MenuId::Eraser),
    }
}

/// The response to a click reported under the identifier `name`.
pub fn dispatch(name: &str, policy: QuitPolicy) -> (r: Response)
    ensures
        r@ == response_to_name(name@, policy),
{
    match lookup(name) {
        Some(id) => respond(id, policy),
        None => Response { quit: false, updates: Vec::new(), emission: None },
    }
}

} // verus!
