//! The flags of the menu entries, as the backend keeps track of them.
//!
//! The host runtime owns the menu widgets. The backend mirrors the two flags
//! of every entry, so that what it asks of the host can be stated and proved:
//! which entries can be clicked, and which drawing tool carries the mark.

use crate::dispatch::{
    dispatch, id_named, lemma_names_found, response_to_name, select_tool, Flag, FlagUpdate,
    QuitPolicy, Response,
};
use crate::menu::MenuId;
use vstd::prelude::*;

verus! {

/// The flags of one menu entry.
#[derive(Clone, Copy, Debug, PartialEq, Eq, Structural)]
pub struct ItemFlags {
    pub enabled: bool,
    pub selected: bool,
}

impl ItemFlags {
    /// The flags with `flag` set to `value`.
    pub open spec fn with(self, flag: Flag, value: bool) -> ItemFlags {
        match flag {
            Flag::Enabled => ItemFlags { enabled: value, selected: self.selected },
            Flag::Selected => ItemFlags { enabled: self.enabled, selected: value },
        }
    }
}

/// The flags of all menu entries.
#[derive(Clone, Copy, Debug, PartialEq, Eq, Structural)]
pub struct MenuState {
    pub save: ItemFlags,
    pub load: ItemFlags,
    pub save_as: ItemFlags,
    pub load_from: ItemFlags,
    pub quit: ItemFlags,
    pub pen: ItemFlags,
    pub eraser: ItemFlags,
    pub clear: ItemFlags,
    pub undo: ItemFlags,
    pub redo: ItemFlags,
    pub pencil_size: ItemFlags,
}

/// The flags with which an entry is put into the menu: `save` and `load`
/// cannot be clicked yet, and `pen` is the selected tool.
pub open spec fn declared_flags(id: MenuId) -> ItemFlags {
    ItemFlags {
        enabled: id != MenuId::Save && id != MenuId::Load,
        selected: id == MenuId::Pen,
    }
}

/// What a finished transfer of the canvas to or from a file of the user's
/// choice changes: from then on `save` and `load` can be clicked.
pub open spec fn transfer_updates() -> Seq<FlagUpdate> {
    seq![
        FlagUpdate { item: MenuId::Save, flag: Flag::Enabled, value: true },
        FlagUpdate { item: MenuId::Load, flag: Flag::Enabled, value: true },
    ]
}

/// The state of a menu that was just built: every entry has its declared
/// flags.
pub open spec fn initial_state() -> MenuState {
    MenuState {
        save: declared_flags(MenuId::Save),
        load: declared_flags(MenuId::Load),
        save_as: declared_flags(MenuId::SaveAs),
        load_from: declared_flags(MenuId::LoadFrom),
        quit: declared_flags(MenuId::Quit),
        pen: declared_flags(MenuId::Pen),
        eraser: declared_flags(MenuId::Eraser),
        clear: declared_flags(MenuId::Clear),
        undo: declared_flags(MenuId::Undo),
        redo: declared_flags(MenuId::Redo),
        pencil_size: declared_flags(MenuId::PencilSize),
    }
}

/// Something that the menu state takes note of.
pub ghost enum Step {
    /// A click, reported under an identifier.
    Click(Seq<char>),
    /// The end of a transfer to or from a file of the user's choice.
    TransferDone,
}

/// Whether a transfer finished in the course of `steps`.
pub open spec fn transferred(steps: Seq<Step>) -> bool {
    exists|i: int| 0 <= i < steps.len() && #[trigger] steps[i] is TransferDone
}

impl MenuState {
    /// The flags of the entry `id`.
    pub open spec fn flags(self, id: MenuId) -> ItemFlags {
        match id {
            MenuId::Save => self.save,
            MenuId::Load => self.load,
            MenuId::SaveAs => self.save_as,
            MenuId::LoadFrom => self.load_from,
            MenuId::Quit => self.quit,
            MenuId::Pen => self.pen,
            MenuId::Eraser => self.eraser,
            MenuId::Clear => self.clear,
            MenuId::Undo => self.undo,
            MenuId::Redo => self.redo,
            MenuId::PencilSize => self.pencil_size,
        }
    }

    /// The state in which the entry `id` has the flags `flags` and every
    /// other entry is as in `self`.
    pub open spec fn put(self, id: MenuId, flags: ItemFlags) -> MenuState {
        match id {
            MenuId::Save => MenuState { save: flags, ..self },
            MenuId::Load => MenuState { load: flags, ..self },
            MenuId::SaveAs => MenuState { save_as: flags, ..self },
            MenuId::LoadFrom => MenuState { load_from: flags, ..self },
            MenuId::Quit => MenuState { quit: flags, ..self },
            MenuId::Pen => MenuState { pen: flags, ..self },
            MenuId::Eraser => MenuState { eraser: flags, ..self },
            MenuId::Clear => MenuState { clear: flags, ..self },
            MenuId::Undo => MenuState { undo: flags, ..self },
            MenuId::Redo => MenuState { redo: flags, ..self },
            MenuId::PencilSize => MenuState { pencil_size: flags, ..self },
        }
    }

    /// The state after one flag update.
    pub open spec fn with(self, update: FlagUpdate) -> MenuState {
        self.put(update.item, self.flags(update.item).with(update.flag, update.value))
    }

    /// The state after the flag updates `updates`, applied in their order.
    pub open spec fn with_all(self, updates: Seq<FlagUpdate>) -> MenuState
        decreases updates.len(),
    {
        if updates.len() == 0 {
            self
        } else {
            self.with_all(updates.drop_last()).with(updates.last())
        }
    }

    /// The state after a click reported under the identifier `name`.
    pub open spec fn after_click(self, name: Seq<char>, policy: QuitPolicy) -> MenuState {
        self.with_all(response_to_name(name, policy).updates)
    }

    /// The state after a finished transfer.
    pub open spec fn after_transfer(self) -> MenuState {
        self.with_all(transfer_updates())
    }

    /// The state after one step.
    pub open spec fn after(self, step: Step, policy: QuitPolicy) -> MenuState {
        match step {
            Step::Click(name) => self.after_click(name, policy),
            Step::TransferDone => self.after_transfer(),
        }
    }

    /// The state after the steps `steps`, taken in their order.
    pub open spec fn after_all(self, steps: Seq<Step>, policy: QuitPolicy) -> MenuState
        decreases steps.len(),
    {
        if steps.len() == 0 {
            self
        } else {
            self.after_all(steps.drop_last(), policy).after(steps.last(), policy)
        }
    }

    /// Exactly one of the two drawing tools carries the mark.
    pub open spec fn one_tool_selected(self) -> bool {
        self.pen.selected != self.eraser.selected
    }

    /// The state after the mark was given to `tool`.
    pub open spec fn marked(self, tool: MenuId) -> MenuState {
        MenuState {
            pen: ItemFlags { enabled: self.pen.enabled, selected: tool == MenuId::Pen },
            eraser: ItemFlags { enabled: self.eraser.enabled, selected: tool == MenuId::Eraser },
            ..self
        }
    }

    /// The state in which `save` and `load` can be clicked and every other
    /// flag is as in `self`.
    pub open spec fn unlocked(self) -> MenuState {
        MenuState {
            save: ItemFlags { enabled: true, selected: self.save.selected },
            load: ItemFlags { enabled: true, selected: self.load.selected },
            ..self
        }
    }

    /// The state after two updates.
    pub proof fn lemma_with_two(self, first: FlagUpdate, second: FlagUpdate)
        ensures
            self.with_all(seq![first, second]) == self.with(first).with(second),
    {
        reveal_with_fuel(MenuState::with_all, 3);
        assert(seq![first, second].drop_last() == seq![first]);
    }

    /// A click on a drawing tool gives it the mark, a click on another entry
    /// or under an unknown identifier changes no flag.
    pub proof fn lemma_after_click(self, name: Seq<char>, policy: QuitPolicy)
        ensures
            self.after_click(name, policy) == match id_named(name) {
                Some(MenuId::Pen) => self.marked(MenuId::Pen),
                Some(MenuId::Eraser) => self.marked(MenuId::Eraser),
                _ => self,
            },
    {
        match id_named(name) {
            Some(MenuId::Pen) => {
                let updates = select_tool(MenuId::Pen).updates;
                self.lemma_with_two(updates[0], updates[1]);
            },
            Some(MenuId::Eraser) => {
                let updates = select_tool(MenuId::Eraser).updates;
                self.lemma_with_two(updates[0], updates[1]);
            },
            _ => {},
        }
    }

    /// A click on `pen` gives the mark to `pen` and takes it from `eraser`; a
    /// click on `eraser` does the reverse. No other flag changes.
    pub proof fn lemma_tool_click(self, tool: MenuId, policy: QuitPolicy)
        requires
            tool == MenuId::Pen || tool == MenuId::Eraser,
        ensures
            self.after_click(tool.name_text(), policy) == self.marked(tool),
            self.marked(tool).pen.selected == (tool == MenuId::Pen),
            self.marked(tool).eraser.selected == (tool == MenuId::Eraser),
            self.marked(tool).one_tool_selected(),
    {
        lemma_names_found(tool);
        self.lemma_after_click(tool.name_text(), policy);
    }

    /// No step takes the mark from both drawing tools or gives it to both.
    pub proof fn lemma_one_tool_kept(self, step: Step, policy: QuitPolicy)
        requires
            self.one_tool_selected(),
        ensures
            self.after(step, policy).one_tool_selected(),
    {
        match step {
            Step::Click(name) => {
                self.lemma_after_click(name, policy);
            },
            Step::TransferDone => {
                self.lemma_after_transfer();
            },
        }
    }

    /// Whatever happens to a menu from the time it was built, exactly one of
    /// the two drawing tools carries the mark.
    pub proof fn lemma_always_one_tool(steps: Seq<Step>, policy: QuitPolicy)
        ensures
            initial_state().after_all(steps, policy).one_tool_selected(),
        decreases steps.len(),
    {
        if steps.len() > 0 {
            Self::lemma_always_one_tool(steps.drop_last(), policy);
            initial_state().after_all(steps.drop_last(), policy).lemma_one_tool_kept(
                steps.last(),
                policy,
            );
        }
    }

    /// A finished transfer lets `save` and `load` be clicked and changes no
    /// other flag.
    pub proof fn lemma_after_transfer(self)
        ensures
            self.after_transfer() == self.unlocked(),
    {
        let updates = transfer_updates();
        self.lemma_with_two(updates[0], updates[1]);
    }

    /// From the time a menu was built, `save` and `load` can be clicked if a
    /// transfer has finished, and only then.
    pub proof fn lemma_unlocked_by_transfer(steps: Seq<Step>, policy: QuitPolicy)
        ensures
            initial_state().after_all(steps, policy).save.enabled == transferred(steps),
            initial_state().after_all(steps, policy).load.enabled == transferred(steps),
        decreases steps.len(),
    {
        if steps.len() > 0 {
            let earlier = steps.drop_last();
            let before = initial_state().after_all(earlier, policy);
            Self::lemma_unlocked_by_transfer(earlier, policy);
            match steps.last() {
                Step::Click(name) => {
                    before.lemma_after_click(name, policy);
                    if transferred(steps) {
                        let i = choose|i: int|
                            0 <= i < steps.len() && #[trigger] steps[i] is TransferDone;
                        assert(earlier[i] is TransferDone);
                    }
                    if transferred(earlier) {
                        let i = choose|i: int|
                            0 <= i < earlier.len() && #[trigger] earlier[i] is TransferDone;
                        assert(steps[i] is TransferDone);
                    }
                },
                Step::TransferDone => {
                    before.lemma_after_transfer();
                    assert(steps[steps.len() - 1] is TransferDone);
                },
            }
        }
    }

    /// The state of a menu that was just built.
    pub fn initial() -> (state: MenuState)
        ensures
            state == initial_state(),
    {
        let plain = ItemFlags { enabled: true, selected: false };
        let waiting = ItemFlags { enabled: false, selected: false };
        MenuState {
            save: waiting,
            load: waiting,
            save_as: plain,
            load_from: plain,
            quit: plain,
            pen: ItemFlags { enabled: true, selected: true },
            eraser: plain,
            clear: plain,
            undo: plain,
            redo: plain,
            pencil_size: plain,
        }
    }

    /// The flags of the entry `id`.
    pub fn get(&self, id: MenuId) -> (flags: ItemFlags)
        ensures
            flags == self.flags(id),
    {
        match id {
            MenuId::Save => self.save,
            MenuId::Load => self.load,
            MenuId::SaveAs => self.save_as,
            MenuId::LoadFrom => self.load_from,
            MenuId::Quit => self.quit,
            MenuId::Pen => self.pen,
            MenuId::Eraser => self.eraser,
            MenuId::Clear => self.clear,
            MenuId::Undo => self.undo,
            MenuId::Redo => self.redo,
            MenuId::PencilSize => self.pencil_size,
        }
    }

    /// Gives the entry `id` the flags `flags`.
    fn set(&mut self, id: MenuId, flags: ItemFlags)
        ensures
            *final(self) == old(self).put(id, flags),
    {
        match id {
            MenuId::Save => self.save = flags,
            MenuId::Load => self.load = flags,
            MenuId::SaveAs => self.save_as = flags,
            MenuId::LoadFrom => self.load_from = flags,
            MenuId::Quit => self.quit = flags,
            MenuId::Pen => self.pen = flags,
            MenuId::Eraser => self.eraser = flags,
            MenuId::Clear => self.clear = flags,
            MenuId::Undo => self.undo = flags,
            MenuId::Redo => self.redo = flags,
            MenuId::PencilSize => self.pencil_size = flags,
        }
    }

    /// Carries out one flag update.
    pub fn apply(&mut self, update: FlagUpdate)
        ensures
            *final(self) == old(self).with(update),
    {
        let mut flags = self.get(update.item);
        match update.flag {
            Flag::Enabled => flags.enabled = update.value,
            Flag::Selected => flags.selected = update.value,
        }
        self.set(update.item, flags);
    }

    /// Carries out the flag updates `updates` in their order.
    pub fn apply_all(&mut self, updates: &Vec<FlagUpdate>)
        ensures
            *final(self) == old(self).with_all(updates@),
    {
        let mut i: usize = 0;
        while i < updates.len()
            invariant
                i <= updates.len(),
                *self == old(self).with_all(updates@.take(i as int)),
            decreases updates.len() - i,
        {
            assert(updates@.take(i + 1).drop_last() == updates@.take(i as int));
            self.apply(updates[i]);
            i += 1;
        }
        assert(updates@.take(i as int) == updates@);
    }

    /// Takes note of a click reported under the identifier `name` and says
    /// what the host has to do. The flag updates of the response are already
    /// part of the new state.
    pub fn click(&mut self, name: &str, policy: QuitPolicy) -> (response: Response)
        ensures
            response@ == response_to_name(name@, policy),
            *final(self) == old(self).after_click(name@, policy),
    {
        let response = dispatch(name, policy);
        self.apply_all(&response.updates);
        response
    }

    /// Takes note that the canvas was written to, or read from, a file of the
    /// user's choice, and says which flags the host has to set.
    pub fn transfer_done(&mut self) -> (updates: Vec<FlagUpdate>)
        ensures
            updates@ == transfer_updates(),
            *final(self) == old(self).after_transfer(),
    {
        let mut updates: Vec<FlagUpdate> = Vec::new();
        updates.push(FlagUpdate { item: MenuId::Save, flag: Flag::Enabled, value: true });
        updates.push(FlagUpdate { item: MenuId::Load, flag: Flag::Enabled, value: true });
        assert(updates@ =~= transfer_updates());
        self.apply_all(&updates);
        updates
    }
}

} // verus!
