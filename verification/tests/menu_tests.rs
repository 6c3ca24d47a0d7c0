use canvas_backend::dispatch::{
    dispatch, lookup, respond, Emission, Event, Flag, FlagUpdate, QuitPolicy, Response,
};
use canvas_backend::menu::{menu_bar, MenuEntry, MenuId, Submenu};
use canvas_backend::state::{ItemFlags, MenuState};

const ALL: [MenuId; 11] = [
    MenuId::Save,
    MenuId::Load,
    MenuId::SaveAs,
    MenuId::LoadFrom,
    MenuId::Quit,
    MenuId::Pen,
    MenuId::Eraser,
    MenuId::Clear,
    MenuId::Undo,
    MenuId::Redo,
    MenuId::PencilSize,
];

fn emission(event: Event, payload: i32) -> Response {
    Response { quit: false, updates: vec![], emission: Some(Emission { event, payload }) }
}

fn effects(response: &Response) -> usize {
    usize::from(response.quit) + response.updates.len() + usize::from(response.emission.is_some())
}

#[test]
fn the_menu_bar_has_four_submenus() {
    let bar = menu_bar();
    assert_eq!(bar, vec![Submenu::File, Submenu::Tools, Submenu::Actions, Submenu::Settings]);
    let titles: Vec<&str> = bar.iter().map(|m| m.title()).collect();
    assert_eq!(titles, vec!["File", "Tools", "Actions", "Settings"]);
}

#[test]
fn the_submenus_hold_their_entries_from_top_to_bottom() {
    let item = MenuEntry::Item;
    let line = MenuEntry::Separator;
    assert_eq!(
        Submenu::File.entries(),
        vec![
            item(MenuId::Save),
            item(MenuId::Load),
            line,
            item(MenuId::SaveAs),
            item(MenuId::LoadFrom),
            line,
            item(MenuId::Quit),
        ]
    );
    assert_eq!(Submenu::Tools.entries(), vec![item(MenuId::Pen), item(MenuId::Eraser)]);
    assert_eq!(
        Submenu::Actions.entries(),
        vec![item(MenuId::Clear), line, item(MenuId::Undo), item(MenuId::Redo)]
    );
    assert_eq!(Submenu::Settings.entries(), vec![item(MenuId::PencilSize)]);
}

#[test]
fn every_entry_stands_in_the_menu_bar_once() {
    for id in ALL {
        let mut count = 0;
        for menu in menu_bar() {
            for entry in menu.entries() {
                if entry == MenuEntry::Item(id) {
                    count += 1;
                }
            }
        }
        assert_eq!(count, 1, "{:?}", id);
    }
}

#[test]
fn entries_have_their_identifiers_and_labels() {
    let expected = [
        (MenuId::Save, "save", "Save"),
        (MenuId::Load, "load", "Load"),
        (MenuId::SaveAs, "save-as", "Save As"),
        (MenuId::LoadFrom, "load-from", "Load From"),
        (MenuId::Quit, "quit", "Quit"),
        (MenuId::Pen, "pen", "Pen"),
        (MenuId::Eraser, "eraser", "Eraser"),
        (MenuId::Clear, "clear", "Clear All"),
        (MenuId::Undo, "undo", "Undo"),
        (MenuId::Redo, "redo", "Redo"),
        (MenuId::PencilSize, "pencil-size", "Line Size"),
    ];
    for (id, name, label) in expected {
        assert_eq!(id.name(), name);
        assert_eq!(id.label(), label);
    }
}

#[test]
fn every_entry_is_found_under_its_identifier() {
    for id in ALL {
        assert_eq!(lookup(id.name()), Some(id));
    }
}

#[test]
fn unknown_identifiers_are_not_found() {
    let names =
        ["", "Save", "save ", " save", "saveas", "save_as", "pencil", "pens", "tool-change"];
    for name in names {
        assert_eq!(lookup(name), None, "{:?}", name);
    }
}

#[test]
fn events_have_their_names() {
    let expected = [
        (Event::Save, "save"),
        (Event::Load, "load"),
        (Event::SaveAs, "save-as"),
        (Event::LoadFrom, "load-from"),
        (Event::Clear, "clear"),
        (Event::Undo, "undo"),
        (Event::Redo, "redo"),
        (Event::PencilSize, "pencil-size"),
        (Event::ToolChange, "tool-change"),
    ];
    for (event, name) in expected {
        assert_eq!(event.name(), name);
    }
}

#[test]
fn plain_entries_send_the_event_of_their_name_with_zero() {
    let expected = [
        ("save", Event::Save),
        ("load", Event::Load),
        ("save-as", Event::SaveAs),
        ("load-from", Event::LoadFrom),
        ("clear", Event::Clear),
        ("undo", Event::Undo),
        ("redo", Event::Redo),
        ("pencil-size", Event::PencilSize),
    ];
    for policy in [QuitPolicy::Terminate, QuitPolicy::Ignore] {
        for (name, event) in expected {
            let response = dispatch(name, policy);
            assert_eq!(response, emission(event, 0));
            assert_eq!(effects(&response), 1);
            assert_eq!(response.emission.unwrap().event.name(), name);
        }
    }
}

#[test]
fn quit_ends_the_process_or_does_nothing() {
    assert_eq!(
        dispatch("quit", QuitPolicy::Terminate),
        Response { quit: true, updates: vec![], emission: None }
    );
    assert_eq!(
        dispatch("quit", QuitPolicy::Ignore),
        Response { quit: false, updates: vec![], emission: None }
    );
    assert_eq!(effects(&dispatch("quit", QuitPolicy::Terminate)), 1);
    assert_eq!(effects(&dispatch("quit", QuitPolicy::Ignore)), 0);
}

#[test]
fn a_click_on_a_tool_moves_the_mark_and_tells_the_frontend() {
    let pen = dispatch("pen", QuitPolicy::Ignore);
    assert_eq!(
        pen,
        Response {
            quit: false,
            updates: vec![
                FlagUpdate { item: MenuId::Pen, flag: Flag::Selected, value: true },
                FlagUpdate { item: MenuId::Eraser, flag: Flag::Selected, value: false },
            ],
            emission: Some(Emission { event: Event::ToolChange, payload: 0 }),
        }
    );
    let eraser = dispatch("eraser", QuitPolicy::Ignore);
    assert_eq!(
        eraser,
        Response {
            quit: false,
            updates: vec![
                FlagUpdate { item: MenuId::Pen, flag: Flag::Selected, value: false },
                FlagUpdate { item: MenuId::Eraser, flag: Flag::Selected, value: true },
            ],
            emission: Some(Emission { event: Event::ToolChange, payload: 1 }),
        }
    );
    assert_eq!(effects(&pen), 3);
    assert_eq!(effects(&eraser), 3);
}

#[test]
fn unknown_identifiers_are_answered_with_nothing() {
    for name in ["", "Quit", "open", "pen ", "tool-change"] {
        let response = dispatch(name, QuitPolicy::Terminate);
        assert_eq!(response, Response { quit: false, updates: vec![], emission: None });
        assert_eq!(effects(&response), 0);
    }
}

#[test]
fn dispatch_by_name_and_by_entry_agree() {
    for policy in [QuitPolicy::Terminate, QuitPolicy::Ignore] {
        for id in ALL {
            assert_eq!(dispatch(id.name(), policy), respond(id, policy));
        }
    }
}

#[test]
fn a_new_menu_has_save_and_load_disabled_and_pen_selected() {
    let state = MenuState::initial();
    for id in ALL {
        let expected = ItemFlags {
            enabled: id != MenuId::Save && id != MenuId::Load,
            selected: id == MenuId::Pen,
        };
        assert_eq!(state.get(id), expected, "{:?}", id);
    }
}

#[test]
fn clicking_a_tool_selects_it_and_deselects_the_other() {
    let mut state = MenuState::initial();
    state.click("eraser", QuitPolicy::Ignore);
    assert!(state.get(MenuId::Eraser).selected);
    assert!(!state.get(MenuId::Pen).selected);
    state.click("eraser", QuitPolicy::Ignore);
    assert!(state.get(MenuId::Eraser).selected);
    assert!(!state.get(MenuId::Pen).selected);
    state.click("pen", QuitPolicy::Ignore);
    assert!(state.get(MenuId::Pen).selected);
    assert!(!state.get(MenuId::Eraser).selected);
}

#[test]
fn exactly_one_tool_is_selected_whatever_is_clicked() {
    let names = [
        "pen", "save", "eraser", "eraser", "undo", "nothing", "pen", "quit", "load-from", "eraser",
        "clear", "pen", "pen", "redo", "pencil-size", "eraser",
    ];
    let mut state = MenuState::initial();
    let mut seed: usize = 7;
    for step in 0..500 {
        seed = (seed * 31 + 11) % 1009;
        if step % 17 == 5 {
            state.transfer_done();
        } else {
            state.click(names[seed % names.len()], QuitPolicy::Terminate);
        }
        assert_ne!(state.get(MenuId::Pen).selected, state.get(MenuId::Eraser).selected);
    }
}

#[test]
fn a_click_changes_nothing_but_the_marks_of_the_tools() {
    let names = [
        "save", "load", "save-as", "load-from", "quit", "clear", "undo", "redo", "pencil-size",
        "?",
    ];
    for name in names {
        let mut state = MenuState::initial();
        state.click(name, QuitPolicy::Terminate);
        assert_eq!(state, MenuState::initial(), "{:?}", name);
    }
    let mut state = MenuState::initial();
    state.click("eraser", QuitPolicy::Terminate);
    for id in ALL {
        if id != MenuId::Pen && id != MenuId::Eraser {
            assert_eq!(state.get(id), MenuState::initial().get(id));
        }
        assert_eq!(state.get(id).enabled, MenuState::initial().get(id).enabled);
    }
}

#[test]
fn the_state_follows_the_updates_of_the_response() {
    let mut state = MenuState::initial();
    let response = state.click("eraser", QuitPolicy::Ignore);
    let mut by_hand = MenuState::initial();
    by_hand.apply_all(&response.updates);
    assert_eq!(state, by_hand);
    assert_ne!(state, MenuState::initial());
}

#[test]
fn a_finished_transfer_enables_save_and_load() {
    let mut state = MenuState::initial();
    state.click("eraser", QuitPolicy::Ignore);
    let before = state;
    let updates = state.transfer_done();
    assert_eq!(
        updates,
        vec![
            FlagUpdate { item: MenuId::Save, flag: Flag::Enabled, value: true },
            FlagUpdate { item: MenuId::Load, flag: Flag::Enabled, value: true },
        ]
    );
    assert!(state.get(MenuId::Save).enabled);
    assert!(state.get(MenuId::Load).enabled);
    for id in ALL {
        if id != MenuId::Save && id != MenuId::Load {
            assert_eq!(state.get(id), before.get(id));
        }
        assert_eq!(state.get(id).selected, before.get(id).selected);
    }
    let again = state;
    state.transfer_done();
    assert_eq!(state, again);
}

#[test]
fn one_update_sets_one_flag_of_one_entry() {
    let mut state = MenuState::initial();
    state.apply(FlagUpdate { item: MenuId::Undo, flag: Flag::Enabled, value: false });
    assert_eq!(state.get(MenuId::Undo), ItemFlags { enabled: false, selected: false });
    state.apply(FlagUpdate { item: MenuId::Undo, flag: Flag::Selected, value: true });
    assert_eq!(state.get(MenuId::Undo), ItemFlags { enabled: false, selected: true });
    for id in ALL {
        if id != MenuId::Undo {
            assert_eq!(state.get(id), MenuState::initial().get(id));
        }
    }
}
