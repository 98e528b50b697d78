//! Scenario tests for the dispatch core, driven through the public API the
//! way a host would drive it.

use keystone::conn::{ConnState, Connection, SendError};
use keystone::dispatch::Model;
use keystone::msg::{Command, DataFromFile, DecodeError, Format, Msg, WsAction, WsRequest, WsResponse};
use keystone::state::{Entry, Filter};
use keystone::store::{restore_entries, save_entries, storage_key};

fn fresh() -> Model {
    Model::create(None)
}

fn entry(description: &str, completed: bool, editing: bool) -> Entry {
    Entry { description: description.to_string(), completed, editing }
}

#[test]
fn add_toggle_clear_scenario() {
    let mut m = fresh();
    assert_eq!(m.state.entries.len(), 0);
    let (redraw, _) = m.update(Msg::Update("buy milk".to_string()));
    assert!(redraw);
    m.update(Msg::Add);
    assert_eq!(m.state.entries.len(), 1);
    assert_eq!(m.state.entries[0].description, "buy milk");
    assert!(!m.state.entries[0].completed);
    assert!(!m.state.entries[0].editing);
    assert_eq!(m.state.value, "");
    m.update(Msg::Toggle(0));
    assert!(m.state.entries[0].completed);
    m.update(Msg::ClearCompleted);
    assert_eq!(m.state.entries.len(), 0);
}

#[test]
fn add_trims_draft() {
    let mut m = fresh();
    m.update(Msg::Update("  tidy desk \u{3000} ".to_string()));
    m.update(Msg::Add);
    assert_eq!(m.state.entries.len(), 1);
    assert_eq!(m.state.entries[0].description, "tidy desk");
}

#[test]
fn add_with_blank_draft_adds_nothing() {
    let mut m = fresh();
    m.update(Msg::Update("   \t  ".to_string()));
    let (_, cmds) = m.update(Msg::Add);
    assert_eq!(m.state.entries.len(), 0);
    assert_eq!(m.state.value, "");
    assert!(cmds.is_empty());
}

#[test]
fn commit_handle_and_inbound_message_scenario() {
    let mut m = fresh();
    m.update(Msg::UpdateHandleCandide("alice".to_string()));
    m.update(Msg::SetHandle);
    assert_eq!(m.state.handle, "alice");
    assert_eq!(m.state.handle_candide, "");
    m.update(Msg::WsReady(Ok(WsResponse { value: "hi".to_string(), handle: "bob".to_string() })));
    assert_eq!(m.state.scant_messages.len(), 1);
    assert_eq!(m.state.scant_messages[0].content, "hi");
    assert_eq!(m.state.scant_messages[0].handle, "bob");
    m.update(Msg::WsReady(Ok(WsResponse { value: "again".to_string(), handle: "bob".to_string() })));
    assert_eq!(m.state.scant_messages.len(), 2);
    assert_eq!(m.state.scant_messages[0].content, "hi");
    assert_eq!(m.state.scant_messages[1].content, "again");
}

#[test]
fn inbound_decode_failure_is_dropped() {
    let mut m = fresh();
    m.update(Msg::WsReady(Err(DecodeError)));
    assert_eq!(m.state.scant_messages.len(), 0);
}

#[test]
fn edit_handle_stages_current_handle() {
    let mut m = fresh();
    m.update(Msg::UpdateHandleCandide("carol".to_string()));
    m.update(Msg::SetHandle);
    m.update(Msg::EditHandle);
    assert_eq!(m.state.handle, "");
    assert_eq!(m.state.handle_candide, "carol");
}

#[test]
fn render_ticks_scenario() {
    let mut m = fresh();
    let cmds = m.rendered(true);
    assert!(matches!(cmds[0], Command::BuildPipeline));
    assert!(matches!(cmds[1], Command::ScheduleFrame { token: 0 }));
    assert!(matches!(cmds[2], Command::OpenSocket));
    let (_, cmds) = m.update(Msg::Render(16));
    assert_eq!(cmds.len(), 2);
    assert!(matches!(cmds[0], Command::Draw { time: 16 }));
    assert!(matches!(cmds[1], Command::ScheduleFrame { token: 1 }));
    assert_eq!(m.renderer.pending(), Some(1));
    let (_, cmds) = m.update(Msg::Render(32));
    assert_eq!(cmds.len(), 2);
    assert!(matches!(cmds[0], Command::Draw { time: 32 }));
    assert!(matches!(cmds[1], Command::ScheduleFrame { token: 2 }));
    assert_eq!(m.renderer.pending(), Some(2));
}

#[test]
fn cancel_render_hands_back_pending_token() {
    let mut m = fresh();
    m.rendered(true);
    let cmds = m.cancel_render();
    assert_eq!(cmds.len(), 1);
    assert!(matches!(cmds[0], Command::CancelFrame { token: 0 }));
    assert_eq!(m.renderer.pending(), None);
    let cmds = m.cancel_render();
    assert!(cmds.is_empty());
}

#[test]
fn second_render_pass_builds_nothing() {
    let mut m = fresh();
    m.rendered(true);
    let cmds = m.rendered(false);
    assert!(cmds.is_empty());
}

#[test]
fn later_first_surface_builds_without_connecting() {
    let mut m = fresh();
    let cmds = m.rendered(false);
    assert_eq!(cmds.len(), 1);
    assert!(matches!(cmds[0], Command::BuildPipeline));
    assert_eq!(m.conn.state(), ConnState::Disconnected);
    assert_eq!(m.renderer.pending(), None);
}

#[test]
fn connection_machine_lifecycle() {
    let mut c = Connection::new();
    assert_eq!(c.state(), ConnState::Disconnected);
    assert!(!c.has_handle());
    c.connect();
    assert_eq!(c.state(), ConnState::Connecting);
    assert!(c.has_handle());
    c.opened();
    assert_eq!(c.state(), ConnState::Connected);
    c.lost();
    assert_eq!(c.state(), ConnState::Disconnected);
    assert!(!c.has_handle());
}

#[test]
fn send_while_disconnected_is_rejected() {
    let c = Connection::new();
    let request = WsRequest {
        handle: "alice".to_string(),
        value: "hi".to_string(),
        word: "hi".to_string(),
    };
    assert_eq!(c.send(false, request).err(), Some(SendError));
}

#[test]
fn send_while_connected_writes_the_payload() {
    let mut c = Connection::new();
    c.connect();
    c.opened();
    let request = WsRequest {
        handle: "alice".to_string(),
        value: "hi".to_string(),
        word: "hi".to_string(),
    };
    match c.send(true, request) {
        Ok(Command::WriteSocket { binary, request }) => {
            assert!(binary);
            assert_eq!(request.handle, "alice");
            assert_eq!(request.value, "hi");
            assert_eq!(request.word, "hi");
        }
        _ => panic!("send while connected must hand back the write"),
    }
}

#[test]
fn send_chat_clears_draft_and_duplicates_word() {
    let mut m = fresh();
    m.update(Msg::WsAction(WsAction::Connect));
    m.update(Msg::WsAction(WsAction::Opened));
    m.update(Msg::UpdateHandleCandide("dan".to_string()));
    m.update(Msg::SetHandle);
    m.update(Msg::Update("hello there".to_string()));
    let (_, cmds) = m.update(Msg::WsAction(WsAction::SendData(false, "...".to_string())));
    assert_eq!(m.state.value, "");
    assert_eq!(cmds.len(), 1);
    match &cmds[0] {
        Command::WriteSocket { binary, request } => {
            assert!(!binary);
            assert_eq!(request.handle, "dan");
            assert_eq!(request.value, "hello there");
            assert_eq!(request.word, "hello there");
        }
        _ => panic!("expected the write command"),
    }
}

#[test]
fn lost_returns_dispatcher_to_disconnected() {
    let mut m = fresh();
    m.update(Msg::WsAction(WsAction::Connect));
    assert_eq!(m.conn.state(), ConnState::Connecting);
    m.update(Msg::WsAction(WsAction::Lost));
    assert_eq!(m.conn.state(), ConnState::Disconnected);
    m.update(Msg::WsAction(WsAction::Connect));
    m.update(Msg::WsAction(WsAction::Opened));
    let (_, cmds) = m.update(Msg::WsAction(WsAction::Disconnect));
    assert_eq!(m.conn.state(), ConnState::Disconnected);
    assert!(matches!(cmds[0], Command::CloseSocket));
}

#[test]
fn start_edit_marks_exactly_one_entry() {
    let mut m = fresh();
    for text in ["one", "two", "three"] {
        m.update(Msg::Update(text.to_string()));
        m.update(Msg::Add);
    }
    m.update(Msg::ToggleEdit(0));
    m.update(Msg::ToggleEdit(2));
    let editing: Vec<bool> = m.state.entries.iter().map(|e| e.editing).collect();
    assert_eq!(editing, vec![false, false, true]);
    assert_eq!(m.state.edit_value, "three");
}

#[test]
fn commit_edit_writes_trimmed_text() {
    let mut m = fresh();
    m.update(Msg::Update("draft".to_string()));
    m.update(Msg::Add);
    m.update(Msg::ToggleEdit(0));
    m.update(Msg::UpdateEdit("  rewritten  ".to_string()));
    m.update(Msg::Edit(0));
    assert_eq!(m.state.entries[0].description, "rewritten");
    assert!(!m.state.entries[0].editing);
    assert_eq!(m.state.edit_value, "");
}

#[test]
fn remove_preserves_order_of_the_rest() {
    let mut m = fresh();
    for text in ["a", "b", "c", "d"] {
        m.update(Msg::Update(text.to_string()));
        m.update(Msg::Add);
    }
    m.update(Msg::Remove(1));
    let descriptions: Vec<&str> =
        m.state.entries.iter().map(|e| e.description.as_str()).collect();
    assert_eq!(descriptions, vec!["a", "c", "d"]);
}

#[test]
fn toggle_all_flips_against_uniform_completion() {
    let mut m = fresh();
    for text in ["a", "b"] {
        m.update(Msg::Update(text.to_string()));
        m.update(Msg::Add);
    }
    m.update(Msg::Toggle(0));
    m.update(Msg::ToggleAll);
    assert!(m.state.entries.iter().all(|e| e.completed));
    m.update(Msg::ToggleAll);
    assert!(m.state.entries.iter().all(|e| !e.completed));
}

#[test]
fn clear_completed_twice_equals_once() {
    let mut m = fresh();
    for (text, done) in [("a", true), ("b", false), ("c", true)] {
        m.update(Msg::Update(text.to_string()));
        m.update(Msg::Add);
        if done {
            let idx = m.state.entries.len() - 1;
            m.update(Msg::Toggle(idx));
        }
    }
    m.update(Msg::ClearCompleted);
    let after_once: Vec<String> =
        m.state.entries.iter().map(|e| e.description.clone()).collect();
    m.update(Msg::ClearCompleted);
    let after_twice: Vec<String> =
        m.state.entries.iter().map(|e| e.description.clone()).collect();
    assert_eq!(after_once, vec!["b".to_string()]);
    assert_eq!(after_once, after_twice);
}

#[test]
fn set_filter_touches_no_entries() {
    let mut m = fresh();
    m.update(Msg::Update("a".to_string()));
    m.update(Msg::Add);
    m.update(Msg::SetFilter(Filter::Completed));
    assert_eq!(m.state.filter, Filter::Completed);
    assert_eq!(m.state.entries.len(), 1);
}

#[test]
fn filter_fits_predicate() {
    let active = entry("a", false, false);
    let done = entry("b", true, false);
    assert!(Filter::All.fits(&active) && Filter::All.fits(&done));
    assert!(Filter::Active.fits(&active) && !Filter::Active.fits(&done));
    assert!(!Filter::Completed.fits(&active) && Filter::Completed.fits(&done));
}

#[test]
fn fetch_flow() {
    let mut m = fresh();
    let (_, cmds) = m.update(Msg::FetchData(Format::Json, false));
    assert!(m.fetch_active);
    assert!(matches!(cmds[0], Command::Fetch { binary: false }));
    m.update(Msg::FetchReady(Ok(DataFromFile { value: 42 })));
    assert_eq!(m.data, Some(42));
    m.update(Msg::FetchReady(Err(DecodeError)));
    assert_eq!(m.data, None);
}

#[test]
fn focus_emits_intent_only() {
    let mut m = fresh();
    let (_, cmds) = m.update(Msg::Focus);
    assert_eq!(cmds.len(), 1);
    assert!(matches!(cmds[0], Command::FocusInput));
    assert_eq!(m.state.entries.len(), 0);
}

#[test]
fn msg_from_ws_action() {
    assert!(matches!(Msg::from(WsAction::Lost), Msg::WsAction(WsAction::Lost)));
}

#[test]
fn save_restore_round_trip() {
    let entries = vec![
        entry("buy milk", false, false),
        entry("weiß \u{1F600} héllo", true, false),
        entry("", false, true),
    ];
    let blob = save_entries(&entries);
    let restored = restore_entries(&blob).expect("a saved blob must decode");
    assert_eq!(restored.len(), entries.len());
    for (a, b) in entries.iter().zip(restored.iter()) {
        assert_eq!(a.description, b.description);
        assert_eq!(a.completed, b.completed);
        assert_eq!(a.editing, b.editing);
    }
}

#[test]
fn restore_rejects_malformed_blobs() {
    assert!(restore_entries(&vec![]).is_none());
    assert!(restore_entries(&vec![1]).is_none());
    assert!(restore_entries(&vec![1, 2, 0xD800, 9, 9]).is_none());
    assert!(restore_entries(&vec![1, 0, 7, 0]).is_none());
    assert!(restore_entries(&vec![0, 0]).is_none());
}

#[test]
fn create_restores_saved_entries() {
    let entries = vec![entry("persisted", true, false)];
    let blob = save_entries(&entries);
    let m = Model::create(Some(blob));
    assert_eq!(m.state.entries.len(), 1);
    assert_eq!(m.state.entries[0].description, "persisted");
    assert!(m.state.entries[0].completed);
    assert_eq!(m.conn.state(), ConnState::Disconnected);
    assert_eq!(m.renderer.pending(), None);
}

#[test]
fn create_falls_back_to_empty_on_garbage() {
    let m = Model::create(Some(vec![99, 1, 2, 3]));
    assert_eq!(m.state.entries.len(), 0);
}

#[test]
fn add_emits_a_save_the_blob_of_which_restores() {
    let mut m = fresh();
    m.update(Msg::Update("note".to_string()));
    let (_, cmds) = m.update(Msg::Add);
    assert_eq!(cmds.len(), 1);
    match &cmds[0] {
        Command::Save { blob } => {
            let restored = restore_entries(blob).expect("the saved blob must decode");
            assert_eq!(restored.len(), 1);
            assert_eq!(restored[0].description, "note");
        }
        _ => panic!("expected the save command"),
    }
}

#[test]
fn entry_count_tracks_adds_and_removes() {
    let mut m = fresh();
    for text in ["a", "b", "c"] {
        m.update(Msg::Update(text.to_string()));
        m.update(Msg::Add);
    }
    m.update(Msg::Update("   ".to_string()));
    m.update(Msg::Add);
    m.update(Msg::Toggle(1));
    m.update(Msg::Remove(0));
    m.update(Msg::Remove(1));
    // three effective adds, one blank add, two removes
    assert_eq!(m.state.entries.len(), 1);
    assert_eq!(m.state.entries[0].description, "b");
}

#[test]
fn entry_mutations_emit_a_save() {
    let mut m = fresh();
    m.update(Msg::Update("a".to_string()));
    m.update(Msg::Add);
    for msg in [Msg::Toggle(0), Msg::ToggleAll, Msg::ClearCompleted] {
        let (_, cmds) = m.update(msg);
        assert_eq!(cmds.len(), 1);
        assert!(matches!(cmds[0], Command::Save { .. }));
    }
}

#[test]
fn storage_key_is_fixed() {
    assert_eq!(storage_key(), "yew.keystone.self");
}
