//! The dispatcher: the composition root that owns the application state, the
//! connection state machine and the render scheduler, and serializes every
//! message — user input, network events, animation ticks — into one
//! deterministic state transition plus a list of host commands.

use vstd::prelude::*;

use crate::conn::{ConnState, Connection};
use crate::msg::{Command, CommandView, Msg, MsgView, WsAction, WsActionView, WsRequest, WsRequestView};
use crate::render::{Renderer, RendererView};
use crate::state::{
    all_completed, all_edit_cleared, all_set_completed, trim_view, with_completed, with_editing,
    without_completed, Entry, EntryView, ScantMessage, ScantMessageView, State, StateView,
};
use crate::store::{restore_entries, save_entries, spec_decode, spec_encode};

verus! {

/// The composition root.
pub struct Model {
    pub state: State,
    pub conn: Connection,
    pub renderer: Renderer,
    pub data: Option<u32>,
    pub fetch_active: bool,
}

/// Mathematical model of the whole [`Model`].
#[verifier::ext_equal]
pub struct ModelView {
    pub state: StateView,
    pub conn: ConnState,
    pub renderer: RendererView,
    pub data: Option<u32>,
    pub fetch_active: bool,
}

impl View for Model {
    type V = ModelView;

    open spec fn view(&self) -> ModelView {
        ModelView {
            state: self.state@,
            conn: self.conn@,
            renderer: self.renderer@,
            data: self.data,
            fetch_active: self.fetch_active,
        }
    }
}

/// Which messages a model admits: the indices that must be in range and the
/// connection and scheduler states whose violation the design treats as a
/// caller bug, failing fast instead of silently ignoring it.
pub open spec fn msg_valid(m: ModelView, msg: MsgView) -> bool {
    match msg {
        MsgView::Edit(idx) => 0 <= idx < m.state.entries.len(),
        MsgView::Remove(idx) => 0 <= idx < m.state.entries.len(),
        MsgView::ToggleEdit(idx) => 0 <= idx < m.state.entries.len(),
        MsgView::Toggle(idx) => 0 <= idx < m.state.entries.len(),
        MsgView::WsAction(action) => match action {
            WsActionView::Connect => m.conn == ConnState::Disconnected,
            WsActionView::SendData(_, _) => m.conn == ConnState::Connected,
            WsActionView::Opened => m.conn == ConnState::Connecting,
            WsActionView::Disconnect => m.conn != ConnState::Disconnected,
            WsActionView::Lost => true,
        },
        MsgView::Render(_) => m.renderer.pipeline_built && m.renderer.next_token < u64::MAX,
        _ => true,
    }
}

/// The new state-field values after one message, with everything else held.
pub open spec fn step_state(s: StateView, msg: MsgView) -> StateView {
    match msg {
        MsgView::EditHandle => StateView {
            handle_candide: s.handle,
            handle: Seq::empty(),
            ..s
        },
        MsgView::SetHandle => StateView {
            handle: s.handle_candide,
            handle_candide: Seq::empty(),
            ..s
        },
        MsgView::UpdateHandleCandide(text) => StateView { handle_candide: text, ..s },
        MsgView::WsAction(WsActionView::SendData(_, _)) => StateView {
            value: Seq::empty(),
            ..s
        },
        MsgView::WsReady(r) => match r {
            Ok(resp) => StateView {
                scant_messages: s.scant_messages.push(
                    ScantMessageView { content: resp.value, handle: resp.handle },
                ),
                ..s
            },
            Err(_) => s,
        },
        MsgView::Add => {
            let d = trim_view(s.value);
            StateView {
                entries: if d.len() > 0 {
                    s.entries.push(EntryView { description: d, completed: false, editing: false })
                } else {
                    s.entries
                },
                value: Seq::empty(),
                ..s
            }
        },
        MsgView::Edit(idx) => StateView {
            entries: s.entries.update(
                idx,
                EntryView {
                    description: trim_view(s.edit_value),
                    completed: s.entries[idx].completed,
                    editing: false,
                },
            ),
            edit_value: Seq::empty(),
            ..s
        },
        MsgView::Update(text) => StateView { value: text, ..s },
        MsgView::UpdateEdit(text) => StateView { edit_value: text, ..s },
        MsgView::Remove(idx) => StateView { entries: s.entries.remove(idx), ..s },
        MsgView::SetFilter(f) => StateView { filter: f, ..s },
        MsgView::ToggleAll => StateView {
            entries: all_set_completed(s.entries, !all_completed(s.entries)),
            ..s
        },
        MsgView::ToggleEdit(idx) => StateView {
            entries: all_edit_cleared(s.entries).update(
                idx,
                with_editing(s.entries[idx], true),
            ),
            edit_value: s.entries[idx].description,
            ..s
        },
        MsgView::Toggle(idx) => StateView {
            entries: s.entries.update(
                idx,
                with_completed(s.entries[idx], !s.entries[idx].completed),
            ),
            ..s
        },
        MsgView::ClearCompleted => StateView { entries: without_completed(s.entries), ..s },
        _ => s,
    }
}

/// The connection state after one message.
pub open spec fn step_conn(c: ConnState, msg: MsgView) -> ConnState {
    match msg {
        MsgView::WsAction(WsActionView::Connect) => ConnState::Connecting,
        MsgView::WsAction(WsActionView::Opened) => ConnState::Connected,
        MsgView::WsAction(WsActionView::Disconnect) => ConnState::Disconnected,
        MsgView::WsAction(WsActionView::Lost) => ConnState::Disconnected,
        _ => c,
    }
}

/// The scheduler state after one message: a tick consumes the fired callback
/// and leaves exactly one fresh token pending.
pub open spec fn step_renderer(r: RendererView, msg: MsgView) -> RendererView {
    match msg {
        MsgView::Render(_) => RendererView {
            pending: Some(r.next_token),
            next_token: (r.next_token + 1) as u64,
            ..r
        },
        _ => r,
    }
}

/// The whole dispatch transition: one message, one deterministic new model.
pub open spec fn spec_update(m: ModelView, msg: MsgView) -> ModelView {
    ModelView {
        state: step_state(m.state, msg),
        conn: step_conn(m.conn, msg),
        renderer: step_renderer(m.renderer, msg),
        data: match msg {
            MsgView::FetchReady(r) => match r {
                Ok(d) => Some(d.value),
                Err(_) => None,
            },
            _ => m.data,
        },
        fetch_active: match msg {
            MsgView::FetchData(_, _) => true,
            _ => m.fetch_active,
        },
    }
}

/// The commands one message obliges the host to perform, in order.
pub open spec fn spec_commands(m: ModelView, msg: MsgView) -> Seq<CommandView> {
    match msg {
        MsgView::FetchData(_, binary) => seq![CommandView::Fetch { binary }],
        MsgView::WsAction(action) => match action {
            WsActionView::Connect => seq![CommandView::OpenSocket],
            WsActionView::SendData(binary, _) => seq![
                CommandView::WriteSocket {
                    binary,
                    request: WsRequestView {
                        handle: m.state.handle,
                        value: m.state.value,
                        word: m.state.value,
                    },
                },
            ],
            WsActionView::Disconnect => seq![CommandView::CloseSocket],
            WsActionView::Opened => Seq::empty(),
            WsActionView::Lost => Seq::empty(),
        },
        MsgView::Render(time) => seq![
            CommandView::Draw { time },
            CommandView::ScheduleFrame { token: m.renderer.next_token },
        ],
        MsgView::Add => if trim_view(m.state.value).len() > 0 {
            seq![CommandView::Save { blob: spec_encode(step_state(m.state, msg).entries) }]
        } else {
            Seq::empty()
        },
        MsgView::Edit(_) => seq![
            CommandView::Save { blob: spec_encode(step_state(m.state, msg).entries) },
        ],
        MsgView::Remove(_) => seq![
            CommandView::Save { blob: spec_encode(step_state(m.state, msg).entries) },
        ],
        MsgView::ToggleAll => seq![
            CommandView::Save { blob: spec_encode(step_state(m.state, msg).entries) },
        ],
        MsgView::Toggle(_) => seq![
            CommandView::Save { blob: spec_encode(step_state(m.state, msg).entries) },
        ],
        MsgView::ClearCompleted => seq![
            CommandView::Save { blob: spec_encode(step_state(m.state, msg).entries) },
        ],
        MsgView::Focus => seq![CommandView::FocusInput],
        _ => Seq::empty(),
    }
}

/// The entries a model starts from, given what the host found under the
/// storage key: a decodable blob restores its entries, anything else falls
/// back to an empty list.
pub open spec fn spec_restore(blob: Option<Seq<u64>>) -> Seq<EntryView> {
    match blob {
        None => Seq::empty(),
        Some(b) => match spec_decode(b) {
            Some(es) => es,
            None => Seq::empty(),
        },
    }
}

impl Model {
    /// The model at startup: entries restored from the persisted blob if it
    /// decodes, everything else at its initial value, no channel, no
    /// pipeline, nothing scheduled.
    pub fn create(blob: Option<Vec<u64>>) -> (m: Model)
        ensures
            m@.state.entries == spec_restore(
                match blob {
                    Some(b) => Some(b@),
                    None => None,
                },
            ),
            m@.state.filter == crate::state::Filter::All,
            m@.state.value == Seq::<char>::empty(),
            m@.state.edit_value == Seq::<char>::empty(),
            m@.state.handle == Seq::<char>::empty(),
            m@.state.handle_candide == Seq::<char>::empty(),
            m@.state.scant_messages == Seq::<ScantMessageView>::empty(),
            m@.conn == ConnState::Disconnected,
            m@.renderer == (RendererView { pipeline_built: false, pending: None, next_token: 0 }),
            m@.data is None,
            m@.fetch_active == false,
    {
        let entries: Vec<Entry> = match blob {
            Some(b) => match restore_entries(&b) {
                Some(v) => v,
                None => Vec::new(),
            },
            None => Vec::new(),
        };
        proof {
            if entries@.len() == 0 {
                assert(entries.deep_view() =~= Seq::<EntryView>::empty());
            }
        }
        Model {
            state: State::new(entries),
            conn: Connection::new(),
            renderer: Renderer::new(),
            data: None,
            fetch_active: false,
        }
    }

    /// One dispatch step: handles `msg` to completion, returns whether the
    /// view must redraw and the commands the host must now perform.
    #[verifier::rlimit(100)]
    pub fn update(&mut self, msg: Msg) -> (r: (bool, Vec<Command>))
        requires
            msg_valid(old(self)@, msg@),
        ensures
            final(self)@ == spec_update(old(self)@, msg@),
            r.0 == true,
            r.1.deep_view() == spec_commands(old(self)@, msg@),
    {
        let mut cmds: Vec<Command> = Vec::new();
        proof {
            assert(cmds.deep_view() =~= Seq::<CommandView>::empty());
        }
        match msg {
            Msg::EditHandle => {
                self.state.handle_candide = self.state.handle.clone();
                self.state.handle = String::new();
                proof {
                    assert(self@ =~= spec_update(old(self)@, msg@));
                }
            },
            Msg::SetHandle => {
                self.state.handle = self.state.handle_candide.clone();
                self.state.handle_candide = String::new();
                proof {
                    assert(self@ =~= spec_update(old(self)@, msg@));
                }
            },
            Msg::UpdateHandleCandide(handle_candide) => {
                self.state.handle_candide = handle_candide;
                proof {
                    assert(self@ =~= spec_update(old(self)@, msg@));
                }
            },
            Msg::FetchData(_format, binary) => {
                self.fetch_active = true;
                cmds.push(Command::Fetch { binary });
                proof {
                    assert(self@ =~= spec_update(old(self)@, msg@));
                    assert(cmds.deep_view() =~= spec_commands(old(self)@, msg@));
                }
            },
            Msg::WsAction(action) => match action {
                WsAction::Connect => {
                    let c = self.conn.connect();
                    cmds.push(c);
                    proof {
                        assert(self@ =~= spec_update(old(self)@, msg@));
                        assert(cmds.deep_view() =~= spec_commands(old(self)@, msg@));
                    }
                },
                WsAction::SendData(binary, _message) => {
                    let request = WsRequest {
                        handle: self.state.handle.clone(),
                        value: self.state.value.clone(),
                        word: self.state.value.clone(),
                    };
                    let c = self.conn.send(binary, request);
                    cmds.push(c.unwrap());
                    self.state.value = String::new();
                    proof {
                        assert(self@ =~= spec_update(old(self)@, msg@));
                        assert(cmds.deep_view() =~= spec_commands(old(self)@, msg@));
                    }
                },
                WsAction::Opened => {
                    self.conn.opened();
                    proof {
                        assert(self@ =~= spec_update(old(self)@, msg@));
                    }
                },
                WsAction::Disconnect => {
                    let c = self.conn.disconnect();
                    cmds.push(c);
                    proof {
                        assert(self@ =~= spec_update(old(self)@, msg@));
                        assert(cmds.deep_view() =~= spec_commands(old(self)@, msg@));
                    }
                },
                WsAction::Lost => {
                    self.conn.lost();
                    proof {
                        assert(self@ =~= spec_update(old(self)@, msg@));
                    }
                },
            },
            Msg::FetchReady(response) => {
                self.data = match response {
                    Ok(data) => Some(data.value),
                    Err(_) => None,
                };
                proof {
                    assert(self@ =~= spec_update(old(self)@, msg@));
                }
            },
            Msg::WsReady(response) => {
                match response {
                    Ok(data) => {
                        let ghost before = self.state.scant_messages.deep_view();
                        let ghost dv = data@;
                        self.state.scant_messages.push(
                            ScantMessage { content: data.value, handle: data.handle },
                        );
                        proof {
                            assert(self.state.scant_messages.deep_view() =~= before.push(
                                ScantMessageView { content: dv.value, handle: dv.handle },
                            ));
                            assert(self@ =~= spec_update(old(self)@, msg@));
                        }
                    },
                    Err(_) => {
                        proof {
                            assert(self@ =~= spec_update(old(self)@, msg@));
                        }
                    },
                }
            },
            Msg::Render(timestamp) => {
                let token = self.renderer.schedule();
                cmds.push(Command::Draw { time: timestamp });
                cmds.push(Command::ScheduleFrame { token });
                proof {
                    assert(self@ =~= spec_update(old(self)@, msg@));
                    assert(cmds.deep_view() =~= spec_commands(old(self)@, msg@));
                }
            },
            Msg::Add => {
                let description = crate::state::trimmed(self.state.value.as_str());
                if !description.as_str().is_empty() {
                    let ghost before = self.state.entries.deep_view();
                    let ghost d = description@;
                    let entry = Entry { description, completed: false, editing: false };
                    self.state.entries.push(entry);
                    proof {
                        assert(self.state.entries.deep_view() =~= before.push(
                            EntryView { description: d, completed: false, editing: false },
                        ));
                    }
                    let blob = save_entries(&self.state.entries);
                    cmds.push(Command::Save { blob });
                    proof {
                        assert(cmds.deep_view() =~= spec_commands(old(self)@, msg@));
                    }
                }
                self.state.value = String::new();
                proof {
                    assert(self@ =~= spec_update(old(self)@, msg@));
                }
            },
            Msg::Edit(idx) => {
                let edit_value = crate::state::trimmed(self.state.edit_value.as_str());
                self.state.complete_edit(idx, edit_value);
                self.state.edit_value = String::new();
                let blob = save_entries(&self.state.entries);
                cmds.push(Command::Save { blob });
                proof {
                    assert(self@ =~= spec_update(old(self)@, msg@));
                    assert(cmds.deep_view() =~= spec_commands(old(self)@, msg@));
                }
            },
            Msg::Update(val) => {
                self.state.value = val;
                proof {
                    assert(self@ =~= spec_update(old(self)@, msg@));
                }
            },
            Msg::UpdateEdit(val) => {
                self.state.edit_value = val;
                proof {
                    assert(self@ =~= spec_update(old(self)@, msg@));
                }
            },
            Msg::Remove(idx) => {
                self.state.remove(idx);
                let blob = save_entries(&self.state.entries);
                cmds.push(Command::Save { blob });
                proof {
                    assert(self@ =~= spec_update(old(self)@, msg@));
                    assert(cmds.deep_view() =~= spec_commands(old(self)@, msg@));
                }
            },
            Msg::SetFilter(filter) => {
                self.state.filter = filter;
                proof {
                    assert(self@ =~= spec_update(old(self)@, msg@));
                }
            },
            Msg::ToggleEdit(idx) => {
                self.state.edit_value = self.state.entries[idx].description.clone();
                self.state.clear_all_edit();
                self.state.toggle_edit(idx);
                proof {
                    assert(all_edit_cleared(old(self)@.state.entries)[idx as int]
                        == with_editing(old(self)@.state.entries[idx as int], false));
                    assert(self@ =~= spec_update(old(self)@, msg@));
                }
            },
            Msg::ToggleAll => {
                let status = !self.state.is_all_completed();
                self.state.toggle_all(status);
                let blob = save_entries(&self.state.entries);
                cmds.push(Command::Save { blob });
                proof {
                    assert(self@ =~= spec_update(old(self)@, msg@));
                    assert(cmds.deep_view() =~= spec_commands(old(self)@, msg@));
                }
            },
            Msg::Toggle(idx) => {
                self.state.toggle(idx);
                let blob = save_entries(&self.state.entries);
                cmds.push(Command::Save { blob });
                proof {
                    assert(self@ =~= spec_update(old(self)@, msg@));
                    assert(cmds.deep_view() =~= spec_commands(old(self)@, msg@));
                }
            },
            Msg::ClearCompleted => {
                self.state.clear_completed();
                let blob = save_entries(&self.state.entries);
                cmds.push(Command::Save { blob });
                proof {
                    assert(self@ =~= spec_update(old(self)@, msg@));
                    assert(cmds.deep_view() =~= spec_commands(old(self)@, msg@));
                }
            },
            Msg::Focus => {
                cmds.push(Command::FocusInput);
                proof {
                    assert(self@ =~= spec_update(old(self)@, msg@));
                    assert(cmds.deep_view() =~= spec_commands(old(self)@, msg@));
                }
            },
        }
        (true, cmds)
    }

    /// The model after the view has been rendered: the drawable surface is
    /// available, so the pipeline exists; on the first render the perpetual
    /// frame loop is started and the connection is opened.
    pub open spec fn spec_rendered(m: ModelView, first_render: bool) -> ModelView {
        ModelView {
            renderer: RendererView {
                pipeline_built: true,
                pending: if first_render {
                    Some(m.renderer.next_token)
                } else {
                    m.renderer.pending
                },
                next_token: if first_render {
                    (m.renderer.next_token + 1) as u64
                } else {
                    m.renderer.next_token
                },
            },
            conn: if first_render {
                ConnState::Connecting
            } else {
                m.conn
            },
            ..m
        }
    }

    /// The commands a render pass obliges the host to perform: build the
    /// pipeline the first time a surface exists, and on the first render
    /// schedule the first frame and open the channel.
    pub open spec fn spec_rendered_commands(m: ModelView, first_render: bool) -> Seq<CommandView> {
        (if !m.renderer.pipeline_built {
            seq![CommandView::BuildPipeline]
        } else {
            Seq::empty()
        }) + (if first_render {
            seq![
                CommandView::ScheduleFrame { token: m.renderer.next_token },
                CommandView::OpenSocket,
            ]
        } else {
            Seq::empty()
        })
    }

    /// Records one render pass of the host's view layer.
    pub fn rendered(&mut self, first_render: bool) -> (cmds: Vec<Command>)
        requires
            first_render ==> old(self)@.conn == ConnState::Disconnected,
            first_render ==> old(self)@.renderer.next_token < u64::MAX,
        ensures
            final(self)@ == Model::spec_rendered(old(self)@, first_render),
            cmds.deep_view() == Model::spec_rendered_commands(old(self)@, first_render),
    {
        let mut cmds: Vec<Command> = Vec::new();
        if !self.renderer.pipeline_built() {
            cmds.push(Command::BuildPipeline);
        }
        self.renderer.build();
        if first_render {
            let token = self.renderer.schedule();
            cmds.push(Command::ScheduleFrame { token });
            let c = self.conn.connect();
            cmds.push(c);
        }
        proof {
            assert(self@ =~= Model::spec_rendered(old(self)@, first_render));
            assert(cmds.deep_view() =~= Model::spec_rendered_commands(old(self)@, first_render));
        }
        cmds
    }

    /// Tears the render loop down: drops the outstanding scheduled-frame
    /// token and tells the host to cancel that callback, so that no
    /// perpetual callback outlives the component.
    pub fn cancel_render(&mut self) -> (cmds: Vec<Command>)
        ensures
            final(self)@ == (ModelView {
                renderer: RendererView { pending: None, ..old(self)@.renderer },
                ..old(self)@
            }),
            cmds.deep_view() == (match old(self)@.renderer.pending {
                Some(token) => seq![CommandView::CancelFrame { token }],
                None => Seq::<CommandView>::empty(),
            }),
    {
        let mut cmds: Vec<Command> = Vec::new();
        let token = self.renderer.cancel();
        match token {
            Some(t) => {
                cmds.push(Command::CancelFrame { token: t });
            },
            None => {},
        }
        proof {
            assert(self@ =~= (ModelView {
                renderer: RendererView { pending: None, ..old(self)@.renderer },
                ..old(self)@
            }));
            match old(self)@.renderer.pending {
                Some(t) => {
                    assert(cmds.deep_view() =~= seq![CommandView::CancelFrame { token: t }]);
                },
                None => {
                    assert(cmds.deep_view() =~= Seq::<CommandView>::empty());
                },
            }
        }
        cmds
    }
}

} // verus!
