//! The message taxonomy of the dispatcher, the payload records of the network
//! channel, and the side-effect commands that the dispatcher hands back to the
//! host for execution.

use vstd::prelude::*;

use crate::state::Filter;

verus! {

/// The encoding of the one-shot static-data fetch.
#[derive(Clone, Copy, Debug, PartialEq, Eq, Structural)]
pub enum Format {
    Json,
}

/// Whether a channel payload is sent as binary.
pub type AsBinary = bool;

/// A staged chat line.
pub type Message = String;

/// Commands and events of the connection state machine, as dispatcher
/// messages.
pub enum WsAction {
    Connect,
    SendData(AsBinary, Message),
    Opened,
    Disconnect,
    Lost,
}

/// Mathematical model of a [`WsAction`].
pub enum WsActionView {
    Connect,
    SendData(bool, Seq<char>),
    Opened,
    Disconnect,
    Lost,
}

impl View for WsAction {
    type V = WsActionView;

    open spec fn view(&self) -> WsActionView {
        match self {
            WsAction::Connect => WsActionView::Connect,
            WsAction::SendData(binary, message) => WsActionView::SendData(*binary, message@),
            WsAction::Opened => WsActionView::Opened,
            WsAction::Disconnect => WsActionView::Disconnect,
            WsAction::Lost => WsActionView::Lost,
        }
    }
}

/// The record parsed from the one-shot static-data fetch.
#[derive(Clone, Copy, Debug, PartialEq, Eq, Structural)]
pub struct DataFromFile {
    pub value: u32,
}

/// A payload could not be decoded; the feed drops it silently.
#[derive(Clone, Copy, Debug, PartialEq, Eq, Structural)]
pub struct DecodeError;

/// The outbound payload of the chat channel.  `word` duplicates `value`.
pub struct WsRequest {
    pub handle: String,
    pub value: String,
    pub word: String,
}

/// Mathematical model of a [`WsRequest`].
#[verifier::ext_equal]
pub struct WsRequestView {
    pub handle: Seq<char>,
    pub value: Seq<char>,
    pub word: Seq<char>,
}

impl View for WsRequest {
    type V = WsRequestView;

    open spec fn view(&self) -> WsRequestView {
        WsRequestView { handle: self.handle@, value: self.value@, word: self.word@ }
    }
}

impl DeepView for WsRequest {
    type V = WsRequestView;

    open spec fn deep_view(&self) -> WsRequestView {
        self.view()
    }
}

/// The decoded inbound payload of the chat channel.
pub struct WsResponse {
    pub value: String,
    pub handle: String,
}

/// Mathematical model of a [`WsResponse`].
#[verifier::ext_equal]
pub struct WsResponseView {
    pub value: Seq<char>,
    pub handle: Seq<char>,
}

impl View for WsResponse {
    type V = WsResponseView;

    open spec fn view(&self) -> WsResponseView {
        WsResponseView { value: self.value@, handle: self.handle@ }
    }
}

/// One message of the serialized dispatch stream: user input, a network
/// event, or an animation tick.
pub enum Msg {
    EditHandle,
    SetHandle,
    UpdateHandleCandide(String),
    FetchData(Format, AsBinary),
    WsAction(WsAction),
    FetchReady(Result<DataFromFile, DecodeError>),
    WsReady(Result<WsResponse, DecodeError>),
    Render(u64),
    Add,
    Edit(usize),
    Update(String),
    UpdateEdit(String),
    Remove(usize),
    SetFilter(Filter),
    ToggleAll,
    ToggleEdit(usize),
    Toggle(usize),
    ClearCompleted,
    Focus,
}

/// Mathematical model of a [`Msg`].
pub enum MsgView {
    EditHandle,
    SetHandle,
    UpdateHandleCandide(Seq<char>),
    FetchData(Format, bool),
    WsAction(WsActionView),
    FetchReady(Result<DataFromFile, DecodeError>),
    WsReady(Result<WsResponseView, DecodeError>),
    Render(u64),
    Add,
    Edit(int),
    Update(Seq<char>),
    UpdateEdit(Seq<char>),
    Remove(int),
    SetFilter(Filter),
    ToggleAll,
    ToggleEdit(int),
    Toggle(int),
    ClearCompleted,
    Focus,
}

impl View for Msg {
    type V = MsgView;

    open spec fn view(&self) -> MsgView {
        match self {
            Msg::EditHandle => MsgView::EditHandle,
            Msg::SetHandle => MsgView::SetHandle,
            Msg::UpdateHandleCandide(text) => MsgView::UpdateHandleCandide(text@),
            Msg::FetchData(format, binary) => MsgView::FetchData(*format, *binary),
            Msg::WsAction(action) => MsgView::WsAction(action@),
            Msg::FetchReady(r) => MsgView::FetchReady(*r),
            Msg::WsReady(r) => MsgView::WsReady(
                match r {
                    Ok(resp) => Ok(resp@),
                    Err(e) => Err(*e),
                },
            ),
            Msg::Render(timestamp) => MsgView::Render(*timestamp),
            Msg::Add => MsgView::Add,
            Msg::Edit(idx) => MsgView::Edit(*idx as int),
            Msg::Update(text) => MsgView::Update(text@),
            Msg::UpdateEdit(text) => MsgView::UpdateEdit(text@),
            Msg::Remove(idx) => MsgView::Remove(*idx as int),
            Msg::SetFilter(filter) => MsgView::SetFilter(*filter),
            Msg::ToggleAll => MsgView::ToggleAll,
            Msg::ToggleEdit(idx) => MsgView::ToggleEdit(*idx as int),
            Msg::Toggle(idx) => MsgView::Toggle(*idx as int),
            Msg::ClearCompleted => MsgView::ClearCompleted,
            Msg::Focus => MsgView::Focus,
        }
    }
}

impl From<WsAction> for Msg {
    fn from(action: WsAction) -> (r: Msg) {
        Msg::WsAction(action)
    }
}

impl vstd::std_specs::convert::FromSpecImpl<WsAction> for Msg {
    open spec fn obeys_from_spec() -> bool {
        true
    }

    open spec fn from_spec(action: WsAction) -> Msg {
        Msg::WsAction(action)
    }
}

/// A side effect the host must perform after a dispatch step.  The dispatcher
/// itself never touches the DOM, the socket, the GPU or the storage area.
pub enum Command {
    /// Open the channel to the configured endpoint.
    OpenSocket,
    /// Serialize `request` and write it to the open channel.
    WriteSocket { binary: bool, request: WsRequest },
    /// Close the channel and drop its handle.
    CloseSocket,
    /// Build the persistent render pipeline for the current surface.
    BuildPipeline,
    /// Issue one draw with the time uniform set to `time`.
    Draw { time: u64 },
    /// Ask the platform for one animation-frame callback under `token`.
    ScheduleFrame { token: u64 },
    /// Cancel the animation-frame callback scheduled under `token`.
    CancelFrame { token: u64 },
    /// Start the one-shot static-data fetch.
    Fetch { binary: bool },
    /// Persist `blob` under the fixed storage key.
    Save { blob: Vec<u64> },
    /// Move input focus to the edit field.
    FocusInput,
}

/// Mathematical model of a [`Command`].
#[verifier::ext_equal]
pub enum CommandView {
    OpenSocket,
    WriteSocket { binary: bool, request: WsRequestView },
    CloseSocket,
    BuildPipeline,
    Draw { time: u64 },
    ScheduleFrame { token: u64 },
    CancelFrame { token: u64 },
    Fetch { binary: bool },
    Save { blob: Seq<u64> },
    FocusInput,
}

impl View for Command {
    type V = CommandView;

    open spec fn view(&self) -> CommandView {
        match self {
            Command::OpenSocket => CommandView::OpenSocket,
            Command::WriteSocket { binary, request } => CommandView::WriteSocket {
                binary: *binary,
                request: request@,
            },
            Command::CloseSocket => CommandView::CloseSocket,
            Command::BuildPipeline => CommandView::BuildPipeline,
            Command::Draw { time } => CommandView::Draw { time: *time },
            Command::ScheduleFrame { token } => CommandView::ScheduleFrame { token: *token },
            Command::CancelFrame { token } => CommandView::CancelFrame { token: *token },
            Command::Fetch { binary } => CommandView::Fetch { binary: *binary },
            Command::Save { blob } => CommandView::Save { blob: blob@ },
            Command::FocusInput => CommandView::FocusInput,
        }
    }
}

impl DeepView for Command {
    type V = CommandView;

    open spec fn deep_view(&self) -> CommandView {
        self.view()
    }
}

} // verus!
