//! The remote export session, modelled as a state machine: the driver owns
//! the decisions (start a stopped container, open the exec session, collect
//! the multiplexed stream), while the caller performs each requested runtime
//! action and feeds the outcome back as an event.

use vstd::prelude::*;
use vstd::string::StringExecFns;

verus! {

/// Which stream of the remote command a chunk came from.
#[derive(Clone, Copy, Debug, PartialEq, Eq, Structural)]
pub enum ChunkSource {
    StdOut,
    StdErr,
    Other,
}

/// One tagged chunk of the multiplexed output stream.
#[derive(Clone, Debug, PartialEq)]
pub struct OutputChunk {
    pub source: ChunkSource,
    pub message: Vec<u8>,
}

impl View for OutputChunk {
    type V = (ChunkSource, Seq<u8>);

    open spec fn view(&self) -> (ChunkSource, Seq<u8>) {
        (self.source, self.message@)
    }
}

/// The session's progress through the export protocol.
#[derive(Clone, Debug, PartialEq)]
pub enum ExportState {
    /// Waiting for the target container's run state.
    Inspecting,
    /// The container was stopped; waiting for the start request to finish.
    Starting,
    /// The container is running; waiting for the exec handle.
    CreatingExec,
    /// Waiting for the execution to begin and attach its stream.
    StartingExec,
    /// Draining the stream; `collected` holds the stdout bytes so far.
    Streaming { collected: Vec<u8> },
    /// The stream ended; `dump` is the complete artifact.
    Done { dump: Vec<u8> },
    /// A runtime failure ended the session; nothing may be written.
    Failed,
}

/// What the runtime reported back after the last requested action.
#[derive(Clone, Debug, PartialEq)]
pub enum RuntimeEvent {
    Inspected { running: bool },
    Started,
    ExecCreated,
    StreamAttached,
    StreamDetached,
    Chunk(OutputChunk),
    StreamEnd,
    RuntimeFailure,
}

/// The next runtime call the caller must perform.
#[derive(Clone, Debug, PartialEq)]
pub enum RuntimeAction {
    /// Inspect the target container's run state.
    Inspect,
    /// Start the (stopped) target container.
    Start,
    /// Create the remote execution request for the dump command.
    CreateExec,
    /// Start the execution and attach its output stream.
    StartExec,
    /// Read the next chunk from the stream.
    ReadChunk,
    /// Show a stderr chunk on the diagnostic channel, then read the next
    /// chunk.
    EmitDiagnostic { message: Vec<u8> },
    /// The session is over: write the dump if `Done`, report failure if
    /// `Failed`.
    Conclude,
}

/// Mathematical model of a session state.
pub enum StateModel {
    Inspecting,
    Starting,
    CreatingExec,
    StartingExec,
    Streaming(Seq<u8>),
    Done(Seq<u8>),
    Failed,
}

/// Mathematical model of a runtime event.
pub enum EventModel {
    Inspected(bool),
    Started,
    ExecCreated,
    StreamAttached,
    StreamDetached,
    Chunk(ChunkSource, Seq<u8>),
    StreamEnd,
    RuntimeFailure,
}

/// Mathematical model of a requested action.
pub enum ActionModel {
    Inspect,
    Start,
    CreateExec,
    StartExec,
    ReadChunk,
    EmitDiagnostic(Seq<u8>),
    Conclude,
}

impl View for ExportState {
    type V = StateModel;

    open spec fn view(&self) -> StateModel {
        match self {
            ExportState::Inspecting => StateModel::Inspecting,
            ExportState::Starting => StateModel::Starting,
            ExportState::CreatingExec => StateModel::CreatingExec,
            ExportState::StartingExec => StateModel::StartingExec,
            ExportState::Streaming { collected } => StateModel::Streaming(collected@),
            ExportState::Done { dump } => StateModel::Done(dump@),
            ExportState::Failed => StateModel::Failed,
        }
    }
}

impl View for RuntimeEvent {
    type V = EventModel;

    open spec fn view(&self) -> EventModel {
        match self {
            RuntimeEvent::Inspected { running } => EventModel::Inspected(*running),
            RuntimeEvent::Started => EventModel::Started,
            RuntimeEvent::ExecCreated => EventModel::ExecCreated,
            RuntimeEvent::StreamAttached => EventModel::StreamAttached,
            RuntimeEvent::StreamDetached => EventModel::StreamDetached,
            RuntimeEvent::Chunk(chunk) => EventModel::Chunk(chunk.source, chunk.message@),
            RuntimeEvent::StreamEnd => EventModel::StreamEnd,
            RuntimeEvent::RuntimeFailure => EventModel::RuntimeFailure,
        }
    }
}

impl View for RuntimeAction {
    type V = ActionModel;

    open spec fn view(&self) -> ActionModel {
        match self {
            RuntimeAction::Inspect => ActionModel::Inspect,
            RuntimeAction::Start => ActionModel::Start,
            RuntimeAction::CreateExec => ActionModel::CreateExec,
            RuntimeAction::StartExec => ActionModel::StartExec,
            RuntimeAction::ReadChunk => ActionModel::ReadChunk,
            RuntimeAction::EmitDiagnostic { message } => ActionModel::EmitDiagnostic(message@),
            RuntimeAction::Conclude => ActionModel::Conclude,
        }
    }
}

/// The session's transition function. A stopped container is started before
/// anything else; the stream is drained in arrival order, stdout chunks
/// accumulating into the dump and stderr chunks going to the diagnostic
/// channel; any runtime failure (or out-of-protocol event) ends the session
/// in `Failed`, discarding what was collected.
pub open spec fn spec_step(s: StateModel, e: EventModel) -> (StateModel, ActionModel) {
    match s {
        StateModel::Inspecting => match e {
            EventModel::Inspected(running) => if running {
                (StateModel::CreatingExec, ActionModel::CreateExec)
            } else {
                (StateModel::Starting, ActionModel::Start)
            },
            _ => (StateModel::Failed, ActionModel::Conclude),
        },
        StateModel::Starting => match e {
            EventModel::Started => (StateModel::CreatingExec, ActionModel::CreateExec),
            _ => (StateModel::Failed, ActionModel::Conclude),
        },
        StateModel::CreatingExec => match e {
            EventModel::ExecCreated => (StateModel::StartingExec, ActionModel::StartExec),
            _ => (StateModel::Failed, ActionModel::Conclude),
        },
        StateModel::StartingExec => match e {
            EventModel::StreamAttached => (
                StateModel::Streaming(Seq::empty()),
                ActionModel::ReadChunk,
            ),
            EventModel::StreamDetached => (StateModel::Done(Seq::empty()), ActionModel::Conclude),
            _ => (StateModel::Failed, ActionModel::Conclude),
        },
        StateModel::Streaming(acc) => match e {
            EventModel::Chunk(source, message) => match source {
                ChunkSource::StdOut => (
                    StateModel::Streaming(acc + message),
                    ActionModel::ReadChunk,
                ),
                ChunkSource::StdErr => (
                    StateModel::Streaming(acc),
                    ActionModel::EmitDiagnostic(message),
                ),
                ChunkSource::Other => (StateModel::Streaming(acc), ActionModel::ReadChunk),
            },
            EventModel::StreamEnd => (StateModel::Done(acc), ActionModel::Conclude),
            _ => (StateModel::Failed, ActionModel::Conclude),
        },
        StateModel::Done(dump) => (StateModel::Done(dump), ActionModel::Conclude),
        StateModel::Failed => (StateModel::Failed, ActionModel::Conclude),
    }
}

/// Opens an export session. The first runtime call is always an inspection
/// of the target container's run state.
pub fn export_start() -> (r: (ExportState, RuntimeAction))
    ensures
        r.0@ == StateModel::Inspecting,
        r.1@ == ActionModel::Inspect,
{
    (ExportState::Inspecting, RuntimeAction::Inspect)
}

/// Feeds one runtime event into the session and returns the next state and
/// the action the caller must perform.
pub fn step(state: ExportState, event: RuntimeEvent) -> (r: (ExportState, RuntimeAction))
    ensures
        r.0@ == spec_step(state@, event@).0,
        r.1@ == spec_step(state@, event@).1,
{
    match state {
        ExportState::Inspecting => match event {
            RuntimeEvent::Inspected { running } => if running {
                (ExportState::CreatingExec, RuntimeAction::CreateExec)
            } else {
                (ExportState::Starting, RuntimeAction::Start)
            },
            _ => (ExportState::Failed, RuntimeAction::Conclude),
        },
        ExportState::Starting => match event {
            RuntimeEvent::Started => (ExportState::CreatingExec, RuntimeAction::CreateExec),
            _ => (ExportState::Failed, RuntimeAction::Conclude),
        },
        ExportState::CreatingExec => match event {
            RuntimeEvent::ExecCreated => (ExportState::StartingExec, RuntimeAction::StartExec),
            _ => (ExportState::Failed, RuntimeAction::Conclude),
        },
        ExportState::StartingExec => match event {
            RuntimeEvent::StreamAttached => (
                ExportState::Streaming { collected: Vec::new() },
                RuntimeAction::ReadChunk,
            ),
            RuntimeEvent::StreamDetached => (
                ExportState::Done { dump: Vec::new() },
                RuntimeAction::Conclude,
            ),
            _ => (ExportState::Failed, RuntimeAction::Conclude),
        },
        ExportState::Streaming { collected } => match event {
            RuntimeEvent::Chunk(chunk) => match chunk.source {
                ChunkSource::StdOut => {
                    let mut collected = collected;
                    let mut message = chunk.message;
                    collected.append(&mut message);
                    (ExportState::Streaming { collected }, RuntimeAction::ReadChunk)
                },
                ChunkSource::StdErr => (
                    ExportState::Streaming { collected },
                    RuntimeAction::EmitDiagnostic { message: chunk.message },
                ),
                ChunkSource::Other => (
                    ExportState::Streaming { collected },
                    RuntimeAction::ReadChunk,
                ),
            },
            RuntimeEvent::StreamEnd => (
                ExportState::Done { dump: collected },
                RuntimeAction::Conclude,
            ),
            _ => (ExportState::Failed, RuntimeAction::Conclude),
        },
        ExportState::Done { dump } => (ExportState::Done { dump }, RuntimeAction::Conclude),
        ExportState::Failed => (ExportState::Failed, RuntimeAction::Conclude),
    }
}

/// The fixed remote dump command and its arguments.
pub fn dump_command() -> (r: Vec<String>)
    ensures
        r@.len() == 3,
        r@[0]@ == "pg_dump"@,
        r@[1]@ == "-U"@,
        r@[2]@ == "ballsdex"@,
{
    let mut cmd: Vec<String> = Vec::new();
    cmd.push(String::from_str("pg_dump"));
    cmd.push(String::from_str("-U"));
    cmd.push(String::from_str("ballsdex"));
    cmd
}

/// The states a session passes through when driven by `events` from `s`.
pub open spec fn run_state(s: StateModel, events: Seq<EventModel>) -> StateModel
    decreases events.len(),
{
    if events.len() == 0 {
        s
    } else {
        run_state(spec_step(s, events[0]).0, events.drop_first())
    }
}

/// The actions a session requests when driven by `events` from `s`.
pub open spec fn run_actions(s: StateModel, events: Seq<EventModel>) -> Seq<ActionModel>
    decreases events.len(),
{
    if events.len() == 0 {
        Seq::empty()
    } else {
        seq![spec_step(s, events[0]).1] + run_actions(spec_step(s, events[0]).0, events.drop_first())
    }
}

/// One action is requested per event fed in.
pub proof fn lemma_run_actions_len(s: StateModel, events: Seq<EventModel>)
    ensures
        run_actions(s, events).len() == events.len(),
    decreases events.len(),
{
    if events.len() > 0 {
        lemma_run_actions_len(spec_step(s, events[0]).0, events.drop_first());
    }
}

/// Once the session has left the inspection state it never returns to it,
/// and so never requests another container start.
proof fn lemma_no_start_after_inspection(s: StateModel, events: Seq<EventModel>)
    requires
        s != StateModel::Inspecting,
    ensures
        forall|i: int|
            0 <= i < run_actions(s, events).len() ==> run_actions(s, events)[i]
                != ActionModel::Start,
    decreases events.len(),
{
    if events.len() > 0 {
        let s1 = spec_step(s, events[0]).0;
        assert(spec_step(s, events[0]).1 != ActionModel::Start);
        assert(s1 != StateModel::Inspecting);
        lemma_no_start_after_inspection(s1, events.drop_first());
    }
}

/// Ordering of runtime mutations: a session that finds the container
/// stopped requests exactly one start, as its very first action — hence
/// before any exec-create request — while a session that finds it running
/// requests no start at all.
pub proof fn lemma_start_ordering(events: Seq<EventModel>, running: bool)
    requires
        events.len() > 0,
        events[0] == EventModel::Inspected(running),
    ensures
        ({
            let actions = run_actions(StateModel::Inspecting, events);
            &&& actions.len() == events.len()
            &&& (!running ==> actions[0] == ActionModel::Start)
            &&& (!running ==> forall|i: int|
                1 <= i < actions.len() ==> actions[i] != ActionModel::Start)
            &&& (!running ==> forall|i: int|
                0 <= i < actions.len() && actions[i] == ActionModel::CreateExec ==> 0 < i)
            &&& (running ==> forall|i: int|
                0 <= i < actions.len() ==> actions[i] != ActionModel::Start)
        }),
{
    lemma_run_actions_len(StateModel::Inspecting, events);
    let s1 = spec_step(StateModel::Inspecting, events[0]).0;
    lemma_no_start_after_inspection(s1, events.drop_first());
}

/// The concatenation of the stdout payloads of `chunks`, in order.
pub open spec fn stdout_concat(chunks: Seq<(ChunkSource, Seq<u8>)>) -> Seq<u8>
    decreases chunks.len(),
{
    if chunks.len() == 0 {
        Seq::empty()
    } else {
        (if chunks[0].0 == ChunkSource::StdOut {
            chunks[0].1
        } else {
            Seq::empty()
        }) + stdout_concat(chunks.drop_first())
    }
}

/// The subsequence of `chunks` that came from stdout.
pub open spec fn stdout_only(chunks: Seq<(ChunkSource, Seq<u8>)>) -> Seq<(ChunkSource, Seq<u8>)>
    decreases chunks.len(),
{
    if chunks.len() == 0 {
        chunks
    } else if chunks[0].0 == ChunkSource::StdOut {
        seq![chunks[0]] + stdout_only(chunks.drop_first())
    } else {
        stdout_only(chunks.drop_first())
    }
}

/// The events of a fully drained stream: one per chunk, then the end of the
/// stream.
pub open spec fn chunk_events(chunks: Seq<(ChunkSource, Seq<u8>)>) -> Seq<EventModel> {
    chunks.map_values(|c: (ChunkSource, Seq<u8>)| EventModel::Chunk(c.0, c.1)).push(
        EventModel::StreamEnd,
    )
}

/// Draining a stream to its end accumulates exactly the concatenation of
/// its stdout chunks, in arrival order, after whatever was collected
/// before.
pub proof fn lemma_stream_accumulation(acc: Seq<u8>, chunks: Seq<(ChunkSource, Seq<u8>)>)
    ensures
        run_state(StateModel::Streaming(acc), chunk_events(chunks)) == StateModel::Done(
            acc + stdout_concat(chunks),
        ),
    decreases chunks.len(),
{
    let events = chunk_events(chunks);
    if chunks.len() == 0 {
        assert(events =~= seq![EventModel::StreamEnd]);
        assert(events[0] == EventModel::StreamEnd);
        assert(run_state(StateModel::Streaming(acc), events) == run_state(
            StateModel::Done(acc),
            events.drop_first(),
        ));
        assert(events.drop_first().len() == 0);
        assert(run_state(StateModel::Done(acc), events.drop_first()) == StateModel::Done(acc));
        assert(acc + stdout_concat(chunks) =~= acc);
    } else {
        let c0 = chunks[0];
        assert(events[0] == EventModel::Chunk(c0.0, c0.1));
        assert(events.drop_first() =~= chunk_events(chunks.drop_first()));
        let next = spec_step(StateModel::Streaming(acc), events[0]).0;
        assert(run_state(StateModel::Streaming(acc), events) == run_state(
            next,
            events.drop_first(),
        ));
        match c0.0 {
            ChunkSource::StdOut => {
                assert(next == StateModel::Streaming(acc + c0.1));
                lemma_stream_accumulation(acc + c0.1, chunks.drop_first());
                assert((acc + c0.1) + stdout_concat(chunks.drop_first()) =~= acc + stdout_concat(
                    chunks,
                ));
            },
            ChunkSource::StdErr => {
                assert(next == StateModel::Streaming(acc));
                lemma_stream_accumulation(acc, chunks.drop_first());
                assert(acc + stdout_concat(chunks.drop_first()) =~= acc + stdout_concat(chunks));
            },
            ChunkSource::Other => {
                assert(next == StateModel::Streaming(acc));
                lemma_stream_accumulation(acc, chunks.drop_first());
                assert(acc + stdout_concat(chunks.drop_first()) =~= acc + stdout_concat(chunks));
            },
        }
    }
}

/// The whole protocol's guarantee: a session whose runtime calls all
/// succeed — starting the container first when it was stopped — ends with
/// the dump equal to the concatenation of the stream's stdout chunks, in
/// arrival order.
pub proof fn lemma_full_session(running: bool, chunks: Seq<(ChunkSource, Seq<u8>)>)
    ensures
        ({
            let prelude: Seq<EventModel> = if running {
                seq![
                    EventModel::Inspected(true),
                    EventModel::ExecCreated,
                    EventModel::StreamAttached,
                ]
            } else {
                seq![
                    EventModel::Inspected(false),
                    EventModel::Started,
                    EventModel::ExecCreated,
                    EventModel::StreamAttached,
                ]
            };
            run_state(StateModel::Inspecting, prelude + chunk_events(chunks)) == StateModel::Done(
                stdout_concat(chunks),
            )
        }),
{
    let prelude: Seq<EventModel> = if running {
        seq![EventModel::Inspected(true), EventModel::ExecCreated, EventModel::StreamAttached]
    } else {
        seq![
            EventModel::Inspected(false),
            EventModel::Started,
            EventModel::ExecCreated,
            EventModel::StreamAttached,
        ]
    };
    let events = prelude + chunk_events(chunks);
    let tail = chunk_events(chunks);
    let e1 = events.drop_first();
    let e2 = e1.drop_first();
    let e3 = e2.drop_first();
    if running {
        assert(events[0] == EventModel::Inspected(true));
        assert(run_state(StateModel::Inspecting, events) == run_state(StateModel::CreatingExec, e1));
        assert(e1[0] == events[1] && events[1] == EventModel::ExecCreated);
        assert(run_state(StateModel::CreatingExec, e1) == run_state(StateModel::StartingExec, e2));
        assert(e2[0] == events[2] && events[2] == EventModel::StreamAttached);
        assert(run_state(StateModel::StartingExec, e2) == run_state(
            StateModel::Streaming(Seq::empty()),
            e3,
        ));
        assert(e3 =~= tail);
    } else {
        let e4 = e3.drop_first();
        assert(events[0] == EventModel::Inspected(false));
        assert(run_state(StateModel::Inspecting, events) == run_state(StateModel::Starting, e1));
        assert(e1[0] == events[1] && events[1] == EventModel::Started);
        assert(run_state(StateModel::Starting, e1) == run_state(StateModel::CreatingExec, e2));
        assert(e2[0] == events[2] && events[2] == EventModel::ExecCreated);
        assert(run_state(StateModel::CreatingExec, e2) == run_state(StateModel::StartingExec, e3));
        assert(e3[0] == events[3] && events[3] == EventModel::StreamAttached);
        assert(run_state(StateModel::StartingExec, e3) == run_state(
            StateModel::Streaming(Seq::empty()),
            e4,
        ));
        assert(e4 =~= tail);
    }
    lemma_stream_accumulation(Seq::empty(), chunks);
    assert(Seq::<u8>::empty() + stdout_concat(chunks) =~= stdout_concat(chunks));
}

/// Interleaving invariance: the accumulated dump depends only on the
/// stdout chunks — dropping every stderr (and other) chunk from the stream
/// leaves the result unchanged.
pub proof fn lemma_interleaving_invariance(chunks: Seq<(ChunkSource, Seq<u8>)>)
    ensures
        stdout_concat(stdout_only(chunks)) == stdout_concat(chunks),
        forall|i: int|
            0 <= i < stdout_only(chunks).len() ==> stdout_only(chunks)[i].0
                == ChunkSource::StdOut,
    decreases chunks.len(),
{
    if chunks.len() > 0 {
        lemma_interleaving_invariance(chunks.drop_first());
        if chunks[0].0 == ChunkSource::StdOut {
            assert((seq![chunks[0]] + stdout_only(chunks.drop_first())).drop_first()
                =~= stdout_only(chunks.drop_first()));
        } else {
            assert(Seq::<u8>::empty() + stdout_concat(chunks.drop_first()) =~= stdout_concat(
                chunks.drop_first(),
            ));
        }
    }
}

} // verus!
