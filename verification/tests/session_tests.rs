use ndmig::registry::{build_registry, ContainerDescriptor};
use ndmig::select::resolve_selection;
use ndmig::naming::dump_relative_path;
use ndmig::session::{
    dump_command, export_start, step, ChunkSource, ExportState, OutputChunk, RuntimeAction,
    RuntimeEvent,
};

fn chunk(source: ChunkSource, message: &[u8]) -> RuntimeEvent {
    RuntimeEvent::Chunk(OutputChunk { source, message: message.to_vec() })
}

/// Feeds the events in order, returning the final state and every action
/// the session requested along the way.
fn drive(events: Vec<RuntimeEvent>) -> (ExportState, Vec<RuntimeAction>) {
    let (mut state, first) = export_start();
    assert_eq!(first, RuntimeAction::Inspect);
    let mut actions = Vec::new();
    for event in events {
        let (next, action) = step(state, event);
        state = next;
        actions.push(action);
    }
    (state, actions)
}

#[test]
fn dump_command_is_fixed() {
    assert_eq!(dump_command(), vec!["pg_dump", "-U", "ballsdex"]);
}

#[test]
fn stopped_container_is_started_exactly_once_before_exec() {
    let (state, actions) = drive(vec![
        RuntimeEvent::Inspected { running: false },
        RuntimeEvent::Started,
        RuntimeEvent::ExecCreated,
        RuntimeEvent::StreamAttached,
        RuntimeEvent::StreamEnd,
    ]);
    assert_eq!(
        actions,
        vec![
            RuntimeAction::Start,
            RuntimeAction::CreateExec,
            RuntimeAction::StartExec,
            RuntimeAction::ReadChunk,
            RuntimeAction::Conclude,
        ]
    );
    let starts = actions.iter().filter(|a| **a == RuntimeAction::Start).count();
    assert_eq!(starts, 1);
    assert_eq!(state, ExportState::Done { dump: Vec::new() });
}

#[test]
fn running_container_is_never_started() {
    let (_, actions) = drive(vec![
        RuntimeEvent::Inspected { running: true },
        RuntimeEvent::ExecCreated,
        RuntimeEvent::StreamAttached,
        RuntimeEvent::StreamEnd,
    ]);
    assert!(actions.iter().all(|a| *a != RuntimeAction::Start));
    assert_eq!(actions[0], RuntimeAction::CreateExec);
}

#[test]
fn dump_is_the_concatenation_of_stdout_chunks_in_order() {
    let (state, _) = drive(vec![
        RuntimeEvent::Inspected { running: true },
        RuntimeEvent::ExecCreated,
        RuntimeEvent::StreamAttached,
        chunk(ChunkSource::StdOut, b"-- dump\n"),
        chunk(ChunkSource::StdOut, b"INSERT ...;\n"),
        RuntimeEvent::StreamEnd,
    ]);
    assert_eq!(state, ExportState::Done { dump: b"-- dump\nINSERT ...;\n".to_vec() });
}

#[test]
fn interleaved_stderr_chunks_never_disturb_the_dump() {
    let (state, actions) = drive(vec![
        RuntimeEvent::Inspected { running: true },
        RuntimeEvent::ExecCreated,
        RuntimeEvent::StreamAttached,
        chunk(ChunkSource::StdErr, b"NOTICE: early"),
        chunk(ChunkSource::StdOut, b"-- dump\n"),
        chunk(ChunkSource::StdErr, b"NOTICE: midway"),
        chunk(ChunkSource::Other, b"ignored"),
        chunk(ChunkSource::StdOut, b"INSERT ...;\n"),
        RuntimeEvent::StreamEnd,
    ]);
    assert_eq!(state, ExportState::Done { dump: b"-- dump\nINSERT ...;\n".to_vec() });
    // every stderr chunk was routed to the diagnostic channel as it arrived
    assert_eq!(actions[3], RuntimeAction::EmitDiagnostic { message: b"NOTICE: early".to_vec() });
    assert_eq!(actions[5], RuntimeAction::EmitDiagnostic { message: b"NOTICE: midway".to_vec() });
}

#[test]
fn stream_error_discards_partial_output() {
    let (state, actions) = drive(vec![
        RuntimeEvent::Inspected { running: true },
        RuntimeEvent::ExecCreated,
        RuntimeEvent::StreamAttached,
        chunk(ChunkSource::StdOut, b"-- partial"),
        RuntimeEvent::RuntimeFailure,
    ]);
    assert_eq!(state, ExportState::Failed);
    assert_eq!(actions.last(), Some(&RuntimeAction::Conclude));
}

#[test]
fn start_failure_ends_the_session() {
    let (state, _) = drive(vec![
        RuntimeEvent::Inspected { running: false },
        RuntimeEvent::RuntimeFailure,
    ]);
    assert_eq!(state, ExportState::Failed);
}

#[test]
fn inspection_failure_ends_the_session() {
    let (state, _) = drive(vec![RuntimeEvent::RuntimeFailure]);
    assert_eq!(state, ExportState::Failed);
}

#[test]
fn detached_execution_yields_an_empty_dump() {
    let (state, _) = drive(vec![
        RuntimeEvent::Inspected { running: true },
        RuntimeEvent::ExecCreated,
        RuntimeEvent::StreamDetached,
    ]);
    assert_eq!(state, ExportState::Done { dump: Vec::new() });
}

#[test]
fn terminal_states_absorb_further_events() {
    let (state, _) = drive(vec![
        RuntimeEvent::Inspected { running: true },
        RuntimeEvent::ExecCreated,
        RuntimeEvent::StreamAttached,
        RuntimeEvent::StreamEnd,
        chunk(ChunkSource::StdOut, b"late"),
    ]);
    assert_eq!(state, ExportState::Done { dump: Vec::new() });
}

#[test]
fn end_to_end_export_of_a_running_instance() {
    // registry = {"acme-postgres-db-1": "cid123"}; the operator picks "acme"
    let containers = vec![ContainerDescriptor {
        id: Some("cid123".to_string()),
        names: vec!["/acme-postgres-db-1".to_string()],
        image: Some("postgres".to_string()),
    }];
    let registry = build_registry(&containers);
    let (name, container_id) = resolve_selection(&registry, "acme").expect("registered");
    assert_eq!(name, "acme-postgres-db-1");
    assert_eq!(container_id, "cid123");

    let (state, actions) = drive(vec![
        RuntimeEvent::Inspected { running: true },
        RuntimeEvent::ExecCreated,
        RuntimeEvent::StreamAttached,
        chunk(ChunkSource::StdOut, b"-- dump\n"),
        chunk(ChunkSource::StdOut, b"INSERT ...;\n"),
        chunk(ChunkSource::StdErr, b"NOTICE: ..."),
        RuntimeEvent::StreamEnd,
    ]);
    assert!(actions.iter().all(|a| *a != RuntimeAction::Start));
    assert_eq!(
        actions[5],
        RuntimeAction::EmitDiagnostic { message: b"NOTICE: ...".to_vec() }
    );
    assert_eq!(state, ExportState::Done { dump: b"-- dump\nINSERT ...;\n".to_vec() });
    assert_eq!(dump_relative_path(&container_id), "ndmig/cid123-export.sql");
}

#[test]
fn end_to_end_empty_registry_rejects_without_any_session() {
    let registry = build_registry(&vec![]);
    assert!(registry.is_empty());
    assert_eq!(registry.keys(), Vec::<String>::new());
    // whatever the operator types, the selection fails and no session begins
    for input in ["acme", "", "1"] {
        assert_eq!(resolve_selection(&registry, input), None);
    }
}
