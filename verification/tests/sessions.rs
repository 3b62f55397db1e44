use media_server::config::{select_backend, BackendChoice, SessionError, TranscriptionBackendConfig, TranscriptionConfig};
use media_server::sessions::{SessionTable, StartPlan};

fn servers(n: usize) -> Vec<String> {
    (0..n).map(|i| format!("10.0.0.{}:43007", i)).collect()
}

#[test]
fn config_constructors() {
    let c = TranscriptionConfig::new("localhost:43007");
    match &c.backend {
        TranscriptionBackendConfig::SimulStreaming { addresses } => assert_eq!(addresses, &vec!["localhost:43007".to_string()]),
        _ => panic!("expected SimulStreaming"),
    }
    assert_eq!(c.connect_timeout_ms, 10000);
    assert!(c.auto_reconnect);
    assert_eq!(c.max_reconnect_attempts, 3);
    assert!(matches!(TranscriptionConfig::none().backend, TranscriptionBackendConfig::NoBackend));
    assert!(matches!(TranscriptionConfig::default().backend, TranscriptionBackendConfig::NoBackend));
    let o = TranscriptionConfig::with_openai("k".to_string(), None, Some("m".to_string()));
    match o.backend {
        TranscriptionBackendConfig::OpenAi { api_key, base_url, model } => {
            assert_eq!(api_key, "k");
            assert_eq!(base_url, None);
            assert_eq!(model, Some("m".to_string()));
        }
        _ => panic!("expected OpenAi"),
    }
}

#[test]
fn backend_selection() {
    assert_eq!(select_backend(&TranscriptionConfig::none(), 0).unwrap_err(), SessionError::NoBackendConfigured);
    assert_eq!(
        select_backend(&TranscriptionConfig::with_servers(vec![]), 3).unwrap_err(),
        SessionError::NoSimulStreamingAddresses
    );
    match select_backend(&TranscriptionConfig::with_servers(servers(3)), 4).unwrap() {
        BackendChoice::SimulStreaming { address } => assert_eq!(address, "10.0.0.1:43007"),
        _ => panic!("expected SimulStreaming"),
    }
    assert_eq!(SessionError::NoBackendConfigured.message(), "No transcription backend configured for this session");
    assert_eq!(SessionError::NoSimulStreamingAddresses.message(), "No SimulStreaming addresses configured");
}

fn open_index(plan: StartPlan) -> usize {
    match plan {
        StartPlan::Open { server_index, .. } => server_index,
        StartPlan::AlreadyRunning => panic!("expected Open"),
    }
}

#[test]
fn sessions_round_robin_and_lifecycle() {
    let mut t: SessionTable<u32> = SessionTable::new(TranscriptionConfig::with_servers(servers(2)));
    assert_eq!(t.active_session_count(), 0);
    assert_eq!(open_index(t.plan_start(1, 1, None)), 0);
    t.insert_session(1, 1, 10);
    // Asking again for a running session changes nothing.
    assert!(matches!(t.plan_start(1, 1, None), StartPlan::AlreadyRunning));
    assert_eq!(open_index(t.plan_start(2, 1, None)), 1);
    t.insert_session(2, 1, 20);
    // A failed open still moves the round robin on.
    assert_eq!(open_index(t.plan_start(3, 1, None)), 0);
    assert_eq!(open_index(t.plan_start(3, 1, None)), 1);
    assert_eq!(t.active_session_count(), 2);
    assert!(t.has_session(1, 1) && t.has_session(2, 1) && !t.has_session(3, 1));
    assert_eq!(t.session(2, 1), Some(&20));
    let mut keys = t.session_keys();
    keys.sort();
    assert_eq!(keys, vec![(1, 1), (2, 1)]);
    assert_eq!(t.stop_session(1, 1), Some(10));
    assert_eq!(t.stop_session(1, 1), None);
    assert!(!t.has_session(1, 1));
    assert_eq!(t.active_session_count(), 1);
}

#[test]
fn override_config_picks_backend() {
    let mut t: SessionTable<()> = SessionTable::new(TranscriptionConfig::none());
    match t.plan_start(1, 2, None) {
        StartPlan::Open { server_index, backend } => {
            assert_eq!(server_index, 0);
            assert_eq!(backend.unwrap_err(), SessionError::NoBackendConfigured);
        }
        _ => panic!("expected Open"),
    }
    match t.plan_start(1, 2, Some(TranscriptionConfig::with_openai("key".to_string(), None, None))) {
        StartPlan::Open { backend: Ok(BackendChoice::OpenAi { api_key, .. }), server_index } => {
            assert_eq!(api_key, "key");
            // No SimulStreaming servers in the default config: the index stays.
            assert_eq!(server_index, 0);
        }
        _ => panic!("expected an OpenAI backend"),
    }
}
