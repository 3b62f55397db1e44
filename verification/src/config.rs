//! Transcription configuration, and the choice of backend for a session.
use vstd::prelude::*;

verus! {

/// Which transcription backend sessions use.
#[derive(Debug, Clone)]
pub enum TranscriptionBackendConfig {
    /// No backend: sessions cannot be opened.
    NoBackend,
    SimulStreaming { addresses: Vec<String> },
    OpenAi { api_key: String, base_url: Option<String>, model: Option<String> },
}

impl Default for TranscriptionBackendConfig {
    fn default() -> (r: Self)
        ensures
            r is NoBackend,
    {
        TranscriptionBackendConfig::NoBackend
    }
}

/// Configuration for the transcription manager.
#[derive(Debug, Clone)]
pub struct TranscriptionConfig {
    pub backend: TranscriptionBackendConfig,
    /// Connection timeout, in milliseconds
    pub connect_timeout_ms: u64,
    /// Whether to automatically reconnect on failure
    pub auto_reconnect: bool,
    /// Maximum reconnect attempts
    pub max_reconnect_attempts: u32,
}

/// The settings every constructor shares: a ten-second connect timeout, and
/// up to three automatic reconnects.
pub open spec fn has_default_settings(c: TranscriptionConfig) -> bool {
    &&& c.connect_timeout_ms == 10000
    &&& c.auto_reconnect
    &&& c.max_reconnect_attempts == 3
}

impl Default for TranscriptionConfig {
    fn default() -> (r: Self)
        ensures
            r.backend is NoBackend,
            has_default_settings(r),
    {
        TranscriptionConfig {
            backend: TranscriptionBackendConfig::NoBackend,
            connect_timeout_ms: 10000,
            auto_reconnect: true,
            max_reconnect_attempts: 3,
        }
    }
}

impl TranscriptionConfig {
    /// Create a new config with a single SimulStreaming server address.
    pub fn new(server_addr: &str) -> (r: Self)
        ensures
            r.backend matches TranscriptionBackendConfig::SimulStreaming { addresses }
                && addresses@.len() == 1 && addresses@[0]@ == server_addr@,
            has_default_settings(r),
    {
        let mut addresses: Vec<String> = Vec::new();
        addresses.push(server_addr.to_owned());
        TranscriptionConfig {
            backend: TranscriptionBackendConfig::SimulStreaming { addresses },
            ..Default::default()
        }
    }

    /// Create a new config with multiple server addresses for load balancing.
    pub fn with_servers(server_addresses: Vec<String>) -> (r: Self)
        ensures
            r.backend == (TranscriptionBackendConfig::SimulStreaming {
                addresses: server_addresses,
            }),
            has_default_settings(r),
    {
        TranscriptionConfig {
            backend: TranscriptionBackendConfig::SimulStreaming { addresses: server_addresses },
            ..Default::default()
        }
    }

    /// Create a new config for an OpenAI-style HTTP backend.
    pub fn with_openai(api_key: String, base_url: Option<String>, model: Option<String>) -> (r:
        Self)
        ensures
            r.backend == (TranscriptionBackendConfig::OpenAi { api_key, base_url, model }),
            has_default_settings(r),
    {
        TranscriptionConfig {
            backend: TranscriptionBackendConfig::OpenAi { api_key, base_url, model },
            ..Default::default()
        }
    }

    /// Create a new config with no backend.
    pub fn none() -> (r: Self)
        ensures
            r.backend is NoBackend,
            has_default_settings(r),
    {
        TranscriptionConfig { backend: TranscriptionBackendConfig::NoBackend, ..Default::default() }
    }
}

/// The backend a session connects to.
#[derive(Debug)]
pub enum BackendChoice {
    /// A SimulStreaming server at this address.
    SimulStreaming { address: String },
    /// An OpenAI-style HTTP API.
    OpenAi { api_key: String, base_url: Option<String>, model: Option<String> },
}

/// Why a session cannot be opened.
#[derive(Debug, PartialEq, Eq, Structural)]
pub enum SessionError {
    /// The configuration names no backend.
    NoBackendConfigured,
    /// The SimulStreaming backend has no server address.
    NoSimulStreamingAddresses,
}

impl SessionError {
    /// The error's message.
    pub fn message(&self) -> (r: &'static str)
        ensures
            r@ == match self {
                SessionError::NoBackendConfigured => "No transcription backend configured for this session"@,
                SessionError::NoSimulStreamingAddresses => "No SimulStreaming addresses configured"@,
            },
    {
        match self {
            SessionError::NoBackendConfigured => "No transcription backend configured for this session",
            SessionError::NoSimulStreamingAddresses => "No SimulStreaming addresses configured",
        }
    }
}

fn clone_string_option(o: &Option<String>) -> (r: Option<String>)
    ensures
        r == *o,
{
    match o {
        Some(s) => Some(s.clone()),
        None => None,
    }
}

/// The backend a session uses under `config`: none configured is an error;
/// for SimulStreaming, server `server_index` counted round the address list
/// (an empty list is an error); for the HTTP API, its settings.
pub fn select_backend(config: &TranscriptionConfig, server_index: usize) -> (r: Result<
    BackendChoice,
    SessionError,
>)
    ensures
        match config.backend {
            TranscriptionBackendConfig::NoBackend => r == Err::<BackendChoice, SessionError>(
                SessionError::NoBackendConfigured,
            ),
            TranscriptionBackendConfig::SimulStreaming { addresses } => if addresses@.len() == 0 {
                r == Err::<BackendChoice, SessionError>(SessionError::NoSimulStreamingAddresses)
            } else {
                r matches Ok(BackendChoice::SimulStreaming { address }) && address
                    == addresses@[server_index as int % addresses@.len() as int]
            },
            TranscriptionBackendConfig::OpenAi { api_key, base_url, model } => r == Ok::<
                BackendChoice,
                SessionError,
            >(BackendChoice::OpenAi { api_key, base_url, model }),
        },
{
    match &config.backend {
        TranscriptionBackendConfig::NoBackend => Err(SessionError::NoBackendConfigured),
        TranscriptionBackendConfig::SimulStreaming { addresses } => {
            if addresses.len() == 0 {
                return Err(SessionError::NoSimulStreamingAddresses);
            }
            let address = addresses[server_index % addresses.len()].clone();
            Ok(BackendChoice::SimulStreaming { address })
        },
        TranscriptionBackendConfig::OpenAi { api_key, base_url, model } => {
            Ok(
                BackendChoice::OpenAi {
                    api_key: api_key.clone(),
                    base_url: clone_string_option(base_url),
                    model: clone_string_option(model),
                },
            )
        },
    }
}

} // verus!
