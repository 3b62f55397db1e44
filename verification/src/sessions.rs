//! Bookkeeping of transcription sessions: which (session, endpoint) pairs
//! have a session, and which server the next session goes to.
//!
//! Opening a session connects to a backend, which the caller does: this table
//! decides whether to open one and with which backend, and stores the result.
use crate::config::{select_backend, BackendChoice, SessionError, TranscriptionBackendConfig, TranscriptionConfig};
use crate::table::KeyedTable;
use vstd::prelude::*;

verus! {

/// Number of SimulStreaming servers sessions are spread over (zero for the
/// other backends).
pub open spec fn server_count(config: TranscriptionConfig) -> nat {
    match config.backend {
        TranscriptionBackendConfig::SimulStreaming { addresses } => addresses@.len(),
        _ => 0,
    }
}

/// The round-robin index after one session is opened.
pub open spec fn next_server_index(index: int, servers: nat) -> int {
    if servers > 0 {
        (index + 1) % (servers as int)
    } else {
        index
    }
}

/// The round-robin index after `k` sessions are opened.
pub open spec fn server_index_after(index: int, servers: nat, k: nat) -> int
    decreases k,
{
    if k == 0 {
        index
    } else {
        next_server_index(server_index_after(index, servers, (k - 1) as nat), servers)
    }
}

/// The decision taken when a session is asked for.
#[derive(Debug)]
pub enum StartPlan {
    /// The pair already has a session; nothing is to be done.
    AlreadyRunning,
    /// Open a session with this backend; `server_index` is the round-robin
    /// position the backend was chosen with.
    Open { server_index: usize, backend: Result<BackendChoice, SessionError> },
}

/// Sessions keyed by (session id, endpoint id), with the default
/// configuration and the round-robin position of the next session.
pub struct SessionTable<V> {
    config: TranscriptionConfig,
    sessions: KeyedTable<V>,
    next_server_index: usize,
}

impl<V> SessionTable<V> {
    #[verifier::type_invariant]
    spec fn index_in_range(&self) -> bool {
        server_count(self.config) > 0 ==> self.next_server_index < server_count(self.config)
    }

    /// The default configuration.
    pub closed spec fn default_config(&self) -> TranscriptionConfig {
        self.config
    }

    /// The sessions, by key.
    pub closed spec fn session_map(&self) -> Map<(u64, u64), V> {
        self.sessions.view_map()
    }

    /// The round-robin position the next session gets.
    pub closed spec fn next_index(&self) -> usize {
        self.next_server_index
    }

    /// A table holds finitely many sessions.
    pub proof fn lemma_finite(&self)
        ensures
            self.session_map().dom().finite(),
    {
        self.sessions.lemma_finite();
    }

    /// A table with no sessions, starting at the first server.
    pub fn new(config: TranscriptionConfig) -> (r: Self)
        ensures
            r.default_config() == config,
            r.session_map() == Map::<(u64, u64), V>::empty(),
            r.next_index() == 0,
    {
        SessionTable { config, sessions: KeyedTable::new(), next_server_index: 0 }
    }

    /// The default configuration.
    pub fn config(&self) -> (r: &TranscriptionConfig)
        ensures
            *r == self.default_config(),
    {
        &self.config
    }

    /// Decide what asking for a session for (`session_id`, `endpoint_id`)
    /// does. A pair that has a session is left alone. Otherwise the session
    /// takes the current round-robin position, which then moves on to the
    /// next server of the default configuration, and its backend is chosen
    /// from `config_override` if given, else from the default configuration.
    pub fn plan_start(
        &mut self,
        session_id: u64,
        endpoint_id: u64,
        config_override: Option<TranscriptionConfig>,
    ) -> (r: StartPlan)
        ensures
            final(self).default_config() == old(self).default_config(),
            final(self).session_map() == old(self).session_map(),
            server_count(final(self).default_config()) > 0 ==> final(self).next_index()
                < server_count(final(self).default_config()),
            old(self).session_map().contains_key((session_id, endpoint_id)) ==> {
                &&& r is AlreadyRunning
                &&& final(self).next_index() == old(self).next_index()
            },
            !old(self).session_map().contains_key((session_id, endpoint_id)) ==> {
                &&& r matches StartPlan::Open { server_index, backend } && server_index
                    == old(self).next_index() && backend_spec(
                    match config_override {
                        Some(c) => c,
                        None => old(self).default_config(),
                    },
                    server_index,
                    backend,
                )
                &&& final(self).next_index() == next_server_index(
                    old(self).next_index() as int,
                    server_count(old(self).default_config()),
                )
            },
    {
        proof {
            use_type_invariant(&*self);
        }
        if self.sessions.contains((session_id, endpoint_id)) {
            return StartPlan::AlreadyRunning;
        }
        let current = self.next_server_index;
        let n = match &self.config.backend {
            TranscriptionBackendConfig::SimulStreaming { addresses } => addresses.len(),
            _ => 0,
        };
        if n > 0 {
            self.next_server_index = (current + 1) % n;
        }
        let backend = match &config_override {
            Some(c) => select_backend(c, current),
            None => select_backend(&self.config, current),
        };
        StartPlan::Open { server_index: current, backend }
    }

    /// Store the session opened for (`session_id`, `endpoint_id`).
    pub fn insert_session(&mut self, session_id: u64, endpoint_id: u64, session: V)
        ensures
            final(self).default_config() == old(self).default_config(),
            final(self).next_index() == old(self).next_index(),
            final(self).session_map() == old(self).session_map().insert(
                (session_id, endpoint_id),
                session,
            ),
            final(self).session_map().len() == old(self).session_map().len() + if old(
                self,
            ).session_map().contains_key((session_id, endpoint_id)) {
                0int
            } else {
                1int
            },
    {
        proof {
            use_type_invariant(&*self);
        }
        let mut sessions: KeyedTable<V> = KeyedTable::new();
        std::mem::swap(&mut sessions, &mut self.sessions);
        proof {
            sessions.lemma_finite();
        }
        sessions.insert((session_id, endpoint_id), session);
        self.sessions = sessions;
    }

    /// Stop the session of (`session_id`, `endpoint_id`), handing it back.
    pub fn stop_session(&mut self, session_id: u64, endpoint_id: u64) -> (r: Option<V>)
        ensures
            final(self).default_config() == old(self).default_config(),
            final(self).next_index() == old(self).next_index(),
            final(self).session_map() == old(self).session_map().remove(
                (session_id, endpoint_id),
            ),
            final(self).session_map().len() == old(self).session_map().len() - if old(
                self,
            ).session_map().contains_key((session_id, endpoint_id)) {
                1int
            } else {
                0int
            },
            match r {
                Some(v) => old(self).session_map().contains_key((session_id, endpoint_id)) && v
                    == old(self).session_map()[(session_id, endpoint_id)],
                None => !old(self).session_map().contains_key((session_id, endpoint_id)),
            },
    {
        proof {
            use_type_invariant(&*self);
        }
        let mut sessions: KeyedTable<V> = KeyedTable::new();
        std::mem::swap(&mut sessions, &mut self.sessions);
        proof {
            sessions.lemma_finite();
        }
        let removed = sessions.remove((session_id, endpoint_id));
        self.sessions = sessions;
        removed
    }

    /// The session of (`session_id`, `endpoint_id`).
    pub fn session(&self, session_id: u64, endpoint_id: u64) -> (r: Option<&V>)
        ensures
            match r {
                Some(v) => self.session_map().contains_key((session_id, endpoint_id)) && *v
                    == self.session_map()[(session_id, endpoint_id)],
                None => !self.session_map().contains_key((session_id, endpoint_id)),
            },
    {
        self.sessions.get((session_id, endpoint_id))
    }

    /// The pairs that have a session, each once.
    pub fn session_keys(&self) -> (r: Vec<(u64, u64)>)
        ensures
            r@.no_duplicates(),
            r@.to_set() == self.session_map().dom(),
    {
        self.sessions.keys()
    }

    /// Get the number of active sessions.
    pub fn active_session_count(&self) -> (r: usize)
        ensures
            r == self.session_map().len(),
    {
        self.sessions.len()
    }

    /// Check if a session exists.
    pub fn has_session(&self, session_id: u64, endpoint_id: u64) -> (r: bool)
        ensures
            r == self.session_map().contains_key((session_id, endpoint_id)),
    {
        self.sessions.contains((session_id, endpoint_id))
    }
}

/// `backend` is what `select_backend` gives for `config` at `server_index`.
pub open spec fn backend_spec(
    config: TranscriptionConfig,
    server_index: usize,
    backend: Result<BackendChoice, SessionError>,
) -> bool {
    match config.backend {
        TranscriptionBackendConfig::NoBackend => backend == Err::<BackendChoice, SessionError>(
            SessionError::NoBackendConfigured,
        ),
        TranscriptionBackendConfig::SimulStreaming { addresses } => if addresses@.len() == 0 {
            backend == Err::<BackendChoice, SessionError>(SessionError::NoSimulStreamingAddresses)
        } else {
            backend matches Ok(BackendChoice::SimulStreaming { address }) && address
                == addresses@[server_index as int % addresses@.len() as int]
        },
        TranscriptionBackendConfig::OpenAi { api_key, base_url, model } => backend == Ok::<
            BackendChoice,
            SessionError,
        >(BackendChoice::OpenAi { api_key, base_url, model }),
    }
}

/// Round robin: starting at position `index` of `servers` servers, the
/// position after `k` sessions are opened is `(index + k) % servers`; so
/// sessions opened one after another are spread over every server in turn.
pub proof fn lemma_round_robin(index: nat, servers: nat, k: nat)
    requires
        servers > 0,
        index < servers,
    ensures
        server_index_after(index as int, servers, k) == (index as int + k as int) % (
        servers as int),
    decreases k,
{
    let s = servers as int;
    if k == 0 {
        vstd::arithmetic::div_mod::lemma_small_mod(index, servers);
    } else {
        lemma_round_robin(index, servers, (k - 1) as nat);
        let x = index as int + k as int - 1;
        vstd::arithmetic::div_mod::lemma_add_mod_noop(x, 1, s);
        if s > 1 {
            vstd::arithmetic::div_mod::lemma_small_mod(1, servers);
        }
        assert((x % s + 1) % s == (x + 1) % s);
    }
}

} // verus!
