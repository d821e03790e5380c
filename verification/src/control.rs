//! The control plane's messages, and what the control server decides.
//!
//! The server's decisions are functions of its state and of what the caller
//! tells it: the time, the counters, and the outcome of starting or stopping
//! the backend, which the caller does.

use crate::backend::BackendError;
use crate::config::Config;
use crate::error::EngineError;
use crate::stats::StatsSnapshot;
use crate::text::concat;
use vstd::prelude::*;

verus! {

pub const API_VERSION: &'static str = "1.0.0";

#[derive(Debug)]
pub enum ControlError {
    AlreadyRunning,
    NotRunning,
    BindFailed(String),
    Connection(String),
    InvalidRequest(String),
    /// A JSON failure, by its message.
    InvalidJson(String),
    Engine(EngineError),
    Backend(BackendError),
    /// An I/O failure, by its message.
    Io(String),
    Timeout,
    Unauthorized(String),
    Internal(String),
}

impl ControlError {
    /// The text that `describe` gives.
    pub open spec fn description(&self) -> Seq<char> {
        match self {
            ControlError::AlreadyRunning => "Server already running"@,
            ControlError::NotRunning => "Server not running"@,
            ControlError::BindFailed(text) => "Failed to bind to socket: "@ + text@,
            ControlError::Connection(text) => "Connection error: "@ + text@,
            ControlError::InvalidRequest(text) => "Invalid request: "@ + text@,
            ControlError::InvalidJson(text) => "Invalid JSON: "@ + text@,
            ControlError::Engine(error) => "Engine error: "@ + error.description(),
            ControlError::Backend(error) => "Backend error: "@ + error.description(),
            ControlError::Io(text) => "IO error: "@ + text@,
            ControlError::Timeout => "Request timeout"@,
            ControlError::Unauthorized(text) => "Unauthorized: "@ + text@,
            ControlError::Internal(text) => "Internal error: "@ + text@,
        }
    }

    /// The error as a line of text for people.
    pub fn describe(&self) -> (text: String)
        ensures
            text@ == self.description(),
    {
        match self {
            ControlError::AlreadyRunning => "Server already running".to_owned(),
            ControlError::NotRunning => "Server not running".to_owned(),
            ControlError::BindFailed(text) => concat("Failed to bind to socket: ", text.as_str()),
            ControlError::Connection(text) => concat("Connection error: ", text.as_str()),
            ControlError::InvalidRequest(text) => concat("Invalid request: ", text.as_str()),
            ControlError::InvalidJson(text) => concat("Invalid JSON: ", text.as_str()),
            ControlError::Engine(error) => {
                let inner = error.describe();
                concat("Engine error: ", inner.as_str())
            },
            ControlError::Backend(error) => {
                let inner = error.describe();
                concat("Backend error: ", inner.as_str())
            },
            ControlError::Io(text) => concat("IO error: ", text.as_str()),
            ControlError::Timeout => "Request timeout".to_owned(),
            ControlError::Unauthorized(text) => concat("Unauthorized: ", text.as_str()),
            ControlError::Internal(text) => concat("Internal error: ", text.as_str()),
        }
    }
}

#[derive(Debug)]
pub struct Request {
    pub id: u64,
    pub command: Command,
}

impl Request {
    pub fn new(id: u64, command: Command) -> (request: Self)
        ensures
            request.id == id,
            request.command == command,
    {
        Request { id, command }
    }
}

#[derive(Debug)]
pub enum Command {
    Health,
    Start,
    Stop,
    GetConfig,
    SetConfig(Config),
    Reload(Config),
    GetStats,
    ResetStats,
    GetStatus,
    Ping,
}

#[derive(Debug)]
pub struct Response {
    pub id: u64,
    pub success: bool,
    pub data: ResponseData,
}

impl Response {
    pub fn success(id: u64, data: ResponseData) -> (response: Self)
        ensures
            response.id == id,
            response.success,
            response.data == data,
    {
        Response { id, success: true, data }
    }

    /// Whether this is the failure `message` in answer to request `id`.
    pub open spec fn is_error(&self, id: u64, message: Seq<char>) -> bool {
        &&& self.id == id
        &&& !self.success
        &&& self.data matches ResponseData::Error { message: text }
        &&& text@ == message
    }

    /// Whether this is the bare success in answer to request `id`.
    pub open spec fn is_ok(&self, id: u64) -> bool {
        self.id == id && self.success && self.data is Done
    }

    pub fn error(id: u64, message: String) -> (response: Self)
        ensures
            response.is_error(id, message@),
    {
        Response { id, success: false, data: ResponseData::Error { message } }
    }

    pub fn ok(id: u64) -> (response: Self)
        ensures
            response.is_ok(id),
    {
        Response { id, success: true, data: ResponseData::Done }
    }
}

#[derive(Debug)]
pub enum ResponseData {
    /// The request was done; there is nothing to tell.
    Done,
    Error { message: String },
    Health(HealthInfo),
    Config(Config),
    Stats(StatsSnapshot),
    Status(Status),
    Pong { timestamp: u64 },
    Validation { valid: bool, errors: Vec<String> },
}

#[derive(Debug, Clone)]
pub struct HealthInfo {
    pub running: bool,
    pub version: String,
    pub api_version: String,
    pub uptime_secs: u64,
    pub backend: Option<String>,
    pub system: SystemInfo,
}

#[derive(Debug, Clone)]
pub struct SystemInfo {
    pub os: String,
    pub arch: String,
    pub rust_version: String,
}

#[derive(Debug, Clone)]
pub struct Status {
    pub running: bool,
    pub state: EngineState,
    pub active_flows: u64,
    pub packets_processed: u64,
    pub bytes_processed: u64,
    pub error_count: u64,
    pub last_error: Option<String>,
    pub config_path: Option<String>,
}

#[derive(Debug, Clone, Copy, PartialEq, Eq, Structural)]
pub enum EngineState {
    Stopped,
    Starting,
    Running,
    Stopping,
    Error,
}

#[derive(Debug, Clone)]
pub struct Notification {
    pub kind: NotificationKind,
    pub timestamp: u64,
}

#[derive(Debug, Clone)]
pub enum NotificationKind {
    StateChanged { old: EngineState, new: EngineState },
    ConfigReloaded,
    Error { message: String },
    StatsUpdate(StatsSnapshot),
}

#[derive(Debug, Clone)]
pub struct ServerConfig {
    pub socket_path: String,
    pub max_clients: usize,
    pub timeout_secs: u64,
    pub enable_notifications: bool,
}

impl Default for ServerConfig {
    fn default() -> (config: Self)
        ensures
            config.socket_path@ == "/tmp/turkeydpi.sock"@,
            config.max_clients == 10,
            config.timeout_secs == 30,
            config.enable_notifications,
    {
        ServerConfig {
            socket_path: "/tmp/turkeydpi.sock".to_owned(),
            max_clients: 10,
            timeout_secs: 30,
            enable_notifications: true,
        }
    }
}

/// The client's side of the control plane: where the server listens, and
/// the number of the next request.
#[derive(Debug)]
pub struct ControlClient {
    socket_path: String,
    next_id: u64,
}

impl ControlClient {
    /// Where the server listens.
    pub closed spec fn path(&self) -> Seq<char> {
        self.socket_path@
    }

    /// The number that the next request gets.
    pub closed spec fn upcoming(&self) -> u64 {
        self.next_id
    }

    pub fn new(socket_path: &str) -> (client: Self)
        ensures
            client.path() == socket_path@,
            client.upcoming() == 1,
    {
        ControlClient { socket_path: socket_path.to_owned(), next_id: 1 }
    }

    pub fn socket_path(&self) -> (path: &str)
        ensures
            path@ == self.path(),
    {
        self.socket_path.as_str()
    }

    /// The request that carries `command`: it gets the next number, and the
    /// request after it the number after that.
    pub fn next_request(&mut self, command: Command) -> (request: Request)
        ensures
            request.id == old(self).upcoming(),
            request.command == command,
            final(self).upcoming() == old(self).upcoming().wrapping_add(1),
            final(self).path() == old(self).path(),
    {
        let id = self.next_id;
        self.next_id = self.next_id.wrapping_add(1);
        Request::new(id, command)
    }

    /// Reads the answer to a health request.
    pub fn health_from(response: Response) -> (health: Result<HealthInfo, ControlError>)
        ensures
            match response.data {
                ResponseData::Health(info) => health == Ok::<HealthInfo, ControlError>(info),
                ResponseData::Error { message } => health == Err::<HealthInfo, ControlError>(
                    ControlError::Internal(message),
                ),
                _ => health matches Err(ControlError::InvalidRequest(text)) && text@
                    == "Unexpected response"@,
            },
    {
        match response.data {
            ResponseData::Health(info) => Ok(info),
            ResponseData::Error { message } => Err(ControlError::Internal(message)),
            _ => Err(ControlError::InvalidRequest("Unexpected response".to_owned())),
        }
    }

    /// Reads the answer to a status request.
    pub fn status_from(response: Response) -> (status: Result<Status, ControlError>)
        ensures
            match response.data {
                ResponseData::Status(found) => status == Ok::<Status, ControlError>(found),
                ResponseData::Error { message } => status == Err::<Status, ControlError>(
                    ControlError::Internal(message),
                ),
                _ => status matches Err(ControlError::InvalidRequest(text)) && text@
                    == "Unexpected response"@,
            },
    {
        match response.data {
            ResponseData::Status(found) => Ok(found),
            ResponseData::Error { message } => Err(ControlError::Internal(message)),
            _ => Err(ControlError::InvalidRequest("Unexpected response".to_owned())),
        }
    }

    /// Reads the answer to a request to start or to stop.
    pub fn done_from(response: Response) -> (done: Result<(), ControlError>)
        ensures
            response.success ==> done is Ok,
            !response.success ==> match response.data {
                ResponseData::Error { message } => done == Err::<(), ControlError>(
                    ControlError::Internal(message),
                ),
                _ => done matches Err(ControlError::Internal(text)) && text@ == "Unknown error"@,
            },
    {
        if response.success {
            Ok(())
        } else {
            match response.data {
                ResponseData::Error { message } => Err(ControlError::Internal(message)),
                _ => Err(ControlError::Internal("Unknown error".to_owned())),
            }
        }
    }
}

/// What the control server knows.
pub struct ServerState {
    pub config: Config,
    pub engine_state: EngineState,
    pub backend_type: Option<String>,
    pub last_error: Option<String>,
    pub config_path: Option<String>,
}

/// What the caller of the server's decisions has found out.
pub struct Surroundings {
    /// The version of the program.
    pub version: String,
    /// For how long the server has run, in seconds.
    pub uptime_secs: u64,
    /// The time, in milliseconds since 1970.
    pub timestamp_ms: u64,
    pub system: SystemInfo,
    /// The counters of the running backend, if one runs.
    pub stats: Option<StatsSnapshot>,
}

/// What the caller is to do about a request.
#[derive(Debug)]
pub enum Reaction {
    /// Send this answer.
    Reply(Response),
    /// Start the backend with the configuration held, then call
    /// `backend_started` for the answer to request `id`.
    StartBackend { id: u64 },
    /// Stop the backend, then call `backend_stopped` for the answer to
    /// request `id`.
    StopBackend { id: u64 },
    /// Hand the configuration held to the running backend, if one runs, and
    /// send this answer.
    ReloadBackend(Response),
    /// Reset the counters of the running backend, if one runs, and send this
    /// answer.
    ResetStats(Response),
    /// Send a successful answer to request `id` that carries the
    /// configuration held.
    ReplyWithConfig { id: u64 },
}

fn copy_text(text: &Option<String>) -> (copy: Option<String>)
    ensures
        copy == *text,
{
    match text {
        Some(t) => Some(t.clone()),
        None => None,
    }
}

impl ServerState {
    pub fn new(config: Config) -> (state: Self)
        ensures
            state.config == config,
            state.engine_state == EngineState::Stopped,
            state.backend_type is None,
            state.last_error is None,
            state.config_path is None,
    {
        ServerState {
            config,
            engine_state: EngineState::Stopped,
            backend_type: None,
            last_error: None,
            config_path: None,
        }
    }

    /// The status to report: the state held, and the counters of the backend
    /// or zeros when none runs.
    pub open spec fn status_of(&self, stats: Option<StatsSnapshot>) -> Status {
        Status {
            running: self.engine_state == EngineState::Running,
            state: self.engine_state,
            active_flows: match stats {
                Some(s) => s.active_flows,
                None => 0,
            },
            packets_processed: match stats {
                Some(s) => s.packets_in,
                None => 0,
            },
            bytes_processed: match stats {
                Some(s) => s.bytes_in,
                None => 0,
            },
            error_count: match stats {
                Some(s) => s.transform_errors,
                None => 0,
            },
            last_error: self.last_error,
            config_path: self.config_path,
        }
    }

    pub fn status(&self, stats: &Option<StatsSnapshot>) -> (status: Status)
        ensures
            status == self.status_of(*stats),
    {
        let (active_flows, packets, bytes, errors) = match stats {
            Some(s) => (s.active_flows, s.packets_in, s.bytes_in, s.transform_errors),
            None => (0, 0, 0, 0),
        };
        Status {
            running: self.engine_state == EngineState::Running,
            state: self.engine_state,
            active_flows,
            packets_processed: packets,
            bytes_processed: bytes,
            error_count: errors,
            last_error: copy_text(&self.last_error),
            config_path: copy_text(&self.config_path),
        }
    }

    /// Takes `new_config` over if it is valid, and says what is wrong with it
    /// if it is not. A configuration that is not valid changes nothing.
    pub fn reload(&mut self, new_config: Config) -> (reloaded: Result<(), EngineError>)
        ensures
            match new_config.fault() {
                Some((field, message)) => reloaded matches Err(error) && error.is_validation(
                    field,
                    message,
                ) && *final(self) == *old(self),
                None => reloaded is Ok && *final(self) == (ServerState {
                    config: new_config,
                    ..*old(self)
                }),
            },
    {
        match new_config.validate() {
            Err(error) => Err(error),
            Ok(()) => {
                self.config = new_config;
                Ok(())
            },
        }
    }

    /// Decides what to do about `request`.
    ///
    /// - `Start` is refused while the engine runs; otherwise the engine is
    ///   starting and the backend is to be started.
    /// - `Stop` is refused unless the engine runs; otherwise the engine is
    ///   stopping and the backend is to be stopped.
    /// - `Reload` takes a valid configuration over and hands it on; one that
    ///   is not valid is refused and changes nothing.
    /// - `SetConfig` only tells whether the configuration is valid.
    /// - Every other command is answered from what is known.
    pub fn handle_request(&mut self, request: Request, around: Surroundings) -> (reaction: Reaction)
        ensures
            match request.command {
                Command::Start => if old(self).engine_state == EngineState::Running {
                    &&& *final(self) == *old(self)
                    &&& reaction matches Reaction::Reply(response)
                    &&& response.is_error(request.id, "Engine already running"@)
                } else {
                    &&& *final(self) == (ServerState {
                        engine_state: EngineState::Starting,
                        ..*old(self)
                    })
                    &&& reaction matches Reaction::StartBackend { id }
                    &&& id == request.id
                },
                Command::Stop => if old(self).engine_state != EngineState::Running {
                    &&& *final(self) == *old(self)
                    &&& reaction matches Reaction::Reply(response)
                    &&& response.is_error(request.id, "Engine not running"@)
                } else {
                    &&& *final(self) == (ServerState {
                        engine_state: EngineState::Stopping,
                        ..*old(self)
                    })
                    &&& reaction matches Reaction::StopBackend { id }
                    &&& id == request.id
                },
                Command::Reload(new_config) => match new_config.fault() {
                    Some((field, message)) => {
                        &&& *final(self) == *old(self)
                        &&& reaction matches Reaction::Reply(response)
                        &&& response.is_error(
                            request.id,
                            "Configuration validation failed: "@ + message,
                        )
                    },
                    None => {
                        &&& *final(self) == (ServerState { config: new_config, ..*old(self) })
                        &&& reaction matches Reaction::ReloadBackend(response)
                        &&& response.is_ok(request.id)
                    },
                },
                Command::SetConfig(new_config) => {
                    &&& *final(self) == *old(self)
                    &&& reaction matches Reaction::Reply(response)
                    &&& response.id == request.id
                    &&& response.success
                    &&& response.data matches ResponseData::Validation { valid, errors }
                    &&& valid == new_config.valid()
                    &&& match new_config.fault() {
                        Some((field, message)) => errors@.len() == 1 && errors@[0]@
                            == "Configuration validation failed: "@ + message,
                        None => errors@.len() == 0,
                    }
                },
                Command::Health => {
                    &&& *final(self) == *old(self)
                    &&& reaction matches Reaction::Reply(response)
                    &&& response.id == request.id
                    &&& response.success
                    &&& response.data matches ResponseData::Health(health)
                    &&& health.running == (old(self).engine_state == EngineState::Running)
                    &&& health.version == around.version
                    &&& health.api_version@ == API_VERSION@
                    &&& health.uptime_secs == around.uptime_secs
                    &&& health.backend == old(self).backend_type
                    &&& health.system == around.system
                },
                Command::GetConfig => {
                    &&& *final(self) == *old(self)
                    &&& reaction matches Reaction::ReplyWithConfig { id }
                    &&& id == request.id
                },
                Command::GetStats => {
                    &&& *final(self) == *old(self)
                    &&& reaction matches Reaction::Reply(response)
                    &&& response.id == request.id
                    &&& response.success
                    &&& response.data == ResponseData::Stats(
                        match around.stats {
                            Some(stats) => stats,
                            None => crate::stats::Stats::zero()@,
                        },
                    )
                },
                Command::ResetStats => {
                    &&& *final(self) == *old(self)
                    &&& reaction matches Reaction::ResetStats(response)
                    &&& response.is_ok(request.id)
                },
                Command::GetStatus => {
                    &&& *final(self) == *old(self)
                    &&& reaction matches Reaction::Reply(response)
                    &&& response.id == request.id
                    &&& response.success
                    &&& response.data == ResponseData::Status(old(self).status_of(around.stats))
                },
                Command::Ping => {
                    &&& *final(self) == *old(self)
                    &&& reaction matches Reaction::Reply(response)
                    &&& response.id == request.id
                    &&& response.success
                    &&& response.data == (ResponseData::Pong { timestamp: around.timestamp_ms })
                },
            },
    {
        let id = request.id;
        match request.command {
            Command::Health => {
                let health = HealthInfo {
                    running: self.engine_state == EngineState::Running,
                    version: around.version,
                    api_version: API_VERSION.to_owned(),
                    uptime_secs: around.uptime_secs,
                    backend: copy_text(&self.backend_type),
                    system: around.system,
                };
                Reaction::Reply(Response::success(id, ResponseData::Health(health)))
            },
            Command::Start => {
                if self.engine_state == EngineState::Running {
                    return Reaction::Reply(Response::error(id, "Engine already running".to_owned()));
                }
                self.engine_state = EngineState::Starting;
                Reaction::StartBackend { id }
            },
            Command::Stop => {
                if self.engine_state != EngineState::Running {
                    return Reaction::Reply(Response::error(id, "Engine not running".to_owned()));
                }
                self.engine_state = EngineState::Stopping;
                Reaction::StopBackend { id }
            },
            Command::GetConfig => Reaction::ReplyWithConfig { id },
            Command::SetConfig(new_config) => {
                let mut errors: Vec<String> = Vec::new();
                let valid = match new_config.validate() {
                    Ok(()) => true,
                    Err(error) => {
                        errors.push(error.describe());
                        false
                    },
                };
                Reaction::Reply(Response::success(id, ResponseData::Validation { valid, errors }))
            },
            Command::Reload(new_config) => match self.reload(new_config) {
                Err(error) => Reaction::Reply(Response::error(id, error.describe())),
                Ok(()) => Reaction::ReloadBackend(Response::ok(id)),
            },
            Command::GetStats => {
                let stats = match around.stats {
                    Some(stats) => stats,
                    None => crate::stats::Stats::new().snapshot(),
                };
                Reaction::Reply(Response::success(id, ResponseData::Stats(stats)))
            },
            Command::ResetStats => Reaction::ResetStats(Response::ok(id)),
            Command::GetStatus => {
                let status = self.status(&around.stats);
                Reaction::Reply(Response::success(id, ResponseData::Status(status)))
            },
            Command::Ping => Reaction::Reply(
                Response::success(id, ResponseData::Pong { timestamp: around.timestamp_ms }),
            ),
        }
    }

    /// Takes note of how starting the backend went, and gives the answer to
    /// request `id`: the engine runs on the proxy backend, or it is in error
    /// with the failure's message.
    pub fn backend_started(&mut self, id: u64, outcome: Result<(), String>) -> (response: Response)
        ensures
            match outcome {
                Ok(()) => {
                    &&& response.is_ok(id)
                    &&& final(self).engine_state == EngineState::Running
                    &&& final(self).last_error is None
                    &&& final(self).backend_type matches Some(name)
                    &&& name@ == "proxy"@
                },
                Err(message) => {
                    &&& response.is_error(id, message@)
                    &&& final(self).engine_state == EngineState::Error
                    &&& final(self).last_error == Some(message)
                    &&& final(self).backend_type == old(self).backend_type
                },
            },
            final(self).config == old(self).config,
            final(self).config_path == old(self).config_path,
    {
        match outcome {
            Ok(()) => {
                self.backend_type = Some("proxy".to_owned());
                self.engine_state = EngineState::Running;
                self.last_error = None;
                Response::ok(id)
            },
            Err(message) => {
                self.engine_state = EngineState::Error;
                self.last_error = Some(message.clone());
                Response::error(id, message)
            },
        }
    }

    /// Takes note that the backend has stopped, and gives the answer to
    /// request `id`.
    pub fn backend_stopped(&mut self, id: u64) -> (response: Response)
        ensures
            response.is_ok(id),
            *final(self) == (ServerState {
                engine_state: EngineState::Stopped,
                backend_type: None,
                ..*old(self)
            }),
    {
        self.backend_type = None;
        self.engine_state = EngineState::Stopped;
        Response::ok(id)
    }
}

} // verus!
