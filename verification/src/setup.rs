//! What is settled before any traffic flows: the mode of the run, the
//! addresses, the size of each endpoint pool and where the server's identity
//! comes from. Every fault found here ends the run before a socket is bound.
use vstd::prelude::*;

verus! {

/// The seconds the client waits after the server has started, in a run that
/// has both.
pub const WARM_UP_SECS: u64 = 1;

/// The loopback address 127.0.0.1 as 32 bits.
pub const LOOPBACK_V4: u32 = 0x7F00_0001;

/// An IP address, as its bits in network order.
#[derive(Clone, Copy, Debug, PartialEq, Eq, Structural)]
pub enum Host {
    V4(u32),
    V6(u128),
}

/// An address and a port.
#[derive(Clone, Copy, Debug, PartialEq, Eq, Structural)]
pub struct SocketAddress {
    pub host: Host,
    pub port: u16,
}

/// Why a run cannot start.
#[derive(Clone, Copy, Debug, PartialEq, Eq, Structural)]
pub enum ConfigError {
    /// The server address is not an address and a port.
    MalformedAddress,
    /// A server was asked for with no endpoint at all.
    NoEndpoints,
    /// The ports asked for reach past the last port there is.
    PortRangeExhausted,
    /// Fewer sockets could be bound than endpoints were asked for.
    InsufficientSockets,
    /// The certificate or the key could not be read.
    UnreadableCredentials,
}

/// Which roles a run has.
#[derive(Clone, Copy, Debug, PartialEq, Eq, Structural)]
pub enum Mode {
    ServerOnly,
    ClientOnly,
    Combined,
}

/// Where the server's identity comes from.
#[derive(Clone, Copy, Debug, PartialEq, Eq, Structural)]
pub enum IdentitySource {
    /// The certificate and key files that were named.
    Files,
    /// A self-signed identity made at startup.
    SelfSigned,
}

/// One stage of a run.
#[derive(Clone, Copy, Debug, PartialEq, Eq, Structural)]
pub enum Phase {
    /// Bind the server's endpoints and start their accept loops.
    StartServer,
    /// Wait for the server to be ready.
    WarmUp,
    /// Connect the client and start its drivers.
    RunClient,
    /// Wait until every client endpoint has no outstanding work.
    DrainClient,
    /// Wait for the server's accept loops to end.
    JoinServer,
}

/// The configuration of a run, as given on the command line. The address is
/// `None` where the text given for it is not an address and a port.
#[derive(Clone, Copy, Debug, PartialEq, Eq)]
pub struct Options {
    pub server_only: bool,
    pub client_only: bool,
    pub server_address: Option<SocketAddress>,
    pub connections: usize,
    pub packets: usize,
    pub endpoints: usize,
    pub has_cert: bool,
    pub has_key: bool,
}

/// What the server side of a run is to do.
#[derive(Clone, Copy, Debug, PartialEq, Eq)]
pub struct ServerPlan {
    /// The address the endpoints bind to.
    pub bind: SocketAddress,
    /// The first port of the range the endpoints bind in.
    pub first_port: u16,
    /// The port after the last one of that range.
    pub end_port: u16,
    /// The number of endpoints.
    pub endpoints: usize,
    /// Where the identity comes from.
    pub identity: IdentitySource,
}

/// What the client side of a run is to do.
#[derive(Clone, Copy, Debug, PartialEq, Eq)]
pub struct ClientPlan {
    /// The server to connect to; `None` where the server is part of this run
    /// and its address is known only once it is bound.
    pub target: Option<SocketAddress>,
    /// The number of connections, each on an endpoint of its own.
    pub connections: usize,
    /// The number of packets each connection sends.
    pub packets: usize,
}

/// A run that may start.
#[derive(Clone, Copy, Debug, PartialEq, Eq)]
pub struct RunPlan {
    pub mode: Mode,
    pub server: Option<ServerPlan>,
    pub client: Option<ClientPlan>,
}

/// The mode that the two switches select: one role where exactly that one is
/// asked for, both otherwise.
pub open spec fn mode_of(server_only: bool, client_only: bool) -> Mode {
    if server_only && !client_only {
        Mode::ServerOnly
    } else if client_only && !server_only {
        Mode::ClientOnly
    } else {
        Mode::Combined
    }
}

/// Whether a run in this mode has a server.
pub open spec fn runs_server(mode: Mode) -> bool {
    mode != Mode::ClientOnly
}

/// Whether a run in this mode has a client.
pub open spec fn runs_client(mode: Mode) -> bool {
    mode != Mode::ServerOnly
}

/// Whether the address is the one that stands for "any interface".
pub open spec fn is_unspecified(host: Host) -> bool {
    match host {
        Host::V4(bits) => bits == 0,
        Host::V6(bits) => bits == 0,
    }
}

/// The address "any interface" with port zero, which lets the system choose.
pub open spec fn any_address() -> SocketAddress {
    SocketAddress { host: Host::V4(0), port: 0 }
}

/// The address a client connects to for a given server address: the address
/// itself, or the loopback address with the same port where the server
/// listens on any interface.
pub open spec fn target_of(server: SocketAddress) -> SocketAddress {
    if is_unspecified(server.host) {
        SocketAddress { host: Host::V4(LOOPBACK_V4), port: server.port }
    } else {
        server
    }
}

/// The ports for `count` endpoints from `base` on: `base` and the port after
/// the last, or the reason there is no such range.
pub open spec fn port_range_of(base: u16, count: usize) -> Result<(u16, u16), ConfigError> {
    if count == 0 {
        Err(ConfigError::NoEndpoints)
    } else if base + count > u16::MAX {
        Err(ConfigError::PortRangeExhausted)
    } else {
        Ok((base, (base + count) as u16))
    }
}

/// Where the identity comes from: the files where both are named, a
/// self-signed one otherwise.
pub open spec fn identity_of(has_key: bool, has_cert: bool) -> IdentitySource {
    if has_key && has_cert {
        IdentitySource::Files
    } else {
        IdentitySource::SelfSigned
    }
}

/// The server side of the run that `options` describe, given the address that
/// was parsed.
pub open spec fn server_plan_of(options: Options, address: SocketAddress) -> Result<
    ServerPlan,
    ConfigError,
> {
    let mode = mode_of(options.server_only, options.client_only);
    let bind = if mode == Mode::ServerOnly {
        address
    } else {
        any_address()
    };
    match port_range_of(bind.port, options.endpoints) {
        Err(e) => Err(e),
        Ok(ports) => Ok(
            ServerPlan {
                bind,
                first_port: ports.0,
                end_port: ports.1,
                endpoints: options.endpoints,
                identity: identity_of(options.has_key, options.has_cert),
            },
        ),
    }
}

/// The client side of the run that `options` describe, given the address that
/// was parsed.
pub open spec fn client_plan_of(options: Options, address: SocketAddress) -> ClientPlan {
    let mode = mode_of(options.server_only, options.client_only);
    ClientPlan {
        target: if mode == Mode::ClientOnly {
            Some(target_of(address))
        } else {
            None
        },
        connections: options.connections,
        packets: options.packets,
    }
}

/// The run that `options` describe, or the reason it cannot start. A malformed
/// address is found first, then a fault in the server's endpoints.
pub open spec fn plan_of(options: Options) -> Result<RunPlan, ConfigError> {
    let mode = mode_of(options.server_only, options.client_only);
    match options.server_address {
        None => Err(ConfigError::MalformedAddress),
        Some(address) => {
            let client = if runs_client(mode) {
                Some(client_plan_of(options, address))
            } else {
                None
            };
            if runs_server(mode) {
                match server_plan_of(options, address) {
                    Err(e) => Err(e),
                    Ok(server) => Ok(RunPlan { mode, server: Some(server), client }),
                }
            } else {
                Ok(RunPlan { mode, server: None, client })
            }
        },
    }
}

/// The stages of a run in the order they happen.
pub open spec fn phases_of(mode: Mode) -> Seq<Phase> {
    match mode {
        Mode::ServerOnly => seq![Phase::StartServer, Phase::JoinServer],
        Mode::ClientOnly => seq![Phase::RunClient, Phase::DrainClient],
        Mode::Combined => seq![
            Phase::StartServer,
            Phase::WarmUp,
            Phase::RunClient,
            Phase::DrainClient,
            Phase::JoinServer,
        ],
    }
}

/// The application protocol that both sides name in the handshake: the four
/// letters `perf`.
pub open spec fn protocol_name() -> Seq<u8> {
    seq![112u8, 101u8, 114u8, 102u8]
}

/// Selects the mode of a run from the two switches.
pub fn select_mode(server_only: bool, client_only: bool) -> (mode: Mode)
    ensures
        mode == mode_of(server_only, client_only),
{
    if server_only && !client_only {
        Mode::ServerOnly
    } else if client_only && !server_only {
        Mode::ClientOnly
    } else {
        Mode::Combined
    }
}

/// The address a client connects to for a given server address.
pub fn client_target(server: SocketAddress) -> (target: SocketAddress)
    ensures
        target == target_of(server),
{
    let unspecified = match server.host {
        Host::V4(bits) => bits == 0,
        Host::V6(bits) => bits == 0,
    };
    if unspecified {
        SocketAddress { host: Host::V4(LOOPBACK_V4), port: server.port }
    } else {
        server
    }
}

/// The address that every client endpoint binds to, and the server of a run
/// that has both roles: any interface, with a port of the system's choice.
pub fn ephemeral_address() -> (address: SocketAddress)
    ensures
        address == any_address(),
{
    SocketAddress { host: Host::V4(0), port: 0 }
}

/// The range of ports for `count` server endpoints from `base` on.
pub fn server_port_range(base: u16, count: usize) -> (range: Result<(u16, u16), ConfigError>)
    ensures
        range == port_range_of(base, count),
        range == Err::<(u16, u16), ConfigError>(ConfigError::NoEndpoints) <==> count == 0,
        range is Ok <==> 0 < count && base + count <= u16::MAX,
{
    if count == 0 {
        Err(ConfigError::NoEndpoints)
    } else if count > (u16::MAX - base) as usize {
        Err(ConfigError::PortRangeExhausted)
    } else {
        Ok((base, base + count as u16))
    }
}

/// Where the server's identity comes from.
pub fn identity_source(has_key: bool, has_cert: bool) -> (source: IdentitySource)
    ensures
        source == identity_of(has_key, has_cert),
{
    if has_key && has_cert {
        IdentitySource::Files
    } else {
        IdentitySource::SelfSigned
    }
}

/// Validates what was read of the credentials: files that were named must both
/// have been read.
pub fn validate_credentials(source: IdentitySource, key_read: bool, cert_read: bool) -> (checked: Result<
    (),
    ConfigError,
>)
    ensures
        checked is Ok <==> source == IdentitySource::SelfSigned || (key_read && cert_read),
        checked is Err ==> checked == Err::<(), ConfigError>(ConfigError::UnreadableCredentials),
{
    match source {
        IdentitySource::SelfSigned => Ok(()),
        IdentitySource::Files => if key_read && cert_read {
            Ok(())
        } else {
            Err(ConfigError::UnreadableCredentials)
        },
    }
}

/// Validates a pool of endpoints against the number asked for: a pool with fewer
/// or more is refused, and so is a pool of none.
pub fn validate_pool(requested: usize, bound: usize) -> (checked: Result<(), ConfigError>)
    ensures
        checked is Ok <==> requested == bound && requested > 0,
        requested == 0 ==> checked == Err::<(), ConfigError>(ConfigError::NoEndpoints),
        requested > 0 && requested != bound ==> checked == Err::<(), ConfigError>(
            ConfigError::InsufficientSockets,
        ),
{
    if requested == 0 {
        Err(ConfigError::NoEndpoints)
    } else if requested != bound {
        Err(ConfigError::InsufficientSockets)
    } else {
        Ok(())
    }
}

/// Turns the configuration into the plan of a run, or says why the run cannot
/// start.
pub fn plan_run(options: &Options) -> (plan: Result<RunPlan, ConfigError>)
    ensures
        plan == plan_of(*options),
        plan == Err::<RunPlan, ConfigError>(ConfigError::MalformedAddress)
            <==> options.server_address is None,
        options.server_address is Some && runs_server(
            mode_of(options.server_only, options.client_only),
        ) && options.endpoints == 0 ==> plan == Err::<RunPlan, ConfigError>(
            ConfigError::NoEndpoints,
        ),
        options.server_address is Some && !runs_server(
            mode_of(options.server_only, options.client_only),
        ) ==> plan is Ok,
        plan matches Ok(run) ==> {
            &&& run.mode == mode_of(options.server_only, options.client_only)
            &&& (run.server is Some <==> runs_server(run.mode))
            &&& (run.client is Some <==> runs_client(run.mode))
        },
{
    let mode = select_mode(options.server_only, options.client_only);
    let address = match options.server_address {
        None => {
            return Err(ConfigError::MalformedAddress);
        },
        Some(address) => address,
    };
    let client = match mode {
        Mode::ServerOnly => None,
        Mode::ClientOnly => Some(
            ClientPlan {
                target: Some(client_target(address)),
                connections: options.connections,
                packets: options.packets,
            },
        ),
        Mode::Combined => Some(
            ClientPlan { target: None, connections: options.connections, packets: options.packets },
        ),
    };
    let bind = match mode {
        Mode::ClientOnly => {
            return Ok(RunPlan { mode, server: None, client });
        },
        Mode::ServerOnly => address,
        Mode::Combined => ephemeral_address(),
    };
    match server_port_range(bind.port, options.endpoints) {
        Err(e) => Err(e),
        Ok(ports) => Ok(
            RunPlan {
                mode,
                server: Some(
                    ServerPlan {
                        bind,
                        first_port: ports.0,
                        end_port: ports.1,
                        endpoints: options.endpoints,
                        identity: identity_source(options.has_key, options.has_cert),
                    },
                ),
                client,
            },
        ),
    }
}

/// The stages of a run in the order they happen.
pub fn phases(mode: Mode) -> (stages: Vec<Phase>)
    ensures
        stages@ == phases_of(mode),
{
    let mut stages: Vec<Phase> = Vec::new();
    match mode {
        Mode::ServerOnly => {
            stages.push(Phase::StartServer);
            stages.push(Phase::JoinServer);
        },
        Mode::ClientOnly => {
            stages.push(Phase::RunClient);
            stages.push(Phase::DrainClient);
        },
        Mode::Combined => {
            stages.push(Phase::StartServer);
            stages.push(Phase::WarmUp);
            stages.push(Phase::RunClient);
            stages.push(Phase::DrainClient);
            stages.push(Phase::JoinServer);
        },
    }
    assert(stages@ =~= phases_of(mode));
    stages
}

/// The name of the application protocol, to be offered in the handshake.
pub fn application_protocol() -> (name: Vec<u8>)
    ensures
        name@ == protocol_name(),
{
    let mut name: Vec<u8> = Vec::new();
    name.push(112u8);
    name.push(101u8);
    name.push(114u8);
    name.push(102u8);
    assert(name@ =~= protocol_name());
    name
}

/// In a run with both roles the server is started before the client, the
/// client is drained after it has run, and the server is joined last.
pub proof fn lemma_phases_ordered(mode: Mode, i: int, j: int)
    requires
        0 <= i < phases_of(mode).len(),
        0 <= j < phases_of(mode).len(),
    ensures
        phases_of(mode)[i] == Phase::StartServer && phases_of(mode)[j] == Phase::RunClient ==> i
            < j,
        phases_of(mode)[i] == Phase::RunClient && phases_of(mode)[j] == Phase::DrainClient ==> i
            < j,
        phases_of(mode)[j] == Phase::JoinServer ==> i <= j,
{
}

/// A run has the stages of its roles and no others: a server is started and
/// joined exactly where the mode has a server, a client is run and then
/// drained exactly where the mode has a client.
pub proof fn lemma_phases_match_roles(mode: Mode)
    ensures
        phases_of(mode).contains(Phase::StartServer) <==> runs_server(mode),
        phases_of(mode).contains(Phase::JoinServer) <==> runs_server(mode),
        phases_of(mode).contains(Phase::RunClient) <==> runs_client(mode),
        phases_of(mode).contains(Phase::DrainClient) <==> runs_client(mode),
        phases_of(mode).contains(Phase::WarmUp) <==> runs_server(mode) && runs_client(mode),
{
    let stages = phases_of(mode);
    match mode {
        Mode::ServerOnly => {
            assert(stages[0] == Phase::StartServer);
            assert(stages[1] == Phase::JoinServer);
        },
        Mode::ClientOnly => {
            assert(stages[0] == Phase::RunClient);
            assert(stages[1] == Phase::DrainClient);
        },
        Mode::Combined => {
            assert(stages[0] == Phase::StartServer);
            assert(stages[1] == Phase::WarmUp);
            assert(stages[2] == Phase::RunClient);
            assert(stages[3] == Phase::DrainClient);
            assert(stages[4] == Phase::JoinServer);
        },
    }
}

} // verus!
