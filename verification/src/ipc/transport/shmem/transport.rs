//! The configuration of the shared-memory transport, and the names of its
//! channels.

use vstd::prelude::*;

verus! {

/// Size of the ring that a default transport asks for, in bytes.
pub const DEFAULT_BUFF_SIZE: usize = 4096;

/// Time that a default transport waits for its peer, in milliseconds.
pub const DEFAULT_CONN_TIMEOUT_MS: u64 = 100;

/// Which side of a connection a party is on.
#[derive(Clone, Copy, Debug, PartialEq, Eq, Structural)]
pub enum Role {
    /// The party that creates both channels, and removes them in the end.
    Creator,
    /// The party that opens the channels of a creator.
    Connector,
}

/// One of the two channels of a connection.
#[derive(Clone, Copy, Debug, PartialEq, Eq, Structural)]
pub enum Direction {
    /// From the connector to the creator.
    ConnectorToCreator,
    /// From the creator to the connector.
    CreatorToConnector,
}

/// The channel on which a party of the given role sends.
pub open spec fn tx_direction_spec(role: Role) -> Direction {
    match role {
        Role::Creator => Direction::CreatorToConnector,
        Role::Connector => Direction::ConnectorToCreator,
    }
}

/// The channel on which a party of the given role receives.
pub open spec fn rx_direction_spec(role: Role) -> Direction {
    match role {
        Role::Creator => Direction::ConnectorToCreator,
        Role::Connector => Direction::CreatorToConnector,
    }
}

impl Role {
    /// The channel on which the party sends.
    pub fn tx_direction(self) -> (direction: Direction)
        ensures
            direction == tx_direction_spec(self),
    {
        match self {
            Role::Creator => Direction::CreatorToConnector,
            Role::Connector => Direction::ConnectorToCreator,
        }
    }

    /// The channel on which the party receives.
    pub fn rx_direction(self) -> (direction: Direction)
        ensures
            direction == rx_direction_spec(self),
    {
        match self {
            Role::Creator => Direction::ConnectorToCreator,
            Role::Connector => Direction::CreatorToConnector,
        }
    }

    /// Whether the party removes the names of the channels when it is done.
    pub fn unlinks(self) -> (owner: bool)
        ensures
            owner == (self == Role::Creator),
    {
        match self {
            Role::Creator => true,
            Role::Connector => false,
        }
    }
}

impl Direction {
    /// What is appended to the address of a connection to name the channel.
    pub fn suffix(self) -> (suffix: &'static str)
        ensures
            suffix@ == (match self {
                Direction::ConnectorToCreator => "_c2s"@,
                Direction::CreatorToConnector => "_s2c"@,
            }),
    {
        match self {
            Direction::ConnectorToCreator => "_c2s",
            Direction::CreatorToConnector => "_s2c",
        }
    }
}

/// The name of the channel `direction` of the connection at `addr`.
pub fn channel_name(addr: &str, direction: Direction) -> (name: String)
    ensures
        name@ == addr@ + (match direction {
            Direction::ConnectorToCreator => "_c2s"@,
            Direction::CreatorToConnector => "_s2c"@,
        }),
{
    crate::sys::shmem::concat(addr, direction.suffix())
}

/// What one party sends on, the other receives on.
pub proof fn lemma_directions_pair_up(role: Role)
    ensures
        tx_direction_spec(Role::Creator) == rx_direction_spec(Role::Connector),
        tx_direction_spec(Role::Connector) == rx_direction_spec(Role::Creator),
        tx_direction_spec(role) != rx_direction_spec(role),
{
}

/// The shared-memory transport: how large its rings are, and how long it
/// waits for a peer.
#[derive(Clone, Copy, Debug, PartialEq, Eq, Structural)]
pub struct ShmemTransport {
    buffer_size: usize,
    conn_timeout_ms: u64,
}

impl ShmemTransport {
    /// Size of the ring of each channel, before rounding to whole pages.
    pub closed spec fn buffer_size_spec(&self) -> usize {
        self.buffer_size
    }

    /// Time to wait for the peer, in milliseconds.
    pub closed spec fn timeout_spec(&self) -> u64 {
        self.conn_timeout_ms
    }

    /// Size of the ring of each channel, before rounding to whole pages.
    pub fn buffer_size(&self) -> (n: usize)
        ensures
            n == self.buffer_size_spec(),
    {
        self.buffer_size
    }

    /// Time to wait for the peer, in milliseconds.
    pub fn connect_timeout(&self) -> (millis: u64)
        ensures
            millis == self.timeout_spec(),
    {
        self.conn_timeout_ms
    }
}

/// Builds a `ShmemTransport`.
#[derive(Clone, Copy, Debug, PartialEq, Eq, Structural)]
pub struct ShmemTransportBuilder {
    buffer_size: usize,
    conn_timeout_ms: u64,
}

impl ShmemTransportBuilder {
    /// The ring size that the builder holds.
    pub closed spec fn buffer_size_spec(&self) -> usize {
        self.buffer_size
    }

    /// The timeout that the builder holds, in milliseconds.
    pub closed spec fn timeout_spec(&self) -> u64 {
        self.conn_timeout_ms
    }

    /// A builder with the defaults: rings of 4096 bytes, and 100 ms to wait
    /// for the peer.
    pub fn new() -> (builder: ShmemTransportBuilder)
        ensures
            builder.buffer_size_spec() == DEFAULT_BUFF_SIZE,
            builder.timeout_spec() == DEFAULT_CONN_TIMEOUT_MS,
    {
        ShmemTransportBuilder {
            buffer_size: DEFAULT_BUFF_SIZE,
            conn_timeout_ms: DEFAULT_CONN_TIMEOUT_MS,
        }
    }

    /// Sets the size of the rings.
    pub fn buffer_size(self, value: usize) -> (builder: ShmemTransportBuilder)
        ensures
            builder.buffer_size_spec() == value,
            builder.timeout_spec() == self.timeout_spec(),
    {
        ShmemTransportBuilder { buffer_size: value, conn_timeout_ms: self.conn_timeout_ms }
    }

    /// Sets the time to wait for the peer, in milliseconds.
    pub fn connect_timeout(self, millis: u64) -> (builder: ShmemTransportBuilder)
        ensures
            builder.buffer_size_spec() == self.buffer_size_spec(),
            builder.timeout_spec() == millis,
    {
        ShmemTransportBuilder { buffer_size: self.buffer_size, conn_timeout_ms: millis }
    }

    /// The transport with what the builder holds.
    pub fn build(self) -> (transport: ShmemTransport)
        ensures
            transport.buffer_size_spec() == self.buffer_size_spec(),
            transport.timeout_spec() == self.timeout_spec(),
    {
        ShmemTransport { buffer_size: self.buffer_size, conn_timeout_ms: self.conn_timeout_ms }
    }
}

impl Default for ShmemTransportBuilder {
    /// The builder with the defaults.
    fn default() -> (builder: ShmemTransportBuilder)
        ensures
            builder.buffer_size_spec() == DEFAULT_BUFF_SIZE,
            builder.timeout_spec() == DEFAULT_CONN_TIMEOUT_MS,
    {
        ShmemTransportBuilder::new()
    }
}

} // verus!
