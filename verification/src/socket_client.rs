//! The stream client: it takes in the bytes read from the socket, cuts them
//! into frames, assembles blocks from begin/update/end messages, and either
//! buffers completed blocks or hands them out.
//!
//! The socket itself is held by the caller, who hands over what each read
//! returned and reports how each connection attempt went.

use crate::framing::{contents, payloads, residue, take_frames};
use crate::messages::{
    chrono_group,
    chrono_sorted,
    sort_chronologically,
    PoolEvent,
    SocketMessage,
};
use vstd::prelude::*;
use vstd::string::StringExecFns;

verus! {

/// The longest pause between two connection attempts, in milliseconds.
pub const MAX_RECONNECT_DELAY_MS: u64 = 10_000;

/// What can go wrong in the stream client.
#[derive(Debug)]
pub enum SocketClientError {
    Connection(String),
    Io(String),
    Deserialization(String),
    InvalidMessage(String),
    BufferOverflow { capacity: usize, attempted: usize },
}

impl SocketClientError {
    /// The error in words. For the four kinds that carry a text, the kind and
    /// that text; for an overflow, the capacity and the number attempted, each
    /// as its `to_string` gives it.
    pub fn describe(&self) -> (text: String)
        ensures
            match *self {
                SocketClientError::Connection(cause) => text@ == "Socket connection error: "@
                    + cause@,
                SocketClientError::Io(cause) => text@ == "IO error: "@ + cause@,
                SocketClientError::Deserialization(cause) => text@ == "Deserialization error: "@
                    + cause@,
                SocketClientError::InvalidMessage(cause) => text@ == "Invalid message format: "@
                    + cause@,
                SocketClientError::BufferOverflow { capacity, attempted } => exists|
                    held: String,
                    tried: String,
                |
                    #![trigger held@, tried@]
                    vstd::string::to_string_from_display_ensures::<usize>(&capacity, held)
                        && vstd::string::to_string_from_display_ensures::<usize>(&attempted, tried)
                        && text@ == "Buffer overflow: capacity "@ + held@ + ", attempted "@
                        + tried@,
            },
    {
        match self {
            SocketClientError::Connection(cause) => {
                let mut text = String::from_str("Socket connection error: ");
                text.append(cause.as_str());
                text
            },
            SocketClientError::Io(cause) => {
                let mut text = String::from_str("IO error: ");
                text.append(cause.as_str());
                text
            },
            SocketClientError::Deserialization(cause) => {
                let mut text = String::from_str("Deserialization error: ");
                text.append(cause.as_str());
                text
            },
            SocketClientError::InvalidMessage(cause) => {
                let mut text = String::from_str("Invalid message format: ");
                text.append(cause.as_str());
                text
            },
            SocketClientError::BufferOverflow { capacity, attempted } => {
                let held = capacity.to_string();
                let tried = attempted.to_string();
                let mut text = String::from_str("Buffer overflow: capacity ");
                text.append(held.as_str());
                text.append(", attempted ");
                text.append(tried.as_str());
                text
            },
        }
    }
}

/// Whether completed blocks are kept for later or handed out at once.
#[derive(Clone, Copy, Debug, PartialEq, Eq, Structural)]
pub enum ClientMode {
    /// Keep the events of completed blocks, `capacity` of them at most.
    Buffering { capacity: usize },
    /// Hand each completed block to the caller.
    Live,
}

/// What the client holds, as contracts see it.
pub struct ClientState {
    pub socket_path: Seq<char>,
    pub connected: bool,
    pub mode: ClientMode,
    /// The events of committed blocks, in the order of arrival.
    pub buffer: Seq<PoolEvent>,
    pub earliest_block: Option<u64>,
    pub latest_block: Option<u64>,
    /// The block that was begun and not yet ended.
    pub current_block: Option<u64>,
    /// The updates received for `current_block`.
    pub pending: Seq<PoolEvent>,
    /// Bytes received that do not yet make a frame.
    pub unread: Seq<u8>,
    pub max_attempts: u32,
    pub initial_delay_ms: u64,
    /// Attempts that failed since the last success or surrender.
    pub failed_attempts: u32,
    /// The pause to make after the next failure.
    pub retry_delay_ms: u64,
}

/// What handling one message comes to.
pub enum Outcome {
    /// The message was taken in; no block is handed out.
    Accepted,
    /// A block was completed in live mode: its events, in order.
    Delivered(Seq<PoolEvent>),
    /// The message does not fit the block being assembled.
    Rejected,
    /// The completed block does not fit into the buffer.
    Overflow { capacity: usize, attempted: usize },
}

/// A count as far as a `usize` can hold it.
pub open spec fn clamp_to_usize(n: nat) -> usize {
    if n <= usize::MAX {
        n as usize
    } else {
        usize::MAX
    }
}

/// A client that was just made: not connected, nothing buffered, no block
/// under way, ten connection attempts allowed, a first pause of 100 ms.
pub open spec fn fresh_client(socket_path: Seq<char>, mode: ClientMode) -> ClientState {
    ClientState {
        socket_path,
        connected: false,
        mode,
        buffer: Seq::empty(),
        earliest_block: None,
        latest_block: None,
        current_block: None,
        pending: Seq::empty(),
        unread: Seq::empty(),
        max_attempts: 10,
        initial_delay_ms: 100,
        failed_attempts: 0,
        retry_delay_ms: 100,
    }
}

/// The state with no block under way.
pub open spec fn idle(s: ClientState) -> ClientState {
    ClientState { current_block: None, pending: Seq::empty(), ..s }
}

/// The end of block `block`: in live mode its events are handed out; in
/// buffering mode they join the buffer if `capacity` allows, and are dropped
/// with an overflow if it does not.
pub open spec fn commit(s: ClientState, block: u64) -> (ClientState, Outcome) {
    match s.mode {
        ClientMode::Live => (idle(s), Outcome::Delivered(s.pending)),
        ClientMode::Buffering { capacity } => if s.buffer.len() + s.pending.len() > capacity {
            (
                idle(s),
                Outcome::Overflow {
                    capacity,
                    attempted: clamp_to_usize(s.buffer.len() + s.pending.len()),
                },
            )
        } else {
            (
                ClientState {
                    buffer: s.buffer + s.pending,
                    earliest_block: if s.earliest_block is None {
                        Some(block)
                    } else {
                        s.earliest_block
                    },
                    latest_block: Some(block),
                    ..idle(s)
                },
                Outcome::Accepted,
            )
        },
    }
}

/// The block state machine: the state after `message`, and what handling it
/// comes to.
pub open spec fn step(s: ClientState, message: SocketMessage) -> (ClientState, Outcome) {
    match message {
        SocketMessage::BeginBlock { block_number, is_revert } => (
            ClientState { current_block: Some(block_number), pending: Seq::empty(), ..s },
            Outcome::Accepted,
        ),
        SocketMessage::PoolUpdate(event) => match s.current_block {
            None => (s, Outcome::Rejected),
            Some(current) => if event.block_number == current {
                (ClientState { pending: s.pending.push(event), ..s }, Outcome::Accepted)
            } else {
                (idle(s), Outcome::Rejected)
            },
        },
        SocketMessage::EndBlock { block_number, num_updates } => match s.current_block {
            None => (s, Outcome::Rejected),
            Some(current) => if block_number == current {
                commit(s, block_number)
            } else {
                (s, Outcome::Rejected)
            },
        },
    }
}

/// Whether a result of `handle_message` says what `outcome` says.
pub open spec fn reports(
    result: Result<Option<Vec<PoolEvent>>, SocketClientError>,
    outcome: Outcome,
) -> bool {
    match outcome {
        Outcome::Accepted => result matches Ok(None),
        Outcome::Delivered(events) => result matches Ok(Some(block)) && block@ == events,
        Outcome::Rejected => result matches Err(SocketClientError::InvalidMessage(_)),
        Outcome::Overflow { capacity, attempted } => result matches Err(
            SocketClientError::BufferOverflow { capacity: c, attempted: a },
        ) && c == capacity && a == attempted,
    }
}

/// The state after a run of messages, whatever each came to.
pub open spec fn run(s: ClientState, messages: Seq<SocketMessage>) -> ClientState
    decreases messages.len(),
{
    if messages.len() == 0 {
        s
    } else {
        step(run(s, messages.drop_last()), messages.last()).0
    }
}

/// The pause that follows a pause of `delay_ms`: twice as long, ten seconds at
/// most.
pub open spec fn next_delay(delay_ms: u64) -> u64 {
    if delay_ms >= MAX_RECONNECT_DELAY_MS / 2 {
        MAX_RECONNECT_DELAY_MS
    } else {
        (2 * delay_ms) as u64
    }
}

/// What is odd about a message and yet no error.
#[derive(Clone, Copy, Debug, PartialEq, Eq)]
pub enum FramingAnomaly {
    /// A block is begun while `open_block` was not ended; its updates are
    /// dropped.
    BeginInsideBlock { open_block: u64 },
    /// The end of a block announces another number of updates than were
    /// received for it.
    UpdateCountMismatch { announced: u64, received: usize },
}

/// The anomaly that `message` is in state `s`, if it is one: a begin inside a
/// block, or the end of the block under way with a count that differs from
/// the updates received.
pub open spec fn anomaly_of(s: ClientState, message: SocketMessage) -> Option<FramingAnomaly> {
    match (message, s.current_block) {
        (SocketMessage::BeginBlock { .. }, Some(open_block)) => Some(
            FramingAnomaly::BeginInsideBlock { open_block },
        ),
        (SocketMessage::EndBlock { block_number, num_updates }, Some(open_block)) => if block_number
            == open_block && num_updates != s.pending.len() {
            Some(
                FramingAnomaly::UpdateCountMismatch {
                    announced: num_updates,
                    received: s.pending.len() as usize,
                },
            )
        } else {
            None
        },
        _ => None,
    }
}

/// What to do after a connection attempt.
#[derive(Debug)]
pub enum ConnectStep {
    /// The socket is open.
    Connected,
    /// Wait this long, then try again.
    RetryAfter { delay_ms: u64 },
    /// Too many attempts failed.
    GiveUp(SocketClientError),
}

/// A snapshot of the buffer for monitoring.
#[derive(Clone, Debug)]
pub struct BufferStats {
    pub mode: ClientMode,
    pub buffered_count: usize,
    pub buffered_block_range: Option<(u64, u64)>,
    pub current_block: Option<u64>,
    pub pending_updates_count: usize,
}

/// The client of the event stream.
pub struct UnixSocketClient {
    socket_path: String,
    connected: bool,
    mode: ClientMode,
    event_buffer: Vec<PoolEvent>,
    earliest_buffered_block: Option<u64>,
    latest_buffered_block: Option<u64>,
    current_block_number: Option<u64>,
    pending_updates: Vec<PoolEvent>,
    max_reconnect_attempts: u32,
    reconnect_delay_ms: u64,
    failed_attempts: u32,
    retry_delay_ms: u64,
    read_buffer: Vec<u8>,
}

impl View for UnixSocketClient {
    type V = ClientState;

    closed spec fn view(&self) -> ClientState {
        ClientState {
            socket_path: self.socket_path@,
            connected: self.connected,
            mode: self.mode,
            buffer: self.event_buffer@,
            earliest_block: self.earliest_buffered_block,
            latest_block: self.latest_buffered_block,
            current_block: self.current_block_number,
            pending: self.pending_updates@,
            unread: self.read_buffer@,
            max_attempts: self.max_reconnect_attempts,
            initial_delay_ms: self.reconnect_delay_ms,
            failed_attempts: self.failed_attempts,
            retry_delay_ms: self.retry_delay_ms,
        }
    }
}

/// The client after a connection attempt: a success opens the socket, the
/// last allowed failure ends the series, and any other failure lengthens the
/// pause.
pub open spec fn after_attempt(s: ClientState, succeeded: bool) -> ClientState {
    if succeeded {
        ClientState {
            connected: true,
            failed_attempts: 0,
            retry_delay_ms: s.initial_delay_ms,
            ..s
        }
    } else if s.failed_attempts + 1 >= s.max_attempts {
        ClientState { failed_attempts: 0, retry_delay_ms: s.initial_delay_ms, ..s }
    } else {
        ClientState {
            failed_attempts: (s.failed_attempts + 1) as u32,
            retry_delay_ms: next_delay(s.retry_delay_ms),
            ..s
        }
    }
}

impl UnixSocketClient {
    /// Takes in how one attempt to open the socket went and says what to do
    /// next. After a failure the caller waits for the pause given and tries
    /// again; the pause doubles from one failure to the next, up to ten
    /// seconds. The failure that uses up the allowed attempts ends the series
    /// with a `Connection` error, and the next series starts afresh.
    pub fn connect(&mut self, attempt: Result<(), String>) -> (next: ConnectStep)
        ensures
            final(self)@ == after_attempt(old(self)@, attempt is Ok),
            attempt is Ok ==> next is Connected,
            attempt is Err && old(self)@.failed_attempts + 1 >= old(self)@.max_attempts ==> (
            next matches ConnectStep::GiveUp(SocketClientError::Connection(_))),
            attempt is Err && old(self)@.failed_attempts + 1 < old(self)@.max_attempts ==> next
                == (ConnectStep::RetryAfter { delay_ms: old(self)@.retry_delay_ms }),
    {
        match attempt {
            Ok(()) => {
                self.connected = true;
                self.failed_attempts = 0;
                self.retry_delay_ms = self.reconnect_delay_ms;
                ConnectStep::Connected
            },
            Err(cause) => {
                let attempts: u32 = self.failed_attempts.saturating_add(1);
                if attempts >= self.max_reconnect_attempts {
                    self.failed_attempts = 0;
                    self.retry_delay_ms = self.reconnect_delay_ms;
                    let mut text = String::from_str("Failed to connect after ");
                    text.append(attempts.to_string().as_str());
                    text.append(" attempts: ");
                    text.append(cause.as_str());
                    ConnectStep::GiveUp(SocketClientError::Connection(text))
                } else {
                    let delay_ms: u64 = self.retry_delay_ms;
                    self.failed_attempts = attempts;
                    self.retry_delay_ms = if delay_ms >= MAX_RECONNECT_DELAY_MS / 2 {
                        MAX_RECONNECT_DELAY_MS
                    } else {
                        2 * delay_ms
                    };
                    ConnectStep::RetryAfter { delay_ms }
                }
            },
        }
    }

    /// A client for the socket at `socket_path`, not yet connected, with
    /// nothing buffered and no block under way. It allows ten connection
    /// attempts and pauses 100 ms after the first failure.
    pub fn new(socket_path: &str, mode: ClientMode) -> (client: UnixSocketClient)
        ensures
            client@ == fresh_client(socket_path@, mode),
    {
        UnixSocketClient {
            socket_path: String::from_str(socket_path),
            connected: false,
            mode,
            event_buffer: Vec::new(),
            earliest_buffered_block: None,
            latest_buffered_block: None,
            current_block_number: None,
            pending_updates: Vec::new(),
            max_reconnect_attempts: 10,
            reconnect_delay_ms: 100,
            failed_attempts: 0,
            retry_delay_ms: 100,
            read_buffer: Vec::with_capacity(8192),
        }
    }

    /// The path of the socket.
    pub fn socket_path(&self) -> (path: &str)
        ensures
            path@ == self@.socket_path,
    {
        self.socket_path.as_str()
    }

    /// Whether the socket is open.
    pub fn is_connected(&self) -> (connected: bool)
        ensures
            connected == self@.connected,
    {
        self.connected
    }

    /// Sets the mode. The buffer is left as it is.
    pub fn set_mode(&mut self, mode: ClientMode)
        ensures
            final(self)@ == (ClientState { mode, ..old(self)@ }),
    {
        self.mode = mode;
    }

    /// The mode.
    pub fn mode(&self) -> (mode: ClientMode)
        ensures
            mode == self@.mode,
    {
        self.mode
    }

    /// The number of buffered events.
    pub fn buffered_count(&self) -> (count: usize)
        ensures
            count == self@.buffer.len(),
    {
        self.event_buffer.len()
    }

    /// The first and the last block committed to the buffer since it was last
    /// taken, if any was.
    pub fn buffered_block_range(&self) -> (range: Option<(u64, u64)>)
        ensures
            range == match (self@.earliest_block, self@.latest_block) {
                (Some(earliest), Some(latest)) => Some((earliest, latest)),
                _ => None,
            },
    {
        match (self.earliest_buffered_block, self.latest_buffered_block) {
            (Some(earliest), Some(latest)) => Some((earliest, latest)),
            _ => None,
        }
    }

    /// A snapshot of the buffer and of the block under way.
    pub fn buffer_stats(&self) -> (stats: BufferStats)
        ensures
            stats.mode == self@.mode,
            stats.buffered_count == self@.buffer.len(),
            stats.buffered_block_range == match (self@.earliest_block, self@.latest_block) {
                (Some(earliest), Some(latest)) => Some((earliest, latest)),
                _ => None,
            },
            stats.current_block == self@.current_block,
            stats.pending_updates_count == self@.pending.len(),
    {
        BufferStats {
            mode: self.mode,
            buffered_count: self.event_buffer.len(),
            buffered_block_range: self.buffered_block_range(),
            current_block: self.current_block_number,
            pending_updates_count: self.pending_updates.len(),
        }
    }

    /// Marks the socket as closed. The caller shuts the socket down.
    pub fn disconnect(&mut self)
        ensures
            final(self)@ == (ClientState { connected: false, ..old(self)@ }),
    {
        self.connected = false;
    }

    /// Moves the buffered events out, in chronological order: sorted by
    /// (block, transaction, log), events at the same place in the order they
    /// were buffered. The buffer is left empty and the block range unset.
    pub fn take_buffered_events(&mut self) -> (events: Vec<PoolEvent>)
        ensures
            chrono_sorted(events@),
            events@.to_multiset() == old(self)@.buffer.to_multiset(),
            forall|at: PoolEvent| #[trigger]
                chrono_group(events@, at) == chrono_group(old(self)@.buffer, at),
            final(self)@ == (ClientState {
                buffer: Seq::empty(),
                earliest_block: None,
                latest_block: None,
                ..old(self)@
            }),
    {
        let mut events: Vec<PoolEvent> = Vec::new();
        core::mem::swap(&mut events, &mut self.event_buffer);
        sort_chronologically(&mut events);
        self.earliest_buffered_block = None;
        self.latest_buffered_block = None;
        events
    }

    /// Takes in `data`, the bytes that one read of the socket returned, and
    /// hands out the payloads of the frames that are now complete, in order.
    /// What does not yet make a frame waits for the next read.
    ///
    /// Fails with `Connection("Not connected")` if the socket is not open, and
    /// with `Connection("Socket closed by remote")` if `data` is empty; the
    /// client is then unchanged.
    pub fn read_and_process(&mut self, data: &[u8]) -> (result: Result<
        Vec<Vec<u8>>,
        SocketClientError,
    >)
        ensures
            !old(self)@.connected ==> final(self)@ == old(self)@ && (result matches Err(
                SocketClientError::Connection(text),
            ) && text@ == "Not connected"@),
            old(self)@.connected && data@.len() == 0 ==> final(self)@ == old(self)@ && (
            result matches Err(SocketClientError::Connection(text)) && text@
                == "Socket closed by remote"@),
            old(self)@.connected && data@.len() > 0 ==> (result matches Ok(frames) && contents(
                frames@,
            ) == payloads(old(self)@.unread + data@)) && final(self)@ == (ClientState {
                unread: residue(old(self)@.unread + data@),
                ..old(self)@
            }),
    {
        if !self.connected {
            return Err(SocketClientError::Connection(String::from_str("Not connected")));
        }
        if data.len() == 0 {
            return Err(SocketClientError::Connection(String::from_str("Socket closed by remote")));
        }
        self.read_buffer.extend_from_slice(data);
        assert(self.read_buffer@ =~= old(self)@.unread + data@);
        let frames = take_frames(&mut self.read_buffer);
        Ok(frames)
    }

    /// What is odd about `message`, as the client stands, without being an
    /// error: worth a warning before the message is handled.
    pub fn framing_anomaly(&self, message: &SocketMessage) -> (found: Option<FramingAnomaly>)
        ensures
            found == anomaly_of(self@, *message),
    {
        match (message, self.current_block_number) {
            (SocketMessage::BeginBlock { .. }, Some(open_block)) => Some(
                FramingAnomaly::BeginInsideBlock { open_block },
            ),
            (SocketMessage::EndBlock { block_number, num_updates }, Some(open_block)) => {
                let received = self.pending_updates.len();
                if *block_number == open_block && *num_updates != received as u64 {
                    Some(
                        FramingAnomaly::UpdateCountMismatch { announced: *num_updates, received },
                    )
                } else {
                    None
                }
            },
            _ => None,
        }
    }

    /// Handles one decoded message as the block state machine `step` says.
    pub fn handle_message(&mut self, message: SocketMessage) -> (result: Result<
        Option<Vec<PoolEvent>>,
        SocketClientError,
    >)
        ensures
            final(self)@ == step(old(self)@, message).0,
            reports(result, step(old(self)@, message).1),
    {
        match message {
            SocketMessage::BeginBlock { block_number, is_revert } => {
                self.current_block_number = Some(block_number);
                self.pending_updates.clear();
                Ok(None)
            },
            SocketMessage::PoolUpdate(event) => {
                match self.current_block_number {
                    None => Err(
                        SocketClientError::InvalidMessage(
                            String::from_str("Received PoolUpdate without BeginBlock"),
                        ),
                    ),
                    Some(current) => {
                        if event.block_number != current {
                            self.current_block_number = None;
                            self.pending_updates.clear();
                            let mut text = String::from_str("PoolUpdate block ");
                            text.append(event.block_number.to_string().as_str());
                            text.append(" doesn't match current block ");
                            text.append(current.to_string().as_str());
                            return Err(SocketClientError::InvalidMessage(text));
                        }
                        self.pending_updates.push(event);
                        Ok(None)
                    },
                }
            },
            SocketMessage::EndBlock { block_number, num_updates } => {
                match self.current_block_number {
                    None => Err(
                        SocketClientError::InvalidMessage(
                            String::from_str("Received EndBlock without BeginBlock"),
                        ),
                    ),
                    Some(current) => {
                        if block_number != current {
                            let mut text = String::from_str("EndBlock block ");
                            text.append(block_number.to_string().as_str());
                            text.append(" doesn't match current block ");
                            text.append(current.to_string().as_str());
                            return Err(SocketClientError::InvalidMessage(text));
                        }
                        let mut events: Vec<PoolEvent> = Vec::new();
                        core::mem::swap(&mut events, &mut self.pending_updates);
                        self.current_block_number = None;
                        match self.mode {
                            ClientMode::Live => Ok(Some(events)),
                            ClientMode::Buffering { capacity } => {
                                let buffered: usize = self.event_buffer.len();
                                let incoming: usize = events.len();
                                if incoming > capacity || buffered > capacity - incoming {
                                    return Err(
                                        SocketClientError::BufferOverflow {
                                            capacity,
                                            attempted: buffered.saturating_add(incoming),
                                        },
                                    );
                                }
                                if self.earliest_buffered_block.is_none() {
                                    self.earliest_buffered_block = Some(block_number);
                                }
                                self.latest_buffered_block = Some(block_number);
                                self.event_buffer.append(&mut events);
                                Ok(None)
                            },
                        }
                    },
                }
            },
        }
    }
}

/// In buffering mode the buffer never outgrows its capacity: a block joins it
/// only if it fits, and the commit that would not fit, and no other message,
/// is answered with an overflow that leaves the buffer as it was.
pub proof fn lemma_buffer_bounded(s: ClientState, message: SocketMessage, capacity: usize)
    requires
        s.mode == (ClientMode::Buffering { capacity }),
        s.buffer.len() <= capacity,
    ensures
        step(s, message).0.mode == s.mode,
        step(s, message).0.buffer.len() <= capacity,
        step(s, message).1 is Overflow <==> (message matches SocketMessage::EndBlock {
            block_number,
            ..
        } && s.current_block == Some(block_number) && s.buffer.len() + s.pending.len() > capacity),
        step(s, message).1 is Overflow ==> step(s, message).0.buffer == s.buffer,
        step(s, message).1 is Accepted && s.current_block is Some && message is EndBlock ==> step(
            s,
            message,
        ).0.buffer == s.buffer + s.pending,
{
}

/// Over any run of messages in buffering mode, the buffer stays within its
/// capacity.
pub proof fn lemma_buffer_bounded_run(s: ClientState, messages: Seq<SocketMessage>, capacity: usize)
    requires
        s.mode == (ClientMode::Buffering { capacity }),
        s.buffer.len() <= capacity,
    ensures
        run(s, messages).mode == s.mode,
        run(s, messages).buffer.len() <= capacity,
    decreases messages.len(),
{
    if messages.len() > 0 {
        lemma_buffer_bounded_run(s, messages.drop_last(), capacity);
        lemma_buffer_bounded(run(s, messages.drop_last()), messages.last(), capacity);
    }
}

/// The client after `failures` failed connection attempts in a row.
pub open spec fn after_failures(s: ClientState, failures: nat) -> ClientState
    decreases failures,
{
    if failures == 0 {
        s
    } else {
        after_attempt(after_failures(s, (failures - 1) as nat), false)
    }
}

/// A series of connection attempts ends with the failure that uses up the
/// allowed attempts, and not before: from a client with no failed attempt,
/// fewer failures than are allowed are all counted, none pauses longer than
/// ten seconds (or than the first pause, if that is longer), and the failure
/// that brings the count to the allowed number starts the count anew.
pub proof fn lemma_connect_series(s: ClientState, failures: nat)
    requires
        s.failed_attempts == 0,
        s.retry_delay_ms == s.initial_delay_ms,
        failures < s.max_attempts,
    ensures
        after_failures(s, failures).failed_attempts == failures,
        after_failures(s, failures).max_attempts == s.max_attempts,
        after_failures(s, failures).initial_delay_ms == s.initial_delay_ms,
        after_failures(s, failures).retry_delay_ms <= MAX_RECONNECT_DELAY_MS || after_failures(
            s,
            failures,
        ).retry_delay_ms == s.initial_delay_ms,
        failures > 0 ==> after_failures(s, failures).retry_delay_ms == next_delay(
            after_failures(s, (failures - 1) as nat).retry_delay_ms,
        ),
        failures + 1 == s.max_attempts ==> after_failures(s, failures + 1).failed_attempts == 0
            && after_failures(s, failures + 1).retry_delay_ms == s.initial_delay_ms,
    decreases failures,
{
    if failures > 0 {
        lemma_connect_series(s, (failures - 1) as nat);
    }
    assert(after_failures(s, failures + 1) == after_attempt(after_failures(s, failures), false));
}

} // verus!
