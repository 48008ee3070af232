//! An in-memory transport: what is written to it can come back as what is
//! read from it, and replies can be scripted. It stands in for the remote
//! end where there is none, and keeps a record of every call.

use vstd::prelude::*;
use crate::discord_ipc::{DiscordIpc, Event, SessionState};
use crate::error::Error;

verus! {

/// One call of a transport method as a [`Loopback`] records it.
#[derive(Debug, Clone, PartialEq, Eq)]
pub enum Call {
    /// `connect_ipc`, and whether it opened the transport.
    Open { opened: bool },
    /// `write` with this data, and whether the transport took it.
    Write { data: Vec<u8>, written: bool },
    /// `read` into a buffer of this length, and the bytes that filled it, if
    /// it was filled.
    Read { len: usize, filled: Option<Vec<u8>> },
    /// `close`.
    Close,
}

impl View for Call {
    type V = Event;

    open spec fn view(&self) -> Event {
        match self {
            Call::Open { opened } => Event::Open { opened: *opened },
            Call::Write { data, written } => Event::Write { data: data@, written: *written },
            Call::Read { len, filled } => Event::Read {
                len: *len as nat,
                filled: match filled {
                    Some(data) => Some(data@),
                    None => None,
                },
            },
            Call::Close => Event::Close,
        }
    }
}

/// The events that a record of calls stands for, in order.
pub open spec fn record_view(calls: Seq<Call>) -> Seq<Event> {
    calls.map_values(|call: Call| call@)
}

/// A session over a byte queue in memory.
#[derive(Debug, Clone)]
pub struct Loopback {
    client_id: String,
    accepting: bool,
    echo: bool,
    connected: bool,
    calls: Vec<Call>,
    incoming: Vec<u8>,
    consumed: usize,
}

impl Loopback {
    /// Whether opening the transport succeeds.
    pub closed spec fn accepts(&self) -> bool {
        self.accepting
    }

    /// Whether what is written while connected is appended to the incoming
    /// bytes.
    pub closed spec fn echoes(&self) -> bool {
        self.echo
    }

    /// A disconnected session that accepts connections and echoes, with no
    /// call made and nothing to read.
    pub fn new(client_id: &str) -> (session: Loopback)
        ensures
            session@ == (SessionState {
                client_id: client_id@,
                connected: false,
                events: Seq::empty(),
                incoming: Seq::empty(),
            }),
            session.accepts(),
            session.echoes(),
    {
        let session = Loopback {
            client_id: client_id.to_owned(),
            accepting: true,
            echo: true,
            connected: false,
            calls: Vec::new(),
            incoming: Vec::new(),
            consumed: 0,
        };
        assert(session@.events =~= Seq::empty());
        assert(session@.incoming =~= Seq::empty());
        session
    }

    /// Sets whether opening the transport succeeds.
    pub fn set_accepting(&mut self, accepting: bool)
        ensures
            final(self)@ == old(self)@,
            final(self).accepts() == accepting,
            final(self).echoes() == old(self).echoes(),
    {
        self.accepting = accepting;
    }

    /// Sets whether writes are echoed.
    pub fn set_echo(&mut self, echo: bool)
        ensures
            final(self)@ == old(self)@,
            final(self).accepts() == old(self).accepts(),
            final(self).echoes() == echo,
    {
        self.echo = echo;
    }

    /// Appends `bytes` to what the session will read.
    pub fn feed(&mut self, bytes: &[u8])
        ensures
            final(self)@ == (SessionState {
                incoming: old(self)@.incoming + bytes@,
                ..old(self)@
            }),
            final(self).accepts() == old(self).accepts(),
            final(self).echoes() == old(self).echoes(),
    {
        self.settle();
        self.incoming.extend_from_slice(bytes);
        assert(self@.incoming =~= old(self)@.incoming + bytes@);
    }

    /// Brings the read position back into the queue, should it lie outside.
    fn settle(&mut self)
        ensures
            final(self)@ == old(self)@,
            final(self).accepts() == old(self).accepts(),
            final(self).echoes() == old(self).echoes(),
            final(self).consumed <= final(self).incoming@.len(),
    {
        if self.consumed > self.incoming.len() {
            self.incoming = Vec::new();
            self.consumed = 0;
        }
        assert(self@.incoming =~= old(self)@.incoming);
    }

    /// Adds a call to the record.
    fn record(&mut self, call: Call)
        ensures
            final(self)@ == (SessionState {
                events: old(self)@.events.push(call@),
                ..old(self)@
            }),
            final(self).accepts() == old(self).accepts(),
            final(self).echoes() == old(self).echoes(),
            final(self).incoming == old(self).incoming,
            final(self).consumed == old(self).consumed,
    {
        self.calls.push(call);
        assert(record_view(self.calls@) =~= record_view(old(self).calls@).push(call@));
    }

    /// Whether the session is connected.
    pub fn is_connected(&self) -> (connected: bool)
        ensures
            connected == self@.connected,
    {
        self.connected
    }

    /// Every call of a transport method so far, in order.
    pub fn calls(&self) -> (calls: &Vec<Call>)
        ensures
            record_view(calls@) == self@.events,
    {
        &self.calls
    }

    /// The number of bytes that are still to be read.
    pub fn pending(&self) -> (count: usize)
        ensures
            count == self@.incoming.len(),
    {
        if self.consumed <= self.incoming.len() {
            self.incoming.len() - self.consumed
        } else {
            0
        }
    }
}

impl DiscordIpc for Loopback {
    closed spec fn view(&self) -> SessionState {
        SessionState {
            client_id: self.client_id@,
            connected: self.connected,
            events: record_view(self.calls@),
            incoming: if self.consumed <= self.incoming@.len() {
                self.incoming@.skip(self.consumed as int)
            } else {
                Seq::empty()
            },
        }
    }

    fn get_client_id(&self) -> (client_id: &String) {
        &self.client_id
    }

    /// Succeeds exactly if the session accepts connections; what is to be
    /// read stays.
    fn connect_ipc(&mut self) -> (opened: Result<(), Error>)
        ensures
            opened is Ok <==> old(self).accepts(),
            final(self)@.connected == (old(self)@.connected || old(self).accepts()),
            final(self)@.incoming == old(self)@.incoming,
            final(self).accepts() == old(self).accepts(),
            final(self).echoes() == old(self).echoes(),
    {
        self.record(Call::Open { opened: self.accepting });
        if self.accepting {
            self.connected = true;
            Ok(())
        } else {
            Err(Error::ConnectionFailed)
        }
    }

    /// Succeeds exactly if the session is connected; an echoing session then
    /// appends the data to what is to be read.
    fn write(&mut self, data: &[u8]) -> (written: Result<(), Error>)
        ensures
            written is Ok <==> old(self)@.connected,
            final(self)@.incoming == if old(self)@.connected && old(self).echoes() {
                old(self)@.incoming + data@
            } else {
                old(self)@.incoming
            },
            final(self).accepts() == old(self).accepts(),
            final(self).echoes() == old(self).echoes(),
    {
        let mut copy: Vec<u8> = Vec::new();
        copy.extend_from_slice(data);
        assert(copy@ =~= data@);
        self.record(Call::Write { data: copy, written: self.connected });
        if !self.connected {
            return Err(Error::WriteFailed);
        }
        if self.echo {
            self.feed(data);
        }
        Ok(())
    }

    /// Succeeds exactly if the session is connected and holds as many bytes
    /// as the buffer; a failed read takes nothing.
    fn read(&mut self, buffer: &mut [u8]) -> (filled: Result<(), Error>)
        ensures
            filled is Ok <==> old(self)@.connected && old(buffer)@.len() <= old(
                self,
            )@.incoming.len(),
            filled is Err ==> final(self)@.incoming == old(self)@.incoming,
            final(self).accepts() == old(self).accepts(),
            final(self).echoes() == old(self).echoes(),
    {
        let n: usize = buffer.len();
        self.settle();
        if !self.connected || self.incoming.len() - self.consumed < n {
            self.record(Call::Read { len: n, filled: None });
            return Err(Error::ReadFailed);
        }
        let mut copy: Vec<u8> = Vec::new();
        let mut i: usize = 0;
        while i < n
            invariant
                i <= n,
                buffer@.len() == n,
                copy@.len() == i,
                self.consumed + n <= self.incoming.len(),
                forall|j: int| 0 <= j < i ==> buffer@[j] == self.incoming@[self.consumed + j],
                forall|j: int| 0 <= j < i ==> copy@[j] == self.incoming@[self.consumed + j],
            decreases n - i,
        {
            let byte: u8 = self.incoming[self.consumed + i];
            buffer[i] = byte;
            copy.push(byte);
            i += 1;
        }
        assert(buffer@ =~= old(self)@.incoming.take(n as int));
        assert(copy@ =~= buffer@);
        self.record(Call::Read { len: n, filled: Some(copy) });
        self.consumed = self.consumed + n;
        assert(self@.incoming =~= old(self)@.incoming.skip(n as int));
        Ok(())
    }

    /// What is to be read stays.
    fn close(&mut self) -> (closed: Result<(), Error>)
        ensures
            final(self)@.incoming == old(self)@.incoming,
            final(self).accepts() == old(self).accepts(),
            final(self).echoes() == old(self).echoes(),
    {
        self.record(Call::Close);
        self.connected = false;
        Ok(())
    }
}

} // verus!
