//! One TCP (or TLS-over-TCP) connection, as a machine from what happened on
//! the socket to what the connection task does next.
//!
//! The task announces the client ([`TcpConnection::open`]), then feeds every
//! outbound payload and every read result to [`TcpConnection::step`],
//! performs the action it returns, and stops once the connection has ended;
//! [`TcpConnection::close`] then forgets the client and gives the closing
//! event. The clients of the port, with the write channel of each, live in
//! a [`ClientTable`] shared with [`send_to_client`].
use vstd::prelude::*;
use crate::application::metrics::{counter_increment, gauge_decrement, gauge_increment};
use crate::domain::client::{ClientId, uuid_text};
use crate::domain::errors::AppError;
use crate::domain::hex::{encode_bytes_to_hex, spec_encode_hex};
use crate::domain::port_entity::{spec_wire_label, wire_label, PortType, WsEvent};
use crate::infrastructure::clients::{handed, ClientTable};
use vstd::string::{StrSliceExecFns, StringExecFns};

verus! {

/// Gauge of the clients currently connected over TCP, by port type.
pub const CLIENTS_OPEN_GAUGE: &'static str = "netlab_clients_open";

/// Counter of the bytes moved over TCP, by port type and direction.
pub const BYTES_COUNTER: &'static str = "netlab_bytes_total";

/// Something that happened on a connection, as its task saw it.
#[derive(Debug)]
pub enum ConnEvent {
    /// The application handed over bytes for the peer.
    Outbound(Vec<u8>),
    /// The application let go of the connection (`close_client` or the
    /// port's shutdown dropped the write channel).
    Released,
    /// Writing to the peer failed.
    WriteFailed,
    /// Flushing to the peer failed.
    FlushFailed,
    /// Bytes read from the peer; none at the end of the stream.
    Received(Vec<u8>),
    /// Reading from the peer failed, with the error's text.
    ReadFailed(String),
}

/// What the connection task does next.
#[derive(Debug)]
pub enum ConnAction {
    /// Write these bytes to the peer and flush.
    Write(Vec<u8>),
    /// Forward this event to the WebSocket session.
    Emit(WsEvent),
}

/// Why a connection ended.
#[derive(Debug, Clone, Copy, PartialEq, Eq, Structural)]
pub enum ExitReason {
    WriteError,
    FlushError,
    SenderDropped,
    PeerClosed,
    ReadError,
}

/// The text a reason is logged as.
pub open spec fn exit_label(r: ExitReason) -> Seq<char> {
    match r {
        ExitReason::WriteError => "write_error"@,
        ExitReason::FlushError => "flush_error"@,
        ExitReason::SenderDropped => "sender_dropped"@,
        ExitReason::PeerClosed => "peer_closed"@,
        ExitReason::ReadError => "read_error"@,
    }
}

impl ExitReason {
    /// The reason as it is logged.
    pub fn label(self) -> (l: &'static str)
        ensures
            l@ == exit_label(self),
    {
        match self {
            ExitReason::WriteError => "write_error",
            ExitReason::FlushError => "flush_error",
            ExitReason::SenderDropped => "sender_dropped",
            ExitReason::PeerClosed => "peer_closed",
            ExitReason::ReadError => "read_error",
        }
    }
}

/// The text of a read error on the connection from `addr`.
pub open spec fn read_error_text(addr: Seq<char>, err: Seq<char>) -> Seq<char> {
    addr + ": "@ + err
}

/// One live connection.
pub struct TcpConnection {
    client: ClientId,
    addr: String,
    kind: PortType,
    exit: Option<ExitReason>,
}

impl TcpConnection {
    /// The client this connection is.
    pub closed spec fn client(&self) -> ClientId {
        self.client
    }

    /// The peer's `ip:port`.
    pub closed spec fn addr(&self) -> Seq<char> {
        self.addr@
    }

    /// The port type (TCP or SSL-TCP).
    pub closed spec fn kind(&self) -> PortType {
        self.kind
    }

    /// Why the connection ended, once it has.
    pub closed spec fn exit(&self) -> Option<ExitReason> {
        self.exit
    }

    /// Start serving the client `client` at `addr`: it is registered in
    /// `clients` with its write channel `writer` (and fresh statistics), and
    /// the event announcing it is returned.
    pub fn open<W>(
        client: ClientId,
        addr: &str,
        kind: PortType,
        writer: W,
        clients: &mut ClientTable<W>,
    ) -> (r: (TcpConnection, WsEvent))
        requires
            old(clients).wf(),
        ensures
            r.0.client() == client,
            r.0.addr() == addr@,
            r.0.kind() == kind,
            r.0.exit() is None,
            r.1 matches WsEvent::Connected { client: c, addr: a } && c == client && a@ == addr@,
            final(clients).wf(),
            final(clients).clients().dom() == old(clients).clients().dom().insert(client.value()),
            final(clients).clients()[client.value()].route == writer,
            final(clients).clients()[client.value()].stat.is_fresh(),
            forall|k: u128|
                k != client.value() && #[trigger] old(clients).clients().contains_key(k)
                    ==> final(clients).clients()[k] == old(clients).clients()[k],
    {
        let ev = WsEvent::Connected { client, addr: String::from_str(addr) };
        gauge_increment(CLIENTS_OPEN_GAUGE, &[("port_type", wire_label(kind))]);
        clients.register(client, writer);
        (TcpConnection { client, addr: String::from_str(addr), kind, exit: None }, ev)
    }

    /// True once the connection has ended.
    pub fn is_finished(&self) -> (b: bool)
        ensures
            b == self.exit() is Some,
    {
        self.exit.is_some()
    }

    /// Why the connection ended, once it has.
    pub fn exit_reason(&self) -> (r: Option<ExitReason>)
        ensures
            r == self.exit(),
    {
        self.exit
    }

    /// What the task does after `ev`:
    /// * outbound bytes are written to the peer;
    /// * a dropped write channel, a failed write or flush, the end of the
    ///   stream and a failed read end the connection;
    /// * bytes read are counted for the client and forwarded, hex-encoded;
    /// * a failed read is reported as `addr: error` before the end.
    pub fn step<W>(&mut self, ev: ConnEvent, clients: &mut ClientTable<W>) -> (r: Option<ConnAction>)
        requires
            old(self).exit() is None,
            old(clients).wf(),
        ensures
            final(self).client() == old(self).client(),
            final(self).addr() == old(self).addr(),
            final(self).kind() == old(self).kind(),
            final(clients).wf(),
            match ev {
                ConnEvent::Received(b) => b@.len() > 0 ==> {
                    let id = old(self).client().value();
                    &&& final(clients).clients().dom() == old(clients).clients().dom()
                    &&& forall|k: u128|
                        k != id && #[trigger] old(clients).clients().contains_key(k)
                            ==> final(clients).clients()[k] == old(clients).clients()[k]
                    &&& old(clients).clients().contains_key(id) ==> {
                        &&& final(clients).clients()[id].route == old(clients).clients()[id].route
                        &&& final(clients).clients()[id].stat.counted_rx(
                            old(clients).clients()[id].stat,
                            b@.len() as u64,
                        )
                    }
                },
                _ => final(clients).clients() == old(clients).clients(),
            },
            match ev {
                ConnEvent::Outbound(d) => {
                    &&& r matches Some(ConnAction::Write(w)) && w@ == d@
                    &&& final(self).exit() is None
                },
                ConnEvent::Released => r is None && final(self).exit() == Some(
                    ExitReason::SenderDropped,
                ),
                ConnEvent::WriteFailed => r is None && final(self).exit() == Some(
                    ExitReason::WriteError,
                ),
                ConnEvent::FlushFailed => r is None && final(self).exit() == Some(
                    ExitReason::FlushError,
                ),
                ConnEvent::Received(b) => if b@.len() == 0 {
                    r is None && final(self).exit() == Some(ExitReason::PeerClosed)
                } else {
                    &&& r matches Some(ConnAction::Emit(e)) && read_step(*old(self), b@, *final(self), e)
                    &&& r matches Some(ConnAction::Emit(WsEvent::Data { client, data, hex }))
                        && client == old(self).client() && data@ == spec_encode_hex(b@) && hex
                    &&& final(self).exit() is None
                },
                ConnEvent::ReadFailed(e) => {
                    &&& r matches Some(ConnAction::Emit(WsEvent::Error { msg })) && msg@
                        == read_error_text(old(self).addr(), e@)
                    &&& final(self).exit() == Some(ExitReason::ReadError)
                },
            },
    {
        match ev {
            ConnEvent::Outbound(d) => Some(ConnAction::Write(d)),
            ConnEvent::Released => {
                self.exit = Some(ExitReason::SenderDropped);
                None
            },
            ConnEvent::WriteFailed => {
                self.exit = Some(ExitReason::WriteError);
                None
            },
            ConnEvent::FlushFailed => {
                self.exit = Some(ExitReason::FlushError);
                None
            },
            ConnEvent::Received(b) => {
                if b.len() == 0 {
                    self.exit = Some(ExitReason::PeerClosed);
                    None
                } else {
                    let n = b.len() as u64;
                    let data = encode_bytes_to_hex(b.as_slice());
                    clients.record_rx(self.client, n);
                    counter_increment(
                        BYTES_COUNTER,
                        &[("port_type", wire_label(self.kind)), ("dir", "rx")],
                        n,
                    );
                    Some(ConnAction::Emit(WsEvent::Data { client: self.client, data, hex: true }))
                }
            },
            ConnEvent::ReadFailed(e) => {
                let mut msg = String::from_str(self.addr.as_str());
                msg.append(": ");
                msg.append(e.as_str());
                proof {
                    reveal_strlit(": ");
                }
                self.exit = Some(ExitReason::ReadError);
                Some(ConnAction::Emit(WsEvent::Error { msg }))
            },
        }
    }

    /// End the connection: the client is forgotten by `clients`, and the
    /// event saying it left is returned.
    pub fn close<W>(self, clients: &mut ClientTable<W>) -> (r: WsEvent)
        requires
            old(clients).wf(),
        ensures
            r matches WsEvent::Closed { client } && client == self.client(),
            final(clients).wf(),
            final(clients).clients() == old(clients).clients().remove(self.client().value()),
    {
        let _ = clients.remove(self.client);
        gauge_decrement(CLIENTS_OPEN_GAUGE, &[("port_type", wire_label(self.kind))]);
        WsEvent::Closed { client: self.client }
    }
}

/// A step on `chunk`, read from the peer, took the connection from
/// `before` to `after` and forwarded `ev`: the chunk, hex-encoded, for the
/// connection's client, which stays open and stays the same client.
pub open spec fn read_step(before: TcpConnection, chunk: Seq<u8>, after: TcpConnection, ev: WsEvent) -> bool {
    &&& chunk.len() > 0
    &&& after.client() == before.client()
    &&& after.exit() is None
    &&& ev matches WsEvent::Data { client, data, hex } && client == before.client() && data@
        == spec_encode_hex(chunk) && hex
}

/// The events of a whole connection whose peer sends the chunks `chunks`
/// and then closes: `open` announces the client of `conns[0]`; the steps on
/// the chunks take `conns[k]` to `conns[k + 1]` and forward `data[k]`;
/// `close` of the last connection gives `closed`. Then every data event is
/// the hex of its chunk, in order, for the announced client, and the
/// closing event names that client too.
pub proof fn lemma_connection_events(
    opened: WsEvent,
    conns: Seq<TcpConnection>,
    chunks: Seq<Seq<u8>>,
    data: Seq<WsEvent>,
    closed: WsEvent,
)
    requires
        conns.len() == chunks.len() + 1,
        data.len() == chunks.len(),
        opened matches WsEvent::Connected { client, .. } && client == conns[0].client(),
        forall|k: int| 0 <= k < chunks.len() ==> #[trigger] read_step(conns[k], chunks[k], conns[k + 1], data[k]),
        closed matches WsEvent::Closed { client } && client == conns.last().client(),
    ensures
        ({
            let id = opened->Connected_client;
            &&& forall|k: int|
                0 <= k < data.len() ==> (#[trigger] data[k] matches WsEvent::Data { client, data: d, hex }
                    && client == id && d@ == spec_encode_hex(chunks[k]) && hex)
            &&& closed matches WsEvent::Closed { client } && client == id
        }),
    decreases chunks.len(),
{
    if chunks.len() > 0 {
        let n = chunks.len() - 1;
        lemma_connection_events(
            opened,
            conns.take(n + 1),
            chunks.take(n),
            data.take(n),
            WsEvent::Closed { client: conns[n].client() },
        );
        assert(read_step(conns[n], chunks[n], conns[n + 1], data[n]));
        assert forall|k: int| 0 <= k < data.len() implies (#[trigger] data[k] matches WsEvent::Data {
            client,
            data: d,
            hex,
        } && client == opened->Connected_client && d@ == spec_encode_hex(chunks[k]) && hex) by {
            if k < n {
                assert(data.take(n)[k] == data[k]);
                assert(chunks.take(n)[k] == chunks[k]);
            }
        }
    }
}

/// `channel_send` was called with `tx` and bytes equal to `data`, and
/// reported `sent`.
pub closed spec fn handed_to_channel(
    tx: tokio::sync::mpsc::UnboundedSender<Vec<u8>>,
    data: Seq<u8>,
    sent: bool,
) -> bool {
    handed(tx, data, sent)
}

/// One send to `client` of `data`, with outcome `ok`, took the table from
/// `old` to `new`: a connected client's channel was handed `data` exactly
/// once (and nothing else); an unknown client's was handed nothing.
pub open spec fn handed_once<W>(old: ClientTable<W>, new: ClientTable<W>, client: u128, data: Seq<u8>, ok: bool) -> bool {
    if old.clients().contains_key(client) {
        new.deliveries() == old.deliveries().push((client, data, ok))
    } else {
        new.deliveries() == old.deliveries() && !ok
    }
}

/// Over any run of sends to connected clients, the channels were handed
/// exactly the data of the sends, one message each, in order, with the
/// sends' outcomes.
pub proof fn lemma_sends_hand_each_message_once<W>(
    tables: Seq<ClientTable<W>>,
    clients: Seq<u128>,
    datas: Seq<Seq<u8>>,
    oks: Seq<bool>,
)
    requires
        tables.len() == clients.len() + 1,
        datas.len() == clients.len(),
        oks.len() == clients.len(),
        forall|k: int| 0 <= k < clients.len() ==> tables[k].clients().contains_key(#[trigger] clients[k]),
        forall|k: int|
            0 <= k < clients.len() ==> #[trigger] handed_once(tables[k], tables[k + 1], clients[k], datas[k], oks[k]),
    ensures
        tables.last().deliveries() == tables[0].deliveries() + Seq::new(
            clients.len(),
            |k: int| (clients[k], datas[k], oks[k]),
        ),
    decreases clients.len(),
{
    let n = clients.len();
    if n == 0 {
        assert(tables[0].deliveries() + Seq::new(0, |k: int| (clients[k], datas[k], oks[k])) =~= tables[0].deliveries());
    } else {
        let m = (n - 1) as int;
        lemma_sends_hand_each_message_once(tables.take(m + 1), clients.take(m), datas.take(m), oks.take(m));
        assert(tables.take(m + 1).last() == tables[m]);
        assert(handed_once(tables[m], tables[m + 1], clients[m], datas[m], oks[m]));
        assert(tables[0].deliveries() + Seq::new(n, |k: int| (clients[k], datas[k], oks[k])) =~= (tables[0].deliveries()
            + Seq::new(m as nat, |k: int| (clients.take(m)[k], datas.take(m)[k], oks.take(m)[k]))).push((clients[m], datas[m], oks[m])));
    }
}

/// Hand `data` to the connection task of `client`, and count it as sent.
/// A client the port does not know, or whose task has already ended, is
/// an [`AppError::UnknownClient`] naming it. For a known client the bytes
/// go to its channel and the outcome is the channel's answer; whether its
/// task is still running depends on the task's timing, so success is not
/// promised for it.
pub fn send_to_client(
    clients: &mut ClientTable<tokio::sync::mpsc::UnboundedSender<Vec<u8>>>,
    kind: PortType,
    client: ClientId,
    data: &[u8],
) -> (r: Result<(), AppError>)
    requires
        old(clients).wf(),
    ensures
        final(clients).wf(),
        final(clients).clients().dom() == old(clients).clients().dom(),
        !old(clients).clients().contains_key(client.value()) ==> r is Err,
        r is Err ==> (r matches Err(AppError::UnknownClient(m)) && m@ == uuid_text(
            client.value(),
        )),
        r is Err ==> final(clients).clients() == old(clients).clients(),
        r is Ok ==> old(clients).clients().contains_key(client.value())
            && final(clients).clients()[client.value()].stat.counted_tx(
            old(clients).clients()[client.value()].stat,
            data@.len() as u64,
        ),
        forall|k: u128|
            k != client.value() && #[trigger] old(clients).clients().contains_key(k)
                ==> final(clients).clients()[k] == old(clients).clients()[k],
        old(clients).clients().contains_key(client.value()) ==> handed_to_channel(
            old(clients).clients()[client.value()].route,
            data@,
            r is Ok,
        ),
        handed_once(*old(clients), *final(clients), client.value(), data@, r is Ok),
{
    let sent = match clients.deliver(client, data) {
        Some(sent) => sent,
        None => {
            return Err(AppError::UnknownClient(client.to_string()));
        },
    };
    if !sent {
        return Err(AppError::UnknownClient(client.to_string()));
    }
    let n = data.len() as u64;
    clients.record_tx(client, n);
    counter_increment(BYTES_COUNTER, &[("port_type", wire_label(kind)), ("dir", "tx")], n);
    Ok(())
}

/// Forget `client` (which ends its connection task: its write channel is
/// dropped). A client the port does not know is an
/// [`AppError::UnknownClient`] naming it.
pub fn close_client<W>(clients: &mut ClientTable<W>, client: ClientId) -> (r: Result<(), AppError>)
    requires
        old(clients).wf(),
    ensures
        final(clients).wf(),
        final(clients).clients() == old(clients).clients().remove(client.value()),
        r is Ok <==> old(clients).clients().contains_key(client.value()),
        r is Err ==> (r matches Err(AppError::UnknownClient(m)) && m@ == uuid_text(
            client.value(),
        )),
{
    match clients.remove(client) {
        Some(_) => Ok(()),
        None => Err(AppError::UnknownClient(client.to_string())),
    }
}

/// The event reporting a failed TLS handshake.
pub fn handshake_failed(err: &str) -> (r: WsEvent)
    ensures
        r matches WsEvent::Error { msg } && msg@ == "tls handshake: "@ + err@,
{
    let mut msg = String::from_str("tls handshake: ");
    msg.append(err);
    WsEvent::Error { msg }
}

/// The port type of a TCP port, by whether it speaks TLS.
pub fn tcp_port_type(use_tls: bool) -> (t: PortType)
    ensures
        t == (if use_tls { PortType::SslTcp } else { PortType::Tcp }),
{
    if use_tls {
        PortType::SslTcp
    } else {
        PortType::Tcp
    }
}

} // verus!
