//! One connection's lifecycle and its multiplexed active loop.
//!
//! The session is a state machine; the shell owns the socket and the
//! timers, feeds every observation in as an event, and performs the
//! actions handed back.  While `Active`, three event sources compete:
//! inbound traffic, the keepalive tick, and the shutdown signal.  The
//! running flag is observed at the top of every iteration, so a
//! shutdown raised anywhere ends the loop within one iteration, with no
//! further sends.

use crate::config::Config;
use crate::decode;
use crate::store::{store_after, PriceStore};
use crate::types::{subscribe_json_spec, StockPrice, SubscribeMessage};
use vstd::prelude::*;
use vstd::string::StringExecFns;

verus! {

/// Lifecycle states of one connection.
#[derive(PartialEq, Eq, Structural, Clone, Copy, Debug)]
pub enum SessionState {
    Connecting,
    Subscribing,
    Active,
    Closing,
    Closed,
    Failed,
}

/// What the multiplexed loop can observe in one iteration.
pub enum ActiveEvent {
    /// An inbound text frame.
    Text(Vec<u8>),
    /// A keepalive probe from the peer, to be answered in kind.
    Ping(Vec<u8>),
    /// A clean close indication from the peer.
    PeerClose,
    /// The inbound stream ended without a close frame.
    StreamEnd,
    /// A transport-level read error.
    ReadError,
    /// The periodic keepalive tick.
    Tick,
    /// The shutdown signal.
    Shutdown,
}

/// What the shell must perform after an iteration.
pub enum Action {
    /// Answer a peer probe with this payload.
    SendPong(Vec<u8>),
    /// Send one keepalive frame; a send failure is a transport failure
    /// of the session (`on_send_failed`).
    SendPing,
    /// Hand one decoded sample — already written to the store — to the
    /// display consumer.
    Emit(StockPrice),
}

/// One connection session: its configuration and lifecycle state.
pub struct Session {
    pub config: Config,
    pub state: SessionState,
}

impl Session {
    pub fn new(config: Config) -> (r: Self)
        ensures
            r.state == SessionState::Connecting,
            r.config == config,
    {
        Session { config, state: SessionState::Connecting }
    }

    /// The physical connection is open.
    pub fn on_connected(&mut self)
        requires
            old(self).state == SessionState::Connecting,
        ensures
            final(self).state == SessionState::Subscribing,
            final(self).config == old(self).config,
    {
        self.state = SessionState::Subscribing;
    }

    /// Opening the physical connection failed.
    pub fn on_connect_failed(&mut self)
        requires
            old(self).state == SessionState::Connecting,
        ensures
            final(self).state == SessionState::Failed,
            final(self).config == old(self).config,
    {
        self.state = SessionState::Failed;
    }

    /// The subscribe requests to send, one per symbol, in order.
    pub fn subscribe_frames(&self) -> (r: Vec<Vec<u8>>)
        requires
            self.state == SessionState::Subscribing,
        ensures
            r@.len() == self.config.symbols@.len(),
            forall|i: int|
                0 <= i < r@.len() ==> #[trigger] r@[i]@ == subscribe_json_spec(
                    "subscribe"@,
                    self.config.symbols@[i]@,
                ),
    {
        let n = self.config.symbols.len();
        let mut r: Vec<Vec<u8>> = Vec::new();
        let mut i: usize = 0;
        while i < n
            invariant
                i <= n,
                n == self.config.symbols@.len(),
                r@.len() == i,
                forall|k: int|
                    0 <= k < i ==> #[trigger] r@[k]@ == subscribe_json_spec(
                        "subscribe"@,
                        self.config.symbols@[k]@,
                    ),
            decreases n - i,
    {
            let msg = SubscribeMessage {
                msg_type: String::from_str("subscribe"),
                symbol: self.config.symbols[i].clone(),
            };
            r.push(msg.to_json());
            i = i + 1;
        }
        r
    }

    /// Every subscribe request went out.
    pub fn on_subscribed(&mut self)
        requires
            old(self).state == SessionState::Subscribing,
        ensures
            final(self).state == SessionState::Active,
            final(self).config == old(self).config,
    {
        self.state = SessionState::Active;
    }

    /// A send failed, during the handshake or on a keepalive: a
    /// transport failure, fatal to this session.
    pub fn on_send_failed(&mut self)
        requires
            old(self).state == SessionState::Subscribing || old(self).state
                == SessionState::Active,
        ensures
            final(self).state == SessionState::Failed,
            final(self).config == old(self).config,
    {
        self.state = SessionState::Failed;
    }

    /// One iteration of the active multiplexed loop.
    ///
    /// The running flag is read first: once it is false, the session
    /// moves to `Closing` at once — nothing is sent, decoded or stored.
    /// Otherwise the event decides: a text frame's samples are written
    /// to the store (a frame outside the grammar contributes none, and
    /// the session stays `Active`); a peer probe is answered; a clean
    /// close or the end of the stream closes the session; a read error
    /// fails it; a tick asks for one keepalive send; the shutdown
    /// signal clears the flag and closes the session.
    pub fn on_event(
        &mut self,
        running: &mut bool,
        store: &mut PriceStore,
        ev: ActiveEvent,
        receipt_ms: i64,
    ) -> (actions: Vec<Action>)
        requires
            old(self).state == SessionState::Active,
            old(store).wf(),
            ev matches ActiveEvent::Text(t) ==> t@.len() < usize::MAX,
        ensures
            final(self).config == old(self).config,
            final(store).wf(),
            !*old(running) ==> final(self).state == SessionState::Closing && !*final(running)
                && final(store)@ == old(store)@ && actions@.len() == 0,
            *old(running) ==> match ev {
                ActiveEvent::Text(t) => final(self).state == SessionState::Active
                    && *final(running) && final(store)@ == store_after(
                    old(store)@,
                    decode::spec_frame_samples(t@, receipt_ms as int),
                ) && actions@.len() == decode::spec_frame_samples(t@, receipt_ms as int).len() && (
                forall|i: int|
                    #![trigger actions@[i]]
                    0 <= i < actions@.len() ==> (actions@[i] matches Action::Emit(p) && p@
                        == decode::spec_frame_samples(t@, receipt_ms as int)[i])),
                ActiveEvent::Ping(d) => final(self).state == SessionState::Active
                    && *final(running) && actions@ == seq![Action::SendPong(d)] && final(store)@
                    == old(store)@,
                ActiveEvent::PeerClose => final(self).state == SessionState::Closing
                    && *final(running) && actions@.len() == 0 && final(store)@ == old(store)@,
                ActiveEvent::StreamEnd => final(self).state == SessionState::Closing
                    && *final(running) && actions@.len() == 0 && final(store)@ == old(store)@,
                ActiveEvent::ReadError => final(self).state == SessionState::Failed
                    && *final(running) && actions@.len() == 0 && final(store)@ == old(store)@,
                ActiveEvent::Tick => final(self).state == SessionState::Active && *final(running)
                    && actions@ == seq![Action::SendPing] && final(store)@ == old(store)@,
                ActiveEvent::Shutdown => final(self).state == SessionState::Closing
                    && !*final(running) && actions@.len() == 0 && final(store)@ == old(store)@,
            },
    {
        let mut actions: Vec<Action> = Vec::new();
        if !*running {
            self.state = SessionState::Closing;
            return actions;
        }
        match ev {
            ActiveEvent::Text(t) => {
                let samples = decode::process_message(&t, receipt_ms);
                let ghost sm = decode::spec_frame_samples(t@, receipt_ms as int);
                proof {
                    assert forall|k: int| 0 <= k < samples@.len() implies #[trigger] samples@[k]@
                        == sm[k] by {
                        assert(samples@.map_values(|p: StockPrice| p@)[k] == samples@[k]@);
                    }
                }
                let n = samples.len();
                let mut i: usize = 0;
                while i < n
                    invariant
                        i <= n,
                        n == samples@.len() == sm.len(),
                        forall|k: int| 0 <= k < n ==> #[trigger] samples@[k]@ == sm[k],
                        actions@.len() == i,
                        forall|k: int|
                            #![trigger actions@[k]]
                            0 <= k < i ==> (actions@[k] matches Action::Emit(p) && p@ == sm[k]),
                    decreases n - i,
                {
                    let dup = samples[i].duplicate();
                    actions.push(Action::Emit(dup));
                    i = i + 1;
                }
                store.put_all(samples);
            },
            ActiveEvent::Ping(d) => {
                actions.push(Action::SendPong(d));
                proof {
                    assert(actions@ =~= seq![Action::SendPong(d)]);
                }
            },
            ActiveEvent::PeerClose => {
                self.state = SessionState::Closing;
            },
            ActiveEvent::StreamEnd => {
                self.state = SessionState::Closing;
            },
            ActiveEvent::ReadError => {
                self.state = SessionState::Failed;
            },
            ActiveEvent::Tick => {
                actions.push(Action::SendPing);
                proof {
                    assert(actions@ =~= seq![Action::SendPing]);
                }
            },
            ActiveEvent::Shutdown => {
                *running = false;
                self.state = SessionState::Closing;
            },
        }
        actions
    }

    /// Teardown after the loop exited cleanly — the shell stops the
    /// helper it spawned for this session — bringing the session to its
    /// final `Closed` state.
    pub fn finish_close(&mut self)
        requires
            old(self).state == SessionState::Closing,
        ensures
            final(self).state == SessionState::Closed,
            final(self).config == old(self).config,
    {
        self.state = SessionState::Closed;
    }
}

} // verus!
