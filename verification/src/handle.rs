//! Control state of the network-node handle: the receiver/kill lifecycle,
//! handler registration, the connect-wait loop decision, and the garbage
//! collection of notification listeners. The swarm, channels and timers live
//! outside the library; these functions decide, the outside performs.

use vstd::prelude::*;

verus! {

/// Errors surfaced when interacting with the node handle.
#[derive(Clone, Copy, Debug, PartialEq, Eq, Structural)]
pub enum NetworkNodeHandleError {
    /// Underlying swarm failure
    Network,
    /// Failure to serialize a message
    Serialization,
    /// Failure to deserialize a message
    Deserialization,
    /// Control channel to the swarm is closed
    Send,
    /// Reply channel dropped before the answer arrived
    Recv,
    /// Invalid node configuration at build time
    NodeConfig,
    /// A deadline elapsed
    Timeout,
    /// Could not connect to enough peers in time
    ConnectTimeout,
    /// Insufficient matching replicas or a cancelled DHT request
    Dht,
    /// The node was already killed when a second shutdown was attempted
    CantKillTwice,
    /// The node has been killed
    Killed,
    /// The receiver was unable to receive a new message
    ReceiverEnded,
    /// No known topic matches
    NoSuchTopic,
}

/// Lifecycle state of the handle's event receiver and kill switch.
#[derive(Clone, Copy, Debug, PartialEq, Eq, Structural)]
pub struct HandleState {
    /// Whether a handler loop has been registered
    pub receiver_spawned: bool,
    /// Whether the kill signal has fired
    pub killed: bool,
    /// Whether the kill switch is still armed (not yet consumed)
    pub kill_switch_armed: bool,
    /// Whether the receiver-side kill endpoint is still armed
    pub recv_kill_armed: bool,
}

impl HandleState {
    /// A fresh handle: nothing spawned, nothing killed, both kill endpoints
    /// armed.
    pub fn new() -> (r: Self)
        ensures
            !r.receiver_spawned,
            !r.killed,
            r.kill_switch_armed,
            r.recv_kill_armed,
    {
        HandleState {
            receiver_spawned: false,
            killed: false,
            kill_switch_armed: true,
            recv_kill_armed: true,
        }
    }

    /// Register the one handler loop. Exactly one registration succeeds; a
    /// second one is a programming error and is refused.
    pub fn register_handler(&mut self) -> (ok: bool)
        ensures
            ok == !old(self).receiver_spawned,
            final(self).receiver_spawned,
            final(self).killed == old(self).killed,
            final(self).kill_switch_armed == old(self).kill_switch_armed,
            final(self).recv_kill_armed == old(self).recv_kill_armed,
    {
        let was = self.receiver_spawned;
        self.receiver_spawned = true;
        !was
    }

    /// The handler loop consumes the receiver-side kill endpoint when it
    /// starts; a loop finding it already consumed must not run.
    pub fn take_recv_kill(&mut self) -> (ok: bool)
        ensures
            ok == old(self).recv_kill_armed,
            !final(self).recv_kill_armed,
            final(self).receiver_spawned == old(self).receiver_spawned,
            final(self).killed == old(self).killed,
            final(self).kill_switch_armed == old(self).kill_switch_armed,
    {
        let was = self.recv_kill_armed;
        self.recv_kill_armed = false;
        was
    }

    /// The kill signal fired: mark the handle killed. Idempotent.
    pub fn on_kill_signal(&mut self)
        ensures
            final(self).killed,
            final(self).receiver_spawned == old(self).receiver_spawned,
            final(self).kill_switch_armed == old(self).kill_switch_armed,
            final(self).recv_kill_armed == old(self).recv_kill_armed,
    {
        self.killed = true;
    }

    /// Shut down: consume the kill switch if it is still armed. Returns
    /// whether the kill signal must now be sent; when the switch was already
    /// consumed the caller only logs and continues.
    pub fn shutdown_step(&mut self) -> (send_kill: bool)
        ensures
            send_kill == old(self).kill_switch_armed,
            !final(self).kill_switch_armed,
            final(self).receiver_spawned == old(self).receiver_spawned,
            final(self).killed == old(self).killed,
            final(self).recv_kill_armed == old(self).recv_kill_armed,
    {
        let was = self.kill_switch_armed;
        self.kill_switch_armed = false;
        was
    }

    /// Whether a receive may proceed: after the kill signal every receive
    /// fails with `Killed`.
    pub fn recv_allowed(&self) -> (r: Result<(), NetworkNodeHandleError>)
        ensures
            self.killed ==> r == Result::<(), NetworkNodeHandleError>::Err(NetworkNodeHandleError::Killed),
            !self.killed ==> r == Result::<(), NetworkNodeHandleError>::Ok(()),
    {
        if self.killed {
            Err(NetworkNodeHandleError::Killed)
        } else {
            Ok(())
        }
    }
}

/// What the connect-wait loop does next.
#[derive(Clone, Copy, Debug, PartialEq, Eq, Structural)]
pub enum WaitDecision {
    /// Enough peers are connected
    Connected,
    /// The deadline elapsed first
    TimedOut,
    /// Keep polling
    Poll,
}

/// One round of waiting for peers: the deadline is checked first, then the
/// peer count.
pub fn wait_to_connect_step(
    num_connected: usize,
    num_peers: usize,
    elapsed_ms: u64,
    timeout_ms: u64,
) -> (r: WaitDecision)
    ensures
        elapsed_ms >= timeout_ms ==> r == WaitDecision::TimedOut,
        elapsed_ms < timeout_ms && num_connected >= num_peers ==> r == WaitDecision::Connected,
        elapsed_ms < timeout_ms && num_connected < num_peers ==> r == WaitDecision::Poll,
{
    if elapsed_ms >= timeout_ms {
        WaitDecision::TimedOut
    } else if num_connected >= num_peers {
        WaitDecision::Connected
    } else {
        WaitDecision::Poll
    }
}

/// The listeners that are kept: those whose delivery succeeded, in order.
pub open spec fn kept_listeners(ids: Seq<u64>, delivered: Seq<bool>) -> Seq<u64>
    decreases ids.len(),
{
    if ids.len() == 0 {
        Seq::empty()
    } else {
        let rest = kept_listeners(ids.drop_last(), delivered.drop_last());
        if delivered.last() {
            rest.push(ids.last())
        } else {
            rest
        }
    }
}

/// Garbage-collect notification listeners: given each listener and whether
/// the unit signal reached it, keep exactly those that were reachable,
/// preserving their order.
pub fn retain_delivered(ids: &Vec<u64>, delivered: &Vec<bool>) -> (r: Vec<u64>)
    requires
        ids@.len() == delivered@.len(),
    ensures
        r@ == kept_listeners(ids@, delivered@),
    {
    let mut r: Vec<u64> = Vec::new();
    let mut i: usize = 0;
    while i < ids.len()
        invariant
            i <= ids@.len(),
            ids@.len() == delivered@.len(),
            r@ == kept_listeners(ids@.take(i as int), delivered@.take(i as int)),
        decreases ids@.len() - i,
    {
        proof {
            assert(ids@.take(i + 1).drop_last() =~= ids@.take(i as int));
            assert(delivered@.take(i + 1).drop_last() =~= delivered@.take(i as int));
            assert(ids@.take(i + 1).last() == ids@[i as int]);
        }
        if delivered[i] {
            r.push(ids[i]);
        }
        i = i + 1;
    }
    proof {
        assert(ids@.take(ids@.len() as int) =~= ids@);
        assert(delivered@.take(ids@.len() as int) =~= delivered@);
    }
    r
}

/// Everything kept was reachable: no closed listener survives collection.
pub proof fn lemma_kept_listeners_sound(ids: Seq<u64>, delivered: Seq<bool>, x: u64)
    requires
        ids.len() == delivered.len(),
        kept_listeners(ids, delivered).contains(x),
    ensures
        exists|i: int| 0 <= i < ids.len() && ids[i] == x && delivered[i],
    decreases ids.len(),
{
    if ids.len() > 0 {
        let rest = kept_listeners(ids.drop_last(), delivered.drop_last());
        if delivered.last() && x == ids.last() {
            assert(ids[ids.len() - 1] == x && delivered[ids.len() - 1]);
        } else {
            assert(rest.contains(x)) by {
                if delivered.last() {
                    let j = choose|j: int| 0 <= j < rest.push(ids.last()).len() && rest.push(
                        ids.last(),
                    )[j] == x;
                    assert(rest[j] == x);
                }
            };
            lemma_kept_listeners_sound(ids.drop_last(), delivered.drop_last(), x);
        }
    }
}

} // verus!
