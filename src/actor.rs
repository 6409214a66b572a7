use vstd::prelude::*;
use crate::store::{
    next_contents, result_of, run, CommandResult, Request, RequestModel, Store,
    StoreModel,
};

verus! {

#[verifier::external_type_specification]
#[verifier::external_body]
#[verifier::reject_recursive_types(T)]
pub struct ExOneshotSender<T>(tokio::sync::oneshot::Sender<T>);

/// The sending half of a single-use reply channel.
pub type Responder = tokio::sync::oneshot::Sender<CommandResult>;

/// Relies on tokio's `oneshot::Sender::send`: it consumes the sender, and
/// when the receiver is gone it hands the value back unchanged.
#[verifier::external_body]
fn deliver(resp: Responder, result: CommandResult) -> (r: Result<(), CommandResult>)
    ensures
        r is Err ==> r->Err_0 == result,
{
    resp.send(result)
}

/// Relies on `fastrand::u64` over an inclusive range: a value within the
/// bounds. It panics on an empty range, which `requires` leaves out.
#[verifier::external_body]
fn random_between(lo: u64, hi: u64) -> (r: u64)
    requires
        lo <= hi,
    ensures
        lo <= r <= hi,
{
    fastrand::u64(lo..=hi)
}

/// A request to the store actor, with the reply channel for its result.
pub enum Command {
    Get { key: String, resp: Responder },
    Put { key: String, val: String, resp: Responder },
}

impl Command {
    /// The request the command carries.
    pub open spec fn request(&self) -> RequestModel {
        match self {
            Command::Get { key, .. } => RequestModel::Get { key: key@ },
            Command::Put { key, val, .. } => RequestModel::Put { key: key@, val: val@ },
        }
    }

    /// The reply channel the command carries.
    pub open spec fn responder(&self) -> Responder {
        match self {
            Command::Get { resp, .. } => *resp,
            Command::Put { resp, .. } => *resp,
        }
    }

    /// Pairs a request with the reply channel for its result.
    pub fn new(req: Request, resp: Responder) -> (c: Command)
        ensures
            c.request() == req@,
            c.responder() == resp,
    {
        match req {
            Request::Get { key } => Command::Get { key, resp },
            Request::Put { key, val } => Command::Put { key, val, resp },
        }
    }

    /// Splits the command into its request and its reply channel.
    pub fn into_parts(self) -> (r: (Request, Responder))
        ensures
            r.0@ == self.request(),
            r.1 == self.responder(),
    {
        match self {
            Command::Get { key, resp } => (Request::Get { key }, resp),
            Command::Put { key, val, resp } => (Request::Put { key, val }, resp),
        }
    }
}

/// Simulated latency of the backing store, in milliseconds: a uniformly
/// drawn delay within a range for reads and another for writes.
#[derive(Clone, Copy, Debug, PartialEq, Eq, Structural)]
pub struct Latency {
    pub get_min_ms: u64,
    pub get_max_ms: u64,
    pub put_min_ms: u64,
    pub put_max_ms: u64,
}

impl Latency {
    /// Both ranges are non-empty.
    pub open spec fn wf(&self) -> bool {
        self.get_min_ms <= self.get_max_ms && self.put_min_ms <= self.put_max_ms
    }

    pub open spec fn get_range(&self) -> (u64, u64) {
        (self.get_min_ms, self.get_max_ms)
    }

    pub open spec fn put_range(&self) -> (u64, u64) {
        (self.put_min_ms, self.put_max_ms)
    }

    /// No simulated latency.
    pub fn none() -> (l: Latency)
        ensures
            l.wf(),
            l.get_range() == (0u64, 0u64),
            l.put_range() == (0u64, 0u64),
    {
        Latency { get_min_ms: 0, get_max_ms: 0, put_min_ms: 0, put_max_ms: 0 }
    }

    /// Reads take 10 to 100 ms, writes 50 to 200 ms.
    pub fn slow_store() -> (l: Latency)
        ensures
            l.wf(),
            l.get_range() == (10u64, 100u64),
            l.put_range() == (50u64, 200u64),
    {
        Latency { get_min_ms: 10, get_max_ms: 100, put_min_ms: 50, put_max_ms: 200 }
    }

    /// The given ranges, or `None` where one of them is empty.
    pub fn new(get_min_ms: u64, get_max_ms: u64, put_min_ms: u64, put_max_ms: u64) -> (r: Option<
        Latency,
    >)
        ensures
            r is Some <==> (get_min_ms <= get_max_ms && put_min_ms <= put_max_ms),
            r matches Some(l) ==> l.wf() && l.get_range() == (get_min_ms, get_max_ms)
                && l.put_range() == (put_min_ms, put_max_ms),
    {
        if get_min_ms <= get_max_ms && put_min_ms <= put_max_ms {
            Some(Latency { get_min_ms, get_max_ms, put_min_ms, put_max_ms })
        } else {
            None
        }
    }

    /// A delay drawn for `c`: within the read range for a `Get`, within the
    /// write range for a `Put`.
    pub fn delay_ms(&self, c: &Command) -> (d: u64)
        requires
            self.wf(),
        ensures
            c.request() is Get ==> self.get_min_ms <= d <= self.get_max_ms,
            c.request() is Put ==> self.put_min_ms <= d <= self.put_max_ms,
    {
        match c {
            Command::Get { .. } => random_between(self.get_min_ms, self.get_max_ms),
            Command::Put { .. } => random_between(self.put_min_ms, self.put_max_ms),
        }
    }
}

/// Sends `result` on the reply channel `resp`, which the send consumes, so
/// that no channel carries two results. When the requester has gone, the
/// result comes back in `Err`.
pub fn respond(resp: Responder, result: CommandResult) -> (r: Result<(), CommandResult>)
    ensures
        r matches Err(back) ==> back == result,
{
    deliver(resp, result)
}

/// Processes one command on the store: the result that its reply channel
/// is owed, and that channel.
pub fn process_command(c: Command, db: &mut Store) -> (r: (Responder, CommandResult))
    requires
        old(db).wf(),
    ensures
        final(db).wf(),
        final(db)@ == next_contents(old(db)@, c.request()),
        r.0 == c.responder(),
        r.1@ == result_of(old(db)@, c.request()),
{
    let (req, resp) = c.into_parts();
    let result = db.apply(req);
    (resp, result)
}

/// Processes one command on the store and sends its result, once, on the
/// command's reply channel, which the send consumes. A requester that has
/// gone is no error: the result comes back in `Err`.
pub fn handle_command(c: Command, db: &mut Store) -> (r: Result<(), CommandResult>)
    requires
        old(db).wf(),
    ensures
        final(db).wf(),
        final(db)@ == next_contents(old(db)@, c.request()),
        r matches Err(back) ==> back@ == result_of(old(db)@, c.request()),
{
    let (resp, result) = process_command(c, db);
    respond(resp, result)
}

/// What woke the actor loop.
pub enum ActorEvent {
    /// The shutdown signal fired.
    Cancelled,
    /// A command was taken off the command channel.
    Received(Command),
    /// Every sender of the command channel has gone.
    ChannelClosed,
}

/// What the actor loop does next.
pub enum ActorAction {
    /// A command was processed: send `result` on `resp`, the command's own
    /// reply channel, with `respond`.
    Reply { resp: Responder, result: CommandResult },
    /// The actor had stopped: the command was dropped unanswered, and with
    /// it its reply channel, whose receiver then sees it closed.
    Dropped,
    /// Leave the loop; when `close_channel` holds, close the command
    /// channel first so that no sender waits on it any longer.
    Stop { close_channel: bool },
}

/// The store actor: sole owner of the store, taking commands strictly one
/// at a time until the channel closes or the shutdown signal fires.
/// Commands still queued at shutdown are dropped, each reply channel then
/// closing without a result.
pub struct StoreActor {
    db: Store,
    running: bool,
    log: Ghost<Seq<RequestModel>>,
}

impl StoreActor {
    /// The store is well formed and holds exactly what the processed
    /// requests, in order, left in an empty store.
    pub closed spec fn wf(&self) -> bool {
        self.db.wf() && self.db@ == run(Map::empty(), self.log@)
    }

    /// The current contents of the store.
    pub closed spec fn contents(&self) -> StoreModel {
        self.db@
    }

    /// The requests processed so far, in the order they were taken.
    pub closed spec fn processed(&self) -> Seq<RequestModel> {
        self.log@
    }

    pub closed spec fn spec_running(&self) -> bool {
        self.running
    }

    /// The contents are those that the processed requests leave.
    pub proof fn lemma_contents(&self)
        requires
            self.wf(),
        ensures
            self.contents() == run(Map::empty(), self.processed()),
    {
    }

    /// A running actor with an empty store.
    pub fn new() -> (a: StoreActor)
        ensures
            a.wf(),
            a.spec_running(),
            a.processed() == Seq::<RequestModel>::empty(),
            a.contents() == Map::<Seq<char>, Seq<char>>::empty(),
    {
        StoreActor { db: Store::new(), running: true, log: Ghost(Seq::empty()) }
    }

    /// Whether the loop is to go on.
    pub fn is_running(&self) -> (r: bool)
        ensures
            r == self.spec_running(),
    {
        self.running
    }

    /// Takes one event. A received command is processed on the store, and
    /// handed back with its own reply channel and the result it is owed, for
    /// the loop to send; each received command thus yields exactly one reply
    /// or, once the actor has stopped, none and a closed channel.
    /// Cancellation or a closed channel stops the actor.
    pub fn on_event(&mut self, ev: ActorEvent) -> (r: ActorAction)
        requires
            old(self).wf(),
        ensures
            final(self).wf(),
            !old(self).spec_running() ==> {
                &&& final(self).spec_running() == false
                &&& final(self).processed() == old(self).processed()
                &&& match ev {
                    ActorEvent::Received(_) => r is Dropped,
                    _ => r matches ActorAction::Stop { close_channel } && !close_channel,
                }
            },
            old(self).spec_running() ==> match ev {
                ActorEvent::Cancelled => {
                    &&& !final(self).spec_running()
                    &&& final(self).processed() == old(self).processed()
                    &&& r matches ActorAction::Stop { close_channel } && close_channel
                },
                ActorEvent::ChannelClosed => {
                    &&& !final(self).spec_running()
                    &&& final(self).processed() == old(self).processed()
                    &&& r matches ActorAction::Stop { close_channel } && !close_channel
                },
                ActorEvent::Received(c) => {
                    &&& final(self).spec_running()
                    &&& final(self).processed() == old(self).processed().push(c.request())
                    &&& final(self).contents() == next_contents(old(self).contents(), c.request())
                    &&& r matches ActorAction::Reply { resp, result } && resp == c.responder()
                        && result@ == result_of(old(self).contents(), c.request())
                },
            },
    {
        if !self.running {
            return match ev {
                ActorEvent::Received(_) => ActorAction::Dropped,
                _ => ActorAction::Stop { close_channel: false },
            };
        }
        match ev {
            ActorEvent::Cancelled => {
                self.running = false;
                ActorAction::Stop { close_channel: true }
            },
            ActorEvent::ChannelClosed => {
                self.running = false;
                ActorAction::Stop { close_channel: false }
            },
            ActorEvent::Received(c) => {
                let ghost req = c.request();
                let ghost pre = self.log@;
                let (resp, result) = process_command(c, &mut self.db);
                self.log = Ghost(pre.push(req));
                assert(self.log@.drop_last() =~= pre);
                ActorAction::Reply { resp, result }
            },
        }
    }
}

} // verus!
