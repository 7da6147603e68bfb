//! The sockets the client processor keeps open to its backends.
use std::collections::HashSet;

use crate::client::proc::{ClientView, HyperClientSettings};
use crate::io::{seq_view, Connection, TargetSetting, TargetView};
use vstd::prelude::*;

verus! {

broadcast use vstd::std_specs::hash::group_hash_axioms;

/// One socket the processor wants to keep open to a backend.
#[derive(Debug)]
pub struct SocketHandle {
    /// Slot of the socket, stable across its reconnections.
    pub id: u32,
    /// Backend the socket connects to.
    pub target: TargetSetting,
    /// Position of the socket among the ones of its backend.
    pub index: u32,
    /// Service the socket advertises.
    pub service_name: String,
}

/// What a socket handle stands for.
pub struct HandleView {
    /// Slot of the socket.
    pub id: u32,
    /// Backend the socket connects to.
    pub target: TargetView,
    /// Position of the socket among the ones of its backend.
    pub index: u32,
    /// Service the socket advertises.
    pub service_name: Seq<char>,
}

impl View for SocketHandle {
    type V = HandleView;

    open spec fn view(&self) -> HandleView {
        HandleView {
            id: self.id,
            target: self.target@,
            index: self.index,
            service_name: self.service_name@,
        }
    }
}

/// The first backend that opens a connection.
pub open spec fn first_backend(
    backends: Seq<TargetView>,
    connection: Connection,
) -> Option<TargetView>
    decreases backends.len(),
{
    if backends.len() == 0 {
        None
    } else {
        match first_backend(backends.drop_last(), connection) {
            Some(backend) => Some(backend),
            None => if backends.last().connection == connection {
                Some(backends.last())
            } else {
                None
            },
        }
    }
}

impl HandleView {
    /// The backend this socket connects to, when the settings still describe the socket.
    pub open spec fn backend(self, settings: ClientView) -> Option<TargetView> {
        if self.index >= settings.sockets() || self.service_name != settings.service_name {
            None
        } else {
            first_backend(settings.backends, self.target.connection)
        }
    }

    /// Whether this is the socket at a position of a backend.
    pub open spec fn fills(self, settings: ClientView, slot: (int, int)) -> bool {
        &&& self.index == slot.1
        &&& self.target.connection == settings.backends[slot.0].connection
        &&& self.service_name == settings.service_name
    }
}

impl SocketHandle {
    /// Whether two targets open the same connection. The time given to it is not part of it, so
    /// that a change of it reaches the sockets there are instead of replacing them.
    pub fn same_connection(target: &TargetSetting, other: &TargetSetting) -> (r: bool)
        ensures
            r == (target@.connection == other@.connection),
    {
        target.same_connection(other)
    }

    /// The backend of the settings this socket connects to, if they still describe the socket.
    pub fn matching_backend<'s>(&self, settings: &'s HyperClientSettings) -> (r: Option<
        &'s TargetSetting,
    >)
        ensures
            match r {
                Some(backend) => self@.backend(settings@) == Some(backend@),
                None => self@.backend(settings@) is None,
            },
    {
        if self.index >= settings.nb_socket() || self.service_name != settings.service_name {
            return None;
        }
        let mut i: usize = 0;
        while i < settings.backends.len()
            invariant
                i <= settings.backends.len(),
                self.index < settings@.sockets(),
                self.service_name@ == settings@.service_name,
                first_backend(settings@.backends.take(i as int), self@.target.connection) is None,
            decreases settings.backends.len() - i,
        {
            proof {
                lemma_first_backend_step(settings@.backends, self@.target.connection, i as int);
            }
            if Self::same_connection(&settings.backends[i], &self.target) {
                proof {
                    lemma_first_backend_stays(
                        settings@.backends,
                        self@.target.connection,
                        i + 1,
                        settings@.backends.len() as int,
                    );
                    assert(settings@.backends.take(settings@.backends.len() as int)
                        =~= settings@.backends);
                }
                return Some(&settings.backends[i]);
            }
            i += 1;
        }
        assert(settings@.backends.take(i as int) =~= settings@.backends);
        None
    }
}

/// One more backend is only looked at when the ones before it do not match.
proof fn lemma_first_backend_step(backends: Seq<TargetView>, connection: Connection, i: int)
    requires
        0 <= i < backends.len(),
    ensures
        first_backend(backends.take(i + 1), connection) == match first_backend(
            backends.take(i),
            connection,
        ) {
            Some(backend) => Some(backend),
            None => if backends[i].connection == connection {
                Some(backends[i])
            } else {
                None
            },
        },
{
    assert(backends.take(i + 1).drop_last() =~= backends.take(i));
}

/// A match among the first backends is the match among all of them.
proof fn lemma_first_backend_stays(
    backends: Seq<TargetView>,
    connection: Connection,
    i: int,
    n: int,
)
    requires
        0 <= i <= n <= backends.len(),
        first_backend(backends.take(i), connection) is Some,
    ensures
        first_backend(backends.take(n), connection) == first_backend(backends.take(i), connection),
    decreases n,
{
    if i < n {
        lemma_first_backend_stays(backends, connection, i, n - 1);
        lemma_first_backend_step(backends, connection, n - 1);
    }
}

/// What the processor asks of its sockets.
#[derive(Debug)]
pub enum SocketAction {
    /// Hand new times to a socket that stays, in milliseconds.
    Update { id: u32, connect_timeout: u64, http_timeout: u64 },
    /// Tell a socket to stop: it answers what it has in flight and does not come back.
    Stop { id: u32 },
    /// Open a slot and start the socket that serves it.
    Spawn { id: u32, target: TargetSetting, service_name: String, http_timeout: u64 },
    /// Start the socket of a slot again.
    Restart { id: u32 },
    /// Let go of a socket, answering what still reaches it.
    Retire { id: u32 },
}

/// What an action stands for.
pub enum ActionView {
    /// Hand new times to a socket that stays.
    Update { id: u32, connect_timeout: u64, http_timeout: u64 },
    /// Tell a socket to stop.
    Stop { id: u32 },
    /// Open a slot and start the socket that serves it.
    Spawn { id: u32, target: TargetView, service_name: Seq<char>, http_timeout: u64 },
    /// Start the socket of a slot again.
    Restart { id: u32 },
    /// Let go of a socket.
    Retire { id: u32 },
}

impl View for SocketAction {
    type V = ActionView;

    open spec fn view(&self) -> ActionView {
        match *self {
            SocketAction::Update { id, connect_timeout, http_timeout } => ActionView::Update {
                id,
                connect_timeout,
                http_timeout,
            },
            SocketAction::Stop { id } => ActionView::Stop { id },
            SocketAction::Spawn { id, target, service_name, http_timeout } => ActionView::Spawn {
                id,
                target: target@,
                service_name: service_name@,
                http_timeout,
            },
            SocketAction::Restart { id } => ActionView::Restart { id },
            SocketAction::Retire { id } => ActionView::Retire { id },
        }
    }
}

/// The positions the settings describe: each backend in turn, and each socket of it.
pub open spec fn slots(backends: nat, sockets: nat) -> Seq<(int, int)>
    decreases backends,
{
    if backends == 0 {
        Seq::empty()
    } else {
        slots((backends - 1) as nat, sockets) + Seq::new(sockets, |i: int| (backends - 1, i))
    }
}

/// Whether a backend is the first of the settings to open its connection.
pub open spec fn is_first(settings: ClientView, backend: int) -> bool {
    forall|j: int|
        0 <= j < backend ==> (#[trigger] settings.backends[j]).connection
            != settings.backends[backend].connection
}

/// Whether one of the sockets is at a position.
pub open spec fn is_filled(settings: ClientView, handles: Seq<HandleView>, slot: (int, int)) -> bool {
    exists|h: int| 0 <= h < handles.len() && (#[trigger] handles[h]).fills(settings, slot)
}

/// The positions that no socket fills, without repeating the ones of a backend that is there twice.
pub open spec fn missing(settings: ClientView, handles: Seq<HandleView>) -> Seq<(int, int)> {
    slots(settings.backends.len(), settings.sockets() as nat).filter(
        |slot: (int, int)| is_first(settings, slot.0) && !is_filled(settings, handles, slot),
    )
}

/// The socket opened at a position.
pub open spec fn opened_at(settings: ClientView, id: int, slot: (int, int)) -> HandleView {
    HandleView {
        id: id as u32,
        target: settings.backends[slot.0],
        index: slot.1 as u32,
        service_name: settings.service_name,
    }
}

/// The sockets opened at some positions, each under the next slot id.
pub open spec fn opened(settings: ClientView, next_id: u32, at: Seq<(int, int)>) -> Seq<HandleView> {
    at.map(|k: int, slot: (int, int)| opened_at(settings, next_id + k, slot))
}

/// The sockets that stay under new settings.
pub open spec fn kept(settings: ClientView, handles: Seq<HandleView>) -> Seq<HandleView> {
    handles.filter(|handle: HandleView| handle.backend(settings) is Some)
}

/// What is asked of a socket there is: to take the times of its backend, or to stop when nothing
/// describes it anymore.
pub open spec fn retained(settings: ClientView, handle: HandleView) -> ActionView {
    match handle.backend(settings) {
        Some(backend) => ActionView::Update {
            id: handle.id,
            connect_timeout: backend.connect_timeout,
            http_timeout: settings.http_timeout,
        },
        None => ActionView::Stop { id: handle.id },
    }
}

/// What is asked to open a socket.
pub open spec fn spawned(settings: ClientView, handle: HandleView) -> ActionView {
    ActionView::Spawn {
        id: handle.id,
        target: handle.target,
        service_name: handle.service_name,
        http_timeout: settings.http_timeout,
    }
}

/// What the pool stands for.
pub struct PoolView {
    /// Slots whose socket is running.
    pub tasks: Set<u32>,
    /// The sockets that should exist.
    pub handles: Seq<HandleView>,
    /// Slot of the next socket to open.
    pub next_id: u32,
}

/// The slots from one id on.
pub open spec fn fresh(next_id: u32, count: nat) -> Set<u32> {
    Set::new(|id: u32| next_id <= id < next_id + count)
}

impl HandleView {
    /// Whether two sockets are at the same position of the same backend.
    pub open spec fn same_slot(self, other: HandleView) -> bool {
        self.index == other.index && self.target.connection == other.target.connection
    }
}

impl PoolView {
    /// No slot id is used twice, no position of a backend has two sockets, and every slot id that
    /// was given is behind the next one.
    pub open spec fn wf(self) -> bool {
        &&& 1 <= self.next_id
        &&& forall|i: int|
            0 <= i < self.handles.len() ==> 1 <= (#[trigger] self.handles[i]).id < self.next_id
        &&& forall|i: int, j: int|
            0 <= i < j < self.handles.len() ==> (#[trigger] self.handles[i]).id != (
            #[trigger] self.handles[j]).id && !self.handles[i].same_slot(self.handles[j])
        &&& forall|id: u32| #[trigger] self.tasks.contains(id) ==> id < self.next_id
    }

    /// Every socket that should exist is running.
    pub open spec fn is_staffed(self) -> bool {
        forall|i: int|
            0 <= i < self.handles.len() ==> self.tasks.contains((#[trigger] self.handles[i]).id)
    }

    /// The pool holds a socket for every position the settings describe, and no other.
    pub open spec fn is_aligned(self, settings: ClientView) -> bool {
        &&& forall|i: int|
            0 <= i < self.handles.len() ==> (#[trigger] self.handles[i]).backend(settings) is Some
        &&& forall|backend: int, index: int|
            0 <= backend < settings.backends.len() && 0 <= index < settings.sockets()
                ==> #[trigger] is_filled(settings, self.handles, (backend, index))
    }

    /// A pool without socket.
    pub open spec fn empty() -> PoolView {
        PoolView { tasks: Set::empty(), handles: Seq::empty(), next_id: 1 }
    }

    /// There are slot ids left for the sockets the settings ask for.
    pub open spec fn has_room(self, settings: ClientView) -> bool {
        self.next_id + missing(settings, self.handles).len() <= u32::MAX
    }

    /// The next socket to open, on a backend and at a position of it.
    pub open spec fn next_socket(
        self,
        target: TargetView,
        index: u32,
        settings: ClientView,
    ) -> HandleView {
        HandleView { id: self.next_id, target, index, service_name: settings.service_name }
    }

    /// The pool with one more socket, running.
    pub open spec fn with_socket(
        self,
        target: TargetView,
        index: u32,
        settings: ClientView,
    ) -> PoolView {
        PoolView {
            tasks: self.tasks.insert(self.next_id),
            handles: self.handles.push(self.next_socket(target, index, settings)),
            next_id: (self.next_id + 1) as u32,
        }
    }

    /// The pool brought in line with the settings.
    pub open spec fn aligned(self, settings: ClientView) -> PoolView {
        let at = missing(settings, self.handles);
        PoolView {
            tasks: self.tasks.union(fresh(self.next_id, at.len())),
            handles: kept(settings, self.handles) + opened(settings, self.next_id, at),
            next_id: (self.next_id + at.len()) as u32,
        }
    }

    /// What is asked of the sockets to bring the pool in line with the settings.
    pub open spec fn align_actions(self, settings: ClientView) -> Seq<ActionView> {
        self.handles.map_values(|handle: HandleView| retained(settings, handle)) + opened(
            settings,
            self.next_id,
            missing(settings, self.handles),
        ).map_values(|handle: HandleView| spawned(settings, handle))
    }
}

/// The sockets the processor keeps open to its backends.
#[derive(Debug)]
pub struct SocketPool {
    tasks: HashSet<u32>,
    handles: Vec<SocketHandle>,
    next_id: u32,
}

impl View for SocketPool {
    type V = PoolView;

    closed spec fn view(&self) -> PoolView {
        PoolView {
            tasks: self.tasks@,
            handles: seq_view(self.handles@),
            next_id: self.next_id,
        }
    }
}

/// Filtering one more element keeps it or not.
proof fn lemma_filter_push<T>(s: Seq<T>, x: T, pred: spec_fn(T) -> bool)
    ensures
        s.push(x).filter(pred) == if pred(x) {
            s.filter(pred).push(x)
        } else {
            s.filter(pred)
        },
{
    reveal(Seq::filter);
    assert(s.push(x).drop_last() =~= s);
}

/// Filtering the first elements, one further.
proof fn lemma_filter_take<T>(s: Seq<T>, i: int, pred: spec_fn(T) -> bool)
    requires
        0 <= i < s.len(),
    ensures
        s.take(i + 1).filter(pred) == if pred(s[i]) {
            s.take(i).filter(pred).push(s[i])
        } else {
            s.take(i).filter(pred)
        },
{
    assert(s.take(i + 1) =~= s.take(i).push(s[i]));
    lemma_filter_push(s.take(i), s[i], pred);
}

/// Tell whether one of the sockets is at a position.
fn filled(
    handles: &Vec<SocketHandle>,
    settings: &HyperClientSettings,
    backend: usize,
    index: u32,
) -> (r: bool)
    requires
        backend < settings.backends.len(),
    ensures
        r == is_filled(settings@, seq_view(handles@), (backend as int, index as int)),
{
    let ghost slot = (backend as int, index as int);
    let mut h: usize = 0;
    while h < handles.len()
        invariant
            h <= handles.len(),
            backend < settings.backends.len(),
            slot == (backend as int, index as int),
            forall|j: int|
                0 <= j < h ==> !(#[trigger] seq_view(handles@)[j]).fills(settings@, slot),
        decreases handles.len() - h,
    {
        let handle = &handles[h];
        assert(seq_view(handles@)[h as int] == handle@);
        if handle.index == index && SocketHandle::same_connection(
            &handle.target,
            &settings.backends[backend],
        ) && handle.service_name == settings.service_name {
            assert(seq_view(handles@)[h as int].fills(settings@, slot));
            return true;
        }
        h += 1;
    }
    false
}

/// Tell whether a backend is the first of the settings to open its connection.
fn first(settings: &HyperClientSettings, backend: usize) -> (r: bool)
    requires
        backend < settings.backends.len(),
    ensures
        r == is_first(settings@, backend as int),
{
    let mut j: usize = 0;
    while j < backend
        invariant
            j <= backend < settings.backends.len(),
            forall|k: int|
                0 <= k < j ==> (#[trigger] settings@.backends[k]).connection
                    != settings@.backends[backend as int].connection,
        decreases backend - j,
    {
        if SocketHandle::same_connection(&settings.backends[j], &settings.backends[backend]) {
            assert(settings@.backends[j as int].connection
                == settings@.backends[backend as int].connection);
            return false;
        }
        j += 1;
    }
    true
}

/// What a list of positions stands for.
spec fn slots_view(at: Seq<(usize, u32)>) -> Seq<(int, int)> {
    Seq::new(at.len(), |i: int| (at[i].0 as int, at[i].1 as int))
}

/// Give the positions that no socket fills.
fn missing_slots(handles: &Vec<SocketHandle>, settings: &HyperClientSettings) -> (r: Vec<
    (usize, u32),
>)
    ensures
        slots_view(r@) == missing(settings@, seq_view(handles@)),
        forall|i: int| 0 <= i < r@.len() ==> (#[trigger] r@[i]).0 < settings.backends.len(),
{
    let ghost wanted = |slot: (int, int)|
        is_first(settings@, slot.0) && !is_filled(settings@, seq_view(handles@), slot);
    let nb_socket: u32 = settings.nb_socket();
    let mut r: Vec<(usize, u32)> = Vec::new();
    let mut backend: usize = 0;
    proof {
        reveal(Seq::filter);
        assert(slots_view(r@) =~= slots(0, nb_socket as nat).filter(wanted));
    }
    while backend < settings.backends.len()
        invariant
            backend <= settings.backends.len(),
            nb_socket == settings@.sockets(),
            wanted == (|slot: (int, int)|
                is_first(settings@, slot.0) && !is_filled(settings@, seq_view(handles@), slot)),
            slots_view(r@) == slots(backend as nat, nb_socket as nat).filter(wanted),
            forall|i: int| 0 <= i < r@.len() ==> (#[trigger] r@[i]).0 < settings.backends.len(),
        decreases settings.backends.len() - backend,
    {
        let first_of: bool = first(settings, backend);
        let ghost before = slots(backend as nat, nb_socket as nat);
        let mut index: u32 = 0;
        proof {
            assert(before + Seq::new(0, |i: int| (backend as int, i)) =~= before);
        }
        while index < nb_socket
            invariant
                backend < settings.backends.len(),
                index <= nb_socket,
                first_of == is_first(settings@, backend as int),
                wanted == (|slot: (int, int)|
                    is_first(settings@, slot.0) && !is_filled(
                        settings@,
                        seq_view(handles@),
                        slot,
                    )),
                slots_view(r@) == (before + Seq::new(
                    index as nat,
                    |i: int| (backend as int, i),
                )).filter(wanted),
                forall|i: int| 0 <= i < r@.len() ==> (#[trigger] r@[i]).0 < settings.backends.len(),
            decreases nb_socket - index,
        {
            proof {
                let s = before + Seq::new(index as nat, |i: int| (backend as int, i));
                lemma_filter_push(s, (backend as int, index as int), wanted);
                assert(before + Seq::new((index + 1) as nat, |i: int| (backend as int, i))
                    =~= s.push((backend as int, index as int)));
            }
            if first_of && !filled(handles, settings, backend, index) {
                r.push((backend, index));
                assert(slots_view(r@) =~= slots_view(r@.drop_last()).push(
                    (backend as int, index as int),
                ));
            }
            index += 1;
        }
        backend += 1;
    }
    assert(settings@.backends.len() == settings.backends.len());
    r
}

/// How a socket task came to its end.
#[derive(Debug, Clone, Copy, PartialEq, Eq, Structural)]
pub enum EndedTask {
    /// The socket was given back.
    Ended { id: u32 },
    /// The task panicked, and took the socket with it.
    Panicked { id: u32 },
}

impl EndedTask {
    /// Slot of the socket the task ran.
    pub open spec fn slot(self) -> u32 {
        match self {
            EndedTask::Ended { id } => id,
            EndedTask::Panicked { id } => id,
        }
    }
}

impl PoolView {
    /// The pool without a task that ended while it stops.
    pub open spec fn drained(self, ended: EndedTask) -> PoolView {
        PoolView { tasks: self.tasks.remove(ended.slot()), ..self }
    }

    /// Whether a slot is still open.
    pub open spec fn is_open(self, id: u32) -> bool {
        exists|h: int| 0 <= h < self.handles.len() && (#[trigger] self.handles[h]).id == id
    }

    /// The pool without the socket of a slot.
    pub open spec fn closed(self, id: u32) -> PoolView {
        PoolView {
            tasks: self.tasks.remove(id),
            handles: self.handles.filter(|handle: HandleView| handle.id != id),
            ..self
        }
    }

    /// The pool once the task of a socket ended.
    pub open spec fn taken_back(
        self,
        ended: EndedTask,
        settings: ClientView,
        stopping: bool,
    ) -> PoolView {
        match ended {
            EndedTask::Ended { id } => if self.is_open(id) && !stopping {
                PoolView { tasks: self.tasks.insert(id), ..self }
            } else {
                PoolView { tasks: self.tasks.remove(id), ..self }
            },
            EndedTask::Panicked { id } => if stopping {
                self.closed(id)
            } else {
                self.closed(id).aligned(settings)
            },
        }
    }

    /// What is asked once the task of a socket ended.
    pub open spec fn take_back_actions(
        self,
        ended: EndedTask,
        settings: ClientView,
        stopping: bool,
    ) -> Seq<ActionView> {
        match ended {
            EndedTask::Ended { id } => if self.is_open(id) && !stopping {
                seq![ActionView::Restart { id }]
            } else {
                seq![ActionView::Retire { id }]
            },
            EndedTask::Panicked { id } => if stopping {
                Seq::empty()
            } else {
                self.closed(id).align_actions(settings)
            },
        }
    }

    /// The pool once it was told to stop: no socket should exist, and the running ones are waited
    /// for.
    pub open spec fn stopped(self) -> PoolView {
        PoolView { handles: Seq::empty(), ..self }
    }

    /// What is asked of the sockets when the pool is told to stop.
    pub open spec fn stop_actions(self) -> Seq<ActionView> {
        self.handles.map_values(|handle: HandleView| ActionView::Stop { id: handle.id })
    }

    /// There are slot ids left to take back a task that ended.
    pub open spec fn can_take_back(
        self,
        ended: EndedTask,
        settings: ClientView,
        stopping: bool,
    ) -> bool {
        match ended {
            EndedTask::Ended { .. } => true,
            EndedTask::Panicked { id } => stopping || self.closed(id).has_room(settings),
        }
    }
}

impl SocketPool {
    /// A pool without socket, which `align` fills from the settings.
    pub fn new() -> (r: SocketPool)
        ensures
            r@ == PoolView::empty(),
    {
        let r = SocketPool { tasks: HashSet::new(), handles: Vec::new(), next_id: 1 };
        assert(r@.handles =~= Seq::empty());
        r
    }

    /// Whether the pool still runs a socket.
    pub fn is_running(&self) -> (r: bool)
        ensures
            r == (self@.tasks != Set::<u32>::empty()),
    {
        !self.tasks.is_empty()
    }

    /// Whether there are slot ids left for the sockets the settings ask for.
    pub fn has_room(&self, settings: &HyperClientSettings) -> (r: bool)
        ensures
            r == self@.has_room(settings@),
    {
        let at = missing_slots(&self.handles, settings);
        assert(slots_view(at@).len() == at@.len());
        at.len() as u64 <= (u32::MAX - self.next_id) as u64
    }

    /// Bring the pool in line with the settings: stop the sockets they do not describe anymore,
    /// hand their times to the ones they do, and open the ones that are missing.
    pub fn align(&mut self, settings: &HyperClientSettings) -> (r: Vec<SocketAction>)
        requires
            old(self)@.has_room(settings@),
        ensures
            final(self)@ == old(self)@.aligned(settings@),
            seq_view(r@) == old(self)@.align_actions(settings@),
    {
        let at = missing_slots(&self.handles, settings);
        let ghost before = self@;
        let ghost todo = missing(settings@, before.handles);
        let mut r: Vec<SocketAction> = Vec::new();
        self.retain(settings, &mut r);
        let mut k: usize = 0;
        proof {
            assert(slots_view(at@).len() == at@.len());
            assert(opened(settings@, before.next_id, todo.take(0)) =~= Seq::empty());
            assert(self@.handles =~= kept(settings@, before.handles) + opened(
                settings@,
                before.next_id,
                todo.take(0),
            ));
            assert(self@.tasks =~= before.tasks.union(fresh(before.next_id, 0)));
        }
        while k < at.len()
            invariant
                k <= at.len(),
                at.len() == todo.len(),
                slots_view(at@) == todo,
                todo == missing(settings@, before.handles),
                before.next_id + todo.len() <= u32::MAX,
                forall|i: int|
                    0 <= i < at@.len() ==> (#[trigger] at@[i]).0 < settings.backends.len(),
                self@.handles == kept(settings@, before.handles) + opened(
                    settings@,
                    before.next_id,
                    todo.take(k as int),
                ),
                self@.tasks == before.tasks.union(fresh(before.next_id, k as nat)),
                self@.next_id == before.next_id + k,
                seq_view(r@) == before.handles.map_values(
                    |handle: HandleView| retained(settings@, handle),
                ) + opened(settings@, before.next_id, todo.take(k as int)).map_values(
                    |handle: HandleView| spawned(settings@, handle),
                ),
            decreases at.len() - k,
        {
            let (backend, index) = at[k];
            let ghost handle = opened_at(settings@, before.next_id + k, todo[k as int]);
            let ghost pool = self@;
            let ghost actions = r@;
            assert(slots_view(at@)[k as int] == (backend as int, index as int));
            let action = self.spawn(settings.backends[backend].clone(), index, settings);
            r.push(action);
            proof {
                assert(opened(settings@, before.next_id, todo.take(k + 1)) =~= opened(
                    settings@,
                    before.next_id,
                    todo.take(k as int),
                ).push(handle));
                assert(self@.handles =~= kept(settings@, before.handles) + opened(
                    settings@,
                    before.next_id,
                    todo.take(k + 1),
                ));
                assert(self@.tasks =~= before.tasks.union(fresh(before.next_id, (k + 1) as nat)));
                assert(seq_view(r@) =~= seq_view(actions).push(action@));
                assert(seq_view(r@) =~= before.handles.map_values(
                    |handle: HandleView| retained(settings@, handle),
                ) + opened(settings@, before.next_id, todo.take(k + 1)).map_values(
                    |handle: HandleView| spawned(settings@, handle),
                ));
            }
            k += 1;
        }
        assert(todo.take(k as int) =~= todo);
        r
    }

    /// Take back a socket task that just ended, and start its slot again if it is still open. A
    /// task that panicked has its slot closed, and opened again with a socket of its own. Nothing
    /// is started once ProSA is on its way out.
    pub fn take_back(
        &mut self,
        ended: EndedTask,
        settings: &HyperClientSettings,
        stopping: bool,
    ) -> (r: Vec<SocketAction>)
        requires
            old(self)@.can_take_back(ended, settings@, stopping),
        ensures
            final(self)@ == old(self)@.taken_back(ended, settings@, stopping),
            seq_view(r@) == old(self)@.take_back_actions(ended, settings@, stopping),
    {
        match ended {
            EndedTask::Ended { id } => {
                let mut r: Vec<SocketAction> = Vec::new();
                if self.is_open(id) && !stopping {
                    self.tasks.insert(id);
                    r.push(SocketAction::Restart { id });
                } else {
                    self.tasks.remove(&id);
                    r.push(SocketAction::Retire { id });
                }
                assert(self@.tasks =~= old(self)@.taken_back(ended, settings@, stopping).tasks);
                assert(seq_view(r@) =~= seq![r@[0]@]);
                r
            },
            EndedTask::Panicked { id } => {
                self.close(id);
                if stopping {
                    let r: Vec<SocketAction> = Vec::new();
                    assert(seq_view(r@) =~= Seq::empty());
                    r
                } else {
                    self.align(settings)
                }
            },
        }
    }

    /// Tell every socket to stop. The ones that still run are waited for with
    /// `take_back_stopping`.
    pub fn shutdown(&mut self) -> (r: Vec<SocketAction>)
        ensures
            final(self)@ == old(self)@.stopped(),
            seq_view(r@) == old(self)@.stop_actions(),
    {
        let mut r: Vec<SocketAction> = Vec::new();
        let mut i: usize = 0;
        while i < self.handles.len()
            invariant
                *self == *old(self),
                i <= self.handles.len(),
                r@.len() == i,
                forall|j: int|
                    0 <= j < i ==> #[trigger] r@[j]@ == (ActionView::Stop {
                        id: self.handles@[j].id,
                    }),
            decreases self.handles.len() - i,
        {
            r.push(SocketAction::Stop { id: self.handles[i].id });
            i += 1;
        }
        assert(seq_view(r@) =~= self@.stop_actions());
        self.handles.clear();
        assert(self@.handles =~= Seq::empty());
        r
    }

    /// Take back a socket task that ended while the pool stops: a socket that was given back is let
    /// go, and nothing is started.
    pub fn take_back_stopping(&mut self, ended: EndedTask) -> (r: Option<SocketAction>)
        ensures
            final(self)@ == old(self)@.drained(ended),
            match ended {
                EndedTask::Ended { id } => r is Some && r->0@ == (ActionView::Retire { id }),
                EndedTask::Panicked { .. } => r is None,
            },
    {
        match ended {
            EndedTask::Ended { id } => {
                self.tasks.remove(&id);
                assert(self@.tasks =~= old(self)@.tasks.remove(id));
                Some(SocketAction::Retire { id })
            },
            EndedTask::Panicked { id } => {
                self.tasks.remove(&id);
                assert(self@.tasks =~= old(self)@.tasks.remove(id));
                None
            },
        }
    }

    /// Whether there are slot ids left to take back a task that ended.
    pub fn can_take_back(
        &self,
        ended: EndedTask,
        settings: &HyperClientSettings,
        stopping: bool,
    ) -> (r: bool)
        ensures
            r == self@.can_take_back(ended, settings@, stopping),
    {
        match ended {
            EndedTask::Ended { .. } => true,
            EndedTask::Panicked { id } => {
                if stopping {
                    true
                } else {
                    let handles = self.others(id);
                    let at = missing_slots(&handles, settings);
                    assert(slots_view(at@).len() == at@.len());
                    at.len() as u64 <= (u32::MAX - self.next_id) as u64
                }
            },
        }
    }

    /// Whether a slot is still open.
    fn is_open(&self, id: u32) -> (r: bool)
        ensures
            r == self@.is_open(id),
    {
        let mut i: usize = 0;
        while i < self.handles.len()
            invariant
                i <= self.handles.len(),
                forall|j: int| 0 <= j < i ==> (#[trigger] self@.handles[j]).id != id,
            decreases self.handles.len() - i,
        {
            if self.handles[i].id == id {
                assert(self@.handles[i as int].id == id);
                return true;
            }
            i += 1;
        }
        false
    }

    /// The sockets of the other slots.
    fn others(&self, id: u32) -> (r: Vec<SocketHandle>)
        ensures
            seq_view(r@) == self@.handles.filter(|handle: HandleView| handle.id != id),
    {
        let ghost other = |handle: HandleView| handle.id != id;
        let mut r: Vec<SocketHandle> = Vec::new();
        let mut i: usize = 0;
        proof {
            reveal(Seq::filter);
            assert(seq_view(r@) =~= self@.handles.take(0).filter(other));
        }
        while i < self.handles.len()
            invariant
                i <= self.handles.len(),
                other == (|handle: HandleView| handle.id != id),
                seq_view(r@) == self@.handles.take(i as int).filter(other),
            decreases self.handles.len() - i,
        {
            proof {
                lemma_filter_take(self@.handles, i as int, other);
                assert(self@.handles[i as int] == self.handles@[i as int]@);
            }
            let ghost before = r@;
            let handle = &self.handles[i];
            if handle.id != id {
                r.push(
                    SocketHandle {
                        id: handle.id,
                        target: handle.target.clone(),
                        index: handle.index,
                        service_name: handle.service_name.clone(),
                    },
                );
                assert(seq_view(r@) =~= seq_view(before).push(handle@));
            }
            i += 1;
        }
        assert(self@.handles.take(i as int) =~= self@.handles);
        r
    }

    /// Close a slot.
    fn close(&mut self, id: u32)
        ensures
            final(self)@ == old(self)@.closed(id),
    {
        self.tasks.remove(&id);
        self.handles = self.others(id);
        assert(self@.tasks =~= old(self)@.tasks.remove(id));
    }

    /// Stop the sockets the settings do not describe anymore, and hand their times to the others.
    fn retain(&mut self, settings: &HyperClientSettings, actions: &mut Vec<SocketAction>)
        requires
            old(actions)@.len() == 0,
        ensures
            final(self)@ == (PoolView {
                handles: kept(settings@, old(self)@.handles),
                ..old(self)@
            }),
            seq_view(final(actions)@) == old(self)@.handles.map_values(
                |handle: HandleView| retained(settings@, handle),
            ),
    {
        let ghost before = self@;
        let ghost n: int = 0;
        let ghost stays = |handle: HandleView| handle.backend(settings@) is Some;
        let mut i: usize = 0;
        proof {
            reveal(Seq::filter);
            assert(before.handles.take(0).filter(stays) =~= Seq::empty());
            assert(self@.handles =~= before.handles.take(0).filter(stays) + before.handles.skip(0));
        }
        while i < self.handles.len()
            invariant
                0 <= n <= before.handles.len(),
                stays == (|handle: HandleView| handle.backend(settings@) is Some),
                i == before.handles.take(n).filter(stays).len(),
                self@.handles == before.handles.take(n).filter(stays) + before.handles.skip(n),
                self@.tasks == before.tasks,
                self@.next_id == before.next_id,
                seq_view(actions@) == before.handles.take(n).map_values(
                    |handle: HandleView| retained(settings@, handle),
                ),
            decreases before.handles.len() - n,
        {
            let ghost handles = self@.handles;
            let ghost handle = before.handles[n];
            let ghost done = actions@;
            proof {
                assert(self@.handles.len() == self.handles@.len());
                assert(n < before.handles.len());
                assert(self@.handles[i as int] == handle);
                assert(self@.handles[i as int] == self.handles@[i as int]@);
                lemma_filter_take(before.handles, n, stays);
            }
            let backend = self.handles[i].matching_backend(settings);
            let id: u32 = self.handles[i].id;
            match backend {
                Some(backend) => {
                    actions.push(
                        SocketAction::Update {
                            id,
                            connect_timeout: backend.connect_timeout,
                            http_timeout: settings.http_timeout(),
                        },
                    );
                    i += 1;
                },
                None => {
                    let _ = self.handles.remove(i);
                    actions.push(SocketAction::Stop { id });
                    assert(self@.handles =~= handles.remove(i as int));
                },
            }
            proof {
                n = n + 1;
                assert(self@.handles =~= before.handles.take(n).filter(stays)
                    + before.handles.skip(n));
                assert(seq_view(actions@) =~= seq_view(done).push(retained(settings@, handle)));
                assert(before.handles.take(n) =~= before.handles.take(n - 1).push(handle));
                assert(seq_view(actions@) =~= before.handles.take(n).map_values(
                    |handle: HandleView| retained(settings@, handle),
                ));
            }
        }
        proof {
            assert(self@.handles.len() == self.handles@.len());
            assert(n == before.handles.len());
            assert(before.handles.take(n) =~= before.handles);
            assert(self@.handles =~= kept(settings@, before.handles));
        }
    }

    /// Open a slot on a backend and start the socket that serves it.
    fn spawn(&mut self, target: TargetSetting, index: u32, settings: &HyperClientSettings) -> (r:
        SocketAction)
        requires
            old(self)@.next_id < u32::MAX,
        ensures
            final(self)@ == old(self)@.with_socket(target@, index, settings@),
            r@ == spawned(settings@, old(self)@.next_socket(target@, index, settings@)),
    {
        let id: u32 = self.next_id;
        self.next_id = self.next_id + 1;
        self.tasks.insert(id);
        let r = SocketAction::Spawn {
            id,
            target: target.clone(),
            service_name: settings.service_name.clone(),
            http_timeout: settings.http_timeout(),
        };
        self.handles.push(
            SocketHandle { id, target, index, service_name: settings.service_name.clone() },
        );
        assert(self@.handles =~= old(self)@.handles.push(self.handles@.last()@));
        r
    }
}

} // verus!
