//! What holds of the sockets a client processor keeps, whatever happens to them.
use crate::client::pool::{
    first_backend, is_filled, is_first, kept, missing, opened, opened_at, retained, slots,
    spawned, ActionView, EndedTask, HandleView, PoolView,
};
use crate::client::proc::{ClientEvent, ClientProcView, ClientView, HyperClientSettings};
use crate::io::{law_normalize_target_idempotent, normalized_target, Connection, TargetView};
use vstd::prelude::*;

verus! {

/// Where an element of a filtered sequence comes from.
pub(crate) proof fn lemma_filter_at<T>(s: Seq<T>, pred: spec_fn(T) -> bool, i: int) -> (a: int)
    requires
        0 <= i < s.filter(pred).len(),
    ensures
        0 <= a < s.len(),
        s[a] == s.filter(pred)[i],
        pred(s[a]),
    decreases s.len(),
{
    reveal(Seq::filter);
    if i < s.drop_last().filter(pred).len() {
        lemma_filter_at(s.drop_last(), pred, i)
    } else {
        s.len() - 1
    }
}

/// Two elements of a filtered sequence come from two places, in the same order.
pub(crate) proof fn lemma_filter_pair<T>(s: Seq<T>, pred: spec_fn(T) -> bool, i: int, j: int) -> (r: (
    int,
    int,
))
    requires
        0 <= i < j < s.filter(pred).len(),
    ensures
        0 <= r.0 < r.1 < s.len(),
        s[r.0] == s.filter(pred)[i],
        s[r.1] == s.filter(pred)[j],
    decreases s.len(),
{
    reveal(Seq::filter);
    if j < s.drop_last().filter(pred).len() {
        lemma_filter_pair(s.drop_last(), pred, i, j)
    } else {
        (lemma_filter_at(s.drop_last(), pred, i), s.len() - 1)
    }
}

/// Filtering keeps what satisfies the predicate.
pub(crate) proof fn lemma_filter_has<T>(s: Seq<T>, pred: spec_fn(T) -> bool, a: int) -> (i: int)
    requires
        0 <= a < s.len(),
        pred(s[a]),
    ensures
        0 <= i < s.filter(pred).len(),
        s.filter(pred)[i] == s[a],
    decreases s.len(),
{
    reveal(Seq::filter);
    if a == s.len() - 1 {
        s.filter(pred).len() - 1
    } else {
        lemma_filter_has(s.drop_last(), pred, a)
    }
}

/// Filtering with a predicate that always holds changes nothing.
proof fn lemma_filter_all<T>(s: Seq<T>, pred: spec_fn(T) -> bool)
    requires
        forall|i: int| 0 <= i < s.len() ==> pred(#[trigger] s[i]),
    ensures
        s.filter(pred) == s,
    decreases s.len(),
{
    reveal(Seq::filter);
    if s.len() > 0 {
        assert forall|i: int| 0 <= i < s.drop_last().len() implies pred(
            #[trigger] s.drop_last()[i],
        ) by {
            assert(pred(s[i]));
        }
        lemma_filter_all(s.drop_last(), pred);
        assert(s =~= s.drop_last().push(s.last()));
    }
}

/// The positions are within their bounds, and none comes twice.
pub(crate) proof fn lemma_slots(backends: nat, sockets: nat)
    ensures
        forall|k: int|
            0 <= k < slots(backends, sockets).len() ==> 0 <= (#[trigger] slots(
                backends,
                sockets,
            )[k]).0 < backends && 0 <= slots(backends, sockets)[k].1 < sockets,
        forall|k: int, l: int|
            0 <= k < l < slots(backends, sockets).len() ==> #[trigger] slots(backends, sockets)[k]
                != #[trigger] slots(backends, sockets)[l],
    decreases backends,
{
    if backends > 0 {
        let before = slots((backends - 1) as nat, sockets);
        let all = slots(backends, sockets);
        lemma_slots((backends - 1) as nat, sockets);
        assert forall|k: int| 0 <= k < all.len() implies 0 <= (#[trigger] all[k]).0 < backends && 0
            <= all[k].1 < sockets && (k >= before.len() ==> all[k] == (
            backends - 1,
            k - before.len(),
        )) by {
            if k < before.len() {
                assert(all[k] == before[k]);
            }
        }
        assert forall|k: int, l: int| 0 <= k < l < all.len() implies #[trigger] all[k]
            != #[trigger] all[l] by {
            if l < before.len() {
                assert(all[k] == before[k] && all[l] == before[l]);
            } else if k < before.len() {
                assert(all[k] == before[k]);
            }
        }
    }
}

/// Every position is among the ones described.
proof fn lemma_slots_has(backends: nat, sockets: nat, backend: int, index: int) -> (k: int)
    requires
        0 <= backend < backends,
        0 <= index < sockets,
    ensures
        0 <= k < slots(backends, sockets).len(),
        slots(backends, sockets)[k] == (backend, index),
    decreases backends,
{
    let before = slots((backends - 1) as nat, sockets);
    if backend == backends - 1 {
        before.len() + index
    } else {
        lemma_slots_has((backends - 1) as nat, sockets, backend, index)
    }
}

/// A connection has a first backend when some backend opens it.
proof fn lemma_first_backend(backends: Seq<TargetView>, connection: Connection)
    ensures
        first_backend(backends, connection) is Some <==> exists|j: int|
            0 <= j < backends.len() && (#[trigger] backends[j]).connection == connection,
        first_backend(backends, connection) matches Some(backend) ==> backend.connection
            == connection,
    decreases backends.len(),
{
    if backends.len() > 0 {
        lemma_first_backend(backends.drop_last(), connection);
        if exists|j: int|
            0 <= j < backends.len() && (#[trigger] backends[j]).connection == connection {
            let j = choose|j: int|
                0 <= j < backends.len() && (#[trigger] backends[j]).connection == connection;
            if j < backends.len() - 1 {
                assert(backends.drop_last()[j].connection == connection);
            }
        }
        if first_backend(backends.drop_last(), connection) is Some {
            let j = choose|j: int|
                0 <= j < backends.drop_last().len() && (
                #[trigger] backends.drop_last()[j]).connection == connection;
            assert(backends[j].connection == connection);
        }
    }
}

/// The first backend of the settings that opens the connection of another.
proof fn lemma_first_of(settings: ClientView, backend: int) -> (first: int)
    requires
        0 <= backend < settings.backends.len(),
    ensures
        0 <= first <= backend,
        is_first(settings, first),
        settings.backends[first].connection == settings.backends[backend].connection,
    decreases backend,
{
    if is_first(settings, backend) {
        backend
    } else {
        let j = choose|j: int|
            0 <= j < backend && (#[trigger] settings.backends[j]).connection
                == settings.backends[backend].connection;
        lemma_first_of(settings, j)
    }
}

/// The positions to open are described, free, and none comes twice.
pub(crate) proof fn lemma_missing(settings: ClientView, handles: Seq<HandleView>)
    ensures
        forall|k: int|
            0 <= k < missing(settings, handles).len() ==> {
                let slot = #[trigger] missing(settings, handles)[k];
                &&& 0 <= slot.0 < settings.backends.len()
                &&& 0 <= slot.1 < settings.sockets()
                &&& is_first(settings, slot.0)
                &&& !is_filled(settings, handles, slot)
            },
        forall|k: int, l: int|
            0 <= k < l < missing(settings, handles).len() ==> #[trigger] missing(
                settings,
                handles,
            )[k] != #[trigger] missing(settings, handles)[l],
{
    let all = slots(settings.backends.len(), settings.sockets() as nat);
    let pred = |slot: (int, int)|
        is_first(settings, slot.0) && !is_filled(settings, handles, slot);
    lemma_slots(settings.backends.len(), settings.sockets() as nat);
    assert forall|k: int| 0 <= k < missing(settings, handles).len() implies {
        let slot = #[trigger] missing(settings, handles)[k];
        &&& 0 <= slot.0 < settings.backends.len()
        &&& 0 <= slot.1 < settings.sockets()
        &&& is_first(settings, slot.0)
        &&& !is_filled(settings, handles, slot)
    } by {
        let a = lemma_filter_at(all, pred, k);
    }
    assert forall|k: int, l: int| 0 <= k < l < missing(settings, handles).len() implies (
    #[trigger] missing(settings, handles)[k]) != (#[trigger] missing(settings, handles)[l]) by {
        let r = lemma_filter_pair(all, pred, k, l);
    }
}

/// Bringing a pool in line with settings leaves exactly the sockets they describe: one for every
/// position of every backend, none for anything else, and no slot id or position used twice.
pub proof fn law_align_keeps_exactly_what_is_described(pool: PoolView, settings: ClientView)
    requires
        pool.wf(),
        pool.has_room(settings),
    ensures
        pool.aligned(settings).wf(),
        pool.aligned(settings).is_aligned(settings),
{
    let at = missing(settings, pool.handles);
    let stays = |handle: HandleView| handle.backend(settings) is Some;
    let old_ones = kept(settings, pool.handles);
    let new_ones = opened(settings, pool.next_id, at);
    let after = pool.aligned(settings);
    let n = old_ones.len();
    lemma_missing(settings, pool.handles);
    assert forall|i: int| 0 <= i < after.handles.len() implies 1 <= (
    #[trigger] after.handles[i]).id < after.next_id by {
        if i < n {
            let a = lemma_filter_at(pool.handles, stays, i);
        }
    }
    assert forall|i: int, j: int| 0 <= i < j < after.handles.len() implies (
    #[trigger] after.handles[i]).id != (#[trigger] after.handles[j]).id
        && !after.handles[i].same_slot(after.handles[j]) by {
        if j < n {
            let r = lemma_filter_pair(pool.handles, stays, i, j);
        } else if i < n {
            let a = lemma_filter_at(pool.handles, stays, i);
            let slot = at[j - n];
            if after.handles[i].same_slot(after.handles[j]) {
                assert(pool.handles[a].fills(settings, slot));
                assert(is_filled(settings, pool.handles, slot));
            }
        } else {
            let first = at[i - n];
            let second = at[j - n];
            assert(first != second);
            if after.handles[i].same_slot(after.handles[j]) {
                if first.0 < second.0 {
                    assert(settings.backends[first.0].connection
                        != settings.backends[second.0].connection);
                } else if second.0 < first.0 {
                    assert(settings.backends[second.0].connection
                        != settings.backends[first.0].connection);
                }
            }
        }
    }
    assert forall|i: int| 0 <= i < after.handles.len() implies (
    #[trigger] after.handles[i]).backend(settings) is Some by {
        if i < n {
            let a = lemma_filter_at(pool.handles, stays, i);
        } else {
            let slot = at[i - n];
            lemma_first_backend(settings.backends, settings.backends[slot.0].connection);
        }
    }
    assert forall|backend: int, index: int|
        0 <= backend < settings.backends.len() && 0 <= index
            < settings.sockets() implies #[trigger] is_filled(
        settings,
        after.handles,
        (backend, index),
    ) by {
        lemma_aligned_fills(pool, settings, backend, index);
    }
}

/// Every position the settings describe has a socket once the pool is in line with them.
pub(crate) proof fn lemma_aligned_fills(pool: PoolView, settings: ClientView, backend: int, index: int)
    requires
        0 <= backend < settings.backends.len(),
        0 <= index < settings.sockets(),
    ensures
        is_filled(settings, pool.aligned(settings).handles, (backend, index)),
{
    let at = missing(settings, pool.handles);
    let stays = |handle: HandleView| handle.backend(settings) is Some;
    let after = pool.aligned(settings);
    let first = lemma_first_of(settings, backend);
    let slot = (first, index);
    if is_filled(settings, pool.handles, slot) {
        let h = choose|h: int|
            0 <= h < pool.handles.len() && (#[trigger] pool.handles[h]).fills(settings, slot);
        lemma_first_backend(settings.backends, pool.handles[h].target.connection);
        let i = lemma_filter_has(pool.handles, stays, h);
        assert(after.handles[i].fills(settings, (backend, index)));
    } else {
        let pred = |slot: (int, int)|
            is_first(settings, slot.0) && !is_filled(settings, pool.handles, slot);
        let all = slots(settings.backends.len(), settings.sockets() as nat);
        let k = lemma_slots_has(settings.backends.len(), settings.sockets() as nat, first, index);
        let i = lemma_filter_has(all, pred, k);
        let j = kept(settings, pool.handles).len() + i;
        assert(after.handles[j] == opened_at(settings, pool.next_id + i, slot));
        assert(after.handles[j].fills(settings, (backend, index)));
    }
}

/// Aligning a pool again with the same settings changes nothing: no socket is stopped or opened,
/// each is only handed its times.
pub proof fn law_align_is_idempotent(pool: PoolView, settings: ClientView)
    requires
        pool.wf(),
        pool.has_room(settings),
    ensures
        pool.aligned(settings).aligned(settings) == pool.aligned(settings),
        forall|i: int|
            0 <= i < pool.aligned(settings).align_actions(settings).len() ==> (
            #[trigger] pool.aligned(settings).align_actions(settings)[i]) is Update,
{
    law_align_keeps_exactly_what_is_described(pool, settings);
    lemma_aligned_stays(pool.aligned(settings), settings);
}

/// Nothing is opened or stopped in a pool that is in line with the settings.
proof fn lemma_aligned_stays(pool: PoolView, settings: ClientView)
    requires
        pool.is_aligned(settings),
    ensures
        missing(settings, pool.handles).len() == 0,
        kept(settings, pool.handles) == pool.handles,
        pool.aligned(settings) == pool,
        pool.align_actions(settings) == pool.handles.map_values(
            |handle: HandleView| retained(settings, handle),
        ),
{
    let stays = |handle: HandleView| handle.backend(settings) is Some;
    lemma_missing(settings, pool.handles);
    if missing(settings, pool.handles).len() > 0 {
        let slot = missing(settings, pool.handles)[0];
        assert(is_filled(settings, pool.handles, (slot.0, slot.1)));
        assert(slot == (slot.0, slot.1));
    }
    lemma_filter_all(pool.handles, stays);
    assert(pool.aligned(settings).handles =~= pool.handles);
    assert(pool.aligned(settings).tasks =~= pool.tasks);
    assert(pool.align_actions(settings) =~= pool.handles.map_values(
        |handle: HandleView| retained(settings, handle),
    ));
}

/// Whether one of the backends opens a connection.
pub open spec fn opens(backends: Seq<TargetView>, connection: Connection) -> bool {
    exists|b: int| 0 <= b < backends.len() && (#[trigger] backends[b]).connection == connection
}

/// Whether two settings open the same sockets: the same service, the same number of sockets, and
/// the same connections, in any order and however often each is listed.
pub open spec fn same_sockets(settings: ClientView, other: ClientView) -> bool {
    &&& settings.service_name == other.service_name
    &&& settings.sockets() == other.sockets()
    &&& forall|b: int|
        0 <= b < settings.backends.len() ==> opens(
            other.backends,
            (#[trigger] settings.backends[b]).connection,
        )
    &&& forall|b: int|
        0 <= b < other.backends.len() ==> opens(
            settings.backends,
            (#[trigger] other.backends[b]).connection,
        )
}

/// A reload that only retimes the backends and the messages, or lists the backends in another order,
/// keeps every socket: nothing is stopped or opened, and each socket is handed the new times.
pub proof fn law_retiming_keeps_every_socket(pool: PoolView, settings: ClientView, other: ClientView)
    requires
        pool.wf(),
        pool.has_room(settings),
        same_sockets(settings, other),
    ensures
        pool.aligned(settings).aligned(other) == pool.aligned(settings),
        forall|i: int|
            0 <= i < pool.aligned(settings).align_actions(other).len() ==> {
                let action = #[trigger] pool.aligned(settings).align_actions(other)[i];
                let handle = pool.aligned(settings).handles[i];
                let backend = first_backend(other.backends, handle.target.connection);
                &&& backend is Some
                &&& action == (ActionView::Update {
                    id: handle.id,
                    connect_timeout: backend->0.connect_timeout,
                    http_timeout: other.http_timeout,
                })
            },
{
    law_align_keeps_exactly_what_is_described(pool, settings);
    let after = pool.aligned(settings);
    assert forall|i: int| 0 <= i < after.handles.len() implies (
    #[trigger] after.handles[i]).backend(other) is Some by {
        let connection = after.handles[i].target.connection;
        assert(after.handles[i].backend(settings) is Some);
        lemma_first_backend(settings.backends, connection);
        lemma_first_backend(other.backends, connection);
        let j = choose|j: int|
            0 <= j < settings.backends.len() && (#[trigger] settings.backends[j]).connection
                == connection;
        assert(opens(other.backends, settings.backends[j].connection));
    }
    assert forall|backend: int, index: int|
        0 <= backend < other.backends.len() && 0 <= index
            < other.sockets() implies #[trigger] is_filled(
        other,
        after.handles,
        (backend, index),
    ) by {
        let connection = other.backends[backend].connection;
        assert(opens(settings.backends, connection));
        let j = choose|j: int|
            0 <= j < settings.backends.len() && (#[trigger] settings.backends[j]).connection
                == connection;
        assert(is_filled(settings, after.handles, (j, index)));
        let h = choose|h: int|
            0 <= h < after.handles.len() && (#[trigger] after.handles[h]).fills(
                settings,
                (j, index),
            );
        assert(after.handles[h].fills(other, (backend, index)));
    }
    lemma_aligned_stays(after, other);
}

/// Slot ids are never given twice: a socket of an aligned pool is one that was there, or has an id
/// that no socket had before.
pub proof fn law_slot_ids_are_never_reused(pool: PoolView, settings: ClientView, i: int)
    requires
        pool.wf(),
        pool.has_room(settings),
        0 <= i < pool.aligned(settings).handles.len(),
    ensures
        pool.handles.contains(pool.aligned(settings).handles[i])
            || pool.aligned(settings).handles[i].id >= pool.next_id,
        pool.aligned(settings).next_id >= pool.next_id,
{
    let stays = |handle: HandleView| handle.backend(settings) is Some;
    if i < kept(settings, pool.handles).len() {
        let a = lemma_filter_at(pool.handles, stays, i);
    }
}

/// Renaming the service replaces the whole pool: every socket is told to stop, and the ones that
/// take their place are all new.
pub proof fn law_renaming_replaces_the_pool(pool: PoolView, settings: ClientView)
    requires
        pool.wf(),
        pool.has_room(settings),
        forall|i: int|
            0 <= i < pool.handles.len() ==> (#[trigger] pool.handles[i]).service_name
                != settings.service_name,
    ensures
        forall|i: int|
            0 <= i < pool.handles.len() ==> #[trigger] pool.align_actions(settings)[i] == (
            ActionView::Stop { id: pool.handles[i].id }),
        forall|i: int|
            0 <= i < pool.aligned(settings).handles.len() ==> (#[trigger] pool.aligned(
                settings,
            ).handles[i]).id >= pool.next_id,
{
    let stays = |handle: HandleView| handle.backend(settings) is Some;
    if kept(settings, pool.handles).len() > 0 {
        let a = lemma_filter_at(pool.handles, stays, 0);
    }
}

/// Opening a socket gives it a slot id that no socket has and no task runs under, one past which the
/// next one goes. The others keep theirs, and the pool stays sound if the position was free.
pub proof fn law_opened_socket_has_a_fresh_slot(
    pool: PoolView,
    target: TargetView,
    index: u32,
    settings: ClientView,
)
    requires
        pool.wf(),
        pool.next_id < u32::MAX,
    ensures
        ({
            let socket = pool.next_socket(target, index, settings);
            let after = pool.with_socket(target, index, settings);
            &&& !pool.is_open(socket.id)
            &&& !pool.tasks.contains(socket.id)
            &&& after.next_id == socket.id + 1
            &&& after.handles == pool.handles.push(socket)
            &&& after.tasks == pool.tasks.insert(socket.id)
            &&& spawned(settings, socket) == (ActionView::Spawn {
                id: pool.next_id,
                target,
                service_name: settings.service_name,
                http_timeout: settings.http_timeout,
            })
            &&& (forall|i: int|
                0 <= i < pool.handles.len() ==> !(#[trigger] pool.handles[i]).same_slot(socket))
                ==> after.wf()
        }),
{
}

/// Whatever happens to the sockets of a pool, no slot id and no position is used twice, even when a
/// task ends while ProSA stops and the processor was not told yet.
pub proof fn law_pool_stays_sound(
    pool: PoolView,
    ended: EndedTask,
    settings: ClientView,
    stopping: bool,
)
    requires
        pool.wf(),
    ensures
        pool.can_take_back(ended, settings, stopping) ==> pool.taken_back(
            ended,
            settings,
            stopping,
        ).wf(),
        pool.has_room(settings) ==> pool.aligned(settings).wf(),
        pool.stopped().wf(),
        pool.drained(ended).wf(),
{
    if pool.has_room(settings) {
        law_align_keeps_exactly_what_is_described(pool, settings);
    }
    if pool.can_take_back(ended, settings, stopping) {
        match ended {
            EndedTask::Ended { id } => {
                if pool.is_open(id) {
                    let h = choose|h: int|
                        0 <= h < pool.handles.len() && (#[trigger] pool.handles[h]).id == id;
                    assert(pool.handles[h].id < pool.next_id);
                }
            },
            EndedTask::Panicked { id } => {
                lemma_closed(pool, id);
                if !stopping {
                    law_align_keeps_exactly_what_is_described(pool.closed(id), settings);
                }
            },
        }
    }
}

/// Whatever reaches the processor, no slot id and no position of its pool is used twice.
pub proof fn law_processor_stays_sound(processor: ClientProcView, event: ClientEvent)
    requires
        processor.pool.wf(),
        processor.expects(event),
    ensures
        processor.after(event).pool.wf(),
        processor.after(event).pool.next_id >= processor.pool.next_id,
{
    match event {
        ClientEvent::Service => {},
        ClientEvent::Config(config) => {
            if let Some(settings) = ClientProcView::reloaded(config) {
                if !processor.stopping {
                    law_align_keeps_exactly_what_is_described(processor.pool, settings);
                }
            }
        },
        ClientEvent::Shutdown => {},
        ClientEvent::Ended { ended, stopping } => {
            if !processor.stopping {
                law_pool_stays_sound(processor.pool, ended, processor.settings, stopping);
            }
        },
    }
}

impl ClientProcView {
    /// The processor once events reached it one after the other.
    pub open spec fn after_all(self, events: Seq<ClientEvent>) -> ClientProcView
        decreases events.len(),
    {
        if events.len() == 0 {
            self
        } else {
            self.after_all(events.drop_last()).after(events.last())
        }
    }

    /// There are slot ids left for what each of the events asks.
    pub open spec fn expects_all(self, events: Seq<ClientEvent>) -> bool
        decreases events.len(),
    {
        events.len() == 0 || (self.expects_all(events.drop_last()) && self.after_all(
            events.drop_last(),
        ).expects(events.last()))
    }
}

/// The pool stays sound over events, and its next slot id only grows.
proof fn lemma_all_stay_sound(processor: ClientProcView, events: Seq<ClientEvent>)
    requires
        processor.pool.wf(),
        processor.expects_all(events),
    ensures
        processor.after_all(events).pool.wf(),
        processor.after_all(events).pool.next_id >= processor.pool.next_id,
    decreases events.len(),
{
    if events.len() > 0 {
        lemma_all_stay_sound(processor, events.drop_last());
        law_processor_stays_sound(processor.after_all(events.drop_last()), events.last());
    }
}

/// The slot ids an event opens are the next ones, in order.
proof fn lemma_opened_ids(pool: PoolView, settings: ClientView, i: int)
    requires
        pool.has_room(settings),
        0 <= i < pool.align_actions(settings).len(),
        pool.align_actions(settings)[i] is Spawn,
    ensures
        i >= pool.handles.len(),
        pool.align_actions(settings)[i]->Spawn_id == pool.next_id + (i - pool.handles.len()),
        pool.next_id <= pool.align_actions(settings)[i]->Spawn_id < pool.aligned(settings).next_id,
{
    if i < pool.handles.len() {
        assert(pool.align_actions(settings)[i] == retained(settings, pool.handles[i]));
    }
}

/// What an event opens has a slot id between the next one before it and the next one after it, and
/// two sockets that it opens have two.
proof fn lemma_spawned_ids(processor: ClientProcView, event: ClientEvent, i: int, j: int)
    requires
        processor.pool.wf(),
        processor.expects(event),
        0 <= i < processor.actions(event).len(),
        0 <= j < processor.actions(event).len(),
        processor.actions(event)[i] is Spawn,
        processor.actions(event)[j] is Spawn,
    ensures
        processor.pool.next_id <= processor.actions(event)[i]->Spawn_id < processor.after(
            event,
        ).pool.next_id,
        i != j ==> processor.actions(event)[i]->Spawn_id != processor.actions(event)[j]->Spawn_id,
{
    match event {
        ClientEvent::Service => {},
        ClientEvent::Config(config) => {
            if let Some(settings) = ClientProcView::reloaded(config) {
                if !processor.stopping {
                    lemma_opened_ids(processor.pool, settings, i);
                    lemma_opened_ids(processor.pool, settings, j);
                }
            }
        },
        ClientEvent::Shutdown => {},
        ClientEvent::Ended { ended, stopping } => {
            if let EndedTask::Panicked { id } = ended {
                if !processor.stopping && !stopping {
                    lemma_opened_ids(processor.pool.closed(id), processor.settings, i);
                    lemma_opened_ids(processor.pool.closed(id), processor.settings, j);
                }
            }
        },
    }
}

/// Over the life of a processor no slot id is given twice, even after its slot was closed: two
/// sockets opened by one event, or by two events with any others in between, have two slot ids.
pub proof fn law_slot_ids_are_given_once(
    processor: ClientProcView,
    event: ClientEvent,
    events: Seq<ClientEvent>,
    later: ClientEvent,
    i: int,
    j: int,
)
    requires
        processor.pool.wf(),
        processor.expects(event),
        processor.after(event).expects_all(events),
        processor.after(event).after_all(events).expects(later),
        0 <= i < processor.actions(event).len(),
        processor.actions(event)[i] is Spawn,
    ensures
        0 <= j < processor.actions(event).len() && processor.actions(event)[j] is Spawn && i != j
            ==> processor.actions(event)[i]->Spawn_id != processor.actions(event)[j]->Spawn_id,
        ({
            let actions = processor.after(event).after_all(events).actions(later);
            0 <= j < actions.len() && actions[j] is Spawn ==> actions[j]->Spawn_id
                > processor.actions(event)[i]->Spawn_id
        }),
{
    let after = processor.after(event).after_all(events);
    law_processor_stays_sound(processor, event);
    lemma_all_stay_sound(processor.after(event), events);
    lemma_spawned_ids(processor, event, i, i);
    if 0 <= j < processor.actions(event).len() && processor.actions(event)[j] is Spawn {
        lemma_spawned_ids(processor, event, i, j);
    }
    if 0 <= j < after.actions(later).len() && after.actions(later)[j] is Spawn {
        lemma_spawned_ids(after, later, j, j);
    }
}

/// Every socket that should exist runs, as long as ProSA is not stopping: whatever ends a socket
/// task, the pool stays sound, in line with the settings, and fully running.
pub proof fn law_pool_never_shrinks(pool: PoolView, ended: EndedTask, settings: ClientView)
    requires
        pool.wf(),
        pool.is_staffed(),
        pool.is_aligned(settings),
        pool.can_take_back(ended, settings, false),
    ensures
        pool.taken_back(ended, settings, false).wf(),
        pool.taken_back(ended, settings, false).is_staffed(),
        pool.taken_back(ended, settings, false).is_aligned(settings),
{
    match ended {
        EndedTask::Ended { id } => {
            if pool.is_open(id) {
                let h = choose|h: int|
                    0 <= h < pool.handles.len() && (#[trigger] pool.handles[h]).id == id;
                assert(pool.tasks.contains(pool.handles[h].id));
            }
            assert forall|i: int| 0 <= i < pool.handles.len() implies pool.taken_back(
                ended,
                settings,
                false,
            ).tasks.contains((#[trigger] pool.handles[i]).id) by {
                if pool.handles[i].id == id {
                    assert(pool.is_open(id));
                }
            }
        },
        EndedTask::Panicked { id } => {
            let left = pool.closed(id);
            lemma_closed(pool, id);
            law_align_keeps_exactly_what_is_described(left, settings);
            lemma_aligned_is_staffed(left, settings);
        },
    }
}

/// Closing a slot leaves a sound pool, without the sockets of that slot.
pub(crate) proof fn lemma_closed(pool: PoolView, id: u32)
    requires
        pool.wf(),
    ensures
        pool.closed(id).wf(),
        pool.is_staffed() ==> pool.closed(id).is_staffed(),
{
    let other = |handle: HandleView| handle.id != id;
    let left = pool.closed(id);
    assert forall|i: int| 0 <= i < left.handles.len() implies 1 <= (#[trigger] left.handles[i]).id
        < left.next_id && left.handles[i].id != id && (pool.is_staffed() ==> left.tasks.contains(
        left.handles[i].id,
    )) by {
        let a = lemma_filter_at(pool.handles, other, i);
    }
    assert forall|i: int, j: int| 0 <= i < j < left.handles.len() implies (
    #[trigger] left.handles[i]).id != (#[trigger] left.handles[j]).id
        && !left.handles[i].same_slot(left.handles[j]) by {
        let r = lemma_filter_pair(pool.handles, other, i, j);
    }
}

/// The sockets that are opened run.
proof fn lemma_aligned_is_staffed(pool: PoolView, settings: ClientView)
    requires
        pool.is_staffed(),
        pool.has_room(settings),
    ensures
        pool.aligned(settings).is_staffed(),
{
    let stays = |handle: HandleView| handle.backend(settings) is Some;
    let after = pool.aligned(settings);
    assert forall|i: int| 0 <= i < after.handles.len() implies after.tasks.contains(
        (#[trigger] after.handles[i]).id,
    ) by {
        if i < kept(settings, pool.handles).len() {
            let a = lemma_filter_at(pool.handles, stays, i);
        }
    }
}

/// A configuration reload keeps the pool sound and fully running, and brings it in line with the
/// new settings.
pub proof fn law_reload_aligns_the_pool(pool: PoolView, settings: ClientView)
    requires
        pool.wf(),
        pool.is_staffed(),
        pool.has_room(settings),
    ensures
        pool.aligned(settings).wf(),
        pool.aligned(settings).is_staffed(),
        pool.aligned(settings).is_aligned(settings),
{
    law_align_keeps_exactly_what_is_described(pool, settings);
    lemma_aligned_is_staffed(pool, settings);
}

/// A socket task that panics takes down no other socket: the others keep their slots, none is told
/// to stop, and what takes the place of the lost one is new.
pub proof fn law_panic_is_contained(pool: PoolView, id: u32, settings: ClientView)
    requires
        pool.wf(),
        pool.is_aligned(settings),
        pool.can_take_back(EndedTask::Panicked { id }, settings, false),
    ensures
        ({
            let ended = EndedTask::Panicked { id };
            let after = pool.taken_back(ended, settings, false);
            &&& forall|i: int|
                0 <= i < pool.handles.len() && pool.handles[i].id != id ==> after.handles.contains(
                    #[trigger] pool.handles[i],
                )
            &&& forall|i: int|
                0 <= i < after.handles.len() ==> pool.handles.contains(
                    #[trigger] after.handles[i],
                ) || after.handles[i].id >= pool.next_id
            &&& forall|i: int|
                0 <= i < pool.take_back_actions(ended, settings, false).len() ==> !((
                #[trigger] pool.take_back_actions(ended, settings, false)[i]) is Stop)
        }),
{
    let ended = EndedTask::Panicked { id };
    let other = |handle: HandleView| handle.id != id;
    let stays = |handle: HandleView| handle.backend(settings) is Some;
    let left = pool.closed(id);
    let after = pool.taken_back(ended, settings, false);
    lemma_closed(pool, id);
    assert forall|i: int| 0 <= i < left.handles.len() implies stays(#[trigger] left.handles[i])
        && pool.handles.contains(left.handles[i]) by {
        let a = lemma_filter_at(pool.handles, other, i);
    }
    lemma_filter_all(left.handles, stays);
    assert forall|i: int|
        0 <= i < pool.handles.len() && pool.handles[i].id != id implies after.handles.contains(
        #[trigger] pool.handles[i],
    ) by {
        let j = lemma_filter_has(pool.handles, other, i);
        assert(after.handles[j] == pool.handles[i]);
    }
    assert forall|i: int| 0 <= i < after.handles.len() implies pool.handles.contains(
        #[trigger] after.handles[i],
    ) || after.handles[i].id >= pool.next_id by {
        if i < left.handles.len() {
            assert(after.handles[i] == left.handles[i]);
        }
    }
}

/// The pool after the tasks that ended one after the other while it stops.
pub open spec fn stopping(pool: PoolView, ended: Seq<EndedTask>) -> PoolView
    decreases ended.len(),
{
    if ended.len() == 0 {
        pool
    } else {
        stopping(pool, ended.drop_last()).drained(ended.last())
    }
}

/// A pool that was told to stop starts nothing anymore, and runs nothing once every task it had
/// came to its end.
pub proof fn law_shutdown_leaves_nothing_running(pool: PoolView, ended: Seq<EndedTask>)
    ensures
        stopping(pool.stopped(), ended).handles.len() == 0,
        stopping(pool.stopped(), ended).tasks.subset_of(pool.tasks),
        (forall|id: u32| #[trigger]
            pool.tasks.contains(id) ==> ended.contains(EndedTask::Ended { id }) || ended.contains(
                EndedTask::Panicked { id },
            )) ==> stopping(pool.stopped(), ended).tasks == Set::<u32>::empty(),
    decreases ended.len(),
{
    assert forall|id: u32| #[trigger]
        stopping(pool.stopped(), ended).tasks.contains(id) implies pool.tasks.contains(id)
        && !ended.contains(EndedTask::Ended { id }) && !ended.contains(
        EndedTask::Panicked { id },
    ) by {
        lemma_stopping(pool.stopped(), ended, id);
    }
    lemma_stopping_handles(pool.stopped(), ended);
    if forall|id: u32| #[trigger]
        pool.tasks.contains(id) ==> ended.contains(EndedTask::Ended { id }) || ended.contains(
            EndedTask::Panicked { id },
        ) {
        assert(stopping(pool.stopped(), ended).tasks =~= Set::<u32>::empty());
    }
}

/// Which tasks still run while the pool stops.
proof fn lemma_stopping(pool: PoolView, ended: Seq<EndedTask>, id: u32)
    requires
        stopping(pool, ended).tasks.contains(id),
    ensures
        pool.tasks.contains(id),
        !ended.contains(EndedTask::Ended { id }),
        !ended.contains(EndedTask::Panicked { id }),
    decreases ended.len(),
{
    if ended.len() > 0 {
        lemma_stopping(pool, ended.drop_last(), id);
        assert(ended =~= ended.drop_last().push(ended.last()));
    }
}

/// Stopping opens no slot.
proof fn lemma_stopping_handles(pool: PoolView, ended: Seq<EndedTask>)
    ensures
        stopping(pool, ended).handles == pool.handles,
    decreases ended.len(),
{
    if ended.len() > 0 {
        lemma_stopping_handles(pool, ended.drop_last());
    }
}

/// Nothing is started while ProSA stops, even if the processor was not told yet.
pub proof fn law_nothing_starts_while_stopping(
    pool: PoolView,
    ended: EndedTask,
    settings: ClientView,
    i: int,
)
    requires
        0 <= i < pool.take_back_actions(ended, settings, true).len(),
    ensures
        pool.take_back_actions(ended, settings, true)[i] is Retire,
{
}

impl ClientProcView {
    /// The sockets are sound, each that should exist runs, and they are exactly the ones the
    /// settings describe. A processor that was told to stop has none left to start.
    pub open spec fn inv(self) -> bool {
        &&& self.pool.wf()
        &&& self.pool.is_staffed()
        &&& !self.stopping ==> self.pool.is_aligned(self.settings)
        &&& self.stopping ==> self.pool.handles.len() == 0
    }
}

/// A processor that starts holds exactly the sockets its settings describe, all running.
pub proof fn law_start_opens_every_socket(settings: ClientView)
    requires
        PoolView::empty().has_room(settings.normalized()),
    ensures
        (ClientProcView { settings, pool: PoolView::empty(), stopping: false }).started().inv(),
{
    law_reload_aligns_the_pool(PoolView::empty(), settings.normalized());
}

/// Whatever reaches the processor, its sockets stay sound, all running, and exactly the ones its
/// settings describe, until it is told to stop.
pub proof fn law_processor_stays_aligned(processor: ClientProcView, event: ClientEvent)
    requires
        processor.inv(),
        processor.expects(event),
        event matches ClientEvent::Ended { stopping, .. } ==> !stopping,
    ensures
        processor.after(event).inv(),
{
    match event {
        ClientEvent::Service => {},
        ClientEvent::Config(config) => {
            if let Some(settings) = ClientProcView::reloaded(config) {
                if !processor.stopping {
                    law_reload_aligns_the_pool(processor.pool, settings);
                }
            }
        },
        ClientEvent::Shutdown => {},
        ClientEvent::Ended { ended, .. } => {
            if !processor.stopping {
                law_pool_never_shrinks(processor.pool, ended, processor.settings);
            }
        },
    }
}

/// Negotiating HTTP/2 first on every SSL backend is done once and for all.
pub proof fn law_normalize_settings_is_idempotent(settings: ClientView)
    ensures
        settings.normalized().normalized() == settings.normalized(),
{
    assert forall|i: int| 0 <= i < settings.backends.len() implies normalized_target(
        #[trigger] settings.normalized().backends[i],
    ) == settings.normalized().backends[i] by {
        law_normalize_target_idempotent(settings.backends[i]);
    }
    assert(settings.normalized().normalized().backends =~= settings.normalized().backends);
}

/// Reading the same configuration again keeps every socket: nothing is stopped or opened, whether
/// or not HTTP/2 was already negotiated in what was read.
pub proof fn law_same_configuration_keeps_every_socket(
    processor: ClientProcView,
    settings: HyperClientSettings,
)
    requires
        processor.inv(),
        !processor.stopping,
        settings@.normalized() == processor.settings,
    ensures
        processor.after(ClientEvent::Config(Some(settings))) == processor,
        forall|i: int|
            0 <= i < processor.actions(ClientEvent::Config(Some(settings))).len() ==> (
            #[trigger] processor.actions(ClientEvent::Config(Some(settings)))[i]) is Update,
{
    lemma_aligned_stays(processor.pool, processor.settings);
    assert forall|i: int|
        0 <= i < processor.actions(ClientEvent::Config(Some(settings))).len() implies (
    #[trigger] processor.actions(ClientEvent::Config(Some(settings)))[i]) is Update by {
        assert(processor.pool.handles[i].backend(processor.settings) is Some);
    }
}

/// A configuration that can't be read or that has no backend changes nothing, and nothing is asked
/// of any socket.
pub proof fn law_bad_reload_is_ignored(
    processor: ClientProcView,
    config: Option<HyperClientSettings>,
)
    requires
        config matches Some(settings) ==> settings@.backends.len() == 0,
    ensures
        processor.after(ClientEvent::Config(config)) == processor,
        processor.actions(ClientEvent::Config(config)) == Seq::<ActionView>::empty(),
{
}

/// Once the processor was told to stop, it opens and starts no socket anymore, whatever reaches it.
pub proof fn law_stopping_processor_starts_nothing(
    processor: ClientProcView,
    event: ClientEvent,
    i: int,
)
    requires
        processor.inv(),
        processor.stopping,
        0 <= i < processor.actions(event).len(),
    ensures
        processor.after(event).stopping,
        processor.actions(event)[i] is Retire,
{
}

} // verus!
