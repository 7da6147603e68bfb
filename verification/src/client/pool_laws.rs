//! Which sockets a client keeps, and what each of them is asked, said of settings and sockets alone.
use crate::client::laws::{
    law_align_keeps_exactly_what_is_described, lemma_aligned_fills, lemma_closed, lemma_filter_at,
    lemma_filter_has, lemma_filter_pair, lemma_missing, lemma_slots,
};
use crate::client::pool::{
    first_backend, is_filled, is_first, kept, missing, opened, opened_at, slots, spawned,
    ActionView, EndedTask, HandleView, PoolView, SocketAction, SocketHandle,
};
use crate::client::proc::{
    default_client, ClientEvent, ClientProcView, ClientView, HyperClientSettings,
};
use crate::io::{negotiating, Connection, TargetView};
use vstd::prelude::*;

verus! {

/// Whether settings ask for a socket at a position of every backend. Asking for none is asking for
/// the first.
pub open spec fn wants_index(settings: ClientView, index: int) -> bool {
    0 <= index && (index < settings.nb_socket || index == 0)
}

/// Whether a backend is the first of a list to open a connection.
pub open spec fn is_first_to_open(
    backends: Seq<TargetView>,
    backend: int,
    connection: Connection,
) -> bool {
    &&& 0 <= backend < backends.len()
    &&& backends[backend].connection == connection
    &&& forall|j: int| 0 <= j < backend ==> (#[trigger] backends[j]).connection != connection
}

/// Whether settings ask for a socket: for its service, its position, and a backend it connects to.
pub open spec fn describes(settings: ClientView, handle: HandleView) -> bool {
    &&& wants_index(settings, handle.index as int)
    &&& handle.service_name == settings.service_name
    &&& exists|b: int| #[trigger]
        is_first_to_open(settings.backends, b, handle.target.connection)
}

/// A client keeps at least one socket per backend, and as many as it is asked for beyond that.
pub proof fn law_sockets_are_never_none(settings: ClientView, index: int)
    ensures
        0 <= index < settings.sockets() <==> wants_index(settings, index),
{
}

/// The backend that the search gives is the first to open the connection, with its own times, and
/// there is one exactly when some backend opens it.
pub proof fn law_first_backend_is_found(backends: Seq<TargetView>, connection: Connection)
    ensures
        match first_backend(backends, connection) {
            Some(found) => exists|b: int| #[trigger]
                is_first_to_open(backends, b, connection) && backends[b] == found,
            None => forall|b: int|
                0 <= b < backends.len() ==> (#[trigger] backends[b]).connection != connection,
        },
    decreases backends.len(),
{
    if backends.len() > 0 {
        let before = backends.drop_last();
        law_first_backend_is_found(before, connection);
        match first_backend(before, connection) {
            Some(found) => {
                let b = choose|b: int| #[trigger]
                    is_first_to_open(before, b, connection) && before[b] == found;
                assert forall|j: int| 0 <= j < b implies (#[trigger] backends[j]).connection
                    != connection by {
                    assert(before[j] == backends[j]);
                }
                assert(backends[b] == before[b]);
                assert(is_first_to_open(backends, b, connection));
            },
            None => {
                let last = backends.len() - 1;
                assert forall|j: int| 0 <= j < last implies (#[trigger] backends[j]).connection
                    != connection by {
                    assert(before[j] == backends[j]);
                }
                if backends[last].connection == connection {
                    assert(is_first_to_open(backends, last, connection));
                }
            },
        }
    }
}

/// A socket has a backend exactly when the settings describe it, and it is the first one that opens
/// its connection.
pub proof fn law_socket_has_its_backend(settings: ClientView, handle: HandleView)
    ensures
        handle.backend(settings) is Some <==> describes(settings, handle),
        handle.backend(settings) matches Some(backend) ==> exists|b: int| #[trigger]
            is_first_to_open(settings.backends, b, handle.target.connection)
                && settings.backends[b] == backend,
{
    law_first_backend_is_found(settings.backends, handle.target.connection);
}

/// Where an opened socket stands among the positions that were missing.
proof fn lemma_opened(pool: PoolView, settings: ClientView, k: int)
    requires
        pool.has_room(settings),
        0 <= k < missing(settings, pool.handles).len(),
    ensures
        ({
            let handle = opened(settings, pool.next_id, missing(settings, pool.handles))[k];
            &&& handle.id == pool.next_id + k
            &&& wants_index(settings, handle.index as int)
            &&& handle.service_name == settings.service_name
            &&& exists|b: int| #[trigger]
                is_first_to_open(settings.backends, b, handle.target.connection)
                    && handle.target == settings.backends[b]
        }),
{
    lemma_missing(settings, pool.handles);
    let slot = missing(settings, pool.handles)[k];
    let handle = opened(settings, pool.next_id, missing(settings, pool.handles))[k];
    assert(handle == opened_at(settings, pool.next_id + k, slot));
    assert(is_first_to_open(settings.backends, slot.0, handle.target.connection));
}

/// Bringing a pool in line opens a socket at every position that the settings ask for, of every
/// backend, under the service of the settings.
pub proof fn law_every_wanted_socket_is_open(
    pool: PoolView,
    settings: ClientView,
    backend: int,
    index: int,
)
    requires
        0 <= backend < settings.backends.len(),
        wants_index(settings, index),
    ensures
        exists|h: int|
            0 <= h < pool.aligned(settings).handles.len() && (#[trigger] pool.aligned(
                settings,
            ).handles[h]).index == index && pool.aligned(settings).handles[h].target.connection
                == settings.backends[backend].connection && pool.aligned(
                settings,
            ).handles[h].service_name == settings.service_name,
{
    lemma_aligned_fills(pool, settings, backend, index);
    let after = pool.aligned(settings);
    let h = choose|h: int|
        0 <= h < after.handles.len() && (#[trigger] after.handles[h]).fills(
            settings,
            (backend, index),
        );
    assert(after.handles[h].index == index);
}

/// A socket of a pool brought in line is one that was there and that the settings describe, or a new
/// one: on a backend of the settings just as it is configured, connection timeout included, the
/// first that opens its connection, at a position that is asked for and under their service.
pub proof fn law_opened_sockets_are_on_their_backend(pool: PoolView, settings: ClientView, h: int)
    requires
        pool.has_room(settings),
        0 <= h < pool.aligned(settings).handles.len(),
    ensures
        ({
            let handle = pool.aligned(settings).handles[h];
            ||| pool.handles.contains(handle) && describes(settings, handle)
            ||| {
                &&& pool.next_id <= handle.id < pool.aligned(settings).next_id
                &&& wants_index(settings, handle.index as int)
                &&& handle.service_name == settings.service_name
                &&& exists|b: int| #[trigger]
                    is_first_to_open(settings.backends, b, handle.target.connection)
                        && handle.target == settings.backends[b]
            }
        }),
{
    let stays = |handle: HandleView| handle.backend(settings) is Some;
    let n = kept(settings, pool.handles).len();
    if h < n {
        let a = lemma_filter_at(pool.handles, stays, h);
        law_socket_has_its_backend(settings, pool.handles[a]);
        assert(pool.handles.contains(pool.handles[a]));
    } else {
        lemma_opened(pool, settings, h - n);
    }
}

/// A socket stays exactly when the new settings describe it, and it stays just as it is.
pub proof fn law_described_sockets_stay(pool: PoolView, settings: ClientView, i: int)
    requires
        pool.has_room(settings),
        0 <= i < pool.handles.len(),
    ensures
        pool.aligned(settings).handles.contains(pool.handles[i]) <==> describes(
            settings,
            pool.handles[i],
        ),
{
    let stays = |handle: HandleView| handle.backend(settings) is Some;
    let after = pool.aligned(settings);
    law_socket_has_its_backend(settings, pool.handles[i]);
    if describes(settings, pool.handles[i]) {
        let k = lemma_filter_has(pool.handles, stays, i);
        assert(after.handles[k] == pool.handles[i]);
    }
    if after.handles.contains(pool.handles[i]) {
        let h = choose|h: int| 0 <= h < after.handles.len() && after.handles[h] == pool.handles[i];
        law_opened_sockets_are_on_their_backend(pool, settings, h);
    }
}

/// A pool brought in line has no two sockets under one slot id, nor two at one position of one
/// connection.
pub proof fn law_sockets_are_distinct(pool: PoolView, settings: ClientView, i: int, j: int)
    requires
        pool.wf(),
        pool.has_room(settings),
        0 <= i < j < pool.aligned(settings).handles.len(),
    ensures
        ({
            let left = pool.aligned(settings).handles[i];
            let right = pool.aligned(settings).handles[j];
            &&& left.id != right.id
            &&& left.index != right.index || left.target.connection != right.target.connection
        }),
{
    law_align_keeps_exactly_what_is_described(pool, settings);
}

/// The slot ids given to the sockets that are opened follow the ones given before, without a hole,
/// and they are what runs on top of what ran.
pub proof fn law_opened_sockets_run(pool: PoolView, settings: ClientView, id: u32)
    requires
        pool.has_room(settings),
    ensures
        pool.aligned(settings).tasks.contains(id) <==> pool.tasks.contains(id) || pool.next_id <= id
            < pool.aligned(settings).next_id,
        pool.next_id <= id < pool.aligned(settings).next_id ==> exists|h: int|
            0 <= h < pool.aligned(settings).handles.len() && (#[trigger] pool.aligned(
                settings,
            ).handles[h]).id == id,
{
    let n = kept(settings, pool.handles).len();
    let at = missing(settings, pool.handles);
    if pool.next_id <= id < pool.aligned(settings).next_id {
        let k = id - pool.next_id;
        lemma_opened(pool, settings, k);
        assert(pool.aligned(settings).handles[n + k] == opened(settings, pool.next_id, at)[k]);
    }
}

/// Bringing a pool in line asks one thing of every socket there is, in order: one that the settings
/// describe is handed the connection timeout of its backend and the message timeout of the settings,
/// and any other is told to stop.
pub proof fn law_every_socket_is_told(pool: PoolView, settings: ClientView, i: int)
    requires
        0 <= i < pool.handles.len(),
    ensures
        ({
            let action = pool.align_actions(settings)[i];
            let handle = pool.handles[i];
            if describes(settings, handle) {
                exists|b: int| #[trigger]
                    is_first_to_open(settings.backends, b, handle.target.connection) && action == (
                    ActionView::Update {
                        id: handle.id,
                        connect_timeout: settings.backends[b].connect_timeout,
                        http_timeout: settings.http_timeout,
                    })
            } else {
                action == (ActionView::Stop { id: handle.id })
            }
        }),
{
    law_socket_has_its_backend(settings, pool.handles[i]);
}

/// Then it opens one socket for every slot id that is given, in order: on a backend of the settings
/// just as it is configured, connection timeout included, under their service and with their message
/// timeout. The pool holds that very socket.
pub proof fn law_every_opened_socket_is_spawned(pool: PoolView, settings: ClientView, k: int)
    requires
        pool.has_room(settings),
        0 <= k < pool.aligned(settings).next_id - pool.next_id,
    ensures
        pool.align_actions(settings).len() == pool.handles.len() + (pool.aligned(settings).next_id
            - pool.next_id),
        ({
            let action = pool.align_actions(settings)[pool.handles.len() + k];
            &&& action is Spawn
            &&& action->Spawn_id == pool.next_id + k
            &&& action->Spawn_service_name == settings.service_name
            &&& action->Spawn_http_timeout == settings.http_timeout
            &&& exists|b: int| #[trigger]
                is_first_to_open(settings.backends, b, action->target.connection) && action->target
                    == settings.backends[b]
            &&& exists|h: int|
                0 <= h < pool.aligned(settings).handles.len() && (#[trigger] pool.aligned(
                    settings,
                ).handles[h]).id == action->Spawn_id && pool.aligned(settings).handles[h].target
                    == action->target && pool.aligned(settings).handles[h].service_name
                    == action->Spawn_service_name
        }),
{
    let n = kept(settings, pool.handles).len();
    let at = missing(settings, pool.handles);
    lemma_opened(pool, settings, k);
    assert(pool.aligned(settings).handles[n + k] == opened(settings, pool.next_id, at)[k]);
}

/// Bringing a pool in line asks nothing else than to open the sockets that are missing, once each
/// socket there was told what becomes of it.
pub proof fn law_nothing_else_is_asked(pool: PoolView, settings: ClientView)
    requires
        pool.has_room(settings),
    ensures
        pool.align_actions(settings).len() == pool.handles.len() + (pool.aligned(settings).next_id
            - pool.next_id),
{
}

/// Filtering keeps the order of what it keeps.
proof fn lemma_filter_order<T>(s: Seq<T>, pred: spec_fn(T) -> bool, a: int, b: int) -> (r: (
    int,
    int,
))
    requires
        0 <= a < b < s.len(),
        pred(s[a]),
        pred(s[b]),
    ensures
        0 <= r.0 < r.1 < s.filter(pred).len(),
        s.filter(pred)[r.0] == s[a],
        s.filter(pred)[r.1] == s[b],
    decreases s.len(),
{
    reveal(Seq::filter);
    if b == s.len() - 1 {
        (lemma_filter_has(s.drop_last(), pred, a), s.filter(pred).len() - 1)
    } else {
        lemma_filter_order(s.drop_last(), pred, a, b)
    }
}

/// Positions come backend by backend, and socket by socket within one.
proof fn lemma_slots_order(backends: nat, sockets: nat, k: int, l: int)
    requires
        0 <= k < l < slots(backends, sockets).len(),
    ensures
        ({
            let left = slots(backends, sockets)[k];
            let right = slots(backends, sockets)[l];
            left.0 < right.0 || (left.0 == right.0 && left.1 < right.1)
        }),
    decreases backends,
{
    if backends > 0 {
        let before = slots((backends - 1) as nat, sockets);
        lemma_slots((backends - 1) as nat, sockets);
        if l < before.len() {
            lemma_slots_order((backends - 1) as nat, sockets, k, l);
        } else if k < before.len() {
            assert(slots(backends, sockets)[k] == before[k]);
        }
    }
}

/// The sockets that stay keep their order.
pub proof fn law_sockets_stay_in_order(pool: PoolView, settings: ClientView, a: int, b: int)
    requires
        0 <= a < b < pool.handles.len(),
        describes(settings, pool.handles[a]),
        describes(settings, pool.handles[b]),
    ensures
        exists|i: int, j: int|
            0 <= i < j < pool.aligned(settings).handles.len() && #[trigger] pool.aligned(
                settings,
            ).handles[i] == pool.handles[a] && #[trigger] pool.aligned(settings).handles[j]
                == pool.handles[b],
{
    let stays = |handle: HandleView| handle.backend(settings) is Some;
    law_socket_has_its_backend(settings, pool.handles[a]);
    law_socket_has_its_backend(settings, pool.handles[b]);
    let (i, j) = lemma_filter_order(pool.handles, stays, a, b);
    assert(pool.aligned(settings).handles[i] == pool.handles[a]);
    assert(pool.aligned(settings).handles[j] == pool.handles[b]);
}

/// The sockets that are opened come after the ones that stay, backend by backend in the order of the
/// settings, and position by position within one.
pub proof fn law_sockets_open_in_order(pool: PoolView, settings: ClientView, i: int, j: int)
    requires
        pool.wf(),
        pool.has_room(settings),
        0 <= i < j < pool.aligned(settings).handles.len(),
        pool.aligned(settings).handles[i].id >= pool.next_id,
    ensures
        ({
            let left = pool.aligned(settings).handles[i];
            let right = pool.aligned(settings).handles[j];
            &&& right.id == left.id + (j - i)
            &&& exists|a: int, b: int| #[trigger]
                is_first_to_open(settings.backends, a, left.target.connection)
                    && #[trigger] is_first_to_open(settings.backends, b, right.target.connection)
                    && (a < b || (a == b && left.index < right.index))
        }),
{
    let stays = |handle: HandleView| handle.backend(settings) is Some;
    let all = slots(settings.backends.len(), settings.sockets() as nat);
    let free = |slot: (int, int)|
        is_first(settings, slot.0) && !is_filled(settings, pool.handles, slot);
    let at = missing(settings, pool.handles);
    let n = kept(settings, pool.handles).len();
    let left = pool.aligned(settings).handles[i];
    let right = pool.aligned(settings).handles[j];
    if i < n {
        let a = lemma_filter_at(pool.handles, stays, i);
        assert(pool.handles[a].id < pool.next_id);
    }
    lemma_missing(settings, pool.handles);
    let (k, l) = lemma_filter_pair(all, free, i - n, j - n);
    lemma_slots_order(settings.backends.len(), settings.sockets() as nat, k, l);
    let (x, y) = (at[i - n], at[j - n]);
    assert(left == opened_at(settings, pool.next_id + (i - n), x));
    assert(right == opened_at(settings, pool.next_id + (j - n), y));
    assert(is_first_to_open(settings.backends, x.0, left.target.connection));
    assert(is_first_to_open(settings.backends, y.0, right.target.connection));
}

/// Closing a slot keeps the order of the others.
pub proof fn law_closing_keeps_the_order(pool: PoolView, id: u32, a: int, b: int)
    requires
        0 <= a < b < pool.handles.len(),
        pool.handles[a].id != id,
        pool.handles[b].id != id,
    ensures
        exists|i: int, j: int|
            0 <= i < j < pool.closed(id).handles.len() && #[trigger] pool.closed(id).handles[i]
                == pool.handles[a] && #[trigger] pool.closed(id).handles[j] == pool.handles[b],
{
    let other = |handle: HandleView| handle.id != id;
    let (i, j) = lemma_filter_order(pool.handles, other, a, b);
    assert(pool.closed(id).handles[i] == pool.handles[a]);
    assert(pool.closed(id).handles[j] == pool.handles[b]);
}

/// Opening one socket puts it last, on the backend it is given just as that is, under the next slot id,
/// and asks for just that.
pub proof fn law_one_more_socket(
    pool: PoolView,
    target: TargetView,
    index: u32,
    settings: ClientView,
    i: int,
)
    requires
        pool.next_id < u32::MAX,
    ensures
        ({
            let after = pool.with_socket(target, index, settings);
            let socket = after.handles[pool.handles.len() as int];
            let action = spawned(settings, pool.next_socket(target, index, settings));
            &&& after.handles.len() == pool.handles.len() + 1
            &&& 0 <= i < pool.handles.len() ==> after.handles[i] == pool.handles[i]
            &&& socket.id == pool.next_id
            &&& socket.target == target
            &&& socket.index == index
            &&& socket.service_name == settings.service_name
            &&& after.tasks == pool.tasks.insert(pool.next_id)
            &&& after.next_id == pool.next_id + 1
            &&& action is Spawn
            &&& action->Spawn_id == pool.next_id
            &&& action->target == target
            &&& action->Spawn_service_name == settings.service_name
            &&& action->Spawn_http_timeout == settings.http_timeout
        }),
{
}

/// How many positions there are.
proof fn lemma_slots_len(backends: nat, sockets: nat)
    ensures
        slots(backends, sockets).len() == backends * sockets,
    decreases backends,
{
    if backends > 0 {
        lemma_slots_len((backends - 1) as nat, sockets);
        assert(backends * sockets == (backends - 1) * sockets + sockets) by (nonlinear_arith)
            requires
                backends > 0,
        ;
    } else {
        assert(0 * sockets == 0) by (nonlinear_arith);
    }
}

/// There is room for the sockets of some settings as long as the slot ids that are left are as many
/// as the sockets they ask for.
pub proof fn law_there_is_room(pool: PoolView, settings: ClientView)
    requires
        pool.next_id + settings.backends.len() * settings.sockets() <= u32::MAX,
    ensures
        pool.has_room(settings),
{
    let all = slots(settings.backends.len(), settings.sockets() as nat);
    lemma_slots_len(settings.backends.len(), settings.sockets() as nat);
    all.lemma_filter_len(
        |slot: (int, int)|
            is_first(settings, slot.0) && !is_filled(
                settings,
                pool.handles,
                slot,
            ),
    );
}

/// A task that ended can be taken back whatever room there is, and one that panicked as long as there
/// is room for the sockets of the settings or nothing is started anymore.
pub proof fn law_tasks_can_be_taken_back(
    pool: PoolView,
    id: u32,
    settings: ClientView,
    stopping: bool,
)
    ensures
        pool.can_take_back(EndedTask::Ended { id }, settings, stopping),
        stopping ==> pool.can_take_back(EndedTask::Panicked { id }, settings, stopping),
        pool.next_id + settings.backends.len() * settings.sockets() <= u32::MAX
            ==> pool.can_take_back(EndedTask::Panicked { id }, settings, stopping),
{
    if pool.next_id + settings.backends.len() * settings.sockets() <= u32::MAX {
        law_there_is_room(pool.closed(id), settings);
    }
}

/// When the task of a socket ends and ProSA is not stopping, the socket is started again exactly when
/// its slot is open, and let go otherwise. That is all that is asked, no slot opens or closes, and the
/// slot runs exactly when it was started again.
pub proof fn law_open_slots_are_restarted(
    pool: PoolView,
    id: u32,
    settings: ClientView,
    stopping: bool,
)
    ensures
        ({
            let ended = EndedTask::Ended { id };
            let after = pool.taken_back(ended, settings, stopping);
            let actions = pool.take_back_actions(ended, settings, stopping);
            let open = exists|h: int|
                0 <= h < pool.handles.len() && (#[trigger] pool.handles[h]).id == id;
            &&& actions.len() == 1
            &&& open && !stopping ==> actions[0] == (ActionView::Restart { id })
            &&& !open || stopping ==> actions[0] == (ActionView::Retire { id })
            &&& after.handles == pool.handles
            &&& after.next_id == pool.next_id
            &&& after.tasks.contains(id) <==> open && !stopping
            &&& forall|other: u32|
                other != id ==> (#[trigger] after.tasks.contains(other) <==> pool.tasks.contains(
                    other,
                ))
        }),
{
    assert(pool.is_open(id) <==> exists|h: int|
        0 <= h < pool.handles.len() && (#[trigger] pool.handles[h]).id == id);
}

/// Closing a slot takes away the sockets under its id and no other, and nothing runs under it.
pub proof fn law_closing_takes_one_slot_away(pool: PoolView, id: u32, handle: HandleView)
    ensures
        pool.closed(id).handles.contains(handle) <==> pool.handles.contains(handle) && handle.id
            != id,
        pool.closed(id).tasks == pool.tasks.remove(id),
        pool.closed(id).next_id == pool.next_id,
{
    let other = |handle: HandleView| handle.id != id;
    if pool.closed(id).handles.contains(handle) {
        let i = choose|i: int|
            0 <= i < pool.closed(id).handles.len() && pool.closed(id).handles[i] == handle;
        let a = lemma_filter_at(pool.handles, other, i);
    }
    if pool.handles.contains(handle) && handle.id != id {
        let a = choose|a: int| 0 <= a < pool.handles.len() && pool.handles[a] == handle;
        let i = lemma_filter_has(pool.handles, other, a);
        assert(pool.closed(id).handles[i] == handle);
    }
}

/// A task that panics while ProSA stops has its slot closed, and nothing is asked for it.
pub proof fn law_panic_while_stopping_asks_nothing(
    pool: PoolView,
    id: u32,
    settings: ClientView,
    handle: HandleView,
)
    ensures
        ({
            let ended = EndedTask::Panicked { id };
            let after = pool.taken_back(ended, settings, true);
            &&& pool.take_back_actions(ended, settings, true).len() == 0
            &&& after.handles.contains(handle) <==> pool.handles.contains(handle) && handle.id != id
            &&& after.tasks == pool.tasks.remove(id)
            &&& after.next_id == pool.next_id
        }),
{
    law_closing_takes_one_slot_away(pool, id, handle);
}

/// A task that panics while ProSA runs has its slot closed, and its socket opened again at the same
/// position of the same connection, under an id that no socket had.
pub proof fn law_panicked_slot_is_opened_again(
    pool: PoolView,
    i: int,
    settings: ClientView,
)
    requires
        pool.wf(),
        0 <= i < pool.handles.len(),
        describes(settings, pool.handles[i]),
        pool.can_take_back(EndedTask::Panicked { id: pool.handles[i].id }, settings, false),
    ensures
        ({
            let lost = pool.handles[i];
            let ended = EndedTask::Panicked { id: lost.id };
            let after = pool.taken_back(ended, settings, false);
            let actions = pool.take_back_actions(ended, settings, false);
            &&& !after.handles.contains(lost)
            &&& !after.tasks.contains(lost.id)
            &&& exists|h: int|
                0 <= h < after.handles.len() && (#[trigger] after.handles[h]).index == lost.index
                    && after.handles[h].target.connection == lost.target.connection
                    && after.handles[h].service_name == lost.service_name && after.handles[h].id
                    >= pool.next_id && after.tasks.contains(after.handles[h].id)
            &&& exists|k: int|
                0 <= k < actions.len() && (#[trigger] actions[k]) is Spawn
                    && actions[k]->target.connection == lost.target.connection
                    && actions[k]->Spawn_service_name == lost.service_name
        }),
{
    let lost = pool.handles[i];
    let left = pool.closed(lost.id);
    let after = left.aligned(settings);
    let other = |handle: HandleView| handle.id != lost.id;
    lemma_closed(pool, lost.id);
    let b = choose|b: int| #[trigger]
        is_first_to_open(settings.backends, b, lost.target.connection);
    law_every_wanted_socket_is_open(left, settings, b, lost.index as int);
    let h = choose|h: int|
        0 <= h < after.handles.len() && (#[trigger] after.handles[h]).index == lost.index
            && after.handles[h].target.connection == settings.backends[b].connection
            && after.handles[h].service_name == settings.service_name;
    law_opened_sockets_are_on_their_backend(left, settings, h);
    if left.handles.contains(after.handles[h]) {
        law_closing_takes_one_slot_away(pool, lost.id, after.handles[h]);
        let a = choose|a: int| 0 <= a < pool.handles.len() && pool.handles[a] == after.handles[h];
        assert(pool.handles[a].same_slot(pool.handles[i]));
        if a < i {
            assert(pool.handles[a].id != pool.handles[i].id);
        } else if i < a {
            assert(pool.handles[i].same_slot(pool.handles[a]));
        }
    }
    law_opened_sockets_run(left, settings, after.handles[h].id);
    law_opened_sockets_run(left, settings, lost.id);
    let k = after.handles[h].id - left.next_id;
    law_every_opened_socket_is_spawned(left, settings, k);
    let actions = left.align_actions(settings);
    let n = kept(settings, left.handles).len();
    if h < n {
        let a = lemma_filter_at(
            left.handles,
            |handle: HandleView| handle.backend(settings) is Some,
            h,
        );
        assert(left.handles.contains(left.handles[a]));
    }
    lemma_opened(left, settings, h - n);
    assert(h == n + k);
    assert(actions[left.handles.len() + k] == spawned(settings, after.handles[n + k]));
    assert(pool.take_back_actions(EndedTask::Panicked { id: lost.id }, settings, false) == actions);
    if after.handles.contains(lost) {
        let k = choose|k: int| 0 <= k < after.handles.len() && after.handles[k] == lost;
        law_opened_sockets_are_on_their_backend(left, settings, k);
        law_closing_takes_one_slot_away(pool, lost.id, lost);
    }
}

/// Whatever slot a task that panics had, the pool that is left without it is brought in line with the
/// settings, and asked just that.
pub proof fn law_panic_brings_the_pool_in_line(pool: PoolView, id: u32, settings: ClientView)
    ensures
        ({
            let ended = EndedTask::Panicked { id };
            &&& pool.taken_back(ended, settings, false) == pool.closed(id).aligned(settings)
            &&& pool.take_back_actions(ended, settings, false) == pool.closed(id).align_actions(
                settings,
            )
        }),
{
}

/// A pool that is told to stop tells every socket to, in order and once, and keeps none. What runs
/// still does until it ends.
pub proof fn law_every_socket_is_told_to_stop(pool: PoolView, i: int)
    requires
        0 <= i < pool.handles.len(),
    ensures
        pool.stop_actions().len() == pool.handles.len(),
        pool.stop_actions()[i] == (ActionView::Stop { id: pool.handles[i].id }),
        pool.stopped().handles.len() == 0,
        pool.stopped().tasks == pool.tasks,
        pool.stopped().next_id == pool.next_id,
{
}

/// A pool that stops without socket asks nothing.
pub proof fn law_empty_pool_stops_silently(pool: PoolView)
    requires
        pool.handles.len() == 0,
    ensures
        pool.stop_actions().len() == 0,
        pool.stopped() == pool,
{
    assert(pool.stopped().handles =~= pool.handles);
}

/// A task that ends while the pool stops is the only one that does not run anymore.
pub proof fn law_drained_task_runs_no_more(pool: PoolView, id: u32, other: u32)
    ensures
        ({
            let ended = pool.drained(EndedTask::Ended { id });
            let panicked = pool.drained(EndedTask::Panicked { id });
            &&& ended.tasks.contains(other) <==> pool.tasks.contains(other) && other != id
            &&& panicked.tasks.contains(other) <==> pool.tasks.contains(other) && other != id
            &&& ended.handles == pool.handles && panicked.handles == pool.handles
            &&& ended.next_id == pool.next_id && panicked.next_id == pool.next_id
        }),
{
}

/// A new pool has no socket, runs none, and gives slot ids from one on.
pub proof fn law_new_pool_is_empty()
    ensures
        PoolView::empty().handles.len() == 0,
        PoolView::empty().next_id == 1,
        forall|id: u32| !#[trigger] PoolView::empty().tasks.contains(id),
{
}

/// Normalizing settings changes nothing of them but the SSL configuration of their backends.
pub proof fn law_normalizing_keeps_the_rest(settings: ClientView, i: int)
    ensures
        settings.normalized().service_name == settings.service_name,
        settings.normalized().nb_socket == settings.nb_socket,
        settings.normalized().http_timeout == settings.http_timeout,
        settings.normalized().reconnect_delay == settings.reconnect_delay,
        settings.normalized().max_reconnect_delay == settings.max_reconnect_delay,
        settings.normalized().backends.len() == settings.backends.len(),
        0 <= i < settings.backends.len() ==> {
            let before = settings.backends[i];
            let after = settings.normalized().backends[i];
            &&& after.connection.url == before.connection.url
            &&& after.connection.proxy == before.connection.proxy
            &&& after.connect_timeout == before.connect_timeout
            &&& after.connection.ssl == negotiating(
                before.connection.url,
                before.connection.ssl,
                seq!["h2"@, "http/1.1"@],
            )
        },
{
}

/// Settings that only name a service have no backend, one socket, five seconds for a message, half a
/// second before the first reconnection and half a minute at most.
pub proof fn law_default_settings(service_name: Seq<char>)
    ensures
        default_client(service_name).service_name == service_name,
        default_client(service_name).backends.len() == 0,
        default_client(service_name).nb_socket == 1,
        default_client(service_name).http_timeout == 5000,
        default_client(service_name).reconnect_delay == 500,
        default_client(service_name).max_reconnect_delay == 30000,
{
}

/// A processor that starts puts its settings in force, HTTP/2 negotiated first, and brings its pool
/// in line with them.
pub proof fn law_start_aligns_with_the_settings(processor: ClientProcView)
    ensures
        processor.started().settings == processor.settings.normalized(),
        processor.started().pool == processor.pool.aligned(processor.settings.normalized()),
        processor.started().stopping == processor.stopping,
{
}

/// A reload with a backend puts what was read in force, HTTP/2 negotiated first, brings the pool in
/// line with it, and asks of the sockets what that takes.
pub proof fn law_reload_takes_the_settings(
    processor: ClientProcView,
    settings: HyperClientSettings,
)
    requires
        !processor.stopping,
        settings@.backends.len() > 0,
    ensures
        ({
            let event = ClientEvent::Config(Some(settings));
            let after = processor.after(event);
            &&& after.settings == settings@.normalized()
            &&& after.pool == processor.pool.aligned(settings@.normalized())
            &&& !after.stopping
            &&& processor.actions(event) == processor.pool.align_actions(settings@.normalized())
        }),
{
}

/// A processor that was told to stop takes no configuration anymore.
pub proof fn law_stopping_processor_reloads_nothing(
    processor: ClientProcView,
    config: Option<HyperClientSettings>,
)
    requires
        processor.stopping,
    ensures
        processor.after(ClientEvent::Config(config)) == processor,
        processor.actions(ClientEvent::Config(config)).len() == 0,
        processor.expects(ClientEvent::Config(config)),
{
}

/// A new service table changes nothing and asks nothing.
pub proof fn law_service_table_changes_no_socket(processor: ClientProcView)
    ensures
        processor.after(ClientEvent::Service) == processor,
        processor.actions(ClientEvent::Service).len() == 0,
        processor.expects(ClientEvent::Service),
{
}

/// A shutdown stops the pool for good under the settings in force, and every socket is told.
pub proof fn law_shutdown_stops_the_pool(processor: ClientProcView, i: int)
    ensures
        processor.after(ClientEvent::Shutdown).stopping,
        processor.after(ClientEvent::Shutdown).settings == processor.settings,
        processor.after(ClientEvent::Shutdown).pool.handles.len() == 0,
        processor.after(ClientEvent::Shutdown).pool.tasks == processor.pool.tasks,
        processor.actions(ClientEvent::Shutdown).len() == processor.pool.handles.len(),
        0 <= i < processor.pool.handles.len() ==> processor.actions(ClientEvent::Shutdown)[i] == (
        ActionView::Stop { id: processor.pool.handles[i].id }),
        processor.expects(ClientEvent::Shutdown),
{
}

/// A task that ends is taken back by the pool under the settings in force, which stay.
pub proof fn law_ended_task_goes_to_the_pool(
    processor: ClientProcView,
    ended: EndedTask,
    stopping: bool,
)
    requires
        !processor.stopping,
    ensures
        ({
            let event = ClientEvent::Ended { ended, stopping };
            let after = processor.after(event);
            &&& after.pool == processor.pool.taken_back(ended, processor.settings, stopping)
            &&& processor.actions(event) == processor.pool.take_back_actions(
                ended,
                processor.settings,
                stopping,
            )
            &&& after.settings == processor.settings
            &&& !after.stopping
        }),
{
}

/// A socket given back to a processor that stops is let go, and one that is lost asks nothing. Either
/// way its slot does not run anymore.
pub proof fn law_stopping_processor_lets_sockets_go(
    processor: ClientProcView,
    id: u32,
    stopping: bool,
)
    requires
        processor.stopping,
    ensures
        ({
            let ended = ClientEvent::Ended { ended: EndedTask::Ended { id }, stopping };
            let panicked = ClientEvent::Ended { ended: EndedTask::Panicked { id }, stopping };
            &&& processor.expects(ended) && processor.expects(panicked)
            &&& processor.actions(ended).len() == 1
            &&& processor.actions(ended)[0] == (ActionView::Retire { id })
            &&& processor.actions(panicked).len() == 0
            &&& processor.after(ended).pool.tasks == processor.pool.tasks.remove(id)
            &&& processor.after(panicked).pool.tasks == processor.pool.tasks.remove(id)
            &&& processor.after(ended).pool.handles == processor.pool.handles
            &&& processor.after(panicked).pool.handles == processor.pool.handles
        }),
{
}

/// A processor has room for every event as long as the slot ids that are left are as many as the
/// sockets its settings, and the ones it reads, ask for.
pub proof fn law_processor_has_room(processor: ClientProcView, event: ClientEvent)
    requires
        processor.pool.next_id + processor.settings.backends.len() * processor.settings.sockets()
            <= u32::MAX,
        event matches ClientEvent::Config(Some(settings)) ==> processor.pool.next_id
            + settings@.backends.len() * settings@.sockets() <= u32::MAX,
    ensures
        processor.expects(event),
{
    match event {
        ClientEvent::Config(Some(settings)) => {
            assert(settings@.normalized().backends.len() == settings@.backends.len());
            law_there_is_room(processor.pool, settings@.normalized());
        },
        ClientEvent::Ended { ended, stopping } => {
            law_tasks_can_be_taken_back(
                processor.pool,
                ended.slot(),
                processor.settings,
                stopping,
            );
        },
        _ => {},
    }
}

/// What is known of settings is all that they hold.
pub proof fn law_settings_view_is_faithful(settings: HyperClientSettings, i: int)
    ensures
        settings@.service_name == settings.service_name@,
        settings@.nb_socket == settings.nb_socket,
        settings@.http_timeout == settings.http_timeout,
        settings@.reconnect_delay == settings.reconnect_delay,
        settings@.max_reconnect_delay == settings.max_reconnect_delay,
        settings@.backends.len() == settings.backends@.len(),
        0 <= i < settings.backends@.len() ==> settings@.backends[i] == settings.backends@[i]@,
{
}

/// What is known of a socket is all that its handle holds.
pub proof fn law_handle_view_is_faithful(handle: SocketHandle)
    ensures
        handle@.id == handle.id,
        handle@.target == handle.target@,
        handle@.index == handle.index,
        handle@.service_name == handle.service_name@,
{
}

/// What is known of an action is all that it asks.
pub proof fn law_action_view_is_faithful(action: SocketAction)
    ensures
        match action {
            SocketAction::Update { id, connect_timeout, http_timeout } => action@ is Update
                && action@->Update_id == id && action@->connect_timeout == connect_timeout
                && action@->Update_http_timeout == http_timeout,
            SocketAction::Stop { id } => action@ is Stop && action@->Stop_id == id,
            SocketAction::Spawn { id, target, service_name, http_timeout } => action@ is Spawn
                && action@->Spawn_id == id && action@->target == target@
                && action@->Spawn_service_name == service_name@ && action@->Spawn_http_timeout
                == http_timeout,
            SocketAction::Restart { id } => action@ is Restart && action@->Restart_id == id,
            SocketAction::Retire { id } => action@ is Retire && action@->Retire_id == id,
        },
{
}

} // verus!
