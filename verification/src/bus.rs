//! The typed event bus: category-scoped handler registration and
//! publish/subscribe dispatch.
//!
//! Handlers for one key run in registration order; a failing handler does not
//! keep later handlers for the same key from running. A key with no handlers
//! is a silent no-op.

use vstd::prelude::*;

verus! {

use crate::events::EventCategory;
use crate::events::EventKey;
use crate::events::EventPayload;
use crate::events::HandlerAction;
use crate::events::HandlerError;
use crate::events::KeyV;
use crate::events::PlayerChatEvent;
use crate::jsonval::json_player_id;
use crate::position::Position;
use crate::store::PlayerData;
use crate::store::StateStore;
use crate::text::spec_greeting;
use crate::text::spec_stats_request;
use crate::text::is_greeting;
use crate::text::is_stats_request;

/// The handlers the sample plugin knows; handlers are registered as tagged
/// variants rather than as opaque callbacks.
#[derive(Clone, Copy, Debug, PartialEq, Eq, Structural)]
pub enum HandlerKind {
    /// Initializes a record for a connecting player.
    Connect,
    /// Drops the record of a disconnecting player.
    Disconnect,
    /// Counts a chat message and scans it for commands and greetings.
    Chat,
    /// Tracks a player's last known position.
    Move,
    /// Counts a jump and notices unusually high ones.
    Jump,
    /// Watches another plugin's activity log; accepts any payload.
    PluginLog,
    /// Watches item-use announcements; accepts any payload.
    PluginItem,
}

/// Whether some registry entry carries the key `k`.
pub open spec fn reg_has_key(s: Seq<(EventKey, Vec<HandlerKind>)>, k: KeyV) -> bool {
    exists|i: int| 0 <= i < s.len() && (#[trigger] s[i]).0@ == k
}

/// Whether the keys of the registry entries are pairwise distinct.
pub open spec fn reg_keys_unique(s: Seq<(EventKey, Vec<HandlerKind>)>) -> bool {
    forall|i: int, j: int| 0 <= i < j < s.len() ==> (#[trigger] s[i]).0@ != (#[trigger] s[j]).0@
}

/// The position of the registry entry that carries `k`.
pub open spec fn reg_index_of(s: Seq<(EventKey, Vec<HandlerKind>)>, k: KeyV) -> int {
    choose|i: int| 0 <= i < s.len() && (#[trigger] s[i]).0@ == k
}

/// The handlers that the registry holds for `k`, in registration order;
/// empty when no handler was registered for `k`.
pub open spec fn reg_lookup(s: Seq<(EventKey, Vec<HandlerKind>)>, k: KeyV) -> Seq<HandlerKind> {
    if reg_has_key(s, k) {
        s[reg_index_of(s, k)].1@
    } else {
        Seq::empty()
    }
}

/// With unique keys, the entry at position `i` is the one lookup reports for
/// its key.
proof fn lemma_reg_lookup_at(s: Seq<(EventKey, Vec<HandlerKind>)>, i: int)
    requires
        reg_keys_unique(s),
        0 <= i < s.len(),
    ensures
        reg_has_key(s, s[i].0@),
        reg_lookup(s, s[i].0@) == s[i].1@,
{
    let k = s[i].0@;
    assert(reg_has_key(s, k));
    let j = reg_index_of(s, k);
    if i != j {
        assert(s[i].0@ != s[j].0@);
    }
}

/// Appending an entry under a fresh key adds exactly that key's handlers.
proof fn lemma_reg_push(s: Seq<(EventKey, Vec<HandlerKind>)>, e: (EventKey, Vec<HandlerKind>))
    requires
        reg_keys_unique(s),
        !reg_has_key(s, e.0@),
    ensures
        reg_keys_unique(s.push(e)),
        forall|q: KeyV| q != e.0@ ==> #[trigger] reg_lookup(s.push(e), q) == reg_lookup(s, q),
        reg_lookup(s.push(e), e.0@) == e.1@,
{
    let t = s.push(e);
    assert forall|i: int, j: int| 0 <= i < j < t.len() implies (#[trigger] t[i]).0@ != (
    #[trigger] t[j]).0@ by {
        if j == s.len() as int {
            assert(t[i] == s[i]);
            if t[i].0@ == e.0@ {
                assert(reg_has_key(s, e.0@));
            }
        } else {
            assert(t[i] == s[i] && t[j] == s[j]);
        }
    }
    assert(t[s.len() as int] == e);
    lemma_reg_lookup_at(t, s.len() as int);
    assert forall|q: KeyV| q != e.0@ implies #[trigger] reg_lookup(t, q) == reg_lookup(s, q) by {
        if reg_has_key(t, q) {
            let i = choose|i: int| 0 <= i < t.len() && (#[trigger] t[i]).0@ == q;
            assert(i != s.len() as int);
            assert(t[i] == s[i]);
            lemma_reg_lookup_at(t, i);
            lemma_reg_lookup_at(s, i);
        } else {
            if reg_has_key(s, q) {
                let i = choose|i: int| 0 <= i < s.len() && (#[trigger] s[i]).0@ == q;
                assert(t[i] == s[i]);
                assert(reg_has_key(t, q));
            }
        }
    }
}

/// Swap-removing position `i` empties exactly its key's handlers.
proof fn lemma_reg_swap_remove(s: Seq<(EventKey, Vec<HandlerKind>)>, i: int)
    requires
        reg_keys_unique(s),
        0 <= i < s.len(),
    ensures
        reg_keys_unique(s.update(i, s.last()).drop_last()),
        !reg_has_key(s.update(i, s.last()).drop_last(), s[i].0@),
        forall|q: KeyV| q != s[i].0@ ==> #[trigger] reg_lookup(s.update(i, s.last()).drop_last(), q)
            == reg_lookup(s, q),
{
    let k = s[i].0@;
    let t = s.update(i, s.last()).drop_last();
    assert(t.len() == s.len() - 1);
    assert forall|p: int, q: int| 0 <= p < q < t.len() implies (#[trigger] t[p]).0@ != (
    #[trigger] t[q]).0@ by {
        let p0 = if p == i { s.len() - 1 } else { p };
        let q0 = if q == i { s.len() - 1 } else { q };
        assert(t[p] == s[p0] && t[q] == s[q0]);
        assert(p0 != q0);
    }
    assert forall|j: int| 0 <= j < t.len() implies (#[trigger] t[j]).0@ != k by {
        let j0 = if j == i { s.len() - 1 } else { j };
        assert(t[j] == s[j0]);
        assert(j0 != i ==> s[j0].0@ != s[i].0@);
        if j0 == i {
            assert(j == i && i == s.len() - 1);
            assert(j < t.len());
        }
    }
    assert forall|q: KeyV| q != k implies #[trigger] reg_lookup(t, q) == reg_lookup(s, q) by {
        if reg_has_key(t, q) {
            let j = choose|j: int| 0 <= j < t.len() && (#[trigger] t[j]).0@ == q;
            let j0 = if j == i { s.len() - 1 } else { j };
            assert(t[j] == s[j0]);
            lemma_reg_lookup_at(t, j);
            lemma_reg_lookup_at(s, j0);
        } else {
            if reg_has_key(s, q) {
                let j = choose|j: int| 0 <= j < s.len() && (#[trigger] s[j]).0@ == q;
                assert(j != i);
                if j == s.len() - 1 {
                    assert(i < s.len() - 1);
                    assert(t[i] == s[s.len() - 1]);
                    assert(reg_has_key(t, q));
                } else {
                    assert(t[j] == s[j]);
                    assert(reg_has_key(t, q));
                }
            }
        }
    }
}

/// A category-scoped publish/subscribe registry: each key maps to the
/// handlers registered for it, in registration order.
pub struct EventBus {
    registry: Vec<(EventKey, Vec<HandlerKind>)>,
}

impl EventBus {
    /// The registry keeps at most one entry per key.
    pub closed spec fn wf(self) -> bool {
        reg_keys_unique(self.registry@)
    }

    /// The handlers registered for `k`, in registration order.
    pub closed spec fn handlers_for(self, k: KeyV) -> Seq<HandlerKind> {
        reg_lookup(self.registry@, k)
    }

    /// A bus with no handlers registered.
    pub fn new() -> (r: EventBus)
        ensures
            r.wf(),
            forall|q: KeyV| #[trigger] r.handlers_for(q) == Seq::<HandlerKind>::empty(),
    {
        EventBus { registry: Vec::new() }
    }

    /// The position of the entry for `key`, if there is one.
    fn index_of(&self, key: &EventKey) -> (r: Option<usize>)
        requires
            self.wf(),
        ensures
            match r {
                Some(i) => i < self.registry@.len() && self.registry@[i as int].0@ == key@,
                None => !reg_has_key(self.registry@, key@),
            },
    {
        let mut i: usize = 0;
        while i < self.registry.len()
            invariant
                i <= self.registry@.len(),
                forall|j: int| 0 <= j < i ==> (#[trigger] self.registry@[j]).0@ != key@,
            decreases self.registry@.len() - i,
        {
            if self.registry[i].0.key_eq(key) {
                return Some(i);
            }
            i = i + 1;
        }
        None
    }

    /// Register one more handler for `key`; it runs after the handlers
    /// already registered for that key.
    pub fn register(&mut self, key: EventKey, kind: HandlerKind)
        requires
            old(self).wf(),
        ensures
            final(self).wf(),
            final(self).handlers_for(key@) == old(self).handlers_for(key@).push(kind),
            forall|q: KeyV| q != key@ ==> #[trigger] final(self).handlers_for(q) == old(
                self,
            ).handlers_for(q),
    {
        match self.index_of(&key) {
            Some(i) => {
                proof {
                    lemma_reg_lookup_at(self.registry@, i as int);
                    lemma_reg_swap_remove(self.registry@, i as int);
                }
                let (k0, mut hs) = self.registry.swap_remove(i);
                hs.push(kind);
                proof {
                    lemma_reg_push(self.registry@, (k0, hs));
                }
                self.registry.push((k0, hs));
            },
            None => {
                let mut hs: Vec<HandlerKind> = Vec::new();
                hs.push(kind);
                proof {
                    lemma_reg_push(self.registry@, (key, hs));
                    assert(old(self).handlers_for(key@) =~= Seq::<HandlerKind>::empty());
                    assert(Seq::<HandlerKind>::empty().push(kind) =~= seq![kind]);
                }
                self.registry.push((key, hs));
            },
        }
    }

    /// The handlers registered for `key`, in registration order.
    pub fn lookup(&self, key: &EventKey) -> (r: Vec<HandlerKind>)
        requires
            self.wf(),
        ensures
            r@ == self.handlers_for(key@),
    {
        match self.index_of(key) {
            Some(i) => {
                proof {
                    lemma_reg_lookup_at(self.registry@, i as int);
                }
                let mut out: Vec<HandlerKind> = Vec::new();
                let entry = &self.registry[i];
                let mut j: usize = 0;
                proof {
                    assert(Seq::<HandlerKind>::empty() =~= entry.1@.take(0));
                }
                while j < entry.1.len()
                    invariant
                        j <= entry.1@.len(),
                        out@ == entry.1@.take(j as int),
                    decreases entry.1@.len() - j,
                {
                    out.push(entry.1[j]);
                    proof {
                        assert(out@ =~= entry.1@.take(j as int + 1));
                    }
                    j = j + 1;
                }
                proof {
                    assert(entry.1@.take(entry.1@.len() as int) =~= entry.1@);
                }
                out
            },
            None => {
                let out: Vec<HandlerKind> = Vec::new();
                out
            },
        }
    }
}

/// The high-jump threshold: jumps strictly higher get a special notice.
pub const HIGH_JUMP_HEIGHT: i64 = 5;

/// `a - b`, stopping at zero.
pub open spec fn sat_sub(a: u64, b: u64) -> u64 {
    if a >= b {
        (a - b) as u64
    } else {
        0
    }
}

/// A counter incremented by one, stopping at its maximum.
pub open spec fn bump(c: u32) -> u32 {
    if c == u32::MAX {
        c
    } else {
        (c + 1) as u32
    }
}

/// The record after one more chat message.
pub open spec fn spec_bump_messages(d: PlayerData) -> PlayerData {
    PlayerData {
        join_time: d.join_time,
        last_position: d.last_position,
        message_count: bump(d.message_count),
        jump_count: d.jump_count,
    }
}

/// The record after one more jump.
pub open spec fn spec_bump_jumps(d: PlayerData) -> PlayerData {
    PlayerData {
        join_time: d.join_time,
        last_position: d.last_position,
        message_count: d.message_count,
        jump_count: bump(d.jump_count),
    }
}

/// The record after a move to `to`.
pub open spec fn spec_set_position(d: PlayerData, to: Position) -> PlayerData {
    PlayerData {
        join_time: d.join_time,
        last_position: Some(to),
        message_count: d.message_count,
        jump_count: d.jump_count,
    }
}

/// What one handler reports for a payload. The outcome depends only on
/// whether the payload has the shape the handler expects, never on the store
/// or on other handlers.
pub open spec fn handler_result(kind: HandlerKind, p: EventPayload) -> Result<(), HandlerError> {
    match kind {
        HandlerKind::Connect => match p {
            EventPayload::Connect { .. } => Ok(()),
            EventPayload::Json(_) => Ok(()),
            _ => Err(HandlerError::Deserialization),
        },
        HandlerKind::Disconnect => match p {
            EventPayload::Disconnect { .. } => Ok(()),
            EventPayload::Json(_) => Ok(()),
            _ => Err(HandlerError::Deserialization),
        },
        HandlerKind::Chat => match p {
            EventPayload::Chat(_) => Ok(()),
            _ => Err(HandlerError::Deserialization),
        },
        HandlerKind::Move => match p {
            EventPayload::Move(_) => Ok(()),
            _ => Err(HandlerError::Deserialization),
        },
        HandlerKind::Jump => match p {
            EventPayload::Jump(_) => Ok(()),
            _ => Err(HandlerError::Deserialization),
        },
        HandlerKind::PluginLog => Ok(()),
        HandlerKind::PluginItem => Ok(()),
    }
}

/// How one handler transforms the store.
pub open spec fn handler_store(
    kind: HandlerKind,
    p: EventPayload,
    m: Map<u64, PlayerData>,
    now: u64,
) -> Map<u64, PlayerData> {
    match (kind, p) {
        (HandlerKind::Connect, EventPayload::Connect { player_id }) => m.insert(
            player_id,
            PlayerData::spec_fresh(now),
        ),
        (HandlerKind::Disconnect, EventPayload::Disconnect { player_id }) => m.remove(player_id),
        (HandlerKind::Chat, EventPayload::Chat(ev)) => if m.contains_key(ev.player_id) {
            m.insert(ev.player_id, spec_bump_messages(m[ev.player_id]))
        } else {
            m
        },
        (HandlerKind::Move, EventPayload::Move(ev)) => if m.contains_key(ev.player_id) {
            m.insert(ev.player_id, spec_set_position(m[ev.player_id], ev.to_position))
        } else {
            m
        },
        (HandlerKind::Jump, EventPayload::Jump(ev)) => if m.contains_key(ev.player_id) {
            m.insert(ev.player_id, spec_bump_jumps(m[ev.player_id]))
        } else {
            m
        },
        _ => m,
    }
}

/// The notices a chat message provokes: a stats request first, then a
/// greeting notice when notifications are enabled.
pub open spec fn chat_actions(ev: PlayerChatEvent, notifications: bool) -> Seq<HandlerAction> {
    (if spec_stats_request(ev.message@) {
        seq![HandlerAction::StatsRequested { player_id: ev.player_id }]
    } else {
        Seq::empty()
    }) + (if notifications && spec_greeting(ev.message@) {
        seq![HandlerAction::GreetingDetected { player_id: ev.player_id }]
    } else {
        Seq::empty()
    })
}

/// The notices one handler asks the host to log or forward.
pub open spec fn handler_actions(
    kind: HandlerKind,
    p: EventPayload,
    m: Map<u64, PlayerData>,
    now: u64,
    notifications: bool,
) -> Seq<HandlerAction> {
    match (kind, p) {
        (HandlerKind::Connect, EventPayload::Connect { player_id }) => seq![
            HandlerAction::PlayerInitialized { player_id },
        ],
        (HandlerKind::Disconnect, EventPayload::Disconnect { player_id }) => if m.contains_key(
            player_id,
        ) {
            seq![
                HandlerAction::PlayerLeft {
                    player_id,
                    online_ms: sat_sub(now, m[player_id].join_time),
                },
            ]
        } else {
            Seq::empty()
        },
        (HandlerKind::Chat, EventPayload::Chat(ev)) => chat_actions(ev, notifications),
        (HandlerKind::Jump, EventPayload::Jump(ev)) => if ev.height > HIGH_JUMP_HEIGHT {
            seq![HandlerAction::HighJump { player_id: ev.player_id }]
        } else {
            Seq::empty()
        },
        _ => Seq::empty(),
    }
}

/// The outcome of every handler in `kinds`, in order: one entry per handler,
/// whatever the other handlers did.
pub open spec fn dispatch_results(kinds: Seq<HandlerKind>, p: EventPayload) -> Seq<
    Result<(), HandlerError>,
> {
    Seq::new(kinds.len(), |i: int| handler_result(kinds[i], p))
}

/// The store after every handler in `kinds` ran, in order.
pub open spec fn dispatch_store(
    kinds: Seq<HandlerKind>,
    p: EventPayload,
    m: Map<u64, PlayerData>,
    now: u64,
) -> Map<u64, PlayerData>
    decreases kinds.len(),
{
    if kinds.len() == 0 {
        m
    } else {
        dispatch_store(kinds.drop_first(), p, handler_store(kinds.first(), p, m, now), now)
    }
}

/// The notices of every handler in `kinds`, concatenated in order.
pub open spec fn dispatch_actions(
    kinds: Seq<HandlerKind>,
    p: EventPayload,
    m: Map<u64, PlayerData>,
    now: u64,
    notifications: bool,
) -> Seq<HandlerAction>
    decreases kinds.len(),
{
    if kinds.len() == 0 {
        Seq::empty()
    } else {
        handler_actions(kinds.first(), p, m, now, notifications) + dispatch_actions(
            kinds.drop_first(),
            p,
            handler_store(kinds.first(), p, m, now),
            now,
            notifications,
        )
    }
}

/// Running one more handler after `kinds` runs it on the store the first
/// `kinds` produced.
proof fn lemma_dispatch_snoc(
    kinds: Seq<HandlerKind>,
    x: HandlerKind,
    p: EventPayload,
    m: Map<u64, PlayerData>,
    now: u64,
    notifications: bool,
)
    ensures
        dispatch_store(kinds.push(x), p, m, now) == handler_store(
            x,
            p,
            dispatch_store(kinds, p, m, now),
            now,
        ),
        dispatch_actions(kinds.push(x), p, m, now, notifications) == dispatch_actions(
            kinds,
            p,
            m,
            now,
            notifications,
        ) + handler_actions(x, p, dispatch_store(kinds, p, m, now), now, notifications),
    decreases kinds.len(),
{
    let t = kinds.push(x);
    if kinds.len() == 0 {
        let m1 = handler_store(x, p, m, now);
        assert(t.first() == x);
        assert(t.drop_first() =~= Seq::<HandlerKind>::empty());
        assert(dispatch_store(Seq::<HandlerKind>::empty(), p, m1, now) == m1);
        assert(dispatch_store(t, p, m, now) == m1);
        assert(dispatch_actions(Seq::<HandlerKind>::empty(), p, m1, now, notifications)
            =~= Seq::<HandlerAction>::empty());
        let ha = handler_actions(x, p, m, now, notifications);
        assert(dispatch_actions(t, p, m, now, notifications) == ha + Seq::<
            HandlerAction,
        >::empty());
        assert(ha + Seq::<HandlerAction>::empty() =~= ha);
        assert(dispatch_actions(kinds, p, m, now, notifications) =~= Seq::<HandlerAction>::empty());
        assert(Seq::<HandlerAction>::empty() + ha =~= ha);
    } else {
        let m1 = handler_store(kinds.first(), p, m, now);
        assert(t.first() == kinds.first());
        assert(t.drop_first() =~= kinds.drop_first().push(x));
        lemma_dispatch_snoc(kinds.drop_first(), x, p, m1, now, notifications);
        let a = handler_actions(kinds.first(), p, m, now, notifications);
        let b = dispatch_actions(kinds.drop_first(), p, m1, now, notifications);
        let c = handler_actions(
            x,
            p,
            dispatch_store(kinds.drop_first(), p, m1, now),
            now,
            notifications,
        );
        assert(a + (b + c) =~= (a + b) + c);
    }
}

/// Run one handler: route the payload, update the store, record the notices.
fn run_handler(
    kind: HandlerKind,
    p: &EventPayload,
    store: &mut StateStore,
    now: u64,
    notifications: bool,
    actions: &mut Vec<HandlerAction>,
) -> (r: Result<(), HandlerError>)
    requires
        old(store).wf(),
    ensures
        final(store).wf(),
        r == handler_result(kind, *p),
        final(store)@ == handler_store(kind, *p, old(store)@, now),
        final(actions)@ == old(actions)@ + handler_actions(
            kind,
            *p,
            old(store)@,
            now,
            notifications,
        ),
{
    match kind {
        HandlerKind::Connect => match p {
            EventPayload::Connect { player_id } => {
                store.insert(*player_id, PlayerData::fresh(now));
                actions.push(HandlerAction::PlayerInitialized { player_id: *player_id });
                proof {
                    assert(actions@ =~= old(actions)@ + handler_actions(
                        kind,
                        *p,
                        old(store)@,
                        now,
                        notifications,
                    ));
                }
                Ok(())
            },
            EventPayload::Json(_) => {
                proof {
                    assert(actions@ =~= old(actions)@ + Seq::<HandlerAction>::empty());
                }
                Ok(())
            },
            _ => {
                proof {
                    assert(actions@ =~= old(actions)@ + Seq::<HandlerAction>::empty());
                }
                Err(HandlerError::Deserialization)
            },
        },
        HandlerKind::Disconnect => match p {
            EventPayload::Disconnect { player_id } => {
                match store.remove(*player_id) {
                    Some(d) => {
                        actions.push(
                            HandlerAction::PlayerLeft {
                                player_id: *player_id,
                                online_ms: now.saturating_sub(d.join_time),
                            },
                        );
                        proof {
                            assert(actions@ =~= old(actions)@ + handler_actions(
                                kind,
                                *p,
                                old(store)@,
                                now,
                                notifications,
                            ));
                        }
                    },
                    None => {
                        proof {
                            assert(actions@ =~= old(actions)@ + Seq::<HandlerAction>::empty());
                        }
                    },
                }
                Ok(())
            },
            EventPayload::Json(_) => {
                proof {
                    assert(actions@ =~= old(actions)@ + Seq::<HandlerAction>::empty());
                }
                Ok(())
            },
            _ => {
                proof {
                    assert(actions@ =~= old(actions)@ + Seq::<HandlerAction>::empty());
                }
                Err(HandlerError::Deserialization)
            },
        },
        HandlerKind::Chat => match p {
            EventPayload::Chat(ev) => {
                match store.get(ev.player_id) {
                    Some(d) => {
                        store.insert(
                            ev.player_id,
                            PlayerData {
                                join_time: d.join_time,
                                last_position: d.last_position,
                                message_count: d.message_count.saturating_add(1),
                                jump_count: d.jump_count,
                            },
                        );
                    },
                    None => {},
                }
                if is_stats_request(ev.message.as_str()) {
                    actions.push(HandlerAction::StatsRequested { player_id: ev.player_id });
                }
                if notifications && is_greeting(ev.message.as_str()) {
                    actions.push(HandlerAction::GreetingDetected { player_id: ev.player_id });
                }
                proof {
                    assert(actions@ =~= old(actions)@ + chat_actions(*ev, notifications));
                }
                Ok(())
            },
            _ => {
                proof {
                    assert(actions@ =~= old(actions)@ + Seq::<HandlerAction>::empty());
                }
                Err(HandlerError::Deserialization)
            },
        },
        HandlerKind::Move => match p {
            EventPayload::Move(ev) => {
                match store.get(ev.player_id) {
                    Some(d) => {
                        store.insert(
                            ev.player_id,
                            PlayerData {
                                join_time: d.join_time,
                                last_position: Some(ev.to_position),
                                message_count: d.message_count,
                                jump_count: d.jump_count,
                            },
                        );
                    },
                    None => {},
                }
                proof {
                    assert(actions@ =~= old(actions)@ + Seq::<HandlerAction>::empty());
                }
                Ok(())
            },
            _ => {
                proof {
                    assert(actions@ =~= old(actions)@ + Seq::<HandlerAction>::empty());
                }
                Err(HandlerError::Deserialization)
            },
        },
        HandlerKind::Jump => match p {
            EventPayload::Jump(ev) => {
                match store.get(ev.player_id) {
                    Some(d) => {
                        store.insert(
                            ev.player_id,
                            PlayerData {
                                join_time: d.join_time,
                                last_position: d.last_position,
                                message_count: d.message_count,
                                jump_count: d.jump_count.saturating_add(1),
                            },
                        );
                    },
                    None => {},
                }
                if ev.height > HIGH_JUMP_HEIGHT {
                    actions.push(HandlerAction::HighJump { player_id: ev.player_id });
                    proof {
                        assert(actions@ =~= old(actions)@ + handler_actions(
                            kind,
                            *p,
                            old(store)@,
                            now,
                            notifications,
                        ));
                    }
                } else {
                    proof {
                        assert(actions@ =~= old(actions)@ + Seq::<HandlerAction>::empty());
                    }
                }
                Ok(())
            },
            _ => {
                proof {
                    assert(actions@ =~= old(actions)@ + Seq::<HandlerAction>::empty());
                }
                Err(HandlerError::Deserialization)
            },
        },
        HandlerKind::PluginLog => {
            proof {
                assert(actions@ =~= old(actions)@ + Seq::<HandlerAction>::empty());
            }
            Ok(())
        },
        HandlerKind::PluginItem => {
            proof {
                assert(actions@ =~= old(actions)@ + Seq::<HandlerAction>::empty());
            }
            Ok(())
        },
    }
}

/// Whether `k` is the core key with the given topic and no sub-topic.
pub open spec fn is_core_topic(k: KeyV, topic: Seq<char>) -> bool {
    k == (EventCategory::Core, topic, None::<Seq<char>>)
}

/// How a published payload may be brought into typed form before dispatch:
/// on the core connect and disconnect keys a raw JSON payload either yields
/// the player identifier it carries or stays as it was; every other payload
/// is dispatched unchanged.
pub open spec fn norm_ok(k: KeyV, p: EventPayload, n: EventPayload) -> bool {
    if is_core_topic(k, "player_connected"@) && (p matches EventPayload::Json(_)) {
        (exists|id: u64| n == (EventPayload::Connect { player_id: id })) || n == p
    } else if is_core_topic(k, "player_disconnected"@) && (p matches EventPayload::Json(_)) {
        (exists|id: u64| n == (EventPayload::Disconnect { player_id: id })) || n == p
    } else {
        n == p
    }
}

/// Whether `key` is the core key with topic `topic`.
fn is_core_with_topic(key: &EventKey, topic: &str) -> (r: bool)
    ensures
        r == is_core_topic(key@, topic@),
{
    let cat_ok = match key.category {
        EventCategory::Core => true,
        _ => false,
    };
    let sub_ok = match &key.subtopic {
        None => true,
        Some(_) => false,
    };
    if cat_ok && sub_ok {
        let t = topic.to_owned();
        key.topic == t
    } else {
        false
    }
}

/// Bring a payload published on `key` into typed form: on the core connect
/// and disconnect keys, read the player identifier out of raw JSON.
fn normalize(key: &EventKey, payload: EventPayload) -> (r: EventPayload)
    ensures
        norm_ok(key@, payload, r),
{
    let is_connect = is_core_with_topic(key, "player_connected");
    let is_disconnect = is_core_with_topic(key, "player_disconnected");
    if is_connect || is_disconnect {
        match payload {
            EventPayload::Json(v) => match json_player_id(&v) {
                Some(id) => if is_connect {
                    EventPayload::Connect { player_id: id }
                } else {
                    EventPayload::Disconnect { player_id: id }
                },
                None => EventPayload::Json(v),
            },
            other => other,
        }
    } else {
        payload
    }
}

impl EventBus {
    /// Publish a payload to every handler registered for `key`, in
    /// registration order. Each handler gets its own outcome; a failing
    /// handler never keeps the handlers after it from running; a key with no
    /// handlers is a silent no-op. The store is updated by the handlers, and
    /// the notices they raised come back alongside the outcomes.
    pub fn publish(
        &self,
        key: &EventKey,
        payload: EventPayload,
        store: &mut StateStore,
        now: u64,
        notifications: bool,
    ) -> (r: (Vec<Result<(), HandlerError>>, Vec<HandlerAction>))
        requires
            self.wf(),
            old(store).wf(),
        ensures
            final(store).wf(),
            exists|n: EventPayload|
                {
                    &&& #[trigger] norm_ok(key@, payload, n)
                    &&& r.0@ == dispatch_results(self.handlers_for(key@), n)
                    &&& final(store)@ == dispatch_store(
                        self.handlers_for(key@),
                        n,
                        old(store)@,
                        now,
                    )
                    &&& r.1@ == dispatch_actions(
                        self.handlers_for(key@),
                        n,
                        old(store)@,
                        now,
                        notifications,
                    )
                },
    {
        let kinds = self.lookup(key);
        let norm = normalize(key, payload);
        let ghost m0 = store@;
        let mut results: Vec<Result<(), HandlerError>> = Vec::new();
        let mut actions: Vec<HandlerAction> = Vec::new();
        proof {
            assert(kinds@.take(0) =~= Seq::<HandlerKind>::empty());
        }
        let mut i: usize = 0;
        while i < kinds.len()
            invariant
                store.wf(),
                i <= kinds@.len(),
                store@ == dispatch_store(kinds@.take(i as int), norm, m0, now),
                results@.len() == i,
                forall|j: int| 0 <= j < i ==> results@[j] == handler_result(kinds@[j], norm),
                actions@ == dispatch_actions(kinds@.take(i as int), norm, m0, now, notifications),
            decreases kinds@.len() - i,
        {
            proof {
                assert(kinds@.take(i as int + 1) =~= kinds@.take(i as int).push(kinds@[i as int]));
                lemma_dispatch_snoc(kinds@.take(i as int), kinds@[i as int], norm, m0, now, notifications);
            }
            let res = run_handler(kinds[i], &norm, store, now, notifications, &mut actions);
            results.push(res);
            i = i + 1;
        }
        proof {
            assert(kinds@.take(kinds@.len() as int) =~= kinds@);
            assert(results@ =~= dispatch_results(kinds@, norm));
        }
        (results, actions)
    }
}

/// One entry per handler: the outcome sequence of a publish has exactly the
/// registered handlers' length, and each handler's outcome depends on the
/// payload and on that handler alone. In particular a failing handler never
/// keeps the handlers after it from running and reporting.
pub proof fn lemma_all_handlers_reported(kinds: Seq<HandlerKind>, p: EventPayload)
    ensures
        dispatch_results(kinds, p).len() == kinds.len(),
        forall|k: int|
            0 <= k < kinds.len() ==> dispatch_results(kinds, p)[k] == handler_result(kinds[k], p),
{
}

/// Dispatching to a single handler is running that handler.
pub proof fn lemma_dispatch_singleton(
    kind: HandlerKind,
    p: EventPayload,
    m: Map<u64, PlayerData>,
    now: u64,
    notifications: bool,
)
    ensures
        dispatch_store(seq![kind], p, m, now) == handler_store(kind, p, m, now),
        dispatch_actions(seq![kind], p, m, now, notifications) == handler_actions(
            kind,
            p,
            m,
            now,
            notifications,
        ),
{
    let s = seq![kind];
    let m1 = handler_store(kind, p, m, now);
    assert(s.first() == kind);
    assert(s.drop_first() =~= Seq::<HandlerKind>::empty());
    assert(dispatch_store(Seq::<HandlerKind>::empty(), p, m1, now) == m1);
    assert(dispatch_actions(Seq::<HandlerKind>::empty(), p, m1, now, notifications) =~= Seq::<
        HandlerAction,
    >::empty());
    assert(handler_actions(kind, p, m, now, notifications) + Seq::<HandlerAction>::empty()
        =~= handler_actions(kind, p, m, now, notifications));
}

/// The player a payload is about, when it is about one.
pub open spec fn payload_subject(p: EventPayload) -> Option<u64> {
    match p {
        EventPayload::Connect { player_id } => Some(player_id),
        EventPayload::Disconnect { player_id } => Some(player_id),
        EventPayload::Chat(ev) => Some(ev.player_id),
        EventPayload::Move(ev) => Some(ev.player_id),
        EventPayload::Jump(ev) => Some(ev.player_id),
        EventPayload::Json(_) => None,
    }
}

/// A handler never touches the record of a player its payload is not about.
pub proof fn lemma_handler_frame(
    kind: HandlerKind,
    p: EventPayload,
    m: Map<u64, PlayerData>,
    now: u64,
)
    ensures
        forall|k: u64|
            payload_subject(p) != Some(k) ==> #[trigger] handler_store(
                kind,
                p,
                m,
                now,
            ).contains_key(k) == m.contains_key(k),
        forall|k: u64|
            payload_subject(p) != Some(k) && m.contains_key(k) ==> #[trigger] handler_store(
                kind,
                p,
                m,
                now,
            )[k] == m[k],
{
}

/// Publishes whose payloads are about different players commute on the
/// store: neither update is lost whichever order the two dispatches run in.
pub proof fn lemma_distinct_player_publishes_commute(
    h1: HandlerKind,
    p1: EventPayload,
    now1: u64,
    h2: HandlerKind,
    p2: EventPayload,
    now2: u64,
    m: Map<u64, PlayerData>,
)
    requires
        payload_subject(p1) matches Some(_),
        payload_subject(p2) matches Some(_),
        payload_subject(p1) != payload_subject(p2),
    ensures
        dispatch_store(seq![h2], p2, dispatch_store(seq![h1], p1, m, now1), now2)
            == dispatch_store(seq![h1], p1, dispatch_store(seq![h2], p2, m, now2), now1),
{
    lemma_dispatch_singleton(h1, p1, m, now1, true);
    lemma_dispatch_singleton(h2, p2, m, now2, true);
    lemma_dispatch_singleton(h2, p2, handler_store(h1, p1, m, now1), now2, true);
    lemma_dispatch_singleton(h1, p1, handler_store(h2, p2, m, now2), now1, true);
    let a = handler_store(h2, p2, handler_store(h1, p1, m, now1), now2);
    let b = handler_store(h1, p1, handler_store(h2, p2, m, now2), now1);
    assert(a =~= b);
}

} // verus!
