//! The notification manager: which notifications are active, the ids they are given, and
//! what closing, replacing and event triggers do to them.
use vstd::prelude::*;

use crate::configuration::{
    Configuration, EventHandler, EventResponse, EventTrigger, response_lookup,
};
use crate::notification::{
    EventAction, Notification, NotificationCloseReason, NotificationError, SurfaceId,
    NotificationUrgency, SurfaceProcessingOutput, Timeout, expire_timeout_from, timeout_of,
    action_for, same_content, surfaces_after,
};
use crate::table::IdMap;

verus! {

/// The response `h` gives to the trigger `t`: the configured one, else `Nothing`.
pub open spec fn handler_response(h: EventHandler, t: EventTrigger) -> EventResponse {
    match response_lookup(h.entries@, t) {
        Some(r) => r,
        None => EventResponse::Nothing,
    }
}

/// The id given after `b`: the next one, where the count wraps around past zero, which is
/// never given.
pub open spec fn next_id(b: u32) -> u32 {
    if b == u32::MAX {
        1
    } else {
        (b + 1) as u32
    }
}

/// What closing a notification leaves to do: the action configured for closed notifications,
/// and the surfaces that showed it, to be destroyed.
#[derive(Debug)]
pub struct Expiry {
    pub closed_action: EventAction,
    pub surfaces: Vec<SurfaceId>,
}

/// Whether `e` is what closing the notification `n` under the handler `h` leaves to do.
pub open spec fn expiry_for(e: Expiry, n: Notification, h: EventHandler) -> bool {
    let r = handler_response(h, EventTrigger::OnNotificationClosed);
    &&& action_for(e.closed_action, n.surface_ids@, n.sound_file, r)
    &&& e.surfaces@ == surfaces_after(n.surface_ids@, r)
}

/// Whether `new` and `ret` are what adding `notification` to `old` makes of it and gives:
/// the next id, under which the notification is stored, after the response configured for
/// received notifications was carried out on it, and what that response leaves to do.
pub open spec fn add_step(
    old: NotificationManager,
    new: NotificationManager,
    notification: Notification,
    ret: (u32, EventAction),
) -> bool {
    let r = handler_response(old.event_handler, EventTrigger::OnNotificationReceived);
    let n = new.active_notifications@[ret.0];
    &&& new.wf()
    &&& ret.0 == next_id(old.biggest_id_given)
    &&& new.biggest_id_given == ret.0
    &&& new.active_notifications@ == old.active_notifications@.insert(ret.0, n)
    &&& n.id == Some(ret.0)
    &&& same_content(n, notification)
    &&& n.surface_ids@ == surfaces_after(notification.surface_ids@, r)
    &&& action_for(ret.1, notification.surface_ids@, notification.sound_file, r)
    &&& new.active_configuration == old.active_configuration
    &&& new.event_triggers_to_process == old.event_triggers_to_process
    &&& new.event_handler == old.event_handler
    &&& new.inactive_uncommited_notification_ids == old.inactive_uncommited_notification_ids
    &&& new.recently_inactivated == old.recently_inactivated
}

/// Whether `new` and `ret` are what closing the notification `id` of `old` for `reason`
/// makes of it and gives: where it is active, it is closed and recorded with its reason;
/// else the request fails and nothing changes.
pub open spec fn close_step(
    old: NotificationManager,
    new: NotificationManager,
    id: u32,
    reason: NotificationCloseReason,
    ret: Result<Expiry, NotificationError>,
) -> bool {
    &&& new.wf()
    &&& match ret {
        Ok(e) => old.active_notifications@.contains_key(id) && new.active_notifications@
            == old.active_notifications@.remove(id) && expiry_for(
            e,
            old.active_notifications@[id],
            old.event_handler,
        ) && new.inactive_uncommited_notification_ids@
            == old.inactive_uncommited_notification_ids@.push((id, reason)),
        Err(err) => !old.active_notifications@.contains_key(id) && err
            == NotificationError::InvalidID(id) && new == old,
    }
    &&& new.biggest_id_given == old.biggest_id_given
    &&& new.active_configuration == old.active_configuration
    &&& new.event_triggers_to_process == old.event_triggers_to_process
    &&& new.event_handler == old.event_handler
    &&& new.recently_inactivated == old.recently_inactivated
}

/// The notifications that are shown, and what is pending for them.
#[derive(Debug)]
pub struct NotificationManager {
    /// The last id given out; zero until a notification was added.
    pub biggest_id_given: u32,
    pub active_configuration: Option<Configuration>,
    pub active_notifications: IdMap<Notification>,
    /// The triggers reported for each notification, not yet carried out.
    pub event_triggers_to_process: IdMap<Vec<EventTrigger>>,
    pub event_handler: EventHandler,
    /// Notifications closed on request, not yet reported.
    pub inactive_uncommited_notification_ids: Vec<(u32, NotificationCloseReason)>,
    /// Notifications left without a surface in the current processing pass.
    pub recently_inactivated: Vec<(u32, NotificationCloseReason)>,
}

impl NotificationManager {
    pub open spec fn wf(&self) -> bool {
        &&& self.active_notifications.wf()
        &&& self.event_triggers_to_process.wf()
    }

    /// A manager with no notification and no configured response.
    pub fn new() -> (ret: NotificationManager)
        ensures
            ret.wf(),
            ret.biggest_id_given == 0,
            ret.active_configuration is None,
            ret.active_notifications@ == Map::<u32, Notification>::empty(),
            ret.event_triggers_to_process@ == Map::<u32, Vec<EventTrigger>>::empty(),
            ret.event_handler.entries@.len() == 0,
            ret.inactive_uncommited_notification_ids@.len() == 0,
            ret.recently_inactivated@.len() == 0,
    {
        NotificationManager {
            biggest_id_given: 0,
            active_configuration: None,
            active_notifications: IdMap::new(),
            event_triggers_to_process: IdMap::new(),
            event_handler: EventHandler::new(),
            inactive_uncommited_notification_ids: Vec::new(),
            recently_inactivated: Vec::new(),
        }
    }

    /// Makes `configuration` the active one.
    pub fn set_configuration(&mut self, configuration: Configuration)
        ensures
            *final(self) == (NotificationManager {
                active_configuration: Some(configuration),
                ..*old(self)
            }),
    {
        self.active_configuration = Some(configuration);
    }

    /// The active configuration, if one was set.
    pub fn get_configuration(&self) -> (ret: Option<&Configuration>)
        ensures
            match ret {
                Some(c) => self.active_configuration == Some(*c),
                None => self.active_configuration is None,
            },
    {
        self.active_configuration.as_ref()
    }

    /// Makes `event_handler` give the responses to event triggers.
    pub fn set_event_handler(&mut self, event_handler: EventHandler)
        ensures
            *final(self) == (NotificationManager { event_handler: event_handler, ..*old(self) }),
    {
        self.event_handler = event_handler;
    }

    /// Whether a notification was ever added.
    pub fn has_had_any_notification(&self) -> (ret: bool)
        ensures
            ret == (self.biggest_id_given != 0),
    {
        self.biggest_id_given != 0
    }

    /// Whether any notification is active.
    pub fn has_any_active_notification(&self) -> (ret: bool)
        requires
            self.wf(),
        ensures
            ret == (self.active_notifications@.dom().len() > 0),
    {
        self.active_notifications.len() > 0
    }

    /// Whether any notification is active (see `has_any_active_notification`).
    pub fn is_active(&self) -> (ret: bool)
        requires
            self.wf(),
        ensures
            ret == (self.active_notifications@.dom().len() > 0),
    {
        self.has_any_active_notification()
    }

    /// The active notification with id `id`, if any.
    pub fn get_notification(&self, id: u32) -> (ret: Option<&Notification>)
        requires
            self.wf(),
        ensures
            match ret {
                Some(n) => self.active_notifications@.contains_key(id)
                    && self.active_notifications@[id] == *n,
                None => !self.active_notifications@.contains_key(id),
            },
    {
        self.active_notifications.get(id)
    }

    /// The ids of the active notifications, in ascending order.
    pub fn active_ids(&self) -> (ret: Vec<u32>)
        requires
            self.wf(),
        ensures
            ret@.len() == self.active_notifications.entries@.len(),
            forall|i: int|
                0 <= i < ret@.len() ==> ret@[i] == self.active_notifications.entries@[i].0,
            forall|k: u32| #[trigger] ret@.contains(k) <==> self.active_notifications@.contains_key(k),
    {
        let mut ret: Vec<u32> = Vec::new();
        for i in 0..self.active_notifications.entries.len()
            invariant
                ret@.len() == i,
                forall|j: int| 0 <= j < i ==> ret@[j] == self.active_notifications.entries@[j].0,
        {
            ret.push(self.active_notifications.entries[i].0);
        }
        proof {
            let e = self.active_notifications.entries@;
            assert forall|k: u32| #[trigger] ret@.contains(k) <==> self.active_notifications@.contains_key(k) by {
                if ret@.contains(k) {
                    let i = choose|i: int| 0 <= i < ret@.len() && ret@[i] == k;
                    assert(e[i].0 == k);
                }
                if self.active_notifications@.contains_key(k) {
                    let i = choose|i: int| 0 <= i < e.len() && e[i].0 == k;
                    assert(ret@[i] == k);
                }
            }
        }
        ret
    }

    /// Adds `notification` under a new id, after carrying out the response configured for
    /// received notifications on it; gives the id and what the response leaves to do.
    pub fn add_notification(&mut self, notification: Notification) -> (ret: (u32, EventAction))
        requires
            old(self).wf(),
        ensures
            add_step(*old(self), *final(self), notification, ret),
    {
        let mut id = self.biggest_id_given.wrapping_add(1);
        if id == 0 {
            // The notification protocol forbids the id zero.
            id = 1;
        }
        self.biggest_id_given = id;
        let mut notification = notification;
        let response = self.event_handler.response_for(&EventTrigger::OnNotificationReceived);
        let action = notification.try_handle_event(&response);
        notification.id = Some(id);
        let ghost n = notification;
        self.active_notifications.insert(id, notification);
        assert(self.active_notifications@[id] == n);
        (id, action)
    }

    /// Closes the notification `id`: takes it out of the active ones after carrying out the
    /// response configured for closed notifications; fails where no such notification is
    /// active.
    pub fn expire_notification(&mut self, id: u32) -> (ret: Result<Expiry, NotificationError>)
        requires
            old(self).wf(),
        ensures
            final(self).wf(),
            match ret {
                Ok(e) => old(self).active_notifications@.contains_key(id)
                    && final(self).active_notifications@ == old(
                    self,
                ).active_notifications@.remove(id) && expiry_for(
                    e,
                    old(self).active_notifications@[id],
                    old(self).event_handler,
                ),
                Err(err) => !old(self).active_notifications@.contains_key(id) && err
                    == NotificationError::InvalidID(id) && final(self).active_notifications
                    == old(self).active_notifications,
            },
            final(self).biggest_id_given == old(self).biggest_id_given,
            final(self).active_configuration == old(self).active_configuration,
            final(self).event_triggers_to_process == old(self).event_triggers_to_process,
            final(self).event_handler == old(self).event_handler,
            final(self).inactive_uncommited_notification_ids
                == old(self).inactive_uncommited_notification_ids,
            final(self).recently_inactivated == old(self).recently_inactivated,
    {
        match self.active_notifications.remove(id) {
            None => Err(NotificationError::InvalidID(id)),
            Some(notification) => {
                let mut notification = notification;
                let response = self.event_handler.response_for(
                    &EventTrigger::OnNotificationClosed,
                );
                let closed_action = notification.try_handle_event(&response);
                let surfaces = notification.expire();
                Ok(Expiry { closed_action, surfaces })
            },
        }
    }

    /// Puts `notification` under the id `id`, closing the notification that had it before,
    /// if any; the stored notification carries the id `id`. Where no id was given out yet,
    /// the manager counts as having had a notification from now on.
    pub fn replace_notification(&mut self, id: u32, notification: Notification) -> (ret: Option<
        Expiry,
    >)
        requires
            old(self).wf(),
        ensures
            final(self).wf(),
            final(self).biggest_id_given == if old(self).biggest_id_given == 0 {
                1
            } else {
                old(self).biggest_id_given
            },
            ({
                let n = final(self).active_notifications@[id];
                &&& final(self).active_notifications@ == old(self).active_notifications@.insert(
                    id,
                    n,
                )
                &&& n.id == Some(id)
                &&& same_content(n, notification)
                &&& n.surface_ids == notification.surface_ids
            }),
            match ret {
                Some(e) => old(self).active_notifications@.contains_key(id) && expiry_for(
                    e,
                    old(self).active_notifications@[id],
                    old(self).event_handler,
                ),
                None => !old(self).active_notifications@.contains_key(id),
            },
            final(self).active_configuration == old(self).active_configuration,
            final(self).event_triggers_to_process == old(self).event_triggers_to_process,
            final(self).event_handler == old(self).event_handler,
            final(self).inactive_uncommited_notification_ids
                == old(self).inactive_uncommited_notification_ids,
            final(self).recently_inactivated == old(self).recently_inactivated,
    {
        if self.biggest_id_given == 0 {
            // Counts as having had a notification from now on.
            self.biggest_id_given = 1;
        }
        let expired = match self.expire_notification(id) {
            Ok(e) => Some(e),
            Err(_) => None,
        };
        let mut notification = notification;
        notification.id = Some(id);
        let ghost n = notification;
        let ghost mid = self.active_notifications@;
        self.active_notifications.insert(id, notification);
        proof {
            assert(self.active_notifications@[id] == n);
            assert(mid.insert(id, n) =~= old(self).active_notifications@.insert(id, n));
        }
        expired
    }

    /// Closes the notification `id` for `reason`, and records it to be reported as closed;
    /// fails where no such notification is active.
    pub fn close_notification(&mut self, id: u32, reason: NotificationCloseReason) -> (ret: Result<
        Expiry,
        NotificationError,
    >)
        requires
            old(self).wf(),
        ensures
            close_step(*old(self), *final(self), id, reason, ret),
    {
        let e = self.expire_notification(id)?;
        self.inactive_uncommited_notification_ids.push((id, reason));
        Ok(e)
    }

    /// Starts the expiry of the notification `id` with `timeout`; gives `None` where no
    /// such notification is active, else the delay after which it is to be closed as
    /// expired, if any (see `Notification::set_timeout`).
    pub fn set_timeout_for_notification(&mut self, id: u32, timeout: Timeout) -> (ret: Option<
        Option<u64>,
    >)
        requires
            old(self).wf(),
        ensures
            final(self).wf(),
            match ret {
                Some(delay) => {
                    let n = old(self).active_notifications@[id];
                    &&& old(self).active_notifications@.contains_key(id)
                    &&& final(self).active_notifications@ == old(
                        self,
                    ).active_notifications@.insert(
                        id,
                        (Notification { expire_timeout: Some(timeout), ..n }),
                    )
                    &&& delay == if n.urgency == crate::notification::NotificationUrgency::Critical {
                        None
                    } else {
                        Some(
                            match timeout {
                                Timeout::ServerDefault => 5000u64,
                                Timeout::Millis(m) => m,
                            },
                        )
                    }
                },
                None => !old(self).active_notifications@.contains_key(id) && *final(self) == *old(
                    self,
                ),
            },
            final(self).biggest_id_given == old(self).biggest_id_given,
            final(self).active_configuration == old(self).active_configuration,
            final(self).event_triggers_to_process == old(self).event_triggers_to_process,
            final(self).event_handler == old(self).event_handler,
            final(self).inactive_uncommited_notification_ids
                == old(self).inactive_uncommited_notification_ids,
            final(self).recently_inactivated == old(self).recently_inactivated,
    {
        match self.active_notifications.remove(id) {
            None => {
                assert(self.active_notifications@ =~= old(self).active_notifications@);
                assert(self.active_notifications == old(self).active_notifications);
                None
            },
            Some(notification) => {
                let mut notification = notification;
                let delay = notification.set_timeout(timeout);
                let ghost n = notification;
                self.active_notifications.insert(id, notification);
                proof {
                    assert(old(self).active_notifications@.remove(id).insert(id, n)
                        =~= old(self).active_notifications@.insert(id, n));
                }
                Some(delay)
            },
        }
    }
}

} // verus!

verus! {

/// Whether the notification `n` is shown on the surface `s`.
pub open spec fn shows(n: Notification, s: SurfaceId) -> bool {
    n.surface_ids@.contains(s)
}

/// Whether `k` is the least id among the active notifications shown on `s`.
pub open spec fn is_owner(active: Map<u32, Notification>, s: SurfaceId, k: u32) -> bool {
    &&& active.contains_key(k)
    &&& shows(active[k], s)
    &&& forall|j: u32| #![trigger active[j]] j < k && active.contains_key(j) ==> !shows(active[j], s)
}

/// The notification a surface belongs to: the one of least id among those shown on it.
pub open spec fn owner(active: Map<u32, Notification>, s: SurfaceId) -> Option<u32> {
    if exists|k: u32| is_owner(active, s, k) {
        Some(choose|k: u32| is_owner(active, s, k))
    } else {
        None
    }
}

/// The pending triggers, each list by its contents.
pub open spec fn pending_view(m: Map<u32, Vec<EventTrigger>>) -> Map<u32, Seq<EventTrigger>> {
    Map::new(|k: u32| m.contains_key(k), |k: u32| m[k]@)
}

/// A batch of reported triggers, each list by its contents.
pub open spec fn batch_view(b: Seq<(SurfaceId, Vec<EventTrigger>)>) -> Seq<(SurfaceId, Seq<EventTrigger>)> {
    b.map_values(|e: (SurfaceId, Vec<EventTrigger>)| (e.0, e.1@))
}

/// The pending triggers after a batch reported per surface: each surface's triggers go, in
/// order, after those pending for the notification it belongs to; those of a surface that
/// belongs to none are dropped.
pub open spec fn pending_after(
    pending: Map<u32, Seq<EventTrigger>>,
    active: Map<u32, Notification>,
    batch: Seq<(SurfaceId, Seq<EventTrigger>)>,
) -> Map<u32, Seq<EventTrigger>>
    decreases batch.len(),
{
    if batch.len() == 0 {
        pending
    } else {
        let p = pending_after(pending, active, batch.drop_last());
        let e = batch.last();
        match owner(active, e.0) {
            Some(k) => p.insert(
                k,
                if p.contains_key(k) {
                    p[k] + e.1
                } else {
                    e.1
                },
            ),
            None => p,
        }
    }
}

proof fn lemma_ascending_key_unique<V>(e: Seq<(u32, V)>, i: int, j: int)
    requires
        crate::table::ascending(e),
        0 <= i < e.len(),
        0 <= j < e.len(),
        e[i].0 == e[j].0,
    ensures
        i == j,
{
    if i < j {
        assert(e[i].0 < e[j].0);
    } else if j < i {
        assert(e[j].0 < e[i].0);
    }
}

/// Whether `new` is what recording the triggers `batch`, reported per surface, makes of
/// `old` (see `pending_after`).
pub open spec fn triggers_step(
    old: NotificationManager,
    new: NotificationManager,
    batch: Seq<(SurfaceId, Seq<EventTrigger>)>,
) -> bool {
    &&& new.wf()
    &&& pending_view(new.event_triggers_to_process@) == pending_after(
        pending_view(old.event_triggers_to_process@),
        old.active_notifications@,
        batch,
    )
    &&& new.biggest_id_given == old.biggest_id_given
    &&& new.active_configuration == old.active_configuration
    &&& new.active_notifications == old.active_notifications
    &&& new.event_handler == old.event_handler
    &&& new.inactive_uncommited_notification_ids == old.inactive_uncommited_notification_ids
    &&& new.recently_inactivated == old.recently_inactivated
}

impl NotificationManager {
    /// The notification the surface `s` belongs to, if any.
    pub fn owner_of(&self, s: SurfaceId) -> (ret: Option<u32>)
        requires
            self.wf(),
        ensures
            ret == owner(self.active_notifications@, s),
    {
        let ghost e = self.active_notifications.entries@;
        let ghost active = self.active_notifications@;
        for i in 0..self.active_notifications.entries.len()
            invariant
                e == self.active_notifications.entries@,
                active == self.active_notifications@,
                self.wf(),
                forall|j: int| 0 <= j < i ==> !shows(#[trigger] e[j].1, s),
        {
            if self.active_notifications.entries[i].1.has_surface(&s) {
                let k = self.active_notifications.entries[i].0;
                proof {
                    crate::table::lemma_map_of_index(e, i as int);
                    assert forall|j: u32| #![trigger active[j]] j < k && active.contains_key(j) implies !shows(active[j], s) by {
                        let m = choose|m: int| 0 <= m < e.len() && e[m].0 == j;
                        crate::table::lemma_map_of_index(e, m);
                        if m >= i {
                            if m > i {
                                assert(e[i as int].0 < e[m].0);
                            }
                        }
                    }
                    assert(is_owner(active, s, k));
                    assert forall|k2: u32| is_owner(active, s, k2) implies k2 == k by {
                        if k2 < k {
                            assert(!shows(active[k2], s));
                        } else if k < k2 {
                            assert(!shows(active[k], s));
                        }
                    }
                }
                return Some(k);
            }
        }
        proof {
            assert forall|k: u32| !is_owner(active, s, k) by {
                if active.contains_key(k) {
                    let m = choose|m: int| 0 <= m < e.len() && e[m].0 == k;
                    crate::table::lemma_map_of_index(e, m);
                    assert(!shows(e[m].1, s));
                }
            }
        }
        None
    }

    /// Records triggers reported per surface, to be carried out on the notifications the
    /// surfaces belong to (see `pending_after`).
    pub fn add_event_triggers(&mut self, triggers: Vec<(SurfaceId, Vec<EventTrigger>)>)
        requires
            old(self).wf(),
        ensures
            triggers_step(*old(self), *final(self), batch_view(triggers@)),
    {
        let ghost orig = triggers@;
        let ghost bv = batch_view(orig);
        let ghost p0 = pending_view(old(self).event_triggers_to_process@);
        let ghost active = old(self).active_notifications@;
        let n: usize = triggers.len();
        let mut rest = triggers;
        let mut i: usize = 0;
        while rest.len() > 0
            invariant
                self.wf(),
                i <= orig.len(),
                orig.len() == n,
                rest@ == orig.skip(i as int),
                bv == batch_view(orig),
                active == self.active_notifications@,
                pending_view(self.event_triggers_to_process@) == pending_after(
                    p0,
                    active,
                    bv.take(i as int),
                ),
                self.biggest_id_given == old(self).biggest_id_given,
                self.active_configuration == old(self).active_configuration,
                self.active_notifications == old(self).active_notifications,
                self.event_handler == old(self).event_handler,
                self.inactive_uncommited_notification_ids
                    == old(self).inactive_uncommited_notification_ids,
                self.recently_inactivated == old(self).recently_inactivated,
            decreases rest.len(),
        {
            let (surface, event_triggers) = rest.remove(0);
            proof {
                assert(orig[i as int] == (surface, event_triggers));
                assert(bv.take(i + 1).drop_last() =~= bv.take(i as int));
                assert(bv.take(i + 1).last() == (surface, event_triggers@));
                assert(rest@ =~= orig.skip(i + 1));
            }
            let ghost p = pending_view(self.event_triggers_to_process@);
            match self.owner_of(surface) {
                Some(k) => {
                    let mut event_triggers = event_triggers;
                    match self.event_triggers_to_process.remove(k) {
                        Some(existing) => {
                            let mut list = existing;
                            list.append(&mut event_triggers);
                            self.event_triggers_to_process.insert(k, list);
                        },
                        None => {
                            self.event_triggers_to_process.insert(k, event_triggers);
                        },
                    }
                    proof {
                        assert(pending_view(self.event_triggers_to_process@) =~= p.insert(
                            k,
                            if p.contains_key(k) {
                                p[k] + bv.take(i + 1).last().1
                            } else {
                                bv.take(i + 1).last().1
                            },
                        ));
                    }
                },
                None => {},
            }
            i = i + 1;
        }
        assert(bv.take(orig.len() as int) =~= bv);
    }
}

} // verus!

verus! {

/// The surfaces, among `s`, whose processing outcome in `o` is not `Continue`, in order:
/// those that no longer exist or were destroyed.
pub open spec fn deleted_surfaces(s: Seq<SurfaceId>, o: Seq<SurfaceProcessingOutput>, n: nat) -> Seq<SurfaceId>
    decreases n,
{
    if n == 0 {
        Seq::empty()
    } else {
        let before = deleted_surfaces(s, o, (n - 1) as nat);
        if o[n - 1] != SurfaceProcessingOutput::Continue {
            before.push(s[n - 1])
        } else {
            before
        }
    }
}

/// The reason a notification left without surfaces by a processing pass is closed for:
/// dismissed where none of its surfaces went in this pass, else undefined.
pub open spec fn inactivation_reason(deleted: Seq<SurfaceId>) -> NotificationCloseReason {
    if deleted.len() == 0 {
        NotificationCloseReason::Dismissed
    } else {
        NotificationCloseReason::Undefined
    }
}

fn surface_listed(v: &Vec<SurfaceId>, s: SurfaceId) -> (ret: bool)
    ensures
        ret == v@.contains(s),
{
    for i in 0..v.len()
        invariant
            forall|j: int| 0 <= j < i ==> v@[j] != s,
    {
        if v[i] == s {
            return true;
        }
    }
    false
}

/// Whether `new` and `ret` are what taking the processing outcomes `outcomes` of the
/// surfaces of the notification `id` makes of `old` and gives (see
/// `process_notification_surfaces`).
pub open spec fn surfaces_step(
    old: NotificationManager,
    new: NotificationManager,
    id: u32,
    outcomes: Seq<SurfaceProcessingOutput>,
    ret: Seq<SurfaceId>,
) -> bool {
    let n = old.active_notifications@[id];
    let d = deleted_surfaces(n.surface_ids@, outcomes, outcomes.len());
    let rem = n.surface_ids@.filter(|x: SurfaceId| !d.contains(x));
    let m = new.active_notifications@[id];
    &&& new.wf()
    &&& ret == d
    &&& new.active_notifications@ == old.active_notifications@.insert(id, m)
    &&& m.id == n.id
    &&& m.surface_ids@ == rem
    &&& same_content(
        m,
        (Notification { is_dirty: if rem.len() == 0 {
            n.is_dirty
        } else {
            false
        }, ..n }),
    )
    &&& new.recently_inactivated@ == if rem.len() == 0 {
        old.recently_inactivated@.push((id, inactivation_reason(d)))
    } else {
        old.recently_inactivated@
    }
    &&& new.biggest_id_given == old.biggest_id_given
    &&& new.active_configuration == old.active_configuration
    &&& new.event_triggers_to_process == old.event_triggers_to_process
    &&& new.event_handler == old.event_handler
    &&& new.inactive_uncommited_notification_ids == old.inactive_uncommited_notification_ids
}

impl NotificationManager {
    /// Takes the outcome of processing each surface of the notification `id`, in the order
    /// of its surfaces: removes from it the surfaces that no longer exist or were destroyed,
    /// and gives them back, to be destroyed. A notification left without surfaces is
    /// recorded as inactive (see `inactivation_reason`); one that keeps some is marked as
    /// drawn.
    pub fn process_notification_surfaces(
        &mut self,
        id: u32,
        outcomes: &Vec<SurfaceProcessingOutput>,
    ) -> (ret: Vec<SurfaceId>)
        requires
            old(self).wf(),
            old(self).active_notifications@.contains_key(id),
            outcomes@.len() == old(self).active_notifications@[id].surface_ids@.len(),
        ensures
            surfaces_step(*old(self), *final(self), id, outcomes@, ret@),
    {
        let ghost old_active = self.active_notifications@;
        let mut notification = self.active_notifications.remove(id).unwrap();
        let ghost n0 = notification;
        let ghost s = n0.surface_ids@;
        let mut deleted: Vec<SurfaceId> = Vec::new();
        for i in 0..notification.surface_ids.len()
            invariant
                notification == n0,
                s == n0.surface_ids@,
                outcomes@.len() == s.len(),
                deleted@ == deleted_surfaces(s, outcomes@, i as nat),
        {
            if outcomes[i] != SurfaceProcessingOutput::Continue {
                deleted.push(notification.surface_ids[i]);
            }
        }
        let ghost d = deleted@;
        let mut kept: Vec<SurfaceId> = Vec::new();
        for i in 0..notification.surface_ids.len()
            invariant
                notification == n0,
                s == n0.surface_ids@,
                d == deleted@,
                kept@ == s.take(i as int).filter(|x: SurfaceId| !d.contains(x)),
        {
            assert(s.take(i + 1).drop_last() == s.take(i as int));
            reveal_with_fuel(Seq::<_>::filter, 1);
            let x = notification.surface_ids[i];
            if !surface_listed(&deleted, x) {
                kept.push(x);
            }
        }
        assert(s.take(s.len() as int) == s);
        notification.surface_ids = kept;
        let remaining = notification.surface_ids.len();
        if remaining == 0 {
            let reason = if deleted.len() == 0 {
                NotificationCloseReason::Dismissed
            } else {
                NotificationCloseReason::Undefined
            };
            self.recently_inactivated.push((id, reason));
        } else {
            notification.is_dirty = false;
        }
        let ghost m = notification;
        self.active_notifications.insert(id, notification);
        proof {
            assert(self.active_notifications@[id] == m);
            assert(old_active.remove(id).insert(id, m) =~= old_active.insert(id, m));
        }
        deleted
    }
}

} // verus!

verus! {

/// The responses `h` gives to the triggers `ts`, in order.
pub open spec fn responses_of(h: EventHandler, ts: Seq<EventTrigger>) -> Seq<EventResponse> {
    ts.map_values(|t: EventTrigger| handler_response(h, t))
}

/// The surfaces that still show a notification shown on `s` after the responses `rs`.
pub open spec fn surfaces_after_all(s: Seq<SurfaceId>, rs: Seq<EventResponse>) -> Seq<SurfaceId>
    decreases rs.len(),
{
    if rs.len() == 0 {
        s
    } else {
        surfaces_after(surfaces_after_all(s, rs.drop_last()), rs.last())
    }
}

/// Whether `acts` is, response by response, what carrying out `rs` in order leaves to do on
/// a notification shown on `s` whose sound file is `sound_file`.
pub open spec fn actions_match(
    acts: Seq<EventAction>,
    s: Seq<SurfaceId>,
    sound_file: Option<String>,
    rs: Seq<EventResponse>,
) -> bool {
    &&& acts.len() == rs.len()
    &&& forall|i: int|
        0 <= i < rs.len() ==> action_for(
            #[trigger] acts[i],
            surfaces_after_all(s, rs.take(i)),
            sound_file,
            rs[i],
        )
}

/// The triggers pending for the notification `k`.
pub open spec fn pending_of(p: Map<u32, Vec<EventTrigger>>, k: u32) -> Seq<EventTrigger> {
    if p.contains_key(k) {
        p[k]@
    } else {
        Seq::empty()
    }
}

/// Carries out on `n`, in order, the responses `h` gives to the triggers `ts`.
fn apply_triggers(n: &mut Notification, h: &EventHandler, ts: &Vec<EventTrigger>) -> (ret: Vec<
    EventAction,
>)
    ensures
        actions_match(ret@, old(n).surface_ids@, old(n).sound_file, responses_of(*h, ts@)),
        final(n).surface_ids@ == surfaces_after_all(old(n).surface_ids@, responses_of(*h, ts@)),
        same_content(*final(n), *old(n)),
        final(n).id == old(n).id,
{
    let ghost n0 = *n;
    let ghost rs = responses_of(*h, ts@);
    let mut acts: Vec<EventAction> = Vec::new();
    for j in 0..ts.len()
        invariant
            rs == responses_of(*h, ts@),
            acts@.len() == j,
            n.surface_ids@ == surfaces_after_all(n0.surface_ids@, rs.take(j as int)),
            same_content(*n, n0),
            n.id == n0.id,
            forall|q: int|
                0 <= q < j ==> action_for(
                    #[trigger] acts@[q],
                    surfaces_after_all(n0.surface_ids@, rs.take(q)),
                    n0.sound_file,
                    rs[q],
                ),
    {
        let r = h.response_for(&ts[j]);
        assert(r == rs[j as int]);
        let a = n.try_handle_event(&r);
        acts.push(a);
        proof {
            assert(rs.take(j + 1).drop_last() =~= rs.take(j as int));
            assert(rs.take(j + 1).last() == rs[j as int]);
        }
    }
    assert(rs.take(ts@.len() as int) =~= rs);
    acts
}

/// Whether `new` and `out` are what carrying out the pending triggers of `old` makes of it
/// and gives: for each notification with pending triggers, in ascending order of id, the
/// actions its responses leave to do (`None` where it is no longer active); the pending
/// triggers are consumed.
pub open spec fn events_step(
    old: NotificationManager,
    new: NotificationManager,
    out: Seq<(u32, Option<Vec<EventAction>>)>,
) -> bool {
    let pend = old.event_triggers_to_process.entries@;
    let h = old.event_handler;
    let active = old.active_notifications@;
    &&& new.wf()
    &&& out.len() == pend.len()
    &&& forall|i: int|
        0 <= i < pend.len() ==> (#[trigger] out[i]).0 == pend[i].0 && if active.contains_key(
            pend[i].0,
        ) {
            out[i].1 matches Some(v) && actions_match(
                v@,
                active[pend[i].0].surface_ids@,
                active[pend[i].0].sound_file,
                responses_of(h, pend[i].1@),
            )
        } else {
            out[i].1 is None
        }
    &&& new.active_notifications@.dom() == active.dom()
    &&& forall|k: u32| #[trigger]
        active.contains_key(k) ==> {
            let n = active[k];
            let m = new.active_notifications@[k];
            &&& m.id == n.id
            &&& same_content(m, n)
            &&& m.surface_ids@ == surfaces_after_all(
                n.surface_ids@,
                responses_of(h, pending_of(old.event_triggers_to_process@, k)),
            )
        }
    &&& new.event_triggers_to_process@ == Map::<u32, Vec<EventTrigger>>::empty()
    &&& new.biggest_id_given == old.biggest_id_given
    &&& new.active_configuration == old.active_configuration
    &&& new.event_handler == old.event_handler
    &&& new.inactive_uncommited_notification_ids == old.inactive_uncommited_notification_ids
    &&& new.recently_inactivated == old.recently_inactivated
}

/// The triggers among the first `i` pending entries that are for `k`.
spec fn done_pending(pend: Seq<(u32, Vec<EventTrigger>)>, i: int, k: u32) -> Seq<EventTrigger> {
    if exists|j: int| 0 <= j < i && pend[j].0 == k {
        pend[choose|j: int| 0 <= j < i && pend[j].0 == k].1@
    } else {
        Seq::empty()
    }
}

impl NotificationManager {
    /// Carries out the pending triggers (see `events_step`).
    pub fn handle_event_triggers(&mut self) -> (ret: Vec<(u32, Option<Vec<EventAction>>)>)
        requires
            old(self).wf(),
        ensures
            events_step(*old(self), *final(self), ret@),
    {
        let ghost old_self = *self;
        let ghost active0 = self.active_notifications@;
        let ghost h = self.event_handler;
        let mut pending = IdMap::new();
        std::mem::swap(&mut pending, &mut self.event_triggers_to_process);
        let ghost pend = pending.entries@;
        let mut out: Vec<(u32, Option<Vec<EventAction>>)> = Vec::new();
        for i in 0..pending.entries.len()
            invariant
                pend == pending.entries@,
                crate::table::ascending(pend),
                h == self.event_handler,
                self.wf(),
                self.event_triggers_to_process@ == Map::<u32, Vec<EventTrigger>>::empty(),
                self.active_notifications@.dom() == active0.dom(),
                out@.len() == i,
                forall|q: int|
                    0 <= q < i ==> (#[trigger] out@[q]).0 == pend[q].0 && if active0.contains_key(
                        pend[q].0,
                    ) {
                        out@[q].1 matches Some(v) && actions_match(
                            v@,
                            active0[pend[q].0].surface_ids@,
                            active0[pend[q].0].sound_file,
                            responses_of(h, pend[q].1@),
                        )
                    } else {
                        out@[q].1 is None
                    },
                forall|k: u32| #[trigger]
                    active0.contains_key(k) ==> {
                        let n = active0[k];
                        let m = self.active_notifications@[k];
                        &&& m.id == n.id
                        &&& same_content(m, n)
                        &&& m.surface_ids@ == surfaces_after_all(
                            n.surface_ids@,
                            responses_of(h, done_pending(pend, i as int, k)),
                        )
                    },
                self.biggest_id_given == old_self.biggest_id_given,
                self.active_configuration == old_self.active_configuration,
                self.inactive_uncommited_notification_ids
                    == old_self.inactive_uncommited_notification_ids,
                self.recently_inactivated == old_self.recently_inactivated,
        {
            let k = pending.entries[i].0;
            let ghost before = self.active_notifications@;
            proof {
                assert forall|k2: u32| k2 != k implies done_pending(pend, i + 1, k2) == done_pending(pend, i as int, k2) by {
                    if exists|j: int| 0 <= j < i + 1 && pend[j].0 == k2 {
                        let j = choose|j: int| 0 <= j < i + 1 && pend[j].0 == k2;
                        assert(j != i);
                        assert(exists|j: int| 0 <= j < i && pend[j].0 == k2);
                        let j2 = choose|j: int| 0 <= j < i && pend[j].0 == k2;
                        lemma_ascending_key_unique(pend, j, j2);
                    }
                }
                assert(done_pending(pend, i as int, k) == Seq::<EventTrigger>::empty()) by {
                    if exists|j: int| 0 <= j < i && pend[j].0 == k {
                        let j = choose|j: int| 0 <= j < i && pend[j].0 == k;
                        lemma_ascending_key_unique(pend, j, i as int);
                    }
                }
                assert(done_pending(pend, i + 1, k) == pend[i as int].1@) by {
                    assert(pend[i as int].0 == k);
                    let j = choose|j: int| 0 <= j < i + 1 && pend[j].0 == k;
                    lemma_ascending_key_unique(pend, j, i as int);
                }
                assert(surfaces_after_all(
                    active0[k].surface_ids@,
                    responses_of(h, Seq::<EventTrigger>::empty()),
                ) == active0[k].surface_ids@) by {
                    assert(responses_of(h, Seq::<EventTrigger>::empty()).len() == 0);
                }
            }
            match self.active_notifications.remove(k) {
                Some(notification) => {
                    let mut notification = notification;
                    let acts = apply_triggers(&mut notification, &self.event_handler, &pending.entries[i].1);
                    let ghost m = notification;
                    self.active_notifications.insert(k, notification);
                    proof {
                        assert(self.active_notifications@ == before.insert(k, m));
                        assert(self.active_notifications@.dom() =~= active0.dom());
                    }
                    out.push((k, Some(acts)));
                },
                None => {
                    out.push((k, None));
                },
            }
        }
        proof {
            assert forall|k: u32| #[trigger] active0.contains_key(k) implies done_pending(pend, pend.len() as int, k) == pending_of(old_self.event_triggers_to_process@, k) by {
                if old_self.event_triggers_to_process@.contains_key(k) {
                    let j = choose|j: int| 0 <= j < pend.len() && pend[j].0 == k;
                    crate::table::lemma_map_of_index(pend, j);
                    let j2 = choose|j: int| 0 <= j < pend.len() && pend[j].0 == k;
                    assert(done_pending(pend, pend.len() as int, k) == pend[j2].1@);
                } else {
                    assert(!exists|j: int| 0 <= j < pend.len() && pend[j].0 == k);
                }
            }
        }
        out
    }
}

} // verus!

verus! {

/// The ids of the records `r`, in order.
pub open spec fn record_ids(r: Seq<(u32, NotificationCloseReason)>) -> Seq<u32> {
    r.map_values(|e: (u32, NotificationCloseReason)| e.0)
}

/// The map `m` with the keys `ids` removed.
pub open spec fn removed_all(m: Map<u32, Notification>, ids: Seq<u32>) -> Map<u32, Notification>
    decreases ids.len(),
{
    if ids.len() == 0 {
        m
    } else {
        removed_all(m, ids.drop_last()).remove(ids.last())
    }
}

/// What reporting the closed notifications gives: every notification closed since the last
/// report with its reason, and, for each one that a processing pass left without surfaces,
/// what closing it left to do (`None` where it was no longer active).
#[derive(Debug)]
pub struct CommitResult {
    pub closed: Vec<(u32, NotificationCloseReason)>,
    pub expiries: Vec<(u32, Option<Expiry>)>,
}

/// Whether `new` and `out` are what reporting the closed notifications makes of `old` and
/// gives: those left without surfaces are closed, in order; those closed on request come
/// first in the report, then those; both records are emptied.
pub open spec fn commit_step(old: NotificationManager, new: NotificationManager, out: CommitResult) -> bool {
    let ids = record_ids(old.recently_inactivated@);
    &&& new.wf()
    &&& out.closed@ == old.inactive_uncommited_notification_ids@ + old.recently_inactivated@
    &&& out.expiries@.len() == ids.len()
    &&& forall|i: int|
        0 <= i < ids.len() ==> {
            let before = removed_all(old.active_notifications@, ids.take(i));
            &&& (#[trigger] out.expiries@[i]).0 == ids[i]
            &&& if before.contains_key(ids[i]) {
                out.expiries@[i].1 matches Some(e) && expiry_for(
                    e,
                    before[ids[i]],
                    old.event_handler,
                )
            } else {
                out.expiries@[i].1 is None
            }
        }
    &&& new.active_notifications@ == removed_all(old.active_notifications@, ids)
    &&& new.inactive_uncommited_notification_ids@.len() == 0
    &&& new.recently_inactivated@.len() == 0
    &&& new.biggest_id_given == old.biggest_id_given
    &&& new.active_configuration == old.active_configuration
    &&& new.event_triggers_to_process == old.event_triggers_to_process
    &&& new.event_handler == old.event_handler
}

/// What a processing pass gives: what the pending triggers left to do, and the report of
/// closed notifications.
#[derive(Debug)]
pub struct ProcessingResult {
    pub events: Vec<(u32, Option<Vec<EventAction>>)>,
    pub commit: CommitResult,
}

impl NotificationManager {
    /// Reports the closed notifications (see `commit_step`).
    pub fn commit_inactive(&mut self) -> (ret: CommitResult)
        requires
            old(self).wf(),
        ensures
            commit_step(*old(self), *final(self), ret),
    {
        let ghost old_self = *self;
        let mut recent: Vec<(u32, NotificationCloseReason)> = Vec::new();
        std::mem::swap(&mut recent, &mut self.recently_inactivated);
        let mut closed: Vec<(u32, NotificationCloseReason)> = Vec::new();
        std::mem::swap(&mut closed, &mut self.inactive_uncommited_notification_ids);
        let ghost r = recent@;
        let ghost ids = record_ids(r);
        let ghost closed0 = closed@;
        let mut expiries: Vec<(u32, Option<Expiry>)> = Vec::new();
        for i in 0..recent.len()
            invariant
                r == recent@,
                ids == record_ids(r),
                self.wf(),
                closed@ == closed0 + r.take(i as int),
                self.active_notifications@ == removed_all(old_self.active_notifications@, ids.take(i as int)),
                expiries@.len() == i,
                forall|q: int|
                    0 <= q < i ==> {
                        let before = removed_all(old_self.active_notifications@, ids.take(q));
                        &&& (#[trigger] expiries@[q]).0 == ids[q]
                        &&& if before.contains_key(ids[q]) {
                            expiries@[q].1 matches Some(e) && expiry_for(
                                e,
                                before[ids[q]],
                                old_self.event_handler,
                            )
                        } else {
                            expiries@[q].1 is None
                        }
                    },
                self.inactive_uncommited_notification_ids@.len() == 0,
                self.recently_inactivated@.len() == 0,
                self.biggest_id_given == old_self.biggest_id_given,
                self.active_configuration == old_self.active_configuration,
                self.event_triggers_to_process == old_self.event_triggers_to_process,
                self.event_handler == old_self.event_handler,
        {
            let (id, reason) = recent[i];
            proof {
                assert(ids[i as int] == id);
                assert(ids.take(i + 1).drop_last() =~= ids.take(i as int));
                assert(ids.take(i + 1).last() == id);
                assert(r.take(i + 1) =~= r.take(i as int).push((id, reason)));
            }
            let e = self.expire_notification(id);
            match e {
                Ok(e) => {
                    expiries.push((id, Some(e)));
                },
                Err(_) => {
                    expiries.push((id, None));
                },
            }
            closed.push((id, reason));
        }
        proof {
            assert(ids.take(r.len() as int) =~= ids);
            assert(r.take(r.len() as int) =~= r);
        }
        CommitResult { closed, expiries }
    }

    /// A processing pass, after the surfaces of each notification were processed (see
    /// `process_notification_surfaces`): carries out the pending triggers, then reports the
    /// closed notifications.
    pub fn process_active_notifications(&mut self) -> (ret: ProcessingResult)
        requires
            old(self).wf(),
        ensures
            exists|mid: NotificationManager|
                #![trigger events_step(*old(self), mid, ret.events@)]
                events_step(*old(self), mid, ret.events@) && commit_step(mid, *final(self), ret.commit),
    {
        let events = self.handle_event_triggers();
        let ghost mid = *self;
        let commit = self.commit_inactive();
        let ret = ProcessingResult { events, commit };
        assert(events_step(*old(self), mid, ret.events@) && commit_step(mid, *self, ret.commit));
        ret
    }
}

} // verus!

verus! {

/// The id given after any other is never zero, never the one before it, and, until the
/// count wraps around, the next integer.
pub proof fn law_next_id_nonzero_and_new(b: u32)
    ensures
        next_id(b) != 0,
        next_id(b) != b,
        b < u32::MAX ==> next_id(b) == b + 1,
{
}

/// Once a notification was added, the manager has had a notification and the new one is
/// active under the id it was given, which it carries.
pub proof fn law_added_notification_is_active(
    old: NotificationManager,
    new: NotificationManager,
    notification: Notification,
    ret: (u32, EventAction),
)
    requires
        add_step(old, new, notification, ret),
    ensures
        new.biggest_id_given != 0,
        new.active_notifications@.contains_key(ret.0),
        new.active_notifications@[ret.0].id == Some(ret.0),
        forall|k: u32|
            k != ret.0 ==> #[trigger] new.active_notifications@.contains_key(k)
                == old.active_notifications@.contains_key(k),
{
}

/// Closing a notification that was just added succeeds; afterwards it is no longer active,
/// it is recorded as closed for the given reason, and closing it again fails with the
/// invalid-id error and changes nothing.
pub proof fn law_close_after_add(
    m0: NotificationManager,
    m1: NotificationManager,
    m2: NotificationManager,
    m3: NotificationManager,
    notification: Notification,
    added: (u32, EventAction),
    reason: NotificationCloseReason,
    first: Result<Expiry, NotificationError>,
    again: Result<Expiry, NotificationError>,
)
    requires
        add_step(m0, m1, notification, added),
        close_step(m1, m2, added.0, reason, first),
        close_step(m2, m3, added.0, reason, again),
    ensures
        first is Ok,
        !m2.active_notifications@.contains_key(added.0),
        m2.inactive_uncommited_notification_ids@.last() == (added.0, reason),
        again == Err::<Expiry, NotificationError>(NotificationError::InvalidID(added.0)),
        m3 == m2,
{
}

/// A request to close a notification that is not active fails with the invalid-id error
/// and leaves the manager as it was.
pub proof fn law_close_unknown_changes_nothing(
    old: NotificationManager,
    new: NotificationManager,
    id: u32,
    reason: NotificationCloseReason,
    ret: Result<Expiry, NotificationError>,
)
    requires
        close_step(old, new, id, reason, ret),
        !old.active_notifications@.contains_key(id),
    ensures
        ret == Err::<Expiry, NotificationError>(NotificationError::InvalidID(id)),
        new == old,
{
}

/// A notification closed on request is reported, with its reason, by the next report of
/// closed notifications, which leaves nothing more to report.
pub proof fn law_closed_notification_is_reported(
    m0: NotificationManager,
    m1: NotificationManager,
    m2: NotificationManager,
    id: u32,
    reason: NotificationCloseReason,
    closed: Result<Expiry, NotificationError>,
    out: CommitResult,
)
    requires
        close_step(m0, m1, id, reason, closed),
        closed is Ok,
        commit_step(m1, m2, out),
    ensures
        out.closed@.contains((id, reason)),
        m2.inactive_uncommited_notification_ids@.len() == 0,
        m2.recently_inactivated@.len() == 0,
{
    let n = m0.inactive_uncommited_notification_ids@.len();
    assert(out.closed@[n as int] == (id, reason));
}

/// Carrying out triggers changes nothing of a notification but the surfaces that show it,
/// and keeps every notification active.
pub proof fn law_triggers_keep_notifications(
    old: NotificationManager,
    new: NotificationManager,
    out: Seq<(u32, Option<Vec<EventAction>>)>,
    k: u32,
)
    requires
        events_step(old, new, out),
        old.active_notifications@.contains_key(k),
    ensures
        new.active_notifications@.contains_key(k),
        same_content(new.active_notifications@[k], old.active_notifications@[k]),
        new.active_notifications@[k].id == old.active_notifications@[k].id,
{
}

/// A notification that a processing pass leaves without surfaces is closed by the next report:
/// the report gives the notifications closed on request first, then those left without
/// surfaces in the order they were processed, this one last, for the reason `Undefined` where
/// some of its surfaces went in this pass and `Dismissed` where none did; afterwards it is no
/// longer active.
pub proof fn law_surfaceless_notification_is_closed(
    m0: NotificationManager,
    m1: NotificationManager,
    m2: NotificationManager,
    id: u32,
    outcomes: Seq<SurfaceProcessingOutput>,
    lost: Seq<SurfaceId>,
    out: CommitResult,
)
    requires
        surfaces_step(m0, m1, id, outcomes, lost),
        m1.active_notifications@[id].surface_ids@.len() == 0,
        commit_step(m1, m2, out),
    ensures
        out.closed@ == m0.inactive_uncommited_notification_ids@ + m0.recently_inactivated@.push(
            (id, if lost.len() == 0 {
                NotificationCloseReason::Dismissed
            } else {
                NotificationCloseReason::Undefined
            }),
        ),
        !m2.active_notifications@.contains_key(id),
{
    let ids = record_ids(m1.recently_inactivated@);
    assert(ids.last() == id);
    assert(removed_all(m1.active_notifications@, ids) == removed_all(
        m1.active_notifications@,
        ids.drop_last(),
    ).remove(id));
}

/// Triggers reported on a surface reach the notification it belongs to: the next processing
/// pass carries out, for that notification, the configured responses to those triggers in the
/// order they were reported (where it had none pending before).
pub proof fn law_reported_triggers_reach_their_notification(
    m0: NotificationManager,
    m1: NotificationManager,
    m2: NotificationManager,
    s: SurfaceId,
    ts: Seq<EventTrigger>,
    k: u32,
    out: Seq<(u32, Option<Vec<EventAction>>)>,
)
    requires
        m0.wf(),
        triggers_step(m0, m1, seq![(s, ts)]),
        owner(m0.active_notifications@, s) == Some(k),
        !m0.event_triggers_to_process@.contains_key(k),
        events_step(m1, m2, out),
    ensures
        exists|i: int|
            0 <= i < out.len() && (#[trigger] out[i]).0 == k && (out[i].1 matches Some(v)
                && actions_match(
                v@,
                m0.active_notifications@[k].surface_ids@,
                m0.active_notifications@[k].sound_file,
                responses_of(m0.event_handler, ts),
            )),
{
    let batch = seq![(s, ts)];
    let p0 = pending_view(m0.event_triggers_to_process@);
    assert(batch.drop_last() =~= Seq::<(SurfaceId, Seq<EventTrigger>)>::empty());
    assert(pending_after(p0, m0.active_notifications@, batch.drop_last()) == p0);
    law_owner_shows(m0.active_notifications@, s, k);
    let p1 = pending_view(m1.event_triggers_to_process@);
    assert(p1.contains_key(k) && p1[k] == ts);
    let e = m1.event_triggers_to_process.entries@;
    assert(m1.event_triggers_to_process@.contains_key(k));
    let i = choose|i: int| 0 <= i < e.len() && e[i].0 == k;
    crate::table::lemma_map_of_index(e, i);
    assert(out[i].0 == k);
}

/// A surface belongs to at most one notification, which is active and shown on it.
pub proof fn law_owner_shows(active: Map<u32, Notification>, s: SurfaceId, k: u32)
    requires
        owner(active, s) == Some(k),
    ensures
        active.contains_key(k),
        shows(active[k], s),
        forall|j: u32| #[trigger] is_owner(active, s, j) ==> j == k,
{
    assert forall|j: u32| #[trigger] is_owner(active, s, j) implies j == k by {
        assert(is_owner(active, s, k));
        if j < k {
            assert(!shows(active[j], s));
        } else if k < j {
            assert(!shows(active[k], s));
        }
    }
}

} // verus!

verus! {

/// The delay after which a notification of `urgency` expires with the timeout `t`: none for
/// critical notifications, five seconds for the server's choice, else the given one.
pub open spec fn expiry_delay(urgency: NotificationUrgency, t: Timeout) -> Option<u64> {
    if urgency == NotificationUrgency::Critical {
        None
    } else {
        Some(
            match t {
                Timeout::ServerDefault => 5000u64,
                Timeout::Millis(m) => m,
            },
        )
    }
}

/// What showing a requested notification gives: its id, what the response to received
/// notifications left to do (for a new one), what closing the notification it replaced left
/// to do (for a replacement of an active one), and the delay after which it is to be closed
/// as expired, if any.
#[derive(Debug)]
pub struct Submission {
    pub id: u32,
    pub received_action: Option<EventAction>,
    pub replaced: Option<Expiry>,
    pub expiry_delay: Option<u64>,
}

impl NotificationManager {
    /// Shows a requested notification: a new one under a new id where `replaces_id` is zero,
    /// else in place of the notification `replaces_id`, under that id; then starts its expiry
    /// after the protocol's `expire_timeout` (see `timeout_of`).
    pub fn submit_notification(
        &mut self,
        notification: Notification,
        replaces_id: u32,
        expire_timeout: i32,
    ) -> (ret: Submission)
        requires
            old(self).wf(),
        ensures
            final(self).wf(),
            ret.id == if replaces_id == 0 {
                next_id(old(self).biggest_id_given)
            } else {
                replaces_id
            },
            ret.id != 0,
            final(self).biggest_id_given == if replaces_id == 0 {
                next_id(old(self).biggest_id_given)
            } else if old(self).biggest_id_given == 0 {
                1
            } else {
                old(self).biggest_id_given
            },
            final(self).active_notifications@.contains_key(ret.id),
            forall|k: u32|
                k != ret.id ==> (#[trigger] final(self).active_notifications@.contains_key(k)
                    == old(self).active_notifications@.contains_key(k) && (old(
                    self,
                ).active_notifications@.contains_key(k) ==> final(self).active_notifications@[k]
                    == old(self).active_notifications@[k])),
            ({
                let n = final(self).active_notifications@[ret.id];
                let r = handler_response(
                    old(self).event_handler,
                    EventTrigger::OnNotificationReceived,
                );
                &&& same_content(
                    n,
                    (Notification {
                        expire_timeout: match timeout_of(expire_timeout) {
                            Some(t) => Some(t),
                            None => notification.expire_timeout,
                        },
                        ..notification
                    }),
                )
                &&& n.id == Some(ret.id)
                &&& replaces_id == 0 ==> {
                    &&& n.surface_ids@ == surfaces_after(notification.surface_ids@, r)
                    &&& ret.received_action matches Some(a) && action_for(
                        a,
                        notification.surface_ids@,
                        notification.sound_file,
                        r,
                    )
                    &&& ret.replaced is None
                }
                &&& replaces_id != 0 ==> {
                    &&& n.surface_ids == notification.surface_ids
                    &&& ret.received_action is None
                    &&& match ret.replaced {
                        Some(e) => old(self).active_notifications@.contains_key(replaces_id)
                            && expiry_for(
                            e,
                            old(self).active_notifications@[replaces_id],
                            old(self).event_handler,
                        ),
                        None => !old(self).active_notifications@.contains_key(replaces_id),
                    }
                }
            }),
            ret.expiry_delay == match timeout_of(expire_timeout) {
                Some(t) => expiry_delay(notification.urgency, t),
                None => None,
            },
            final(self).active_configuration == old(self).active_configuration,
            final(self).event_triggers_to_process == old(self).event_triggers_to_process,
            final(self).event_handler == old(self).event_handler,
            final(self).inactive_uncommited_notification_ids
                == old(self).inactive_uncommited_notification_ids,
            final(self).recently_inactivated == old(self).recently_inactivated,
    {
        let mut received_action: Option<EventAction> = None;
        let mut replaced: Option<Expiry> = None;
        let id = if replaces_id == 0 {
            let (id, action) = self.add_notification(notification);
            received_action = Some(action);
            id
        } else {
            replaced = self.replace_notification(replaces_id, notification);
            replaces_id
        };
        proof {
            law_next_id_nonzero_and_new(old(self).biggest_id_given);
        }
        let expiry_delay = match expire_timeout_from(expire_timeout) {
            Some(t) => match self.set_timeout_for_notification(id, t) {
                Some(delay) => delay,
                None => None,
            },
            None => None,
        };
        Submission { id, received_action, replaced, expiry_delay }
    }
}

} // verus!
