use vstd::prelude::*;

use std::collections::HashMap;
use vstd::std_specs::iter::IteratorSpec;

verus! {

broadcast use {vstd::string::group_string_axioms, vstd::std_specs::hash::group_hash_axioms};

/// A notice that something happened in a tab of a workspace.
pub struct Notification {
    pub id: u128,
    pub workspace_id: u128,
    pub tab_id: u128,
    pub title: String,
    pub subtitle: String,
    pub body: String,
    pub read: bool,
    pub timestamp: i64,
}

/// What a notification holds.
pub struct NotificationView {
    pub id: u128,
    pub workspace_id: u128,
    pub tab_id: u128,
    pub title: Seq<char>,
    pub subtitle: Seq<char>,
    pub body: Seq<char>,
    pub read: bool,
    pub timestamp: i64,
}

impl View for Notification {
    type V = NotificationView;

    open spec fn view(&self) -> NotificationView {
        NotificationView {
            id: self.id,
            workspace_id: self.workspace_id,
            tab_id: self.tab_id,
            title: self.title@,
            subtitle: self.subtitle@,
            body: self.body@,
            read: self.read,
            timestamp: self.timestamp,
        }
    }
}

/// The same notification, read.
pub open spec fn as_read(n: NotificationView) -> NotificationView {
    NotificationView { read: true, ..n }
}

impl Notification {
    /// A copy of this notification, read or not as `read` says.
    pub fn with_read(&self, read: bool) -> (c: Notification)
        ensures
            c@ == (NotificationView { read, ..self@ }),
    {
        Notification {
            id: self.id,
            workspace_id: self.workspace_id,
            tab_id: self.tab_id,
            title: self.title.clone(),
            subtitle: self.subtitle.clone(),
            body: self.body.clone(),
            read,
            timestamp: self.timestamp,
        }
    }
}

/// The notifications, found by their id and listed by workspace and by tab in
/// the order they came.
pub struct NotificationStore {
    notifications: HashMap<u128, Notification>,
    by_workspace: HashMap<u128, Vec<u128>>,
    by_tab: HashMap<u128, Vec<u128>>,
}

/// What a store holds.
pub struct StoreView {
    pub notifications: Map<u128, NotificationView>,
    pub by_workspace: Map<u128, Seq<u128>>,
    pub by_tab: Map<u128, Seq<u128>>,
}

/// The ids listed under `key`, none when it has no list.
pub open spec fn listed(lists: Map<u128, Seq<u128>>, key: u128) -> Seq<u128> {
    if lists.contains_key(key) {
        lists[key]
    } else {
        Seq::empty()
    }
}

/// Some id of `ids` names an unread notification.
pub open spec fn has_unread_in(ids: Seq<u128>, ns: Map<u128, NotificationView>) -> bool {
    exists|i: int| 0 <= i < ids.len() && ns.contains_key(ids[i]) && !ns[ids[i]].read
}

/// The notifications that `ids` name, in that order (ids without one are
/// skipped).
pub open spec fn notifications_of(ids: Seq<u128>, ns: Map<u128, NotificationView>) -> Seq<
    NotificationView,
>
    decreases ids.len(),
{
    if ids.len() == 0 {
        Seq::empty()
    } else if ns.contains_key(ids.last()) {
        notifications_of(ids.drop_last(), ns).push(ns[ids.last()])
    } else {
        notifications_of(ids.drop_last(), ns)
    }
}

/// The ids of the unread notifications.
pub open spec fn unread_ids(ns: Map<u128, NotificationView>) -> Set<u128> {
    ns.dom().filter(|k: u128| !ns[k].read)
}

/// The notifications with those whose id is in `ids` marked read.
pub open spec fn marked_read(ns: Map<u128, NotificationView>, ids: Set<u128>) -> Map<
    u128,
    NotificationView,
> {
    Map::new(
        |k: u128| ns.contains_key(k),
        |k: u128|
            if ids.contains(k) {
                as_read(ns[k])
            } else {
                ns[k]
            },
    )
}

impl View for NotificationStore {
    type V = StoreView;

    closed spec fn view(&self) -> StoreView {
        StoreView {
            notifications: self.notifications@.map_values(|n: Notification| n@),
            by_workspace: self.by_workspace@.map_values(|v: Vec<u128>| v@),
            by_tab: self.by_tab@.map_values(|v: Vec<u128>| v@),
        }
    }
}

/// The notification `id` as `add_notification` makes it: unread.
pub open spec fn new_notification(
    id: u128,
    workspace_id: u128,
    tab_id: u128,
    title: Seq<char>,
    subtitle: Seq<char>,
    body: Seq<char>,
    timestamp: i64,
) -> NotificationView {
    NotificationView { id, workspace_id, tab_id, title, subtitle, body, read: false, timestamp }
}

/// `after` is `before` with the notification added under `id` and `id`
/// appended to the lists of its workspace and its tab.
pub open spec fn added(
    before: StoreView,
    after: StoreView,
    id: u128,
    workspace_id: u128,
    tab_id: u128,
    title: Seq<char>,
    subtitle: Seq<char>,
    body: Seq<char>,
    timestamp: i64,
) -> bool {
    &&& after.notifications == before.notifications.insert(
        id,
        new_notification(id, workspace_id, tab_id, title, subtitle, body, timestamp),
    )
    &&& after.by_workspace == before.by_workspace.insert(
        workspace_id,
        listed(before.by_workspace, workspace_id).push(id),
    )
    &&& after.by_tab == before.by_tab.insert(tab_id, listed(before.by_tab, tab_id).push(id))
}

fn append_id(lists: &mut HashMap<u128, Vec<u128>>, key: u128, id: u128)
    ensures
        final(lists)@.map_values(|v: Vec<u128>| v@) == old(lists)@.map_values(
            |v: Vec<u128>| v@,
        ).insert(key, listed(old(lists)@.map_values(|v: Vec<u128>| v@), key).push(id)),
{
    let ghost before = lists@;
    let mut list = match lists.remove(&key) {
        Some(l) => l,
        None => Vec::new(),
    };
    let ghost l0 = list@;
    assert(l0 == listed(before.map_values(|v: Vec<u128>| v@), key));
    list.push(id);
    lists.insert(key, list);
    assert(lists@.map_values(|v: Vec<u128>| v@) =~= before.map_values(|v: Vec<u128>| v@).insert(
        key,
        l0.push(id),
    ));
}

fn list_of(lists: &HashMap<u128, Vec<u128>>, key: u128) -> (r: Vec<u128>)
    ensures
        r@ == listed(lists@.map_values(|v: Vec<u128>| v@), key),
{
    match lists.get(&key) {
        Some(l) => l.clone(),
        None => Vec::new(),
    }
}

impl NotificationStore {
    /// An empty store.
    pub fn new() -> (s: Self)
        ensures
            s@.notifications == Map::<u128, NotificationView>::empty(),
            s@.by_workspace == Map::<u128, Seq<u128>>::empty(),
            s@.by_tab == Map::<u128, Seq<u128>>::empty(),
            store_consistent(s@),
    {
        let s = NotificationStore {
            notifications: HashMap::new(),
            by_workspace: HashMap::new(),
            by_tab: HashMap::new(),
        };
        assert(s@.notifications =~= Map::<u128, NotificationView>::empty());
        assert(s@.by_workspace =~= Map::<u128, Seq<u128>>::empty());
        assert(s@.by_tab =~= Map::<u128, Seq<u128>>::empty());
        proof {
            lemma_empty_store_consistent(s@);
        }
        s
    }

    /// Adds an unread notification with the given id and time; a notification
    /// that had this id is replaced, and the id is listed once more.
    pub fn add_notification_with(
        &mut self,
        id: u128,
        workspace_id: u128,
        tab_id: u128,
        title: String,
        subtitle: String,
        body: String,
        timestamp: i64,
    )
        ensures
            added(
                old(self)@,
                final(self)@,
                id,
                workspace_id,
                tab_id,
                title@,
                subtitle@,
                body@,
                timestamp,
            ),
            store_consistent(old(self)@) && !old(self)@.notifications.contains_key(id)
                ==> store_consistent(final(self)@),
    {
        let ghost t = title@;
        let ghost st = subtitle@;
        let ghost b = body@;
        let n = Notification {
            id,
            workspace_id,
            tab_id,
            title,
            subtitle,
            body,
            read: false,
            timestamp,
        };
        let ghost before = self.notifications@;
        self.notifications.insert(id, n);
        assert(self.notifications@.map_values(|n: Notification| n@) =~= before.map_values(
            |n: Notification| n@,
        ).insert(id, new_notification(id, workspace_id, tab_id, t, st, b, timestamp)));
        append_id(&mut self.by_workspace, workspace_id, id);
        append_id(&mut self.by_tab, tab_id, id);
        proof {
            if store_consistent(old(self)@) && !old(self)@.notifications.contains_key(id) {
                lemma_add_keeps_store_consistent(
                    old(self)@,
                    self@,
                    id,
                    workspace_id,
                    tab_id,
                    t,
                    st,
                    b,
                    timestamp,
                );
            }
        }
    }

    /// Whether the workspace has an unread notification.
    pub fn has_unread_for_workspace(&self, workspace_id: u128) -> (b: bool)
        ensures
            b == has_unread_in(listed(self@.by_workspace, workspace_id), self@.notifications),
    {
        let ids = list_of(&self.by_workspace, workspace_id);
        self.any_unread(&ids)
    }

    /// Whether the tab has an unread notification.
    pub fn has_unread_for_tab(&self, tab_id: u128) -> (b: bool)
        ensures
            b == has_unread_in(listed(self@.by_tab, tab_id), self@.notifications),
    {
        let ids = list_of(&self.by_tab, tab_id);
        self.any_unread(&ids)
    }

    fn any_unread(&self, ids: &Vec<u128>) -> (b: bool)
        ensures
            b == has_unread_in(ids@, self@.notifications),
    {
        let mut i: usize = 0;
        while i < ids.len()
            invariant
                i <= ids.len(),
                forall|k: int|
                    0 <= k < i ==> !(self@.notifications.contains_key(ids@[k])
                        && !self@.notifications[ids@[k]].read),
            decreases ids.len() - i,
        {
            match self.notifications.get(&ids[i]) {
                Some(n) => {
                    if !n.read {
                        return true;
                    }
                },
                None => {},
            }
            i = i + 1;
        }
        false
    }

    /// The notifications of a workspace, in the order they came.
    pub fn get_notifications_for_workspace(&self, workspace_id: u128) -> (r: Vec<&Notification>)
        ensures
            r@.map_values(|n: &Notification| n@) == notifications_of(
                listed(self@.by_workspace, workspace_id),
                self@.notifications,
            ),
    {
        let ids = list_of(&self.by_workspace, workspace_id);
        let mut r: Vec<&Notification> = Vec::new();
        let mut i: usize = 0;
        while i < ids.len()
            invariant
                i <= ids.len(),
                r@.map_values(|n: &Notification| n@) == notifications_of(
                    ids@.take(i as int),
                    self@.notifications,
                ),
            decreases ids.len() - i,
        {
            let ghost before = r@;
            proof {
                assert(ids@.take(i + 1).drop_last() =~= ids@.take(i as int));
            }
            match self.notifications.get(&ids[i]) {
                Some(n) => {
                    r.push(n);
                    assert(r@.map_values(|n: &Notification| n@) =~= before.map_values(
                        |n: &Notification| n@,
                    ).push(self@.notifications[ids@[i as int]]));
                },
                None => {},
            }
            i = i + 1;
        }
        assert(ids@.take(ids.len() as int) =~= ids@);
        r
    }

    /// Marks the notification `id` read, if there is one.
    pub fn mark_read(&mut self, notification_id: u128)
        ensures
            final(self)@.notifications == (if old(self)@.notifications.contains_key(
                notification_id,
            ) {
                old(self)@.notifications.insert(
                    notification_id,
                    as_read(old(self)@.notifications[notification_id]),
                )
            } else {
                old(self)@.notifications
            }),
            final(self)@.by_workspace == old(self)@.by_workspace,
            final(self)@.by_tab == old(self)@.by_tab,
            store_consistent(old(self)@) ==> store_consistent(final(self)@),
    {
        let ghost before = self.notifications@;
        let updated = match self.notifications.get(&notification_id) {
            Some(n) => Some(n.with_read(true)),
            None => None,
        };
        match updated {
            Some(n) => {
                self.notifications.insert(notification_id, n);
                assert(self.notifications@.map_values(|n: Notification| n@) =~= before.map_values(
                    |n: Notification| n@,
                ).insert(
                    notification_id,
                    as_read(before.map_values(|n: Notification| n@)[notification_id]),
                ));
            },
            None => {},
        }
        proof {
            if store_consistent(old(self)@) {
                assert(self@.notifications.dom() =~= old(self)@.notifications.dom());
                lemma_marking_keeps_store_consistent(old(self)@, self@);
            }
        }
    }

    /// Marks every notification of the tab read.
    pub fn mark_read_for_tab(&mut self, tab_id: u128)
        ensures
            final(self)@.notifications == marked_read(
                old(self)@.notifications,
                listed(old(self)@.by_tab, tab_id).to_set(),
            ),
            final(self)@.by_workspace == old(self)@.by_workspace,
            final(self)@.by_tab == old(self)@.by_tab,
            store_consistent(old(self)@) ==> store_consistent(final(self)@),
    {
        let ids = list_of(&self.by_tab, tab_id);
        let ghost start = self@.notifications;
        let mut i: usize = 0;
        assert(start =~= marked_read(start, ids@.take(0).to_set()));
        while i < ids.len()
            invariant
                i <= ids.len(),
                ids@ == listed(old(self)@.by_tab, tab_id),
                start == old(self)@.notifications,
                self@.notifications == marked_read(start, ids@.take(i as int).to_set()),
                self@.by_workspace == old(self)@.by_workspace,
                self@.by_tab == old(self)@.by_tab,
            decreases ids.len() - i,
        {
            let ghost before = self@.notifications;
            self.mark_read(ids[i]);
            assert(ids@.take(i + 1) =~= ids@.take(i as int).push(ids@[i as int]));
            proof {
                ids@.take(i as int).lemma_push_to_set_commute(ids@[i as int]);
                let s1 = ids@.take(i + 1).to_set();
                assert(s1 == ids@.take(i as int).to_set().insert(ids@[i as int]));
                let want = marked_read(start, s1);
                assert forall|k: u128| #[trigger] self@.notifications.contains_key(k)
                    == want.contains_key(k) by {}
                assert forall|k: u128| want.contains_key(k) implies #[trigger] self@.notifications[k]
                    == want[k] by {
                    if k == ids@[i as int] {
                        assert(s1.contains(k));
                    } else {
                        assert(s1.contains(k) == ids@.take(i as int).to_set().contains(k));
                    }
                }
                assert(self@.notifications =~= want);
            }
            i = i + 1;
        }
        assert(ids@.take(ids.len() as int) =~= ids@);
        proof {
            if store_consistent(old(self)@) {
                assert(self@.notifications.dom() =~= old(self)@.notifications.dom());
                lemma_marking_keeps_store_consistent(old(self)@, self@);
            }
        }
    }

    /// Forgets every notification.
    pub fn clear_all(&mut self)
        ensures
            final(self)@.notifications == Map::<u128, NotificationView>::empty(),
            final(self)@.by_workspace == Map::<u128, Seq<u128>>::empty(),
            final(self)@.by_tab == Map::<u128, Seq<u128>>::empty(),
            store_consistent(final(self)@),
    {
        self.notifications.clear();
        self.by_workspace.clear();
        self.by_tab.clear();
        assert(self@.notifications =~= Map::<u128, NotificationView>::empty());
        assert(self@.by_workspace =~= Map::<u128, Seq<u128>>::empty());
        assert(self@.by_tab =~= Map::<u128, Seq<u128>>::empty());
        proof {
            lemma_empty_store_consistent(self@);
        }
    }
}

} // verus!

verus! {

fn keys_of(m: &HashMap<u128, Notification>) -> (ks: Vec<u128>)
    ensures
        ks@.to_set() == m@.dom(),
        ks@.no_duplicates(),
        ks@.len() == m@.dom().len(),
{
    let ghost all = vstd::std_specs::hash::spec_keys_iter(m).remaining();
    let mut ks: Vec<u128> = Vec::new();
    for k in it: m.keys()
        invariant
            it.seq() == all,
            ks@ == all.take(it.index() as int).map_values(|r: &u128| *r),
    {
        ks.push(*k);
        assert(ks@ =~= all.take(it.index() + 1).map_values(|r: &u128| *r));
    }
    assert(ks@.len() == all.len());
    assert(ks@ =~= all.unref());
    ks
}

impl NotificationStore {
    /// Marks every notification read.
    pub fn mark_all_read(&mut self)
        ensures
            final(self)@.notifications == marked_read(
                old(self)@.notifications,
                old(self)@.notifications.dom(),
            ),
            final(self)@.by_workspace == old(self)@.by_workspace,
            final(self)@.by_tab == old(self)@.by_tab,
            store_consistent(old(self)@) ==> store_consistent(final(self)@),
    {
        let ids = keys_of(&self.notifications);
        let ghost start = self@.notifications;
        assert(start.dom() == self.notifications@.dom());
        let mut i: usize = 0;
        assert(start =~= marked_read(start, ids@.take(0).to_set()));
        while i < ids.len()
            invariant
                i <= ids.len(),
                ids@.to_set() == start.dom(),
                start == old(self)@.notifications,
                self@.notifications == marked_read(start, ids@.take(i as int).to_set()),
                self@.by_workspace == old(self)@.by_workspace,
                self@.by_tab == old(self)@.by_tab,
            decreases ids.len() - i,
        {
            self.mark_read(ids[i]);
            assert(ids@.take(i + 1) =~= ids@.take(i as int).push(ids@[i as int]));
            proof {
                ids@.take(i as int).lemma_push_to_set_commute(ids@[i as int]);
                let s1 = ids@.take(i + 1).to_set();
                assert(s1 == ids@.take(i as int).to_set().insert(ids@[i as int]));
                let want = marked_read(start, s1);
                assert forall|k: u128| #[trigger] self@.notifications.contains_key(k)
                    == want.contains_key(k) by {}
                assert forall|k: u128| want.contains_key(k) implies #[trigger] self@.notifications[k]
                    == want[k] by {
                    if k == ids@[i as int] {
                        assert(s1.contains(k));
                    } else {
                        assert(s1.contains(k) == ids@.take(i as int).to_set().contains(k));
                    }
                }
                assert(self@.notifications =~= want);
            }
            i = i + 1;
        }
        assert(ids@.take(ids.len() as int) =~= ids@);
        proof {
            if store_consistent(old(self)@) {
                assert(self@.notifications.dom() =~= old(self)@.notifications.dom());
                lemma_marking_keeps_store_consistent(old(self)@, self@);
            }
        }
    }

    /// The number of unread notifications.
    pub fn get_unread_count(&self) -> (n: usize)
        ensures
            n == unread_ids(self@.notifications).len(),
    {
        let ids = keys_of(&self.notifications);
        let ghost nv = self@.notifications;
        let ghost mut seen: Set<u128> = Set::empty();
        let mut n: usize = 0;
        let mut i: usize = 0;
        while i < ids.len()
            invariant
                i <= ids.len(),
                n <= i,
                ids@.no_duplicates(),
                ids@.to_set() == nv.dom(),
                nv == self@.notifications,
                seen.finite(),
                seen.len() == n,
                seen == ids@.take(i as int).to_set().filter(|k: u128| !nv[k].read),
            decreases ids.len() - i,
        {
            let k = ids[i];
            proof {
                ids@.take(i as int).lemma_push_to_set_commute(k);
                assert(ids@.take(i + 1) =~= ids@.take(i as int).push(k));
                assert(!ids@.take(i as int).contains(k)) by {
                    if ids@.take(i as int).contains(k) {
                        let j = choose|j: int| 0 <= j < i && ids@.take(i as int)[j] == k;
                        assert(ids@[j] == ids@[i as int]);
                    }
                }
                assert(nv.contains_key(k)) by {
                    assert(ids@.to_set().contains(k));
                }
            }
            match self.notifications.get(&k) {
                Some(x) => {
                    if !x.read {
                        proof {
                            assert(!seen.contains(k));
                            seen = seen.insert(k);
                        }
                        n = n + 1;
                    }
                },
                None => {},
            }
            proof {
                assert(seen =~= ids@.take(i + 1).to_set().filter(|k: u128| !nv[k].read));
            }
            i = i + 1;
        }
        assert(ids@.take(ids.len() as int) =~= ids@);
        assert(seen =~= unread_ids(nv));
        n
    }

    /// Every notification, in no particular order.
    pub fn all_notifications(&self) -> (r: Vec<&Notification>)
        ensures
            exists|ks: Seq<u128>|
                {
                    &&& ks.len() == r@.len()
                    &&& ks.no_duplicates()
                    &&& ks.to_set() == self@.notifications.dom()
                    &&& forall|i: int|
                        0 <= i < ks.len() ==> (#[trigger] r@[i])@ == self@.notifications[ks[i]]
                },
    {
        let ids = keys_of(&self.notifications);
        let mut r: Vec<&Notification> = Vec::new();
        let mut i: usize = 0;
        while i < ids.len()
            invariant
                i <= ids.len(),
                ids@.to_set() == self@.notifications.dom(),
                ids@.no_duplicates(),
                r@.len() == i,
                forall|j: int| 0 <= j < i ==> (#[trigger] r@[j])@ == self@.notifications[ids@[j]],
            decreases ids.len() - i,
        {
            let k = ids[i];
            assert(ids@.to_set().contains(k));
            match self.notifications.get(&k) {
                Some(x) => {
                    r.push(x);
                },
                None => {
                    assert(false);
                    return r;
                },
            }
            i = i + 1;
        }
        r
    }
}

/// `Uuid::new_v4`, as its 128-bit value: random, with the version nibble 4
/// and the variant bits `10`, as the crate sets them.
#[verifier::external_body]
fn new_random_id() -> (id: u128)
    ensures
        id & 0x0000_0000_0000_f000_c000_0000_0000_0000u128
            == 0x0000_0000_0000_4000_8000_0000_0000_0000u128,
{
    uuid::Uuid::new_v4().as_u128()
}

/// The whole seconds since the Unix epoch by the system clock, or `None`
/// when the clock is set before it; it reads the clock, so nothing else is
/// promised.
#[verifier::external_body]
fn unix_seconds() -> Option<u64> {
    match std::time::SystemTime::now().duration_since(std::time::UNIX_EPOCH) {
        Ok(d) => Some(d.as_secs()),
        Err(_) => None,
    }
}

impl NotificationStore {
    /// Adds an unread notification under a fresh random version-4 UUID,
    /// stamped with the current time in seconds (0 when the clock is set
    /// before 1970).
    pub fn add_notification(
        &mut self,
        workspace_id: u128,
        tab_id: u128,
        title: String,
        subtitle: String,
        body: String,
    )
        ensures
            exists|id: u128, timestamp: i64|
                {
                    &&& added(
                        old(self)@,
                        final(self)@,
                        id,
                        workspace_id,
                        tab_id,
                        title@,
                        subtitle@,
                        body@,
                        timestamp,
                    )
                    &&& id & 0x0000_0000_0000_f000_c000_0000_0000_0000u128
                        == 0x0000_0000_0000_4000_8000_0000_0000_0000u128
                    &&& store_consistent(old(self)@) && !old(self)@.notifications.contains_key(id)
                        ==> store_consistent(final(self)@)
                },
    {
        let id = new_random_id();
        let timestamp: i64 = match unix_seconds() {
            Some(secs) => secs as i64,
            None => 0,
        };
        self.add_notification_with(id, workspace_id, tab_id, title, subtitle, body, timestamp);
    }
}

impl Default for NotificationStore {
    /// An empty store.
    fn default() -> (s: Self)
        ensures
            s@.notifications == Map::<u128, NotificationView>::empty(),
            s@.by_workspace == Map::<u128, Seq<u128>>::empty(),
            s@.by_tab == Map::<u128, Seq<u128>>::empty(),
            store_consistent(s@),
    {
        NotificationStore::new()
    }
}

/// A notification just added is unread: its workspace and its tab then have
/// an unread notification, and it counts among the unread.
pub proof fn lemma_added_is_unread(
    before: StoreView,
    after: StoreView,
    id: u128,
    workspace_id: u128,
    tab_id: u128,
    title: Seq<char>,
    subtitle: Seq<char>,
    body: Seq<char>,
    timestamp: i64,
)
    requires
        added(before, after, id, workspace_id, tab_id, title, subtitle, body, timestamp),
    ensures
        has_unread_in(listed(after.by_workspace, workspace_id), after.notifications),
        has_unread_in(listed(after.by_tab, tab_id), after.notifications),
        unread_ids(after.notifications).contains(id),
{
    let w = listed(after.by_workspace, workspace_id);
    let t = listed(after.by_tab, tab_id);
    assert(w.last() == id && w.len() > 0);
    assert(t.last() == id && t.len() > 0);
    assert(after.notifications.contains_key(w[w.len() - 1]));
    assert(after.notifications.contains_key(t[t.len() - 1]));
}

/// Adding a notification under a new id adds exactly one unread notification.
pub proof fn lemma_add_counts_one(
    before: StoreView,
    after: StoreView,
    id: u128,
    workspace_id: u128,
    tab_id: u128,
    title: Seq<char>,
    subtitle: Seq<char>,
    body: Seq<char>,
    timestamp: i64,
)
    requires
        before.notifications.dom().finite(),
        !before.notifications.contains_key(id),
        added(before, after, id, workspace_id, tab_id, title, subtitle, body, timestamp),
    ensures
        unread_ids(after.notifications) == unread_ids(before.notifications).insert(id),
        unread_ids(after.notifications).len() == unread_ids(before.notifications).len() + 1,
{
    assert(unread_ids(after.notifications) =~= unread_ids(before.notifications).insert(id));
    assert(!unread_ids(before.notifications).contains(id));
    assert(unread_ids(before.notifications).finite());
}

/// Once everything is marked read nothing is unread: the count is zero and no
/// workspace or tab has an unread notification.
pub proof fn lemma_all_read(ns: Map<u128, NotificationView>, ids: Seq<u128>)
    ensures
        unread_ids(marked_read(ns, ns.dom())) == Set::<u128>::empty(),
        unread_ids(marked_read(ns, ns.dom())).len() == 0,
        !has_unread_in(ids, marked_read(ns, ns.dom())),
{
    assert(unread_ids(marked_read(ns, ns.dom())) =~= Set::<u128>::empty());
}

/// Once a tab's notifications are marked read, the tab has no unread one.
pub proof fn lemma_tab_read(s: StoreView, tab_id: u128)
    ensures
        !has_unread_in(
            listed(s.by_tab, tab_id),
            marked_read(s.notifications, listed(s.by_tab, tab_id).to_set()),
        ),
{
    let ids = listed(s.by_tab, tab_id);
    let m = marked_read(s.notifications, ids.to_set());
    assert forall|i: int| 0 <= i < ids.len() && m.contains_key(ids[i]) implies m[ids[i]].read by {
        assert(ids.to_set().contains(ids[i]));
    }
}

/// Marking read changes no text, no id and no time, and keeps every
/// notification: only the read flags of the chosen ones change.
pub proof fn lemma_marked_read_keeps(ns: Map<u128, NotificationView>, ids: Set<u128>, k: u128)
    requires
        ns.contains_key(k),
    ensures
        marked_read(ns, ids).dom() == ns.dom(),
        marked_read(ns, ids)[k] == (NotificationView { read: ns[k].read || ids.contains(k), ..ns[k] }),
{
    assert(marked_read(ns, ids).dom() =~= ns.dom());
}

} // verus!

verus! {

/// The ids of the notifications of the workspace `w`.
pub open spec fn ids_of_workspace(ns: Map<u128, NotificationView>, w: u128) -> Set<u128> {
    ns.dom().filter(|k: u128| ns[k].workspace_id == w)
}

/// The ids of the notifications of the tab `t`.
pub open spec fn ids_of_tab(ns: Map<u128, NotificationView>, t: u128) -> Set<u128> {
    ns.dom().filter(|k: u128| ns[k].tab_id == t)
}

/// The store's lists agree with its notifications: each notification is kept
/// under its own id and listed once under its own workspace and once under
/// its own tab, and every listed id names a notification of that workspace or
/// tab.
pub open spec fn store_consistent(s: StoreView) -> bool {
    &&& s.notifications.dom().finite()
    &&& forall|k: u128| #[trigger]
        s.notifications.contains_key(k) ==> {
            &&& s.notifications[k].id == k
            &&& listed(s.by_workspace, s.notifications[k].workspace_id).contains(k)
            &&& listed(s.by_tab, s.notifications[k].tab_id).contains(k)
        }
    &&& forall|w: u128| #[trigger] s.by_workspace.contains_key(w) ==> s.by_workspace[w].no_duplicates()
    &&& forall|w: u128, i: int|
        s.by_workspace.contains_key(w) && 0 <= i < s.by_workspace[w].len() ==> {
            &&& s.notifications.contains_key(#[trigger] s.by_workspace[w][i])
            &&& s.notifications[s.by_workspace[w][i]].workspace_id == w
        }
    &&& forall|t: u128| #[trigger] s.by_tab.contains_key(t) ==> s.by_tab[t].no_duplicates()
    &&& forall|t: u128, i: int|
        s.by_tab.contains_key(t) && 0 <= i < s.by_tab[t].len() ==> {
            &&& s.notifications.contains_key(#[trigger] s.by_tab[t][i])
            &&& s.notifications[s.by_tab[t][i]].tab_id == t
        }
}

/// A store with no notifications and no lists is consistent.
pub proof fn lemma_empty_store_consistent(s: StoreView)
    requires
        s.notifications == Map::<u128, NotificationView>::empty(),
        s.by_workspace == Map::<u128, Seq<u128>>::empty(),
        s.by_tab == Map::<u128, Seq<u128>>::empty(),
    ensures
        store_consistent(s),
{
    assert(s.notifications.dom() =~= Set::<u128>::empty());
}

proof fn lemma_push_fresh(l: Seq<u128>, id: u128)
    requires
        l.no_duplicates(),
        !l.contains(id),
    ensures
        l.push(id).no_duplicates(),
        l.push(id).contains(id),
        forall|k: u128| l.contains(k) ==> l.push(id).contains(k),
{
    assert(l.push(id)[l.len() as int] == id);
    assert forall|k: u128| l.contains(k) implies l.push(id).contains(k) by {
        let i = choose|i: int| 0 <= i < l.len() && l[i] == k;
        assert(l.push(id)[i] == k);
    }
}

/// Adding a notification under an id the store does not hold keeps it
/// consistent. (Adding under an id it holds lists that id a second time.)
pub proof fn lemma_add_keeps_store_consistent(
    before: StoreView,
    after: StoreView,
    id: u128,
    workspace_id: u128,
    tab_id: u128,
    title: Seq<char>,
    subtitle: Seq<char>,
    body: Seq<char>,
    timestamp: i64,
)
    requires
        store_consistent(before),
        !before.notifications.contains_key(id),
        added(before, after, id, workspace_id, tab_id, title, subtitle, body, timestamp),
    ensures
        store_consistent(after),
{
    let lw = listed(before.by_workspace, workspace_id);
    let lt = listed(before.by_tab, tab_id);
    assert(!lw.contains(id)) by {
        if lw.contains(id) {
            let i = choose|i: int| 0 <= i < lw.len() && lw[i] == id;
            assert(before.by_workspace.contains_key(workspace_id));
            assert(before.notifications.contains_key(before.by_workspace[workspace_id][i]));
        }
    }
    assert(!lt.contains(id)) by {
        if lt.contains(id) {
            let i = choose|i: int| 0 <= i < lt.len() && lt[i] == id;
            assert(before.by_tab.contains_key(tab_id));
            assert(before.notifications.contains_key(before.by_tab[tab_id][i]));
        }
    }
    assert(lw.no_duplicates()) by {
        if before.by_workspace.contains_key(workspace_id) {
        }
    }
    assert(lt.no_duplicates()) by {
        if before.by_tab.contains_key(tab_id) {
        }
    }
    lemma_push_fresh(lw, id);
    lemma_push_fresh(lt, id);
    assert(after.notifications.dom() =~= before.notifications.dom().insert(id));
    assert forall|k: u128| #[trigger] after.notifications.contains_key(k) implies {
        &&& after.notifications[k].id == k
        &&& listed(after.by_workspace, after.notifications[k].workspace_id).contains(k)
        &&& listed(after.by_tab, after.notifications[k].tab_id).contains(k)
    } by {
        if k != id {
            assert(before.notifications.contains_key(k));
        }
    }
    assert forall|w: u128, i: int|
        after.by_workspace.contains_key(w) && 0 <= i < after.by_workspace[w].len() implies {
        &&& after.notifications.contains_key(#[trigger] after.by_workspace[w][i])
        &&& after.notifications[after.by_workspace[w][i]].workspace_id == w
    } by {
        if w == workspace_id {
            if i < lw.len() {
                assert(before.by_workspace.contains_key(w));
                assert(after.by_workspace[w][i] == before.by_workspace[w][i]);
                assert(before.notifications.contains_key(before.by_workspace[w][i]));
            }
        } else {
            assert(before.by_workspace.contains_key(w));
            assert(before.notifications.contains_key(before.by_workspace[w][i]));
        }
    }
    assert forall|t: u128, i: int|
        after.by_tab.contains_key(t) && 0 <= i < after.by_tab[t].len() implies {
        &&& after.notifications.contains_key(#[trigger] after.by_tab[t][i])
        &&& after.notifications[after.by_tab[t][i]].tab_id == t
    } by {
        if t == tab_id {
            if i < lt.len() {
                assert(before.by_tab.contains_key(t));
                assert(after.by_tab[t][i] == before.by_tab[t][i]);
                assert(before.notifications.contains_key(before.by_tab[t][i]));
            }
        } else {
            assert(before.by_tab.contains_key(t));
            assert(before.notifications.contains_key(before.by_tab[t][i]));
        }
    }
}

/// Changing only read flags keeps the store consistent; this covers
/// `mark_read`, `mark_read_for_tab` and `mark_all_read`.
pub proof fn lemma_marking_keeps_store_consistent(s: StoreView, t: StoreView)
    requires
        store_consistent(s),
        t.notifications.dom() == s.notifications.dom(),
        forall|k: u128|
            #[trigger] s.notifications.contains_key(k) ==> t.notifications[k] == (NotificationView {
                read: t.notifications[k].read,
                ..s.notifications[k]
            }),
        t.by_workspace == s.by_workspace,
        t.by_tab == s.by_tab,
    ensures
        store_consistent(t),
{
    assert forall|k: u128| #[trigger] t.notifications.contains_key(k) implies {
        &&& t.notifications[k].id == k
        &&& listed(t.by_workspace, t.notifications[k].workspace_id).contains(k)
        &&& listed(t.by_tab, t.notifications[k].tab_id).contains(k)
    } by {
        assert(s.notifications.contains_key(k));
    }
    assert forall|w: u128, i: int|
        t.by_workspace.contains_key(w) && 0 <= i < t.by_workspace[w].len() implies {
        &&& t.notifications.contains_key(#[trigger] t.by_workspace[w][i])
        &&& t.notifications[t.by_workspace[w][i]].workspace_id == w
    } by {
        assert(s.notifications.contains_key(s.by_workspace[w][i]));
    }
    assert forall|x: u128, i: int|
        t.by_tab.contains_key(x) && 0 <= i < t.by_tab[x].len() implies {
        &&& t.notifications.contains_key(#[trigger] t.by_tab[x][i])
        &&& t.notifications[t.by_tab[x][i]].tab_id == x
    } by {
        assert(s.notifications.contains_key(s.by_tab[x][i]));
    }
}

/// In a consistent store a tab's list holds each notification of that tab
/// exactly once, and nothing else.
pub proof fn lemma_tab_list_is_the_tab(s: StoreView, tab_id: u128)
    requires
        store_consistent(s),
    ensures
        listed(s.by_tab, tab_id).no_duplicates(),
        listed(s.by_tab, tab_id).to_set() == ids_of_tab(s.notifications, tab_id),
{
    let l = listed(s.by_tab, tab_id);
    let ns = s.notifications;
    assert forall|k: u128| l.to_set().contains(k) <==> ids_of_tab(ns, tab_id).contains(k) by {
        if l.contains(k) {
            let i = choose|i: int| 0 <= i < l.len() && l[i] == k;
            assert(s.by_tab.contains_key(tab_id));
            assert(ns.contains_key(s.by_tab[tab_id][i]));
        }
        if ns.contains_key(k) && ns[k].tab_id == tab_id {
            assert(listed(s.by_tab, ns[k].tab_id).contains(k));
        }
    }
    assert(l.to_set() =~= ids_of_tab(ns, tab_id));
    if s.by_tab.contains_key(tab_id) {
    } else {
        assert(l.no_duplicates());
    }
}

/// In a consistent store a workspace's list holds each notification of that
/// workspace exactly once, and nothing else.
pub proof fn lemma_workspace_list_is_the_workspace(s: StoreView, workspace_id: u128)
    requires
        store_consistent(s),
    ensures
        listed(s.by_workspace, workspace_id).no_duplicates(),
        listed(s.by_workspace, workspace_id).to_set() == ids_of_workspace(
            s.notifications,
            workspace_id,
        ),
{
    let l = listed(s.by_workspace, workspace_id);
    let ns = s.notifications;
    assert forall|k: u128| l.to_set().contains(k) <==> ids_of_workspace(ns, workspace_id).contains(
        k,
    ) by {
        if l.contains(k) {
            let i = choose|i: int| 0 <= i < l.len() && l[i] == k;
            assert(s.by_workspace.contains_key(workspace_id));
            assert(ns.contains_key(s.by_workspace[workspace_id][i]));
        }
        if ns.contains_key(k) && ns[k].workspace_id == workspace_id {
            assert(listed(s.by_workspace, ns[k].workspace_id).contains(k));
        }
    }
    assert(l.to_set() =~= ids_of_workspace(ns, workspace_id));
    if s.by_workspace.contains_key(workspace_id) {
    } else {
        assert(l.no_duplicates());
    }
}

proof fn lemma_notifications_of_all(ids: Seq<u128>, ns: Map<u128, NotificationView>)
    requires
        forall|i: int| 0 <= i < ids.len() ==> ns.contains_key(#[trigger] ids[i]),
    ensures
        notifications_of(ids, ns) == ids.map_values(|k: u128| ns[k]),
    decreases ids.len(),
{
    if ids.len() > 0 {
        let d = ids.drop_last();
        assert forall|i: int| 0 <= i < d.len() implies ns.contains_key(#[trigger] d[i]) by {
            assert(d[i] == ids[i]);
        }
        assert(ns.contains_key(ids[ids.len() - 1]));
        lemma_notifications_of_all(d, ns);
        assert(ids.map_values(|k: u128| ns[k]) =~= d.map_values(|k: u128| ns[k]).push(
            ns[ids.last()],
        ));
    } else {
        assert(ids.map_values(|k: u128| ns[k]) =~= Seq::<NotificationView>::empty());
    }
}

/// What a consistent store lists for a workspace: each notification of that
/// workspace exactly once, in the order they came, and nothing else; and the
/// workspace has an unread notification exactly when one of its own is unread.
pub proof fn lemma_workspace_listing(s: StoreView, workspace_id: u128)
    requires
        store_consistent(s),
    ensures
        ({
            let l = listed(s.by_workspace, workspace_id);
            &&& l.no_duplicates()
            &&& l.to_set() == ids_of_workspace(s.notifications, workspace_id)
            &&& notifications_of(l, s.notifications) == l.map_values(|k: u128| s.notifications[k])
            &&& has_unread_in(l, s.notifications) <==> exists|k: u128|
                #[trigger] ids_of_workspace(s.notifications, workspace_id).contains(k)
                    && !s.notifications[k].read
        }),
{
    let l = listed(s.by_workspace, workspace_id);
    let ns = s.notifications;
    lemma_workspace_list_is_the_workspace(s, workspace_id);
    assert forall|i: int| 0 <= i < l.len() implies ns.contains_key(#[trigger] l[i]) by {
        assert(s.by_workspace.contains_key(workspace_id));
        assert(ns.contains_key(s.by_workspace[workspace_id][i]));
    }
    lemma_notifications_of_all(l, ns);
    if has_unread_in(l, ns) {
        let i = choose|i: int| 0 <= i < l.len() && ns.contains_key(l[i]) && !ns[l[i]].read;
        assert(l.to_set().contains(l[i]));
        assert(ids_of_workspace(ns, workspace_id).contains(l[i]));
    }
    if exists|k: u128| #[trigger] ids_of_workspace(ns, workspace_id).contains(k) && !ns[k].read {
        let k = choose|k: u128| #[trigger] ids_of_workspace(ns, workspace_id).contains(k) && !ns[k].read;
        assert(l.to_set().contains(k));
        let i = choose|i: int| 0 <= i < l.len() && l[i] == k;
        assert(ns.contains_key(l[i]) && !ns[l[i]].read);
    }
}

/// What a consistent store lists for a tab: each notification of that tab
/// exactly once and nothing else; and the tab has an unread notification
/// exactly when one of its own is unread.
pub proof fn lemma_tab_listing(s: StoreView, tab_id: u128)
    requires
        store_consistent(s),
    ensures
        ({
            let l = listed(s.by_tab, tab_id);
            &&& l.no_duplicates()
            &&& l.to_set() == ids_of_tab(s.notifications, tab_id)
            &&& has_unread_in(l, s.notifications) <==> exists|k: u128|
                #[trigger] ids_of_tab(s.notifications, tab_id).contains(k)
                    && !s.notifications[k].read
        }),
{
    let l = listed(s.by_tab, tab_id);
    let ns = s.notifications;
    lemma_tab_list_is_the_tab(s, tab_id);
    if has_unread_in(l, ns) {
        let i = choose|i: int| 0 <= i < l.len() && ns.contains_key(l[i]) && !ns[l[i]].read;
        assert(l.to_set().contains(l[i]));
        assert(ids_of_tab(ns, tab_id).contains(l[i]));
    }
    if exists|k: u128| #[trigger] ids_of_tab(ns, tab_id).contains(k) && !ns[k].read {
        let k = choose|k: u128| #[trigger] ids_of_tab(ns, tab_id).contains(k) && !ns[k].read;
        assert(l.to_set().contains(k));
        let i = choose|i: int| 0 <= i < l.len() && l[i] == k;
        assert(ns.contains_key(l[i]) && !ns[l[i]].read);
    }
}

/// Marking a tab read in a consistent store marks exactly that tab's
/// notifications: it then has none unread, every other notification keeps
/// its flag, and the unread count drops by the number of that tab's unread
/// notifications.
pub proof fn lemma_mark_tab_exact(s: StoreView, tab_id: u128)
    requires
        store_consistent(s),
    ensures
        ({
            let ns = s.notifications;
            let m = marked_read(ns, listed(s.by_tab, tab_id).to_set());
            &&& m.dom() == ns.dom()
            &&& forall|k: u128| #[trigger] m.contains_key(k) ==> m[k].read == (ns[k].read
                || ns[k].tab_id == tab_id)
            &&& !has_unread_in(listed(s.by_tab, tab_id), m)
            &&& unread_ids(m) == unread_ids(ns).difference(ids_of_tab(ns, tab_id))
            &&& unread_ids(m).len() == unread_ids(ns).len() - unread_ids(ns).intersect(
                ids_of_tab(ns, tab_id),
            ).len()
        }),
{
    let ns = s.notifications;
    let l = listed(s.by_tab, tab_id);
    let m = marked_read(ns, l.to_set());
    lemma_tab_list_is_the_tab(s, tab_id);
    lemma_tab_read(s, tab_id);
    assert(m.dom() =~= ns.dom());
    assert(unread_ids(m) =~= unread_ids(ns).difference(ids_of_tab(ns, tab_id)));
    assert(unread_ids(ns).finite());
    assert(ids_of_tab(ns, tab_id).finite());
    vstd::set_lib::lemma_set_difference_len(unread_ids(ns), ids_of_tab(ns, tab_id));
}

} // verus!
