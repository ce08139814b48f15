//! In-memory model of the two persisted entities.
//!
//! Identifiers are assigned monotonically, so the event list is kept in
//! strictly ascending identifier order and listings walk it backwards to give
//! newest-first output. Emails and external subject ids are unique among
//! users; every event references an existing owner.
use vstd::prelude::*;

verus! {

/// A registered user.
pub struct User {
    pub id: u64,
    pub name: String,
    pub email: String,
    pub age: u64,
    pub subject: String,
    pub created_at: u64,
}

/// A stored event, attributed to its owning user.
pub struct Event {
    pub uid: u64,
    pub title: String,
    pub description: String,
    pub date: String,
    pub location: String,
    pub image_url: String,
    pub map_position: String,
    pub owner: u64,
    pub created_at: u64,
}

/// Failure of a store mutation.
#[derive(Clone, Copy, Debug, PartialEq, Eq, Structural)]
pub enum StoreError {
    Duplicate,
}

/// Some user in `users` carries the id.
pub open spec fn user_id_exists(users: Seq<User>, id: u64) -> bool {
    exists|k: int| 0 <= k < users.len() && users[k].id == id
}

/// Some user is registered under the external subject id.
pub open spec fn has_subject(users: Seq<User>, sub: Seq<char>) -> bool {
    exists|k: int| 0 <= k < users.len() && users[k].subject@ == sub
}

/// The user registered under the external subject id. Well-defined whenever
/// `has_subject` holds; unique under well-formedness.
pub open spec fn subject_user(users: Seq<User>, sub: Seq<char>) -> User {
    users[choose|k: int| 0 <= k < users.len() && users[k].subject@ == sub]
}

/// Some event carries the identifier.
pub open spec fn has_event_uid(evs: Seq<Event>, uid: u64) -> bool {
    exists|k: int| 0 <= k < evs.len() && evs[k].uid == uid
}

/// The event with the identifier. Well-defined whenever `has_event_uid`
/// holds; unique under well-formedness.
pub open spec fn event_at_uid(evs: Seq<Event>, uid: u64) -> Event {
    evs[choose|k: int| 0 <= k < evs.len() && evs[k].uid == uid]
}

/// The store: both entity lists and the two identifier counters.
pub struct Store {
    pub users: Vec<User>,
    pub events: Vec<Event>,
    pub next_user_id: u64,
    pub next_event_uid: u64,
}

impl Store {
    /// Well-formedness: identifiers unique and below their counters, emails
    /// and subject ids unique, events in strictly ascending identifier order,
    /// every event owned by an existing user.
    pub open spec fn wf(self) -> bool {
        &&& (forall|i: int|
            0 <= i < self.users@.len() ==> (#[trigger] self.users@[i]).id < self.next_user_id)
        &&& (forall|i: int, j: int|
            0 <= i < j < self.users@.len() ==> self.users@[i].id != self.users@[j].id)
        &&& (forall|i: int, j: int|
            0 <= i < j < self.users@.len() ==> self.users@[i].email@ != self.users@[j].email@)
        &&& (forall|i: int, j: int|
            0 <= i < j < self.users@.len() ==> self.users@[i].subject@ != self.users@[j].subject@)
        &&& (forall|i: int|
            0 <= i < self.events@.len() ==> (#[trigger] self.events@[i]).uid
                < self.next_event_uid)
        &&& (forall|i: int, j: int|
            0 <= i < j < self.events@.len() ==> self.events@[i].uid < self.events@[j].uid)
        &&& (forall|i: int|
            0 <= i < self.events@.len() ==> user_id_exists(
                self.users@,
                (#[trigger] self.events@[i]).owner,
            ))
    }

    /// An empty store.
    pub fn new() -> (r: Store)
        ensures
            r.wf(),
            r.users@.len() == 0,
            r.events@.len() == 0,
            r.next_user_id == 1,
            r.next_event_uid == 1,
    {
        Store { users: Vec::new(), events: Vec::new(), next_user_id: 1, next_event_uid: 1 }
    }

    /// Index of the user registered under the external subject id, if any.
    pub fn find_user_by_subject(&self, subject: &str) -> (r: Option<usize>)
        ensures
            r matches Some(i) ==> i < self.users@.len() && self.users@[i as int].subject@
                == subject@,
            r is None ==> forall|k: int|
                0 <= k < self.users@.len() ==> self.users@[k].subject@ != subject@,
    {
        let mut i: usize = 0;
        while i < self.users.len()
            invariant
                0 <= i <= self.users@.len(),
                forall|k: int| 0 <= k < i ==> self.users@[k].subject@ != subject@,
            decreases self.users@.len() - i,
        {
            if crate::text::str_eq(self.users[i].subject.as_str(), subject) {
                return Some(i);
            }
            i += 1;
        }
        None
    }

    /// Whether some user carries the email.
    pub fn email_taken(&self, email: &str) -> (r: bool)
        ensures
            r == exists|k: int| 0 <= k < self.users@.len() && self.users@[k].email@ == email@,
    {
        let mut i: usize = 0;
        while i < self.users.len()
            invariant
                0 <= i <= self.users@.len(),
                forall|k: int| 0 <= k < i ==> self.users@[k].email@ != email@,
            decreases self.users@.len() - i,
        {
            if crate::text::str_eq(self.users[i].email.as_str(), email) {
                return true;
            }
            i += 1;
        }
        false
    }

    /// Registers a user. Refused when the subject id or the email is already
    /// taken: a second registration never creates a second user.
    pub fn insert_user(
        &mut self,
        name: String,
        email: String,
        age: u64,
        subject: String,
        now: u64,
    ) -> (r: Result<(), StoreError>)
        requires
            old(self).wf(),
            old(self).next_user_id < u64::MAX,
        ensures
            final(self).wf(),
            final(self).events@ == old(self).events@,
            final(self).next_event_uid == old(self).next_event_uid,
            r is Err <==> (exists|k: int|
                0 <= k < old(self).users@.len() && (old(self).users@[k].subject@ == subject@ || old(
                    self,
                ).users@[k].email@ == email@)),
            r is Err ==> *final(self) == *old(self),
            r is Ok ==> final(self).users@ == old(self).users@.push(
                User {
                    id: old(self).next_user_id,
                    name,
                    email,
                    age,
                    subject,
                    created_at: now,
                },
            ) && final(self).next_user_id == old(self).next_user_id + 1,
    {
        if let Some(_) = self.find_user_by_subject(subject.as_str()) {
            return Err(StoreError::Duplicate);
        }
        if self.email_taken(email.as_str()) {
            return Err(StoreError::Duplicate);
        }
        let id = self.next_user_id;
        self.users.push(User { id, name, email, age, subject, created_at: now });
        self.next_user_id = id + 1;
        proof {
            let u = self.users@.last();
            assert(forall|k: int|
                0 <= k < self.users@.len() - 1 ==> self.users@[k] == old(self).users@[k]);
            assert(forall|i: int|
                0 <= i < self.events@.len() ==> user_id_exists(
                    old(self).users@,
                    (#[trigger] self.events@[i]).owner,
                ));
            assert forall|i: int| 0 <= i < self.events@.len() implies user_id_exists(
                self.users@,
                (#[trigger] self.events@[i]).owner,
            ) by {
                let k = choose|k: int|
                    0 <= k < old(self).users@.len() && old(self).users@[k].id == self.events@[i].owner;
                assert(self.users@[k].id == self.events@[i].owner);
            }
        }
        Ok(())
    }

    /// Adds an event owned by `owner`, under the next identifier.
    pub fn insert_event(
        &mut self,
        title: String,
        description: String,
        date: String,
        location: String,
        image_url: String,
        map_position: String,
        owner: u64,
        now: u64,
    )
        requires
            old(self).wf(),
            old(self).next_event_uid < u64::MAX,
            user_id_exists(old(self).users@, owner),
        ensures
            final(self).wf(),
            final(self).users@ == old(self).users@,
            final(self).next_user_id == old(self).next_user_id,
            final(self).events@ == old(self).events@.push(
                Event {
                    uid: old(self).next_event_uid,
                    title,
                    description,
                    date,
                    location,
                    image_url,
                    map_position,
                    owner,
                    created_at: now,
                },
            ),
            final(self).next_event_uid == old(self).next_event_uid + 1,
    {
        let uid = self.next_event_uid;
        self.events.push(
            Event {
                uid,
                title,
                description,
                date,
                location,
                image_url,
                map_position,
                owner,
                created_at: now,
            },
        );
        self.next_event_uid = uid + 1;
        proof {
            assert(forall|k: int|
                0 <= k < self.events@.len() - 1 ==> self.events@[k] == old(self).events@[k]);
            assert forall|i: int| 0 <= i < self.events@.len() implies user_id_exists(
                self.users@,
                (#[trigger] self.events@[i]).owner,
            ) by {
                if i < self.events@.len() - 1 {
                    assert(user_id_exists(old(self).users@, old(self).events@[i].owner));
                }
            }
        }
    }

    /// Index of the event with the identifier, if present.
    pub fn find_event_by_uid(&self, uid: u64) -> (r: Option<usize>)
        ensures
            r matches Some(i) ==> i < self.events@.len() && self.events@[i as int].uid == uid,
            r is None ==> forall|k: int| 0 <= k < self.events@.len() ==> self.events@[k].uid != uid,
    {
        let mut i: usize = 0;
        while i < self.events.len()
            invariant
                0 <= i <= self.events@.len(),
                forall|k: int| 0 <= k < i ==> self.events@[k].uid != uid,
            decreases self.events@.len() - i,
        {
            if self.events[i].uid == uid {
                return Some(i);
            }
            i += 1;
        }
        None
    }

    /// Removes the event with the identifier; removing an absent identifier
    /// is a no-op, as at the data layer.
    pub fn delete_event_by_uid(&mut self, uid: u64)
        requires
            old(self).wf(),
        ensures
            final(self).wf(),
            final(self).users@ == old(self).users@,
            final(self).next_user_id == old(self).next_user_id,
            final(self).next_event_uid == old(self).next_event_uid,
            final(self).events@ == events_without(old(self).events@, uid),
    {
        let found = self.find_event_by_uid(uid);
        match found {
            None => {
                proof {
                    lemma_events_without_absent(self.events@, uid);
                }
            },
            Some(i) => {
                proof {
                    assert(forall|j: int|
                        0 <= j < self.events@.len() && j != i ==> self.events@[j].uid != uid);
                    lemma_events_without_present(self.events@, uid, i as int);
                }
                self.events.remove(i);
                proof {
                    assert(forall|k: int|
                        0 <= k < self.events@.len() ==> self.events@[k] == if k < i {
                            old(self).events@[k]
                        } else {
                            old(self).events@[k + 1]
                        });
                }
            },
        }
    }

    /// A copy of every event, newest (highest identifier) first.
    pub fn list_all_events(&self) -> (r: Vec<Event>)
        requires
            self.wf(),
        ensures
            r@ == self.events@.reverse(),
            forall|i: int, j: int| 0 <= i < j < r@.len() ==> r@[i].uid > r@[j].uid,
    {
        let mut out: Vec<Event> = Vec::new();
        let mut i: usize = self.events.len();
        while i > 0
            invariant
                0 <= i <= self.events@.len(),
                out@.len() == self.events@.len() - i,
                forall|k: int|
                    0 <= k < out@.len() ==> out@[k] == self.events@[self.events@.len() - 1 - k],
            decreases i,
        {
            out.push(copy_event(&self.events[i - 1]));
            i -= 1;
        }
        proof {
            assert(out@ =~= self.events@.reverse());
        }
        out
    }

    /// A copy of the events owned by `owner`, newest first.
    pub fn list_events_by_owner(&self, owner: u64) -> (r: Vec<Event>)
        requires
            self.wf(),
        ensures
            r@ == events_of_owner(self.events@, owner).reverse(),
            forall|i: int, j: int| 0 <= i < j < r@.len() ==> r@[i].uid > r@[j].uid,
            forall|i: int| 0 <= i < r@.len() ==> (#[trigger] r@[i]).owner == owner,
    {
        let mut asc: Vec<Event> = Vec::new();
        let mut i: usize = 0;
        proof {
            assert(self.events@.subrange(0, 0) =~= Seq::<Event>::empty());
        }
        while i < self.events.len()
            invariant
                0 <= i <= self.events@.len(),
                asc@ == events_of_owner(self.events@.subrange(0, i as int), owner),
                forall|k: int, l: int|
                    0 <= k < l < self.events@.len() ==> self.events@[k].uid < self.events@[l].uid,
            decreases self.events@.len() - i,
        {
            proof {
                assert(self.events@.subrange(0, i + 1).drop_last() =~= self.events@.subrange(
                    0,
                    i as int,
                ));
                assert(self.events@.subrange(0, i + 1).last() == self.events@[i as int]);
            }
            if self.events[i].owner == owner {
                asc.push(copy_event(&self.events[i]));
            }
            i += 1;
        }
        proof {
            assert(self.events@.subrange(0, self.events@.len() as int) =~= self.events@);
            lemma_events_of_owner_sub(self.events@, owner);
        }
        let r = reverse_events(asc);
        proof {
            assert(forall|k: int|
                0 <= k < r@.len() ==> r@[k] == events_of_owner(self.events@, owner).reverse()[k]);
        }
        r
    }
}

/// The events of one owner, in stored order.
pub open spec fn events_of_owner(evs: Seq<Event>, owner: u64) -> Seq<Event>
    decreases evs.len(),
{
    if evs.len() == 0 {
        Seq::empty()
    } else {
        let rest = events_of_owner(evs.drop_last(), owner);
        if evs.last().owner == owner {
            rest.push(evs.last())
        } else {
            rest
        }
    }
}

/// Every selected event is one of the originals, with its owner field as
/// asked, and the stored order is kept.
pub proof fn lemma_events_of_owner_sub(evs: Seq<Event>, owner: u64)
    ensures
        forall|i: int|
            0 <= i < events_of_owner(evs, owner).len() ==> (#[trigger] events_of_owner(
                evs,
                owner,
            )[i]).owner == owner,
        forall|i: int|
            0 <= i < events_of_owner(evs, owner).len() ==> exists|j: int|
                0 <= j < evs.len() && evs[j] == (#[trigger] events_of_owner(evs, owner)[i]),
        (forall|k: int, l: int| 0 <= k < l < evs.len() ==> evs[k].uid < evs[l].uid)
            ==> (forall|i: int, j: int|
            0 <= i < j < events_of_owner(evs, owner).len() ==> events_of_owner(evs, owner)[i].uid
                < events_of_owner(evs, owner)[j].uid),
    decreases evs.len(),
{
    if evs.len() == 0 {
    } else {
        lemma_events_of_owner_sub(evs.drop_last(), owner);
        assert(forall|j: int| 0 <= j < evs.len() - 1 ==> evs[j] == evs.drop_last()[j]);
        let rest = events_of_owner(evs.drop_last(), owner);
        if (forall|k: int, l: int| 0 <= k < l < evs.len() ==> evs[k].uid < evs[l].uid) {
            assert forall|i: int, j: int|
                0 <= i < j < events_of_owner(evs, owner).len() implies events_of_owner(
                evs,
                owner,
            )[i].uid < events_of_owner(evs, owner)[j].uid by {
                if j == events_of_owner(evs, owner).len() - 1 && evs.last().owner == owner {
                    let w = choose|w: int|
                        0 <= w < evs.drop_last().len() && evs.drop_last()[w] == rest[i];
                    assert(evs[w].uid < evs.last().uid);
                }
            }
        }
    }
}

/// The events that do not carry the identifier, in stored order.
pub open spec fn events_without(evs: Seq<Event>, uid: u64) -> Seq<Event>
    decreases evs.len(),
{
    if evs.len() == 0 {
        Seq::empty()
    } else {
        let rest = events_without(evs.drop_last(), uid);
        if evs.last().uid == uid {
            rest
        } else {
            rest.push(evs.last())
        }
    }
}

pub proof fn lemma_events_without_absent(evs: Seq<Event>, uid: u64)
    requires
        forall|k: int| 0 <= k < evs.len() ==> evs[k].uid != uid,
    ensures
        events_without(evs, uid) == evs,
    decreases evs.len(),
{
    if evs.len() == 0 {
        assert(events_without(evs, uid) =~= evs);
    } else {
        assert(forall|k: int| 0 <= k < evs.len() - 1 ==> evs.drop_last()[k] == evs[k]);
        lemma_events_without_absent(evs.drop_last(), uid);
        assert(events_without(evs, uid) =~= evs);
    }
}

pub proof fn lemma_events_without_present(evs: Seq<Event>, uid: u64, i: int)
    requires
        0 <= i < evs.len(),
        evs[i].uid == uid,
        forall|j: int| 0 <= j < evs.len() && j != i ==> evs[j].uid != uid,
    ensures
        events_without(evs, uid) == evs.remove(i),
    decreases evs.len(),
{
    assert(forall|k: int| 0 <= k < evs.len() - 1 ==> evs.drop_last()[k] == evs[k]);
    if i == evs.len() - 1 {
        lemma_events_without_absent(evs.drop_last(), uid);
        assert(events_without(evs, uid) =~= evs.remove(i));
    } else {
        lemma_events_without_present(evs.drop_last(), uid, i);
        assert(events_without(evs, uid) =~= evs.remove(i));
    }
}

/// A field-for-field copy of an event.
pub fn copy_event(e: &Event) -> (r: Event)
    ensures
        r == *e,
{
    Event {
        uid: e.uid,
        title: e.title.clone(),
        description: e.description.clone(),
        date: e.date.clone(),
        location: e.location.clone(),
        image_url: e.image_url.clone(),
        map_position: e.map_position.clone(),
        owner: e.owner,
        created_at: e.created_at,
    }
}

/// Reverses a list of events.
pub fn reverse_events(v: Vec<Event>) -> (r: Vec<Event>)
    ensures
        r@ == v@.reverse(),
{
    let mut out: Vec<Event> = Vec::new();
    let mut i: usize = v.len();
    while i > 0
        invariant
            0 <= i <= v@.len(),
            out@.len() == v@.len() - i,
            forall|k: int| 0 <= k < out@.len() ==> out@[k] == v@[v@.len() - 1 - k],
        decreases i,
    {
        out.push(copy_event(&v[i - 1]));
        i -= 1;
    }
    proof {
        assert(out@ =~= v@.reverse());
    }
    out
}

} // verus!
