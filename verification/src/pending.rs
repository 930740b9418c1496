//! Requests that are under way, by name: only the answer to the newest one counts.
use crate::text::{list_has, same, texts};
use vstd::prelude::*;

verus! {

/// The number of the request after request `id`; never 0.
pub open spec fn following_request(id: u64) -> u64 {
    if id == u64::MAX {
        1
    } else {
        (id + 1) as u64
    }
}

/// The number of the `n`th request after request `id`.
pub open spec fn later_request(id: u64, n: nat) -> u64
    decreases n,
{
    if n == 0 {
        id
    } else {
        following_request(later_request(id, (n - 1) as nat))
    }
}

/// The request under way for a name.
pub open spec fn request_for(entries: Seq<(String, u64)>, name: Seq<char>) -> Option<u64>
    decreases entries.len(),
{
    if entries.len() == 0 {
        None
    } else if entries.last().0@ == name {
        Some(entries.last().1)
    } else {
        request_for(entries.drop_last(), name)
    }
}

pub struct PendingRequests {
    pub entries: Vec<(String, u64)>,
    pub last_id: u64,
}

impl PendingRequests {
    /// The request under way for a name.
    pub open spec fn request(&self, name: Seq<char>) -> Option<u64> {
        request_for(self.entries@, name)
    }

    pub fn new() -> (r: Self)
        ensures
            r.last_id == 0,
            forall|name: Seq<char>| #[trigger] r.request(name) is None,
    {
        PendingRequests { entries: Vec::new(), last_id: 0 }
    }

    pub fn get(&self, name: &str) -> (r: Option<u64>)
        ensures
            r == self.request(name@),
    {
        let mut i: usize = self.entries.len();
        assert(self.entries@.take(i as int) =~= self.entries@);
        while i > 0
            invariant
                i <= self.entries@.len(),
                self.request(name@) == request_for(self.entries@.take(i as int), name@),
            decreases i,
        {
            assert(self.entries@.take(i as int).drop_last() =~= self.entries@.take(i as int - 1));
            if same(&self.entries[i - 1].0, name) {
                return Some(self.entries[i - 1].1);
            }
            i = i - 1;
        }
        None
    }

    /// Starts a request for a name; its number is returned.
    pub fn start(&mut self, name: &str) -> (r: u64)
        ensures
            r == following_request(old(self).last_id),
            final(self).last_id == r,
            forall|n: Seq<char>|
                #[trigger] final(self).request(n) == (if n == name@ {
                    Some(r)
                } else {
                    old(self).request(n)
                }),
    {
        let id: u64 = if self.last_id == u64::MAX {
            1
        } else {
            self.last_id + 1
        };
        self.last_id = id;
        let ghost before = self.entries@;
        self.entries.push((name.to_owned(), id));
        assert(self.entries@.drop_last() =~= before);
        id
    }

    /// Forgets the request for a name.
    pub fn remove(&mut self, name: &str)
        ensures
            final(self).last_id == old(self).last_id,
            forall|n: Seq<char>|
                #[trigger] final(self).request(n) == (if n == name@ {
                    None
                } else {
                    old(self).request(n)
                }),
    {
        let ghost all = self.entries@;
        let mut kept: Vec<(String, u64)> = Vec::new();
        let mut i: usize = 0;
        assert(all.take(0) =~= Seq::<(String, u64)>::empty());
        while i < self.entries.len()
            invariant
                self.entries@ == all,
                self.last_id == old(self).last_id,
                i <= all.len(),
                forall|n: Seq<char>| #[trigger]
                    request_for(kept@, n) == (if n == name@ {
                        None
                    } else {
                        request_for(all.take(i as int), n)
                    }),
            decreases all.len() - i,
        {
            let ghost before = kept@;
            assert(all.take(i as int + 1).drop_last() =~= all.take(i as int));
            if !same(&self.entries[i].0, name) {
                kept.push((self.entries[i].0.clone(), self.entries[i].1));
                assert(kept@.drop_last() =~= before);
            }
            assert forall|n: Seq<char>| #[trigger] request_for(kept@, n) == (if n == name@ {
                None
            } else {
                request_for(all.take(i as int + 1), n)
            }) by {
                assert(request_for(before, n) == (if n == name@ {
                    None
                } else {
                    request_for(all.take(i as int), n)
                }));
            }
            i = i + 1;
        }
        assert(all.take(all.len() as int) =~= all);
        self.entries = kept;
    }

    /// Forgets the requests for names that are not in the list.
    pub fn retain_listed(&mut self, list: &Vec<String>)
        ensures
            final(self).last_id == old(self).last_id,
            forall|n: Seq<char>|
                #[trigger] final(self).request(n) == (if texts(list@).contains(n) {
                    old(self).request(n)
                } else {
                    None
                }),
    {
        let ghost all = self.entries@;
        let mut kept: Vec<(String, u64)> = Vec::new();
        let mut i: usize = 0;
        assert(all.take(0) =~= Seq::<(String, u64)>::empty());
        while i < self.entries.len()
            invariant
                self.entries@ == all,
                self.last_id == old(self).last_id,
                i <= all.len(),
                forall|n: Seq<char>| #[trigger]
                    request_for(kept@, n) == (if texts(list@).contains(n) {
                        request_for(all.take(i as int), n)
                    } else {
                        None
                    }),
            decreases all.len() - i,
        {
            let ghost before = kept@;
            assert(all.take(i as int + 1).drop_last() =~= all.take(i as int));
            if list_has(list, &self.entries[i].0) {
                kept.push((self.entries[i].0.clone(), self.entries[i].1));
                assert(kept@.drop_last() =~= before);
            }
            assert forall|n: Seq<char>| #[trigger] request_for(kept@, n) == (if texts(
                list@,
            ).contains(n) {
                request_for(all.take(i as int + 1), n)
            } else {
                None
            }) by {
                assert(request_for(before, n) == (if texts(list@).contains(n) {
                    request_for(all.take(i as int), n)
                } else {
                    None
                }));
            }
            i = i + 1;
        }
        assert(all.take(all.len() as int) =~= all);
        self.entries = kept;
    }

    /// Takes the answer to request `id` for a name; says whether it counts.
    pub fn finish(&mut self, name: &str, id: u64) -> (r: bool)
        ensures
            final(self).last_id == old(self).last_id,
            r == (old(self).request(name@) == Some(id)),
            forall|n: Seq<char>|
                #[trigger] final(self).request(n) == (if r && n == name@ {
                    None
                } else {
                    old(self).request(n)
                }),
    {
        let counts = match self.get(name) {
            Some(current) => current == id,
            None => false,
        };
        if counts {
            self.remove(name);
        }
        counts
    }
}

/// The answer to a request counts only once, and not after a newer request for the name.
pub proof fn stale_answers_do_not_count(
    before: PendingRequests,
    after: PendingRequests,
    name: Seq<char>,
    id: u64,
)
    requires
        before.last_id < u64::MAX,
        id <= before.last_id,
        after.request(name) == Some(following_request(before.last_id)),
    ensures
        after.request(name) != Some(id),
{
}

/// The answer to the newest request for a name counts, once; the answer to an earlier one does not.
pub proof fn newest_request_counts(
    first: &mut PendingRequests,
    second: &mut PendingRequests,
    late: &mut PendingRequests,
    current: &mut PendingRequests,
    again: &mut PendingRequests,
    name: &str,
    a: u64,
    b: u64,
    late_counts: bool,
    counts: bool,
    repeated: bool,
)
    requires
        call_ensures(PendingRequests::start, (first, name), a),
        *old(second) == *final(first),
        call_ensures(PendingRequests::start, (second, name), b),
        *old(late) == *final(second),
        call_ensures(PendingRequests::finish, (late, name, a), late_counts),
        *old(current) == *final(late),
        call_ensures(PendingRequests::finish, (current, name, b), counts),
        *old(again) == *final(current),
        call_ensures(PendingRequests::finish, (again, name, b), repeated),
    ensures
        a != b && a != 0 && b != 0,
        !late_counts,
        counts,
        !repeated,
{
    assert(final(first).request(name@) == Some(a));
    assert(final(second).request(name@) == Some(b));
    assert(final(late).request(name@) == Some(b));
    assert(final(current).request(name@) is None);
}

/// A request leaves those for other names alone, and so do its answer and its removal.
pub proof fn requests_do_not_disturb_others(
    started: &mut PendingRequests,
    finished: &mut PendingRequests,
    removed: &mut PendingRequests,
    name: &str,
    id: u64,
    other: &str,
    before: Option<u64>,
    a: u64,
    counts: bool,
    after_start: Option<u64>,
    after_finish: Option<u64>,
    after_remove: Option<u64>,
)
    requires
        name@ != other@,
        call_ensures(PendingRequests::get, (old(started), other), before),
        call_ensures(PendingRequests::start, (started, name), a),
        *old(finished) == *final(started),
        call_ensures(PendingRequests::finish, (finished, name, id), counts),
        *old(removed) == *final(finished),
        call_ensures(PendingRequests::remove, (removed, name), ()),
        call_ensures(PendingRequests::get, (final(started), other), after_start),
        call_ensures(PendingRequests::get, (final(finished), other), after_finish),
        call_ensures(PendingRequests::get, (final(removed), other), after_remove),
    ensures
        before == after_start && before == after_finish && before == after_remove,
        final(removed).request(name@) is None,
{
    assert(final(started).request(other@) == old(started).request(other@));
    assert(final(finished).request(other@) == old(finished).request(other@));
    assert(final(removed).request(other@) == old(removed).request(other@));
    assert(final(removed).request(name@) is None);
}

/// Of the requests only those for names in the list are kept, as they are.
pub proof fn only_listed_requests_are_kept(
    state: &mut PendingRequests,
    list: Vec<String>,
    name: Seq<char>,
)
    requires
        call_ensures(PendingRequests::retain_listed, (state, &list), ()),
    ensures
        texts(list@).contains(name) ==> final(state).request(name) == old(state).request(name),
        !texts(list@).contains(name) ==> final(state).request(name) is None,
        final(state).last_id == old(state).last_id,
{
    assert(final(state).request(name) == final(state).request(name));
}

} // verus!
