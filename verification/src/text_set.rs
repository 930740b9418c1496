//! Sets of texts, kept in order.
use crate::text::{
    copy_list, list_has, not_after, same, same_list, text_le, text_le_antisymmetric, text_le_total,
    text_le_transitive, texts,
};
use vstd::prelude::*;

verus! {

/// A set of texts, listed in ascending order.
#[derive(Clone, Debug, PartialEq, Eq)]
pub struct TextSet {
    pub items: Vec<String>,
}

/// Whether each text of the list comes after those before it.
pub open spec fn ascending(list: Seq<Seq<char>>) -> bool {
    forall|i: int, j: int|
        #![trigger list[i], list[j]]
        0 <= i < j < list.len() ==> list[i] != list[j] && text_le(list[i], list[j])
}

impl View for TextSet {
    type V = Set<Seq<char>>;

    open spec fn view(&self) -> Set<Seq<char>> {
        texts(self.items@).to_set()
    }
}

impl Default for TextSet {
    fn default() -> (r: Self)
        ensures
            r.wf(),
            r@ == Set::<Seq<char>>::empty(),
    {
        TextSet::new()
    }
}

impl TextSet {
    pub open spec fn wf(&self) -> bool {
        ascending(texts(self.items@))
    }

    pub fn new() -> (r: Self)
        ensures
            r.wf(),
            r@ == Set::<Seq<char>>::empty(),
    {
        let r = TextSet { items: Vec::new() };
        assert(r@ =~= Set::<Seq<char>>::empty());
        r
    }

    pub fn contains(&self, item: &str) -> (r: bool)
        ensures
            r == self@.contains(item@),
    {
        list_has(&self.items, item)
    }

    pub fn is_empty(&self) -> (r: bool)
        ensures
            r == (self@ == Set::<Seq<char>>::empty()),
    {
        let r = self.items.is_empty();
        proof {
            if r {
                assert(self@ =~= Set::<Seq<char>>::empty());
            } else {
                assert(texts(self.items@).contains(texts(self.items@)[0]));
                assert(self@.contains(texts(self.items@)[0]));
            }
        }
        r
    }

    pub fn copy(&self) -> (r: Self)
        requires
            self.wf(),
        ensures
            r.wf(),
            r@ == self@,
            r.items@ == self.items@,
    {
        TextSet { items: copy_list(&self.items) }
    }

    /// Adds a text; the answer says whether it is new.
    pub fn insert(&mut self, item: String) -> (r: bool)
        requires
            old(self).wf(),
        ensures
            final(self).wf(),
            final(self)@ == old(self)@.insert(item@),
            r == !old(self)@.contains(item@),
    {
        let ghost list = texts(self.items@);
        let ghost x = item@;
        let mut at: usize = 0;
        while at < self.items.len() && not_after(&self.items[at], &item) && !same(
            &self.items[at],
            &item,
        )
            invariant
                self.items@ == old(self).items@,
                list == texts(self.items@),
                x == item@,
                at <= list.len(),
                forall|i: int| 0 <= i < at ==> text_le(#[trigger] list[i], x) && list[i] != x,
            decreases list.len() - at,
        {
            assert(list[at as int] == self.items@[at as int]@);
            at = at + 1;
        }
        if at < self.items.len() && same(&self.items[at], &item) {
            proof {
                assert(list[at as int] == x);
                assert(list.contains(x));
                assert(old(self)@.insert(x) =~= old(self)@);
            }
            return false;
        }
        proof {
            assert forall|j: int| at <= j < list.len() implies text_le(x, #[trigger] list[j])
                && list[j] != x by {
                assert(list[at as int] == self.items@[at as int]@);
                text_le_total(x, list[at as int]);
                if j > at {
                    text_le_transitive(x, list[at as int], list[j]);
                }
            }
            assert(!list.contains(x));
            let grown = list.insert(at as int, x);
            assert(ascending(grown)) by {
                assert forall|i: int, j: int|
                    #![trigger grown[i], grown[j]]
                    0 <= i < j < grown.len() implies grown[i] != grown[j] && text_le(
                    grown[i],
                    grown[j],
                ) by {
                    let a = if i < at {
                        list[i]
                    } else if i == at {
                        x
                    } else {
                        list[i - 1]
                    };
                    let b = if j < at {
                        list[j]
                    } else if j == at {
                        x
                    } else {
                        list[j - 1]
                    };
                    assert(grown[i] == a && grown[j] == b);
                }
            }
            assert(texts(self.items@.insert(at as int, item)) =~= grown);
            assert(grown.to_set() =~= list.to_set().insert(x)) by {
                assert forall|t: Seq<char>| grown.contains(t) == (t == x || list.contains(t)) by {
                    if list.contains(t) {
                        let i = choose|i: int| 0 <= i < list.len() && list[i] == t;
                        assert(grown[if i < at {
                            i
                        } else {
                            i + 1
                        }] == t);
                    }
                    assert(grown[at as int] == x);
                    if grown.contains(t) && t != x {
                        let i = choose|i: int| 0 <= i < grown.len() && grown[i] == t;
                        assert(list[if i < at {
                            i
                        } else {
                            i - 1
                        }] == t);
                    }
                }
            }
        }
        self.items.insert(at, item);
        true
    }

    /// Takes a text out; the answer says whether it was there.
    pub fn remove(&mut self, item: &str) -> (r: bool)
        requires
            old(self).wf(),
        ensures
            final(self).wf(),
            final(self)@ == old(self)@.remove(item@),
            r == old(self)@.contains(item@),
    {
        let ghost list = texts(self.items@);
        let ghost x = item@;
        let mut at: usize = 0;
        while at < self.items.len()
            invariant
                self.items@ == old(self).items@,
                list == texts(self.items@),
                x == item@,
                old(self).wf(),
                at <= list.len(),
                forall|i: int| 0 <= i < at ==> #[trigger] list[i] != x,
            decreases list.len() - at,
        {
            if same(&self.items[at], item) {
                self.items.remove(at);
                proof {
                    let rest = texts(self.items@);
                    assert(rest =~= list.remove(at as int));
                    assert(list[at as int] == x);
                    assert(ascending(rest)) by {
                        assert forall|i: int, j: int|
                            #![trigger rest[i], rest[j]]
                            0 <= i < j < rest.len() implies rest[i] != rest[j] && text_le(
                            rest[i],
                            rest[j],
                        ) by {
                            let a = if i < at {
                                i
                            } else {
                                i + 1
                            };
                            let b = if j < at {
                                j
                            } else {
                                j + 1
                            };
                            assert(list[a] == rest[i] && list[b] == rest[j]);
                        }
                    }
                    assert(rest.to_set() =~= list.to_set().remove(x)) by {
                        assert forall|t: Seq<char>|
                            rest.contains(t) == (t != x && list.contains(t)) by {
                            if rest.contains(t) {
                                let i = choose|i: int| 0 <= i < rest.len() && rest[i] == t;
                                let a = if i < at {
                                    i
                                } else {
                                    i + 1
                                };
                                assert(list[a] == t);
                                assert(list[at as int] == x);
                            }
                            if t != x && list.contains(t) {
                                let i = choose|i: int| 0 <= i < list.len() && list[i] == t;
                                assert(rest[if i < at {
                                    i
                                } else {
                                    i - 1
                                }] == t);
                            }
                        }
                    }
                    assert(list.contains(x));
                }
                return true;
            }
            assert(list[at as int] == self.items@[at as int]@);
            at = at + 1;
        }
        assert(old(self)@.remove(x) =~= old(self)@);
        false
    }

    /// Whether two sets hold the same texts.
    pub fn same_as(&self, other: &Self) -> (r: bool)
        requires
            self.wf(),
            other.wf(),
        ensures
            r == (self@ == other@),
    {
        proof {
            if self@ == other@ {
                equal_sets_are_listed_alike(texts(self.items@), texts(other.items@));
            }
        }
        same_list(&self.items, &other.items)
    }
}

/// A set has one ascending list.
pub proof fn equal_sets_are_listed_alike(a: Seq<Seq<char>>, b: Seq<Seq<char>>)
    requires
        ascending(a),
        ascending(b),
        a.to_set() == b.to_set(),
    ensures
        a == b,
    decreases a.len(),
{
    assert(forall|t: Seq<char>| a.contains(t) == a.to_set().contains(t));
    assert(forall|t: Seq<char>| b.contains(t) == b.to_set().contains(t));
    if a.len() == 0 {
        if b.len() > 0 {
            assert(b.contains(b[0]));
        }
        assert(a =~= b);
    } else {
        assert(a.contains(a.last()));
        assert(b.contains(a.last()));
        let i = choose|i: int| 0 <= i < b.len() && b[i] == a.last();
        assert(b.contains(b.last()));
        assert(a.contains(b.last()));
        let j = choose|j: int| 0 <= j < a.len() && a[j] == b.last();
        if i < b.len() - 1 {
            assert(b[i] != b[b.len() - 1] && text_le(b[i], b[b.len() - 1]));
            if j < a.len() - 1 {
                assert(text_le(a[j], a[a.len() - 1]));
                text_le_antisymmetric(a.last(), b.last());
            }
        }
        assert(a.last() == b.last());
        let x = a.last();
        assert forall|t: Seq<char>| a.drop_last().contains(t) == (t != x && a.contains(t)) by {
            drop_last_members(a, t);
        }
        assert forall|t: Seq<char>| b.drop_last().contains(t) == (t != x && b.contains(t)) by {
            drop_last_members(b, t);
        }
        assert forall|t: Seq<char>| #[trigger]
            a.drop_last().to_set().contains(t) == b.drop_last().to_set().contains(t) by {
            drop_last_members(a, t);
            drop_last_members(b, t);
            assert(a.contains(t) == a.to_set().contains(t));
            assert(b.contains(t) == b.to_set().contains(t));
        }
        assert(a.drop_last().to_set() =~= b.drop_last().to_set());
        assert(ascending(a.drop_last())) by {
            assert forall|i: int, j: int|
                #![trigger a.drop_last()[i], a.drop_last()[j]]
                0 <= i < j < a.drop_last().len() implies a.drop_last()[i] != a.drop_last()[j]
                && text_le(a.drop_last()[i], a.drop_last()[j]) by {
                assert(a[i] != a[j] && text_le(a[i], a[j]));
            }
        }
        assert(ascending(b.drop_last())) by {
            assert forall|i: int, j: int|
                #![trigger b.drop_last()[i], b.drop_last()[j]]
                0 <= i < j < b.drop_last().len() implies b.drop_last()[i] != b.drop_last()[j]
                && text_le(b.drop_last()[i], b.drop_last()[j]) by {
                assert(b[i] != b[j] && text_le(b[i], b[j]));
            }
        }
        equal_sets_are_listed_alike(a.drop_last(), b.drop_last());
        assert(a =~= a.drop_last().push(x));
        assert(b =~= b.drop_last().push(x));
    }
}

proof fn drop_last_members(list: Seq<Seq<char>>, t: Seq<char>)
    requires
        ascending(list),
        list.len() > 0,
    ensures
        list.drop_last().contains(t) == (t != list.last() && list.contains(t)),
{
    if list.drop_last().contains(t) {
        let i = choose|i: int| 0 <= i < list.drop_last().len() && list.drop_last()[i] == t;
        assert(list[i] == t);
        assert(list[i] != list[list.len() - 1]);
    }
    if t != list.last() && list.contains(t) {
        let i = choose|i: int| 0 <= i < list.len() && list[i] == t;
        assert(list.drop_last()[i] == t);
    }
}

/// A text is in a set once it was put in and until it is taken out, and other texts are not touched.
pub proof fn sets_hold_what_was_put_in(
    set: &mut TextSet,
    item: String,
    new: bool,
    inside: bool,
    taken: &mut TextSet,
    text: &str,
    was_there: bool,
    outside: bool,
    other: Seq<char>,
)
    requires
        text@ == item@,
        other != item@,
        call_ensures(TextSet::insert, (set, item), new),
        call_ensures(TextSet::contains, (final(set), text), inside),
        *old(taken) == *final(set),
        call_ensures(TextSet::remove, (taken, text), was_there),
        call_ensures(TextSet::contains, (final(taken), text), outside),
    ensures
        new == !old(set)@.contains(item@),
        inside && was_there && !outside,
        final(set)@.contains(other) == old(set)@.contains(other),
        final(taken)@.contains(other) == old(set)@.contains(other),
{
}

/// Two sets are the same where they hold the same texts, and an empty set holds none.
pub proof fn same_sets_hold_the_same(
    a: &TextSet,
    b: &TextSet,
    same: bool,
    empty: bool,
    text: Seq<char>,
)
    requires
        call_ensures(TextSet::same_as, (a, b), same),
        call_ensures(TextSet::is_empty, (a,), empty),
    ensures
        same ==> a@.contains(text) == b@.contains(text),
        (forall|t: Seq<char>| #[trigger] a@.contains(t) == b@.contains(t)) ==> same,
        empty ==> !a@.contains(text),
        (forall|t: Seq<char>| !#[trigger] a@.contains(t)) ==> empty,
{
    if forall|t: Seq<char>| #[trigger] a@.contains(t) == b@.contains(t) {
        assert(a@ =~= b@);
    }
    if forall|t: Seq<char>| !#[trigger] a@.contains(t) {
        assert(a@ =~= Set::<Seq<char>>::empty());
    }
}

} // verus!
