//! Which optional parts of the bar are shown, and who is told when that changes.
use vstd::prelude::*;

verus! {

/// The name of the settings group that holds the choices.
pub const SETTINGS_GROUP: &'static str = "bar";

/// The name of the setting for the player.
pub const PLAYER_KEY: &'static str = "player_visible";

/// The name of the setting for the workspaces.
pub const WORKSPACE_KEY: &'static str = "workspace_visible";

/// The name of the settings file.
pub const SETTINGS_FILE: &'static str = "bar-features.ini";

#[derive(Clone, Copy, Debug, PartialEq, Eq, Structural)]
pub struct BarFeatureState {
    pub player_visible: bool,
    pub workspace_visible: bool,
}

impl Default for BarFeatureState {
    fn default() -> (r: Self)
        ensures
            r == (BarFeatureState { player_visible: true, workspace_visible: true }),
    {
        BarFeatureState { player_visible: true, workspace_visible: true }
    }
}

/// The state that the settings hold; a choice that they do not hold is to show.
pub open spec fn loaded(player_visible: Option<bool>, workspace_visible: Option<bool>) -> BarFeatureState {
    BarFeatureState {
        player_visible: player_visible != Some(false),
        workspace_visible: workspace_visible != Some(false),
    }
}

/// The names and values of a list of settings.
pub open spec fn setting_models(settings: Seq<(&'static str, bool)>) -> Seq<(Seq<char>, bool)> {
    settings.map_values(|setting: (&'static str, bool)| (setting.0@, setting.1))
}

/// The value of the last setting of the name.
pub open spec fn setting_value(settings: Seq<(Seq<char>, bool)>, name: Seq<char>) -> Option<bool>
    decreases settings.len(),
{
    if settings.len() == 0 {
        None
    } else if settings.last().0 == name {
        Some(settings.last().1)
    } else {
        setting_value(settings.drop_last(), name)
    }
}

impl BarFeatureState {
    /// The state that the settings hold.
    pub fn load(player_visible: Option<bool>, workspace_visible: Option<bool>) -> (r: Self)
        ensures
            r == loaded(player_visible, workspace_visible),
    {
        let defaults = BarFeatureState::default();
        BarFeatureState {
            player_visible: player_visible.unwrap_or(defaults.player_visible),
            workspace_visible: workspace_visible.unwrap_or(defaults.workspace_visible),
        }
    }

    /// The settings that hold the state.
    pub open spec fn stored(self) -> Seq<(Seq<char>, bool)> {
        seq![(PLAYER_KEY@, self.player_visible), (WORKSPACE_KEY@, self.workspace_visible)]
    }

    /// The settings to store, by name.
    pub fn settings(self) -> (r: Vec<(&'static str, bool)>)
        ensures
            setting_models(r@) == self.stored(),
    {
        let mut out: Vec<(&'static str, bool)> = Vec::new();
        out.push((PLAYER_KEY, self.player_visible));
        out.push((WORKSPACE_KEY, self.workspace_visible));
        assert(setting_models(out@) =~= self.stored());
        out
    }
}

/// A state that was stored is read back as it was; settings that cannot be read show everything.
pub proof fn stored_states_are_read_back(state: BarFeatureState)
    ensures
        loaded(
            setting_value(state.stored(), PLAYER_KEY@),
            setting_value(state.stored(), WORKSPACE_KEY@),
        ) == state,
        loaded(None, None) == (BarFeatureState { player_visible: true, workspace_visible: true }),
{
    reveal_strlit("player_visible");
    reveal_strlit("workspace_visible");
    let list = state.stored();
    let first = list.drop_last();
    assert(PLAYER_KEY@.len() != WORKSPACE_KEY@.len());
    assert(list.last() == (WORKSPACE_KEY@, state.workspace_visible));
    assert(first.last() == (PLAYER_KEY@, state.player_visible));
    assert(setting_value(first, PLAYER_KEY@) == Some(state.player_visible));
}

/// The items whose answer was yes, in order.
pub open spec fn kept<T>(items: Seq<T>, answers: Seq<bool>) -> Seq<T>
    decreases items.len(),
{
    if items.len() == 0 || answers.len() == 0 {
        Seq::empty()
    } else {
        let before = kept(items.drop_last(), answers.drop_last());
        if answers.last() {
            before.push(items.last())
        } else {
            before
        }
    }
}

/// Whether `after` is what is left of `before` once each subscriber was told `state`, answered as
/// in `answers`, and those that answered no were dropped.
pub open spec fn told_with<F: Fn(BarFeatureState) -> bool>(
    before: Seq<F>,
    state: BarFeatureState,
    after: Seq<F>,
    answers: Seq<bool>,
) -> bool {
    &&& answers.len() == before.len()
    &&& forall|i: int|
        0 <= i < before.len() ==> (#[trigger] before[i]).ensures((state,), answers[i])
    &&& after == kept(before, answers)
}

/// Whether `after` is what is left of `before` once each subscriber was told `state` and those
/// that answered no were dropped.
pub open spec fn told<F: Fn(BarFeatureState) -> bool>(
    before: Seq<F>,
    state: BarFeatureState,
    after: Seq<F>,
) -> bool {
    exists|answers: Seq<bool>| #[trigger] told_with(before, state, after, answers)
}

/// Keeps the state of the bar's features, saves changes and tells subscribers of them.
pub struct BarFeatureController<F: Fn(BarFeatureState) -> bool> {
    pub state: BarFeatureState,
    pub subscribers: Vec<F>,
}

/// Whether a controller may go from `before` to `after`, answering `r`, when `next` is asked for.
pub open spec fn updated<F: Fn(BarFeatureState) -> bool, S: FnOnce(BarFeatureState) -> bool>(
    before: BarFeatureController<F>,
    next: BarFeatureState,
    save: S,
    after: BarFeatureController<F>,
    r: bool,
) -> bool {
    if next == before.state {
        r && after == before
    } else {
        ||| {
            &&& save.ensures((next,), false)
            &&& !r
            &&& after == before
        }
        ||| {
            &&& save.ensures((next,), true)
            &&& r
            &&& after.state == next
            &&& told(before.subscribers@, next, after.subscribers@)
        }
    }
}

impl<F: Fn(BarFeatureState) -> bool> BarFeatureController<F> {
    /// Whether every subscriber can be told every state.
    pub open spec fn callable(&self) -> bool {
        forall|i: int, state: BarFeatureState|
            0 <= i < self.subscribers@.len() ==> #[trigger] self.subscribers@[i].requires((state,))
    }

    pub fn new(state: BarFeatureState) -> (r: Self)
        ensures
            r.state == state,
            r.subscribers@ == Seq::<F>::empty(),
            r.callable(),
    {
        BarFeatureController { state, subscribers: Vec::new() }
    }

    pub fn state(&self) -> (r: BarFeatureState)
        ensures
            r == self.state,
    {
        self.state
    }

    /// Shows or hides the player. `save` stores the new state and says whether that worked.
    pub fn set_player_visible<S: FnOnce(BarFeatureState) -> bool>(
        &mut self,
        visible: bool,
        save: S,
    ) -> (r: bool)
        requires
            old(self).callable(),
            forall|state: BarFeatureState| save.requires((state,)),
        ensures
            final(self).callable(),
            updated(
                *old(self),
                (BarFeatureState {
                    player_visible: visible,
                    workspace_visible: old(self).state.workspace_visible,
                }),
                save,
                *final(self),
                r,
            ),
    {
        let next = BarFeatureState {
            player_visible: visible,
            workspace_visible: self.state.workspace_visible,
        };
        self.update(next, save)
    }

    /// Shows or hides the workspaces. `save` stores the new state and says whether that worked.
    pub fn set_workspace_visible<S: FnOnce(BarFeatureState) -> bool>(
        &mut self,
        visible: bool,
        save: S,
    ) -> (r: bool)
        requires
            old(self).callable(),
            forall|state: BarFeatureState| save.requires((state,)),
        ensures
            final(self).callable(),
            updated(
                *old(self),
                (BarFeatureState {
                    player_visible: old(self).state.player_visible,
                    workspace_visible: visible,
                }),
                save,
                *final(self),
                r,
            ),
    {
        let next = BarFeatureState {
            player_visible: self.state.player_visible,
            workspace_visible: visible,
        };
        self.update(next, save)
    }

    /// Tells `callback` the state and keeps it for later changes where it answers yes.
    pub fn subscribe(&mut self, callback: F)
        requires
            old(self).callable(),
            forall|state: BarFeatureState| callback.requires((state,)),
        ensures
            final(self).callable(),
            final(self).state == old(self).state,
            ({
                ||| callback.ensures((old(self).state,), true) && final(self).subscribers@ == old(
                    self,
                ).subscribers@.push(callback)
                ||| callback.ensures((old(self).state,), false) && final(self).subscribers@ == old(
                    self,
                ).subscribers@
            }),
    {
        if callback(self.state) {
            self.subscribers.push(callback);
        }
    }

    fn update<S: FnOnce(BarFeatureState) -> bool>(&mut self, next: BarFeatureState, save: S) -> (r:
        bool)
        requires
            old(self).callable(),
            forall|state: BarFeatureState| save.requires((state,)),
        ensures
            final(self).callable(),
            updated(*old(self), next, save, *final(self), r),
    {
        if next == self.state {
            return true;
        }
        if !save(next) {
            return false;
        }
        self.state = next;
        let ghost all = self.subscribers@;
        let ghost mut answers: Seq<bool> = Seq::empty();
        let ghost mut done: int = 0;
        let mut rest: Vec<F> = Vec::new();
        rest.append(&mut self.subscribers);
        assert(rest@ =~= all);
        assert(all.take(0) =~= Seq::<F>::empty());
        while rest.len() > 0
            invariant
                0 <= done <= all.len(),
                rest@ =~= all.skip(done),
                answers.len() == done,
                self.state == next,
                forall|i: int, state: BarFeatureState|
                    0 <= i < all.len() ==> #[trigger] all[i].requires((state,)),
                forall|i: int|
                    0 <= i < done ==> (#[trigger] all[i]).ensures((next,), answers[i]),
                self.subscribers@ == kept(all.take(done), answers),
                self.callable(),
            decreases rest@.len(),
        {
            let subscriber = rest.remove(0);
            assert(subscriber == all[done]);
            let keep = subscriber(next);
            proof {
                let grown = answers.push(keep);
                assert(all.take(done + 1).drop_last() =~= all.take(done));
                assert(grown.drop_last() =~= answers);
                assert(all.take(done + 1).last() == subscriber);
                answers = grown;
                done = done + 1;
            }
            if keep {
                self.subscribers.push(subscriber);
            }
        }
        assert(all.take(all.len() as int) =~= all);
        assert(told_with(all, next, self.subscribers@, answers));
        true
    }
}

/// A subscriber that answered yes stays, in its place among the others that did.
pub proof fn kept_holds_exactly_the_yes<T>(items: Seq<T>, answers: Seq<bool>)
    requires
        items.len() == answers.len(),
    ensures
        forall|i: int|
            0 <= i < items.len() && answers[i] ==> kept(items, answers).contains(
                #[trigger] items[i],
            ),
        kept(items, answers).len() <= items.len(),
        (forall|i: int| 0 <= i < answers.len() ==> answers[i]) ==> kept(items, answers) == items,
    decreases items.len(),
{
    if items.len() > 0 {
        let before = kept(items.drop_last(), answers.drop_last());
        kept_holds_exactly_the_yes(items.drop_last(), answers.drop_last());
        assert forall|i: int| 0 <= i < items.len() && answers[i] implies kept(
            items,
            answers,
        ).contains(#[trigger] items[i]) by {
            if i < items.len() - 1 {
                assert(before.contains(items.drop_last()[i]));
                let j = choose|j: int| 0 <= j < before.len() && before[j] == items[i];
                assert(kept(items, answers)[j] == items[i]);
            } else {
                assert(kept(items, answers).last() == items[i]);
            }
        }
        if forall|i: int| 0 <= i < answers.len() ==> answers[i] {
            assert forall|i: int| 0 <= i < answers.drop_last().len() implies answers.drop_last()[i] by {
                assert(answers[i]);
            }
            assert(kept(items, answers) =~= items);
        }
    } else {
        assert(kept(items, answers) =~= items);
    }
}

/// The state is always the one that was saved last: where it is what the settings hold before a
/// change is asked for, it is so after it, whether or not anything was saved.
pub proof fn state_is_what_was_saved<
    F: Fn(BarFeatureState) -> bool,
    S: FnOnce(BarFeatureState) -> bool,
>(
    held: Seq<(Seq<char>, bool)>,
    before: BarFeatureController<F>,
    next: BarFeatureState,
    save: S,
    after: BarFeatureController<F>,
    r: bool,
)
    requires
        before.state == loaded(
            setting_value(held, PLAYER_KEY@),
            setting_value(held, WORKSPACE_KEY@),
        ),
        updated(before, next, save, after, r),
    ensures
        ({
            let saves = r && next != before.state;
            let holds = if saves {
                next.stored()
            } else {
                held
            };
            &&& saves ==> save.ensures((after.state,), true)
            &&& after.state == loaded(
                setting_value(holds, PLAYER_KEY@),
                setting_value(holds, WORKSPACE_KEY@),
            )
        }),
{
    stored_states_are_read_back(next);
}

/// How many of the first `n` answers are yes.
pub open spec fn yes_count(answers: Seq<bool>, n: int) -> int
    decreases n,
{
    if n <= 0 {
        0
    } else {
        yes_count(answers, n - 1) + (if answers[n - 1] {
            1int
        } else {
            0int
        })
    }
}

/// Where subscriber `i` stands after changes that were answered as in `answers`; nowhere once it
/// has answered no.
pub open spec fn place_of(i: int, answers: Seq<Seq<bool>>) -> Option<int>
    decreases answers.len(),
{
    if answers.len() == 0 {
        Some(i)
    } else {
        match place_of(i, answers.drop_last()) {
            Some(p) => if answers.last()[p] {
                Some(yes_count(answers.last(), p))
            } else {
                None
            },
            None => None,
        }
    }
}

/// Whether the changes of a row of controllers were told, and answered as in `answers`.
pub open spec fn changes_told<F: Fn(BarFeatureState) -> bool>(
    row: Seq<BarFeatureController<F>>,
    answers: Seq<Seq<bool>>,
) -> bool {
    &&& row.len() == answers.len() + 1
    &&& forall|k: int|
        0 <= k < answers.len() ==> told_with(
            row[k].subscribers@,
            row[k + 1].state,
            row[k + 1].subscribers@,
            #[trigger] answers[k],
        )
}

/// Whether place `q` is that of one of the first `n` subscribers.
pub open spec fn is_placed(n: int, answers: Seq<Seq<bool>>, q: int) -> bool {
    exists|i: int| 0 <= i < n && #[trigger] place_of(i, answers) == Some(q)
}

proof fn yes_counts_grow(answers: Seq<bool>, p: int, q: int)
    requires
        0 <= p <= q <= answers.len(),
    ensures
        0 <= yes_count(answers, p) <= yes_count(answers, q),
        p < q && answers[p] ==> yes_count(answers, p) < yes_count(answers, q),
    decreases q,
{
    if p < q {
        yes_counts_grow(answers, p, q - 1);
    } else if p > 0 {
        yes_counts_grow(answers, p - 1, p - 1);
    }
}

/// Whether the yes at place `p` is the one that comes to place `q`.
spec fn moves_to(answers: Seq<bool>, p: int, q: int) -> bool {
    0 <= p < answers.len() && answers[p] && yes_count(answers, p) == q
}

spec fn is_reached(answers: Seq<bool>, q: int) -> bool {
    exists|p: int| #[trigger] moves_to(answers, p, q)
}

proof fn kept_places<T>(items: Seq<T>, answers: Seq<bool>)
    requires
        items.len() == answers.len(),
    ensures
        kept(items, answers).len() == yes_count(answers, answers.len() as int),
        forall|p: int|
            0 <= p < items.len() && #[trigger] answers[p] ==> 0 <= yes_count(answers, p) < kept(
                items,
                answers,
            ).len() && kept(items, answers)[yes_count(answers, p)] == items[p],
        forall|q: int| 0 <= q < kept(items, answers).len() ==> #[trigger] is_reached(answers, q),
    decreases items.len(),
{
    if items.len() > 0 {
        let n = items.len() - 1;
        let (front, said) = (items.drop_last(), answers.drop_last());
        let (before, all) = (kept(front, said), kept(items, answers));
        kept_places(front, said);
        assert forall|p: int| 0 <= p <= n implies #[trigger] yes_count(answers, p) == yes_count(
            said,
            p,
        ) by {
            counts_agree(said, answers, p);
        }
        assert forall|p: int| 0 <= p < items.len() && #[trigger] answers[p] implies 0 <= yes_count(
            answers,
            p,
        ) < all.len() && all[yes_count(answers, p)] == items[p] by {
            if p < n {
                assert(said[p]);
                assert(yes_count(answers, p) == yes_count(said, p));
            } else {
                assert(yes_count(answers, n) == yes_count(said, n));
            }
        }
        assert forall|q: int| 0 <= q < all.len() implies #[trigger] is_reached(answers, q) by {
            if q < before.len() {
                assert(is_reached(said, q));
                let p = choose|p: int| #[trigger] moves_to(said, p, q);
                assert(yes_count(answers, p) == yes_count(said, p));
                assert(moves_to(answers, p, q));
            } else {
                assert(yes_count(answers, n) == yes_count(said, n));
                assert(moves_to(answers, n, q));
            }
        }
    }
}

proof fn counts_agree(a: Seq<bool>, b: Seq<bool>, n: int)
    requires
        n <= a.len(),
        n <= b.len(),
        forall|i: int| 0 <= i < n ==> a[i] == b[i],
    ensures
        yes_count(a, n) == yes_count(b, n),
    decreases n,
{
    if n > 0 {
        counts_agree(a, b, n - 1);
    }
}

/// A subscriber hears each change, with the new state, as long as it has answered yes to all
/// before, and none after its first no: after any row of changes those told are exactly the
/// subscribers that have a place, each in its own.
pub proof fn subscribers_hear_until_they_say_no<F: Fn(BarFeatureState) -> bool>(
    row: Seq<BarFeatureController<F>>,
    answers: Seq<Seq<bool>>,
)
    requires
        changes_told(row, answers),
    ensures
        forall|i: int|
            0 <= i < row[0].subscribers@.len() ==> match #[trigger] place_of(i, answers) {
                Some(p) => 0 <= p < row.last().subscribers@.len() && row.last().subscribers@[p]
                    == row[0].subscribers@[i],
                None => true,
            },
        forall|i: int, j: int|
            #![trigger place_of(i, answers), place_of(j, answers)]
            0 <= i < j < row[0].subscribers@.len() && place_of(i, answers) is Some && place_of(
                j,
                answers,
            ) is Some ==> place_of(i, answers)->0 < place_of(j, answers)->0,
        forall|q: int|
            0 <= q < row.last().subscribers@.len() ==> #[trigger] is_placed(
                row[0].subscribers@.len() as int,
                answers,
                q,
            ),
        answers.len() > 0 ==> forall|i: int|
            0 <= i < row[0].subscribers@.len() ==> match #[trigger] place_of(
                i,
                answers.drop_last(),
            ) {
                Some(p) => 0 <= p < answers.last().len() && row[0].subscribers@[i].ensures(
                    (row.last().state,),
                    answers.last()[p],
                ) && (place_of(i, answers) is Some == answers.last()[p]),
                None => place_of(i, answers) is None,
            },
    decreases answers.len(),
{
    let all = row[0].subscribers@;
    let n = all.len() as int;
    if answers.len() == 0 {
        assert forall|q: int| 0 <= q < row.last().subscribers@.len() implies #[trigger] is_placed(
            n,
            answers,
            q,
        ) by {
            assert(place_of(q, answers) == Some(q));
        }
    } else {
        let last = answers.len() - 1;
        let (earlier, past) = (row.drop_last(), answers.drop_last());
        let said = answers[last];
        let (before, after) = (row[last].subscribers@, row[last + 1].subscribers@);
        assert(told_with(before, row[last + 1].state, after, said));
        assert(changes_told(earlier, past)) by {
            assert forall|k: int| 0 <= k < past.len() implies told_with(
                earlier[k].subscribers@,
                earlier[k + 1].state,
                earlier[k + 1].subscribers@,
                #[trigger] past[k],
            ) by {
                assert(past[k] == answers[k]);
            }
        }
        subscribers_hear_until_they_say_no(earlier, past);
        assert(earlier[0] == row[0] && earlier.last() == row[last]);
        kept_places(before, said);
        assert forall|i: int| 0 <= i < n implies match #[trigger] place_of(i, past) {
            Some(p) => 0 <= p < said.len() && all[i].ensures((row.last().state,), said[p]) && (
            place_of(i, answers) is Some == said[p]),
            None => place_of(i, answers) is None,
        } by {
            if let Some(p) = place_of(i, past) {
                assert(before[p] == all[i]);
            }
        }
        assert forall|i: int| 0 <= i < n implies match #[trigger] place_of(i, answers) {
            Some(p) => 0 <= p < after.len() && after[p] == all[i],
            None => true,
        } by {
            if let Some(p) = place_of(i, past) {
                assert(before[p] == all[i]);
            }
        }
        assert forall|i: int, j: int|
            #![trigger place_of(i, answers), place_of(j, answers)]
            0 <= i < j < n && place_of(i, answers) is Some && place_of(
                j,
                answers,
            ) is Some implies place_of(i, answers)->0 < place_of(j, answers)->0 by {
            let (p, q) = (place_of(i, past)->0, place_of(j, past)->0);
            assert(p < q);
            yes_counts_grow(said, p, q);
        }
        assert forall|q: int| 0 <= q < after.len() implies #[trigger] is_placed(n, answers, q) by {
            assert(is_reached(said, q));
            let p = choose|p: int| #[trigger] moves_to(said, p, q);
            assert(is_placed(n, past, p));
            let i = choose|i: int| 0 <= i < n && #[trigger] place_of(i, past) == Some(p);
            assert(place_of(i, answers) == Some(q));
        }
    }
}

/// What is not shown is what the settings say not to show, and a state is stored under the names
/// from which it is read.
pub proof fn settings_say_what_is_shown(
    player: Option<bool>,
    workspace: Option<bool>,
    state: BarFeatureState,
    stored: Vec<(&'static str, bool)>,
)
    requires
        call_ensures(BarFeatureState::load, (player, workspace), state),
        call_ensures(BarFeatureState::settings, (state,), stored),
    ensures
        state.player_visible == (player is None || player->0),
        state.workspace_visible == (workspace is None || workspace->0),
        stored@.len() == 2,
        stored@[0].0@ == "player_visible"@ && stored@[0].1 == state.player_visible,
        stored@[1].0@ == "workspace_visible"@ && stored@[1].1 == state.workspace_visible,
{
    let m = setting_models(stored@);
    assert(m.len() == stored@.len());
    assert(m[0] == (stored@[0].0@, stored@[0].1));
    assert(m[1] == (stored@[1].0@, stored@[1].1));
}

/// Showing or hiding one part leaves the other as it is, happens exactly where it could be saved,
/// and changes nothing else where it could not.
pub proof fn parts_are_shown_one_by_one<
    F: Fn(BarFeatureState) -> bool,
    S: FnOnce(BarFeatureState) -> bool,
>(
    player: &mut BarFeatureController<F>,
    workspace: &mut BarFeatureController<F>,
    visible: bool,
    save: S,
    a: bool,
    b: bool,
)
    requires
        call_ensures(BarFeatureController::<F>::set_player_visible::<S>, (player, visible, save), a),
        call_ensures(
            BarFeatureController::<F>::set_workspace_visible::<S>,
            (workspace, visible, save),
            b,
        ),
    ensures
        final(player).state.workspace_visible == old(player).state.workspace_visible,
        a ==> final(player).state.player_visible == visible,
        !a ==> *final(player) == *old(player),
        final(workspace).state.player_visible == old(workspace).state.player_visible,
        b ==> final(workspace).state.workspace_visible == visible,
        !b ==> *final(workspace) == *old(workspace),
        old(player).state.player_visible == visible ==> a,
        a && old(player).state.player_visible != visible ==> save.ensures(
            (final(player).state,),
            true,
        ),
{
}

} // verus!
