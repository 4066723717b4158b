//! The set of selected rows, under the policy of a selection mode.

use vstd::prelude::*;

verus! {

/// The stable identity of a row, by which the caller tells rows apart.
pub type RowIdentity = u64;

/// How many rows can be selected.
#[derive(Copy, Clone, Debug, PartialEq, Eq, Structural)]
pub enum SelectionMode {
    /// Nothing can be selected.
    Off,
    /// At most one row is selected.
    Single,
    /// Any number of rows is selected.
    Multiple,
}

/// A change of the selection that the mode forbids was asked for.
#[derive(Copy, Clone, Debug, PartialEq, Eq, Structural)]
pub struct InvalidSelectionMode {
    /// The mode under which the change was asked for.
    pub mode: SelectionMode,
}

/// A change of the selection.
#[derive(Debug)]
pub enum SelectionAction {
    /// Select the row.
    Select(RowIdentity),
    /// Deselect the row.
    Deselect(RowIdentity),
    /// Select the row if it is not selected, and deselect it if it is.
    Toggle(RowIdentity),
    /// Deselect every row.
    Clear,
    /// Select all the rows given.
    SelectAll(Vec<RowIdentity>),
}

/// Whether `selected` is a selection that `mode` allows: nothing under `Off`, at most
/// one row under `Single`, finitely many rows in any case.
pub open spec fn allowed(mode: SelectionMode, selected: Set<RowIdentity>) -> bool {
    &&& selected.finite()
    &&& mode is Off ==> selected.len() == 0
    &&& mode is Single ==> selected.len() <= 1
}

/// The selection after `id` was selected: under `Single` it replaces what was selected.
pub open spec fn after_select(
    mode: SelectionMode,
    selected: Set<RowIdentity>,
    id: RowIdentity,
) -> Set<RowIdentity> {
    match mode {
        SelectionMode::Off => selected,
        SelectionMode::Single => set![id],
        SelectionMode::Multiple => selected.insert(id),
    }
}

/// The selection after `id` was deselected.
pub open spec fn after_deselect(
    mode: SelectionMode,
    selected: Set<RowIdentity>,
    id: RowIdentity,
) -> Set<RowIdentity> {
    match mode {
        SelectionMode::Off => selected,
        _ => selected.remove(id),
    }
}

/// The selection after `id` was toggled.
pub open spec fn after_toggle(
    mode: SelectionMode,
    selected: Set<RowIdentity>,
    id: RowIdentity,
) -> Set<RowIdentity> {
    if selected.contains(id) {
        after_deselect(mode, selected, id)
    } else {
        after_select(mode, selected, id)
    }
}

/// The selection after everything was deselected.
pub open spec fn after_clear(mode: SelectionMode, selected: Set<RowIdentity>) -> Set<
    RowIdentity,
> {
    match mode {
        SelectionMode::Off => selected,
        _ => Set::empty(),
    }
}

/// The selection after all of `ids` were selected, which only `Multiple` allows.
pub open spec fn after_select_all(
    mode: SelectionMode,
    selected: Set<RowIdentity>,
    ids: Seq<RowIdentity>,
) -> Set<RowIdentity> {
    match mode {
        SelectionMode::Multiple => selected.union(ids.to_set()),
        _ => selected,
    }
}

/// The selection after the rows that are no longer `present` were dropped.
pub open spec fn after_retain(selected: Set<RowIdentity>, present: Seq<RowIdentity>) -> Set<
    RowIdentity,
> {
    selected.intersect(present.to_set())
}

/// The selection after `action`.  An action that the mode forbids changes nothing.
pub open spec fn after_action(
    mode: SelectionMode,
    selected: Set<RowIdentity>,
    action: SelectionAction,
) -> Set<RowIdentity> {
    match action {
        SelectionAction::Select(id) => after_select(mode, selected, id),
        SelectionAction::Deselect(id) => after_deselect(mode, selected, id),
        SelectionAction::Toggle(id) => after_toggle(mode, selected, id),
        SelectionAction::Clear => after_clear(mode, selected),
        SelectionAction::SelectAll(ids) => after_select_all(mode, selected, ids@),
    }
}

/// The selected rows in order after `id` was selected: a row that is newly selected
/// comes last.
pub open spec fn order_after_select(
    mode: SelectionMode,
    order: Seq<RowIdentity>,
    id: RowIdentity,
) -> Seq<RowIdentity> {
    match mode {
        SelectionMode::Off => order,
        SelectionMode::Single => seq![id],
        SelectionMode::Multiple => if order.contains(id) {
            order
        } else {
            order.push(id)
        },
    }
}

/// The selected rows in order after `id` was deselected: the others keep their order.
pub open spec fn order_after_deselect(order: Seq<RowIdentity>, id: RowIdentity) -> Seq<
    RowIdentity,
> {
    if order.contains(id) {
        order.remove(order.index_of(id))
    } else {
        order
    }
}

/// The selected rows in order after `id` was toggled.
pub open spec fn order_after_toggle(
    mode: SelectionMode,
    order: Seq<RowIdentity>,
    id: RowIdentity,
) -> Seq<RowIdentity> {
    if order.contains(id) {
        order_after_deselect(order, id)
    } else {
        order_after_select(mode, order, id)
    }
}

/// The selected rows in order after all of `ids` were selected, one after the other.
pub open spec fn order_after_select_all(
    mode: SelectionMode,
    order: Seq<RowIdentity>,
    ids: Seq<RowIdentity>,
) -> Seq<RowIdentity>
    decreases ids.len(),
{
    if !(mode is Multiple) || ids.len() == 0 {
        order
    } else {
        order_after_select(
            mode,
            order_after_select_all(mode, order, ids.drop_last()),
            ids.last(),
        )
    }
}

/// The test whether a row is among `present`.
pub open spec fn among(present: Seq<RowIdentity>) -> spec_fn(RowIdentity) -> bool {
    |id: RowIdentity| present.contains(id)
}

/// The selected rows in order after the rows that are no longer `present` were dropped:
/// the others keep their order.
pub open spec fn order_after_retain(order: Seq<RowIdentity>, present: Seq<RowIdentity>) -> Seq<
    RowIdentity,
> {
    order.filter(among(present))
}

/// The selected rows in order after `action`.
pub open spec fn order_after_action(
    mode: SelectionMode,
    order: Seq<RowIdentity>,
    action: SelectionAction,
) -> Seq<RowIdentity> {
    match action {
        SelectionAction::Select(id) => order_after_select(mode, order, id),
        SelectionAction::Deselect(id) => order_after_deselect(order, id),
        SelectionAction::Toggle(id) => order_after_toggle(mode, order, id),
        SelectionAction::Clear => Seq::empty(),
        SelectionAction::SelectAll(ids) => order_after_select_all(mode, order, ids@),
    }
}

/// Whether the mode forbids `action`.
pub open spec fn forbidden(mode: SelectionMode, action: SelectionAction) -> bool {
    action is SelectAll && !(mode is Multiple)
}

/// The selection after the `actions`, one after the other.
pub open spec fn after_actions(
    mode: SelectionMode,
    selected: Set<RowIdentity>,
    actions: Seq<SelectionAction>,
) -> Set<RowIdentity>
    decreases actions.len(),
{
    if actions.len() == 0 {
        selected
    } else {
        after_action(mode, after_actions(mode, selected, actions.drop_last()), actions.last())
    }
}

/// One action leads from an allowed selection to an allowed selection.
pub proof fn lemma_action_keeps_allowed(
    mode: SelectionMode,
    selected: Set<RowIdentity>,
    action: SelectionAction,
)
    requires
        allowed(mode, selected),
    ensures
        allowed(mode, after_action(mode, selected, action)),
{
    broadcast use vstd::set_lib::group_set_lib_default;
    broadcast use vstd::seq_lib::seq_to_set_is_finite;

    match action {
        SelectionAction::Deselect(id) | SelectionAction::Toggle(id) => {
            vstd::set_lib::lemma_len_subset(selected.remove(id), selected);
        },
        _ => {},
    }
}

/// Dropping the rows that are no longer present leads from an allowed selection to an
/// allowed selection.
pub proof fn lemma_retain_keeps_allowed(
    mode: SelectionMode,
    selected: Set<RowIdentity>,
    present: Seq<RowIdentity>,
)
    requires
        allowed(mode, selected),
    ensures
        allowed(mode, after_retain(selected, present)),
{
    vstd::set_lib::lemma_len_subset(after_retain(selected, present), selected);
}

/// Whatever is done to a selection, in whatever order, it stays one that the mode allows
/// after every step.  Under `Single`, no sequence of selecting and toggling ever leaves
/// more than one row selected.
pub proof fn lemma_mode_holds_after_every_action(
    mode: SelectionMode,
    selected: Set<RowIdentity>,
    actions: Seq<SelectionAction>,
)
    requires
        allowed(mode, selected),
    ensures
        forall|n: int|
            0 <= n <= actions.len() ==> allowed(
                mode,
                #[trigger] after_actions(mode, selected, actions.take(n)),
            ),
        mode is Single ==> forall|n: int|
            0 <= n <= actions.len() ==> (#[trigger] after_actions(
                mode,
                selected,
                actions.take(n),
            )).len() <= 1,
{
    assert forall|n: int| 0 <= n <= actions.len() implies allowed(
        mode,
        #[trigger] after_actions(mode, selected, actions.take(n)),
    ) by {
        lemma_actions_keep_allowed(mode, selected, actions.take(n));
    }
}

/// A sequence of actions leads from an allowed selection to an allowed selection.
pub proof fn lemma_actions_keep_allowed(
    mode: SelectionMode,
    selected: Set<RowIdentity>,
    actions: Seq<SelectionAction>,
)
    requires
        allowed(mode, selected),
    ensures
        allowed(mode, after_actions(mode, selected, actions)),
    decreases actions.len(),
{
    if actions.len() > 0 {
        lemma_actions_keep_allowed(mode, selected, actions.drop_last());
        lemma_action_keeps_allowed(
            mode,
            after_actions(mode, selected, actions.drop_last()),
            actions.last(),
        );
    }
}

/// The members of a sequence with one more element.
pub proof fn lemma_members_after_push(s: Seq<RowIdentity>, id: RowIdentity)
    ensures
        s.push(id).to_set() == s.to_set().insert(id),
        s.no_duplicates() && !s.contains(id) ==> s.push(id).no_duplicates(),
{
    let t = s.push(id);
    assert forall|a: RowIdentity| t.to_set().contains(a) == s.to_set().insert(id).contains(a) by {
        if s.contains(a) {
            let i = choose|i: int| 0 <= i < s.len() && s[i] == a;
            assert(t[i] == a);
        }
        if a == id {
            assert(t[s.len() as int] == id);
        }
    }
}

/// The members of a sequence without one of its elements, where nothing occurs twice.
pub proof fn lemma_members_after_remove(s: Seq<RowIdentity>, at: int)
    requires
        s.no_duplicates(),
        0 <= at < s.len(),
    ensures
        s.remove(at).to_set() == s.to_set().remove(s[at]),
        s.remove(at).no_duplicates(),
{
    let t = s.remove(at);
    assert forall|a: RowIdentity| t.to_set().contains(a) == s.to_set().remove(s[at]).contains(
        a,
    ) by {
        if s.contains(a) && a != s[at] {
            let j = choose|j: int| 0 <= j < s.len() && s[j] == a;
            let i = if j < at { j } else { j - 1 };
            assert(t[i] == a);
        }
    }
}

/// The first place of `id` in `ids`, if it occurs there.
pub fn position_in(ids: &Vec<RowIdentity>, id: RowIdentity) -> (place: Option<usize>)
    ensures
        place.is_some() == ids@.contains(id),
        place matches Some(i) ==> i < ids@.len() && ids@[i as int] == id && forall|k: int|
            0 <= k < i ==> ids@[k] != id,
{
    let mut i: usize = 0;
    while i < ids.len()
        invariant
            i <= ids.len(),
            forall|k: int| 0 <= k < i ==> ids@[k] != id,
        decreases ids.len() - i,
    {
        if ids[i] == id {
            return Some(i);
        }
        i = i + 1;
    }
    None
}

/// The selected rows under a mode.  Under `Single` at most one row is selected; under
/// `Off` none is, and every attempt to change that does nothing.
#[derive(Debug)]
pub struct SelectionState {
    mode: SelectionMode,
    selected: Vec<RowIdentity>,
}

impl View for SelectionState {
    type V = Set<RowIdentity>;

    closed spec fn view(&self) -> Set<RowIdentity> {
        self.selected@.to_set()
    }
}

impl SelectionState {
    /// The mode of the selection.
    pub closed spec fn mode_of(&self) -> SelectionMode {
        self.mode
    }

    /// The selected rows in the order in which they were selected.
    pub closed spec fn order(&self) -> Seq<RowIdentity> {
        self.selected@
    }

    /// No row is held twice, and the selection is one that the mode allows.
    pub closed spec fn wf(&self) -> bool {
        &&& self.selected@.no_duplicates()
        &&& self.mode is Off ==> self.selected@.len() == 0
        &&& self.mode is Single ==> self.selected@.len() <= 1
    }

    /// A well-formed state holds a selection that its mode allows, with as many members
    /// as it holds rows.
    pub proof fn lemma_wf_is_allowed(&self)
        requires
            self.wf(),
        ensures
            allowed(self.mode_of(), self@),
            self@ == self.order().to_set(),
            self.order().no_duplicates(),
            self@.len() == self.order().len(),
    {
        broadcast use vstd::seq_lib::seq_to_set_is_finite;

        self.selected@.unique_seq_to_set();
    }

    /// An empty selection under `mode`.
    pub fn new(mode: SelectionMode) -> (s: SelectionState)
        ensures
            s.wf(),
            s.mode_of() == mode,
            s@ == Set::<RowIdentity>::empty(),
            s.order() == Seq::<RowIdentity>::empty(),
    {
        SelectionState { mode, selected: Vec::new() }
    }

    /// The mode of the selection.
    pub fn mode(&self) -> (m: SelectionMode)
        ensures
            m == self.mode_of(),
    {
        self.mode
    }

    /// The number of selected rows.
    pub fn count(&self) -> (n: usize)
        requires
            self.wf(),
        ensures
            n == self@.len(),
    {
        proof {
            self.lemma_wf_is_allowed();
        }
        self.selected.len()
    }

    /// Whether the row is selected.
    pub fn is_selected(&self, id: RowIdentity) -> (yes: bool)
        ensures
            yes == self@.contains(id),
    {
        position_in(&self.selected, id).is_some()
    }

    /// The selected rows, in the order in which they were selected.
    pub fn selected(&self) -> (ids: &Vec<RowIdentity>)
        requires
            self.wf(),
        ensures
            ids@ == self.order(),
            ids@.to_set() == self@,
            ids@.no_duplicates(),
    {
        &self.selected
    }

    /// Selects the row.  Under `Single` it replaces what was selected; under `Off`
    /// nothing happens.  Returns whether the selection changed.
    pub fn select(&mut self, id: RowIdentity) -> (changed: bool)
        requires
            old(self).wf(),
        ensures
            final(self).wf(),
            final(self).mode_of() == old(self).mode_of(),
            final(self)@ == after_select(old(self).mode_of(), old(self)@, id),
            final(self).order() == order_after_select(old(self).mode_of(), old(self).order(), id),
            changed == (final(self)@ != old(self)@),
    {
        let place = position_in(&self.selected, id);
        match self.mode {
            SelectionMode::Off => false,
            SelectionMode::Single => {
                if place.is_some() {
                    assert(self.selected@ =~= seq![id]);
                    false
                } else {
                    self.selected.clear();
                    self.selected.push(id);
                    assert(self.selected@[0] == id);
                    assert(self@ =~= set![id]) by {
                        assert forall|a: RowIdentity| self@.contains(a) == set![id].contains(a) by {
                            if self.selected@.contains(a) {
                                let i = choose|i: int|
                                    0 <= i < self.selected@.len() && self.selected@[i] == a;
                            }
                        }
                    }
                    assert(self@.contains(id) && !old(self)@.contains(id));
                    true
                }
            },
            SelectionMode::Multiple => {
                proof {
                    lemma_members_after_push(self.selected@, id);
                }
                if place.is_some() {
                    false
                } else {
                    self.selected.push(id);
                    assert(self@.contains(id) && !old(self)@.contains(id));
                    true
                }
            },
        }
    }

    /// Deselects the row.  Returns whether the selection changed.
    pub fn deselect(&mut self, id: RowIdentity) -> (changed: bool)
        requires
            old(self).wf(),
        ensures
            final(self).wf(),
            final(self).mode_of() == old(self).mode_of(),
            final(self)@ == after_deselect(old(self).mode_of(), old(self)@, id),
            final(self).order() == order_after_deselect(old(self).order(), id),
            changed == (final(self)@ != old(self)@),
    {
        match position_in(&self.selected, id) {
            Some(at) => {
                proof {
                    lemma_members_after_remove(self.selected@, at as int);
                    assert(self.selected@.index_of(id) == at);
                }
                self.selected.remove(at);
                assert(!self@.contains(id) && old(self)@.contains(id));
                true
            },
            None => false,
        }
    }

    /// Selects the row if it is not selected, and deselects it if it is.  Returns
    /// whether the selection changed.
    pub fn toggle(&mut self, id: RowIdentity) -> (changed: bool)
        requires
            old(self).wf(),
        ensures
            final(self).wf(),
            final(self).mode_of() == old(self).mode_of(),
            final(self)@ == after_toggle(old(self).mode_of(), old(self)@, id),
            final(self).order() == order_after_toggle(old(self).mode_of(), old(self).order(), id),
            changed == (final(self)@ != old(self)@),
    {
        if self.is_selected(id) {
            self.deselect(id)
        } else {
            self.select(id)
        }
    }

    /// Deselects every row.  Returns whether the selection changed.
    pub fn clear(&mut self) -> (changed: bool)
        requires
            old(self).wf(),
        ensures
            final(self).wf(),
            final(self).mode_of() == old(self).mode_of(),
            final(self)@ == after_clear(old(self).mode_of(), old(self)@),
            final(self).order() == Seq::<RowIdentity>::empty(),
            changed == (final(self)@ != old(self)@),
    {
        let changed = self.selected.len() > 0;
        proof {
            if changed {
                assert(old(self)@.contains(self.selected@[0]));
            } else {
                assert(self@ =~= Set::empty());
            }
        }
        self.selected.clear();
        changed
    }

    /// Selects all of `ids`, which only `Multiple` allows: under another mode nothing
    /// changes and the error names the mode.  Returns whether the selection changed.
    pub fn select_all(&mut self, ids: &Vec<RowIdentity>) -> (done: Result<
        bool,
        InvalidSelectionMode,
    >)
        requires
            old(self).wf(),
        ensures
            final(self).wf(),
            final(self).mode_of() == old(self).mode_of(),
            final(self)@ == after_select_all(old(self).mode_of(), old(self)@, ids@),
            final(self).order() == order_after_select_all(
                old(self).mode_of(),
                old(self).order(),
                ids@,
            ),
            old(self).mode_of() is Multiple ==> done == Ok::<bool, InvalidSelectionMode>(
                final(self)@ != old(self)@,
            ),
            !(old(self).mode_of() is Multiple) ==> done == Err::<bool, InvalidSelectionMode>(
                InvalidSelectionMode { mode: old(self).mode_of() },
            ) && final(self)@ == old(self)@,
    {
        match self.mode {
            SelectionMode::Multiple => {},
            mode => {
                return Err(InvalidSelectionMode { mode });
            },
        }
        let mut changed = false;
        let mut k: usize = 0;
        while k < ids.len()
            invariant
                k <= ids.len(),
                self.mode is Multiple,
                self.selected@.no_duplicates(),
                self@ == old(self)@.union(ids@.take(k as int).to_set()),
                self.selected@ == order_after_select_all(
                    SelectionMode::Multiple,
                    old(self).selected@,
                    ids@.take(k as int),
                ),
                changed == (self@ != old(self)@),
            decreases ids.len() - k,
        {
            let id = ids[k];
            let ghost before = self@;
            proof {
                lemma_members_after_push(self.selected@, id);
                lemma_members_after_push(ids@.take(k as int), id);
                assert(ids@.take(k + 1) =~= ids@.take(k as int).push(id));
                assert(ids@.take(k + 1).drop_last() =~= ids@.take(k as int));
            }
            if position_in(&self.selected, id).is_none() {
                assert(!before.contains(id));
                self.selected.push(id);
                changed = true;
            }
            k = k + 1;
        }
        assert(ids@.take(ids@.len() as int) =~= ids@);
        Ok(changed)
    }

    /// Applies `action`.  Selecting all under a mode other than `Multiple` is an error
    /// and changes nothing.  Returns whether the selection changed.
    pub fn apply(&mut self, action: &SelectionAction) -> (done: Result<bool, InvalidSelectionMode>)
        requires
            old(self).wf(),
        ensures
            final(self).wf(),
            final(self).mode_of() == old(self).mode_of(),
            final(self)@ == after_action(old(self).mode_of(), old(self)@, *action),
            final(self).order() == order_after_action(
                old(self).mode_of(),
                old(self).order(),
                *action,
            ),
            !forbidden(old(self).mode_of(), *action) ==> done == Ok::<bool, InvalidSelectionMode>(
                final(self)@ != old(self)@,
            ),
            forbidden(old(self).mode_of(), *action) ==> done == Err::<bool, InvalidSelectionMode>(
                InvalidSelectionMode { mode: old(self).mode_of() },
            ) && final(self)@ == old(self)@,
    {
        match action {
            SelectionAction::Select(id) => Ok(self.select(*id)),
            SelectionAction::Deselect(id) => Ok(self.deselect(*id)),
            SelectionAction::Toggle(id) => Ok(self.toggle(*id)),
            SelectionAction::Clear => Ok(self.clear()),
            SelectionAction::SelectAll(ids) => self.select_all(ids),
        }
    }

    /// Drops the selected rows that are not among `present`: the rows that the logical
    /// sequence still holds.  Returns whether the selection changed, once for the whole
    /// step.
    pub fn retain_present(&mut self, present: &Vec<RowIdentity>) -> (changed: bool)
        requires
            old(self).wf(),
        ensures
            final(self).wf(),
            final(self).mode_of() == old(self).mode_of(),
            final(self)@ == after_retain(old(self)@, present@),
            final(self).order() == order_after_retain(old(self).order(), present@),
            changed == (final(self)@ != old(self)@),
    {
        let mut kept: Vec<RowIdentity> = Vec::new();
        let mut k: usize = 0;
        let ghost held = self.selected@;
        proof {
            reveal(Seq::filter);
        }
        while k < self.selected.len()
            invariant
                k <= self.selected.len(),
                self.selected@ == held,
                held.no_duplicates(),
                kept@.no_duplicates(),
                kept@.len() <= k,
                kept@.to_set() == held.take(k as int).to_set().intersect(present@.to_set()),
                kept@ == held.take(k as int).filter(among(present@)),
            decreases self.selected.len() - k,
        {
            let id = self.selected[k];
            let ghost seen = held.take(k as int);
            proof {
                lemma_members_after_push(seen, id);
                lemma_members_after_push(kept@, id);
                assert(held.take(k + 1) =~= seen.push(id));
                assert(held.take(k + 1).drop_last() =~= seen);
                reveal(Seq::filter);
                assert(!seen.contains(id));
                assert(!kept@.to_set().contains(id));
            }
            if position_in(present, id).is_some() {
                kept.push(id);
            }
            k = k + 1;
        }
        assert(held.take(held.len() as int) =~= held);
        let changed = kept.len() != self.selected.len();
        proof {
            broadcast use vstd::seq_lib::seq_to_set_is_finite;

            held.unique_seq_to_set();
            kept@.unique_seq_to_set();
            if kept@.len() == held.len() {
                vstd::set_lib::lemma_subset_equality(kept@.to_set(), held.to_set());
            }
        }
        self.selected = kept;
        changed
    }
}

} // verus!
