//! The reduce operation: a slice's context effects are grouped by label,
//! each group is folded into one net effect, and the net effects are applied
//! to the entries of a snapshot, yielding a new snapshot. The operation is
//! pure: the inputs are never changed.

use vstd::prelude::*;

use crate::algebra::{compose_fits, spec_apply, spec_compose};
use crate::ast::{
    AddEffect, ContextEffect, ContextLabel, Effect, SnapshotValue, SnapshotValueItem,
    SnapshotValueItemValue, Slice, SpecContextEffect, SpecEffect, SpecEntry, SpecSnapshotItem,
};
use crate::error::{CrgError, SpecCrgError};

verus! {

// ---------------------------------------------------------------------------
// The ghost model of snapshots under reduce
// ---------------------------------------------------------------------------

/// The first snapshot entry carrying the given label.
pub open spec fn spec_find_snapshot(snap: Seq<SpecSnapshotItem>, label: Seq<char>) -> Option<
    SpecSnapshotItem,
>
    decreases snap.len(),
{
    if snap.len() == 0 {
        None
    } else if snap[0].label == label {
        Some(snap[0])
    } else {
        spec_find_snapshot(snap.subrange(1, snap.len() as int), label)
    }
}

/// What a snapshot holds for a label: the entry's value, or `Empty` where
/// the label is absent.
pub open spec fn spec_entry_of(snap: Seq<SpecSnapshotItem>, label: Seq<char>) -> SpecEntry {
    match spec_find_snapshot(snap, label) {
        Some(item) => item.value,
        None => SpecEntry::Empty,
    }
}

/// The snapshot after writing a value at a label: the first entry with that
/// label is overwritten in place, a label not yet present is appended.
pub open spec fn spec_snapshot_insert(
    snap: Seq<SpecSnapshotItem>,
    label: Seq<char>,
    value: SpecEntry,
) -> Seq<SpecSnapshotItem>
    decreases snap.len(),
{
    if snap.len() == 0 {
        seq![SpecSnapshotItem { label, value }]
    } else if snap[0].label == label {
        seq![SpecSnapshotItem { label: snap[0].label, value }] + snap.subrange(
            1,
            snap.len() as int,
        )
    } else {
        seq![snap[0]] + spec_snapshot_insert(snap.subrange(1, snap.len() as int), label, value)
    }
}

/// The position of the first net effect carrying the given label.
pub open spec fn spec_net_find(nets: Seq<SpecContextEffect>, label: Seq<char>) -> Option<int>
    decreases nets.len(),
{
    if nets.len() == 0 {
        None
    } else if nets[0].label == label {
        Some(0int)
    } else {
        match spec_net_find(nets.subrange(1, nets.len() as int), label) {
            Some(j) => Some(j + 1),
            None => None,
        }
    }
}

/// The net effect of a slice, one entry per label in order of each label's
/// first occurrence: every further effect on a label is composed onto the
/// running net effect of its group, left to right. A composition whose sum
/// leaves the machine integers is reported as an overflow.
pub open spec fn spec_net_effects(items: Seq<SpecContextEffect>) -> Result<
    Seq<SpecContextEffect>,
    SpecCrgError,
>
    decreases items.len(),
{
    if items.len() == 0 {
        Ok(Seq::empty())
    } else {
        match spec_net_effects(items.drop_last()) {
            Ok(pre) => {
                let ce = items.last();
                match spec_net_find(pre, ce.label) {
                    Some(j) => if compose_fits(pre[j].effect, ce.effect) {
                        Ok(
                            pre.update(
                                j,
                                SpecContextEffect {
                                    label: pre[j].label,
                                    effect: spec_compose(pre[j].effect, ce.effect),
                                },
                            ),
                        )
                    } else {
                        Err(SpecCrgError::IntegerOverflow)
                    },
                    None => Ok(pre.push(ce)),
                }
            },
            Err(e) => Err(e),
        }
    }
}

/// The snapshot after the net effects are applied one by one: each net
/// effect reads its label's prior value in the original snapshot (`Empty`
/// where absent), applies itself to it, and writes the result into the
/// accumulated snapshot.
pub open spec fn spec_apply_nets(
    nets: Seq<SpecContextEffect>,
    original: Seq<SpecSnapshotItem>,
    acc: Seq<SpecSnapshotItem>,
) -> Result<Seq<SpecSnapshotItem>, SpecCrgError>
    decreases nets.len(),
{
    if nets.len() == 0 {
        Ok(acc)
    } else {
        let prior = spec_entry_of(original, nets[0].label);
        match spec_apply(nets[0].effect, prior) {
            Ok(v) => spec_apply_nets(
                nets.subrange(1, nets.len() as int),
                original,
                spec_snapshot_insert(acc, nets[0].label, v),
            ),
            Err(e) => Err(e),
        }
    }
}

/// What reducing a slice onto a snapshot yields: labels absent from the
/// slice are carried through unchanged, each label present in the slice has
/// its group's net effect applied to its prior value in the original
/// snapshot.
pub open spec fn spec_slice_apply(
    items: Seq<SpecContextEffect>,
    snap: Seq<SpecSnapshotItem>,
) -> Result<Seq<SpecSnapshotItem>, SpecCrgError> {
    match spec_net_effects(items) {
        Ok(nets) => spec_apply_nets(nets, snap, snap),
        Err(e) => Err(e),
    }
}

// ---------------------------------------------------------------------------
// Characterizations
// ---------------------------------------------------------------------------

proof fn lemma_find_snapshot_skip(snap: Seq<SpecSnapshotItem>, label: Seq<char>, i: int)
    requires
        0 <= i <= snap.len(),
        forall|j: int| 0 <= j < i ==> snap[j].label != label,
    ensures
        spec_find_snapshot(snap, label) == spec_find_snapshot(
            snap.subrange(i, snap.len() as int),
            label,
        ),
    decreases i,
{
    assert(snap.subrange(0, snap.len() as int) =~= snap);
    if i > 0 {
        lemma_find_snapshot_skip(snap, label, i - 1);
        let rest = snap.subrange(i - 1, snap.len() as int);
        assert(rest[0] == snap[i - 1]);
        assert(rest.subrange(1, rest.len() as int) =~= snap.subrange(i, snap.len() as int));
    }
}

proof fn lemma_snapshot_insert_at(
    snap: Seq<SpecSnapshotItem>,
    label: Seq<char>,
    value: SpecEntry,
    i: int,
)
    requires
        0 <= i < snap.len(),
        snap[i].label == label,
        forall|j: int| 0 <= j < i ==> snap[j].label != label,
    ensures
        spec_snapshot_insert(snap, label, value) =~= snap.update(
            i,
            SpecSnapshotItem { label: snap[i].label, value },
        ),
    decreases i,
{
    let rest = snap.subrange(1, snap.len() as int);
    if i == 0 {
        assert(spec_snapshot_insert(snap, label, value) =~= snap.update(
            0,
            SpecSnapshotItem { label: snap[0].label, value },
        ));
    } else {
        assert(rest[i - 1] == snap[i]);
        lemma_snapshot_insert_at(rest, label, value, i - 1);
        assert(spec_snapshot_insert(snap, label, value) =~= seq![snap[0]] + rest.update(
            i - 1,
            SpecSnapshotItem { label: rest[i - 1].label, value },
        ));
        assert(seq![snap[0]] + rest.update(
            i - 1,
            SpecSnapshotItem { label: rest[i - 1].label, value },
        ) =~= snap.update(i, SpecSnapshotItem { label: snap[i].label, value }));
    }
}

proof fn lemma_snapshot_insert_absent(
    snap: Seq<SpecSnapshotItem>,
    label: Seq<char>,
    value: SpecEntry,
)
    requires
        forall|j: int| 0 <= j < snap.len() ==> snap[j].label != label,
    ensures
        spec_snapshot_insert(snap, label, value) =~= snap.push(SpecSnapshotItem { label, value }),
    decreases snap.len(),
{
    if snap.len() > 0 {
        let rest = snap.subrange(1, snap.len() as int);
        lemma_snapshot_insert_absent(rest, label, value);
        assert(spec_snapshot_insert(snap, label, value) =~= seq![snap[0]] + rest.push(
            SpecSnapshotItem { label, value },
        ));
        assert(seq![snap[0]] + rest.push(SpecSnapshotItem { label, value }) =~= snap.push(
            SpecSnapshotItem { label, value },
        ));
    }
}

proof fn lemma_net_find_skip(nets: Seq<SpecContextEffect>, label: Seq<char>, i: int)
    requires
        0 <= i <= nets.len(),
        forall|j: int| 0 <= j < i ==> nets[j].label != label,
    ensures
        spec_net_find(nets, label) == match spec_net_find(
            nets.subrange(i, nets.len() as int),
            label,
        ) {
            Some(j) => Some(j + i),
            None => None::<int>,
        },
    decreases i,
{
    assert(nets.subrange(0, nets.len() as int) =~= nets);
    if i > 0 {
        lemma_net_find_skip(nets, label, i - 1);
        let rest = nets.subrange(i - 1, nets.len() as int);
        assert(rest[0] == nets[i - 1]);
        assert(rest.subrange(1, rest.len() as int) =~= nets.subrange(i, nets.len() as int));
    }
}

// ---------------------------------------------------------------------------
// Executable snapshot operations
// ---------------------------------------------------------------------------

impl SnapshotValue {
    /// The first entry carrying the given label, if any.
    pub fn find_by_label(&self, label: &ContextLabel) -> (r: Option<SnapshotValueItem>)
        ensures
            match r {
                Some(item) => spec_find_snapshot(self@, label@) == Some(item@),
                None => spec_find_snapshot(self@, label@) is None,
            },
    {
        let mut i: usize = 0;
        while i < self.0.len()
            invariant
                i <= self.0.len(),
                forall|j: int| 0 <= j < i ==> self@[j].label != label@,
            decreases self.0.len() - i,
        {
            if self.0[i].0.0 == label.0 {
                proof {
                    lemma_find_snapshot_skip(self@, label@, i as int);
                }
                return Some(self.0[i].clone());
            }
            i += 1;
        }
        proof {
            lemma_find_snapshot_skip(self@, label@, self@.len() as int);
        }
        None
    }

    /// A new snapshot with the given value written at the given label; the
    /// first entry with that label is overwritten, a new label is appended.
    /// This snapshot itself is unchanged.
    pub fn insert(&self, label: &ContextLabel, value: &SnapshotValueItemValue) -> (r:
        SnapshotValue)
        ensures
            r@ == spec_snapshot_insert(self@, label@, value@),
    {
        let mut ret = self.clone();
        let mut i: usize = 0;
        while i < ret.0.len()
            invariant
                i <= ret.0.len(),
                ret@ == self@,
                forall|j: int| 0 <= j < i ==> self@[j].label != label@,
            decreases ret.0.len() - i,
        {
            if ret.0[i].0.0 == label.0 {
                let kept = ret.0[i].0.clone();
                ret.0[i] = SnapshotValueItem(kept, value.clone());
                proof {
                    lemma_snapshot_insert_at(self@, label@, value@, i as int);
                    assert(ret@ =~= self@.update(
                        i as int,
                        SpecSnapshotItem { label: self@[i as int].label, value: value@ },
                    ));
                }
                return ret;
            }
            i += 1;
        }
        proof {
            lemma_snapshot_insert_absent(self@, label@, value@);
        }
        ret.0.push(SnapshotValueItem(label.clone(), value.clone()));
        proof {
            assert(ret@ =~= self@.push(SpecSnapshotItem { label: label@, value: value@ }));
        }
        ret
    }
}

proof fn lemma_net_effects_error_persists(s: Seq<SpecContextEffect>, m: int, e: SpecCrgError)
    requires
        0 <= m <= s.len(),
        spec_net_effects(s.subrange(0, m)) == Err::<Seq<SpecContextEffect>, SpecCrgError>(e),
    ensures
        spec_net_effects(s) == Err::<Seq<SpecContextEffect>, SpecCrgError>(e),
    decreases s.len() - m,
{
    if m == s.len() {
        assert(s.subrange(0, s.len() as int) =~= s);
    } else {
        let longer = s.subrange(0, m + 1);
        assert(longer.drop_last() =~= s.subrange(0, m));
        lemma_net_effects_error_persists(s, m + 1, e);
    }
}

impl Slice {
    /// Reduces this slice onto a snapshot: the slice's effects are grouped
    /// by label in order of first occurrence, folded into one net effect per
    /// label, and applied to the snapshot's prior entries; labels absent
    /// from the slice are carried through unchanged. Neither input changes.
    pub fn apply(&self, snapshot: &SnapshotValue) -> (r: Result<SnapshotValue, CrgError>)
        ensures
            match r {
                Ok(s) => spec_slice_apply(self@, snapshot@) == Ok::<
                    Seq<SpecSnapshotItem>,
                    SpecCrgError,
                >(s@),
                Err(e) => spec_slice_apply(self@, snapshot@) == Err::<
                    Seq<SpecSnapshotItem>,
                    SpecCrgError,
                >(e@),
            },
    {
        // First pass: one net effect per label, in first-occurrence order.
        let mut nets: Vec<ContextEffect> = Vec::new();
        proof {
            assert(self@.subrange(0, 0) =~= Seq::<SpecContextEffect>::empty());
            assert(spec_net_effects(Seq::<SpecContextEffect>::empty()) == Ok::<
                Seq<SpecContextEffect>,
                SpecCrgError,
            >(Seq::empty()));
            assert(Seq::new(nets@.len(), |k: int| nets@[k]@) =~= Seq::<
                SpecContextEffect,
            >::empty());
        }
        let mut i: usize = 0;
        while i < self.0.len()
            invariant
                i <= self.0.len(),
                spec_net_effects(self@.subrange(0, i as int)) == Ok::<
                    Seq<SpecContextEffect>,
                    SpecCrgError,
                >(Seq::new(nets@.len(), |k: int| nets@[k]@)),
            decreases self.0.len() - i,
        {
            let ghost pre = Seq::new(nets@.len(), |k: int| nets@[k]@);
            let label = &self.0[i].0;
            let effect = &self.0[i].1;
            let mut j: usize = 0;
            while j < nets.len() && !(nets[j].0.0 == label.0)
                invariant
                    j <= nets.len(),
                    nets@.len() == pre.len(),
                    Seq::new(nets@.len(), |k: int| nets@[k]@) == pre,
                    forall|k: int| 0 <= k < j ==> pre[k].label != label@,
                decreases nets.len() - j,
            {
                j += 1;
            }
            proof {
                assert(self@.subrange(0, i as int + 1).drop_last() =~= self@.subrange(
                    0,
                    i as int,
                ));
                assert(self@.subrange(0, i as int + 1).last() == self@[i as int]);
            }
            if j < nets.len() {
                proof {
                    lemma_net_find_skip(pre, label@, j as int);
                    let suf = pre.subrange(j as int, pre.len() as int);
                    assert(suf[0] == pre[j as int]);
                    assert(spec_net_find(pre, label@) == Some(j as int));
                }
                // Compose the group's running net effect with this effect.
                if let (Effect::AddEffect(a), Effect::AddEffect(b)) = (&nets[j].1, effect) {
                    if a.0.checked_add(b.0).is_none() {
                        proof {
                            lemma_net_effects_error_persists(
                                self@,
                                i as int + 1,
                                SpecCrgError::IntegerOverflow,
                            );
                        }
                        return Err(CrgError::IntegerOverflow);
                    }
                }
                let kept = nets[j].0.clone();
                let composed = nets[j].1.compose(effect);
                nets[j] = ContextEffect(kept, composed);
                proof {
                    assert(Seq::new(nets@.len(), |k: int| nets@[k]@) =~= pre.update(
                        j as int,
                        SpecContextEffect {
                            label: pre[j as int].label,
                            effect: spec_compose(pre[j as int].effect, effect@),
                        },
                    ));
                }
            } else {
                proof {
                    lemma_net_find_skip(pre, label@, pre.len() as int);
                    assert(pre.subrange(pre.len() as int, pre.len() as int) =~= Seq::<
                        SpecContextEffect,
                    >::empty());
                    assert(spec_net_find(Seq::<SpecContextEffect>::empty(), label@) is None);
                    assert(spec_net_find(pre, label@) is None);
                }
                nets.push(ContextEffect(label.clone(), effect.clone()));
                proof {
                    assert(Seq::new(nets@.len(), |k: int| nets@[k]@) =~= pre.push(
                        SpecContextEffect { label: label@, effect: effect@ },
                    ));
                }
            }
            i += 1;
        }
        proof {
            assert(self@.subrange(0, self@.len() as int) =~= self@);
        }

        // Second pass: apply each net effect to its label's prior entry.
        let ghost all_nets = Seq::new(nets@.len(), |k: int| nets@[k]@);
        let mut acc: SnapshotValue = snapshot.clone();
        proof {
            assert(all_nets.subrange(0, all_nets.len() as int) =~= all_nets);
        }
        let mut i: usize = 0;
        while i < nets.len()
            invariant
                i <= nets.len(),
                Seq::new(nets@.len(), |k: int| nets@[k]@) == all_nets,
                spec_net_effects(self@) == Ok::<Seq<SpecContextEffect>, SpecCrgError>(all_nets),
                spec_apply_nets(all_nets, snapshot@, snapshot@) == spec_apply_nets(
                    all_nets.subrange(i as int, all_nets.len() as int),
                    snapshot@,
                    acc@,
                ),
            decreases nets.len() - i,
        {
            let ghost suffix = all_nets.subrange(i as int, all_nets.len() as int);
            proof {
                assert(suffix[0] == all_nets[i as int]);
                assert(suffix.subrange(1, suffix.len() as int) =~= all_nets.subrange(
                    i as int + 1,
                    all_nets.len() as int,
                ));
            }
            let label = &nets[i].0;
            let net = &nets[i].1;
            let prior = match acc_find(snapshot, label) {
                Some(v) => v,
                None => SnapshotValueItemValue::Empty,
            };
            let value = match net.apply(&prior) {
                Ok(v) => v,
                Err(e) => {
                    return Err(e);
                },
            };
            acc = acc.insert(label, &value);
            i += 1;
        }
        proof {
            assert(all_nets.subrange(all_nets.len() as int, all_nets.len() as int) =~= Seq::<
                SpecContextEffect,
            >::empty());
        }
        Ok(acc)
    }
}

/// The prior value a label has in the original snapshot: the entry's value,
/// or `Empty` where the label is absent.
fn acc_find(snapshot: &SnapshotValue, label: &ContextLabel) -> (r: Option<SnapshotValueItemValue>)
    ensures
        match r {
            Some(v) => spec_find_snapshot(snapshot@, label@) matches Some(item) && item.value
                == v@,
            None => spec_find_snapshot(snapshot@, label@) is None,
        },
{
    match snapshot.find_by_label(label) {
        Some(item) => Some(item.1),
        None => None,
    }
}

// ---------------------------------------------------------------------------
// Laws of reduce
// ---------------------------------------------------------------------------

/// Looking a label up in a snapshot with one more entry at the end: every
/// label already present answers as before; only the appended label answers
/// with the new entry.
proof fn lemma_find_snapshot_push(
    snap: Seq<SpecSnapshotItem>,
    item: SpecSnapshotItem,
    label: Seq<char>,
)
    ensures
        spec_find_snapshot(snap.push(item), label) == if spec_find_snapshot(snap, label) is Some {
            spec_find_snapshot(snap, label)
        } else if item.label == label {
            Some(item)
        } else {
            None::<SpecSnapshotItem>
        },
    decreases snap.len(),
{
    assert(spec_find_snapshot(Seq::<SpecSnapshotItem>::empty(), label) is None);
    if snap.len() == 0 {
        assert(snap.push(item)[0] == item);
        assert(snap.push(item).subrange(1, 1) =~= Seq::<SpecSnapshotItem>::empty());
        assert(spec_find_snapshot(snap, label) is None);
    } else {
        let rest = snap.subrange(1, snap.len() as int);
        lemma_find_snapshot_push(rest, item, label);
        assert(snap.push(item)[0] == snap[0]);
        assert(snap.push(item).subrange(1, snap.len() as int + 1) =~= rest.push(item));
    }
}

/// Reducing a slice that carries only the identity effect for one label
/// leaves every entry of the snapshot unchanged: the entry of that label
/// itself, and all others.
pub proof fn lemma_reduce_identity(label: Seq<char>, snap: Seq<SpecSnapshotItem>)
    ensures
        spec_slice_apply(
            seq![SpecContextEffect { label, effect: SpecEffect::Id }],
            snap,
        ) matches Ok(result) && (forall|l: Seq<char>|
            #[trigger] spec_entry_of(result, l) == spec_entry_of(snap, l)),
    decreases snap.len(),
{
    let ce = SpecContextEffect { label, effect: SpecEffect::Id };
    let items = seq![ce];
    let none_ce = Seq::<SpecContextEffect>::empty();
    assert(items.drop_last() =~= none_ce);
    assert(spec_net_effects(none_ce) == Ok::<Seq<SpecContextEffect>, SpecCrgError>(none_ce));
    assert(spec_net_find(none_ce, label) is None);
    assert(items.last() == ce);
    assert(spec_net_effects(items) == Ok::<Seq<SpecContextEffect>, SpecCrgError>(none_ce.push(ce)));
    let nets = none_ce.push(ce);
    assert(nets[0] == ce);
    let prior = spec_entry_of(snap, label);
    assert(spec_apply(SpecEffect::Id, prior) == Ok::<SpecEntry, SpecCrgError>(prior));
    let inserted = spec_snapshot_insert(snap, label, prior);
    assert(nets.subrange(1, 1) =~= none_ce);
    assert(spec_apply_nets(none_ce, snap, inserted) == Ok::<Seq<SpecSnapshotItem>, SpecCrgError>(
        inserted,
    ));
    assert(spec_apply_nets(nets, snap, snap) == Ok::<Seq<SpecSnapshotItem>, SpecCrgError>(
        inserted,
    ));
    lemma_insert_prior_preserves_entries(snap, label);
    assert(spec_slice_apply(items, snap) == Ok::<Seq<SpecSnapshotItem>, SpecCrgError>(inserted));
}

/// Writing back the value a label already reads (its entry's value, or
/// `Empty` where absent) changes no entry of the snapshot.
proof fn lemma_insert_prior_preserves_entries(snap: Seq<SpecSnapshotItem>, label: Seq<char>)
    ensures
        forall|l: Seq<char>|
            #[trigger] spec_entry_of(
                spec_snapshot_insert(snap, label, spec_entry_of(snap, label)),
                l,
            ) == spec_entry_of(snap, l),
    decreases snap.len(),
{
    let prior = spec_entry_of(snap, label);
    let inserted = spec_snapshot_insert(snap, label, prior);
    if snap.len() == 0 {
        assert forall|l: Seq<char>| #[trigger] spec_entry_of(inserted, l) == spec_entry_of(
            snap,
            l,
        ) by {
            assert(spec_find_snapshot(Seq::<SpecSnapshotItem>::empty(), l) is None);
            assert(spec_find_snapshot(snap, l) is None);
            assert(inserted =~= seq![SpecSnapshotItem { label, value: SpecEntry::Empty }]);
            assert(inserted.subrange(1, 1) =~= Seq::<SpecSnapshotItem>::empty());
            assert(inserted[0].label == label);
            if l != label {
                assert(spec_find_snapshot(inserted, l) == spec_find_snapshot(
                    inserted.subrange(1, 1),
                    l,
                ));
            }
        }
    } else if snap[0].label == label {
        assert forall|l: Seq<char>| #[trigger] spec_entry_of(inserted, l) == spec_entry_of(
            snap,
            l,
        ) by {
            assert(inserted =~= seq![
                SpecSnapshotItem { label: snap[0].label, value: snap[0].value },
            ] + snap.subrange(1, snap.len() as int));
            assert(inserted =~= snap);
        }
    } else {
        let rest = snap.subrange(1, snap.len() as int);
        lemma_insert_prior_preserves_entries(rest, label);
        assert forall|l: Seq<char>| #[trigger] spec_entry_of(inserted, l) == spec_entry_of(
            snap,
            l,
        ) by {
            assert(spec_entry_of(snap, label) == spec_entry_of(rest, label));
            assert(inserted =~= seq![snap[0]] + spec_snapshot_insert(
                rest,
                label,
                spec_entry_of(rest, label),
            ));
            let tail = spec_snapshot_insert(rest, label, spec_entry_of(rest, label));
            assert(inserted[0] == snap[0]);
            assert(inserted.subrange(1, inserted.len() as int) =~= tail);
            if snap[0].label != l {
                assert(spec_entry_of(tail, l) == spec_entry_of(rest, l));
            }
        }
    }
}

/// The net effect a reduced slice carries for one label, if any.
pub open spec fn spec_net_lookup(nets: Seq<SpecContextEffect>, label: Seq<char>) -> Option<
    SpecEffect,
> {
    match spec_net_find(nets, label) {
        Some(j) => Some(nets[j].effect),
        None => None,
    }
}

proof fn lemma_net_find_characterizes(nets: Seq<SpecContextEffect>, label: Seq<char>)
    ensures
        match spec_net_find(nets, label) {
            Some(j) => 0 <= j < nets.len() && nets[j].label == label,
            None => forall|k: int| 0 <= k < nets.len() ==> nets[k].label != label,
        },
    decreases nets.len(),
{
    if nets.len() > 0 && nets[0].label != label {
        let rest = nets.subrange(1, nets.len() as int);
        lemma_net_find_characterizes(rest, label);
        assert forall|k: int|
            (spec_net_find(nets, label) is None && 0 <= k < nets.len()) implies nets[k].label
            != label by {
            if k > 0 {
                assert(rest[k - 1] == nets[k]);
            }
        }
    }
}

proof fn lemma_net_find_push(nets: Seq<SpecContextEffect>, ce: SpecContextEffect, label: Seq<char>)
    ensures
        spec_net_find(nets.push(ce), label) == if spec_net_find(nets, label) is Some {
            spec_net_find(nets, label)
        } else if ce.label == label {
            Some(nets.len() as int)
        } else {
            None::<int>
        },
    decreases nets.len(),
{
    assert(spec_net_find(Seq::<SpecContextEffect>::empty(), label) is None);
    if nets.len() == 0 {
        assert(nets.push(ce)[0] == ce);
        assert(nets.push(ce).subrange(1, 1) =~= Seq::<SpecContextEffect>::empty());
    } else {
        let rest = nets.subrange(1, nets.len() as int);
        lemma_net_find_push(rest, ce, label);
        assert(nets.push(ce)[0] == nets[0]);
        assert(nets.push(ce).subrange(1, nets.len() as int + 1) =~= rest.push(ce));
    }
}

proof fn lemma_net_find_update(nets: Seq<SpecContextEffect>, j: int, e: SpecEffect, label: Seq<
    char,
>)
    requires
        0 <= j < nets.len(),
    ensures
        spec_net_find(nets.update(j, SpecContextEffect { label: nets[j].label, effect: e }), label)
            == spec_net_find(nets, label),
    decreases nets.len(),
{
    let updated = nets.update(j, SpecContextEffect { label: nets[j].label, effect: e });
    assert(updated[0].label == nets[0].label);
    if nets.len() > 0 && nets[0].label != label {
        let rest = nets.subrange(1, nets.len() as int);
        if j == 0 {
            assert(updated.subrange(1, updated.len() as int) =~= rest);
        } else {
            lemma_net_find_update(rest, j - 1, e, label);
            assert(updated.subrange(1, updated.len() as int) =~= rest.update(
                j - 1,
                SpecContextEffect { label: rest[j - 1].label, effect: e },
            ));
        }
    }
}

/// The one label an insert writes reads back as the written value; every
/// other label reads as before.
proof fn lemma_insert_entry_of(
    snap: Seq<SpecSnapshotItem>,
    label: Seq<char>,
    value: SpecEntry,
    l: Seq<char>,
)
    ensures
        spec_entry_of(spec_snapshot_insert(snap, label, value), l) == if l == label {
            value
        } else {
            spec_entry_of(snap, l)
        },
    decreases snap.len(),
{
    let inserted = spec_snapshot_insert(snap, label, value);
    if snap.len() == 0 {
        assert(inserted =~= seq![SpecSnapshotItem { label, value }]);
        assert(inserted[0] == SpecSnapshotItem { label, value });
        assert(inserted.subrange(1, 1) =~= Seq::<SpecSnapshotItem>::empty());
        assert(spec_find_snapshot(Seq::<SpecSnapshotItem>::empty(), l) is None);
    } else if snap[0].label == label {
        let rest = snap.subrange(1, snap.len() as int);
        assert(inserted =~= seq![SpecSnapshotItem { label: snap[0].label, value }] + rest);
        assert(inserted[0] == SpecSnapshotItem { label: snap[0].label, value });
        assert(inserted.subrange(1, inserted.len() as int) =~= rest);
    } else {
        let rest = snap.subrange(1, snap.len() as int);
        lemma_insert_entry_of(rest, label, value, l);
        assert(inserted =~= seq![snap[0]] + spec_snapshot_insert(rest, label, value));
        assert(inserted[0] == snap[0]);
        assert(inserted.subrange(1, inserted.len() as int) =~= spec_snapshot_insert(
            rest,
            label,
            value,
        ));
    }
}

/// The labels of the net effects are distinct: each label of the slice
/// folds into exactly one group.
proof fn lemma_net_effects_distinct(items: Seq<SpecContextEffect>)
    ensures
        spec_net_effects(items) matches Ok(nets) ==> forall|i: int, j: int|
            0 <= i < j < nets.len() ==> (#[trigger] nets[i].label) != (#[trigger] nets[j].label),
    decreases items.len(),
{
    if items.len() > 0 {
        lemma_net_effects_distinct(items.drop_last());
        match spec_net_effects(items.drop_last()) {
            Ok(pre) => {
                let ce = items.last();
                match spec_net_find(pre, ce.label) {
                    Some(j) => {
                        lemma_net_find_characterizes(pre, ce.label);
                        if compose_fits(pre[j].effect, ce.effect) {
                            let nets = pre.update(
                                j,
                                SpecContextEffect {
                                    label: pre[j].label,
                                    effect: spec_compose(pre[j].effect, ce.effect),
                                },
                            );
                            assert forall|a: int, b: int| 0 <= a < b < nets.len() implies (
                            #[trigger] nets[a].label) != (#[trigger] nets[b].label) by {
                                assert(nets[a].label == pre[a].label);
                                assert(nets[b].label == pre[b].label);
                            }
                        }
                    },
                    None => {
                        lemma_net_find_characterizes(pre, ce.label);
                        let nets = pre.push(ce);
                        assert forall|a: int, b: int| 0 <= a < b < nets.len() implies (
                        #[trigger] nets[a].label) != (#[trigger] nets[b].label) by {
                            if b < pre.len() {
                                assert(nets[a] == pre[a]);
                                assert(nets[b] == pre[b]);
                            } else {
                                assert(nets[a] == pre[a]);
                                assert(nets[b] == ce);
                            }
                        }
                    },
                }
            },
            Err(_) => (),
        }
    }
}

/// A label no element of the slice carries has no net effect.
proof fn lemma_net_effects_labels(items: Seq<SpecContextEffect>, l: Seq<char>)
    requires
        forall|i: int| 0 <= i < items.len() ==> (#[trigger] items[i].label) != l,
    ensures
        spec_net_effects(items) matches Ok(nets) ==> spec_net_find(nets, l) is None,
    decreases items.len(),
{
    if items.len() > 0 {
        assert forall|i: int| 0 <= i < items.drop_last().len() implies (
        #[trigger] items.drop_last()[i].label) != l by {
            assert(items.drop_last()[i] == items[i]);
        }
        lemma_net_effects_labels(items.drop_last(), l);
        match spec_net_effects(items.drop_last()) {
            Ok(pre) => {
                let ce = items.last();
                assert(ce.label != l);
                match spec_net_find(pre, ce.label) {
                    Some(j) => {
                        lemma_net_find_characterizes(pre, ce.label);
                        if compose_fits(pre[j].effect, ce.effect) {
                            lemma_net_find_update(
                                pre,
                                j,
                                spec_compose(pre[j].effect, ce.effect),
                                l,
                            );
                        }
                    },
                    None => {
                        lemma_net_find_push(pre, ce, l);
                    },
                }
            },
            Err(_) => (),
        }
    }
}

proof fn lemma_apply_nets_pointwise(
    nets: Seq<SpecContextEffect>,
    original: Seq<SpecSnapshotItem>,
    acc: Seq<SpecSnapshotItem>,
    l: Seq<char>,
)
    requires
        forall|i: int, j: int|
            0 <= i < j < nets.len() ==> (#[trigger] nets[i].label) != (#[trigger] nets[j].label),
    ensures
        spec_apply_nets(nets, original, acc) matches Ok(result) ==> spec_entry_of(result, l)
            == match spec_net_lookup(nets, l) {
            Some(e) => spec_apply(e, spec_entry_of(original, l))->Ok_0,
            None => spec_entry_of(acc, l),
        },
        spec_apply_nets(nets, original, acc) matches Ok(result) ==> (spec_net_lookup(nets, l)
            matches Some(e) ==> spec_apply(e, spec_entry_of(original, l)) is Ok),
    decreases nets.len(),
{
    if nets.len() > 0 {
        let rest = nets.subrange(1, nets.len() as int);
        let prior = spec_entry_of(original, nets[0].label);
        match spec_apply(nets[0].effect, prior) {
            Ok(v) => {
                let acc2 = spec_snapshot_insert(acc, nets[0].label, v);
                assert forall|a: int, b: int| 0 <= a < b < rest.len() implies (
                #[trigger] rest[a].label) != (#[trigger] rest[b].label) by {
                    assert(rest[a] == nets[a + 1]);
                    assert(rest[b] == nets[b + 1]);
                }
                lemma_apply_nets_pointwise(rest, original, acc2, l);
                lemma_insert_entry_of(acc, nets[0].label, v, l);
                if l == nets[0].label {
                    lemma_net_find_characterizes(rest, l);
                    assert forall|k: int| 0 <= k < rest.len() implies (#[trigger] rest[k].label)
                        != l by {
                        assert(rest[k] == nets[k + 1]);
                    }
                    assert(spec_net_find(rest, l) is None);
                    assert(spec_net_lookup(nets, l) == Some(nets[0].effect));
                } else {
                    match spec_net_find(rest, l) {
                        Some(j) => {
                            lemma_net_find_characterizes(rest, l);
                            assert(spec_net_find(nets, l) == Some(j + 1));
                            assert(nets[j + 1] == rest[j]);
                        },
                        None => (),
                    }
                }
            },
            Err(_) => (),
        }
    }
}

/// How a reduced snapshot reads, label by label: a label with a net effect
/// in the slice reads as that net effect applied to the label's prior value
/// in the original snapshot, and every other label reads exactly as before.
pub proof fn lemma_reduce_pointwise(
    items: Seq<SpecContextEffect>,
    snap: Seq<SpecSnapshotItem>,
    l: Seq<char>,
)
    ensures
        spec_slice_apply(items, snap) matches Ok(result) ==> {
            let nets = spec_net_effects(items)->Ok_0;
            &&& (spec_net_lookup(nets, l) matches Some(e) ==> spec_apply(
                e,
                spec_entry_of(snap, l),
            ) is Ok && spec_entry_of(result, l) == spec_apply(e, spec_entry_of(snap, l))->Ok_0)
            &&& (spec_net_lookup(nets, l) is None ==> spec_entry_of(result, l) == spec_entry_of(
                snap,
                l,
            ))
        },
{
    match spec_net_effects(items) {
        Ok(nets) => {
            lemma_net_effects_distinct(items);
            lemma_apply_nets_pointwise(nets, snap, snap, l);
        },
        Err(_) => (),
    }
}

/// Labels absent from the slice are carried through unchanged by reduce.
pub proof fn lemma_reduce_carries_untouched_labels(
    items: Seq<SpecContextEffect>,
    snap: Seq<SpecSnapshotItem>,
    l: Seq<char>,
)
    requires
        forall|i: int| 0 <= i < items.len() ==> (#[trigger] items[i].label) != l,
    ensures
        spec_slice_apply(items, snap) matches Ok(result) ==> spec_entry_of(result, l)
            == spec_entry_of(snap, l),
{
    lemma_net_effects_labels(items, l);
    lemma_reduce_pointwise(items, snap, l);
}

} // verus!
