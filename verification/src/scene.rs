//! A model of the scene, as far as labels are concerned, and what a round of
//! reconciliation makes of it.
//!
//! The model is ghost code. It says what becomes of the scene when the entities that
//! `despawn_text` names are removed and the labels that `spawn_text` asks for are
//! created, and the lemmas state what then holds of the bodies and their labels.

use crate::label::TextLabelView;
use crate::mode::TextMode;
use crate::reconcile::{
    has_label, spec_despawn_text, spec_label_for, spec_spawn_text, spec_unlabelled, BodyView,
    LabelSpawnView,
};
use vstd::prelude::*;

verus! {

/// The bodies of the grid and the text entities, each with the label that it shows.
pub struct Scene {
    pub bodies: Seq<BodyView>,
    pub labels: Map<u64, TextLabelView>,
}

/// The children that are left when the entities in `doomed` are gone.
pub open spec fn without(children: Option<Seq<u64>>, doomed: Seq<u64>) -> Option<Seq<u64>> {
    match children {
        Some(children) => Some(children.filter(|child: u64| !doomed.contains(child))),
        None => None,
    }
}

/// The children with `child` as one more, at the end.
pub open spec fn with_child(children: Option<Seq<u64>>, child: u64) -> Option<Seq<u64>> {
    match children {
        Some(children) => Some(children.push(child)),
        None => Some(seq![child]),
    }
}

/// Whether `entity` is one of `children`.
pub open spec fn holds(children: Option<Seq<u64>>, entity: u64) -> bool {
    match children {
        Some(children) => children.contains(entity),
        None => false,
    }
}

/// Whether at most one of `children` is a text entity.
pub open spec fn single_label(children: Option<Seq<u64>>, texts: Set<u64>) -> bool {
    match children {
        Some(children) => forall|k: int, m: int|
            0 <= k < children.len() && 0 <= m < children.len() && texts.contains(
                #[trigger] children[k],
            ) && texts.contains(#[trigger] children[m]) ==> k == m,
        None => true,
    }
}

/// Whether every text entity among `children` shows `label`.
pub open spec fn shows(
    children: Option<Seq<u64>>,
    labels: Map<u64, TextLabelView>,
    label: TextLabelView,
) -> bool {
    match children {
        Some(children) => forall|k: int|
            0 <= k < children.len() && labels.dom().contains(#[trigger] children[k])
                ==> labels[children[k]] == label,
        None => true,
    }
}

/// Whether no two of `bodies` share an id.
pub open spec fn distinct_bodies(bodies: Seq<BodyView>) -> bool {
    forall|i: int, j: int|
        0 <= i < j < bodies.len() ==> (#[trigger] bodies[i]).entity != (#[trigger] bodies[j]).entity
}

/// Whether `entity` is one of `bodies` and has no label.
pub open spec fn is_unlabelled_body(bodies: Seq<BodyView>, texts: Set<u64>, entity: u64) -> bool {
    exists|i: int|
        0 <= i < bodies.len() && (#[trigger] bodies[i]).entity == entity && !has_label(
            bodies[i].children,
            texts,
        )
}

/// The bodies that `spawns` give a label to, in the order of `spawns`.
pub open spec fn spec_parents(spawns: Seq<LabelSpawnView>) -> Seq<u64> {
    spawns.map_values(|spawn: LabelSpawnView| spawn.parent)
}

impl Scene {
    /// No two bodies share an id, and the text entities are finitely many.
    pub open spec fn wf(self) -> bool {
        &&& self.labels.dom().finite()
        &&& distinct_bodies(self.bodies)
    }

    /// Whether `entity` is in use: as a text entity, as a body, or as a child of a body.
    pub open spec fn knows(self, entity: u64) -> bool {
        ||| self.labels.dom().contains(entity)
        ||| exists|i: int|
            0 <= i < self.bodies.len() && (#[trigger] self.bodies[i]).entity == entity
        ||| exists|i: int|
            0 <= i < self.bodies.len() && holds((#[trigger] self.bodies[i]).children, entity)
    }

    /// Whether `ids` can name new entities: no id twice, and none that is in use.
    pub open spec fn fresh(self, ids: Seq<u64>) -> bool {
        &&& ids.no_duplicates()
        &&& forall|k: int| 0 <= k < ids.len() ==> !self.knows(#[trigger] ids[k])
    }

    /// Whether the labels are as `mode` asks for them: with a mode that shows labels,
    /// every body has exactly one, it shows what the mode asks for, and there are as
    /// many text entities as bodies; with `TextMode::NoText` there is no text entity.
    pub open spec fn settled(self, mode: TextMode) -> bool {
        match spec_label_for(mode) {
            Some(label) => {
                &&& self.labels.dom().finite()
                &&& self.labels.dom().len() == self.bodies.len()
                &&& forall|i: int|
                    0 <= i < self.bodies.len() ==> {
                        &&& has_label((#[trigger] self.bodies[i]).children, self.labels.dom())
                        &&& single_label(self.bodies[i].children, self.labels.dom())
                        &&& shows(self.bodies[i].children, self.labels, label)
                    }
            },
            None => self.labels.dom() =~= Set::<u64>::empty(),
        }
    }

    /// The scene after the entities in `doomed` are removed: they are no text entities
    /// any more, and no body has them as children.
    pub open spec fn despawn(self, doomed: Seq<u64>) -> Scene {
        Scene {
            bodies: self.bodies.map_values(
                |body: BodyView|
                    BodyView { entity: body.entity, children: without(body.children, doomed) },
            ),
            labels: self.labels.remove_keys(doomed.to_set()),
        }
    }

    /// The scene after the label of `spawn` is created under the id `id` and made the
    /// last child of the body `spawn.parent`.
    pub open spec fn attach(self, spawn: LabelSpawnView, id: u64) -> Scene {
        Scene {
            bodies: self.bodies.map_values(
                |body: BodyView|
                    if body.entity == spawn.parent {
                        BodyView { entity: body.entity, children: with_child(body.children, id) }
                    } else {
                        body
                    },
            ),
            labels: self.labels.insert(id, spawn.label),
        }
    }

    /// The scene after all of `spawns` are carried out in order, the label of
    /// `spawns[k]` under the id `ids[k]`.
    pub open spec fn carry_out(self, spawns: Seq<LabelSpawnView>, ids: Seq<u64>) -> Scene
        recommends
            spawns.len() == ids.len(),
        decreases spawns.len(),
    {
        if spawns.len() == 0 {
            self
        } else {
            self.carry_out(spawns.drop_last(), ids.drop_last()).attach(spawns.last(), ids.last())
        }
    }

    /// The scene after one round of reconciliation for `mode`, when the round before
    /// was for `last_mode`: first the text entities that `spec_despawn_text` names are
    /// removed, then the labels that `spec_spawn_text` asks for in what is left are
    /// created under the ids `ids`. `text_order` lists the text entities.
    pub open spec fn reconcile(
        self,
        mode: TextMode,
        last_mode: TextMode,
        text_order: Seq<u64>,
        ids: Seq<u64>,
    ) -> Scene {
        let cleared = self.despawn(spec_despawn_text(mode, last_mode, text_order));
        cleared.carry_out(spec_spawn_text(mode, cleared.bodies, cleared.labels.dom()), ids)
    }
}

/// A filter that every element passes keeps the sequence as it is.
proof fn lemma_filter_keeps_all<A>(s: Seq<A>, pred: spec_fn(A) -> bool)
    requires
        forall|i: int| 0 <= i < s.len() ==> pred(#[trigger] s[i]),
    ensures
        s.filter(pred) == s,
    decreases s.len(),
{
    reveal(Seq::filter);
    if s.len() > 0 {
        lemma_filter_keeps_all(s.drop_last(), pred);
    }
}

/// A filter that no element passes leaves nothing.
proof fn lemma_filter_keeps_none<A>(s: Seq<A>, pred: spec_fn(A) -> bool)
    requires
        forall|i: int| 0 <= i < s.len() ==> !pred(#[trigger] s[i]),
    ensures
        s.filter(pred) == Seq::<A>::empty(),
    decreases s.len(),
{
    reveal(Seq::filter);
    if s.len() > 0 {
        lemma_filter_keeps_none(s.drop_last(), pred);
    }
}

/// Where every body has a label, no label is asked for.
pub proof fn lemma_all_labelled_spawns_nothing(
    mode: TextMode,
    bodies: Seq<BodyView>,
    texts: Set<u64>,
)
    requires
        forall|i: int| 0 <= i < bodies.len() ==> has_label((#[trigger] bodies[i]).children, texts),
    ensures
        spec_spawn_text(mode, bodies, texts) == Seq::<LabelSpawnView>::empty(),
{
    lemma_filter_keeps_none(bodies, |body: BodyView| !has_label(body.children, texts));
}

/// Where there is no text entity, every body is without a label, and a mode that
/// shows labels asks for one for each body, in the bodies' order.
pub proof fn lemma_no_texts_spawns_for_all(mode: TextMode, bodies: Seq<BodyView>, texts: Set<u64>)
    requires
        texts =~= Set::<u64>::empty(),
    ensures
        spec_unlabelled(bodies, texts) == bodies.map_values(|body: BodyView| body.entity),
        spec_spawn_text(mode, bodies, texts).len() == if mode == TextMode::NoText {
            0
        } else {
            bodies.len()
        },
{
    lemma_filter_keeps_all(bodies, |body: BodyView| !has_label(body.children, texts));
}

/// Removing no entity leaves the scene as it is.
pub proof fn lemma_despawn_nothing(scene: Scene)
    ensures
        scene.despawn(Seq::empty()) == scene,
{
    let doomed = Seq::<u64>::empty();
    let after = scene.despawn(doomed);
    assert forall|i: int| 0 <= i < scene.bodies.len() implies after.bodies[i]
        == scene.bodies[i] by {
        if let Some(children) = scene.bodies[i].children {
            lemma_filter_keeps_all(children, |child: u64| !doomed.contains(child));
        }
    }
    assert(after.bodies =~= scene.bodies);
    assert(after.labels =~= scene.labels);
}

/// Removing all text entities leaves the bodies in place, each under its id, and no
/// text entity.
pub proof fn lemma_despawn_all(scene: Scene, text_order: Seq<u64>)
    requires
        scene.wf(),
        text_order.to_set() =~= scene.labels.dom(),
    ensures
        scene.despawn(text_order).wf(),
        scene.despawn(text_order).bodies.len() == scene.bodies.len(),
        scene.despawn(text_order).labels.dom() =~= Set::<u64>::empty(),
        forall|i: int|
            0 <= i < scene.bodies.len() ==> (#[trigger] scene.despawn(text_order).bodies[i]).entity
                == scene.bodies[i].entity,
{
    let cleared = scene.despawn(text_order);
    assert(cleared.labels.dom() =~= Set::<u64>::empty());
    assert forall|i: int, j: int| 0 <= i < j < cleared.bodies.len() implies (
    #[trigger] cleared.bodies[i]).entity != (#[trigger] cleared.bodies[j]).entity by {
        assert(scene.bodies[i].entity != scene.bodies[j].entity);
    }
}

/// Once the labels are as the mode asks for them, a further round for the same mode
/// removes nothing, creates nothing and leaves the scene as it is.
pub proof fn lemma_settled_is_stable(scene: Scene, mode: TextMode, text_order: Seq<u64>)
    requires
        scene.settled(mode),
    ensures
        spec_despawn_text(mode, mode, text_order) == Seq::<u64>::empty(),
        spec_spawn_text(mode, scene.bodies, scene.labels.dom()) == Seq::<LabelSpawnView>::empty(),
        scene.reconcile(mode, mode, text_order, Seq::empty()) == scene,
{
    lemma_despawn_nothing(scene);
    if spec_label_for(mode).is_some() {
        lemma_all_labelled_spawns_nothing(mode, scene.bodies, scene.labels.dom());
    }
}

/// Among bodies with different ids, those without a label are listed once each, and
/// no other body is listed.
pub proof fn lemma_unlabelled_lists_each_once(bodies: Seq<BodyView>, texts: Set<u64>)
    requires
        distinct_bodies(bodies),
    ensures
        spec_unlabelled(bodies, texts).no_duplicates(),
        spec_unlabelled(bodies, texts).len() <= bodies.len(),
        forall|k: int|
            0 <= k < spec_unlabelled(bodies, texts).len() ==> is_unlabelled_body(
                bodies,
                texts,
                #[trigger] spec_unlabelled(bodies, texts)[k],
            ),
        forall|i: int|
            0 <= i < bodies.len() && !has_label((#[trigger] bodies[i]).children, texts)
                ==> spec_unlabelled(bodies, texts).contains(bodies[i].entity),
    decreases bodies.len(),
{
    let listed = spec_unlabelled(bodies, texts);
    if bodies.len() == 0 {
        lemma_filter_keeps_all(bodies, |body: BodyView| !has_label(body.children, texts));
    } else {
        let init = bodies.drop_last();
        let last = bodies.last();
        let before = spec_unlabelled(init, texts);
        assert(init.push(last) == bodies);
        lemma_unlabelled_lists_each_once(init, texts);
        crate::reconcile::lemma_unlabelled_step(init, last, texts);
        // `listed` is `before`, with the id of `last` at its end if `last` has no label.
        assert forall|k: int| 0 <= k < listed.len() implies is_unlabelled_body(
            bodies,
            texts,
            #[trigger] listed[k],
        ) by {
            if k < before.len() {
                let i = choose|i: int|
                    0 <= i < init.len() && (#[trigger] init[i]).entity == before[k] && !has_label(
                        init[i].children,
                        texts,
                    );
                assert(bodies[i] == init[i]);
            } else {
                assert(bodies[bodies.len() - 1] == last);
            }
        }
        assert forall|i: int|
            0 <= i < bodies.len() && !has_label(
                (#[trigger] bodies[i]).children,
                texts,
            ) implies listed.contains(bodies[i].entity) by {
            if i < init.len() {
                assert(init[i] == bodies[i]);
                let k = choose|k: int| 0 <= k < before.len() && before[k] == init[i].entity;
                assert(listed[k] == bodies[i].entity);
            } else {
                assert(listed[listed.len() - 1] == bodies[i].entity);
            }
        }
        assert forall|k: int, m: int|
            0 <= k < listed.len() && 0 <= m < listed.len() && k != m implies listed[k]
            != listed[m] by {
            if k == before.len() || m == before.len() {
                // One of the two is `last`; the other is a body of `init`.
                let other = if k == before.len() {
                    m
                } else {
                    k
                };
                let i = choose|i: int|
                    0 <= i < init.len() && (#[trigger] init[i]).entity == before[other]
                        && !has_label(init[i].children, texts);
                assert(bodies[i] == init[i]);
                assert(bodies[bodies.len() - 1] == last);
            }
        }
    }
}

/// What carrying out `spawns` makes of a scene, when no body is named twice and no new
/// id is used twice: each new id is a text entity that shows its label, the other
/// text entities are as before, each named body has its new label as one more child,
/// and the other bodies are as before.
pub proof fn lemma_carry_out(scene: Scene, spawns: Seq<LabelSpawnView>, ids: Seq<u64>)
    requires
        spawns.len() == ids.len(),
        spec_parents(spawns).no_duplicates(),
        ids.no_duplicates(),
    ensures
        scene.carry_out(spawns, ids).bodies.len() == scene.bodies.len(),
        scene.carry_out(spawns, ids).labels.dom() =~= scene.labels.dom() + ids.to_set(),
        forall|k: int|
            0 <= k < ids.len() ==> scene.carry_out(spawns, ids).labels[#[trigger] ids[k]]
                == spawns[k].label,
        forall|entity: u64|
            scene.labels.dom().contains(entity) && !ids.contains(entity)
                ==> #[trigger] scene.carry_out(spawns, ids).labels[entity]
                == scene.labels[entity],
        forall|i: int|
            0 <= i < scene.bodies.len() ==> (#[trigger] scene.carry_out(
                spawns,
                ids,
            ).bodies[i]).entity == scene.bodies[i].entity,
        forall|i: int, k: int|
            0 <= i < scene.bodies.len() && 0 <= k < spawns.len() && (#[trigger] spawns[k]).parent
                == (#[trigger] scene.bodies[i]).entity ==> scene.carry_out(
                spawns,
                ids,
            ).bodies[i].children == with_child(scene.bodies[i].children, ids[k]),
        forall|i: int|
            0 <= i < scene.bodies.len() && !spec_parents(spawns).contains(
                (#[trigger] scene.bodies[i]).entity,
            ) ==> scene.carry_out(spawns, ids).bodies[i] == scene.bodies[i],
    decreases spawns.len(),
{
    let after = scene.carry_out(spawns, ids);
    if spawns.len() > 0 {
        let n = spawns.len() - 1;
        let earlier = spawns.drop_last();
        let earlier_ids = ids.drop_last();
        let prev = scene.carry_out(earlier, earlier_ids);
        assert(spec_parents(earlier) =~= spec_parents(spawns).drop_last());
        lemma_carry_out(scene, earlier, earlier_ids);
        assert(after == prev.attach(spawns[n], ids[n]));
        assert(ids.to_set() =~= earlier_ids.to_set().insert(ids[n])) by {
            assert(earlier_ids.push(ids[n]) == ids);
            earlier_ids.lemma_push_to_set_commute(ids[n]);
        }
        assert forall|k: int| 0 <= k < ids.len() implies after.labels[#[trigger] ids[k]]
            == spawns[k].label by {
            if k < n {
                assert(earlier_ids[k] == ids[k]);
                assert(earlier[k] == spawns[k]);
            }
        }
        assert forall|entity: u64|
            scene.labels.dom().contains(entity) && !ids.contains(
                entity,
            ) implies #[trigger] after.labels[entity] == scene.labels[entity] by {
            assert forall|k: int| 0 <= k < earlier_ids.len() implies earlier_ids[k] != entity by {
                assert(earlier_ids[k] == ids[k]);
            }
        }
        assert forall|i: int, k: int|
            0 <= i < scene.bodies.len() && 0 <= k < spawns.len() && (#[trigger] spawns[k]).parent
                == (#[trigger] scene.bodies[i]).entity implies after.bodies[i].children
            == with_child(scene.bodies[i].children, ids[k]) by {
            if k == n {
                // No earlier spawn names this body, so it was as at the start.
                assert forall|m: int| 0 <= m < earlier.len() implies spec_parents(earlier)[m]
                    != scene.bodies[i].entity by {
                    assert(spec_parents(spawns)[m] != spec_parents(spawns)[n]);
                }
                assert(prev.bodies[i] == scene.bodies[i]);
            } else {
                // The last spawn names another body, so this one stays as it was.
                assert(earlier[k] == spawns[k]);
                assert(spec_parents(spawns)[k] != spec_parents(spawns)[n]);
            }
        }
        assert forall|i: int|
            0 <= i < scene.bodies.len() && !spec_parents(spawns).contains(
                (#[trigger] scene.bodies[i]).entity,
            ) implies after.bodies[i] == scene.bodies[i] by {
            assert(spec_parents(spawns)[n] != scene.bodies[i].entity);
            assert forall|m: int| 0 <= m < earlier.len() implies spec_parents(earlier)[m]
                != scene.bodies[i].entity by {
                assert(spec_parents(spawns)[m] == spec_parents(earlier)[m]);
            }
        }
    }
}

/// A new id is not yet a child of any body.
proof fn lemma_new_ids_are_no_children(scene: Scene, ids: Seq<u64>, i: int, m: int)
    requires
        scene.fresh(ids),
        0 <= i < scene.bodies.len(),
        scene.bodies[i].children.is_some(),
        0 <= m < scene.bodies[i].children.unwrap().len(),
    ensures
        !ids.to_set().contains(scene.bodies[i].children.unwrap()[m]),
{
    let child = scene.bodies[i].children.unwrap()[m];
    if ids.contains(child) {
        let k = choose|k: int| 0 <= k < ids.len() && ids[k] == child;
        assert(holds(scene.bodies[i].children, ids[k]));
        assert(scene.knows(ids[k]));
    }
}

/// Carrying out what `spec_spawn_text` asks for completes the labels and doubles none.
/// In a scene whose bodies have at most one label each, and with new ids for the
/// labels, every body ends up with exactly one label. A body that had its label keeps
/// it, with all text entities of before as they were. A body that had none gets the one
/// that `mode` asks for. There are then as many text entities more as labels were
/// asked for.
pub proof fn lemma_spawns_complete_the_labels(scene: Scene, mode: TextMode, ids: Seq<u64>)
    requires
        scene.wf(),
        scene.fresh(ids),
        spec_label_for(mode).is_some(),
        ids.len() == spec_spawn_text(mode, scene.bodies, scene.labels.dom()).len(),
        forall|i: int|
            0 <= i < scene.bodies.len() ==> single_label(
                (#[trigger] scene.bodies[i]).children,
                scene.labels.dom(),
            ),
    ensures
        ({
            let spawns = spec_spawn_text(mode, scene.bodies, scene.labels.dom());
            let after = scene.carry_out(spawns, ids);
            &&& after.wf()
            &&& after.bodies.len() == scene.bodies.len()
            &&& after.labels.dom().len() == scene.labels.dom().len() + spawns.len()
            &&& forall|i: int|
                0 <= i < scene.bodies.len() ==> {
                    &&& has_label((#[trigger] after.bodies[i]).children, after.labels.dom())
                    &&& single_label(after.bodies[i].children, after.labels.dom())
                }
            &&& forall|i: int|
                0 <= i < scene.bodies.len() && has_label(
                    (#[trigger] scene.bodies[i]).children,
                    scene.labels.dom(),
                ) ==> after.bodies[i] == scene.bodies[i]
            &&& forall|i: int|
                0 <= i < scene.bodies.len() && !has_label(
                    (#[trigger] scene.bodies[i]).children,
                    scene.labels.dom(),
                ) ==> shows(after.bodies[i].children, after.labels, spec_label_for(mode).unwrap())
            &&& forall|entity: u64|
                scene.labels.dom().contains(entity) ==> #[trigger] after.labels[entity]
                    == scene.labels[entity]
        }),
{
    let texts = scene.labels.dom();
    let label = spec_label_for(mode).unwrap();
    let spawns = spec_spawn_text(mode, scene.bodies, texts);
    let listed = spec_unlabelled(scene.bodies, texts);
    let after = scene.carry_out(spawns, ids);
    let new_texts = after.labels.dom();
    lemma_unlabelled_lists_each_once(scene.bodies, texts);
    assert(spec_parents(spawns) =~= listed);
    lemma_carry_out(scene, spawns, ids);
    assert forall|k: int| 0 <= k < ids.len() implies !texts.contains(#[trigger] ids[k]) by {
        assert(!scene.knows(ids[k]));
    }
    assert(new_texts.len() == texts.len() + ids.len()) by {
        ids.unique_seq_to_set();
        assert(texts.disjoint(ids.to_set()));
        vstd::set_lib::lemma_set_disjoint_lens(texts, ids.to_set());
    }
    assert(distinct_bodies(after.bodies)) by {
        assert forall|i: int, j: int| 0 <= i < j < after.bodies.len() implies (
        #[trigger] after.bodies[i]).entity != (#[trigger] after.bodies[j]).entity by {
            assert(scene.bodies[i].entity != scene.bodies[j].entity);
        }
    }
    assert forall|i: int| 0 <= i < scene.bodies.len() implies {
        &&& has_label((#[trigger] after.bodies[i]).children, new_texts)
        &&& single_label(after.bodies[i].children, new_texts)
        &&& has_label(scene.bodies[i].children, texts) ==> after.bodies[i] == scene.bodies[i]
        &&& !has_label(scene.bodies[i].children, texts) ==> shows(
            after.bodies[i].children,
            after.labels,
            label,
        )
    } by {
        let body = scene.bodies[i];
        if has_label(body.children, texts) {
            // The body is not listed, so it is as before, and its label is still the
            // only one: no new id is among its children.
            if listed.contains(body.entity) {
                let k = choose|k: int| 0 <= k < listed.len() && listed[k] == body.entity;
                assert(is_unlabelled_body(scene.bodies, texts, listed[k]));
            }
            assert(after.bodies[i] == body);
            let children = body.children.unwrap();
            let at = choose|k: int|
                0 <= k < children.len() && texts.contains(#[trigger] children[k]);
            assert(new_texts.contains(children[at]));
            assert forall|k: int, m: int|
                0 <= k < children.len() && 0 <= m < children.len() && new_texts.contains(
                    #[trigger] children[k],
                ) && new_texts.contains(#[trigger] children[m]) implies k == m by {
                lemma_new_ids_are_no_children(scene, ids, i, k);
                lemma_new_ids_are_no_children(scene, ids, i, m);
            }
        } else {
            // The body is listed, at `k`, and has the new label `ids[k]` as its last
            // child. None of its other children is a text entity, old or new.
            let k = choose|k: int| 0 <= k < listed.len() && listed[k] == body.entity;
            assert(spawns[k].parent == body.entity);
            let grown = after.bodies[i].children.unwrap();
            let last = grown.len() - 1;
            assert(grown[last] == ids[k]);
            assert(ids.to_set().contains(ids[k]));
            assert forall|m: int| 0 <= m < last implies !new_texts.contains(grown[m]) by {
                let children = body.children.unwrap();
                assert(grown[m] == children[m]);
                assert(!texts.contains(children[m]));
                lemma_new_ids_are_no_children(scene, ids, i, m);
            }
            assert(after.labels[ids[k]] == label);
        }
    }
    assert forall|entity: u64| texts.contains(entity) implies #[trigger] after.labels[entity]
        == scene.labels[entity] by {
        if ids.contains(entity) {
            let k = choose|k: int| 0 <= k < ids.len() && ids[k] == entity;
            assert(!texts.contains(ids[k]));
        }
    }
}

/// A round of reconciliation gives no body a second label. Of a scene whose bodies have
/// at most one label each, the round for `mode` makes a scene in which that is still
/// so; if `mode` shows labels, every body then has one; and if `mode` shows none and
/// differs from the mode of the round before, no text entity is left.
pub proof fn lemma_reconcile_keeps_labels_single(
    scene: Scene,
    mode: TextMode,
    last_mode: TextMode,
    text_order: Seq<u64>,
    ids: Seq<u64>,
)
    requires
        scene.wf(),
        text_order.to_set() =~= scene.labels.dom(),
        forall|i: int|
            0 <= i < scene.bodies.len() ==> single_label(
                (#[trigger] scene.bodies[i]).children,
                scene.labels.dom(),
            ),
        scene.despawn(spec_despawn_text(mode, last_mode, text_order)).fresh(ids),
        ids.len() == spec_spawn_text(
            mode,
            scene.despawn(spec_despawn_text(mode, last_mode, text_order)).bodies,
            scene.despawn(spec_despawn_text(mode, last_mode, text_order)).labels.dom(),
        ).len(),
    ensures
        ({
            let after = scene.reconcile(mode, last_mode, text_order, ids);
            &&& after.wf()
            &&& after.bodies.len() == scene.bodies.len()
            &&& forall|i: int|
                0 <= i < after.bodies.len() ==> single_label(
                    (#[trigger] after.bodies[i]).children,
                    after.labels.dom(),
                )
            &&& spec_label_for(mode).is_some() ==> forall|i: int|
                0 <= i < after.bodies.len() ==> has_label(
                    (#[trigger] after.bodies[i]).children,
                    after.labels.dom(),
                )
            &&& spec_label_for(mode).is_none() && mode != last_mode ==> after.labels.dom()
                =~= Set::<u64>::empty()
        }),
{
    let cleared = scene.despawn(spec_despawn_text(mode, last_mode, text_order));
    if mode == last_mode {
        lemma_despawn_nothing(scene);
    } else {
        lemma_despawn_all(scene, text_order);
    }
    if spec_label_for(mode).is_some() {
        lemma_spawns_complete_the_labels(cleared, mode, ids);
    }
}

/// One round of reconciliation brings the labels to what the mode asks for. Of a scene
/// that was settled for the mode of the round before, or that has no text entity, the
/// round for `mode` makes a scene that is settled for `mode`: every body has exactly
/// one label, the one of `mode`, and there are as many text entities as bodies; or,
/// with `TextMode::NoText`, there is no text entity at all.
pub proof fn lemma_reconcile_settles(
    scene: Scene,
    mode: TextMode,
    last_mode: TextMode,
    text_order: Seq<u64>,
    ids: Seq<u64>,
)
    requires
        scene.wf(),
        text_order.to_set() =~= scene.labels.dom(),
        scene.settled(last_mode) || scene.labels.dom() =~= Set::<u64>::empty(),
        scene.despawn(spec_despawn_text(mode, last_mode, text_order)).fresh(ids),
        ids.len() == spec_spawn_text(
            mode,
            scene.despawn(spec_despawn_text(mode, last_mode, text_order)).bodies,
            scene.despawn(spec_despawn_text(mode, last_mode, text_order)).labels.dom(),
        ).len(),
    ensures
        scene.reconcile(mode, last_mode, text_order, ids).wf(),
        scene.reconcile(mode, last_mode, text_order, ids).bodies.len() == scene.bodies.len(),
        scene.reconcile(mode, last_mode, text_order, ids).settled(mode),
{
    let cleared = scene.despawn(spec_despawn_text(mode, last_mode, text_order));
    let after = scene.reconcile(mode, last_mode, text_order, ids);
    if mode == last_mode {
        lemma_despawn_nothing(scene);
    } else {
        lemma_despawn_all(scene, text_order);
    }
    if cleared.labels.dom() =~= Set::<u64>::empty() {
        lemma_no_texts_spawns_for_all(mode, cleared.bodies, cleared.labels.dom());
        if spec_label_for(mode).is_some() {
            lemma_spawns_complete_the_labels(cleared, mode, ids);
            assert forall|i: int| 0 <= i < after.bodies.len() implies shows(
                (#[trigger] after.bodies[i]).children,
                after.labels,
                spec_label_for(mode).unwrap(),
            ) by {
                assert(!has_label(cleared.bodies[i].children, cleared.labels.dom()));
            }
        }
    } else {
        lemma_settled_is_stable(scene, mode, text_order);
    }
}

} // verus!
