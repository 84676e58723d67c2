//! Keeping the labels in step with the display mode: which labels go when the mode
//! changes, and which bodies get a new one.
//!
//! Entities are known by their 64-bit ids. The functions here read a snapshot of the
//! scene and answer with what is to be done; carrying it out is the caller's part.

use crate::label::{
    spec_plain_label, spec_spanned_label, spec_texts, TextBuilder, TextLabel, TextLabelView,
};
use crate::mode::{TextDisplayMode, TextMode};
use crate::settings::{MULTI_SECTION_TEXT, ONE_SECTION_TEXT};
use std::collections::HashSet;
use vstd::prelude::*;

verus! {

/// A body of the grid as the scene holds it: its id and, if it has any, its children.
#[derive(Clone, Debug, PartialEq, Eq)]
pub struct Body {
    pub entity: u64,
    pub children: Option<Vec<u64>>,
}

/// A `Body` with its children as a sequence.
pub struct BodyView {
    pub entity: u64,
    pub children: Option<Seq<u64>>,
}

impl View for Body {
    type V = BodyView;

    open spec fn view(&self) -> BodyView {
        BodyView {
            entity: self.entity,
            children: match self.children {
                Some(children) => Some(children@),
                None => None,
            },
        }
    }
}

/// A label that is to be created and made a child of `parent`.
#[derive(Clone, Debug, PartialEq, Eq)]
pub struct LabelSpawn {
    pub parent: u64,
    pub label: TextLabel,
}

/// A `LabelSpawn` with the label's texts as sequences of characters.
pub struct LabelSpawnView {
    pub parent: u64,
    pub label: TextLabelView,
}

impl View for LabelSpawn {
    type V = LabelSpawnView;

    open spec fn view(&self) -> LabelSpawnView {
        LabelSpawnView { parent: self.parent, label: self.label@ }
    }
}

/// The views of the given bodies.
pub open spec fn spec_bodies(bodies: Seq<Body>) -> Seq<BodyView> {
    bodies.map_values(|body: Body| body@)
}

/// The views of the given spawns.
pub open spec fn spec_spawns(spawns: Seq<LabelSpawn>) -> Seq<LabelSpawnView> {
    spawns.map_values(|spawn: LabelSpawn| spawn@)
}

/// Whether one of `children` is a text entity, that is, whether their parent has a label.
pub open spec fn has_label(children: Option<Seq<u64>>, texts: Set<u64>) -> bool {
    match children {
        Some(children) => exists|k: int|
            0 <= k < children.len() && texts.contains(#[trigger] children[k]),
        None => false,
    }
}

/// The ids of the bodies that have no label, in the order of `bodies`.
pub open spec fn spec_unlabelled(bodies: Seq<BodyView>, texts: Set<u64>) -> Seq<u64> {
    bodies.filter(|body: BodyView| !has_label(body.children, texts)).map_values(
        |body: BodyView| body.entity,
    )
}

/// The label that `mode` asks for on every body, if it asks for one.
pub open spec fn spec_label_for(mode: TextMode) -> Option<TextLabelView> {
    match mode {
        TextMode::Text2dWithSpan => Some(
            spec_spanned_label(spec_texts(MULTI_SECTION_TEXT@), false),
        ),
        TextMode::Text2d => Some(spec_plain_label(ONE_SECTION_TEXT@)),
        TextMode::Hidden => Some(spec_spanned_label(seq![Seq::<char>::empty()], true)),
        TextMode::NoText => None,
    }
}

/// The text entities that go: all of them if `mode` differs from `last_mode`, else none.
pub open spec fn spec_despawn_text(mode: TextMode, last_mode: TextMode, texts: Seq<u64>) -> Seq<
    u64,
> {
    if mode != last_mode {
        texts
    } else {
        Seq::empty()
    }
}

/// The labels that are created: for each body without a label, in the order of `bodies`,
/// the label that `mode` asks for; none at all if it asks for none.
pub open spec fn spec_spawn_text(mode: TextMode, bodies: Seq<BodyView>, texts: Set<u64>) -> Seq<
    LabelSpawnView,
> {
    match spec_label_for(mode) {
        Some(label) => spec_unlabelled(bodies, texts).map_values(
            |parent: u64| LabelSpawnView { parent, label },
        ),
        None => Seq::empty(),
    }
}

impl Body {
    /// Tells whether the body has a label: a child that is one of `text_entities`.
    pub fn has_label(&self, text_entities: &HashSet<u64>) -> (found: bool)
        ensures
            found == has_label(self@.children, text_entities@),
    {
        match &self.children {
            Some(children) => {
                let mut k: usize = 0;
                while k < children.len()
                    invariant
                        k <= children@.len(),
                        self.children == Some(*children),
                        forall|i: int| 0 <= i < k ==> !text_entities@.contains(children@[i]),
                    decreases children@.len() - k,
                {
                    if text_entities.contains(&children[k]) {
                        assert(text_entities@.contains(self@.children.unwrap()[k as int]));
                        return true;
                    }
                    k += 1;
                }
                false
            },
            None => false,
        }
    }
}

/// Builds the label that `mode` asks for, if it asks for one.
pub fn label_for(mode: TextMode) -> (label: Option<TextLabel>)
    ensures
        match label {
            Some(label) => spec_label_for(mode) == Some(label@),
            None => spec_label_for(mode).is_none(),
        },
{
    match mode {
        TextMode::Text2dWithSpan => Some(TextBuilder::spawn_text_with_span(&MULTI_SECTION_TEXT)),
        TextMode::Text2d => Some(TextBuilder::spawn_text(ONE_SECTION_TEXT)),
        TextMode::Hidden => {
            let sections: &[&str] = &[""];
            proof {
                reveal_strlit("");
                assert(sections@[0]@ =~= Seq::<char>::empty());
                assert(spec_texts(sections@) =~= seq![Seq::<char>::empty()]);
            }
            Some(TextBuilder::spawn_hidden_text(sections))
        },
        TextMode::NoText => None,
    }
}

/// Decides which text entities are removed. When the display mode differs from
/// `last_mode`, every one of `text_entities` goes, and `last_mode` catches up with the
/// display mode. Otherwise none goes.
pub fn despawn_text(
    display_mode: &TextDisplayMode,
    text_entities: &Vec<u64>,
    last_mode: &mut TextMode,
) -> (doomed: Vec<u64>)
    ensures
        doomed@ == spec_despawn_text(display_mode.0, *old(last_mode), text_entities@),
        *final(last_mode) == display_mode.0,
{
    if display_mode.0 != *last_mode {
        *last_mode = display_mode.0;
        text_entities.clone()
    } else {
        Vec::new()
    }
}

/// Decides which labels are created: one for each of `bodies` that has no child among
/// `text_entities`, as the display mode asks for it, and none if the mode is
/// `TextMode::NoText`.
pub fn spawn_text(
    display_mode: &TextDisplayMode,
    bodies: &Vec<Body>,
    text_entities: &HashSet<u64>,
) -> (spawns: Vec<LabelSpawn>)
    ensures
        spec_spawns(spawns@) == spec_spawn_text(
            display_mode.0,
            spec_bodies(bodies@),
            text_entities@,
        ),
{
    let mut spawns: Vec<LabelSpawn> = Vec::new();
    if display_mode.0 != TextMode::NoText {
        let mut i: usize = 0;
        while i < bodies.len()
            invariant
                i <= bodies@.len(),
                display_mode.0 != TextMode::NoText,
                spec_spawns(spawns@) == spec_spawn_text(
                    display_mode.0,
                    spec_bodies(bodies@).take(i as int),
                    text_entities@,
                ),
            decreases bodies@.len() - i,
        {
            let body = &bodies[i];
            proof {
                lemma_spawn_text_step(
                    display_mode.0,
                    spec_bodies(bodies@).take(i as int),
                    body@,
                    text_entities@,
                );
                assert(spec_bodies(bodies@).take(i as int + 1) == spec_bodies(bodies@).take(
                    i as int,
                ).push(body@));
            }
            if !body.has_label(text_entities) {
                if let Some(label) = label_for(display_mode.0) {
                    spawns.push(LabelSpawn { parent: body.entity, label });
                }
            }
            i += 1;
        }
        assert(spec_bodies(bodies@).take(bodies@.len() as int) == spec_bodies(bodies@));
    }
    spawns
}

/// One more body at the end adds one more label at the end if the body has none and
/// the mode asks for one, and changes nothing otherwise.
pub proof fn lemma_spawn_text_step(
    mode: TextMode,
    bodies: Seq<BodyView>,
    body: BodyView,
    texts: Set<u64>,
)
    ensures
        spec_spawn_text(mode, bodies.push(body), texts) == match spec_label_for(mode) {
            Some(label) if !has_label(body.children, texts) => spec_spawn_text(
                mode,
                bodies,
                texts,
            ).push(LabelSpawnView { parent: body.entity, label }),
            _ => spec_spawn_text(mode, bodies, texts),
        },
{
    lemma_unlabelled_step(bodies, body, texts);
}

/// One more body at the end adds its id to the bodies without a label if it has none.
pub proof fn lemma_unlabelled_step(bodies: Seq<BodyView>, body: BodyView, texts: Set<u64>)
    ensures
        spec_unlabelled(bodies.push(body), texts) == if has_label(body.children, texts) {
            spec_unlabelled(bodies, texts)
        } else {
            spec_unlabelled(bodies, texts).push(body.entity)
        },
{
    reveal(Seq::filter);
    assert(bodies.push(body).drop_last() == bodies);
}

/// The two modes that show text say the same: the sections of the spanned label, read
/// one after the other, are the text of the label in one piece.
pub proof fn lemma_spanned_and_plain_say_the_same()
    ensures
        spec_label_for(TextMode::Text2dWithSpan).unwrap().content() == ONE_SECTION_TEXT@,
        spec_label_for(TextMode::Text2d).unwrap().content() == ONE_SECTION_TEXT@,
{
    reveal_strlit("Lorem ipsum");
    reveal_strlit("\ndolor sit");
    reveal_strlit("\namet");
    reveal_strlit("Lorem ipsum\ndolor sit\namet");
    let spanned = spec_label_for(TextMode::Text2dWithSpan).unwrap();
    let values = spanned.spans.map_values(|span: crate::label::TextSectionView| span.value);
    assert(values =~= seq!["Lorem ipsum"@, "\ndolor sit"@, "\namet"@]);
    assert(values.flatten() =~= ONE_SECTION_TEXT@) by {
        reveal_with_fuel(Seq::flatten, 4);
    }
}

} // verus!
