//! The text display mode and the order in which it cycles.

use vstd::prelude::*;

verus! {

/// How the labels of the grid are shown.
#[derive(Clone, Copy, Debug, PartialEq, Eq, Structural)]
pub enum TextMode {
    /// A label made of an empty root with one span per text section.
    Text2dWithSpan,
    /// A label that holds the whole text in one piece.
    Text2d,
    /// A label that is built like a spanned one but is kept out of sight.
    Hidden,
    /// No label at all.
    NoText,
}

impl TextMode {
    /// The mode that follows `self` in the cycle.
    pub open spec fn spec_next(self) -> TextMode {
        match self {
            TextMode::Text2dWithSpan => TextMode::Text2d,
            TextMode::Text2d => TextMode::Hidden,
            TextMode::Hidden => TextMode::NoText,
            TextMode::NoText => TextMode::Text2dWithSpan,
        }
    }

    /// The name of the mode, as it is announced.
    pub open spec fn spec_name(self) -> Seq<char> {
        match self {
            TextMode::Text2dWithSpan => "Text2dWithSpan"@,
            TextMode::Text2d => "Text2d"@,
            TextMode::Hidden => "Hidden"@,
            TextMode::NoText => "None"@,
        }
    }

    /// The mode reached from `self` by `triggers` steps of the cycle.
    pub open spec fn after_triggers(self, triggers: nat) -> TextMode
        decreases triggers,
    {
        if triggers == 0 {
            self
        } else {
            self.after_triggers((triggers - 1) as nat).spec_next()
        }
    }

    /// Advances the mode by one step of the cycle.
    pub fn next(self) -> (following: TextMode)
        ensures
            following == self.spec_next(),
    {
        match self {
            TextMode::Text2dWithSpan => TextMode::Text2d,
            TextMode::Text2d => TextMode::Hidden,
            TextMode::Hidden => TextMode::NoText,
            TextMode::NoText => TextMode::Text2dWithSpan,
        }
    }

    /// Gives the name of the mode, as it is announced.
    pub fn name(self) -> (name: &'static str)
        ensures
            name@ == self.spec_name(),
    {
        match self {
            TextMode::Text2dWithSpan => "Text2dWithSpan",
            TextMode::Text2d => "Text2d",
            TextMode::Hidden => "Hidden",
            TextMode::NoText => "None",
        }
    }

    /// Four triggers bring every mode back to itself, and fewer do not: the modes
    /// reached after zero, one, two and three triggers are four different ones.
    pub proof fn lemma_cycle_has_four_states(self)
        ensures
            self.after_triggers(4) == self,
            forall|i: nat, j: nat|
                i < j < 4 ==> #[trigger] self.after_triggers(i) != #[trigger] self.after_triggers(
                    j,
                ),
    {
        reveal_with_fuel(TextMode::after_triggers, 5);
    }

    /// Every mode is reached from every other within three triggers, so the cycle
    /// leaves no mode out.
    pub proof fn lemma_cycle_reaches(self, target: TextMode)
        ensures
            exists|triggers: nat| triggers < 4 && self.after_triggers(triggers) == target,
    {
        reveal_with_fuel(TextMode::after_triggers, 5);
        assert(self.after_triggers(0) == target || self.after_triggers(1) == target
            || self.after_triggers(2) == target || self.after_triggers(3) == target);
    }

    /// Only the number of triggers modulo four matters.
    pub proof fn lemma_cycle_period(self, triggers: nat)
        ensures
            self.after_triggers(triggers) == self.after_triggers(triggers % 4),
        decreases triggers,
    {
        reveal_with_fuel(TextMode::after_triggers, 5);
        if triggers >= 4 {
            self.lemma_cycle_period((triggers - 4) as nat);
            assert(self.after_triggers(triggers) == self.after_triggers(
                (triggers - 4) as nat,
            ).after_triggers(4)) by {
                self.lemma_after_triggers_splits((triggers - 4) as nat, 4);
            }
            self.after_triggers((triggers - 4) as nat).lemma_cycle_has_four_states();
        }
    }

    /// Triggers add up: `first + second` triggers are `first` triggers followed by
    /// `second` more.
    pub proof fn lemma_after_triggers_splits(self, first: nat, second: nat)
        ensures
            self.after_triggers(first + second) == self.after_triggers(first).after_triggers(
                second,
            ),
        decreases second,
    {
        if second > 0 {
            self.lemma_after_triggers_splits(first, (second - 1) as nat);
        }
    }
}

impl Default for TextMode {
    /// The mode in which the scene starts.
    fn default() -> (mode: TextMode)
        ensures
            mode == TextMode::Text2dWithSpan,
    {
        TextMode::Text2dWithSpan
    }
}

/// The display mode that is currently asked for.
#[derive(Clone, Copy, Debug, PartialEq, Eq, Structural)]
pub struct TextDisplayMode(pub TextMode);

impl Default for TextDisplayMode {
    fn default() -> (display_mode: TextDisplayMode)
        ensures
            display_mode.0 == TextMode::Text2dWithSpan,
    {
        TextDisplayMode(TextMode::Text2dWithSpan)
    }
}

/// Handles the trigger key. If it was just pressed, `display_mode` moves one step along
/// the cycle and the new mode is returned, so that the caller can announce it. If not,
/// nothing changes and `None` is returned.
pub fn change_text_display_mode(
    trigger_just_pressed: bool,
    display_mode: &mut TextDisplayMode,
) -> (announced: Option<TextMode>)
    ensures
        trigger_just_pressed ==> final(display_mode).0 == old(display_mode).0.spec_next()
            && announced == Some(final(display_mode).0),
        !trigger_just_pressed ==> *final(display_mode) == *old(display_mode) && announced.is_none(),
{
    if trigger_just_pressed {
        display_mode.0 = display_mode.0.next();
        Some(display_mode.0)
    } else {
        None
    }
}

} // verus!
