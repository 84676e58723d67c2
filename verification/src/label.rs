//! Descriptions of text labels: what a label says, in which pieces, and whether it shows.

use crate::settings::FONT_SIZE;
use vstd::prelude::*;

verus! {

/// How the lines of a label are aligned.
#[derive(Clone, Copy, Debug, PartialEq, Eq, Structural)]
pub enum JustifyText {
    Left,
    Center,
    Right,
    Justified,
}

/// One span of a label: a piece of text with its own font size.
#[derive(Clone, Debug, PartialEq, Eq)]
pub struct TextSection {
    pub value: String,
    pub font_size: u32,
}

/// A `TextSection` with its text as a sequence of characters.
pub struct TextSectionView {
    pub value: Seq<char>,
    pub font_size: u32,
}

impl View for TextSection {
    type V = TextSectionView;

    open spec fn view(&self) -> TextSectionView {
        TextSectionView { value: self.value@, font_size: self.font_size }
    }
}

/// A text label: a root text followed by any number of spans.
#[derive(Clone, Debug, PartialEq, Eq)]
pub struct TextLabel {
    /// Text of the root.
    pub text: String,
    /// Font size of the root; `None` leaves it at the renderer's default.
    pub font_size: Option<u32>,
    /// Alignment of the whole label.
    pub justify: JustifyText,
    /// The spans, in reading order.
    pub spans: Vec<TextSection>,
    /// Whether the label is kept out of sight.
    pub hidden: bool,
}

/// A `TextLabel` with its texts as sequences of characters.
pub struct TextLabelView {
    pub text: Seq<char>,
    pub font_size: Option<u32>,
    pub justify: JustifyText,
    pub spans: Seq<TextSectionView>,
    pub hidden: bool,
}

impl View for TextLabel {
    type V = TextLabelView;

    open spec fn view(&self) -> TextLabelView {
        TextLabelView {
            text: self.text@,
            font_size: self.font_size,
            justify: self.justify,
            spans: self.spans@.map_values(|span: TextSection| span@),
            hidden: self.hidden,
        }
    }
}

impl TextLabelView {
    /// Everything the label says: the root text, then each span's text.
    pub open spec fn content(self) -> Seq<char> {
        self.text + self.spans.map_values(|span: TextSectionView| span.value).flatten()
    }
}

/// The characters of each of the given texts.
pub open spec fn spec_texts(texts: Seq<&str>) -> Seq<Seq<char>> {
    texts.map_values(|text: &str| text@)
}

/// The label with an empty root and one span for each section.
pub open spec fn spec_spanned_label(sections: Seq<Seq<char>>, hidden: bool) -> TextLabelView {
    TextLabelView {
        text: Seq::empty(),
        font_size: None,
        justify: JustifyText::Center,
        spans: sections.map_values(
            |value: Seq<char>| TextSectionView { value, font_size: FONT_SIZE },
        ),
        hidden,
    }
}

/// The label that holds `text` in its root and has no spans.
pub open spec fn spec_plain_label(text: Seq<char>) -> TextLabelView {
    TextLabelView {
        text,
        font_size: Some(FONT_SIZE),
        justify: JustifyText::Center,
        spans: Seq::empty(),
        hidden: false,
    }
}

/// Builds the descriptions of the labels.
pub struct TextBuilder;

impl TextBuilder {
    /// A visible, centred label with an empty root and one span of size `FONT_SIZE`
    /// for each of `text_sections`.
    pub fn spawn_text_with_span(text_sections: &[&str]) -> (label: TextLabel)
        ensures
            label@ == spec_spanned_label(spec_texts(text_sections@), false),
    {
        let mut spans: Vec<TextSection> = Vec::new();
        let mut i: usize = 0;
        while i < text_sections.len()
            invariant
                i <= text_sections@.len(),
                spans@.len() == i,
                forall|k: int|
                    0 <= k < i ==> (#[trigger] spans@[k])@ == (TextSectionView {
                        value: text_sections@[k]@,
                        font_size: FONT_SIZE,
                    }),
            decreases text_sections@.len() - i,
        {
            spans.push(TextSection { value: text_sections[i].to_string(), font_size: FONT_SIZE });
            i += 1;
        }
        let label = TextLabel {
            text: String::new(),
            font_size: None,
            justify: JustifyText::Center,
            spans,
            hidden: false,
        };
        assert(label@.spans =~= spec_spanned_label(spec_texts(text_sections@), false).spans);
        label
    }

    /// The same label as `spawn_text_with_span` builds, for callers that speak of
    /// sections.
    pub fn spawn_text_multi_sections(text_sections: &[&str]) -> (label: TextLabel)
        ensures
            label@ == spec_spanned_label(spec_texts(text_sections@), false),
    {
        Self::spawn_text_with_span(text_sections)
    }

    /// A visible, centred label that holds `text` in one piece, at size `FONT_SIZE`.
    pub fn spawn_text(text: &str) -> (label: TextLabel)
        ensures
            label@ == spec_plain_label(text@),
    {
        let label = TextLabel {
            text: text.to_string(),
            font_size: Some(FONT_SIZE),
            justify: JustifyText::Center,
            spans: Vec::new(),
            hidden: false,
        };
        assert(label@.spans =~= Seq::empty());
        label
    }

    /// The label of `spawn_text_with_span`, kept out of sight.
    pub fn spawn_hidden_text(text_sections: &[&str]) -> (label: TextLabel)
        ensures
            label@ == spec_spanned_label(spec_texts(text_sections@), true),
    {
        let mut label = Self::spawn_text_with_span(text_sections);
        label.hidden = true;
        label
    }
}

} // verus!
