use vstd::prelude::*;

verus! {

/// A terminal foreground or background color.
#[derive(Clone, Copy, PartialEq, Eq, Structural, Debug)]
pub enum Color {
    Black,
    Red,
    Green,
    Yellow,
    Blue,
    Magenta,
    Cyan,
    White,
    Grey,
}

/// Text attributes that can decorate a styled span.
#[derive(Clone, Copy, PartialEq, Eq, Structural, Debug)]
pub struct Attributes {
    pub bold: bool,
    pub italic: bool,
    pub underline: bool,
}

impl Attributes {
    /// No attribute set.
    pub fn empty() -> (r: Attributes)
        ensures
            r == (Attributes { bold: false, italic: false, underline: false }),
    {
        Attributes { bold: false, italic: false, underline: false }
    }
}

/// How one visual element is painted: optional colors plus attributes.
#[derive(Clone, Copy, PartialEq, Eq, Structural, Debug)]
pub struct StyleSheet {
    pub fg: Option<Color>,
    pub bg: Option<Color>,
    pub attrs: Attributes,
}

impl StyleSheet {
    /// The neutral style: default colors, no attributes.
    pub fn empty() -> (r: StyleSheet)
        ensures
            r == spec_empty_style(),
    {
        StyleSheet {
            fg: None,
            bg: None,
            attrs: Attributes { bold: false, italic: false, underline: false },
        }
    }

    /// The same sheet with the foreground replaced.
    pub fn with_fg(self, c: Color) -> (r: StyleSheet)
        ensures
            r == (StyleSheet { fg: Some(c), ..self }),
    {
        StyleSheet { fg: Some(c), ..self }
    }

    /// The same sheet with the background replaced.
    pub fn with_bg(self, c: Color) -> (r: StyleSheet)
        ensures
            r == (StyleSheet { bg: Some(c), ..self }),
    {
        StyleSheet { bg: Some(c), ..self }
    }
}

/// The neutral style as a spec-level constant.
pub open spec fn spec_empty_style() -> StyleSheet {
    StyleSheet {
        fg: None,
        bg: None,
        attrs: Attributes { bold: false, italic: false, underline: false },
    }
}

/// A run of text painted with one style; frames are sequences of lines,
/// and a line is a sequence of spans.
#[derive(Clone, PartialEq, Eq, Debug)]
pub struct StyledSpan {
    pub text: Vec<char>,
    pub style: StyleSheet,
}

/// The mathematical value of a span: its characters and its style.
pub struct SpanModel {
    pub text: Seq<char>,
    pub style: StyleSheet,
}

impl StyledSpan {
    /// The span's mathematical value.
    pub open spec fn model(self) -> SpanModel {
        SpanModel { text: self.text@, style: self.style }
    }
}

/// The mathematical value of one rendered line.
pub open spec fn line_model(l: Vec<StyledSpan>) -> Seq<SpanModel> {
    l@.map_values(|s: StyledSpan| s.model())
}

/// Maps each named UI role to the style it is painted with.
///
/// A `RenderConfig` is immutable configuration, supplied once when a backend
/// is built and shared by every render of that prompt's lifetime.
#[derive(Clone, Copy, PartialEq, Eq, Structural, Debug)]
pub struct RenderConfig {
    pub prompt_prefix: StyleSheet,
    pub prompt: StyleSheet,
    pub answer: StyleSheet,
    pub help_message: StyleSheet,
    pub error_message: StyleSheet,
    pub option: StyleSheet,
    pub highlighted_option: StyleSheet,
    pub selected_marker: StyleSheet,
    pub page_indicator: StyleSheet,
}

/// The configuration `RenderConfig::default()` returns.
pub open spec fn spec_default_render_config() -> RenderConfig {
    RenderConfig {
        prompt_prefix: StyleSheet {
            fg: Some(Color::Green),
            bg: None,
            attrs: Attributes { bold: false, italic: false, underline: false },
        },
        prompt: spec_empty_style(),
        answer: StyleSheet {
            fg: Some(Color::Cyan),
            bg: None,
            attrs: Attributes { bold: false, italic: false, underline: false },
        },
        help_message: StyleSheet {
            fg: Some(Color::Cyan),
            bg: None,
            attrs: Attributes { bold: false, italic: false, underline: false },
        },
        error_message: StyleSheet {
            fg: Some(Color::Red),
            bg: None,
            attrs: Attributes { bold: false, italic: false, underline: false },
        },
        option: spec_empty_style(),
        highlighted_option: StyleSheet {
            fg: Some(Color::Cyan),
            bg: None,
            attrs: Attributes { bold: false, italic: false, underline: false },
        },
        selected_marker: StyleSheet {
            fg: Some(Color::Green),
            bg: None,
            attrs: Attributes { bold: false, italic: false, underline: false },
        },
        page_indicator: StyleSheet {
            fg: Some(Color::Grey),
            bg: None,
            attrs: Attributes { bold: false, italic: false, underline: false },
        },
    }
}

impl Default for RenderConfig {
    /// The stock color scheme used when a caller supplies no configuration.
    fn default() -> (r: RenderConfig)
        ensures
            r == spec_default_render_config(),
    {
        let plain = StyleSheet::empty();
        RenderConfig {
            prompt_prefix: plain.with_fg(Color::Green),
            prompt: plain,
            answer: plain.with_fg(Color::Cyan),
            help_message: plain.with_fg(Color::Cyan),
            error_message: plain.with_fg(Color::Red),
            option: plain,
            highlighted_option: plain.with_fg(Color::Cyan),
            selected_marker: plain.with_fg(Color::Green),
            page_indicator: plain.with_fg(Color::Grey),
        }
    }
}

} // verus!
