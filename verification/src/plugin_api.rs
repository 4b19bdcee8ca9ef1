//! Declarative UI types shared with block plugins.
//!
//! Plugins, and the editor core itself, describe a block's visual as a
//! tree of plain [`Element`] values; the host shell maps that tree onto
//! whatever rendering toolkit it uses. Events flow back as [`BlockEvent`]
//! values.

use vstd::prelude::*;

verus! {

/// Declarative UI element returned for rendering.
#[derive(Debug)]
pub enum Element {
    Text(TextElement),
    Heading(HeadingElement),
    Paragraph(ParagraphElement),
    Input(InputElement),
    Button(ButtonElement),
    Row { children: Vec<Element> },
    Column { children: Vec<Element> },
}

/// A run of inline text.
#[derive(Debug, Clone, PartialEq)]
pub struct TextElement {
    pub content: String,
    pub bold: bool,
    pub italic: bool,
    pub code: bool,
}

/// A heading line with a level (1 is the largest).
#[derive(Debug, Clone, PartialEq)]
pub struct HeadingElement {
    pub level: u8,
    pub content: String,
}

/// A paragraph of text, optionally editable in place.
#[derive(Debug, Clone, PartialEq)]
pub struct ParagraphElement {
    pub content: String,
    pub editable: bool,
}

/// A live text input bound to an editable value.
#[derive(Debug, Clone, PartialEq)]
pub struct InputElement {
    pub id: String,
    pub value: String,
    pub placeholder: Option<String>,
    pub multiline: bool,
}

/// A clickable button.
#[derive(Debug, Clone, PartialEq)]
pub struct ButtonElement {
    pub id: String,
    pub label: String,
    pub style: ButtonStyle,
}

/// Visual emphasis of a button.
#[derive(Debug, Clone, Copy, PartialEq, Eq, Structural)]
pub enum ButtonStyle {
    Primary,
    Secondary,
    Danger,
}

impl Default for ButtonStyle {
    /// The default button emphasis.
    fn default() -> (r: Self)
        ensures
            r == ButtonStyle::Primary,
    {
        ButtonStyle::Primary
    }
}

/// Events sent from the host to a plugin.
#[derive(Debug, Clone, PartialEq)]
pub enum BlockEvent {
    InputChanged { input_id: String, value: String },
    ButtonClicked { button_id: String },
    FocusChanged { focused: bool },
}

/// Plugin metadata.
#[derive(Debug, Clone, PartialEq)]
pub struct PluginInfo {
    pub id: String,
    pub name: String,
    pub version: String,
    pub block_kinds: Vec<BlockKindInfo>,
}

/// One block kind a plugin offers.
#[derive(Debug, Clone, PartialEq)]
pub struct BlockKindInfo {
    pub kind: String,
    pub name: String,
    pub icon: Option<String>,
    pub description: Option<String>,
}

} // verus!
