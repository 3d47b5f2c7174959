//! The layout document model: a front matter and a flat list of component
//! nodes with their layout and accessibility properties.

use vstd::prelude::*;

verus! {

/// The front matter of a layout template.
#[derive(Debug)]
pub struct FrontMatter {
    pub id: String,
    pub title: Option<String>,
}

/// The kinds of component a layout places.
#[derive(Debug, Clone, Copy, PartialEq, Eq, Structural)]
pub enum ComponentKind {
    TerminalPane,
    OverlayRegion,
    MenuBar,
    Unknown,
}

/// How a node lays out its children.
#[derive(Debug, Clone, Copy, PartialEq, Eq, Structural)]
pub enum Display {
    Flex,
    Grid,
    Absolute,
}

/// The main axis of a flex layout.
#[derive(Debug, Clone, Copy, PartialEq, Eq, Structural)]
pub enum FlexDirection {
    Row,
    Column,
}

/// The layout properties of a node that the compiler sets. The fractional
/// properties (flex growth, padding and margin) keep their defaults of 1 and 0
/// and are added where the document is serialised.
#[derive(Debug)]
pub struct LayoutProps {
    pub display: Display,
    pub flex_direction: FlexDirection,
    pub z_index: i32,
}

impl Default for LayoutProps {
    fn default() -> (r: Self)
        ensures
            r.display == Display::Flex,
            r.flex_direction == FlexDirection::Column,
            r.z_index == 0,
    {
        LayoutProps { display: Display::Flex, flex_direction: FlexDirection::Column, z_index: 0 }
    }
}

/// Accessibility metadata of a node.
#[derive(Debug)]
pub struct AccessibilityProps {
    pub label: Option<String>,
    pub tab_index: i32,
    pub mnemonic: Option<String>,
    pub role: Option<String>,
}

impl Default for AccessibilityProps {
    fn default() -> (r: Self)
        ensures
            r.label is None,
            r.tab_index == 0,
            r.mnemonic is None,
            r.role is None,
    {
        AccessibilityProps { label: None, tab_index: 0, mnemonic: None, role: None }
    }
}

/// One component of a layout.
#[derive(Debug)]
pub struct LayoutNode {
    pub id: String,
    pub component: ComponentKind,
    pub layout: LayoutProps,
    pub accessibility: AccessibilityProps,
}

/// A compiled layout template.
#[derive(Debug)]
pub struct LayoutDocument {
    pub meta: FrontMatter,
    pub nodes: Vec<LayoutNode>,
}

} // verus!
