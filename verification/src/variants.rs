//! Style variants of the simple components.

use vstd::prelude::*;

verus! {

/// Color scheme of an alert.
#[derive(Debug, Clone, Copy, PartialEq, Eq)]
pub enum AlertVariant {
    Default,
    Info,
    Success,
    Warning,
    Danger,
}

impl Default for AlertVariant {
    fn default() -> (r: AlertVariant)
        ensures
            r == AlertVariant::Default,
    {
        AlertVariant::Default
    }
}

/// Color scheme of a badge.
#[derive(Debug, Clone, Copy, PartialEq, Eq)]
pub enum BadgeVariant {
    Default,
    Secondary,
    Outline,
    Danger,
    Success,
    Warning,
    Info,
}

impl Default for BadgeVariant {
    fn default() -> (r: BadgeVariant)
        ensures
            r == BadgeVariant::Default,
    {
        BadgeVariant::Default
    }
}

/// Color scheme of a tag.
#[derive(Debug, Clone, Copy, PartialEq, Eq)]
pub enum TagVariant {
    Default,
    Secondary,
    Outline,
    Danger,
    Success,
    Warning,
    Info,
}

impl Default for TagVariant {
    fn default() -> (r: TagVariant)
        ensures
            r == TagVariant::Default,
    {
        TagVariant::Default
    }
}

/// Color scheme of a button.
#[derive(Debug, Clone, Copy, PartialEq, Eq)]
pub enum Variant {
    Primary,
    Secondary,
    Outline,
    /// No background and no border until hovered.
    Plain,
    Danger,
    Success,
    Warning,
    Info,
    Link,
}

impl Default for Variant {
    fn default() -> (r: Variant)
        ensures
            r == Variant::Primary,
    {
        Variant::Primary
    }
}

/// The edge a sheet slides in from.
#[derive(Debug, Clone, Copy, PartialEq, Eq)]
pub enum Side {
    Left,
    Right,
    Top,
    Bottom,
}

} // verus!
