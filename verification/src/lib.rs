//! Verified core of a component library for iced applications: the parts of
//! the components that decide, parse or compute, with their contracts.
//!
//! Rendering through iced stays outside this crate; the functions here take
//! and return plain values.

pub mod alignment;
pub mod breadcrumb;
pub mod button_group;
pub mod calendar;
pub mod code_editor;
pub mod color;
pub mod dialog;
pub mod form;
pub mod html;
pub mod icon;
pub mod menu;
pub mod menu_bar;
pub mod notification;
pub mod otp_input;
pub mod sidebar;
pub mod table;
pub mod text;
pub mod time_picker;
pub mod tree;
pub mod variants;
pub mod virtual_list;

