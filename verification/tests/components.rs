use iced_longbridge::breadcrumb::{crumb_roles, Crumb};
use iced_longbridge::button_group::{segment_corners, GroupButton};
use iced_longbridge::code_editor::Language;
use iced_longbridge::dialog::{DialogAction, DialogVariant};
use iced_longbridge::form::{field_label, field_note, FieldNote};
use iced_longbridge::menu::MenuItem;
use iced_longbridge::menu_bar::{menu_trigger, MenuBarMenu, MenuTrigger};
use iced_longbridge::sidebar::SidebarItem;
use iced_longbridge::otp_input::{otp_cell_text, otp_next_value};
use iced_longbridge::table::{
    header_sort_dir, key_to_nav, resize_step, zebra_row, Drag, Key, NamedKey, NavEvent, ResizeAction, ResizeStep,
    SortDir,
};
use iced_longbridge::time_picker::{spinner_steps, time_label, time_picker_label, TimeOfDay};
use iced_longbridge::icon::Icon;
use iced_longbridge::tree::{tree_rows, TreeNode};
use iced_longbridge::variants::{AlertVariant, BadgeVariant, TagVariant, Variant};
use iced_longbridge::virtual_list::visible_window;

#[test]
fn languages() {
    assert_eq!(Language::Rust.extension(), "rs");
    assert_eq!(Language::Markdown.extension(), "md");
    assert_eq!(Language::JavaScript.label(), "JavaScript");
    assert_eq!(Language::Json.label(), "JSON");
    assert_eq!(Language::all().len(), 9);
    assert_eq!(Language::all()[8], Language::Shell);
}

#[test]
fn builders_and_defaults() {
    let c: Crumb<u8> = Crumb::new("Home").on_press(3);
    assert_eq!(c.label, "Home");
    assert_eq!(c.on_press, Some(3));
    let b = GroupButton::new("One", 1u8).active(true);
    assert!(b.active);
    assert!(!GroupButton::new("Two", 2u8).active);
    let a = DialogAction::new("OK", ()).primary();
    assert!(a.primary && a.label == "OK");
    assert_eq!(DialogVariant::default(), DialogVariant::Default);
    assert_eq!(AlertVariant::default(), AlertVariant::Default);
    assert_eq!(BadgeVariant::default(), BadgeVariant::Default);
    assert_eq!(TagVariant::default(), TagVariant::Default);
    assert_eq!(Variant::default(), Variant::Primary);
}

#[test]
fn breadcrumb_roles() {
    let crumbs = vec![Crumb::new("a").on_press(1u8), Crumb::new("b"), Crumb::new("c").on_press(3)];
    let roles = crumb_roles(&crumbs);
    assert!(roles[0].is_link && roles[0].separator_after && !roles[0].is_last);
    assert!(!roles[1].is_link && roles[1].separator_after);
    assert!(roles[2].is_last && !roles[2].is_link && !roles[2].separator_after);
    assert_eq!(segment_corners(0, 3), (true, false));
    assert_eq!(segment_corners(2, 3), (false, true));
    assert_eq!(segment_corners(0, 1), (true, true));
}

#[test]
fn otp() {
    assert_eq!(otp_next_value("12", 4, 2, "3"), ("123".to_string(), Some(3)));
    assert_eq!(otp_next_value("123", 4, 3, "89"), ("1239".to_string(), None));
    assert_eq!(otp_next_value("1234", 4, 3, ""), ("123".to_string(), None));
    assert_eq!(otp_next_value("1234", 4, 1, ""), ("1 34".to_string(), None));
    assert_eq!(otp_next_value("123456", 4, 0, "9"), ("9234".to_string(), Some(1)));
    assert_eq!(otp_cell_text("1 3", 1), "");
    assert_eq!(otp_cell_text("1 3", 2), "3");
    assert_eq!(otp_cell_text("1 3", 5), "");
}

#[test]
fn table_decisions() {
    assert_eq!(key_to_nav(&Key::Named(NamedKey::ArrowUp)), Some(NavEvent::Up));
    assert_eq!(key_to_nav(&Key::Named(NamedKey::Enter)), Some(NavEvent::Activate));
    assert_eq!(key_to_nav(&Key::Named(NamedKey::Other)), None);
    assert_eq!(key_to_nav(&Key::Character), None);
    assert_eq!(header_sort_dir(Some(("name", SortDir::Desc)), Some("name")), Some(SortDir::Desc));
    assert_eq!(header_sort_dir(Some(("name", SortDir::Desc)), Some("age")), None);
    assert_eq!(header_sort_dir(None, Some("age")), None);
    assert_eq!(header_sort_dir(Some(("name", SortDir::Asc)), None), None);
    assert!(zebra_row(true, 1) && !zebra_row(true, 2) && !zebra_row(false, 1));
}

#[test]
fn time_picker_values() {
    assert_eq!(spinner_steps(23, 24), (0, 22));
    assert_eq!(spinner_steps(0, 60), (1, 59));
    assert_eq!(time_label(9, 5, 7, false), "09:05");
    assert_eq!(time_label(9, 5, 7, true), "09:05:07");
    assert_eq!(time_label(123, 10, 0, true), "123:10:00");
}

#[test]
fn virtual_window() {
    let w = visible_window(10, 5, 100);
    assert_eq!((w.first, w.last, w.trailing), (6, 19, 81));
    let w = visible_window(2, 5, 10);
    assert_eq!((w.first, w.last, w.trailing), (0, 10, 0));
    let w = visible_window(50, 5, 10);
    assert_eq!((w.first, w.last, w.trailing), (46, 10, 0));
}

#[test]
fn tree_visible_rows() {
    let nodes = vec![
        TreeNode::new("a", "A").child(TreeNode::new("a1", "A1").child(TreeNode::new("a11", "A11"))),
        TreeNode::new("b", "B"),
    ];
    let rows = tree_rows(&nodes, &vec![], None);
    assert_eq!(rows.iter().map(|r| r.id.clone()).collect::<Vec<_>>(), vec!["a", "b"]);
    assert!(rows[0].has_children && !rows[0].expanded && !rows[1].has_children);
    let rows = tree_rows(&nodes, &vec!["a".to_string(), "a1".to_string()], Some("a11"));
    assert_eq!(rows.iter().map(|r| r.id.clone()).collect::<Vec<_>>(), vec!["a", "a1", "a11", "b"]);
    assert_eq!(rows.iter().map(|r| r.depth).collect::<Vec<_>>(), vec![0, 1, 2, 0]);
    assert!(rows[2].selected && !rows[0].selected);
    let rows = tree_rows(&nodes, &vec!["a1".to_string()], None);
    assert_eq!(rows.len(), 2);
}

#[test]
fn time_picker_label_reads_the_time() {
    let t = TimeOfDay { hour: 9, minute: 5, second: 7 };
    assert_eq!(time_picker_label(t, true), "09:05:07");
    assert_eq!(time_picker_label(t, false), "09:05");
    let t = TimeOfDay { hour: 23, minute: 59, second: 0 };
    assert_eq!(time_picker_label(t, true), "23:59:00");
}

#[test]
fn form_field_label_and_note() {
    assert_eq!(field_label("Email", true), "Email *");
    assert_eq!(field_label("Email", false), "Email");
    assert_eq!(field_label("", true), " *");
    let help = Some("We never share it".to_string());
    let error = Some("Required".to_string());
    assert_eq!(field_note(help.clone(), error.clone()), Some(FieldNote::Error("Required".to_string())));
    assert_eq!(field_note(help, None), Some(FieldNote::Help("We never share it".to_string())));
    assert_eq!(field_note(None, None), None);
}

#[test]
fn menu_bar_triggers() {
    assert_eq!(menu_trigger(None, 0), MenuTrigger { open: false, switch_on_hover: false });
    assert_eq!(menu_trigger(Some(1), 1), MenuTrigger { open: true, switch_on_hover: false });
    assert_eq!(menu_trigger(Some(1), 2), MenuTrigger { open: false, switch_on_hover: true });
}

#[test]
fn resize_drag_steps() {
    let (d, a) = resize_step(None, ResizeStep::Move, 3);
    assert_eq!((d, a), (None, ResizeAction::Keep));
    let (d, a) = resize_step(None, ResizeStep::Grab(1), 3);
    assert_eq!((d, a), (Some(Drag { col: 1, moved: false }), ResizeAction::Keep));
    // The first move only records the pointer.
    let (d, a) = resize_step(d, ResizeStep::Move, 3);
    assert_eq!((d, a), (Some(Drag { col: 1, moved: true }), ResizeAction::Keep));
    let (d, a) = resize_step(d, ResizeStep::Move, 3);
    assert_eq!((d, a), (Some(Drag { col: 1, moved: true }), ResizeAction::Resize(1)));
    let (d, a) = resize_step(d, ResizeStep::Release, 3);
    assert_eq!((d, a), (None, ResizeAction::Keep));
    // A grabbed column past the last one is never resized.
    let d = Some(Drag { col: 5, moved: true });
    assert_eq!(resize_step(d, ResizeStep::Move, 3).1, ResizeAction::Keep);
}

#[test]
fn icons_carry_their_svg() {
    let h = iced::widget::svg::Handle::from_memory(b"<svg/>".to_vec());
    let icon = Icon::from_svg_handle(h.clone());
    assert_eq!(icon.0, h);
    let from: Icon = h.clone().into();
    assert_eq!(from.0, h);
    let bytes = Icon::from_svg_bytes(b"<svg/>".to_vec());
    assert_eq!(bytes.0.id(), h.id());
    let path = Icon::from_svg_path("icons/leaf.svg");
    assert_ne!(path.0.id(), h.id());
    let node = TreeNode::new("n", "Node").icon(icon.clone());
    let rows = tree_rows(&vec![node], &vec![], None);
    assert_eq!(rows[0].icon.as_ref().map(|i| i.0.clone()), Some(h));
}

#[test]
fn menu_items_and_bar_menus() {
    let h = iced::widget::svg::Handle::from_memory(b"<svg/>".to_vec());
    let item = MenuItem::new("Delete", 7u8).icon(Icon::from_svg_handle(h.clone())).shortcut("Del").danger();
    match &item {
        MenuItem::Action { label, icon, shortcut, on_press, danger, disabled } => {
            assert_eq!(label, "Delete");
            assert_eq!(icon.as_ref().map(|i| i.0.clone()), Some(h.clone()));
            assert_eq!(shortcut.as_deref(), Some("Del"));
            assert_eq!(*on_press, 7);
            assert!(*danger && !*disabled);
        }
        _ => panic!("not an action"),
    }
    let sep: MenuItem<u8> = MenuItem::Separator.danger().disabled().shortcut("x");
    assert!(matches!(sep, MenuItem::Separator));
    let header: MenuItem<u8> = MenuItem::Header("File".to_string()).icon(Icon::from_svg_handle(h));
    assert!(matches!(header, MenuItem::Header(ref t) if t == "File"));
    let off = MenuItem::new("Paste", 1u8).disabled();
    assert!(matches!(off, MenuItem::Action { disabled: true, danger: false, .. }));
    let bar = MenuBarMenu::new("Edit", 3u8, vec![item, off]);
    assert_eq!(bar.label, "Edit");
    assert_eq!(bar.on_toggle, 3);
    assert_eq!(bar.items.len(), 2);
}

#[test]
fn sidebar_items() {
    let i: SidebarItem<u8> = SidebarItem::new("Inbox");
    assert!(i.icon.is_none() && i.badge.is_none() && i.on_press.is_none() && !i.active);
    let i = i.badge("3").active(true).on_press(9);
    assert_eq!(i.label, "Inbox");
    assert_eq!(i.badge.as_deref(), Some("3"));
    assert_eq!(i.on_press, Some(9));
    assert!(i.active);
}

#[test]
fn icon_handles_depend_on_their_source_alone() {
    let a = Icon::from_svg_path("icons/leaf.svg");
    let b = Icon::from_svg_path("icons/leaf.svg");
    assert_eq!(a.0, b.0);
    assert_eq!(a.0, iced::widget::svg::Handle::from_path("icons/leaf.svg"));
    assert_ne!(a.0, Icon::from_svg_path("icons/root.svg").0);
    let x = Icon::from_svg_bytes(b"<svg/>".to_vec());
    let y = Icon::from_svg_bytes(b"<svg/>".to_vec());
    assert_eq!(x.0, y.0);
    assert_ne!(x.0, Icon::from_svg_bytes(b"<svg></svg>".to_vec()).0);
}
