use barust::utils::{Position, Rectangle};
use barust::widgets::systray::{
    child_offsets, needs_reconfigure, selection_owner, tray_action, tray_icon_size, tray_size, tray_y,
    ChildChange, SelectionOwner, SystrayEvent, TrayAction, TrayChildren,
};
use barust::widgets::Size;

#[test]
fn tray_actions_for_events() {
    assert_eq!(tray_action(&SystrayEvent::ClientMessage(Some([0, 0, 42, 0, 0])), Some(7)), TrayAction::Dock(42));
    assert_eq!(tray_action(&SystrayEvent::ClientMessage(Some([0, 1, 42, 0, 0])), Some(7)), TrayAction::Ignore);
    assert_eq!(tray_action(&SystrayEvent::ClientMessage(None), Some(7)), TrayAction::Ignore);
    assert_eq!(tray_action(&SystrayEvent::DestroyNotify(9), None), TrayAction::Release(9));
    assert_eq!(tray_action(&SystrayEvent::ReparentNotify(7, 9), Some(7)), TrayAction::Ignore);
    assert_eq!(tray_action(&SystrayEvent::ReparentNotify(1, 9), Some(7)), TrayAction::Release(9));
    assert_eq!(tray_action(&SystrayEvent::PropertyNotify, None), TrayAction::Ignore);
    assert_eq!(tray_action(&SystrayEvent::SelectionClear, None), TrayAction::Ignore);
    assert_eq!(tray_action(&SystrayEvent::Unknown, None), TrayAction::Ignore);
}

#[test]
fn tray_children_adopt_and_forget() {
    let mut c = TrayChildren::new();
    assert!(c.is_empty());
    assert_eq!(c.adopt(5), ChildChange::Changed(true));
    assert_eq!(c.adopt(6), ChildChange::Changed(false));
    assert_eq!(c.adopt(5), ChildChange::Unchanged);
    assert_eq!(c.windows(), &vec![5, 6]);
    assert!(c.contains(6));
    assert_eq!(c.forget(9), ChildChange::Unchanged);
    assert_eq!(c.forget(5), ChildChange::Changed(false));
    assert_eq!(c.forget(6), ChildChange::Changed(true));
    assert_eq!(c.len(), 0);
}

#[test]
fn adopt_then_forget_restores_children() {
    let mut c = TrayChildren::new();
    c.adopt(1);
    c.adopt(2);
    let before = c.windows().clone();
    c.adopt(3);
    c.forget(3);
    assert_eq!(c.windows(), &before);
}

#[test]
fn tray_geometry() {
    assert_eq!(tray_size(0, 19, 10), Size::Static(1));
    assert_eq!(tray_size(1, 19, 10), Size::Static(21));
    assert_eq!(tray_size(3, 19, 10), Size::Static(3 * 19 + 2 * 10 + 2));
    assert_eq!(child_offsets(3, 19, 10), vec![1, 30, 59]);
    assert_eq!(child_offsets(0, 19, 10), Vec::<u32>::new());
    let r = Rectangle { x: 100, y: 0, width: 50, height: 21 };
    assert!(!needs_reconfigure(100, 50, &r));
    assert!(needs_reconfigure(99, 50, &r));
    assert!(needs_reconfigure(100, 49, &r));
    let wide = Rectangle { x: 70000, y: 0, width: 65537, height: 21 };
    assert!(!needs_reconfigure(70000u32 as i16, 1, &wide));
    assert_eq!(tray_y(Position::Top, 1080, 21), 0);
    assert_eq!(tray_y(Position::Bottom, 1080, 21), 1059);
    assert_eq!(tray_icon_size(21), 19);
}

#[test]
fn selection_owner_kinds() {
    assert_eq!(selection_owner(7, 7), SelectionOwner::Tray);
    assert_eq!(selection_owner(0, 7), SelectionOwner::Nobody);
    assert_eq!(selection_owner(3, 7), SelectionOwner::Other);
}
