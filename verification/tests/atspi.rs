//! Text over the accessibility bus.

use bacak_compositor::atspi::{
    consumed_events, start_step, text_snapshot, AccNode, AccRef, Extents, FocusStep, FocusTracker,
    LineWalk, StartStep, TextSearch, LINE_LIMIT, SEARCH_BUDGET,
};
use bacak_compositor::backend::{default_backend, run_backend, select_backend, Backend, Compiled};

fn acc(path: &str) -> AccRef {
    AccRef { bus: ":1.7".into(), path: path.into() }
}

fn node(text: bool, extents: Option<Extents>, children: &[&str]) -> AccNode {
    AccNode {
        interfaces: if text {
            vec!["org.a11y.atspi.Accessible".into(), "org.a11y.atspi.Text".into()]
        } else {
            vec!["org.a11y.atspi.Accessible".into()]
        },
        extents,
        children: children.iter().map(|c| acc(c)).collect(),
    }
}

fn at(x: i32, y: i32, w: i32, h: i32) -> Option<Extents> {
    Some(Extents { x, y, w, h })
}

#[test]
fn the_start_survives_what_it_can_do_without() {
    let mut s = StartStep::ConnectSession;
    let mut seen = Vec::new();
    while s != StartStep::Ready && s != StartStep::Disabled {
        seen.push(s);
        // The handshake and the registrations fail.
        let ok = !matches!(
            s,
            StartStep::SetEnabled | StartStep::SetScreenReader | StartStep::Register { .. }
        );
        s = start_step(s, ok);
    }
    assert_eq!(s, StartStep::Ready);
    assert_eq!(seen.len(), 7 + 3 + 2);
    for step in [
        StartStep::ConnectSession,
        StartStep::GetAddress,
        StartStep::ConnectBus,
        StartStep::SpawnFocusThread,
        StartStep::SpawnSelectionThread,
    ] {
        assert_eq!(start_step(step, false), StartStep::Disabled);
    }
    assert_eq!(start_step(StartStep::OpenRegistry, false), StartStep::SpawnFocusThread);
    assert_eq!(start_step(StartStep::OpenStatus, false), StartStep::GetAddress);
    assert_eq!(consumed_events().len(), 3);
}

#[test]
fn the_deepest_text_under_the_point_is_found() {
    let mut s = TextSearch::find_text_at(15, 15);
    let root = s.next().unwrap();
    assert_eq!(root.bus, "org.a11y.atspi.Registry");
    s.visit(root, Some(node(false, None, &["/title", "/page"])));
    let title = s.next().unwrap();
    s.visit(title, Some(node(true, at(0, 0, 100, 10), &[])));
    let page = s.next().unwrap();
    s.visit(page, Some(node(true, at(0, 10, 100, 90), &["/word", "/gone"])));
    let word = s.next().unwrap();
    s.visit(word, Some(node(true, at(10, 10, 10, 10), &[])));
    let gone = s.next().unwrap();
    s.visit(gone, None);
    assert_eq!(s.next(), None);
    assert_eq!(s.found(), Some(acc("/word")));
}

#[test]
fn the_first_text_ends_the_other_search() {
    let mut s = TextSearch::find_first_text();
    let root = s.next().unwrap();
    s.visit(root, Some(node(false, None, &["/a", "/b"])));
    let a = s.next().unwrap();
    s.visit(a, Some(node(true, None, &["/c"])));
    assert_eq!(s.next(), None);
    assert_eq!(s.found(), Some(acc("/a")));
}

#[test]
fn a_search_ends_in_an_endless_tree() {
    let mut s = TextSearch::find_text_at(0, 0);
    let mut n: u32 = 0;
    while let Some(a) = s.next() {
        s.visit(a, Some(node(false, None, &["/loop", "/loop"])));
        n += 1;
    }
    assert_eq!(n, SEARCH_BUDGET - 1);
    assert_eq!(s.found(), None);
}

#[test]
fn only_texts_are_followed() {
    let mut t = FocusTracker::new();
    let a = acc("/a");
    assert_eq!(t.state_changed("enabled", 1, &a), FocusStep::Ignore);
    assert_eq!(t.state_changed("focused", 1, &a), FocusStep::Probe);
    t.probed(a.clone(), false);
    assert_eq!(t.focused(), None);
    t.probed(a.clone(), true);
    assert_eq!(t.focused(), Some(a.clone()));
    // Another object losing the focus changes nothing.
    assert_eq!(t.state_changed("focused", 0, &acc("/b")), FocusStep::Ignore);
    t.selection_changed(&acc("/b"));
    assert!(!t.take_selection_dirty());
    t.selection_changed(&a);
    assert!(t.take_selection_dirty());
    assert!(!t.take_selection_dirty());
    assert_eq!(t.state_changed("focused", 0, &a), FocusStep::Clear);
    assert_eq!(t.focused(), None);
}

#[test]
fn a_range_has_a_box_for_each_line() {
    let mut w = LineWalk::range_line_boxes(5, 25);
    assert_eq!(w.next_offset(), Some(5));
    assert_eq!(w.line(Some((0, 10))), Some((5, 10)));
    w.add_box(Some(Extents { x: 1, y: 1, w: 5, h: 2 }));
    assert_eq!(w.next_offset(), Some(10));
    // A line without an area has no box.
    assert_eq!(w.line(Some((10, 20))), Some((10, 20)));
    w.add_box(Some(Extents { x: 1, y: 3, w: 0, h: 2 }));
    assert_eq!(w.line(Some((20, 40))), Some((20, 25)));
    w.add_box(None);
    assert_eq!(w.next_offset(), None);
    assert_eq!(w.boxes.len(), 1);
    let mut w = LineWalk::range_line_boxes(0, 10);
    assert_eq!(w.line(None), None);
    assert_eq!(w.next_offset(), None);
}

#[test]
fn lines_that_do_not_advance_cannot_hang_the_walk() {
    let mut w = LineWalk::range_line_boxes(0, i32::MAX);
    let mut n: u32 = 0;
    while w.next_offset().is_some() {
        w.line(Some((0, 0)));
        n += 1;
    }
    assert_eq!(n, LINE_LIMIT);
}

#[test]
fn a_snapshot_needs_caret_and_length() {
    assert_eq!(text_snapshot(Some(1), Some(2)), Some((1, 2)));
    assert_eq!(text_snapshot(None, Some(2)), None);
    assert_eq!(text_snapshot(Some(1), None), None);
}

#[test]
fn the_backend_is_chosen_and_must_be_compiled_in() {
    let native = Compiled { runtime: true, udev: true };
    let nested = Compiled { runtime: true, udev: false };
    assert_eq!(select_backend(Some("winit"), native), Backend::Winit);
    assert_eq!(select_backend(Some("udev"), nested), Backend::Udev);
    assert_eq!(select_backend(Some("x11"), native), Backend::Udev);
    assert_eq!(select_backend(None, nested), Backend::Winit);
    assert_eq!(default_backend(native), Backend::Udev);
    assert_eq!(run_backend(Backend::Winit, nested), Ok(Backend::Winit));
    assert!(run_backend(Backend::Udev, nested).unwrap_err().contains("`udev` cargo feature"));
    let bare = Compiled { runtime: false, udev: false };
    assert!(run_backend(Backend::Winit, bare).unwrap_err().contains("`runtime` cargo feature"));
}
