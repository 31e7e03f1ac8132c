use videocall::screen_share_dom::{
    announce, apply_zoom, close_pip_if_open, detach_btn_id, detach_request, detach_to_pip,
    fit_level, grid_slot_id, handle_reset, handle_zoom_in, handle_zoom_out, is_pip_open_for,
    live_region_id, pan_with_key, percent_label, pip_closed, pip_host_id, pip_window_size,
    reattach_from_pip, set_btn_disabled, set_detach_btn_state, set_slot_detached, viewport_id,
    zoom_in_btn_id, zoom_label_id, zoom_out_btn_id, DetachedHost, Detaching, DomOp, DomTarget,
    PanState, PipEvent, ScrollTo, Viewport, ZoomChoices, ZoomLevel,
};

fn level(factor: &str, percent: u32) -> ZoomLevel {
    ZoomLevel {
        factor: factor.to_string(),
        percent,
        zoomed: percent > 100,
        at_max: percent == 400,
        at_min: percent == 100,
    }
}

fn nearby(id: &str) -> DomTarget {
    DomTarget::Nearby(id.to_string())
}

fn set(target: DomTarget, name: &'static str, value: &str) -> DomOp {
    DomOp::SetAttribute(target, name, value.to_string())
}

#[test]
fn ids_of_parts() {
    assert_eq!(pip_host_id("p"), "screen-share-p-pip-host");
    assert_eq!(viewport_id("p"), "screen-share-p-viewport");
    assert_eq!(zoom_label_id("p"), "screen-share-p-zoom-label");
    assert_eq!(grid_slot_id("p"), "screen-share-p-slot");
    assert_eq!(detach_btn_id("p"), "screen-share-p-detach-btn");
    assert_eq!(zoom_in_btn_id("p"), "screen-share-p-zoom-in");
    assert_eq!(zoom_out_btn_id("p"), "screen-share-p-zoom-out");
    assert_eq!(live_region_id("p"), "screen-share-p-live");
    assert_ne!(pip_host_id("a-b"), pip_host_id("a"));
}

#[test]
fn content_that_is_larger_than_its_place() {
    let ops = apply_zoom("p", &level("2.5", 250));
    assert_eq!(
        ops,
        vec![
            set(DomTarget::Host, "data-zoom", "2.5"),
            DomOp::RemoveStyle(DomTarget::Canvas, "transform"),
            DomOp::SetStyle(DomTarget::Canvas, "width", "250%".to_string()),
            DomOp::SetStyle(DomTarget::Canvas, "height", "250%".to_string()),
            DomOp::SetStyle(DomTarget::Canvas, "object-fit", "fill".to_string()),
            DomOp::AddClass(nearby("screen-share-p-viewport"), "ss-zoom-viewport--pannable"),
            DomOp::SetText(nearby("screen-share-p-zoom-label"), "250%".to_string()),
            DomOp::RemoveAttribute(nearby("screen-share-p-zoom-in"), "disabled"),
            DomOp::RemoveAttribute(nearby("screen-share-p-zoom-in"), "aria-disabled"),
            DomOp::RemoveAttribute(nearby("screen-share-p-zoom-out"), "disabled"),
            DomOp::RemoveAttribute(nearby("screen-share-p-zoom-out"), "aria-disabled"),
        ]
    );
}

#[test]
fn content_that_fits() {
    let ops = apply_zoom("p", &level("1", 100));
    assert_eq!(
        ops,
        vec![
            set(DomTarget::Host, "data-zoom", "1"),
            DomOp::RemoveStyle(DomTarget::Canvas, "transform"),
            DomOp::RemoveStyle(DomTarget::Canvas, "width"),
            DomOp::RemoveStyle(DomTarget::Canvas, "height"),
            DomOp::RemoveStyle(DomTarget::Canvas, "object-fit"),
            DomOp::RemoveClass(nearby("screen-share-p-viewport"), "ss-zoom-viewport--pannable"),
            DomOp::ScrollToStart(nearby("screen-share-p-viewport")),
            DomOp::SetText(nearby("screen-share-p-zoom-label"), "100%".to_string()),
            DomOp::RemoveAttribute(nearby("screen-share-p-zoom-in"), "disabled"),
            DomOp::RemoveAttribute(nearby("screen-share-p-zoom-in"), "aria-disabled"),
            set(nearby("screen-share-p-zoom-out"), "disabled", ""),
            set(nearby("screen-share-p-zoom-out"), "aria-disabled", "true"),
        ]
    );
}

#[test]
fn the_buttons_choose_the_zoom() {
    let choices = Some(ZoomChoices {
        larger: level("2.5", 250),
        smaller: level("1.6", 160),
    });
    assert_eq!(handle_zoom_in("p", &choices), apply_zoom("p", &level("2.5", 250)));
    assert_eq!(handle_zoom_out("p", &choices), apply_zoom("p", &level("1.6", 160)));
    assert_eq!(fit_level(), level("1", 100));
    assert_eq!(handle_reset("p", true), apply_zoom("p", &level("1", 100)));
    assert!(handle_zoom_in("p", &None).is_empty());
    assert!(handle_zoom_out("p", &None).is_empty());
    assert!(handle_reset("p", false).is_empty());
}

#[test]
fn percent_labels() {
    assert_eq!(percent_label(100), "100%");
    assert_eq!(percent_label(156), "156%");
    assert_eq!(percent_label(0), "0%");
}

#[test]
fn buttons_are_enabled_by_taking_the_attribute_away() {
    assert_eq!(
        set_btn_disabled("b".to_string(), false),
        vec![
            DomOp::RemoveAttribute(nearby("b"), "disabled"),
            DomOp::RemoveAttribute(nearby("b"), "aria-disabled"),
        ]
    );
}

#[test]
fn content_goes_to_its_window() {
    let z = level("2", 200);
    let ops = detach_to_pip("p", &Some(level("2", 200)));
    let mut expected = vec![
        DomOp::CopyStyles,
        DomOp::AddClass(DomTarget::PipBody, "ss-pip-body"),
        DomOp::MoveHost(DomTarget::PipBody),
    ];
    expected.extend(apply_zoom("p", &z));
    expected.push(set(DomTarget::Host, "data-detached", "true"));
    let btn = "screen-share-p-detach-btn";
    expected.push(set(nearby(btn), "aria-pressed", "true"));
    expected.push(set(nearby(btn), "aria-label", "Return shared content to the grid"));
    expected.push(set(nearby(btn), "title", "Return shared content to the grid"));
    expected.push(DomOp::Focus(nearby(btn)));
    expected.push(set(
        DomTarget::Main("screen-share-p-slot".to_string()),
        "data-detached",
        "true",
    ));
    expected.push(DomOp::SetText(
        DomTarget::Main("screen-share-p-live".to_string()),
        "Shared content opened in a separate window".to_string(),
    ));
    assert_eq!(ops, expected);
    assert_eq!(detach_to_pip("p", &None).len(), 2);
}

#[test]
fn content_comes_back() {
    let host = |at_home: bool| {
        Some(DetachedHost {
            zoom: level("2", 200),
            at_home,
        })
    };
    let btn = "screen-share-p-detach-btn";
    let slot = || DomTarget::Main("screen-share-p-slot".to_string());
    let mut expected = vec![
        DomOp::MoveHost(slot()),
        DomOp::RemoveAttribute(DomTarget::Host, "data-detached"),
    ];
    expected.extend(apply_zoom("p", &level("2", 200)));
    expected.extend(set_detach_btn_state("p", false));
    expected.push(DomOp::Focus(DomTarget::Main(btn.to_string())));
    expected.push(DomOp::RemoveAttribute(slot(), "data-detached"));
    expected.push(announce("p", "Shared content returned to the grid"));
    assert_eq!(reattach_from_pip("p", true, &host(false)), expected);

    let mut expected = vec![DomOp::RemoveAttribute(DomTarget::Host, "data-detached")];
    expected.extend(set_detach_btn_state("p", false));
    expected.push(set_slot_detached("p", false));
    assert_eq!(reattach_from_pip("p", true, &host(true)), expected);
    assert!(reattach_from_pip("p", false, &host(false)).is_empty());
    assert!(reattach_from_pip("p", true, &None).is_empty());
    assert_eq!(
        set_detach_btn_state("p", false)[1],
        set(nearby(btn), "aria-label", "Open shared content in a separate window")
    );
}

#[test]
fn windows_have_a_sensible_size() {
    assert_eq!(pip_window_size(800, 600), (800, 600));
    assert_eq!(pip_window_size(0, 0), (320, 240));
    assert_eq!(pip_window_size(9999, 9999), (2560, 1600));
    assert_eq!(pip_window_size(i64::MIN, i64::MAX), (320, 1600));
}

#[test]
fn windows_belong_to_peers() {
    let held = Some(vec![pip_host_id("a")]);
    assert!(is_pip_open_for("a", &held));
    assert!(!is_pip_open_for("b", &held));
    assert!(!is_pip_open_for("a", &None));
    assert!(!is_pip_open_for("a", &Some(Vec::new())));
    assert_eq!(close_pip_if_open(true), vec![DomOp::ClosePip]);
    assert!(close_pip_if_open(false).is_empty());
}

#[test]
fn windows_are_asked_for_where_there_are_any() {
    assert_eq!(detach_request(true, Some((800, 600))), Some((800, 600)));
    assert_eq!(detach_request(true, Some((0, 9999))), Some((320, 1600)));
    assert_eq!(detach_request(true, Some((9999, 0))), Some((2560, 240)));
    assert_eq!(detach_request(false, Some((800, 600))), None);
    assert_eq!(detach_request(true, None), None);
    assert_eq!(detach_request(false, None), None);
}

fn away() -> Option<DetachedHost> {
    Some(DetachedHost { zoom: level("2", 200), at_home: false })
}

#[test]
fn the_content_returns_and_only_then_is_the_close_reported() {
    let mut expected = reattach_from_pip("p", true, &away());
    assert!(!expected.contains(&DomOp::ReportClosed));
    expected.push(DomOp::ReportClosed);
    assert_eq!(pip_closed("p", true, &away()), expected);
    assert_eq!(pip_closed("p", false, &away()), vec![DomOp::ReportClosed]);
    assert_eq!(pip_closed("p", true, &None), vec![DomOp::ReportClosed]);
}

#[test]
fn a_close_is_reported_once() {
    let opened = PipEvent::Opened { zoom: Some(level("2", 200)) };
    let closed = PipEvent::Closed { slot_present: true, host: away() };

    let state = Detaching::start(&detach_request(true, Some((800, 600))));
    assert_eq!(state, Detaching::Asked);
    let (state, ops) = state.step("p", &opened);
    assert_eq!(state, Detaching::Open);
    assert_eq!(ops, detach_to_pip("p", &Some(level("2", 200))));
    let (state, ops) = state.step("p", &closed);
    assert_eq!(state, Detaching::Closed);
    assert_eq!(ops, pip_closed("p", true, &away()));
    let (state, ops) = state.step("p", &closed);
    assert_eq!(state, Detaching::Closed);
    assert!(ops.is_empty());
}

#[test]
fn without_a_window_nothing_is_reported() {
    let closed = PipEvent::Closed { slot_present: true, host: away() };

    let never = Detaching::start(&detach_request(false, Some((800, 600))));
    assert_eq!(never, Detaching::GivenUp);
    assert!(never.step("p", &closed).1.is_empty());

    let (refused, ops) = Detaching::Asked.step("p", &PipEvent::Refused);
    assert_eq!(refused, Detaching::GivenUp);
    assert!(ops.is_empty());

    let (gone, ops) = Detaching::Asked.step("p", &PipEvent::Opened { zoom: None });
    assert_eq!(gone, Detaching::GivenUp);
    assert_eq!(ops, detach_to_pip("p", &None));
    assert!(gone.step("p", &closed).1.is_empty());
}

/// What is left on a canvas and its viewport after some changes.
fn overrides(ops: &[DomOp]) -> (Vec<&'static str>, bool) {
    let mut styles = Vec::new();
    let mut pannable = false;
    for op in ops {
        match op {
            DomOp::SetStyle(_, name, _) => {
                styles.retain(|s| s != name);
                styles.push(*name);
            }
            DomOp::RemoveStyle(_, name) => styles.retain(|s| s != name),
            DomOp::AddClass(_, _) => pannable = true,
            DomOp::RemoveClass(_, _) => pannable = false,
            _ => {}
        }
    }
    (styles, pannable)
}

#[test]
fn a_reset_takes_the_overrides_away() {
    let mut ops = apply_zoom("p", &level("1.25", 125));
    ops.extend(apply_zoom("p", &level("1.5625", 156)));
    assert_eq!(overrides(&ops), (vec!["width", "height", "object-fit"], true));
    ops.extend(handle_reset("p", true));
    assert_eq!(overrides(&ops), (vec![], false));
    ops.extend(handle_reset("p", true));
    assert_eq!(overrides(&ops), (vec![], false));
}

fn viewport() -> Viewport {
    Viewport {
        scroll_width: 1000,
        scroll_height: 800,
        client_width: 500,
        client_height: 400,
        scroll_left: 100,
        scroll_top: 50,
    }
}

fn fitting() -> Viewport {
    Viewport {
        scroll_width: 500,
        scroll_height: 400,
        client_width: 500,
        client_height: 400,
        scroll_left: 0,
        scroll_top: 0,
    }
}

#[test]
fn content_is_dragged() {
    let mut pan = PanState::new();
    assert_eq!(pan.pointer_move(viewport(), 5, 5), None);
    assert!(!pan.pointer_down(fitting(), 1, 1));
    assert!(!pan.active);
    assert!(pan.pointer_down(viewport(), 10, 20));
    assert_eq!(
        pan.pointer_move(viewport(), 30, 15),
        Some(ScrollTo { left: 80, top: 55 })
    );
    let moved = Viewport {
        scroll_left: 80,
        scroll_top: 55,
        ..viewport()
    };
    assert_eq!(
        pan.pointer_move(moved, 10, 20),
        Some(ScrollTo { left: 100, top: 50 })
    );
    pan.pointer_up();
    assert_eq!((pan.active, pan.last_x, pan.last_y), (false, 10, 20));
    assert_eq!(pan.pointer_move(viewport(), 0, 0), None);
}

#[test]
fn drags_stay_within_what_can_be_counted() {
    let mut pan = PanState::new();
    pan.pointer_down(viewport(), i32::MIN, 0);
    let v = Viewport {
        scroll_left: i32::MIN,
        ..viewport()
    };
    assert_eq!(
        pan.pointer_move(v, i32::MAX, 0),
        Some(ScrollTo { left: i32::MIN, top: 50 })
    );
}

#[test]
fn keys_pan() {
    let v = viewport();
    assert_eq!(pan_with_key("Home", v, None), Some(ScrollTo { left: 0, top: 0 }));
    assert_eq!(pan_with_key("End", v, None), Some(ScrollTo { left: 500, top: 400 }));
    assert_eq!(
        pan_with_key("ArrowRight", v, Some((40, 0))),
        Some(ScrollTo { left: 140, top: 50 })
    );
    assert_eq!(pan_with_key("a", v, None), None);
    assert_eq!(pan_with_key("Home", fitting(), None), None);
    let wide = Viewport {
        scroll_height: 300,
        ..viewport()
    };
    assert_eq!(pan_with_key("End", wide, None), Some(ScrollTo { left: 500, top: 0 }));
}
