use lastrun::controls::{
    confirm_log_text, confirm_task_text, control_lines, controls_height, controls_height_for, get_all_shortcuts,
    get_basic_shortcuts, help_popup_area, popup_fits, text_popup_area, Rect,
};
use lastrun::time::Timestamp;

#[test]
fn shortcut_lists() {
    assert_eq!(
        get_basic_shortcuts(false),
        vec![("↑↓/jk", "Navigate"), ("Enter/h", "History"), ("?", "All Keys"), ("q/Esc", "Quit")]
    );
    assert_eq!(get_basic_shortcuts(true), vec![("↑↓/jk", "Navigate"), ("?", "All Keys"), ("q/Esc", "Back")]);
    assert_eq!(get_all_shortcuts(false).len(), 9);
    assert_eq!(get_all_shortcuts(true).len(), 6);
    assert_eq!(get_all_shortcuts(true)[2], ("d", "Delete Entry"));
    assert_eq!(get_all_shortcuts(false)[5], ("d", "Delete Task"));
}

#[test]
fn bar_heights() {
    assert_eq!(controls_height(80, false), 3);
    assert_eq!(controls_height(80, true), 3);
    assert_eq!(controls_height(20, false), 5);
    assert_eq!(controls_height(0, true), 4);
    assert_eq!(controls_height_for(80, &Vec::new()), 3);
    assert_eq!(controls_height_for(80, &get_all_shortcuts(false)), 4);
    assert_eq!(control_lines(80, &get_all_shortcuts(false)).len(), 2);
}

#[test]
fn bar_lines() {
    let wide = control_lines(80, &get_basic_shortcuts(false));
    assert_eq!(wide.len(), 1);
    assert_eq!(wide[0].len(), 4);
    let narrow = control_lines(20, &get_basic_shortcuts(false));
    assert_eq!(narrow.len(), 4);
    assert_eq!(narrow[1], vec![("Enter/h", "History")]);
    let none = control_lines(80, &Vec::new());
    assert_eq!(none.len(), 1);
    assert!(none[0].is_empty());
}

#[test]
fn help_overlay_placement() {
    let area = Rect { x: 0, y: 0, width: 80, height: 24 };
    assert_eq!(
        help_popup_area(area, &get_all_shortcuts(false)),
        Rect { x: 25, y: 6, width: 30, height: 11 }
    );
    assert_eq!(
        help_popup_area(area, &get_all_shortcuts(true)),
        Rect { x: 25, y: 8, width: 30, height: 8 }
    );
    let tiny = Rect { x: 2, y: 3, width: 10, height: 5 };
    assert_eq!(
        help_popup_area(tiny, &get_all_shortcuts(false)),
        Rect { x: 2, y: 4, width: 30, height: 3 }
    );
}

#[test]
fn text_popups() {
    let area = Rect { x: 0, y: 0, width: 80, height: 24 };
    let text = confirm_task_text("backup");
    assert_eq!(text, " Delete \"backup\" and all its history?  [y] Yes   [n] No ");
    assert!(popup_fits(&text));
    assert_eq!(text_popup_area(area, &text, 40), Rect { x: 10, y: 10, width: 60, height: 3 });
    assert_eq!(text_popup_area(area, "hi", 40), Rect { x: 20, y: 10, width: 40, height: 3 });
    let small = Rect { x: 0, y: 0, width: 30, height: 3 };
    assert_eq!(text_popup_area(small, &text, 10), Rect { x: 2, y: 0, width: 26, height: 3 });
    assert!(!popup_fits(&"x".repeat(65532)));
    assert!(popup_fits(&"x".repeat(65531)));
}

#[test]
fn log_deletion_question() {
    let now = Timestamp::from_parts(1684152000, 0).unwrap();
    assert_eq!(
        confirm_log_text("not a time", &now),
        " Delete entry from not a time?  [y] Yes   [n] No "
    );
    let text = confirm_log_text("2023-05-15T09:30:00+00:00", &now);
    assert!(text.starts_with(" Delete entry from 2023-05-1"));
    assert!(text.ends_with(" (2h30m ago)?  [y] Yes   [n] No "));
}

#[test]
fn bar_height_matches_its_lines_from_thirty_columns() {
    for w in 30u16..200 {
        for h in [false, true] {
            assert_eq!(controls_height(w, h) as usize, control_lines(w, &get_basic_shortcuts(h)).len() + 2);
        }
    }
    // Narrower, the count skips the check after a wrap
    assert_eq!(controls_height(20, false), 5);
    assert_eq!(control_lines(20, &get_basic_shortcuts(false)).len(), 4);
}
