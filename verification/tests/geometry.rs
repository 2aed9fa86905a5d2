use webview_host::geometry::{
    initial_center_position, needs_first_placement, preserve_disk_fields, remembered_position, AppConfig,
};

fn cfg(w: f64, h: f64, x: Option<f64>, y: Option<f64>, settings: &str) -> AppConfig<f64, String> {
    AppConfig {
        web_window_width: w,
        web_window_height: h,
        web_window_x: x,
        web_window_y: y,
        settings: settings.to_string(),
    }
}

#[test]
fn disk_geometry_wins_other_settings_stay() {
    let mut merged = cfg(800.0, 600.0, None, None, "front-end");
    let disk = cfg(1024.0, 700.0, Some(10.0), Some(-20.0), "disk");
    preserve_disk_fields(&mut merged, &disk);
    assert_eq!(merged.web_window_width, 1024.0);
    assert_eq!(merged.web_window_height, 700.0);
    assert_eq!(merged.web_window_x, Some(10.0));
    assert_eq!(merged.web_window_y, Some(-20.0));
    assert_eq!(merged.settings, "front-end");
    preserve_disk_fields(&mut merged, &disk);
    assert_eq!(merged.web_window_x, Some(10.0));
    assert_eq!(merged.settings, "front-end");
}

#[test]
fn placement_decisions() {
    assert_eq!(remembered_position(&cfg(1.0, 1.0, Some(3.0), Some(4.0), "")), Some((3.0, 4.0)));
    assert_eq!(remembered_position(&cfg(1.0, 1.0, Some(3.0), None, "")), None);
    assert!(needs_first_placement(&cfg(1.0, 1.0, None, None, "")));
    assert!(!needs_first_placement(&cfg(1.0, 1.0, Some(3.0), None, "")));
    assert!(!needs_first_placement(&cfg(1.0, 1.0, Some(3.0), Some(4.0), "")));
}

#[test]
fn centred_slightly_right_and_below() {
    assert_eq!(initial_center_position(100, 50, 1000, 800, 400, 300), (100 + 300 + 32, 50 + 250 + 20));
    // A window larger than the main window: the offset rounds toward zero.
    assert_eq!(initial_center_position(0, 0, 100, 100, 103, 105), (-1 + 32, -2 + 20));
}
