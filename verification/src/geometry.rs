//! Where the window goes and what of its geometry is kept on disk.
//! Sizes and positions are carried as values of any copyable type `F` (the
//! application stores them as floating-point numbers); only the decisions
//! about them are made here.
use vstd::prelude::*;

verus! {

/// The application's settings: the window geometry that this module owns,
/// and every other setting, `settings`, which it leaves alone.
#[derive(Debug)]
pub struct AppConfig<F, S> {
    pub web_window_width: F,
    pub web_window_height: F,
    pub web_window_x: Option<F>,
    pub web_window_y: Option<F>,
    pub settings: S,
}

/// Keeps the window geometry stored on disk in `merged`: the geometry is
/// written to disk by the window itself, so a snapshot sent by the front end
/// must not move the window back. All other settings of `merged` stay.
pub fn preserve_disk_fields<F: Copy, S>(merged: &mut AppConfig<F, S>, disk: &AppConfig<F, S>)
    ensures
        final(merged).web_window_width == disk.web_window_width,
        final(merged).web_window_height == disk.web_window_height,
        final(merged).web_window_x == disk.web_window_x,
        final(merged).web_window_y == disk.web_window_y,
        final(merged).settings == old(merged).settings,
{
    merged.web_window_width = disk.web_window_width;
    merged.web_window_height = disk.web_window_height;
    merged.web_window_x = disk.web_window_x;
    merged.web_window_y = disk.web_window_y;
}

/// The remembered position of the window, when both coordinates are
/// remembered.
pub open spec fn remembered_at<F, S>(cfg: AppConfig<F, S>) -> Option<(F, F)> {
    match (cfg.web_window_x, cfg.web_window_y) {
        (Some(x), Some(y)) => Some((x, y)),
        _ => None,
    }
}

/// Where a newly built window is placed: at the remembered position when
/// both coordinates are known; `None` means it is centred on the main
/// window instead.
pub fn remembered_position<F: Copy, S>(cfg: &AppConfig<F, S>) -> (r: Option<(F, F)>)
    ensures
        r == remembered_at(*cfg),
{
    match (cfg.web_window_x, cfg.web_window_y) {
        (Some(x), Some(y)) => Some((x, y)),
        _ => None,
    }
}

/// On opening, the window is placed once more when no coordinate has been
/// remembered yet (it was built before the main window could be measured).
pub fn needs_first_placement<F, S>(cfg: &AppConfig<F, S>) -> (r: bool)
    ensures
        r == (cfg.web_window_x is None && cfg.web_window_y is None),
{
    cfg.web_window_x.is_none() && cfg.web_window_y.is_none()
}

/// Integer division by two rounded toward zero.
pub open spec fn half(v: int) -> int {
    if v >= 0 {
        v / 2
    } else {
        -((-v) / 2)
    }
}

/// The position that centres a `w` x `h` window on the main window (at
/// `main_x`, `main_y`, of outer size `main_w` x `main_h`), moved 32 pixels to
/// the right and 20 down; all in physical pixels.
pub open spec fn centered_at(
    main_x: int,
    main_y: int,
    main_w: int,
    main_h: int,
    w: int,
    h: int,
) -> (int, int) {
    (main_x + half(main_w - w) + 32, main_y + half(main_h - h) + 20)
}

/// The arithmetic of `centered_at` stays within `i32`.
pub open spec fn centering_fits(
    main_x: int,
    main_y: int,
    main_w: int,
    main_h: int,
    w: int,
    h: int,
) -> bool {
    &&& i32::MIN <= main_w - w <= i32::MAX
    &&& i32::MIN <= main_h - h <= i32::MAX
    &&& i32::MIN <= main_x + half(main_w - w) <= i32::MAX
    &&& i32::MIN <= main_y + half(main_h - h) <= i32::MAX
    &&& main_x + half(main_w - w) + 32 <= i32::MAX
    &&& main_y + half(main_h - h) + 20 <= i32::MAX
}

/// Where a window without a remembered position first appears: centred on
/// the main window, slightly right of and below its centre.
pub fn initial_center_position(main_x: i32, main_y: i32, main_w: i32, main_h: i32, w: i32, h: i32) -> (r: (i32, i32))
    requires
        centering_fits(main_x as int, main_y as int, main_w as int, main_h as int, w as int, h as int),
    ensures
        (r.0 as int, r.1 as int) == centered_at(main_x as int, main_y as int, main_w as int, main_h as int, w as int, h as int),
{
    let dx = (main_w - w) / 2;
    let dy = (main_h - h) / 2;
    (main_x + dx + 32, main_y + dy + 20)
}

/// Halving rounds toward zero: twice the half is the value itself, or one
/// less for a positive odd value, one more for a negative odd value.
pub proof fn law_half_rounds_toward_zero(v: int)
    ensures
        v >= 0 ==> 0 <= v - 2 * half(v) <= 1,
        v < 0 ==> -1 <= v - 2 * half(v) <= 0,
        half(-v) == -half(v),
{
}

/// Centring follows the main window wherever it is, on any monitor, at
/// negative coordinates too: moving the main window by `(d, e)` moves the
/// result by `(d, e)`; a window of the main window's size lands 32 pixels
/// right of and 20 below its origin; and the offset from the origin is half
/// the size difference, rounded toward zero.
pub proof fn law_centering_follows_the_main_window(
    main_x: int,
    main_y: int,
    main_w: int,
    main_h: int,
    w: int,
    h: int,
    d: int,
    e: int,
)
    ensures
        centered_at(main_x + d, main_y + e, main_w, main_h, w, h).0 == centered_at(
            main_x,
            main_y,
            main_w,
            main_h,
            w,
            h,
        ).0 + d,
        centered_at(main_x + d, main_y + e, main_w, main_h, w, h).1 == centered_at(
            main_x,
            main_y,
            main_w,
            main_h,
            w,
            h,
        ).1 + e,
        centered_at(main_x, main_y, w, h, w, h) == (main_x + 32, main_y + 20),
        main_w - w >= 0 ==> 0 <= (main_w - w) - 2 * (centered_at(
            main_x,
            main_y,
            main_w,
            main_h,
            w,
            h,
        ).0 - main_x - 32) <= 1,
        main_w - w < 0 ==> -1 <= (main_w - w) - 2 * (centered_at(
            main_x,
            main_y,
            main_w,
            main_h,
            w,
            h,
        ).0 - main_x - 32) <= 0,
        main_h - h >= 0 ==> 0 <= (main_h - h) - 2 * (centered_at(
            main_x,
            main_y,
            main_w,
            main_h,
            w,
            h,
        ).1 - main_y - 20) <= 1,
        main_h - h < 0 ==> -1 <= (main_h - h) - 2 * (centered_at(
            main_x,
            main_y,
            main_w,
            main_h,
            w,
            h,
        ).1 - main_y - 20) <= 0,
{
}

/// After the disk geometry is kept, a window built from the merged settings
/// is placed where the disk says, whatever the snapshot held.
pub proof fn law_kept_geometry_places_window<F, S>(disk: AppConfig<F, S>, kept: AppConfig<F, S>)
    requires
        kept.web_window_x == disk.web_window_x,
        kept.web_window_y == disk.web_window_y,
    ensures
        remembered_at(kept) == remembered_at(disk),
{
}

/// A window with a remembered position is never placed again on opening;
/// one with no remembered coordinate at all is.
pub proof fn law_placement_is_decided_once<F, S>(cfg: AppConfig<F, S>)
    ensures
        remembered_at(cfg) is Some ==> !(cfg.web_window_x is None && cfg.web_window_y is None),
        (cfg.web_window_x is None && cfg.web_window_y is None) ==> remembered_at(cfg) is None,
{
}

} // verus!
