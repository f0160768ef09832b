use rsml::frame_monitor::FrameMonitor;
use rsml::frame_stat_display::{get_frame_info_string, stat_text, DisplayMode, FrameStatDisplay, StatDrawing};

#[test]
fn toggle_cycles_through_modes() {
    let mut d = FrameStatDisplay::new();
    assert_eq!(*d.get_display_mode(), DisplayMode::Fps);
    d.toggle_display_mode();
    assert_eq!(*d.get_display_mode(), DisplayMode::FrameStatistics);
    d.toggle_display_mode();
    assert_eq!(*d.get_display_mode(), DisplayMode::HardwareInfo);
    d.toggle_display_mode();
    assert_eq!(*d.get_display_mode(), DisplayMode::Off);
    d.toggle_display_mode();
    assert_eq!(*d.get_display_mode(), DisplayMode::Fps);
}

#[test]
fn switched_off_overlay_is_hidden() {
    let m = FrameMonitor::new(2);
    let mut d = FrameStatDisplay::new();
    d.set_display_mode(DisplayMode::Off);
    assert_eq!(d.draw(0, &m), StatDrawing::Hidden);
}

#[test]
fn text_waits_for_a_frame_rate() {
    let m = FrameMonitor::new(2);
    let mut d = FrameStatDisplay::new();
    assert_eq!(d.draw(0, &m), StatDrawing::RefreshAndDraw);
    // No frame rate yet: the text is written again at every draw.
    assert_eq!(d.draw(1, &m), StatDrawing::RefreshAndDraw);
}

#[test]
fn text_is_refreshed_every_half_second() {
    let mut m = FrameMonitor::new(2);
    m.start_draw_call(0);
    m.start_draw_call(16_000_000);
    let mut d = FrameStatDisplay::new();
    assert_eq!(d.draw(1_000_000_000, &m), StatDrawing::RefreshAndDraw);
    assert_eq!(d.draw(1_499_999_999, &m), StatDrawing::Draw);
    assert_eq!(d.draw(1_500_000_000, &m), StatDrawing::RefreshAndDraw);
    assert_eq!(d.draw(1_600_000_000, &m), StatDrawing::Draw);
    // Changing the mode writes the text anew at once.
    d.toggle_display_mode();
    assert_eq!(d.draw(1_600_000_001, &m), StatDrawing::RefreshAndDraw);
}

#[test]
fn frame_info_lists_the_mean_times() {
    let mut m = FrameMonitor::new(2);
    m.start_rendering(0);
    m.end_rendering(12_345_678);
    m.start_submitting(0);
    m.end_submitting(999_999);
    assert_eq!(
        get_frame_info_string(&m),
        "Acquire surface: -\nDiscard surface: -\nRender time: 12ms\nSubmit frame time: 0ms"
    );
    m.start_surface_acquisition(0);
    m.surface_acquired(1_234_567_890_123);
    assert_eq!(
        get_frame_info_string(&m),
        "Acquire surface: 1234567ms\nDiscard surface: -\nRender time: 12ms\nSubmit frame time: 0ms"
    );
}

#[test]
fn stat_text_by_mode() {
    assert_eq!(stat_text(&DisplayMode::Off, "f", "s", "h"), "");
    assert_eq!(stat_text(&DisplayMode::Fps, "FPS: 60.00", "s", "h"), "FPS: 60.00");
    assert_eq!(stat_text(&DisplayMode::FrameStatistics, "f", "s", "h"), "f\ns");
    assert_eq!(stat_text(&DisplayMode::HardwareInfo, "f", "s", "h"), "f\ns\n\nh");
}
