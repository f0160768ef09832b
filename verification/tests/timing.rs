use rsml::frame_monitor::FrameMonitor;
use rsml::timing::TimingQueue;

#[test]
fn empty_queue_has_no_average() {
    let q = TimingQueue::new(3);
    assert_eq!(q.get_average(), None);
}

#[test]
fn average_is_rounded_down() {
    let mut q = TimingQueue::new(3);
    q.add_time(1);
    q.add_time(2);
    assert_eq!(q.get_average(), Some(1));
    q.add_time(4);
    assert_eq!(q.get_average(), Some(2));
}

#[test]
fn queue_keeps_the_last_times() {
    let mut q = TimingQueue::new(2);
    q.add_time(10);
    q.add_time(20);
    q.add_time(30);
    // 10 left: the mean of 20 and 30.
    assert_eq!(q.get_average(), Some(25));
    q.add_time(100);
    assert_eq!(q.get_average(), Some(65));
}

#[test]
fn queue_of_capacity_zero_grows() {
    let mut q = TimingQueue::new(0);
    q.add_time(5);
    assert_eq!(q.get_average(), Some(5));
    q.add_time(7);
    assert_eq!(q.get_average(), Some(6));
}

#[test]
fn average_of_large_times() {
    let mut q = TimingQueue::new(4);
    q.add_time(u64::MAX);
    q.add_time(u64::MAX);
    q.add_time(u64::MAX - 1);
    assert_eq!(q.get_average(), Some(u64::MAX - 1));
}

#[test]
fn monitor_starts_empty() {
    let m = FrameMonitor::new(4);
    assert_eq!(m.get_time_between_draws(), None);
    assert_eq!(m.get_surface_acquisition_time(), None);
    assert_eq!(m.get_surface_discard_time(), None);
    assert_eq!(m.get_render_time(), None);
    assert_eq!(m.get_submit_time(), None);
}

#[test]
fn monitor_times_draw_calls() {
    let mut m = FrameMonitor::new(2);
    m.start_draw_call(1_000);
    assert_eq!(m.get_time_between_draws(), None);
    m.start_draw_call(1_016);
    assert_eq!(m.get_time_between_draws(), Some(16));
    m.start_draw_call(1_036);
    assert_eq!(m.get_time_between_draws(), Some(18));
    m.start_draw_call(1_038);
    assert_eq!(m.get_time_between_draws(), Some(11));
}

#[test]
fn monitor_times_rendering() {
    let mut m = FrameMonitor::new(2);
    m.start_rendering(100);
    m.end_rendering(350);
    assert_eq!(m.get_render_time(), Some(250));
    // Ending without a start records nothing.
    m.end_rendering(400);
    assert_eq!(m.get_render_time(), Some(250));
    m.start_rendering(1_000);
    m.end_rendering(1_100);
    assert_eq!(m.get_render_time(), Some(175));
    m.start_rendering(0);
    m.end_rendering(1_000);
    assert_eq!(m.get_render_time(), Some(550));
    // A clock that went back counts as zero.
    m.start_rendering(500);
    m.end_rendering(100);
    assert_eq!(m.get_render_time(), Some(500));
    assert_eq!(m.get_submit_time(), None);
}

#[test]
fn monitor_times_submitting() {
    let mut m = FrameMonitor::new(3);
    m.start_submitting(10);
    m.end_submitting(13);
    m.start_submitting(20);
    m.end_submitting(30);
    assert_eq!(m.get_submit_time(), Some(6));
    assert_eq!(m.get_render_time(), None);
}

#[test]
fn monitor_tells_acquired_from_discarded() {
    let mut m = FrameMonitor::new(3);
    m.start_surface_acquisition(0);
    m.surface_acquired(40);
    m.start_surface_acquisition(100);
    m.surface_discarded(190);
    assert_eq!(m.get_surface_acquisition_time(), Some(40));
    assert_eq!(m.get_surface_discard_time(), Some(90));
    // The acquisition was settled: neither event records anything more.
    m.surface_acquired(500);
    m.surface_discarded(600);
    assert_eq!(m.get_surface_acquisition_time(), Some(40));
    assert_eq!(m.get_surface_discard_time(), Some(90));
}

#[test]
fn averages_are_defined_for_ordinary_timings() {
    let mut q = TimingQueue::new(3);
    assert!(q.is_averageable());
    q.add_time(u64::MAX);
    q.add_time(u64::MAX);
    assert!(q.is_averageable());
    assert_eq!(q.sum(), 2 * (u64::MAX as u128));
    let mut m = FrameMonitor::new(4);
    assert!(m.averages_defined());
    m.start_draw_call(10);
    m.start_draw_call(30);
    assert!(m.averages_defined());
    assert_eq!(m.get_time_between_draws(), Some(20));
}
