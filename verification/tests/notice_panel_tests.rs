use tshirt_checker::log::{AppLog, StringLog};
use tshirt_checker::notice_panel::NoticePanel;
use tshirt_checker::time::{FakeTime, Time};

fn repaint(panel: &NoticePanel, time: &FakeTime, log: &mut StringLog) {
    log.log(panel.display_log_message(time.ms_since_start()));
}

#[test]
fn fade_in_when_notification_occurs() {
    // Test Setup
    let mut fake_time = FakeTime::default();
    let mut string_log = StringLog::default();
    let mut notice_panel = NoticePanel::new(fake_time.ms_since_start());

    // Run display with initial state
    repaint(&notice_panel, &fake_time, &mut string_log);

    // Advance time then add a notice.  Run display again
    fake_time.advance(10);
    notice_panel.add_notice("T0");
    notice_panel.add_notice("T1");
    notice_panel.update(fake_time.ms_since_start());
    repaint(&notice_panel, &fake_time, &mut string_log);

    // Advance time a bit more and do update/ display again
    for step in [512, 512, 10000 - 1024 - 1024, 512, 512, 1, 1, 512] {
        fake_time.advance(step);
        notice_panel.update(fake_time.ms_since_start());
        repaint(&notice_panel, &fake_time, &mut string_log);
    }
    assert_eq!(
        "(NP) (NP T0 0) (NP T0 127) (NP T0 255) (NP T0 255) (NP T0 127) (NP T0 0) (NP) (NP T1 0) (NP T1 127) ",
        string_log._get_all()
    );
}

#[test]
fn repaints_soon_after_a_change_and_never_when_idle() {
    let mut panel = NoticePanel::new(0);
    assert_eq!(u32::MAX, panel.time_to_update(0));
    panel.add_notice("hello");
    panel.update(5);
    assert_eq!(100, panel.time_to_update(5));
    // Fading in: repaint every 100 ms.
    panel.update(500);
    assert_eq!(100, panel.time_to_update(500));
    // Fully visible: wait for the fade out to start.
    panel.update(2000);
    assert_eq!(10000 - 1024 - 1995, panel.time_to_update(2000));
    let shown = panel.display(2000).unwrap();
    assert_eq!("hello", shown.0);
    assert_eq!(255, shown.1);
    // After the notice time the notice is dropped.
    panel.update(10006);
    assert!(panel.display(10006).is_none());
    assert_eq!(100, panel.time_to_update(10006));
    panel.update(20000);
    assert_eq!(u32::MAX, panel.time_to_update(20000));
}

#[test]
fn string_log_keeps_messages_separated_by_spaces() {
    let mut log = StringLog::default();
    assert_eq!("", log._get_all());
    log.log("a".to_string());
    log.log("bc".to_string());
    assert_eq!("a bc ", log._get_all());
}

#[test]
fn fake_time_only_moves_when_advanced() {
    let mut t = FakeTime::default();
    assert_eq!(0, t.ms_since_start());
    t.advance(42);
    t.advance(8);
    assert_eq!(50, t.ms_since_start());
}

#[test]
fn timer_reads_time_since_its_reset() {
    let mut panel = NoticePanel::new(0);
    panel.reset_timer(500);
    assert_eq!(0, panel.time_since_reset(500));
    assert_eq!(1234, panel.time_since_reset(1734));
    panel.reset_timer(2000);
    assert_eq!(7, panel.time_since_reset(2007));
}
