use repo_saver::control::MonitorControl;
use repo_saver::daemon::{should_shutdown, ShutdownFlag};

#[test]
fn one_monitor_at_a_time() {
    let mut c = MonitorControl::new();
    let mut f = ShutdownFlag::new();
    assert!(!c.is_running());
    assert!(c.start_monitor());
    c.monitor_started(&mut f);
    assert!(c.is_running());
    assert!(!should_shutdown(&f));
    assert!(!c.start_monitor());
}

#[test]
fn stop_raises_then_clears_the_request() {
    let mut c = MonitorControl::new();
    let mut f = ShutdownFlag::new();
    assert!(!c.stop_monitor(&mut f));
    assert!(!should_shutdown(&f));
    c.monitor_started(&mut f);
    assert!(c.stop_monitor(&mut f));
    assert!(should_shutdown(&f));
    c.monitor_ended(&mut f);
    assert!(!c.is_running());
    assert!(!should_shutdown(&f));
    assert!(c.start_monitor());
}

#[test]
fn finished_thread_is_collected_only_while_running() {
    let mut c = MonitorControl::new();
    let mut f = ShutdownFlag::new();
    assert!(!c.poll_monitor(true));
    c.monitor_started(&mut f);
    assert!(!c.poll_monitor(false));
    assert!(c.poll_monitor(true));
}
