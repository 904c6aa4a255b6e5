use scan_core::address::{IpAddress, SocketAddress};
use scan_core::display::{
    bar_look, bar_step, displayed_tries, format_progress_message, should_show_progress, BarLook,
    BarStep,
};
use scan_core::options::{Opts, ScriptsRequired};
use scan_core::progress::ScanProgress;
use std::time::Duration;

fn progress_opts() -> Opts {
    Opts {
        addresses: vec![],
        exclude_ports: None,
        config_path: None,
        greppable: false,
        accessible: false,
        no_banner: false,
        disable_progress: false,
        stream: false,
        batch_size: 0,
        tries: 0,
        ulimit: None,
        scripts: ScriptsRequired::Default,
        command: vec![],
    }
}

fn some_socket() -> SocketAddress {
    SocketAddress {
        ip: IpAddress::V4(0x0102_0304),
        port: 80,
        flowinfo: 0,
        scope_id: 0,
    }
}

#[test]
fn new_progress_counts_nothing() {
    let snapshot = ScanProgress::new(10, Some(4)).snapshot();
    assert_eq!(snapshot.ports_total, 10);
    assert_eq!(snapshot.total_ips, Some(4));
    assert_eq!(snapshot.total_sockets, Some(40));
    assert_eq!(snapshot.resolved_ips, 0);
    assert_eq!(snapshot.scheduled_sockets, 0);
    assert_eq!(snapshot.completed_sockets, 0);
    assert_eq!(snapshot.open_sockets, 0);
    assert_eq!(snapshot.open_ips, 0);
    assert_eq!(snapshot.last_socket, None);
    assert_eq!(snapshot.inflight(), 0);
}

#[test]
fn socket_total_is_unknown_without_addresses_or_on_overflow() {
    assert_eq!(ScanProgress::new(10, None).snapshot().total_sockets, None);
    assert_eq!(
        ScanProgress::new(2, Some(u64::MAX)).snapshot().total_sockets,
        None
    );
    assert_eq!(
        ScanProgress::new(1, Some(u64::MAX)).snapshot().total_sockets,
        Some(u64::MAX)
    );
    assert_eq!(
        ScanProgress::new(0, Some(u64::MAX)).snapshot().total_sockets,
        Some(0)
    );
}

#[test]
fn reports_show_in_the_snapshot() {
    let mut progress = ScanProgress::new(3, None);
    progress.add_resolved_ips(5);
    progress.add_resolved_ips(6);
    progress.set_scheduled_sockets(20);
    progress.set_completed_sockets(12);
    progress.inc_open_sockets(2);
    progress.inc_open_sockets(1);
    progress.inc_open_ips(1);
    progress.set_last_socket(some_socket());
    assert_eq!(progress.scheduled_sockets(), 20);
    assert_eq!(progress.completed_sockets(), 12);
    let snapshot = progress.snapshot_at(Duration::from_secs(7));
    assert_eq!(snapshot.resolved_ips, 11);
    assert_eq!(snapshot.scheduled_sockets, 20);
    assert_eq!(snapshot.completed_sockets, 12);
    assert_eq!(snapshot.open_sockets, 3);
    assert_eq!(snapshot.open_ips, 1);
    assert_eq!(snapshot.last_socket, Some(some_socket()));
    assert_eq!(snapshot.elapsed, Duration::from_secs(7));
    assert_eq!(snapshot.inflight(), 8);
}

#[test]
fn later_setting_wins() {
    let mut progress = ScanProgress::new(3, None);
    progress.set_scheduled_sockets(20);
    progress.set_scheduled_sockets(4);
    assert_eq!(progress.scheduled_sockets(), 4);
}

#[test]
fn report_order_does_not_matter() {
    let mut one = ScanProgress::new(3, Some(2));
    one.inc_open_ips(2);
    one.add_resolved_ips(u64::MAX);
    one.inc_open_ips(3);
    one.add_resolved_ips(3);
    let mut other = ScanProgress::new(3, Some(2));
    other.add_resolved_ips(3);
    other.inc_open_ips(3);
    other.inc_open_ips(2);
    other.add_resolved_ips(u64::MAX);
    let (one, other) = (one.snapshot(), other.snapshot());
    assert_eq!(one.open_ips, other.open_ips);
    assert_eq!(one.resolved_ips, other.resolved_ips);
    assert_eq!(one.resolved_ips, 2);
    assert_eq!(one.total_sockets, Some(6));
}

#[test]
fn inflight_is_never_negative() {
    let mut progress = ScanProgress::new(3, None);
    progress.set_scheduled_sockets(1);
    progress.set_completed_sockets(2);
    assert_eq!(progress.snapshot().inflight(), 0);
}

#[test]
fn snapshots_agree_while_time_passes() {
    let mut progress = ScanProgress::new(3, Some(9));
    progress.set_scheduled_sockets(5);
    progress.set_last_socket(some_socket());
    let first = progress.snapshot();
    let second = progress.snapshot();
    assert_eq!(first.scheduled_sockets, 5);
    assert_eq!(first.scheduled_sockets, second.scheduled_sockets);
    assert_eq!(first.total_sockets, second.total_sockets);
    assert_eq!(first.last_socket, Some(some_socket()));
    assert_eq!(first.last_socket, second.last_socket);
    assert!(first.elapsed <= second.elapsed);
    assert!(second.elapsed < Duration::from_secs(20));
}

#[test]
fn message_with_everything_known() {
    let mut progress = ScanProgress::new(1000, Some(256));
    progress.add_resolved_ips(10);
    progress.set_scheduled_sockets(500);
    progress.set_completed_sockets(90);
    progress.inc_open_sockets(3);
    progress.inc_open_ips(2);
    progress.set_last_socket(some_socket());
    assert_eq!(
        format_progress_message(&progress.snapshot(), "1.2.3.4:80", 3000, 1500, 1),
        "ips=10/256 ports=1000 inflight=410 open_sockets=3 open_ips=2 cur=1.2.3.4:80 batch=3000 timeout=1500ms tries=1"
    );
}

#[test]
fn message_with_unknowns() {
    let progress = ScanProgress::new(0, None);
    assert_eq!(
        format_progress_message(&progress.snapshot(), "ignored", 0, u128::MAX, 255),
        "ips=0/? ports=0 inflight=0 open_sockets=0 open_ips=0 cur=- batch=0 timeout=340282366920938463463374607431768211455ms tries=255"
    );
}

#[test]
fn progress_is_shown_at_a_terminal() {
    assert!(should_show_progress(&progress_opts(), true));
    assert!(!should_show_progress(&progress_opts(), false));
    let accessible = Opts { accessible: true, ..progress_opts() };
    assert!(!should_show_progress(&accessible, true));
    let disabled = Opts { disable_progress: true, ..progress_opts() };
    assert!(!should_show_progress(&disabled, true));
}

#[test]
fn at_least_one_try_is_displayed() {
    assert_eq!(displayed_tries(&progress_opts()), 1);
    let three = Opts { tries: 3, ..progress_opts() };
    assert_eq!(displayed_tries(&three), 3);
}

#[test]
fn streams_spin_and_others_fill_a_bar() {
    let known = ScanProgress::new(10, Some(4)).snapshot();
    let unknown = ScanProgress::new(u64::MAX, Some(4)).snapshot();
    match bar_look(true, &known) {
        BarLook::Spinner { template } => assert_eq!(
            template,
            "{spinner:.green} [{elapsed_precise}] {human_pos:>10} {per_sec} {wide_msg}"
        ),
        other => panic!("{other:?}"),
    }
    match bar_look(false, &known) {
        BarLook::Bar { length, template, progress_chars } => {
            assert_eq!(length, 40);
            assert_eq!(
                template,
                "[{elapsed_precise}] {bar:40.cyan/blue} {human_pos:>10}/{human_len:10} {per_sec} eta {eta_precise} {wide_msg}"
            );
            assert_eq!(progress_chars, "=>-");
        }
        other => panic!("{other:?}"),
    }
    assert!(matches!(
        bar_look(false, &unknown),
        BarLook::Bar { length: 0, .. }
    ));
}

#[test]
fn templates_are_understood() {
    let snapshot = ScanProgress::new(10, Some(4)).snapshot();
    for is_stream in [true, false] {
        let template = match bar_look(is_stream, &snapshot) {
            BarLook::Spinner { template } => template,
            BarLook::Bar { template, .. } => template,
        };
        assert!(indicatif::ProgressStyle::with_template(template).is_ok());
    }
}

#[test]
fn bar_follows_the_scan_until_stopped() {
    let mut progress = ScanProgress::new(1, Some(9));
    progress.set_completed_sockets(4);
    let snapshot = progress.snapshot();
    match bar_step(false, true, &snapshot, "", 5, 6, 7) {
        BarStep::Update { position, message, tick } => {
            assert_eq!(position, 4);
            assert!(tick);
            assert_eq!(message, format_progress_message(&snapshot, "", 5, 6, 7));
        }
        BarStep::Finish => panic!("finished early"),
    }
    assert!(matches!(
        bar_step(false, false, &snapshot, "", 5, 6, 7),
        BarStep::Update { tick: false, .. }
    ));
    assert!(matches!(
        bar_step(true, false, &snapshot, "", 5, 6, 7),
        BarStep::Finish
    ));
}
