use scan_core::address::{IpAddress, SocketAddress};
use scan_core::notice::Notice;
use scan_core::open_ports::OpenPorts;
use scan_core::options::{Opts, ScriptsRequired};
use scan_core::scripts::{
    host_report, outcome_notice, prepare_call, running_notice, setup_failed_notice, HostReport,
};
use scan_core::session::{
    closing_notices, ips_per_chunk, no_addresses_notice, silent_host_notice, Action, Event, Session,
};
use scan_core::text::{join_ports, join_strings, push_decimal};

fn session_opts(stream: bool) -> Opts {
    Opts {
        addresses: vec![],
        exclude_ports: None,
        config_path: None,
        greppable: false,
        accessible: false,
        no_banner: false,
        disable_progress: false,
        stream,
        batch_size: 4500,
        tries: 1,
        ulimit: None,
        scripts: ScriptsRequired::Default,
        command: vec![],
    }
}

fn socket(ip: IpAddress, port: u16) -> SocketAddress {
    SocketAddress {
        ip,
        port,
        flowinfo: 0,
        scope_id: 0,
    }
}

const A: IpAddress = IpAddress::V4(1);
const B: IpAddress = IpAddress::V4(2);
const C: IpAddress = IpAddress::V6(1);

fn sorted_hosts(session: &Session) -> Vec<(String, Vec<u16>)> {
    let mut hosts: Vec<(String, Vec<u16>)> = session
        .hosts()
        .into_iter()
        .map(|host| (format!("{:?}", host.ip), host.ports))
        .collect();
    hosts.sort();
    hosts
}

#[test]
fn chunks_fill_a_batch_within_bounds() {
    assert_eq!(ips_per_chunk(3_000, 0), 3_000);
    assert_eq!(ips_per_chunk(3_000, 1), 3_000);
    assert_eq!(ips_per_chunk(3_000, 7), 429);
    assert_eq!(ips_per_chunk(3_000, 11), 273);
    assert_eq!(ips_per_chunk(3_000, 65_535), 256);
    assert_eq!(ips_per_chunk(0, 5), 256);
    assert_eq!(ips_per_chunk(100_000, 1), 100_000);
    assert_eq!(ips_per_chunk(100_001, 1), 100_000);
    assert_eq!(ips_per_chunk(usize::MAX - 1, 1), 100_000);
}

#[test]
fn streamed_scan_runs_until_addresses_run_out() {
    let mut session = Session::new(&session_opts(true), 3_000, 10);
    assert_eq!(session.action(), Action::ResolveNext(300));

    let step = session.step(Event::Resolved(vec![A, B]));
    assert_eq!(step.action, Action::Scan);
    assert_eq!(step.resolved_ips, 2);
    let step = session.step(Event::Scanned(vec![socket(A, 80), socket(B, 22), socket(A, 22)]));
    assert_eq!(step.action, Action::ResolveNext(300));
    assert_eq!(step.open_ips, 2);

    let step = session.step(Event::Resolved(vec![C]));
    assert_eq!(step.action, Action::Scan);
    let step = session.step(Event::Scanned(vec![socket(C, 443), socket(A, 1)]));
    assert_eq!(step.action, Action::ResolveNext(300));
    assert_eq!(step.open_ips, 1);

    let step = session.step(Event::Resolved(vec![]));
    assert_eq!(step.action, Action::Report);
    assert_eq!(session.streamed(), 3);
    assert!(session.silent_targets().is_empty());
    assert_eq!(
        sorted_hosts(&session),
        vec![
            ("V4(1)".to_owned(), vec![80, 22, 1]),
            ("V4(2)".to_owned(), vec![22]),
            ("V6(1)".to_owned(), vec![443]),
        ]
    );
    let notices = closing_notices(&session, &session_opts(true));
    assert_eq!(notices.len(), 1);
    match &notices[0] {
        Notice::Detail(text) => assert_eq!(
            text,
            "Stream mode scanned 3 IPs; found open ports on 3 IPs."
        ),
        other => panic!("{other:?}"),
    }
}

#[test]
fn portions_find_what_one_go_finds() {
    let found = vec![
        socket(A, 80),
        socket(C, 22),
        socket(A, 22),
        socket(B, 80),
        socket(A, 80),
    ];
    let mut streamed = Session::new(&session_opts(true), 3_000, 10);
    streamed.step(Event::Resolved(vec![A]));
    streamed.step(Event::Scanned(found[..2].to_vec()));
    streamed.step(Event::Resolved(vec![B, C]));
    streamed.step(Event::Scanned(found[2..].to_vec()));
    assert_eq!(streamed.step(Event::Resolved(vec![])).action, Action::Report);

    let mut at_once = Session::new(&session_opts(false), 3_000, 10);
    at_once.step(Event::Resolved(vec![A, B, C]));
    assert_eq!(at_once.step(Event::Scanned(found)).action, Action::Report);

    assert_eq!(sorted_hosts(&streamed), sorted_hosts(&at_once));
}

#[test]
fn scan_at_once_reports_silent_targets() {
    let mut session = Session::new(&session_opts(false), 3_000, 10);
    assert_eq!(session.action(), Action::ResolveAll);
    let step = session.step(Event::Resolved(vec![B, A, C, B]));
    assert_eq!(step.action, Action::Scan);
    assert_eq!(step.resolved_ips, 4);
    let step = session.step(Event::Scanned(vec![socket(A, 80)]));
    assert_eq!(step.action, Action::Report);
    assert_eq!(session.silent_targets(), vec![B, C, B]);
    assert_eq!(session.streamed(), 0);
    assert!(closing_notices(&session, &session_opts(false)).is_empty());
}

#[test]
fn nothing_to_scan_is_an_abort() {
    for stream in [false, true] {
        let mut session = Session::new(&session_opts(stream), 3_000, 10);
        let step = session.step(Event::Resolved(vec![]));
        assert_eq!(step.action, Action::Abort);
        assert_eq!(step.resolved_ips, 0);
        assert_eq!(session.action(), Action::Abort);
    }
    match no_addresses_notice() {
        Notice::Warning(text) => assert_eq!(text, "No IPs could be resolved, aborting scan."),
        other => panic!("{other:?}"),
    }
}

#[test]
fn silent_stream_is_warned_about() {
    let mut session = Session::new(&session_opts(true), 3_000, 10);
    session.step(Event::Resolved(vec![A]));
    session.step(Event::Scanned(vec![]));
    session.step(Event::Resolved(vec![]));
    let notices = closing_notices(&session, &session_opts(true));
    assert_eq!(notices.len(), 2);
    match &notices[1] {
        Notice::Warning(text) => assert_eq!(
            text,
            "Looks like I didn't find any open ports. This is usually caused by a high batch size.
        \n*I used 4500 batch size, consider lowering it with 'rustscan -b <batch_size> -a <ip address>' or a comfortable number for your system.
        \n Alternatively, increase the timeout if your ping is high. Rustscan -t 2000 for 2000 milliseconds (2s) timeout.\n"
        ),
        other => panic!("{other:?}"),
    }
}

#[test]
fn silent_host_is_warned_about() {
    match silent_host_notice("10.0.0.1", &session_opts(false)) {
        Notice::Warning(text) => assert_eq!(
            text,
            "Looks like I didn't find any open ports for 10.0.0.1. This is usually caused by a high batch size.
        \n*I used 4500 batch size, consider lowering it with 'rustscan -b <batch_size> -a <ip address>' or a comfortable number for your system.
        \n Alternatively, increase the timeout if your ping is high. Rustscan -t 2000 for 2000 milliseconds (2s) timeout.\n"
        ),
        other => panic!("{other:?}"),
    }
}

#[test]
fn same_number_in_both_families_is_two_hosts() {
    let mut open = OpenPorts::new();
    assert!(open.record(socket(A, 80)));
    assert!(!open.contains(C));
    assert!(open.record(socket(C, 80)));
    assert!(!open.record(socket(A, 80)));
    assert!(open.contains(A) && open.contains(C) && !open.contains(B));
    assert_eq!(open.host_count(), 2);
    assert_eq!(open.hosts().len(), 2);
}

#[test]
fn open_ports_are_listed_or_handed_to_scripts() {
    let ports = vec![80, 443];
    let greppable = Opts { greppable: true, ..session_opts(false) };
    let no_scripts = Opts {
        scripts: ScriptsRequired::NoScripts,
        ..session_opts(false)
    };
    for opts in [greppable, no_scripts] {
        match host_report(&opts, "10.0.0.1", &ports) {
            HostReport::Line(line) => assert_eq!(line, "10.0.0.1 -> [80,443]"),
            other => panic!("{other:?}"),
        }
    }
    let custom = Opts {
        scripts: ScriptsRequired::Custom,
        ..session_opts(false)
    };
    for opts in [session_opts(false), custom] {
        match host_report(&opts, "10.0.0.1", &ports) {
            HostReport::RunScripts(Notice::Detail(text)) => assert_eq!(text, "Starting Script(s)"),
            other => panic!("{other:?}"),
        }
    }
}

#[test]
fn user_arguments_follow_the_call() {
    let opts = Opts {
        command: vec!["-A".to_owned(), "-sC".to_owned()],
        ..session_opts(false)
    };
    let mut notices = Vec::new();
    let call = prepare_call(Some("nmap \"{{ip}}\"".to_owned()), &opts, "10.0.0.1", &mut notices);
    assert_eq!(call, Some("nmap \"{{ip}}\" -A -sC".to_owned()));
    assert_eq!(notices.len(), 1);
    match &notices[0] {
        Notice::Output(text) => assert_eq!(
            text,
            "Running script \"nmap \\\"{{ip}}\\\" -A -sC\" on ip 10.0.0.1\nDepending on the complexity of the script, results may take some time to appear."
        ),
        other => panic!("{other:?}"),
    }
}

#[test]
fn call_stays_as_it_is_without_arguments() {
    let mut notices = Vec::new();
    let plain = session_opts(false);
    assert_eq!(
        prepare_call(Some("nmap".to_owned()), &plain, "10.0.0.1", &mut notices),
        Some("nmap".to_owned())
    );
    let with_arguments = Opts {
        command: vec!["-A".to_owned()],
        ..session_opts(false)
    };
    assert_eq!(prepare_call(None, &with_arguments, "10.0.0.1", &mut notices), None);
    assert!(notices.is_empty());
}

#[test]
fn script_is_announced_with_its_quoted_call() {
    match running_notice("'x'", "::1") {
        Notice::Output(text) => assert!(text.starts_with("Running script 'x' on ip ::1\n")),
        other => panic!("{other:?}"),
    }
}

#[test]
fn script_outcomes_are_shown() {
    match outcome_notice(Ok("done".to_owned())) {
        Notice::Detail(text) => assert_eq!(text, "done"),
        other => panic!("{other:?}"),
    }
    match outcome_notice(Err("no such file".to_owned())) {
        Notice::Warning(text) => assert_eq!(text, "Error no such file"),
        other => panic!("{other:?}"),
    }
    match setup_failed_notice("bad config") {
        Notice::Warning(text) => assert_eq!(text, "Initiating scripts failed!\nbad config"),
        other => panic!("{other:?}"),
    }
}

#[test]
fn numbers_and_lists_as_text() {
    let mut text = "n=".to_owned();
    push_decimal(&mut text, 0);
    push_decimal(&mut text, 1_234_567_890);
    assert_eq!(text, "n=01234567890");
    assert_eq!(join_ports(&vec![]), "");
    assert_eq!(join_ports(&vec![65_535]), "65535");
    assert_eq!(join_ports(&vec![1, 20, 300]), "1,20,300");
    assert_eq!(join_strings(&vec![], ", "), "");
    assert_eq!(
        join_strings(&vec!["a".to_owned(), "".to_owned(), "b".to_owned()], ", "),
        "a, , b"
    );
}
