use scan_core::cidr::{cidr_size_at_least, first_large_cidr, warn_large_cidrs, Inet};
use scan_core::notice::Notice;
use scan_core::opening::{opening, startup_plan, LINKS, TITLE};
use scan_core::options::{Opts, ScriptsRequired};
use scan_core::ports::build_ports;

fn opening_opts() -> Opts {
    Opts {
        addresses: vec![],
        exclude_ports: None,
        config_path: None,
        greppable: false,
        accessible: false,
        no_banner: false,
        disable_progress: false,
        stream: false,
        batch_size: 0,
        tries: 0,
        ulimit: None,
        scripts: ScriptsRequired::Default,
        command: vec![],
    }
}

fn shown_detail(notice: &Notice) -> &str {
    match notice {
        Notice::Detail(text) => text,
        _ => panic!("not a detail: {notice:?}"),
    }
}

/// The text without its terminal codes.
fn plain(text: &str) -> String {
    let mut kept = String::new();
    let mut in_code = false;
    for c in text.chars() {
        if c == '\x1B' {
            in_code = true;
        } else if in_code {
            in_code = c != 'm';
        } else {
            kept.push(c);
        }
    }
    kept
}

#[test]
fn test_print_opening_no_panic() {
    let opts = Opts {
        ulimit: Some(2_000),
        ..opening_opts()
    };
    let shown = opening(&opts, "\"/new\"", "\"/old\"");
    assert_eq!(shown.notices.len(), 2);
    assert_eq!(
        shown_detail(&shown.notices[0]),
        "The config file is expected to be at \"/new\""
    );
    assert_eq!(
        shown_detail(&shown.notices[1]),
        "For backwards compatibility, the config file may also be at \"/old\""
    );
}

#[test]
fn opening_is_bold_and_colored() {
    let shown = opening(&opening_opts(), "", "");
    assert!(shown.title.starts_with("\x1B[1m\x1B[38;2;0;255;0m."));
    assert!(shown.title.ends_with("\x1B[0m"));
    assert!(shown.links.starts_with("\x1B[1m\x1B[38;2;255;255;0m_"));
    assert_eq!(plain(&shown.title), TITLE);
    assert_eq!(plain(&shown.links), LINKS);
    assert_eq!(TITLE.lines().count(), 5);
    assert_eq!(LINKS.lines().count(), 4);
}

#[test]
fn chosen_config_is_the_only_one_named() {
    let opts = Opts {
        config_path: Some("\"/mine\"".to_owned()),
        ..opening_opts()
    };
    let shown = opening(&opts, "\"/new\"", "\"/old\"");
    assert_eq!(shown.notices.len(), 1);
    assert_eq!(
        shown_detail(&shown.notices[0]),
        "The config file is expected to be at \"/mine\""
    );
}

#[test]
fn opening_is_for_people() {
    assert!(startup_plan(&opening_opts()).show_opening);
    assert!(startup_plan(&opening_opts()).check_large_cidrs);
    let greppable = Opts { greppable: true, ..opening_opts() };
    assert!(!startup_plan(&greppable).show_opening);
    let accessible = Opts { accessible: true, ..opening_opts() };
    assert!(!startup_plan(&accessible).show_opening);
    let no_banner = Opts { no_banner: true, ..opening_opts() };
    assert!(!startup_plan(&no_banner).show_opening);
    let stream = Opts { stream: true, ..opening_opts() };
    assert!(startup_plan(&stream).show_opening);
    assert!(!startup_plan(&stream).check_large_cidrs);
}

#[test]
fn network_sizes() {
    assert!(cidr_size_at_least(&Inet::V4 { network_length: 12 }, 1_048_576));
    assert!(!cidr_size_at_least(&Inet::V4 { network_length: 12 }, 1_048_577));
    assert!(cidr_size_at_least(&Inet::V4 { network_length: 32 }, 1));
    assert!(!cidr_size_at_least(&Inet::V4 { network_length: 32 }, 2));
    assert!(cidr_size_at_least(&Inet::V4 { network_length: 0 }, 1 << 32));
    assert!(cidr_size_at_least(&Inet::V6 { network_length: 0 }, u128::MAX));
    assert!(cidr_size_at_least(&Inet::V6 { network_length: 1 }, 1 << 127));
    assert!(!cidr_size_at_least(&Inet::V6 { network_length: 1 }, (1 << 127) + 1));
    assert!(!cidr_size_at_least(&Inet::V6 { network_length: 128 }, 2));
}

#[test]
fn first_large_network_wins() {
    let host = Some(Inet::V4 { network_length: 32 });
    let large = Some(Inet::V4 { network_length: 12 });
    let just_below = Some(Inet::V6 { network_length: 109 });
    let just_large = Some(Inet::V6 { network_length: 108 });
    assert_eq!(first_large_cidr(&vec![]), None);
    assert_eq!(first_large_cidr(&vec![None, host, just_below]), None);
    assert_eq!(first_large_cidr(&vec![None, just_large, large]), Some(1));
}

#[test]
fn large_cidr_is_warned_about_once() {
    let opts = Opts {
        addresses: vec![
            "example.com".to_owned(),
            "10.0.0.1".to_owned(),
            "192.168.0.0/16".to_owned(),
            "10.0.0.0/8".to_owned(),
            "2001:db8::/32".to_owned(),
        ],
        ..opening_opts()
    };
    match warn_large_cidrs(&opts) {
        Some(Notice::Warning(text)) => assert_eq!(
            text,
            "Large CIDR detected (10.0.0.0/8). Consider using --stream to reduce memory usage on low-memory systems."
        ),
        other => panic!("{other:?}"),
    }
}

#[test]
fn large_ipv6_cidr_is_warned_about() {
    let opts = Opts {
        addresses: vec!["::/0".to_owned()],
        ..opening_opts()
    };
    assert!(matches!(warn_large_cidrs(&opts), Some(Notice::Warning(_))));
}

#[test]
fn small_targets_are_not_warned_about() {
    let opts = Opts {
        addresses: vec![
            "10.0.0.0/13".to_owned(),
            "10.0.0.0/99".to_owned(),
            "::1".to_owned(),
            "".to_owned(),
        ],
        ..opening_opts()
    };
    assert!(warn_large_cidrs(&opts).is_none());
}

#[test]
fn excluded_ports_are_left_out_in_order() {
    let opts = Opts {
        exclude_ports: Some(vec![22, 80, 9]),
        ..opening_opts()
    };
    assert_eq!(
        build_ports(&opts, vec![443, 22, 80, 8080, 22, 1]),
        vec![443, 8080, 1]
    );
}

#[test]
fn nothing_excluded_keeps_all_ports() {
    assert_eq!(build_ports(&opening_opts(), vec![3, 2, 1]), vec![3, 2, 1]);
    let opts = Opts {
        exclude_ports: Some(vec![]),
        ..opening_opts()
    };
    assert_eq!(build_ports(&opts, vec![3, 2, 1]), vec![3, 2, 1]);
}
