use rlimit::Resource;
use scan_core::limits::{
    adjust_ulimit_size, batch_rule, infer_batch_size, requested_ulimit, BatchRule,
};
use scan_core::notice::Notice;
use scan_core::options::{Opts, ScriptsRequired};

fn limit_opts() -> Opts {
    Opts {
        addresses: vec![],
        exclude_ports: None,
        config_path: None,
        greppable: true,
        accessible: false,
        no_banner: false,
        disable_progress: false,
        stream: false,
        batch_size: 0,
        tries: 0,
        ulimit: None,
        scripts: ScriptsRequired::Default,
        command: vec![],
    }
}

fn warning_text(notice: &Notice) -> &str {
    match notice {
        Notice::Warning(text) => text,
        _ => panic!("not a warning: {notice:?}"),
    }
}

fn detail_text(notice: &Notice) -> &str {
    match notice {
        Notice::Detail(text) => text,
        _ => panic!("not a detail: {notice:?}"),
    }
}

#[test]
fn batch_size_lowered() {
    let opts = Opts {
        batch_size: 50_000,
        ..limit_opts()
    };
    let mut notices = Vec::new();
    let batch_size = infer_batch_size(&opts, 120, &mut notices);

    assert!(batch_size < opts.batch_size);
    assert_eq!(batch_size, 60);
    assert_eq!(notices.len(), 2);
    assert_eq!(
        warning_text(&notices[0]),
        "File limit is lower than default batch size. Consider upping with --ulimit. May cause harm to sensitive servers"
    );
    assert_eq!(
        warning_text(&notices[1]),
        "Your file limit is very small, which negatively impacts RustScan's speed. Use the Docker image, or up the Ulimit with '--ulimit 5000'. "
    );
}

#[test]
fn batch_size_lowered_average_size() {
    let opts = Opts {
        batch_size: 50_000,
        ..limit_opts()
    };
    let mut notices = Vec::new();
    let batch_size = infer_batch_size(&opts, 9_000, &mut notices);

    assert!(batch_size == 3_000);
    assert_eq!(notices.len(), 1);
}

#[test]
fn batch_size_equals_ulimit_lowered() {
    let opts = Opts {
        batch_size: 50_000,
        ..limit_opts()
    };
    let mut notices = Vec::new();
    let batch_size = infer_batch_size(&opts, 5_000, &mut notices);

    assert!(batch_size == 4_900);
}

#[test]
fn batch_size_adjusted_2000() {
    let opts = Opts {
        batch_size: 50_000,
        ulimit: Some(2_000),
        ..limit_opts()
    };
    let limit = requested_ulimit(&opts).unwrap();
    let granted = Resource::NOFILE.set(limit, limit).is_ok();
    let (soft, _) = Resource::NOFILE.get().unwrap();
    let mut notices = Vec::new();
    let batch_size = adjust_ulimit_size(&opts, granted, soft, &mut notices);

    assert!(batch_size == 2_000);
    assert_eq!(
        detail_text(&notices[0]),
        "Automatically increasing ulimit value to 2000."
    );
}

#[test]
fn test_high_ulimit_no_greppable_mode() {
    let opts = Opts {
        batch_size: 10,
        greppable: false,
        ..limit_opts()
    };
    let mut notices = Vec::new();
    let batch_size = infer_batch_size(&opts, 1_000_000, &mut notices);

    assert!(batch_size == opts.batch_size);
    assert_eq!(notices.len(), 1);
    assert_eq!(
        detail_text(&notices[0]),
        "File limit higher than batch size. Can increase speed by increasing batch size '-b 999900'."
    );
}

#[test]
fn chosen_ulimit_is_not_commented_on() {
    let opts = Opts {
        batch_size: 10,
        ulimit: Some(50),
        ..limit_opts()
    };
    let mut notices = Vec::new();
    assert_eq!(infer_batch_size(&opts, 50, &mut notices), 10);
    assert!(notices.is_empty());
}

#[test]
fn batch_size_at_the_boundaries() {
    let opts = Opts {
        batch_size: 50_000,
        ..limit_opts()
    };
    let mut notices = Vec::new();
    assert_eq!(infer_batch_size(&opts, 0, &mut notices), 0);
    assert_eq!(infer_batch_size(&opts, 2_999, &mut notices), 1_499);
    assert_eq!(infer_batch_size(&opts, 3_000, &mut notices), 2_900);
    assert_eq!(infer_batch_size(&opts, 8_000, &mut notices), 7_900);
    assert_eq!(infer_batch_size(&opts, 8_001, &mut notices), 3_000);
    assert_eq!(infer_batch_size(&opts, 49_999, &mut notices), 3_000);
    assert_eq!(infer_batch_size(&opts, 50_000, &mut notices), 50_000);
}

#[test]
fn refused_ulimit_is_reported() {
    let opts = Opts {
        ulimit: Some(7),
        ..limit_opts()
    };
    assert_eq!(requested_ulimit(&opts), Some(7));
    let mut notices = Vec::new();
    assert_eq!(adjust_ulimit_size(&opts, false, 1_024, &mut notices), 1_024);
    assert_eq!(notices.len(), 1);
    assert_eq!(warning_text(&notices[0]), "ERROR. Failed to set ulimit value.");
}

#[test]
fn no_ulimit_is_requested_without_the_option() {
    let opts = limit_opts();
    assert_eq!(requested_ulimit(&opts), None);
    let mut notices = Vec::new();
    assert_eq!(
        adjust_ulimit_size(&opts, false, u64::MAX, &mut notices),
        usize::MAX
    );
    assert!(notices.is_empty());
}

#[test]
fn equal_limit_is_not_commented_on() {
    let opts = Opts {
        batch_size: 5_000,
        ..limit_opts()
    };
    let mut notices = Vec::new();
    assert_eq!(infer_batch_size(&opts, 5_000, &mut notices), 5_000);
    assert!(notices.is_empty());
    assert_eq!(infer_batch_size(&opts, 5_001, &mut notices), 5_000);
    assert_eq!(notices.len(), 1);
    assert_eq!(
        detail_text(&notices[0]),
        "File limit higher than batch size. Can increase speed by increasing batch size '-b 4901'."
    );
}

#[test]
fn equal_limit_below_one_hundred_is_fine() {
    let opts = Opts {
        batch_size: 7,
        ..limit_opts()
    };
    let mut notices = Vec::new();
    assert_eq!(infer_batch_size(&opts, 7, &mut notices), 7);
    assert!(notices.is_empty());
}

#[test]
fn unlimited_files_allow_any_batch_size() {
    let opts = Opts {
        batch_size: 5_000,
        ulimit: Some(usize::MAX),
        ..limit_opts()
    };
    let mut notices = Vec::new();
    assert_eq!(infer_batch_size(&opts, usize::MAX, &mut notices), 5_000);
    assert!(notices.is_empty());
}

#[test]
fn batch_rules_at_the_boundaries() {
    assert_eq!(batch_rule(50_000, 50_000), BatchRule::AsDesired);
    assert_eq!(batch_rule(10, 9), BatchRule::HalfOfLimit);
    assert_eq!(batch_rule(50_000, 2_999), BatchRule::HalfOfLimit);
    assert_eq!(batch_rule(50_000, 3_000), BatchRule::BelowLimit);
    assert_eq!(batch_rule(50_000, 8_000), BatchRule::BelowLimit);
    assert_eq!(batch_rule(50_000, 8_001), BatchRule::Average);
}
