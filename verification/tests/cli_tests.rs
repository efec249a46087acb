use hbsd_update::cli::Cli;

fn base_cli() -> Cli {
    Cli {
        fetchonly: false,
        downloadonly: false,
        ignorever: false,
        install_src: false,
        integriforce: true,
        _integriforce_off: false,
        interactive: false,
        keeptmp: false,
        remote_resolver: false,
        machine_readable: false,
        no_kernel: false,
        no_obsolete: false,
        nobase: false,
        nodownload: false,
        unsigned: false,
        verbose: false,
        force_ipv4: false,
        force_ipv6: false,
        dnssec: true,
        _dnssec_off: false,
        update_hash: String::new(),
        net_flag: String::new(),
        config_file: String::from("/etc/hbsd-update.conf"),
    }
}

#[test]
fn negatable_defaults_hold_without_switches() {
    let r = base_cli().normalize();
    assert!(r.integriforce);
    assert!(r.dnssec);
    assert!(!r._integriforce_off);
    assert!(!r._dnssec_off);
}

#[test]
fn negation_switch_alone_yields_false() {
    let mut c = base_cli();
    c._integriforce_off = true;
    c._dnssec_off = true;
    let r = c.normalize();
    assert!(!r.integriforce);
    assert!(!r.dnssec);
    assert!(!r._integriforce_off);
    assert!(!r._dnssec_off);
}

#[test]
fn negation_wins_over_positive_switch() {
    // With the positive switch also given, the positive field is still true
    // when resolution starts; the negation request must win.
    let mut c = base_cli();
    c.integriforce = true;
    c._integriforce_off = true;
    c.dnssec = true;
    c._dnssec_off = true;
    let r = c.normalize();
    assert!(!r.integriforce);
    assert!(!r.dnssec);
}

#[test]
fn normalize_is_idempotent() {
    let mut c = base_cli();
    c._integriforce_off = true;
    let once = c.normalize();
    let twice = once.clone().normalize();
    assert_eq!(once.integriforce, twice.integriforce);
    assert_eq!(once.dnssec, twice.dnssec);
    assert_eq!(once._integriforce_off, twice._integriforce_off);
    assert_eq!(once._dnssec_off, twice._dnssec_off);
}

#[test]
fn normalize_keeps_the_other_options() {
    let mut c = base_cli();
    c.fetchonly = true;
    c.verbose = true;
    c.update_hash = String::from("abc123");
    c.net_flag = String::from("-4");
    c.config_file = String::from("/tmp/custom.conf");
    c._dnssec_off = true;
    let r = c.normalize();
    assert!(r.fetchonly);
    assert!(r.verbose);
    assert!(!r.downloadonly);
    assert_eq!(r.update_hash, "abc123");
    assert_eq!(r.net_flag, "-4");
    assert_eq!(r.config_file, "/tmp/custom.conf");
}

#[test]
fn both_ip_flags_conflict() {
    let mut c = base_cli();
    c.force_ipv4 = true;
    c.force_ipv6 = true;
    assert!(c.conflicting_ip_flags());
}

#[test]
fn single_ip_flag_does_not_conflict() {
    let mut c = base_cli();
    assert!(!c.conflicting_ip_flags());
    c.force_ipv4 = true;
    assert!(!c.conflicting_ip_flags());
    c.force_ipv4 = false;
    c.force_ipv6 = true;
    assert!(!c.conflicting_ip_flags());
}

#[test]
fn ip_conflict_is_independent_of_other_arguments() {
    // The conflict must be reported whatever the rest of the invocation is.
    let mut c = base_cli();
    c.force_ipv4 = true;
    c.force_ipv6 = true;
    c.fetchonly = true;
    c.unsigned = true;
    c._dnssec_off = true;
    c.update_hash = String::from("deadbeef");
    assert!(c.conflicting_ip_flags());
    assert!(c.normalize().conflicting_ip_flags());
}
