use hbsd_update::config::{load, parse_bool, strip_quotes, ConfigFile, Dnssec, Warning};
use hbsd_update::config::{expand_branch, expand_uname_m};
use hbsd_update::config::{CONFIG_FILE_PATH, TRUSTED_CAPATH};

const ARCH: &[u8] = b"amd64";

#[test]
fn path_constants() {
    assert_eq!(CONFIG_FILE_PATH, "/etc/hbsd-update.conf");
    assert_eq!(TRUSTED_CAPATH, "/usr/share/keys/hbsd-update/trusted");
}

#[test]
fn defaults_are_architecture_templated() {
    let d = ConfigFile::defaults(ARCH);
    assert_eq!(
        d.dnsrec,
        b"amd64.master.14-stable.hardened.hardenedbsd.updates.hardenedbsd.org".to_vec()
    );
    assert_eq!(d.kernel, b"HARDENEDBSD".to_vec());
    assert_eq!(d.capath, b"/usr/share/keys/hbsd-update/trusted".to_vec());
    assert_eq!(d.branch, b"hardened/14-stable/master".to_vec());
    assert_eq!(
        d.baseurl,
        b"https://updates.hardenedbsd.org/pub/HardenedBSD/updates/hardened/14-stable/master/amd64"
            .to_vec()
    );
    assert!(d.dnssec);
    assert!(!d.force_ipv4);
    assert!(!d.force_ipv6);
}

#[test]
fn empty_file_yields_exact_defaults() {
    let (cfg, warns) = load(b"", ARCH);
    let d = ConfigFile::defaults(ARCH);
    assert_eq!(cfg.dnsrec, d.dnsrec);
    assert_eq!(cfg.kernel, d.kernel);
    assert_eq!(cfg.capath, d.capath);
    assert_eq!(cfg.branch, d.branch);
    assert_eq!(cfg.baseurl, d.baseurl);
    assert_eq!(cfg.dnssec, d.dnssec);
    assert_eq!(cfg.force_ipv4, d.force_ipv4);
    assert_eq!(cfg.force_ipv6, d.force_ipv6);
    assert!(warns.is_empty());
}

#[test]
fn comments_and_blank_lines_are_skipped() {
    let (cfg, warns) = load(b"# a comment\n\n   \n# another=comment\n", ARCH);
    assert_eq!(cfg.kernel, b"HARDENEDBSD".to_vec());
    assert!(warns.is_empty());
}

#[test]
fn branch_templating_uses_the_live_value() {
    let (cfg, warns) = load(b"branch=custom/path\ndnsrec=${branch}.example.org", ARCH);
    assert_eq!(cfg.branch, b"custom/path".to_vec());
    assert_eq!(cfg.dnsrec, b"custom/path.example.org".to_vec());
    assert!(warns.is_empty());
}

#[test]
fn branch_templating_before_an_update_uses_the_default() {
    let (cfg, _) = load(b"dnsrec=${branch}.example.org\nbranch=custom/path", ARCH);
    assert_eq!(
        cfg.dnsrec,
        b"hardened/14-stable/master.example.org".to_vec()
    );
    assert_eq!(cfg.branch, b"custom/path".to_vec());
}

#[test]
fn uname_token_is_expanded_inside_values() {
    let (cfg, warns) = load(b"kernel=KERN-$(uname -m)", b"arm64");
    assert_eq!(cfg.kernel, b"KERN-arm64".to_vec());
    assert!(warns.is_empty());
}

#[test]
fn expand_helpers_replace_every_occurrence() {
    assert_eq!(
        expand_uname_m(b"$(uname -m)/$(uname -m)", b"arm64"),
        b"arm64/arm64".to_vec()
    );
    assert_eq!(expand_branch(b"a ${branch} b", b"x/y"), b"a x/y b".to_vec());
    assert_eq!(expand_branch(b"no token", b"x/y"), b"no token".to_vec());
}

#[test]
fn invalid_boolean_keeps_prior_value_and_warns() {
    let (cfg, warns) = load(b"dnssec=maybe", ARCH);
    assert!(cfg.dnssec);
    assert_eq!(warns.len(), 1);
    match &warns[0] {
        Warning::InvalidBool { line, value } => {
            assert_eq!(*line, 1);
            assert_eq!(value, &b"maybe".to_vec());
        }
        w => panic!("unexpected warning {:?}", w),
    }
}

#[test]
fn invalid_boolean_keeps_value_set_earlier_in_the_file() {
    let (cfg, warns) = load(b"dnssec=no\ndnssec=maybe", ARCH);
    assert!(!cfg.dnssec);
    assert_eq!(warns.len(), 1);
    match &warns[0] {
        Warning::InvalidBool { line, .. } => assert_eq!(*line, 2),
        w => panic!("unexpected warning {:?}", w),
    }
}

#[test]
fn boolean_literals_are_recognized() {
    let (cfg, warns) = load(b"dnssec=no\nforce_ipv4=1\nforce_ipv6=false", ARCH);
    assert!(!cfg.dnssec);
    assert!(cfg.force_ipv4);
    assert!(!cfg.force_ipv6);
    assert!(warns.is_empty());
    let (cfg2, warns2) = load(b"dnssec=yes\nforce_ipv4=true\nforce_ipv6=0", ARCH);
    assert!(cfg2.dnssec);
    assert!(cfg2.force_ipv4);
    assert!(!cfg2.force_ipv6);
    assert!(warns2.is_empty());
}

#[test]
fn parse_bool_falls_back_to_the_given_default() {
    assert!(parse_bool(b"yes", false));
    assert!(parse_bool(b"1", false));
    assert!(!parse_bool(b"no", true));
    assert!(!parse_bool(b"0", true));
    assert!(parse_bool(b"maybe", true));
    assert!(!parse_bool(b"maybe", false));
}

#[test]
fn malformed_line_warns_with_line_number_and_continues() {
    let (cfg, warns) = load(b"this line is wrong\nkernel=FOO", ARCH);
    assert_eq!(cfg.kernel, b"FOO".to_vec());
    assert_eq!(warns.len(), 1);
    match &warns[0] {
        Warning::MalformedLine { line, text } => {
            assert_eq!(*line, 1);
            assert_eq!(text, &b"this line is wrong".to_vec());
        }
        w => panic!("unexpected warning {:?}", w),
    }
}

#[test]
fn unknown_key_warns_and_changes_nothing() {
    let (cfg, warns) = load(b"foo=bar", ARCH);
    let d = ConfigFile::defaults(ARCH);
    assert_eq!(cfg.dnsrec, d.dnsrec);
    assert_eq!(cfg.kernel, d.kernel);
    assert_eq!(cfg.capath, d.capath);
    assert_eq!(cfg.branch, d.branch);
    assert_eq!(cfg.baseurl, d.baseurl);
    assert_eq!(cfg.dnssec, d.dnssec);
    assert_eq!(cfg.force_ipv4, d.force_ipv4);
    assert_eq!(cfg.force_ipv6, d.force_ipv6);
    assert_eq!(warns.len(), 1);
    match &warns[0] {
        Warning::UnknownKey { line, key } => {
            assert_eq!(*line, 1);
            assert_eq!(key, &b"foo".to_vec());
        }
        w => panic!("unexpected warning {:?}", w),
    }
}

#[test]
fn quoted_value_round_trips() {
    let (cfg, warns) = load(b"kernel=\"MY KERNEL\"", ARCH);
    assert_eq!(cfg.kernel, b"MY KERNEL".to_vec());
    assert!(warns.is_empty());
}

#[test]
fn asymmetric_quotes_are_left_untouched() {
    let (cfg, _) = load(b"kernel=\"abc\ncapath=xyz\"", ARCH);
    assert_eq!(cfg.kernel, b"\"abc".to_vec());
    assert_eq!(cfg.capath, b"xyz\"".to_vec());
}

#[test]
fn strip_quotes_removes_one_layer() {
    assert_eq!(strip_quotes(b"\"abc\""), b"abc");
    assert_eq!(strip_quotes(b"\"\"abc\"\""), b"\"abc\"");
    assert_eq!(strip_quotes(b"abc"), b"abc");
    assert_eq!(strip_quotes(b"\""), b"\"");
    assert_eq!(strip_quotes(b"\"\""), b"");
}

#[test]
fn keys_and_values_are_trimmed_and_split_at_the_first_equals() {
    let (cfg, warns) = load(b"  kernel =  FOO  \ndnsrec=a=b=c", ARCH);
    assert_eq!(cfg.kernel, b"FOO".to_vec());
    assert_eq!(cfg.dnsrec, b"a=b=c".to_vec());
    assert!(warns.is_empty());
}

#[test]
fn carriage_returns_are_trimmed() {
    let (cfg, warns) = load(b"kernel=FOO\r\ncapath=/x/y\r\n", ARCH);
    assert_eq!(cfg.kernel, b"FOO".to_vec());
    assert_eq!(cfg.capath, b"/x/y".to_vec());
    assert!(warns.is_empty());
}

#[test]
fn later_lines_overwrite_earlier_ones() {
    let (cfg, warns) = load(b"kernel=ONE\nkernel=TWO", ARCH);
    assert_eq!(cfg.kernel, b"TWO".to_vec());
    assert!(warns.is_empty());
}

#[test]
fn empty_key_is_unknown() {
    let (cfg, warns) = load(b"=value", ARCH);
    assert_eq!(cfg.kernel, b"HARDENEDBSD".to_vec());
    assert_eq!(warns.len(), 1);
    match &warns[0] {
        Warning::UnknownKey { line, key } => {
            assert_eq!(*line, 1);
            assert_eq!(key, &Vec::<u8>::new());
        }
        w => panic!("unexpected warning {:?}", w),
    }
}

#[test]
fn warnings_come_in_file_order() {
    let (_, warns) = load(b"foo=1\nbad line\ndnssec=perhaps", ARCH);
    assert_eq!(warns.len(), 3);
    assert!(matches!(&warns[0], Warning::UnknownKey { line: 1, .. }));
    assert!(matches!(&warns[1], Warning::MalformedLine { line: 2, .. }));
    assert!(matches!(&warns[2], Warning::InvalidBool { line: 3, .. }));
}

#[test]
fn dnssec_material_paths() {
    let d = Dnssec::default();
    assert_eq!(
        d.dnssec_key,
        b"/usr/share/keys/hbsd-update/trusted/dnssec.key".to_vec()
    );
    assert_eq!(d.revoke_dir, b"/usr/share/keys/hbsd-update/revoked".to_vec());
}
