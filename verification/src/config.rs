//! The configuration record, its compiled-in defaults, and the loader for the
//! line-oriented `key=value` configuration file.
//!
//! Text is handled as UTF-8 bytes.  The loader seeds the record with the
//! defaults, then scans the file line by line: each line is trimmed, the
//! tokens `$(uname -m)` and `${branch}` are expanded, comment and blank lines
//! are skipped, and the remainder is split at the first `=` and dispatched on
//! the key.  Per-line problems never fail the load; they are returned as a
//! structured list of warnings.

use crate::text::{
    bytes_eq, find_byte, index_of, lemma_index_of_props, replace_all, replace_spec, split_lines,
    split_lines_spec, trim_bytes, trim_spec,
};
use vstd::prelude::*;
use vstd::string::StringSliceAdditionalSpecFns;

verus! {

/// Default location of the configuration file.
pub const CONFIG_FILE_PATH: &'static str = "/etc/hbsd-update.conf";

/// Default trust-anchor directory.
pub const TRUSTED_CAPATH: &'static str = "/usr/share/keys/hbsd-update/trusted";

/// The authoritative settings record.  Every field has a compiled-in
/// default, so the record is fully populated even when the configuration
/// file is absent or empty.  String-valued fields hold UTF-8 bytes.
#[derive(Debug, Clone)]
pub struct ConfigFile {
    /// DNS record name used to discover updates.
    pub dnsrec: Vec<u8>,
    /// Kernel identifier.
    pub kernel: Vec<u8>,
    /// Directory holding the trust anchors for signature verification.
    pub capath: Vec<u8>,
    /// Update branch identifier.
    pub branch: Vec<u8>,
    /// Base update-source URL.
    pub baseurl: Vec<u8>,
    /// DNSSEC validation enabled.
    pub dnssec: bool,
    /// Force IPv4 transport.
    pub force_ipv4: bool,
    /// Force IPv6 transport.
    pub force_ipv6: bool,
}

/// The mathematical value of a [`ConfigFile`].
#[verifier::ext_equal]
pub struct ConfigView {
    pub dnsrec: Seq<u8>,
    pub kernel: Seq<u8>,
    pub capath: Seq<u8>,
    pub branch: Seq<u8>,
    pub baseurl: Seq<u8>,
    pub dnssec: bool,
    pub force_ipv4: bool,
    pub force_ipv6: bool,
}

impl View for ConfigFile {
    type V = ConfigView;

    open spec fn view(&self) -> ConfigView {
        ConfigView {
            dnsrec: self.dnsrec@,
            kernel: self.kernel@,
            capath: self.capath@,
            branch: self.branch@,
            baseurl: self.baseurl@,
            dnssec: self.dnssec,
            force_ipv4: self.force_ipv4,
            force_ipv6: self.force_ipv6,
        }
    }
}

/// The compiled-in defaults for the running platform's architecture
/// identifier `arch` (for example `amd64` or `arm64`).
pub open spec fn default_view(arch: Seq<u8>) -> ConfigView {
    ConfigView {
        dnsrec: arch + ".master.14-stable.hardened.hardenedbsd.updates.hardenedbsd.org".spec_bytes(),
        kernel: "HARDENEDBSD".spec_bytes(),
        capath: "/usr/share/keys/hbsd-update/trusted".spec_bytes(),
        branch: "hardened/14-stable/master".spec_bytes(),
        baseurl: "https://updates.hardenedbsd.org/pub/HardenedBSD/updates/hardened/14-stable/master/".spec_bytes()
            + arch,
        dnssec: true,
        force_ipv4: false,
        force_ipv6: false,
    }
}

impl ConfigFile {
    /// The record filled with the compiled-in defaults, templated with the
    /// given architecture identifier.
    pub fn defaults(arch: &[u8]) -> (r: ConfigFile)
        ensures
            r@ == default_view(arch@),
    {
        let mut dnsrec = vstd::slice::slice_to_vec(arch);
        dnsrec.extend_from_slice(
            ".master.14-stable.hardened.hardenedbsd.updates.hardenedbsd.org".as_bytes(),
        );
        let mut baseurl = vstd::slice::slice_to_vec(
            "https://updates.hardenedbsd.org/pub/HardenedBSD/updates/hardened/14-stable/master/".as_bytes(),
        );
        baseurl.extend_from_slice(arch);
        let r = ConfigFile {
            dnsrec,
            kernel: vstd::slice::slice_to_vec("HARDENEDBSD".as_bytes()),
            capath: vstd::slice::slice_to_vec("/usr/share/keys/hbsd-update/trusted".as_bytes()),
            branch: vstd::slice::slice_to_vec("hardened/14-stable/master".as_bytes()),
            baseurl,
            dnssec: true,
            force_ipv4: false,
            force_ipv6: false,
        };
        proof {
            assert(r@ =~~= default_view(arch@));
        }
        r
    }
}

/// Fixed locations of the DNSSEC key material, as UTF-8 path bytes.
#[derive(Debug, Clone)]
pub struct Dnssec {
    /// The trusted DNSSEC key file.
    pub dnssec_key: Vec<u8>,
    /// The directory of revoked keys.
    pub revoke_dir: Vec<u8>,
}

impl Default for Dnssec {
    fn default() -> (r: Self)
        ensures
            r.dnssec_key@ == "/usr/share/keys/hbsd-update/trusted/dnssec.key".spec_bytes(),
            r.revoke_dir@ == "/usr/share/keys/hbsd-update/revoked".spec_bytes(),
    {
        Dnssec {
            dnssec_key: vstd::slice::slice_to_vec(
                "/usr/share/keys/hbsd-update/trusted/dnssec.key".as_bytes(),
            ),
            revoke_dir: vstd::slice::slice_to_vec(
                "/usr/share/keys/hbsd-update/revoked".as_bytes(),
            ),
        }
    }
}

/// A recoverable problem found while scanning the configuration file.  Line
/// numbers are 1-based.
#[derive(Debug, Clone)]
pub enum Warning {
    /// A non-comment line without any `=`; carries the offending text after
    /// templating.
    MalformedLine { line: usize, text: Vec<u8> },
    /// A `key=value` line whose key is not recognized.
    UnknownKey { line: usize, key: Vec<u8> },
    /// A boolean-valued key whose value is none of the accepted literals.
    InvalidBool { line: usize, value: Vec<u8> },
}

/// The mathematical value of a [`Warning`].
pub enum WarningView {
    MalformedLine { line: int, text: Seq<u8> },
    UnknownKey { line: int, key: Seq<u8> },
    InvalidBool { line: int, value: Seq<u8> },
}

impl View for Warning {
    type V = WarningView;

    open spec fn view(&self) -> WarningView {
        match self {
            Warning::MalformedLine { line, text } => WarningView::MalformedLine {
                line: *line as int,
                text: text@,
            },
            Warning::UnknownKey { line, key } => WarningView::UnknownKey {
                line: *line as int,
                key: key@,
            },
            Warning::InvalidBool { line, value } => WarningView::InvalidBool {
                line: *line as int,
                value: value@,
            },
        }
    }
}

/// The architecture-templating token.
pub open spec fn uname_token() -> Seq<u8> {
    "$(uname -m)".spec_bytes()
}

/// The branch-templating token.
pub open spec fn branch_token() -> Seq<u8> {
    "${branch}".spec_bytes()
}

/// `v` with one layer of surrounding double quotes removed, when both a
/// leading and a trailing quote are present; asymmetric quoting is left
/// untouched.
pub open spec fn strip_quotes_spec(v: Seq<u8>) -> Seq<u8> {
    if v.len() >= 2 && v[0] == 34 && v[v.len() - 1] == 34 {
        v.subrange(1, v.len() - 1)
    } else {
        v
    }
}

/// Removes surrounding double quotes, if both are present.
pub fn strip_quotes(s: &[u8]) -> (r: &[u8])
    ensures
        r@ == strip_quotes_spec(s@),
{
    if s.len() >= 2 && s[0] == 34 && s[s.len() - 1] == 34 {
        &s[1..s.len() - 1]
    } else {
        s
    }
}

/// The boolean literals: `yes`, `true` and `1` mean `true`; `no`, `false`
/// and `0` mean `false`; anything else is invalid.
pub open spec fn bool_token(v: Seq<u8>) -> Option<bool> {
    if v == "yes".spec_bytes() || v == "true".spec_bytes() || v == "1".spec_bytes() {
        Some(true)
    } else if v == "no".spec_bytes() || v == "false".spec_bytes() || v == "0".spec_bytes() {
        Some(false)
    } else {
        None
    }
}

/// Recognizes the boolean literals.
pub fn parse_bool_token(v: &[u8]) -> (r: Option<bool>)
    ensures
        r == bool_token(v@),
{
    if bytes_eq(v, "yes".as_bytes()) || bytes_eq(v, "true".as_bytes()) || bytes_eq(
        v,
        "1".as_bytes(),
    ) {
        Some(true)
    } else if bytes_eq(v, "no".as_bytes()) || bytes_eq(v, "false".as_bytes()) || bytes_eq(
        v,
        "0".as_bytes(),
    ) {
        Some(false)
    } else {
        None
    }
}

/// Parses a boolean literal, keeping `default` when the literal is invalid.
pub fn parse_bool(value: &[u8], default: bool) -> (r: bool)
    ensures
        r == (match bool_token(value@) {
            Some(b) => b,
            None => default,
        }),
{
    match parse_bool_token(value) {
        Some(b) => b,
        None => default,
    }
}

/// Replaces every `$(uname -m)` token with the architecture identifier.
pub fn expand_uname_m(s: &[u8], arch: &[u8]) -> (r: Vec<u8>)
    ensures
        r@ == replace_spec(s@, uname_token(), arch@),
{
    replace_all(s, "$(uname -m)".as_bytes(), arch)
}

/// Replaces every `${branch}` token with the current branch value.
pub fn expand_branch(s: &[u8], branch: &[u8]) -> (r: Vec<u8>)
    ensures
        r@ == replace_spec(s@, branch_token(), branch@),
{
    replace_all(s, "${branch}".as_bytes(), branch)
}

/// The effect of one `key=value` pair on the record: recognized string keys
/// overwrite their field; boolean keys overwrite theirs when the value is a
/// valid boolean literal and otherwise keep the field and warn; an
/// unrecognized key changes nothing and warns.
pub open spec fn set_key(cfg: ConfigView, key: Seq<u8>, value: Seq<u8>, lineno: int) -> (
    ConfigView,
    Option<WarningView>,
) {
    if key == "capath".spec_bytes() {
        (ConfigView { capath: value, ..cfg }, None)
    } else if key == "dnsrec".spec_bytes() {
        (ConfigView { dnsrec: value, ..cfg }, None)
    } else if key == "kernel".spec_bytes() {
        (ConfigView { kernel: value, ..cfg }, None)
    } else if key == "branch".spec_bytes() {
        (ConfigView { branch: value, ..cfg }, None)
    } else if key == "baseurl".spec_bytes() {
        (ConfigView { baseurl: value, ..cfg }, None)
    } else if key == "dnssec".spec_bytes() {
        match bool_token(value) {
            Some(b) => (ConfigView { dnssec: b, ..cfg }, None),
            None => (cfg, Some(WarningView::InvalidBool { line: lineno, value })),
        }
    } else if key == "force_ipv4".spec_bytes() {
        match bool_token(value) {
            Some(b) => (ConfigView { force_ipv4: b, ..cfg }, None),
            None => (cfg, Some(WarningView::InvalidBool { line: lineno, value })),
        }
    } else if key == "force_ipv6".spec_bytes() {
        match bool_token(value) {
            Some(b) => (ConfigView { force_ipv6: b, ..cfg }, None),
            None => (cfg, Some(WarningView::InvalidBool { line: lineno, value })),
        }
    } else {
        (cfg, Some(WarningView::UnknownKey { line: lineno, key }))
    }
}

/// One raw line after trimming and templating against the record's current
/// branch value.
pub open spec fn templated_line(raw: Seq<u8>, arch: Seq<u8>, branch: Seq<u8>) -> Seq<u8> {
    replace_spec(replace_spec(trim_spec(raw), uname_token(), arch), branch_token(), branch)
}

/// The effect of one raw line on the record: trim, expand both templating
/// tokens, skip blank and comment lines, split at the first `=`, trim and
/// unquote, then dispatch on the key.  A line without `=` changes nothing
/// and warns.
pub open spec fn line_effect(cfg: ConfigView, arch: Seq<u8>, raw: Seq<u8>, lineno: int) -> (
    ConfigView,
    Option<WarningView>,
) {
    let line = templated_line(raw, arch, cfg.branch);
    if line.len() == 0 || line[0] == 35 {
        (cfg, None)
    } else {
        let k = index_of(line, 61);
        if k < 0 {
            (cfg, Some(WarningView::MalformedLine { line: lineno, text: line }))
        } else {
            let key = trim_spec(line.take(k));
            let value = strip_quotes_spec(trim_spec(line.skip(k + 1)));
            set_key(cfg, key, value, lineno)
        }
    }
}

/// Warnings contributed by one line.
pub open spec fn warn_seq(w: Option<WarningView>) -> Seq<WarningView> {
    match w {
        Some(x) => seq![x],
        None => Seq::empty(),
    }
}

/// The record and warnings after scanning `lines` top to bottom, starting
/// from `cfg`, with the first line numbered `first`.  Later lines for the
/// same key overwrite earlier ones, and branch templating sees the value a
/// `branch=` line set earlier in the same file.
pub open spec fn run_lines(cfg: ConfigView, arch: Seq<u8>, lines: Seq<Seq<u8>>, first: int) -> (
    ConfigView,
    Seq<WarningView>,
)
    decreases lines.len(),
{
    if lines.len() == 0 {
        (cfg, Seq::empty())
    } else {
        let step = line_effect(cfg, arch, lines[0], first);
        let rest = run_lines(step.0, arch, lines.skip(1), first + 1);
        (rest.0, warn_seq(step.1) + rest.1)
    }
}

/// The views of a list of warnings.
pub open spec fn warnings_view(ws: Seq<Warning>) -> Seq<WarningView> {
    ws.map_values(|w: Warning| w@)
}

/// The view of an optional warning.
pub open spec fn opt_warning_view(w: Option<Warning>) -> Option<WarningView> {
    match w {
        Some(x) => Some(x@),
        None => None,
    }
}

/// What [`load`] returns: the defaults overlaid with every line of the file,
/// with 1-based line numbers, plus the warnings in file order.
pub open spec fn load_spec(content: Seq<u8>, arch: Seq<u8>) -> (ConfigView, Seq<WarningView>) {
    run_lines(default_view(arch), arch, split_lines_spec(content), 1)
}

fn set_key_exec(cfg: ConfigFile, key: &[u8], value: &[u8], lineno: usize) -> (r: (
    ConfigFile,
    Option<Warning>,
))
    ensures
        r.0@ == set_key(cfg@, key@, value@, lineno as int).0,
        opt_warning_view(r.1) == set_key(cfg@, key@, value@, lineno as int).1,
{
    if bytes_eq(key, "capath".as_bytes()) {
        (ConfigFile { capath: vstd::slice::slice_to_vec(value), ..cfg }, None)
    } else if bytes_eq(key, "dnsrec".as_bytes()) {
        (ConfigFile { dnsrec: vstd::slice::slice_to_vec(value), ..cfg }, None)
    } else if bytes_eq(key, "kernel".as_bytes()) {
        (ConfigFile { kernel: vstd::slice::slice_to_vec(value), ..cfg }, None)
    } else if bytes_eq(key, "branch".as_bytes()) {
        (ConfigFile { branch: vstd::slice::slice_to_vec(value), ..cfg }, None)
    } else if bytes_eq(key, "baseurl".as_bytes()) {
        (ConfigFile { baseurl: vstd::slice::slice_to_vec(value), ..cfg }, None)
    } else if bytes_eq(key, "dnssec".as_bytes()) {
        match parse_bool_token(value) {
            Some(b) => (ConfigFile { dnssec: b, ..cfg }, None),
            None => (
                cfg,
                Some(Warning::InvalidBool { line: lineno, value: vstd::slice::slice_to_vec(value) }),
            ),
        }
    } else if bytes_eq(key, "force_ipv4".as_bytes()) {
        match parse_bool_token(value) {
            Some(b) => (ConfigFile { force_ipv4: b, ..cfg }, None),
            None => (
                cfg,
                Some(Warning::InvalidBool { line: lineno, value: vstd::slice::slice_to_vec(value) }),
            ),
        }
    } else if bytes_eq(key, "force_ipv6".as_bytes()) {
        match parse_bool_token(value) {
            Some(b) => (ConfigFile { force_ipv6: b, ..cfg }, None),
            None => (
                cfg,
                Some(Warning::InvalidBool { line: lineno, value: vstd::slice::slice_to_vec(value) }),
            ),
        }
    } else {
        (cfg, Some(Warning::UnknownKey { line: lineno, key: vstd::slice::slice_to_vec(key) }))
    }
}

/// Applies one raw configuration line to the record.
fn apply_line(cfg: ConfigFile, raw: &[u8], lineno: usize, arch: &[u8]) -> (r: (
    ConfigFile,
    Option<Warning>,
))
    ensures
        r.0@ == line_effect(cfg@, arch@, raw@, lineno as int).0,
        opt_warning_view(r.1) == line_effect(cfg@, arch@, raw@, lineno as int).1,
{
    let trimmed = trim_bytes(raw);
    let expanded = expand_uname_m(trimmed, arch);
    let line = expand_branch(expanded.as_slice(), cfg.branch.as_slice());
    let ls = line.as_slice();
    if ls.len() == 0 || ls[0] == 35 {
        return (cfg, None);
    }
    proof {
        lemma_index_of_props(ls@, 61);
    }
    match find_byte(ls, 61) {
        None => (cfg, Some(Warning::MalformedLine { line: lineno, text: line })),
        Some(k) => {
            let key = trim_bytes(&ls[0..k]);
            proof {
                assert(ls@.subrange(0, k as int) =~= ls@.take(k as int));
            }
            let value = strip_quotes(trim_bytes(&ls[k + 1..ls.len()]));
            proof {
                assert(ls@.subrange(k as int + 1, ls@.len() as int) =~= ls@.skip(k as int + 1));
            }
            set_key_exec(cfg, key, value, lineno)
        },
    }
}

/// Builds the configuration record from the bytes of the configuration file
/// and the running platform's architecture identifier.  Always succeeds:
/// per-line problems are returned as warnings, in file order, and leave the
/// affected field at its prior value.
pub fn load(content: &[u8], arch: &[u8]) -> (r: (ConfigFile, Vec<Warning>))
    ensures
        r.0@ == load_spec(content@, arch@).0,
        warnings_view(r.1@) == load_spec(content@, arch@).1,
{
    let lines = split_lines(content);
    let ghost all = lines.deep_view();
    let mut cfg = ConfigFile::defaults(arch);
    let mut warns: Vec<Warning> = Vec::new();
    let ghost target = load_spec(content@, arch@);
    let mut i: usize = 0;
    proof {
        assert(all.skip(0) =~~= all);
        assert(warnings_view(warns@) =~= Seq::<WarningView>::empty());
        assert(Seq::<WarningView>::empty() + run_lines(cfg@, arch@, all, 1).1 =~= run_lines(
            cfg@,
            arch@,
            all,
            1,
        ).1);
    }
    while i < lines.len()
        invariant
            0 <= i <= lines@.len(),
            all == lines.deep_view(),
            all.len() == lines@.len(),
            target == load_spec(content@, arch@),
            target.0 == run_lines(cfg@, arch@, all.skip(i as int), i as int + 1).0,
            target.1 == warnings_view(warns@) + run_lines(
                cfg@,
                arch@,
                all.skip(i as int),
                i as int + 1,
            ).1,
        decreases lines@.len() - i,
    {
        let ghost rem = all.skip(i as int);
        let ghost step = line_effect(cfg@, arch@, all[i as int], i as int + 1);
        let ghost rest = run_lines(step.0, arch@, all.skip(i as int + 1), i as int + 2);
        proof {
            assert(rem[0] == all[i as int]);
            assert(rem.skip(1) =~~= all.skip(i as int + 1));
            assert(run_lines(cfg@, arch@, rem, i as int + 1).0 == rest.0);
            assert(run_lines(cfg@, arch@, rem, i as int + 1).1 == warn_seq(step.1) + rest.1);
            assert(all[i as int] == lines@[i as int]@);
        }
        let line = &lines[i];
        let stepped = apply_line(cfg, line.as_slice(), i + 1, arch);
        cfg = stepped.0;
        let ghost warns0 = warns@;
        match stepped.1 {
            Some(w) => {
                let ghost wv = w@;
                warns.push(w);
                proof {
                    assert(warnings_view(warns@) =~= warnings_view(warns0).push(wv));
                    assert(warn_seq(step.1) =~= seq![wv]);
                    assert(warnings_view(warns0) + (seq![wv] + rest.1) =~= warnings_view(warns@)
                        + rest.1);
                }
            },
            None => {
                proof {
                    assert(warn_seq(step.1) =~= Seq::<WarningView>::empty());
                    assert(warnings_view(warns0) + (Seq::<WarningView>::empty() + rest.1)
                        =~= warnings_view(warns@) + rest.1);
                }
            },
        }
        i = i + 1;
    }
    proof {
        assert(all.skip(all.len() as int) =~~= Seq::<Seq<u8>>::empty());
        assert(warnings_view(warns@) + Seq::<WarningView>::empty() =~= warnings_view(warns@));
    }
    (cfg, warns)
}

/// An empty configuration file leaves every field at its compiled-in
/// default, architecture templating included, and produces no warning.
pub proof fn lemma_load_empty(arch: Seq<u8>)
    ensures
        load_spec(Seq::empty(), arch).0 == default_view(arch),
        load_spec(Seq::empty(), arch).1 == Seq::<WarningView>::empty(),
{
    let e = Seq::<u8>::empty();
    let d = default_view(arch);
    let lines = seq![e];
    assert(index_of(e, 10) == -1);
    assert(split_lines_spec(e) =~~= lines);
    assert(trim_spec(e) == e);
    assert(templated_line(e, arch, d.branch) == e);
    assert(line_effect(d, arch, e, 1) == (d, None::<WarningView>));
    assert(lines.skip(1) =~~= Seq::<Seq<u8>>::empty());
    assert(run_lines(d, arch, Seq::<Seq<u8>>::empty(), 2) == (
        d,
        Seq::<WarningView>::empty(),
    ));
    assert(warn_seq(None::<WarningView>) + Seq::<WarningView>::empty()
        =~= Seq::<WarningView>::empty());
    assert(run_lines(d, arch, lines, 1).0 == d);
    assert(run_lines(d, arch, lines, 1).1 =~= Seq::<WarningView>::empty());
}

proof fn lemma_dnssec_key_distinct()
    ensures
        "dnssec".spec_bytes() != "capath".spec_bytes(),
        "dnssec".spec_bytes() != "dnsrec".spec_bytes(),
        "dnssec".spec_bytes() != "kernel".spec_bytes(),
        "dnssec".spec_bytes() != "branch".spec_bytes(),
        "dnssec".spec_bytes() != "baseurl".spec_bytes(),
{
    reveal_strlit("dnssec");
    reveal_strlit("capath");
    reveal_strlit("dnsrec");
    reveal_strlit("kernel");
    reveal_strlit("branch");
    reveal_strlit("baseurl");
    vstd::string::is_ascii_spec_bytes("dnssec");
    vstd::string::is_ascii_spec_bytes("capath");
    vstd::string::is_ascii_spec_bytes("dnsrec");
    vstd::string::is_ascii_spec_bytes("kernel");
    vstd::string::is_ascii_spec_bytes("branch");
    vstd::string::is_ascii_spec_bytes("baseurl");
    assert("dnssec".spec_bytes()[0] == 'd' as u8);
    assert("capath".spec_bytes()[0] == 'c' as u8);
    assert("dnssec".spec_bytes()[3] == 's' as u8);
    assert("dnsrec".spec_bytes()[3] == 'r' as u8);
    assert("kernel".spec_bytes()[0] == 'k' as u8);
    assert("branch".spec_bytes()[0] == 'b' as u8);
    assert("baseurl".spec_bytes()[0] == 'b' as u8);
}

proof fn lemma_branch_key_distinct()
    ensures
        "branch".spec_bytes() != "capath".spec_bytes(),
        "branch".spec_bytes() != "dnsrec".spec_bytes(),
        "branch".spec_bytes() != "kernel".spec_bytes(),
{
    reveal_strlit("branch");
    reveal_strlit("capath");
    reveal_strlit("dnsrec");
    reveal_strlit("kernel");
    vstd::string::is_ascii_spec_bytes("branch");
    vstd::string::is_ascii_spec_bytes("capath");
    vstd::string::is_ascii_spec_bytes("dnsrec");
    vstd::string::is_ascii_spec_bytes("kernel");
    assert("branch".spec_bytes()[0] == 'b' as u8);
    assert("capath".spec_bytes()[0] == 'c' as u8);
    assert("dnsrec".spec_bytes()[0] == 'd' as u8);
    assert("kernel".spec_bytes()[0] == 'k' as u8);
}

/// A `branch=` line silently replaces the live branch value, and the scan of
/// every later line templates `${branch}` against that live value, not the
/// compiled-in default: the effect of the lines after the first is computed
/// from the record the first line produced.
pub proof fn lemma_branch_templating_is_live(
    cfg: ConfigView,
    arch: Seq<u8>,
    b: Seq<u8>,
    lines: Seq<Seq<u8>>,
    first: int,
)
    requires
        lines.len() > 0,
    ensures
        set_key(cfg, "branch".spec_bytes(), b, first).0 == (ConfigView { branch: b, ..cfg }),
        set_key(cfg, "branch".spec_bytes(), b, first).1 is None,
        run_lines(cfg, arch, lines, first).0 == run_lines(
            line_effect(cfg, arch, lines[0], first).0,
            arch,
            lines.skip(1),
            first + 1,
        ).0,
{
    lemma_branch_key_distinct();
}

/// A boolean-valued key given an invalid literal keeps whatever value the
/// field held immediately before that line — not necessarily the
/// compiled-in default — and contributes exactly one invalid-boolean
/// warning naming the line.
pub proof fn lemma_invalid_bool_keeps_value(cfg: ConfigView, value: Seq<u8>, lineno: int)
    requires
        bool_token(value) is None,
    ensures
        set_key(cfg, "dnssec".spec_bytes(), value, lineno).0 == cfg,
        set_key(cfg, "dnssec".spec_bytes(), value, lineno).1 == Some(
            WarningView::InvalidBool { line: lineno, value },
        ),
{
    lemma_dnssec_key_distinct();
}

/// A non-comment, non-blank line without any `=` changes no field and
/// contributes exactly one malformed-line warning carrying its 1-based line
/// number and the offending text; the scan of the remaining lines is
/// unaffected.
pub proof fn lemma_malformed_line_warns(cfg: ConfigView, arch: Seq<u8>, raw: Seq<u8>, lineno: int)
    requires
        templated_line(raw, arch, cfg.branch).len() > 0,
        templated_line(raw, arch, cfg.branch)[0] != 35,
        forall|k: int|
            0 <= k < templated_line(raw, arch, cfg.branch).len() ==> templated_line(
                raw,
                arch,
                cfg.branch,
            )[k] != 61,
    ensures
        line_effect(cfg, arch, raw, lineno).0 == cfg,
        line_effect(cfg, arch, raw, lineno).1 == Some(
            WarningView::MalformedLine {
                line: lineno,
                text: templated_line(raw, arch, cfg.branch),
            },
        ),
{
    lemma_index_of_props(templated_line(raw, arch, cfg.branch), 61);
}

/// A `key=value` line whose key is none of the recognized keys changes no
/// field and contributes exactly one unknown-key warning carrying the key
/// and the 1-based line number.
pub proof fn lemma_unknown_key_ignored(cfg: ConfigView, key: Seq<u8>, value: Seq<u8>, lineno: int)
    requires
        key != "capath".spec_bytes(),
        key != "dnsrec".spec_bytes(),
        key != "kernel".spec_bytes(),
        key != "branch".spec_bytes(),
        key != "baseurl".spec_bytes(),
        key != "dnssec".spec_bytes(),
        key != "force_ipv4".spec_bytes(),
        key != "force_ipv6".spec_bytes(),
    ensures
        set_key(cfg, key, value, lineno).0 == cfg,
        set_key(cfg, key, value, lineno).1 == Some(
            WarningView::UnknownKey { line: lineno, key },
        ),
{
}

proof fn lemma_token_shapes()
    ensures
        uname_token().len() == 11,
        uname_token()[0] == 36,
        branch_token().len() == 9,
        branch_token()[0] == 36,
{
    reveal_strlit("$(uname -m)");
    reveal_strlit("${branch}");
    vstd::string::is_ascii_spec_bytes("$(uname -m)");
    vstd::string::is_ascii_spec_bytes("${branch}");
    assert(uname_token()[0] == '$' as u8);
    assert(branch_token()[0] == '$' as u8);
}

proof fn lemma_dollar_token_expansion(pre: Seq<u8>, post: Seq<u8>, tok: Seq<u8>, rep: Seq<u8>)
    requires
        tok.len() > 0,
        tok[0] == 36,
        forall|k: int| 0 <= k < pre.len() ==> pre[k] != 36,
    ensures
        replace_spec(pre + tok + post, tok, rep) == pre + rep + replace_spec(post, tok, rep),
    decreases pre.len(),
{
    let s = pre + tok + post;
    if pre.len() == 0 {
        assert(s.take(tok.len() as int) =~= tok);
        assert(s.skip(tok.len() as int) =~= post);
        assert(pre + rep + replace_spec(post, tok, rep) =~= rep + replace_spec(post, tok, rep));
    } else {
        assert(s[0] == pre[0]);
        assert(s.len() >= tok.len());
        if s.take(tok.len() as int) == tok {
            assert(s.take(tok.len() as int)[0] == tok[0]);
            assert(false);
        }
        let pre1 = pre.drop_first();
        assert(forall|k: int| 0 <= k < pre1.len() ==> pre1[k] == pre[k + 1]);
        lemma_dollar_token_expansion(pre1, post, tok, rep);
        assert(s.drop_first() =~= pre1 + tok + post);
        assert(seq![s[0]] + (pre1 + rep + replace_spec(post, tok, rep)) =~= pre + rep
            + replace_spec(post, tok, rep));
    }
}

/// Architecture templating rewrites values in place: wherever a line holds
/// the token `$(uname -m)` after a dollar-free prefix, expansion yields the
/// prefix, then the architecture identifier, then the expanded remainder.
/// Expansion runs on the whole line, before the split into key and value.
pub proof fn lemma_uname_expansion(pre: Seq<u8>, post: Seq<u8>, arch: Seq<u8>)
    requires
        forall|k: int| 0 <= k < pre.len() ==> pre[k] != 36,
    ensures
        replace_spec(pre + uname_token() + post, uname_token(), arch) == pre + arch
            + replace_spec(post, uname_token(), arch),
{
    lemma_token_shapes();
    lemma_dollar_token_expansion(pre, post, uname_token(), arch);
}

/// Branch templating rewrites values the same way: wherever a line holds
/// the token `${branch}` after a dollar-free prefix, expansion yields the
/// prefix, then the branch value the record held when the line was reached,
/// then the expanded remainder.
pub proof fn lemma_branch_expansion(pre: Seq<u8>, post: Seq<u8>, branch: Seq<u8>)
    requires
        forall|k: int| 0 <= k < pre.len() ==> pre[k] != 36,
    ensures
        replace_spec(pre + branch_token() + post, branch_token(), branch) == pre + branch
            + replace_spec(post, branch_token(), branch),
{
    lemma_token_shapes();
    lemma_dollar_token_expansion(pre, post, branch_token(), branch);
}

/// Per-line problems are advisory: any line that contributes a warning —
/// malformed, unknown key, or invalid boolean — leaves every field of the
/// record exactly as it was.
pub proof fn lemma_warned_line_changes_nothing(
    cfg: ConfigView,
    arch: Seq<u8>,
    raw: Seq<u8>,
    lineno: int,
)
    requires
        line_effect(cfg, arch, raw, lineno).1 is Some,
    ensures
        line_effect(cfg, arch, raw, lineno).0 == cfg,
{
}

/// Round trip: wrapping any value in one layer of double quotes and
/// stripping them afterwards gives the value back unchanged.
pub proof fn lemma_quote_round_trip(v: Seq<u8>)
    ensures
        strip_quotes_spec(seq![34u8] + v + seq![34u8]) == v,
{
    let q = seq![34u8] + v + seq![34u8];
    assert(q[0] == 34);
    assert(q[q.len() - 1] == 34);
    assert(q.subrange(1, q.len() - 1) =~= v);
}

} // verus!
