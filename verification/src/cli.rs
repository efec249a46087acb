//! Command-line option records and the negation-pair resolution step.
//!
//! Boolean switches default to `false`, except `integriforce` and `dnssec`,
//! which default to `true` and come with a `--no-` negation switch.  The
//! negation switches arrive as the transient fields `_integriforce_off` and
//! `_dnssec_off`; [`Cli::normalize`] folds them into the positive fields and
//! clears them, so that downstream code sees one authoritative boolean per
//! option.

use vstd::prelude::*;

verus! {

/// One field per long-form switch, plus the free-form string options and the
/// configuration-file path.
#[derive(Debug, Clone)]
pub struct Cli {
    /// Fetch only (do not install).
    pub fetchonly: bool,
    /// Download only (fetch payloads but do not proceed to install/apply).
    pub downloadonly: bool,
    /// Ignore version check.
    pub ignorever: bool,
    /// Install sources (if present).
    pub install_src: bool,
    /// Force integrity verification (enabled by default).
    pub integriforce: bool,
    /// Transient: the `--no-integriforce` switch was given.
    pub _integriforce_off: bool,
    /// Interactively remove obsolete files.
    pub interactive: bool,
    /// Keep temporary directory/files.
    pub keeptmp: bool,
    /// Use the system resolver for remote checks.
    pub remote_resolver: bool,
    /// Machine-readable output.
    pub machine_readable: bool,
    /// Do not install kernel.
    pub no_kernel: bool,
    /// Do not remove obsolete files/directories.
    pub no_obsolete: bool,
    /// Do not update the base system.
    pub nobase: bool,
    /// Do not download (assume artifacts already present).
    pub nodownload: bool,
    /// Skip signature checks / allow unsigned updates.
    pub unsigned: bool,
    /// Verbose output.
    pub verbose: bool,
    /// Force IPv4; mutually exclusive with `force_ipv6`.
    pub force_ipv4: bool,
    /// Force IPv6; mutually exclusive with `force_ipv4`.
    pub force_ipv6: bool,
    /// Enable DNSSEC validation (enabled by default).
    pub dnssec: bool,
    /// Transient: the `--no-dnssec` switch was given.
    pub _dnssec_off: bool,
    /// Pinned expected update hash; empty means "auto".
    pub update_hash: String,
    /// Extra network flag string; empty means "none".
    pub net_flag: String,
    /// Path of the configuration file to load.
    pub config_file: String,
}

/// The effect of [`Cli::normalize`]: each negation request forces its positive
/// option to `false`, and both transient fields are reset to `false`.
pub open spec fn spec_normalize(c: Cli) -> Cli {
    Cli {
        integriforce: c.integriforce && !c._integriforce_off,
        dnssec: c.dnssec && !c._dnssec_off,
        _integriforce_off: false,
        _dnssec_off: false,
        ..c
    }
}

impl Cli {
    /// Resolve the negation-pair switches into the primary booleans.
    ///
    /// A `--no-<X>` switch overrides the positive default to `false`
    /// regardless of whether the positive switch was also given.  The
    /// transient fields are cleared afterwards, so no residual negation state
    /// is visible to consumers.
    pub fn normalize(self) -> (r: Self)
        ensures
            r == spec_normalize(self),
    {
        let Cli {
            fetchonly,
            downloadonly,
            ignorever,
            install_src,
            integriforce,
            _integriforce_off,
            interactive,
            keeptmp,
            remote_resolver,
            machine_readable,
            no_kernel,
            no_obsolete,
            nobase,
            nodownload,
            unsigned,
            verbose,
            force_ipv4,
            force_ipv6,
            dnssec,
            _dnssec_off,
            update_hash,
            net_flag,
            config_file,
        } = self;
        Cli {
            fetchonly,
            downloadonly,
            ignorever,
            install_src,
            integriforce: integriforce && !_integriforce_off,
            _integriforce_off: false,
            interactive,
            keeptmp,
            remote_resolver,
            machine_readable,
            no_kernel,
            no_obsolete,
            nobase,
            nodownload,
            unsigned,
            verbose,
            force_ipv4,
            force_ipv6,
            dnssec: dnssec && !_dnssec_off,
            _dnssec_off: false,
            update_hash,
            net_flag,
            config_file,
        }
    }

    /// The `force_ipv4`/`force_ipv6` pair is mutually exclusive: supplying
    /// both is a usage error.  Returns whether this record is in that
    /// conflicting state.
    pub fn conflicting_ip_flags(&self) -> (r: bool)
        ensures
            r == (self.force_ipv4 && self.force_ipv6),
    {
        self.force_ipv4 && self.force_ipv6
    }
}

/// For every option with a negatable `true` default, and whatever else was
/// passed: giving only the negation switch yields `false`; giving neither
/// switch keeps the compiled default `true`; giving both the positive and the
/// negation switch yields `false` (negation wins).  In each of those cases the
/// positive field still holds its `true` default when resolution starts, so
/// the resolved value is exactly the absence of the negation request.
pub proof fn lemma_negation_resolution(c: Cli)
    requires
        c.integriforce,
        c.dnssec,
    ensures
        spec_normalize(c).integriforce == !c._integriforce_off,
        spec_normalize(c).dnssec == !c._dnssec_off,
{
}

/// Resolution clears the transient negation fields to their own defaults, so
/// running it a second time changes nothing: resolution is idempotent.
pub proof fn lemma_normalize_idempotent(c: Cli)
    ensures
        spec_normalize(spec_normalize(c)) == spec_normalize(c),
{
}

} // verus!
