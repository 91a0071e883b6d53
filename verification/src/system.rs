//! The snapshot record and its assembly.
//!
//! `SystemInfo` is the one immutable record of the probe.  Construction
//! is atomic: either every field is resolved (the full capture) or the
//! degraded snapshot is used wholesale; hostname and shell failures are
//! absorbed locally with their own placeholders and never trigger the
//! degraded path.

use vstd::prelude::*;

use crate::env::{clone_opt, first_set_value, lemma_first_set_value_pair, pick2, resolve_env_any};
use crate::error::SystemError;
use crate::gpu::{get_gpus, gpu_names_spec, listing_view, platform_of, platform_spec, GpuPlatform};
use crate::metrics::collect_metrics;
use crate::num::{dec_spec, format_pct, pct_string, u64_to_string, usize_to_string};
use crate::placeholders::{UNKNOWN_CPU, UNKNOWN_GPU, UNKNOWN_HOST, UNKNOWN_SHELL, UNKNOWN_USER};
use crate::text::{join_comma, join_spec, str_eq, views_of};

verus! {

/// The raw readings of the process environment that snapshot assembly
/// works from: the current-directory query's outcome, the temporary
/// directory, the values of the candidate environment variables (`None`
/// when unset), the platform constants, and the GPU listing tool's
/// output (`None` when the tool could not be launched).
pub struct EnvProbe {
    pub current_dir: Result<String, String>,
    pub temp_dir: String,
    pub home: Option<String>,
    pub userprofile: Option<String>,
    pub user: Option<String>,
    pub username: Option<String>,
    pub hostname: Option<String>,
    pub computername: Option<String>,
    pub shell: Option<String>,
    pub comspec: Option<String>,
    pub os: String,
    pub arch: String,
    pub gpu_listing: Option<String>,
}

impl EnvProbe {
    /// The platform constants are compile-time identifiers and never
    /// empty.
    pub open spec fn wf(self) -> bool {
        self.os@.len() > 0 && self.arch@.len() > 0
    }

    /// What the home-directory lookup (`HOME`, then `USERPROFILE`)
    /// resolves to.
    pub open spec fn home_resolution(self) -> Option<Seq<char>> {
        pick2(self.home, self.userprofile)
    }

    /// What the username lookup (`USER`, then `USERNAME`) resolves to.
    pub open spec fn user_resolution(self) -> Option<Seq<char>> {
        pick2(self.user, self.username)
    }

    /// What the hostname lookup (`HOSTNAME`, then `COMPUTERNAME`)
    /// resolves to.
    pub open spec fn host_resolution(self) -> Option<Seq<char>> {
        pick2(self.hostname, self.computername)
    }

    /// What the shell lookup (`SHELL`, then `ComSpec`) resolves to.
    pub open spec fn shell_resolution(self) -> Option<Seq<char>> {
        pick2(self.shell, self.comspec)
    }

    /// Whether a mandatory step fails, so that only the degraded
    /// snapshot can be produced.
    pub open spec fn must_degrade(self) -> bool {
        ||| self.current_dir is Err
        ||| self.home_resolution() is None
        ||| self.user_resolution() is None
    }
}

/// The one-shot, immutable capture of host identity and resource state.
#[derive(Debug)]
pub struct SystemInfo {
    pub current_dir: String,
    pub home_dir: String,
    pub temp_dir: String,
    pub username: String,
    pub hostname: String,
    pub shell: String,
    pub os: String,
    pub arch: String,
    pub total_ram_kb: u64,
    pub used_ram_kb: u64,
    pub cpu_brand: String,
    pub cpu_cores: usize,
    pub gpu_names: Vec<String>,
}

impl SystemInfo {
    /// The deterministic fields of a successful capture, as resolved
    /// from the probe.  The RAM and CPU figures come from the metrics
    /// provider and are machine-dependent.
    pub open spec fn full_capture(self, probe: EnvProbe) -> bool {
        &&& probe.current_dir is Ok
        &&& self.current_dir@ == probe.current_dir->Ok_0@
        &&& probe.home_resolution() == Some(self.home_dir@)
        &&& self.temp_dir@ == probe.temp_dir@
        &&& probe.user_resolution() == Some(self.username@)
        &&& self.hostname@ == match probe.host_resolution() {
            Some(h) => h,
            None => UNKNOWN_HOST@,
        }
        &&& self.shell@ == match probe.shell_resolution() {
            Some(v) => v,
            None => UNKNOWN_SHELL@,
        }
        &&& self.os@ == probe.os@
        &&& self.arch@ == probe.arch@
        &&& views_of(self.gpu_names@) == gpu_names_spec(
            platform_spec(probe.os@),
            listing_view(probe.gpu_listing),
        )
    }

    /// The fixed degraded snapshot: OS and architecture still real,
    /// every other field a documented placeholder.
    pub open spec fn degraded_capture(self, probe: EnvProbe) -> bool {
        &&& self.current_dir@ == "."@
        &&& self.home_dir@ == Seq::<char>::empty()
        &&& self.temp_dir@ == probe.temp_dir@
        &&& self.username@ == UNKNOWN_USER@
        &&& self.hostname@ == UNKNOWN_HOST@
        &&& self.shell@ == UNKNOWN_SHELL@
        &&& self.os@ == probe.os@
        &&& self.arch@ == probe.arch@
        &&& self.total_ram_kb == 0
        &&& self.used_ram_kb == 0
        &&& self.cpu_brand@ == UNKNOWN_CPU@
        &&& self.cpu_cores == 0
        &&& views_of(self.gpu_names@) == seq![UNKNOWN_GPU@]
    }

    /// Which error a failed full capture reports: the current-directory
    /// failure first, then the home-directory concept, then the
    /// username concept.
    pub open spec fn error_of(probe: EnvProbe, e: SystemError) -> bool {
        if probe.current_dir is Err {
            e matches SystemError::Io(m) && m@ == probe.current_dir->Err_0@
        } else if probe.home_resolution() is None {
            e matches SystemError::MissingEnv(l) && l@ == "HOME/USERPROFILE"@
        } else {
            e matches SystemError::MissingEnv(l) && l@ == "USER/USERNAME"@
        }
    }

    /// Attempt the full capture.
    ///
    /// Fails if and only if a mandatory step fails: the
    /// current-directory query or the home-directory or username
    /// resolution.  Hostname and shell failures degrade locally to
    /// their placeholders.
    pub fn try_new(probe: &EnvProbe) -> (r: Result<SystemInfo, SystemError>)
        ensures
            match r {
                Ok(s) => {
                    &&& !probe.must_degrade()
                    &&& s.full_capture(*probe)
                    &&& s.gpu_names@.len() > 0
                    &&& (s.cpu_cores == 0 ==> s.cpu_brand@ == UNKNOWN_CPU@)
                },
                Err(e) => probe.must_degrade() && SystemInfo::error_of(*probe, e),
            },
    {
        let metrics = collect_metrics();
        let current_dir = match &probe.current_dir {
            Ok(d) => d.clone(),
            Err(m) => {
                return Err(SystemError::Io(m.clone()));
            },
        };
        let home_cands = vec![clone_opt(&probe.home), clone_opt(&probe.userprofile)];
        proof {
            lemma_first_set_value_pair(home_cands@, probe.home, probe.userprofile);
        }
        let home_dir = match resolve_env_any(&home_cands, "HOME/USERPROFILE") {
            Ok(v) => v,
            Err(e) => {
                return Err(e);
            },
        };
        let user_cands = vec![clone_opt(&probe.user), clone_opt(&probe.username)];
        proof {
            lemma_first_set_value_pair(user_cands@, probe.user, probe.username);
        }
        let username = match resolve_env_any(&user_cands, "USER/USERNAME") {
            Ok(v) => v,
            Err(e) => {
                return Err(e);
            },
        };
        let host_cands = vec![clone_opt(&probe.hostname), clone_opt(&probe.computername)];
        proof {
            lemma_first_set_value_pair(host_cands@, probe.hostname, probe.computername);
        }
        let hostname = match resolve_env_any(&host_cands, "HOSTNAME/COMPUTERNAME") {
            Ok(v) => v,
            Err(_) => String::from_str(UNKNOWN_HOST),
        };
        let shell_cands = vec![clone_opt(&probe.shell), clone_opt(&probe.comspec)];
        proof {
            lemma_first_set_value_pair(shell_cands@, probe.shell, probe.comspec);
        }
        let shell = match resolve_env_any(&shell_cands, "SHELL/ComSpec") {
            Ok(v) => v,
            Err(_) => String::from_str(UNKNOWN_SHELL),
        };
        let platform = platform_of(probe.os.as_str());
        let gpu_names = get_gpus(platform, &probe.gpu_listing);
        Ok(
            SystemInfo {
                current_dir,
                home_dir,
                temp_dir: probe.temp_dir.clone(),
                username,
                hostname,
                shell,
                os: probe.os.clone(),
                arch: probe.arch.clone(),
                total_ram_kb: metrics.total_ram_kb,
                used_ram_kb: metrics.used_ram_kb,
                cpu_brand: metrics.cpu_brand,
                cpu_cores: metrics.cpu_cores,
                gpu_names,
            },
        )
    }

    /// The fixed degraded snapshot for this probe.
    fn fallback(probe: &EnvProbe) -> (r: SystemInfo)
        ensures
            r.degraded_capture(*probe),
    {
        let mut gpu_names: Vec<String> = Vec::new();
        gpu_names.push(String::from_str(UNKNOWN_GPU));
        let r = SystemInfo {
            current_dir: String::from_str("."),
            home_dir: String::new(),
            temp_dir: probe.temp_dir.clone(),
            username: String::from_str(UNKNOWN_USER),
            hostname: String::from_str(UNKNOWN_HOST),
            shell: String::from_str(UNKNOWN_SHELL),
            os: probe.os.clone(),
            arch: probe.arch.clone(),
            total_ram_kb: 0,
            used_ram_kb: 0,
            cpu_brand: String::from_str(UNKNOWN_CPU),
            cpu_cores: 0,
            gpu_names,
        };
        proof {
            assert(views_of(r.gpu_names@) =~= seq![UNKNOWN_GPU@]);
        }
        r
    }

    /// Capture a snapshot.
    ///
    /// A snapshot is always producible: when a mandatory step fails the
    /// fixed degraded snapshot is returned in place of an error.  The
    /// operating system and architecture identifiers are populated
    /// truthfully on both paths and the GPU inventory is never empty.
    pub fn new(probe: &EnvProbe) -> (r: SystemInfo)
        requires
            probe.wf(),
        ensures
            !probe.must_degrade() ==> r.full_capture(*probe),
            probe.must_degrade() ==> r.degraded_capture(*probe),
            r.os@.len() > 0,
            r.arch@.len() > 0,
            r.gpu_names@.len() > 0,
            r.cpu_cores == 0 ==> r.cpu_brand@ == UNKNOWN_CPU@,
    {
        let r = match Self::try_new(probe) {
            Ok(s) => s,
            Err(_) => Self::fallback(probe),
        };
        proof {
            assert(views_of(r.gpu_names@).len() == r.gpu_names@.len());
        }
        r
    }

    /// Whether the captured platform is the Windows identifier.
    pub open spec fn spec_is_windows(self) -> bool {
        self.os@ == "windows"@
    }

    /// Whether the captured platform is one of the Unix-family
    /// identifiers this record recognizes: "linux" or "macos" (other
    /// POSIX-family identifiers are deliberately not recognized).
    pub open spec fn spec_is_unix(self) -> bool {
        self.os@ == "linux"@ || self.os@ == "macos"@
    }

    /// True iff the captured platform identifier is "windows".
    pub fn is_windows(&self) -> (r: bool)
        ensures
            r == self.spec_is_windows(),
    {
        str_eq(self.os.as_str(), "windows")
    }

    /// True iff the captured platform identifier is "linux" or "macos".
    pub fn is_unix(&self) -> (r: bool)
        ensures
            r == self.spec_is_unix(),
    {
        str_eq(self.os.as_str(), "linux") || str_eq(self.os.as_str(), "macos")
    }

    /// The report's fixed multi-line layout with every labeled field.
    pub open spec fn report_spec(self) -> Seq<char> {
        "System Information\n------------------\nOS           : "@ + self.os@ + " ("@ + self.arch@
            + ")\nUser         : "@ + self.username@ + "\nHost         : "@ + self.hostname@
            + "\nShell        : "@ + self.shell@ + "\nWorking dir  : "@ + self.current_dir@
            + "\nHome dir     : "@ + self.home_dir@ + "\nTemp dir     : "@ + self.temp_dir@
            + "\nTotal RAM    : "@ + dec_spec(self.total_ram_kb as nat) + " KB\nUsed RAM     : "@
            + dec_spec(self.used_ram_kb as nat) + " KB\nRAM Usage    : "@ + pct_string(
            self.total_ram_kb,
            self.used_ram_kb,
        ) + " %\nCPU Brand    : "@ + self.cpu_brand@ + "\nCPU Cores    : "@ + dec_spec(
            self.cpu_cores as nat,
        ) + "\nGPUs         : "@ + join_spec(views_of(self.gpu_names@)) + "\n"@
    }

    /// Render the fixed-layout report, with the RAM-usage percentage
    /// computed as `used / total * 100` and defined as zero when the
    /// total is zero.
    pub fn format_report(&self) -> (r: String)
        ensures
            r@ == self.report_spec(),
    {
        let mut r = String::from_str("System Information\n------------------\nOS           : ");
        r.append(self.os.as_str());
        r.append(" (");
        r.append(self.arch.as_str());
        r.append(")\nUser         : ");
        r.append(self.username.as_str());
        r.append("\nHost         : ");
        r.append(self.hostname.as_str());
        r.append("\nShell        : ");
        r.append(self.shell.as_str());
        r.append("\nWorking dir  : ");
        r.append(self.current_dir.as_str());
        r.append("\nHome dir     : ");
        r.append(self.home_dir.as_str());
        r.append("\nTemp dir     : ");
        r.append(self.temp_dir.as_str());
        r.append("\nTotal RAM    : ");
        let total_s = u64_to_string(self.total_ram_kb);
        r.append(total_s.as_str());
        r.append(" KB\nUsed RAM     : ");
        let used_s = u64_to_string(self.used_ram_kb);
        r.append(used_s.as_str());
        r.append(" KB\nRAM Usage    : ");
        let pct = format_pct(self.total_ram_kb, self.used_ram_kb);
        r.append(pct.as_str());
        r.append(" %\nCPU Brand    : ");
        r.append(self.cpu_brand.as_str());
        r.append("\nCPU Cores    : ");
        let cores_s = usize_to_string(self.cpu_cores);
        r.append(cores_s.as_str());
        r.append("\nGPUs         : ");
        let joined = join_comma(&self.gpu_names);
        r.append(joined.as_str());
        r.append("\n");
        r
    }
}

/// On every snapshot, `is_windows` and `is_unix` never both hold; on
/// the supported platform identifiers ("linux", "macos", "windows") at
/// least one of them holds.
pub proof fn lemma_platform_partition(s: SystemInfo)
    ensures
        !(s.spec_is_windows() && s.spec_is_unix()),
        s.os@ == "linux"@ || s.os@ == "macos"@ || s.os@ == "windows"@ ==> s.spec_is_windows()
            || s.spec_is_unix(),
{
    reveal_strlit("windows");
    reveal_strlit("linux");
    reveal_strlit("macos");
    assert("windows"@.len() == 7);
    assert("linux"@.len() == 5);
    assert("macos"@.len() == 5);
}

} // verus!
