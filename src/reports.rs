//! Step reports of the installer, uninstaller and updater, and their
//! terminal rendering.

use vstd::prelude::*;
use crate::text::{decimal, push_decimal};

verus! {

/// A single step of an install, uninstall or update run.
#[derive(Debug, Clone, PartialEq, Eq)]
pub struct InstallStep {
    pub description: String,
    pub done: bool,
    pub error: Option<String>,
}

/// Steps of an update run have the same shape.
pub type UpdateStep = InstallStep;

/// Report of an install run.
#[derive(Debug, Clone, PartialEq, Eq)]
pub struct InstallReport {
    pub steps: Vec<InstallStep>,
    pub success: bool,
    pub config_path: Option<String>,
    pub data_dir: Option<String>,
    pub ballast_dir: Option<String>,
    pub ballast_files_created: usize,
    pub ballast_bytes: u64,
    pub dry_run: bool,
}

/// Report of an uninstall cleanup run.
#[derive(Debug, Clone, PartialEq, Eq)]
pub struct UninstallReport {
    pub steps: Vec<InstallStep>,
    pub success: bool,
    pub bytes_reclaimed: u64,
    pub dry_run: bool,
}

/// Report of an update check or apply.
#[derive(Debug, Clone, PartialEq, Eq)]
pub struct UpdateReport {
    pub current_version: String,
    pub target_version: Option<String>,
    pub update_available: bool,
    pub applied: bool,
    pub check_only: bool,
    pub dry_run: bool,
    pub artifact_url: Option<String>,
    pub install_path: Option<String>,
    pub steps: Vec<UpdateStep>,
    pub success: bool,
    pub follow_up: Vec<String>,
}

pub open spec fn ok_step(d: String) -> InstallStep {
    InstallStep { description: d, done: true, error: None }
}

pub open spec fn failed_step(d: String, e: String) -> InstallStep {
    InstallStep { description: d, done: false, error: Some(e) }
}

pub open spec fn planned_step(d: String) -> InstallStep {
    InstallStep { description: d, done: false, error: None }
}

impl InstallReport {
    pub fn new(dry_run: bool) -> (r: Self)
        ensures
            r.steps@.len() == 0,
            !r.success,
            r.dry_run == dry_run,
            r.config_path is None && r.data_dir is None && r.ballast_dir is None,
            r.ballast_files_created == 0 && r.ballast_bytes == 0,
    {
        InstallReport {
            steps: Vec::new(),
            success: false,
            config_path: None,
            data_dir: None,
            ballast_dir: None,
            ballast_files_created: 0,
            ballast_bytes: 0,
            dry_run,
        }
    }

    pub fn step_ok(&mut self, description: String)
        ensures
            final(self).steps@ == old(self).steps@.push(ok_step(description)),
            final(self).success == old(self).success && final(self).dry_run == old(self).dry_run,
            final(self).config_path == old(self).config_path && final(self).data_dir == old(self).data_dir
                && final(self).ballast_dir == old(self).ballast_dir,
            final(self).ballast_files_created == old(self).ballast_files_created
                && final(self).ballast_bytes == old(self).ballast_bytes,
    {
        self.steps.push(InstallStep { description, done: true, error: None });
    }

    pub fn step_fail(&mut self, description: String, error: String)
        ensures
            final(self).steps@ == old(self).steps@.push(failed_step(description, error)),
            final(self).success == old(self).success && final(self).dry_run == old(self).dry_run,
            final(self).config_path == old(self).config_path && final(self).data_dir == old(self).data_dir
                && final(self).ballast_dir == old(self).ballast_dir,
            final(self).ballast_files_created == old(self).ballast_files_created
                && final(self).ballast_bytes == old(self).ballast_bytes,
    {
        self.steps.push(InstallStep { description, done: false, error: Some(error) });
    }

    pub fn step_plan(&mut self, description: String)
        ensures
            final(self).steps@ == old(self).steps@.push(planned_step(description)),
            final(self).success == old(self).success && final(self).dry_run == old(self).dry_run,
            final(self).config_path == old(self).config_path && final(self).data_dir == old(self).data_dir
                && final(self).ballast_dir == old(self).ballast_dir,
            final(self).ballast_files_created == old(self).ballast_files_created
                && final(self).ballast_bytes == old(self).ballast_bytes,
    {
        self.steps.push(InstallStep { description, done: false, error: None });
    }
}

impl UpdateReport {
    pub fn new(current_version: &str, check_only: bool, dry_run: bool) -> (r: Self)
        ensures
            r.current_version@ == current_version@,
            r.check_only == check_only && r.dry_run == dry_run,
            r.target_version is None && !r.update_available && !r.applied && !r.success,
            r.steps@.len() == 0 && r.follow_up@.len() == 0,
    {
        UpdateReport {
            current_version: String::from_str(current_version),
            target_version: None,
            update_available: false,
            applied: false,
            check_only,
            dry_run,
            artifact_url: None,
            install_path: None,
            steps: Vec::new(),
            success: false,
            follow_up: Vec::new(),
        }
    }

    pub fn step_ok(&mut self, description: String)
        ensures
            final(self).steps@ == old(self).steps@.push(ok_step(description)),
    {
        self.steps.push(InstallStep { description, done: true, error: None });
    }

    pub fn step_fail(&mut self, description: String, error: String)
        ensures
            final(self).steps@ == old(self).steps@.push(failed_step(description, error)),
    {
        self.steps.push(InstallStep { description, done: false, error: Some(error) });
    }

    pub fn step_plan(&mut self, description: String)
        ensures
            final(self).steps@ == old(self).steps@.push(planned_step(description)),
    {
        self.steps.push(InstallStep { description, done: false, error: None });
    }
}

/// Marker of an install step: failed, done, or only planned.
pub open spec fn install_icon(s: InstallStep) -> Seq<char> {
    if s.error is Some { "FAIL"@ } else if s.done { "DONE"@ } else { "PLAN"@ }
}

/// Lines of install steps: `  [ICON] description`, then the error if any.
pub open spec fn install_step_lines(steps: Seq<InstallStep>) -> Seq<char>
    decreases steps.len(),
{
    if steps.len() == 0 {
        Seq::empty()
    } else {
        let s = steps.last();
        install_step_lines(steps.drop_last()) + "  ["@ + install_icon(s) + "] "@ + s.description@ + "\n"@
            + match s.error {
            Some(e) => "         error: "@ + e@ + "\n"@,
            None => Seq::empty(),
        }
    }
}

fn push_install_steps(out: &mut String, steps: &Vec<InstallStep>)
    ensures
        final(out)@ == old(out)@ + install_step_lines(steps@),
{
    let mut i: usize = 0;
    proof {
        assert(steps@.subrange(0, 0) =~= Seq::<InstallStep>::empty());
        assert(old(out)@ + install_step_lines(Seq::<InstallStep>::empty()) =~= old(out)@);
    }
    while i < steps.len()
        invariant
            i <= steps@.len(),
            out@ == old(out)@ + install_step_lines(steps@.subrange(0, i as int)),
        decreases steps.len() - i,
    {
        let s = &steps[i];
        let icon = if s.error.is_some() { "FAIL" } else if s.done { "DONE" } else { "PLAN" };
        out.append("  [");
        out.append(icon);
        out.append("] ");
        out.append(s.description.as_str());
        out.append("\n");
        match &s.error {
            Some(e) => {
                out.append("         error: ");
                out.append(e.as_str());
                out.append("\n");
            },
            None => {},
        }
        proof {
            let pre = steps@.subrange(0, i as int + 1);
            assert(pre.drop_last() =~= steps@.subrange(0, i as int));
            assert(pre.last() == *s);
            assert(out@ =~= old(out)@ + install_step_lines(pre));
        }
        i = i + 1;
    }
    proof {
        assert(steps@.subrange(0, steps@.len() as int) =~= steps@);
    }
}

/// Terminal rendering of an install report.
pub open spec fn install_report_text(r: InstallReport) -> Seq<char> {
    let head = "sbh "@ + (if r.dry_run { "dry-run"@ } else { "install"@ }) + " report:\n\n"@;
    let body = head + install_step_lines(r.steps@);
    if !r.dry_run && r.success {
        body + "\n"@
            + (match r.config_path { Some(c) => "  Config:  "@ + c@ + "\n"@, None => Seq::empty() })
            + (match r.data_dir { Some(d) => "  Data:    "@ + d@ + "\n"@, None => Seq::empty() })
            + (if r.ballast_files_created > 0 {
                "  Ballast: "@ + decimal(r.ballast_files_created as nat) + " files = "@
                    + decimal((r.ballast_bytes / 1_073_741_824) as nat) + " GB reclaimable\n"@
            } else {
                Seq::empty()
            })
    } else {
        body
    }
}

/// Renders an install report for the terminal.
pub fn format_install_report(r: &InstallReport) -> (out: String)
    ensures
        out@ == install_report_text(*r),
{
    let mut out = String::from_str("sbh ");
    out.append(if r.dry_run { "dry-run" } else { "install" });
    out.append(" report:\n\n");
    push_install_steps(&mut out, &r.steps);
    if !r.dry_run && r.success {
        let ghost s0 = out@;
        out.append("\n");
        let ghost s1 = out@;
        match &r.config_path {
            Some(c) => {
                out.append("  Config:  ");
                out.append(c.as_str());
                out.append("\n");
            },
            None => {},
        }
        let ghost s2 = out@;
        match &r.data_dir {
            Some(d) => {
                out.append("  Data:    ");
                out.append(d.as_str());
                out.append("\n");
            },
            None => {},
        }
        let ghost s3 = out@;
        if r.ballast_files_created > 0 {
            out.append("  Ballast: ");
            push_decimal(&mut out, r.ballast_files_created as u64);
            out.append(" files = ");
            push_decimal(&mut out, r.ballast_bytes / 1_073_741_824);
            out.append(" GB reclaimable\n");
        }
        proof {
            assert(out@ =~= install_report_text(*r));
        }
    }
    out
}

/// Terminal rendering of an uninstall report.
pub open spec fn uninstall_report_text(r: UninstallReport) -> Seq<char> {
    let head = "sbh "@ + (if r.dry_run { "dry-run"@ } else { "uninstall"@ }) + " cleanup report:\n\n"@;
    let body = head + install_step_lines(r.steps@);
    if r.bytes_reclaimed > 0 {
        body + "\n  Space reclaimed: "@ + decimal((r.bytes_reclaimed / 1_073_741_824) as nat) + " GB "@
            + decimal(((r.bytes_reclaimed % 1_073_741_824) / 1_048_576) as nat) + " MB\n"@
    } else {
        body
    }
}

/// Renders an uninstall report for the terminal.
pub fn format_uninstall_report(r: &UninstallReport) -> (out: String)
    ensures
        out@ == uninstall_report_text(*r),
{
    let mut out = String::from_str("sbh ");
    out.append(if r.dry_run { "dry-run" } else { "uninstall" });
    out.append(" cleanup report:\n\n");
    push_install_steps(&mut out, &r.steps);
    if r.bytes_reclaimed > 0 {
        out.append("\n  Space reclaimed: ");
        push_decimal(&mut out, r.bytes_reclaimed / 1_073_741_824);
        out.append(" GB ");
        push_decimal(&mut out, (r.bytes_reclaimed % 1_073_741_824) / 1_048_576);
        out.append(" MB\n");
        proof {
            assert(out@ =~= uninstall_report_text(*r));
        }
    }
    out
}

/// Marker of an update step.
pub open spec fn update_icon(s: UpdateStep) -> Seq<char> {
    if s.done && s.error is None { "[ OK ]"@ } else if s.error is Some { "[FAIL]"@ } else { "[PLAN]"@ }
}

pub open spec fn update_step_lines(steps: Seq<UpdateStep>) -> Seq<char>
    decreases steps.len(),
{
    if steps.len() == 0 {
        Seq::empty()
    } else {
        let s = steps.last();
        update_step_lines(steps.drop_last()) + "  "@ + update_icon(s) + " "@ + s.description@ + "\n"@
            + match s.error {
            Some(e) => "         "@ + e@ + "\n"@,
            None => Seq::empty(),
        }
    }
}

pub open spec fn follow_up_lines(items: Seq<String>) -> Seq<char>
    decreases items.len(),
{
    if items.len() == 0 {
        Seq::empty()
    } else {
        follow_up_lines(items.drop_last()) + "  -> "@ + items.last()@ + "\n"@
    }
}

/// The verdict line(s) of an update report.
pub open spec fn update_verdict(r: UpdateReport) -> Seq<char> {
    if r.check_only {
        if r.update_available {
            match r.target_version {
                Some(t) => "Update available: v"@ + r.current_version@ + " -> "@ + t@ + "\n"@
                    + "Run `sbh update` to apply.\n"@,
                None => Seq::empty(),
            }
        } else {
            "Already up to date (v"@ + r.current_version@ + ").\n"@
        }
    } else if r.applied {
        "Update applied successfully.\n"@
    } else if r.dry_run {
        "Dry-run complete. No changes were made.\n"@
    } else if !r.success {
        "Update failed. See errors above.\n"@
    } else {
        Seq::empty()
    }
}

pub open spec fn update_report_text(r: UpdateReport) -> Seq<char> {
    update_step_lines(r.steps@) + "\n"@ + update_verdict(r) + follow_up_lines(r.follow_up@)
}

fn push_update_steps(out: &mut String, steps: &Vec<UpdateStep>)
    ensures
        final(out)@ == old(out)@ + update_step_lines(steps@),
{
    let mut i: usize = 0;
    proof {
        assert(steps@.subrange(0, 0) =~= Seq::<UpdateStep>::empty());
        assert(old(out)@ + update_step_lines(Seq::<UpdateStep>::empty()) =~= old(out)@);
    }
    while i < steps.len()
        invariant
            i <= steps@.len(),
            out@ == old(out)@ + update_step_lines(steps@.subrange(0, i as int)),
        decreases steps.len() - i,
    {
        let s = &steps[i];
        let icon = if s.done && s.error.is_none() { "[ OK ]" } else if s.error.is_some() { "[FAIL]" } else { "[PLAN]" };
        out.append("  ");
        out.append(icon);
        out.append(" ");
        out.append(s.description.as_str());
        out.append("\n");
        match &s.error {
            Some(e) => {
                out.append("         ");
                out.append(e.as_str());
                out.append("\n");
            },
            None => {},
        }
        proof {
            let pre = steps@.subrange(0, i as int + 1);
            assert(pre.drop_last() =~= steps@.subrange(0, i as int));
            assert(out@ =~= old(out)@ + update_step_lines(pre));
        }
        i = i + 1;
    }
    proof {
        assert(steps@.subrange(0, steps@.len() as int) =~= steps@);
    }
}

fn push_follow_up(out: &mut String, items: &Vec<String>)
    ensures
        final(out)@ == old(out)@ + follow_up_lines(items@),
{
    let mut i: usize = 0;
    proof {
        assert(items@.subrange(0, 0) =~= Seq::<String>::empty());
        assert(old(out)@ + follow_up_lines(Seq::<String>::empty()) =~= old(out)@);
    }
    while i < items.len()
        invariant
            i <= items@.len(),
            out@ == old(out)@ + follow_up_lines(items@.subrange(0, i as int)),
        decreases items.len() - i,
    {
        out.append("  -> ");
        out.append(items[i].as_str());
        out.append("\n");
        proof {
            let pre = items@.subrange(0, i as int + 1);
            assert(pre.drop_last() =~= items@.subrange(0, i as int));
            assert(out@ =~= old(out)@ + follow_up_lines(pre));
        }
        i = i + 1;
    }
    proof {
        assert(items@.subrange(0, items@.len() as int) =~= items@);
    }
}

/// Renders an update report for the terminal.
pub fn format_update_report(r: &UpdateReport) -> (out: String)
    ensures
        out@ == update_report_text(*r),
{
    let mut out = String::new();
    push_update_steps(&mut out, &r.steps);
    out.append("\n");
    let ghost before = out@;
    if r.check_only {
        if r.update_available {
            match &r.target_version {
                Some(t) => {
                    out.append("Update available: v");
                    out.append(r.current_version.as_str());
                    out.append(" -> ");
                    out.append(t.as_str());
                    out.append("\n");
                    out.append("Run `sbh update` to apply.\n");
                },
                None => {},
            }
        } else {
            out.append("Already up to date (v");
            out.append(r.current_version.as_str());
            out.append(").\n");
        }
    } else if r.applied {
        out.append("Update applied successfully.\n");
    } else if r.dry_run {
        out.append("Dry-run complete. No changes were made.\n");
    } else if !r.success {
        out.append("Update failed. See errors above.\n");
    }
    proof {
        assert(out@ =~= before + update_verdict(*r));
    }
    push_follow_up(&mut out, &r.follow_up);
    proof {
        assert(out@ =~= update_report_text(*r));
    }
    out
}

/// Version of this build.
pub fn current_version() -> (r: &'static str)
    ensures
        r@ == "0.1.0"@,
{
    "0.1.0"
}

/// What an install run needs to know.
#[derive(Debug, Clone, PartialEq, Eq)]
pub struct InstallOptions {
    pub config_path: String,
    /// Directory that holds the state file.
    pub data_dir: String,
    pub ballast_dir: String,
    pub ballast_count: usize,
    pub ballast_size_bytes: u64,
    /// Overrides `ballast_dir` when set.
    pub ballast_path: Option<String>,
    pub dry_run: bool,
}

impl InstallOptions {
    /// The configuration defaults: the default ballast (ten files of 1 GiB)
    /// under the system data directory.
    pub fn default_options() -> (r: Self)
        ensures
            r.config_path@ == "/etc/sbh/config.toml"@,
            r.data_dir@ == "/var/lib/sbh"@,
            r.ballast_dir@ == "/var/lib/sbh/ballast"@,
            r.ballast_count == 10,
            r.ballast_size_bytes == 1_073_741_824,
            r.ballast_path is None,
            !r.dry_run,
    {
        let b = crate::ballast::BallastConfig::default();
        InstallOptions {
            config_path: String::from_str("/etc/sbh/config.toml"),
            data_dir: String::from_str("/var/lib/sbh"),
            ballast_dir: String::from_str("/var/lib/sbh/ballast"),
            ballast_count: b.file_count as usize,
            ballast_size_bytes: b.file_size_bytes,
            ballast_path: None,
            dry_run: false,
        }
    }
}

/// The ballast directory an install uses.
pub open spec fn install_ballast_dir(o: InstallOptions) -> Seq<char> {
    match o.ballast_path {
        Some(p) => p@,
        None => o.ballast_dir@,
    }
}

/// The planned steps of an install: data directory, config, ballast.
pub open spec fn install_plan_steps(o: InstallOptions) -> Seq<Seq<char>> {
    seq![
        "Create data directory: "@ + o.data_dir@,
        "Write config: "@ + o.config_path@,
        "Provision ballast: "@ + decimal(o.ballast_count as nat) + " files x "@
            + decimal((o.ballast_size_bytes / 1_048_576) as nat) + " MB = "@
            + decimal(((o.ballast_count * o.ballast_size_bytes) / 1_073_741_824) as nat) + " GB in "@
            + install_ballast_dir(o),
    ]
}

/// The report of an install in dry-run mode: every step planned, none done,
/// and success. (Carrying out the steps is file-system work.)
pub fn plan_install_sequence(o: &InstallOptions) -> (r: InstallReport)
    requires
        o.ballast_count as nat * o.ballast_size_bytes <= u64::MAX,
    ensures
        r.dry_run,
        r.success,
        r.config_path is None && r.data_dir is None && r.ballast_dir is None,
        r.ballast_files_created == 0 && r.ballast_bytes == 0,
        r.steps@.len() == 3,
        forall|i: int| 0 <= i < 3 ==> {
            &&& !(#[trigger] r.steps@[i]).done
            &&& r.steps@[i].error is None
            &&& r.steps@[i].description@ == install_plan_steps(*o)[i]
        },
{
    let mut r = InstallReport::new(true);
    let mut d1 = String::from_str("Create data directory: ");
    d1.append(o.data_dir.as_str());
    r.step_plan(d1);
    let mut d2 = String::from_str("Write config: ");
    d2.append(o.config_path.as_str());
    r.step_plan(d2);
    let mut d3 = String::from_str("Provision ballast: ");
    push_decimal(&mut d3, o.ballast_count as u64);
    d3.append(" files x ");
    push_decimal(&mut d3, o.ballast_size_bytes / 1_048_576);
    d3.append(" MB = ");
    push_decimal(&mut d3, (o.ballast_count as u64 * o.ballast_size_bytes) / 1_073_741_824);
    d3.append(" GB in ");
    match &o.ballast_path {
        Some(p) => d3.append(p.as_str()),
        None => d3.append(o.ballast_dir.as_str()),
    }
    r.step_plan(d3);
    r.success = true;
    proof {
        assert(r.steps@[2].description@ =~= install_plan_steps(*o)[2]);
        assert(r.steps@[1].description@ =~= install_plan_steps(*o)[1]);
        assert(r.steps@[0].description@ =~= install_plan_steps(*o)[0]);
    }
    r
}

/// What an uninstall cleanup removes, and where.
#[derive(Debug, Clone, PartialEq, Eq)]
pub struct UninstallOptions {
    /// Keep the data directory and the config file.
    pub keep_data: bool,
    /// Keep the ballast files.
    pub keep_ballast: bool,
    pub dry_run: bool,
    pub ballast_dir: String,
    /// Directory that holds the state file.
    pub data_dir: String,
    pub config_file: String,
}

/// The planned steps of an uninstall cleanup: the ballast directory unless
/// kept, then the data directory and the config file unless kept.
pub open spec fn uninstall_plan_steps(o: UninstallOptions) -> Seq<Seq<char>> {
    (if o.keep_ballast { Seq::empty() } else { seq!["Remove ballast directory: "@ + o.ballast_dir@] })
        + (if o.keep_data {
            Seq::empty()
        } else {
            seq!["Remove data directory: "@ + o.data_dir@, "Remove config: "@ + o.config_file@]
        })
}

/// The report of an uninstall cleanup in dry-run mode: every step planned,
/// none done, nothing reclaimed, and success. (Carrying out the steps is
/// file-system work.)
pub fn plan_uninstall_cleanup(o: &UninstallOptions) -> (r: UninstallReport)
    ensures
        r.dry_run,
        r.success,
        r.bytes_reclaimed == 0,
        r.steps@.len() == uninstall_plan_steps(*o).len(),
        forall|i: int| 0 <= i < r.steps@.len() ==> {
            &&& !(#[trigger] r.steps@[i]).done
            &&& r.steps@[i].error is None
            &&& r.steps@[i].description@ == uninstall_plan_steps(*o)[i]
        },
{
    let mut steps: Vec<InstallStep> = Vec::new();
    let ghost mut plan: Seq<Seq<char>> = Seq::empty();
    if !o.keep_ballast {
        let mut d = String::from_str("Remove ballast directory: ");
        d.append(o.ballast_dir.as_str());
        proof {
            plan = plan.push(d@);
        }
        steps.push(InstallStep { description: d, done: false, error: None });
    }
    if !o.keep_data {
        let mut d = String::from_str("Remove data directory: ");
        d.append(o.data_dir.as_str());
        proof {
            plan = plan.push(d@);
        }
        steps.push(InstallStep { description: d, done: false, error: None });
        let mut c = String::from_str("Remove config: ");
        c.append(o.config_file.as_str());
        proof {
            plan = plan.push(c@);
        }
        steps.push(InstallStep { description: c, done: false, error: None });
    }
    proof {
        assert(plan =~= uninstall_plan_steps(*o));
        assert forall|i: int| 0 <= i < steps@.len() implies {
            &&& !(#[trigger] steps@[i]).done
            &&& steps@[i].error is None
            &&& steps@[i].description@ == plan[i]
        } by {}
    }
    UninstallReport { steps, success: true, bytes_reclaimed: 0, dry_run: true }
}

} // verus!
