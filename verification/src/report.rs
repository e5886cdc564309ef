//! The report pipeline over a snapshot of raw system state: derive every
//! display field and assemble the panel, so that callers only read files
//! and environment variables.

use vstd::prelude::*;
use crate::bytesize::{iec, iec_spec};
use crate::duration::{dhms_spec, format_dhms, lemma_dhms_esc_free};
use crate::error::Error;
use crate::kv::{lines_of, pretty_name, pretty_scan};
use crate::meminfo::{mem_info, mem_inconsistent, mem_ok, mem_scan, mem_value, tally_complete};
use crate::render::render_report;
use crate::text::{contains_sub, esc_free, strip_path, strip_path_spec, trim, trimmed};
use crate::uptime::{get_uptime, uptime_spec};

verus! {

/// Raw system state gathered once at startup: environment values and
/// the untouched contents of the identity, kernel, uptime and memory
/// files. Tests can substitute synthetic snapshots.
#[derive(Debug, Clone)]
pub struct Snapshot {
    pub user: String,
    pub shell_path: String,
    pub editor_path: String,
    pub hostname_raw: String,
    pub os_release: String,
    pub kernel_raw: String,
    pub uptime_raw: String,
    pub meminfo: String,
}

/// Every required field of the snapshot derives cleanly: the uptime
/// parses and the memory statistics are complete and consistent.
pub open spec fn snapshot_ok(s: &Snapshot) -> bool {
    uptime_spec(trimmed(s.uptime_raw@)) is Some && mem_ok(s.meminfo@)
}

/// The display name of the distribution a snapshot reports.
pub open spec fn distro_of(s: &Snapshot) -> Seq<char> {
    pretty_scan(lines_of(s.os_release@), Seq::<char>::empty())
}

/// Derive all display fields from the snapshot and render the panel.
///
/// An unparseable uptime is an unknown-field error; memory-statistics
/// failures surface exactly as [`mem_info`] reports them. On success the
/// panel holds every derived field verbatim (those that could carry a
/// terminal escape character only when they do not).
pub fn report_panel(s: &Snapshot) -> (r: Result<String, Error>)
    ensures
        r is Ok <==> snapshot_ok(s),
        uptime_spec(trimmed(s.uptime_raw@)) is None ==> r == Err::<String, Error>(Error::Unknown),
        (uptime_spec(trimmed(s.uptime_raw@)) is Some && mem_scan(s.meminfo@) is None) ==> r
            == Err::<String, Error>(Error::Unknown),
        (uptime_spec(trimmed(s.uptime_raw@)) is Some && (mem_scan(s.meminfo@) matches Some(t)
            && !tally_complete(t))) ==> r == Err::<String, Error>(Error::Unknown),
        (uptime_spec(trimmed(s.uptime_raw@)) is Some && mem_inconsistent(s.meminfo@)) ==> (r
            matches Err(e) && e matches Error::General(msg) && msg@
            == "inconsistent memory statistics"@),
        r matches Ok(out) ==> {
            &&& esc_free(s.user@) ==> contains_sub(out@, s.user@)
            &&& esc_free(trimmed(s.hostname_raw@)) ==> contains_sub(out@, trimmed(s.hostname_raw@))
            &&& esc_free(distro_of(s)) ==> contains_sub(out@, distro_of(s))
            &&& esc_free(trimmed(s.kernel_raw@)) ==> contains_sub(out@, trimmed(s.kernel_raw@))
            &&& contains_sub(
                out@,
                dhms_spec(uptime_spec(trimmed(s.uptime_raw@))->0 as int),
            )
            &&& esc_free(strip_path_spec(s.shell_path@)) ==> contains_sub(
                out@,
                strip_path_spec(s.shell_path@),
            )
            &&& esc_free(strip_path_spec(s.editor_path@)) ==> contains_sub(
                out@,
                strip_path_spec(s.editor_path@),
            )
            &&& contains_sub(out@, iec_spec(mem_value(s.meminfo@).total as int))
            &&& contains_sub(out@, iec_spec(mem_value(s.meminfo@).used as int))
        },
{
    let hostname = trim(s.hostname_raw.as_str());
    let distro = pretty_name(s.os_release.as_str());
    let kernel = trim(s.kernel_raw.as_str());
    let uptime_content = trim(s.uptime_raw.as_str());
    let secs = match get_uptime(uptime_content.as_str()) {
        Some(v) => v,
        None => {
            return Err(Error::Unknown);
        },
    };
    let uptime_formatted = format_dhms(secs);
    let shell = strip_path(s.shell_path.as_str());
    let editor = strip_path(s.editor_path.as_str());
    let memory = match mem_info(s.meminfo.as_str()) {
        Ok(m) => m,
        Err(e) => {
            return Err(e);
        },
    };
    let mem_total = iec(memory.total);
    let mem_used = iec(memory.used);
    proof {
        lemma_dhms_esc_free(secs as int);
    }
    let out = render_report(
        s.user.as_str(),
        hostname.as_str(),
        distro.as_str(),
        kernel.as_str(),
        uptime_formatted.as_str(),
        shell.as_str(),
        editor.as_str(),
        mem_total.as_str(),
        mem_used.as_str(),
    );
    Ok(out)
}

} // verus!
