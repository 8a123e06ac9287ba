//! The facts record: every probe's output for one program run.
//!
//! The record is built once, from one snapshot of ambient state handed in as
//! plain values, and is not mutated afterwards. Every field is always
//! populated: probes whose source may legitimately be absent fall back to a
//! documented substitute, while the probes that treat their source as
//! required — here memory and disk — fail the whole build with a
//! [`ProbeError`] naming the probe.

use vstd::prelude::*;
use crate::desktop::{desktop_text, get_desktop_info};
use crate::error::{ErrorKind, ProbeError};
use crate::release::{get_os_pretty_name, get_system_info, pretty_name_text, system_info_text};
use crate::system::{
    disk_text, get_memory_usage, get_root_disk_usage, get_shell, get_username_and_hostname,
    identity_text, memory_text, shell_text,
};
use crate::text::opt_view;
use crate::uptime::{get_current, uptime_text};

verus! {

/// One program run's machine facts, display-ready.
#[derive(Debug)]
pub struct Facts {
    pub identity: String,
    pub shell: String,
    pub kernel_info: String,
    pub pretty_name: String,
    pub desktop: String,
    pub uptime: String,
    pub memory: String,
    pub disk: String,
}

/// Builds the facts record from one snapshot of ambient state: the raw
/// environment values (`None` for an unset variable), the marker-file
/// presences, the pseudo-file contents (`None` for a file that is missing or
/// unreadable), the uptime in seconds, and the root filesystem's block
/// statistics.
///
/// The build fails, naming the probe, when the meminfo text is absent or
/// does not parse, or when the filesystem reports no space at all; every
/// other probe substitutes its documented fallback instead of failing.
pub fn build_facts(
    user: Option<&str>,
    hostname: &str,
    shell: Option<&str>,
    desktop: Option<&str>,
    session: Option<&str>,
    os_release: Option<&str>,
    bsd_marker_present: bool,
    kernel_release: &str,
    arch_file: Option<&str>,
    cpu_flags: Option<&str>,
    uptime_seconds: u64,
    meminfo: Option<&str>,
    block_size: u64,
    total_blocks: u64,
    available_blocks: u64,
) -> (r: Result<Facts, ProbeError>)
    requires
        block_size * total_blocks <= u64::MAX,
        available_blocks <= total_blocks,
    ensures
        match r {
            Ok(f) => {
                &&& meminfo matches Some(m) && memory_text(m@) matches Some(mt) && f.memory@ == mt
                &&& disk_text(block_size as int, total_blocks as int, available_blocks as int)
                    matches Some(dt) && f.disk@ == dt
                &&& f.identity@ == identity_text(opt_view(user), hostname@)
                &&& f.shell@ == shell_text(opt_view(shell))
                &&& f.kernel_info@ == system_info_text(
                    os_release is Some,
                    bsd_marker_present,
                    kernel_release@,
                    opt_view(arch_file),
                    opt_view(cpu_flags),
                )
                &&& f.pretty_name@ == pretty_name_text(opt_view(os_release))
                &&& f.desktop@ == desktop_text(opt_view(desktop), opt_view(session))
                &&& f.uptime@ == uptime_text(uptime_seconds as nat)
            },
            Err(e) => {
                if meminfo is None {
                    e.kind == ErrorKind::SourceUnavailable && e.probe@ == "memory"@
                } else if memory_text(meminfo->Some_0@) is None {
                    e.kind == ErrorKind::ParseFailure && e.probe@ == "memory"@
                } else {
                    disk_text(block_size as int, total_blocks as int, available_blocks as int)
                        is None && e.kind == ErrorKind::ParseFailure && e.probe@ == "disk"@
                }
            },
        },
{
    let memory = match meminfo {
        None => {
            return Err(ProbeError::new("memory", ErrorKind::SourceUnavailable));
        },
        Some(m) => match get_memory_usage(m) {
            Ok(s) => s,
            Err(e) => {
                return Err(e);
            },
        },
    };
    let disk = match get_root_disk_usage(block_size, total_blocks, available_blocks) {
        Ok(s) => s,
        Err(e) => {
            return Err(e);
        },
    };
    Ok(
        Facts {
            identity: get_username_and_hostname(user, hostname),
            shell: get_shell(shell),
            kernel_info: get_system_info(
                os_release.is_some(),
                bsd_marker_present,
                kernel_release,
                arch_file,
                cpu_flags,
            ),
            pretty_name: get_os_pretty_name(os_release),
            desktop: get_desktop_info(desktop, session),
            uptime: get_current(uptime_seconds),
            memory,
            disk,
        },
    )
}

} // verus!
