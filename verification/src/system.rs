//! What is known of the machine the program runs on.

use vstd::prelude::*;
use vstd::string::StringExecFns;
use crate::error::AppError;
use crate::text::opt_text;

verus! {

/// What is known of the machine. `error` says so when neither the name of
/// the operating system nor the name of the host could be found out.
#[derive(Debug, Clone)]
pub struct SystemInfo {
    pub os_name: Option<String>,
    pub os_version: Option<String>,
    pub kernel_version: Option<String>,
    pub hostname: Option<String>,
    pub shell: Option<String>,
    pub term: Option<String>,
    pub error: Option<String>,
}

impl Default for SystemInfo {
    fn default() -> (r: Self)
        ensures
            r.os_name is None,
            r.os_version is None,
            r.kernel_version is None,
            r.hostname is None,
            r.shell is None,
            r.term is None,
            r.error is None,
    {
        SystemInfo {
            os_name: None,
            os_version: None,
            kernel_version: None,
            hostname: None,
            shell: None,
            term: None,
            error: None,
        }
    }
}

/// Puts together what was found out about the machine.
pub fn system_info_from(
    shell: Option<String>,
    term: Option<String>,
    os_name: Option<String>,
    os_version: Option<String>,
    kernel_version: Option<String>,
    hostname: Option<String>,
) -> (r: Result<SystemInfo, AppError>)
    ensures
        r matches Ok(info) && {
            &&& info.shell == shell
            &&& info.term == term
            &&& info.os_name == os_name
            &&& info.os_version == os_version
            &&& info.kernel_version == kernel_version
            &&& info.hostname == hostname
            &&& opt_text(info.error) == if os_name is None && hostname is None {
                Some("Failed to retrieve OS name and hostname."@)
            } else {
                None
            }
        },
{
    let error = if os_name.is_none() && hostname.is_none() {
        Some(String::from_str("Failed to retrieve OS name and hostname."))
    } else {
        None
    };
    Ok(SystemInfo { os_name, os_version, kernel_version, hostname, shell, term, error })
}

} // verus!
