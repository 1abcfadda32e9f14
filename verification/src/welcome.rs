//! The one-line system summary the welcome screen shows.
use vstd::prelude::*;

use crate::text::{chars_of, decimal, push_decimal, push_str, string_of, trim, trim_str};

verus! {

/// The release of this tool, as the welcome screen names it.
pub const OXYS_VERSION: &'static str = "0.1.0";

/// What the welcome screen reports of the running system.
#[derive(Debug, Clone, PartialEq, Eq)]
pub struct SystemInfo {
    pub kernel: String,
    /// Installed packages, when the package database could be read.
    pub packages: Option<usize>,
}

pub open spec fn kernel_text(osrelease: Option<Seq<char>>) -> Seq<char> {
    match osrelease {
        Some(r) => if trim(r).len() > 0 {
            trim(r)
        } else {
            "unavailable"@
        },
        None => "unavailable"@,
    }
}

pub open spec fn system_line_text(info: SystemInfo) -> Seq<char> {
    "System: OxysOS "@ + OXYS_VERSION@ + "  |  Kernel: "@ + info.kernel@ + "  |  Packages: "@ + match info.packages {
        Some(n) => decimal(n as nat),
        None => "unavailable"@,
    }
}

impl SystemInfo {
    /// The summary from the kernel release (`/proc/sys/kernel/osrelease`,
    /// when readable) and the installed package count: a blank or unreadable
    /// release reads `unavailable`.
    pub fn detect(osrelease: Option<&str>, packages: Option<usize>) -> (r: Self)
        ensures
            r.kernel@ == kernel_text(
                match osrelease {
                    Some(s) => Some(s@),
                    None => None,
                },
            ),
            r.packages == packages,
    {
        let kernel = match osrelease {
            Some(s) => {
                let t = trim_str(s);
                if t.len() > 0 {
                    string_of(&t)
                } else {
                    "unavailable".to_owned()
                }
            },
            None => "unavailable".to_owned(),
        };
        SystemInfo { kernel, packages }
    }

    /// `System: OxysOS <version>  |  Kernel: <release>  |  Packages: <count>`.
    pub fn line(&self) -> (r: String)
        ensures
            r@ == system_line_text(*self),
    {
        let mut v = chars_of("System: OxysOS ");
        push_str(&mut v, OXYS_VERSION);
        push_str(&mut v, "  |  Kernel: ");
        push_str(&mut v, self.kernel.as_str());
        push_str(&mut v, "  |  Packages: ");
        match self.packages {
            Some(n) => push_decimal(&mut v, n as u64),
            None => push_str(&mut v, "unavailable"),
        }
        string_of(&v)
    }
}

} // verus!
