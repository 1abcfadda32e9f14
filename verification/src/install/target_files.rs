//! The small configuration files an install writes into the target: the
//! time zone and the locale.
use vstd::prelude::*;

use crate::install::planner::{debug_quoted, push_debug_quoted, SystemInstallError};
use crate::locales::{supported_line, supported_locale_line};
use crate::text::{chars_of, push_str, string_of, trim, trim_str};

verus! {

/// `etc/timezone` and the target of the `etc/localtime` link.
#[derive(Debug, Clone, PartialEq, Eq)]
pub struct TimezoneFiles {
    pub timezone: String,
    pub localtime_link: String,
}

/// The time zone files for `zone`, which the target's zoneinfo must hold
/// (`zone_known`): the zone name on a line of its own, and a relative link
/// into `usr/share/zoneinfo`.
pub fn timezone_files(zone: &str, zone_known: bool) -> (r: Result<TimezoneFiles, SystemInstallError>)
    ensures
        zone_known ==> (r matches Ok(f) && f.timezone@ == zone@ + "\n"@ && f.localtime_link@
            == "../usr/share/zoneinfo/"@ + zone@),
        !zone_known ==> (r matches Err(SystemInstallError::InvalidPlan(m)) && m@ == "unknown timezone "@
            + debug_quoted(zone@) + ": no such entry in the target zoneinfo"@),
{
    if !zone_known {
        let mut v = chars_of("unknown timezone ");
        push_debug_quoted(&mut v, &chars_of(zone));
        push_str(&mut v, ": no such entry in the target zoneinfo");
        return Err(SystemInstallError::InvalidPlan(string_of(&v)));
    }
    let mut t = chars_of(zone);
    push_str(&mut t, "\n");
    let mut l = chars_of("../usr/share/zoneinfo/");
    push_str(&mut l, zone);
    Ok(TimezoneFiles { timezone: string_of(&t), localtime_link: string_of(&l) })
}

/// `etc/locale.gen` and `etc/env.d/02locale`.
#[derive(Debug, Clone, PartialEq, Eq)]
pub struct LocaleFiles {
    pub locale_gen: String,
    pub env: String,
}

/// The locale files for `locale`, whose entry the target's
/// `usr/share/i18n/SUPPORTED` catalogue must hold: that entry enabled for
/// `locale-gen`, and `LANG` set to the locale.
pub fn locale_files(catalogue: &str, locale: &str) -> (r: Result<LocaleFiles, SystemInstallError>)
    ensures
        match supported_line(catalogue@, locale@) {
            Some(line) => r matches Ok(f) && f.locale_gen@ == "# generated by oxys\n"@ + line + "\n"@
                && f.env@ == "# generated by oxys\nLANG=\""@ + trim(locale@) + "\"\n"@,
            None => r matches Err(SystemInstallError::InvalidPlan(m)) && m@ == "unsupported locale "@
                + debug_quoted(trim(locale@)) + ": no matching entry in the target /usr/share/i18n/SUPPORTED"@,
        },
{
    let l = trim_str(locale);
    match supported_locale_line(catalogue, locale) {
        None => {
            let mut v = chars_of("unsupported locale ");
            push_debug_quoted(&mut v, &l);
            push_str(&mut v, ": no matching entry in the target /usr/share/i18n/SUPPORTED");
            Err(SystemInstallError::InvalidPlan(string_of(&v)))
        },
        Some(line) => {
            let mut g = chars_of("# generated by oxys\n");
            push_str(&mut g, line.as_str());
            push_str(&mut g, "\n");
            let mut e = chars_of("# generated by oxys\nLANG=\"");
            crate::text::push_chars(&mut e, &l);
            push_str(&mut e, "\"\n");
            Ok(LocaleFiles { locale_gen: string_of(&g), env: string_of(&e) })
        },
    }
}

} // verus!
