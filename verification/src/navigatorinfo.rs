//! What the `navigator` object reports.
//!
//! `navigator` is an obfuscated API: web sites use it to profile the browser
//! and to detect automation. The values below mimic what a Chromium browser
//! would report so that the browser is not flagged as a bot or as unsupported.
//! `navigator.userAgent` comes from the `user_agent` preference, which is also
//! Chromium-compatible by default.
use vstd::prelude::*;

use crate::text;

verus! {

/// `navigator.product`. Chromium, like every browser, reports "Gecko" here.
#[allow(non_snake_case)]
pub fn Product() -> (value: &'static str)
    ensures
        value@ == "Gecko"@,
{
    "Gecko"
}

/// `navigator.productSub`. Chromium reports a frozen Safari-era revision.
#[allow(non_snake_case)]
pub fn ProductSub() -> (value: &'static str)
    ensures
        value@ == "20030107"@,
{
    "20030107"
}

/// `navigator.vendor`. Chromium reports "Google Inc."; only WebKit-derived
/// engines report the empty string here.
#[allow(non_snake_case)]
pub fn Vendor() -> (value: &'static str)
    ensures
        value@ == "Google Inc."@,
{
    "Google Inc."
}

/// `navigator.vendorSub`.
#[allow(non_snake_case)]
pub fn VendorSub() -> (value: String)
    ensures
        value@.len() == 0,
{
    String::new()
}

/// `navigator.taintEnabled()`.
#[allow(non_snake_case)]
pub fn TaintEnabled() -> (value: bool)
    ensures
        !value,
{
    false
}

/// `navigator.appName`.
#[allow(non_snake_case)]
pub fn AppName() -> (value: &'static str)
    ensures
        value@ == "Netscape"@,
{
    "Netscape"
}

/// `navigator.appCodeName`.
#[allow(non_snake_case)]
pub fn AppCodeName() -> (value: &'static str)
    ensures
        value@ == "Mozilla"@,
{
    "Mozilla"
}

/// The operating systems that the browser is built for.
#[derive(Clone, Copy, Debug, Eq, PartialEq, Structural)]
pub enum OperatingSystem {
    Windows,
    Android,
    Linux,
    FreeBsd,
    MacOs,
    Ios,
}

/// What `navigator.platform` says on an operating system. Chromium reports a
/// frozen value on Android, the exact architecture on Linux, which is what
/// fingerprinting scripts expect on desktop platforms, and always "MacIntel"
/// on macOS, even on Apple-silicon Macs.
pub open spec fn platform_of(os: OperatingSystem) -> Seq<char> {
    match os {
        OperatingSystem::Windows => "Win32"@,
        OperatingSystem::Android => "Linux armv8l"@,
        OperatingSystem::Linux => "Linux x86_64"@,
        OperatingSystem::FreeBsd => "Linux x86_64"@,
        OperatingSystem::MacOs => "MacIntel"@,
        OperatingSystem::Ios => "iPhone"@,
    }
}

/// `navigator.platform`.
#[allow(non_snake_case)]
pub fn Platform(os: OperatingSystem) -> (value: &'static str)
    ensures
        value@ == platform_of(os),
{
    match os {
        OperatingSystem::Windows => "Win32",
        OperatingSystem::Android => "Linux armv8l",
        OperatingSystem::Linux | OperatingSystem::FreeBsd => "Linux x86_64",
        OperatingSystem::MacOs => "MacIntel",
        OperatingSystem::Ios => "iPhone",
    }
}

/// `navigator.userAgent`.
#[allow(non_snake_case)]
pub fn UserAgent(user_agent: &str) -> (value: String)
    ensures
        value@ == user_agent@,
{
    user_agent.to_string()
}

/// The user-agent string without a leading "Mozilla/".
pub open spec fn app_version(user_agent: Seq<char>) -> Seq<char> {
    if text::begins_with(user_agent, "Mozilla/"@) {
        user_agent.skip("Mozilla/"@.len() as int)
    } else {
        user_agent
    }
}

/// `navigator.appVersion`. Chromium reports "5.0 (…)": the user-agent string
/// without the leading "Mozilla/" token.
#[allow(non_snake_case)]
pub fn AppVersion(user_agent: &str) -> (value: String)
    ensures
        value@ == app_version(user_agent@),
{
    if text::has_prefix(user_agent, "Mozilla/") {
        proof {
            reveal_strlit("Mozilla/");
        }
        let chars = text::characters(user_agent);
        let value = text::text_from(&chars.as_slice()[8..chars.len()]);
        assert(value@ =~= user_agent@.skip(8));
        value
    } else {
        user_agent.to_string()
    }
}

/// `navigator.language`, for the current locale.
#[allow(non_snake_case)]
pub fn Language(locale: &str) -> (value: String)
    ensures
        value@ == locale@,
{
    locale.to_string()
}

/// Put behind "Mozilla/", `navigator.appVersion` gives `navigator.userAgent`
/// back wherever that token led it.
pub proof fn law_app_version_completes_to_user_agent(user_agent: Seq<char>)
    ensures
        text::begins_with(user_agent, "Mozilla/"@) ==> "Mozilla/"@ + app_version(user_agent)
            == user_agent,
        !text::begins_with(user_agent, "Mozilla/"@) ==> app_version(user_agent) == user_agent,
{
    if text::begins_with(user_agent, "Mozilla/"@) {
        let token = "Mozilla/"@;
        assert(user_agent.subrange(0, token.len() as int) == token);
        assert(token + app_version(user_agent) =~= user_agent);
    }
}

} // verus!
