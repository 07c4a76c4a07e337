//! Self-update: where to ask for the latest version, whether it is newer,
//! and whether a downloaded binary has the announced checksum.

use sha2::Digest;
use vstd::prelude::*;
use vstd::string::*;
use crate::text::{replace, replace_all, str_eq, trim_end, trim_end_of};

verus! {

/// What the server says about the latest version.
#[derive(Debug, Clone)]
pub struct LatestVersionInfo {
    pub version: String,
    pub url: String,
    pub sha256: String,
}

/// The SHA-256 digest of `data` in lower-case hexadecimal digits.
pub uninterp spec fn sha256_hex(data: Seq<u8>) -> Seq<char>;

/// `sha2::Sha256::digest` and the lower-case hexadecimal formatting of what
/// it returns: the digest of `data`, which depends on `data` alone.
#[verifier::external_body]
pub(crate) fn sha256_hex_of(data: &[u8]) -> (hex: String)
    ensures
        hex@ == sha256_hex(data@),
{
    format!("{:x}", sha2::Sha256::digest(data))
}

/// Whether `data` has the checksum `expected`, given in lower-case
/// hexadecimal digits.
pub fn checksum_matches(data: &[u8], expected: &str) -> (r: bool)
    ensures
        r == (sha256_hex(data@) == expected@),
{
    let actual = sha256_hex_of(data);
    str_eq(actual.as_str(), expected)
}

/// The name of an architecture as the server knows it.
pub open spec fn arch_label_of(arch: Seq<char>) -> Seq<char> {
    if arch == "x86_64"@ {
        "x64"@
    } else if arch == "aarch64"@ {
        "arm64"@
    } else if arch == "arm"@ {
        "armv7l"@
    } else {
        arch
    }
}

/// The name of an architecture as the server knows it.
pub fn arch_label(arch: &str) -> (label: String)
    ensures
        label@ == arch_label_of(arch@),
{
    if str_eq(arch, "x86_64") {
        String::from_str("x64")
    } else if str_eq(arch, "aarch64") {
        String::from_str("arm64")
    } else if str_eq(arch, "arm") {
        String::from_str("armv7l")
    } else {
        String::from_str(arch)
    }
}

/// The address that tells the latest version for an operating system and an
/// architecture: the server's address over HTTP, without slashes at its end.
pub open spec fn update_check_url_of(server: Seq<char>, os: Seq<char>, arch: Seq<char>) -> Seq<
    char,
> {
    let http = replace_all(replace_all(server, "wss://"@, "https://"@), "ws://"@, "http://"@);
    trim_end_of(http, '/') + "/api/agent/latest?os="@ + os + "&arch="@ + arch_label_of(arch)
}

/// The address that tells the latest version.
pub fn update_check_url(server_url: &str, os: &str, arch: &str) -> (url: String)
    ensures
        url@ == update_check_url_of(server_url@, os@, arch@),
{
    let secure = replace(server_url, "wss://", "https://");
    let plain = replace(secure.as_str(), "ws://", "http://");
    let label = arch_label(arch);
    let mut url = String::from_str(trim_end(plain.as_str(), '/'));
    url.append("/api/agent/latest?os=");
    url.append(os);
    url.append("&arch=");
    url.append(label.as_str());
    url
}

/// What the answer to the version request means, by its HTTP status.
#[derive(Debug, Clone, Copy, PartialEq, Eq, Structural)]
pub enum CheckStatus {
    /// 404: there is no update.
    NoUpdate,
    /// Another status outside 200 to 299: the check failed.
    Failed,
    /// The body holds the latest version.
    Answered,
}

pub fn check_status(status: u16) -> (r: CheckStatus)
    ensures
        r == (if status == 404 {
            CheckStatus::NoUpdate
        } else if 200 <= status && status <= 299 {
            CheckStatus::Answered
        } else {
            CheckStatus::Failed
        }),
{
    if status == 404 {
        CheckStatus::NoUpdate
    } else if 200 <= status && status <= 299 {
        CheckStatus::Answered
    } else {
        CheckStatus::Failed
    }
}

/// Whether the latest version is another one than the running one.
pub fn update_available(latest: &LatestVersionInfo, current_version: &str) -> (r: bool)
    ensures
        r == (latest.version@ != current_version@),
{
    !str_eq(latest.version.as_str(), current_version)
}

} // verus!
