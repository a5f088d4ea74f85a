//! Platform description handed to the frontend.

use vstd::prelude::*;

verus! {

/// What the host reports about the machine: platform name, architecture
/// and OS version.
#[derive(Debug)]
pub struct PlatformInfo {
    pub platform: String,
    pub arch: String,
    pub version: String,
}

impl PlatformInfo {
    pub fn new(platform: String, arch: String, version: String) -> (info: Self)
        ensures
            info.platform@ == platform@,
            info.arch@ == arch@,
            info.version@ == version@,
    {
        PlatformInfo { platform, arch, version }
    }
}

} // verus!
