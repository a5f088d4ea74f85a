//! Update reporting.
//!
//! The update transport itself is the updater capability's; this module
//! decides what is reported to the frontend: the record built from a
//! check's outcome, and the integer percentage emitted while a download
//! runs.

use vstd::prelude::*;
use vstd::string::StringExecFns;

verus! {

/// What an update check reports to the frontend.
#[derive(Debug)]
pub struct UpdateInfo {
    pub version: String,
    pub current_version: String,
    pub available: bool,
    pub download_url: Option<String>,
    pub release_notes: Option<String>,
}

/// What the updater capability hands back when a newer build exists.
#[derive(Debug)]
pub struct RemoteUpdate {
    pub version: String,
    pub current_version: String,
    pub download_url: String,
    pub body: Option<String>,
}

/// Builds the frontend-facing record from a check's outcome: the found
/// update's data when there is one, otherwise the running version twice
/// over with nothing available.
pub fn update_info_from_check(found: Option<RemoteUpdate>, current_version: String) -> (info:
    UpdateInfo)
    ensures
        match found {
            Some(u) => info.available && info.version@ == u.version@ && info.current_version@
                == u.current_version@ && info.download_url.deep_view() == Some(u.download_url@)
                && info.release_notes.deep_view() == u.body.deep_view(),
            None => !info.available && info.version@ == current_version@ && info.current_version@
                == current_version@ && info.download_url is None && info.release_notes is None,
        },
{
    match found {
        Some(u) => UpdateInfo {
            version: u.version,
            current_version: u.current_version,
            available: true,
            download_url: Some(u.download_url),
            release_notes: u.body,
        },
        None => UpdateInfo {
            version: current_version.clone(),
            current_version,
            available: false,
            download_url: None,
            release_notes: None,
        },
    }
}

/// Why a requested download does not start.
#[derive(Clone, Copy, PartialEq, Eq, Structural, Debug)]
pub enum UpdateError {
    NoUpdate,
}

impl UpdateError {
    /// The message the frontend sees for this error.
    pub fn message(&self) -> (m: String)
        ensures
            m@ == "No updates available"@,
    {
        String::from_str("No updates available")
    }
}

/// Decides whether a requested download may begin: only a check that
/// found an update starts one; without one the request is refused.
pub fn download_decision(update_found: bool) -> (r: Result<(), UpdateError>)
    ensures
        r is Ok <==> update_found,
        !update_found ==> r == Err::<(), UpdateError>(UpdateError::NoUpdate),
{
    if update_found {
        Ok(())
    } else {
        Err(UpdateError::NoUpdate)
    }
}

/// The integer percentage reported for a download: the truncated share
/// of `total` already downloaded, never above one hundred.
pub fn progress_percent(downloaded: u64, total: u64) -> (p: u32)
    requires
        total > 0,
    ensures
        downloaded <= total ==> p == downloaded as int * 100 / total as int,
        p <= 100,
{
    if downloaded >= total {
        proof {
            if downloaded == total {
                assert(downloaded as int * 100 / total as int == 100) by (nonlinear_arith)
                    requires
                        downloaded == total,
                        total > 0;
            }
        }
        100
    } else {
        let p128 = (downloaded as u128) * 100 / (total as u128);
        proof {
            assert(downloaded as int * 100 / (total as int) < 100) by (nonlinear_arith)
                requires
                    0 <= downloaded,
                    downloaded < total;
            assert(downloaded as int * 100 / total as int >= 0) by (nonlinear_arith)
                requires
                    0 <= downloaded,
                    total > 0;
        }
        p128 as u32
    }
}

} // verus!
