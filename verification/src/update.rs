//! One self-update session: check, download with progress, install.
//!
//! A session is created fresh for each check and discarded when the attempt
//! resolves; nothing persists across sessions. The caller performs the
//! network work (querying the update source, transferring bytes, applying
//! the installer) and hands the outcomes back; this module decides every
//! transition, produces the exact result texts, and turns byte counts into
//! progress events. Failures of the update domain are returned as error
//! results, never raised: they must not take the application down.

use vstd::prelude::*;
use vstd::arithmetic::div_mod::{lemma_div_is_ordered, lemma_multiply_divide_lt};
use vstd::string::StringExecFns;

verus! {

/// Where one session stands. Per session the machine runs
/// `Idle -> Checking -> {NoUpdateFound | UpdateAvailable}`, then on an
/// accepted update `-> Downloading -> Downloaded -> Installed`, with `Failed`
/// terminal and reachable from checking or downloading on any failure.
pub enum UpdatePhase {
    Idle,
    Checking,
    NoUpdateFound,
    UpdateAvailable,
    Downloading,
    Downloaded,
    Installed,
    Failed,
}

/// What the update source answered: a newer version, nothing newer, a
/// network or parse failure, or no reachable updater at all.
pub enum CheckOutcome {
    UpdateAvailable(String),
    UpToDate,
    CheckFailed(String),
    UpdaterUnavailable(String),
}

/// How the download-and-install step ended on the caller's side.
pub enum InstallOutcome {
    Installed,
    Failed(String),
}

/// An event surfaced to the interface layer while a download runs: a percent
/// of the transfer so far, or the one completion signal that precedes
/// installation.
pub enum UpdateEvent {
    Progress(u8),
    DownloadComplete,
}

/// The percent that `received` bytes of `total` amount to, rounded down and
/// clamped to 100. A transfer whose advertised total is zero, or that has
/// reached its total, is complete.
pub open spec fn spec_percent(received: nat, total: nat) -> nat {
    if total == 0 || received >= total {
        100
    } else {
        (received * 100) / total
    }
}

/// One check/install attempt. Created fresh per check; never reused across
/// attempts.
pub struct UpdateSession {
    pub phase: UpdatePhase,
    /// The version the source offered, once the check has found one.
    pub version: Option<String>,
    /// The advertised size of the download, once the source has stated it.
    pub total_bytes: Option<u64>,
    /// Bytes of the download seen so far.
    pub received_bytes: u64,
    /// The last percent reported; 0 until the total is known.
    pub progress_percent: u8,
}

impl UpdateSession {
    /// A session's progress report is sound: the percent is at most 100 and,
    /// whenever the total is known, is exactly the percent of the bytes seen.
    pub open spec fn wf(&self) -> bool {
        &&& self.progress_percent <= 100
        &&& match self.total_bytes {
            Some(t) => self.progress_percent == spec_percent(
                self.received_bytes as nat,
                t as nat,
            ),
            None => self.progress_percent == 0,
        }
    }

    /// A fresh session: idle, no version, no download begun.
    pub fn new() -> (s: UpdateSession)
        ensures
            s.phase is Idle,
            s.version is None,
            s.total_bytes is None,
            s.received_bytes == 0,
            s.progress_percent == 0,
            s.wf(),
    {
        UpdateSession {
            phase: UpdatePhase::Idle,
            version: None,
            total_bytes: None,
            received_bytes: 0,
            progress_percent: 0,
        }
    }

    /// Enter the checking phase: the caller is about to query the update
    /// source.
    pub fn start_check(&mut self)
        requires
            old(self).phase is Idle,
            old(self).wf(),
        ensures
            final(self).wf(),
            final(self).phase is Checking,
            final(self).version == old(self).version,
            final(self).total_bytes == old(self).total_bytes,
            final(self).received_bytes == old(self).received_bytes,
            final(self).progress_percent == old(self).progress_percent,
    {
        self.phase = UpdatePhase::Checking;
    }

    /// Settle the check from the source's answer. A newer version moves the
    /// session to `UpdateAvailable` and reports it; nothing newer ends the
    /// session with a plain informational result; either failure ends it with
    /// an error result carrying the cause.
    pub fn finish_check(&mut self, outcome: CheckOutcome) -> (r: Result<String, String>)
        requires
            old(self).phase is Checking,
            old(self).wf(),
        ensures
            final(self).wf(),
            final(self).total_bytes == old(self).total_bytes,
            final(self).received_bytes == old(self).received_bytes,
            final(self).progress_percent == old(self).progress_percent,
            match outcome {
                CheckOutcome::UpdateAvailable(v) => {
                    &&& final(self).phase is UpdateAvailable
                    &&& final(self).version == Some(v)
                    &&& r is Ok
                    &&& r->Ok_0@ == "Update available: v"@ + v@
                },
                CheckOutcome::UpToDate => {
                    &&& final(self).phase is NoUpdateFound
                    &&& final(self).version is None
                    &&& r is Ok
                    &&& r->Ok_0@ == "No updates available"@
                },
                CheckOutcome::CheckFailed(e) => {
                    &&& final(self).phase is Failed
                    &&& final(self).version == old(self).version
                    &&& r is Err
                    &&& r->Err_0@ == "Failed to check for updates: "@ + e@
                },
                CheckOutcome::UpdaterUnavailable(e) => {
                    &&& final(self).phase is Failed
                    &&& final(self).version == old(self).version
                    &&& r is Err
                    &&& r->Err_0@ == "Failed to get updater: "@ + e@
                },
            },
    {
        match outcome {
            CheckOutcome::UpdateAvailable(v) => {
                let msg = String::from_str("Update available: v").concat(v.as_str());
                self.phase = UpdatePhase::UpdateAvailable;
                self.version = Some(v);
                Ok(msg)
            },
            CheckOutcome::UpToDate => {
                self.phase = UpdatePhase::NoUpdateFound;
                self.version = None;
                Ok(String::from_str("No updates available"))
            },
            CheckOutcome::CheckFailed(e) => {
                self.phase = UpdatePhase::Failed;
                Err(String::from_str("Failed to check for updates: ").concat(e.as_str()))
            },
            CheckOutcome::UpdaterUnavailable(e) => {
                self.phase = UpdatePhase::Failed;
                Err(String::from_str("Failed to get updater: ").concat(e.as_str()))
            },
        }
    }

    /// Begin the download — but only a session whose check found an update
    /// may: any other session gets an error result, stays exactly as it was,
    /// and will emit no progress events.
    pub fn request_install(&mut self) -> (r: Result<(), String>)
        requires
            old(self).wf(),
        ensures
            final(self).wf(),
            old(self).phase is UpdateAvailable ==> {
                &&& r is Ok
                &&& final(self).phase is Downloading
                &&& final(self).version == old(self).version
                &&& final(self).total_bytes is None
                &&& final(self).received_bytes == 0
                &&& final(self).progress_percent == 0
            },
            !(old(self).phase is UpdateAvailable) ==> {
                &&& r is Err
                &&& r->Err_0@ == "No updates available"@
                &&& *final(self) == *old(self)
            },
    {
        match self.phase {
            UpdatePhase::UpdateAvailable => {
                self.phase = UpdatePhase::Downloading;
                self.total_bytes = None;
                self.received_bytes = 0;
                self.progress_percent = 0;
                Ok(())
            },
            _ => Err(String::from_str("No updates available")),
        }
    }

    /// Account one arrived chunk. Only a downloading session moves: it adds
    /// the chunk to the bytes seen (saturating, should the source overrun),
    /// adopts the first advertised total, and — whenever a total is known —
    /// reports the new percent, which never decreases and never passes 100.
    /// With no total advertised, no event is emitted: there is nothing sound
    /// to divide by.
    pub fn on_chunk(&mut self, chunk_len: u64, content_length: Option<u64>) -> (ev: Option<UpdateEvent>)
        requires
            old(self).wf(),
        ensures
            final(self).wf(),
            !(old(self).phase is Downloading) ==> {
                &&& *final(self) == *old(self)
                &&& ev is None
            },
            old(self).phase is Downloading ==> {
                let total = if old(self).total_bytes is Some {
                    old(self).total_bytes
                } else {
                    content_length
                };
                &&& final(self).phase == old(self).phase
                &&& final(self).version == old(self).version
                &&& final(self).total_bytes == total
                &&& final(self).received_bytes == old(self).received_bytes.saturating_add(
                    chunk_len,
                )
                &&& match total {
                    Some(t) => {
                        &&& final(self).progress_percent == spec_percent(
                            final(self).received_bytes as nat,
                            t as nat,
                        )
                        &&& ev == Some(UpdateEvent::Progress(final(self).progress_percent))
                    },
                    None => {
                        &&& final(self).progress_percent == 0
                        &&& ev is None
                    },
                }
                &&& final(self).progress_percent >= old(self).progress_percent
            },
    {
        match self.phase {
            UpdatePhase::Downloading => {
                let new_received = self.received_bytes.saturating_add(chunk_len);
                self.received_bytes = new_received;
                if self.total_bytes.is_none() {
                    self.total_bytes = content_length;
                }
                match self.total_bytes {
                    Some(t) => {
                        let p = percent_of(new_received, t);
                        proof {
                            lemma_percent_bounded(new_received as nat, t as nat);
                            if old(self).total_bytes is Some {
                                lemma_percent_monotonic(
                                    old(self).received_bytes as nat,
                                    new_received as nat,
                                    t as nat,
                                );
                            }
                        }
                        self.progress_percent = p;
                        Some(UpdateEvent::Progress(p))
                    },
                    None => None,
                }
            },
            _ => None,
        }
    }

    /// End the transfer: the one download-complete signal, emitted before
    /// installation proceeds. A downloading session emits it exactly once,
    /// because only this transition leaves the downloading phase upward.
    pub fn finish_download(&mut self) -> (ev: UpdateEvent)
        requires
            old(self).phase is Downloading,
            old(self).wf(),
        ensures
            final(self).wf(),
            ev is DownloadComplete,
            final(self).phase is Downloaded,
            final(self).version == old(self).version,
            final(self).total_bytes == old(self).total_bytes,
            final(self).received_bytes == old(self).received_bytes,
            final(self).progress_percent == old(self).progress_percent,
    {
        self.phase = UpdatePhase::Downloaded;
        UpdateEvent::DownloadComplete
    }

    /// Settle the install step. Success is only reached through the completed
    /// download and tells the caller a restart is required; any download or
    /// install failure ends the session with an error result, and nothing of
    /// a partial install stays callable without a fresh check.
    pub fn finish_install(&mut self, outcome: InstallOutcome) -> (r: Result<String, String>)
        requires
            old(self).phase is Downloading || old(self).phase is Downloaded,
            outcome is Installed ==> old(self).phase is Downloaded,
            old(self).wf(),
        ensures
            final(self).wf(),
            final(self).version == old(self).version,
            final(self).total_bytes == old(self).total_bytes,
            final(self).received_bytes == old(self).received_bytes,
            final(self).progress_percent == old(self).progress_percent,
            match outcome {
                InstallOutcome::Installed => {
                    &&& final(self).phase is Installed
                    &&& r is Ok
                    &&& r->Ok_0@ == "Update installed successfully. Please restart the application."@
                },
                InstallOutcome::Failed(e) => {
                    &&& final(self).phase is Failed
                    &&& r is Err
                    &&& r->Err_0@ == "Failed to install update: "@ + e@
                },
            },
    {
        match outcome {
            InstallOutcome::Installed => {
                self.phase = UpdatePhase::Installed;
                Ok(String::from_str("Update installed successfully. Please restart the application."))
            },
            InstallOutcome::Failed(e) => {
                self.phase = UpdatePhase::Failed;
                Err(String::from_str("Failed to install update: ").concat(e.as_str()))
            },
        }
    }
}

/// Progress is sound and monotone: the percent never passes 100, and more
/// bytes of the same total never report a smaller percent.
pub proof fn lemma_percent_monotonic(r1: nat, r2: nat, total: nat)
    requires
        r1 <= r2,
    ensures
        spec_percent(r1, total) <= spec_percent(r2, total),
        spec_percent(r1, total) <= 100,
        spec_percent(r2, total) <= 100,
{
    lemma_percent_bounded(r1, total);
    lemma_percent_bounded(r2, total);
    if total != 0 && r1 < total && r2 < total {
        lemma_div_is_ordered((r1 * 100) as int, (r2 * 100) as int, total as int);
    }
}

/// The percent of any partial transfer stays within 0 to 100.
proof fn lemma_percent_bounded(r: nat, total: nat)
    ensures
        spec_percent(r, total) <= 100,
{
    if total != 0 && r < total {
        lemma_multiply_divide_lt((r * 100) as int, total as int, 100);
    }
}

/// The percent of `received` bytes of `total`, as the progress events carry
/// it.
fn percent_of(received: u64, total: u64) -> (p: u8)
    ensures
        p == spec_percent(received as nat, total as nat),
{
    if total == 0 || received >= total {
        100
    } else {
        let q = ((received as u128) * 100) / (total as u128);
        proof {
            lemma_multiply_divide_lt((received * 100) as int, total as int, 100);
        }
        q as u8
    }
}

} // verus!
