//! VirusTotal file-hash verdicts.  The lookup itself is left to the caller;
//! this module turns the engine counts into a finding.

use vstd::prelude::*;

use crate::analyzer::{Finding, FindingView, Severity};
use crate::text::{decimal, push_decimal, push_str};

verus! {

/// The finding for VirusTotal engine counts: any malicious verdict gives a
/// known-malware finding scored by the flagged share (at least 50, critical
/// from 50% on); otherwise any suspicious verdict gives a medium finding (15).
/// `malicious_percent` is the flagged share of all engines, in percent.
pub open spec fn virustotal_finding_spec(malicious: u64, suspicious: u64, total: u64, malicious_percent: u8) -> Option<FindingView> {
    if malicious > 0 {
        Some(
            FindingView {
                source: "VirusTotal"@,
                title: "Known malware signature"@,
                detail: "The downloaded content matches known malware in VirusTotal"@,
                severity: if malicious_percent >= 50 {
                    Severity::Critical
                } else {
                    Severity::High
                },
                score: if malicious_percent >= 50 {
                    malicious_percent
                } else {
                    50
                },
                evidence: decimal(malicious as nat) + "/"@ + decimal(total as nat)
                    + " security vendors flagged this file as malicious"@,
            },
        )
    } else if suspicious > 0 {
        Some(
            FindingView {
                source: "VirusTotal"@,
                title: "Suspicious file detection"@,
                detail: "Some engines found suspicious behavior in this downloaded file"@,
                severity: Severity::Medium,
                score: 15,
                evidence: decimal(suspicious as nat) + "/"@ + decimal(total as nat)
                    + " engines reported suspicious behavior"@,
            },
        )
    } else {
        None
    }
}

/// Any malicious verdict gives the known-malware finding, whatever the
/// suspicious count: scored by the flagged share but at least 50, critical
/// from 50% on, with the malicious count as evidence.  Only a file with no
/// malicious verdict and some suspicious one gets the suspicious-file finding
/// (Medium, 15); a file with neither gets no finding.
pub proof fn malicious_verdicts_outrank_suspicious_ones(malicious: u64, suspicious: u64, total: u64, malicious_percent: u8)
    ensures
        malicious > 0 ==> virustotal_finding_spec(malicious, suspicious, total, malicious_percent)
            == virustotal_finding_spec(malicious, 0, total, malicious_percent),
        malicious > 0 ==> (virustotal_finding_spec(malicious, suspicious, total, malicious_percent) matches Some(
            f,
        ) && f.title == "Known malware signature"@ && f.source == "VirusTotal"@ && f.score == (if malicious_percent
            >= 50 {
            malicious_percent
        } else {
            50
        }) && f.severity == (if malicious_percent >= 50 {
            Severity::Critical
        } else {
            Severity::High
        }) && f.evidence == decimal(malicious as nat) + "/"@ + decimal(total as nat)
            + " security vendors flagged this file as malicious"@),
        malicious == 0 && suspicious > 0 ==> (virustotal_finding_spec(
            malicious,
            suspicious,
            total,
            malicious_percent,
        ) matches Some(f) && f.title == "Suspicious file detection"@ && f.score == 15 && f.severity
            == Severity::Medium),
        malicious == 0 && suspicious == 0 ==> virustotal_finding_spec(
            malicious,
            suspicious,
            total,
            malicious_percent,
        ) is None,
{
}

/// A finding from VirusTotal engine counts; the flagged share is a percentage.
pub fn virustotal_finding(malicious: u64, suspicious: u64, total: u64, malicious_percent: u8) -> (r: Option<Finding>)
    requires
        malicious_percent <= 100,
    ensures
        match r {
            Some(f) => virustotal_finding_spec(malicious, suspicious, total, malicious_percent) == Some(f@),
            None => virustotal_finding_spec(malicious, suspicious, total, malicious_percent) is None,
        },
{
    if malicious > 0 {
        let mut ev = String::new();
        push_decimal(&mut ev, malicious);
        push_str(&mut ev, "/");
        push_decimal(&mut ev, total);
        push_str(&mut ev, " security vendors flagged this file as malicious");
        let critical = malicious_percent >= 50;
        let f = Finding {
            source: "VirusTotal",
            title: "Known malware signature",
            detail: "The downloaded content matches known malware in VirusTotal",
            severity: if critical {
                Severity::Critical
            } else {
                Severity::High
            },
            score: if critical {
                malicious_percent
            } else {
                50
            },
            evidence: ev,
        };
        assert(f@ =~= virustotal_finding_spec(malicious, suspicious, total, malicious_percent)->0);
        Some(f)
    } else if suspicious > 0 {
        let mut ev = String::new();
        push_decimal(&mut ev, suspicious);
        push_str(&mut ev, "/");
        push_decimal(&mut ev, total);
        push_str(&mut ev, " engines reported suspicious behavior");
        let f = Finding {
            source: "VirusTotal",
            title: "Suspicious file detection",
            detail: "Some engines found suspicious behavior in this downloaded file",
            severity: Severity::Medium,
            score: 15,
            evidence: ev,
        };
        assert(f@ =~= virustotal_finding_spec(malicious, suspicious, total, malicious_percent)->0);
        Some(f)
    } else {
        None
    }
}

} // verus!
