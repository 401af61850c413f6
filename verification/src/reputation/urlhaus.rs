//! URLHaus: whether the download host is known for distributing malware.
//! The lookup itself is left to the caller; this module turns its answer
//! into a finding.

use vstd::prelude::*;

use crate::analyzer::{Finding, FindingView, Severity};
use crate::text::{
    char_views, chars_eq, chars_of, contains, contains_exec, decimal, join, join_exec,
    lex_lt, lex_lt_exec, push_decimal, push_str,
};

verus! {

/// One URL that URLHaus lists for the host, with its threat label if any.
#[derive(Debug)]
pub struct UrlhausEntry {
    pub url: Option<String>,
    pub threat: Option<String>,
}

/// Inserts `x` into a sorted list of distinct strings, unless it is there.
pub open spec fn insert_unique(s: Seq<Seq<char>>, x: Seq<char>) -> Seq<Seq<char>>
    decreases s.len(),
{
    if s.len() == 0 {
        seq![x]
    } else if s[0] == x {
        s
    } else if lex_lt(x, s[0]) {
        seq![x] + s
    } else {
        seq![s[0]] + insert_unique(s.drop_first(), x)
    }
}

/// The distinct strings of `s` in ascending order (`sort` then `dedup`).
pub open spec fn sorted_unique(s: Seq<Seq<char>>) -> Seq<Seq<char>>
    decreases s.len(),
{
    if s.len() == 0 {
        Seq::empty()
    } else {
        insert_unique(sorted_unique(s.drop_last()), s.last())
    }
}

/// The threat labels that are present, in order.
pub open spec fn threat_labels(urls: Seq<UrlhausEntry>) -> Seq<Seq<char>>
    decreases urls.len(),
{
    if urls.len() == 0 {
        Seq::empty()
    } else {
        threat_labels(urls.drop_last()) + match urls.last().threat {
            Some(t) => seq![t@],
            None => Seq::empty(),
        }
    }
}

/// The URLs that are present among the first `n` entries, in order.
pub open spec fn listed_urls(urls: Seq<UrlhausEntry>) -> Seq<Seq<char>>
    decreases urls.len(),
{
    if urls.len() == 0 {
        Seq::empty()
    } else {
        listed_urls(urls.drop_last()) + match urls.last().url {
            Some(u) => seq![u@],
            None => Seq::empty(),
        }
    }
}

/// A label that marks payload delivery.
pub open spec fn is_payload_label(t: Seq<char>) -> bool {
    contains(t, "payload"@) || contains(t, "downloader"@) || contains(t, "malware"@)
}

/// The finding for a host with URLHaus entries: critical (55) when some
/// threat label mentions a payload, downloader or malware, high (35)
/// otherwise; the evidence counts the entries, lists the distinct labels and
/// up to three of the first URLs.  No finding unless the query status is
/// `ok` and some entry is listed.
pub open spec fn urlhaus_finding_spec(status: Option<Seq<char>>, urls: Option<Seq<UrlhausEntry>>) -> Option<FindingView> {
    if status != Some("ok"@) || urls is None || urls->0.len() == 0 {
        None
    } else {
        let u = urls->0;
        let labels = threat_labels(u);
        let payload = exists|i: int| 0 <= i < labels.len() && is_payload_label(#[trigger] labels[i]);
        Some(
            FindingView {
                source: "URLHaus"@,
                title: "Domain listed on URLHaus blocklist"@,
                detail: "This download host is known for distributing malware or threats"@,
                severity: if payload {
                    Severity::Critical
                } else {
                    Severity::High
                },
                score: if payload {
                    55
                } else {
                    35
                },
                evidence: decimal(u.len()) + " threats reported ("@ + join(sorted_unique(labels), ", "@)
                    + "): "@ + join(listed_urls(u.take(if u.len() < 3 { u.len() as int } else { 3 })), "; "@),
            },
        )
    }
}

/// URLHaus gives a finding only for an `ok` answer that lists some URL; a
/// listing with a payload, downloader or malware label is critical (55),
/// any other listing high (35).
pub proof fn urlhaus_listings_are_findings(status: Option<Seq<char>>, urls: Option<Seq<UrlhausEntry>>)
    ensures
        status != Some("ok"@) ==> urlhaus_finding_spec(status, urls) is None,
        (urls matches Some(u) ==> u.len() == 0) ==> urlhaus_finding_spec(status, urls) is None,
        status == Some("ok"@) && (urls matches Some(u) && u.len() > 0) ==> (urlhaus_finding_spec(status, urls) matches Some(
            f,
        ) && f.source == "URLHaus"@ && f.title == "Domain listed on URLHaus blocklist"@ && ((f.score == 55
            && f.severity == Severity::Critical) <==> (exists|i: int|
            0 <= i < threat_labels(urls->0).len() && is_payload_label(#[trigger] threat_labels(urls->0)[i])))
            && ((f.score == 35 && f.severity == Severity::High) <==> !(exists|i: int|
            0 <= i < threat_labels(urls->0).len() && is_payload_label(#[trigger] threat_labels(urls->0)[i])))),
{
}

fn insert_unique_exec(s: &mut Vec<Vec<char>>, x: Vec<char>)
    ensures
        char_views(final(s)@) == insert_unique(char_views(old(s)@), x@),
{
    let ghost orig = char_views(s@);
    let mut i: usize = 0;
    assert(orig.skip(0) == orig);
    while i < s.len()
        invariant
            i <= s.len(),
            char_views(s@) == orig,
            orig == char_views(old(s)@),
            insert_unique(orig, x@) == orig.take(i as int) + insert_unique(orig.skip(i as int), x@),
        decreases s.len() - i,
    {
        let ghost rest = orig.skip(i as int);
        assert(rest[0] == s@[i as int]@);
        assert(rest.drop_first() == orig.skip(i + 1));
        if chars_eq(s[i].as_slice(), x.as_slice()) {
            assert(orig.take(i as int) + rest == orig);
            return;
        }
        if lex_lt_exec(x.as_slice(), s[i].as_slice()) {
            let ghost xv = x@;
            s.insert(i, x);
            assert(char_views(s@) =~= orig.take(i as int) + (seq![xv] + rest));
            return;
        }
        assert(orig.take(i + 1) == orig.take(i as int) + seq![rest[0]]);
        i = i + 1;
    }
    let ghost xv = x@;
    s.push(x);
    assert(char_views(s@) =~= orig.take(i as int) + seq![xv]);
}

/// A finding from a URLHaus host lookup answer.
pub fn urlhaus_finding(status: Option<&str>, urls: Option<&Vec<UrlhausEntry>>) -> (r: Option<Finding>)
    ensures
        match r {
            Some(f) => urlhaus_finding_spec(
                match status {
                    Some(s) => Some(s@),
                    None => None,
                },
                match urls {
                    Some(u) => Some(u@),
                    None => None,
                },
            ) == Some(f@),
            None => urlhaus_finding_spec(
                match status {
                    Some(s) => Some(s@),
                    None => None,
                },
                match urls {
                    Some(u) => Some(u@),
                    None => None,
                },
            ) is None,
        },
{
    let ok = match status {
        Some(s) => crate::text::str_eq(s, "ok"),
        None => false,
    };
    if !ok {
        return None;
    }
    let u = match urls {
        Some(u) => u,
        None => {
            return None;
        },
    };
    if u.len() == 0 {
        return None;
    }
    let ghost uv = u@;
    let mut labels: Vec<Vec<char>> = Vec::new();
    let mut unique: Vec<Vec<char>> = Vec::new();
    let mut payload = false;
    let mut i: usize = 0;
    while i < u.len()
        invariant
            i <= u.len(),
            uv == u@,
            char_views(labels@) == threat_labels(uv.take(i as int)),
            char_views(unique@) == sorted_unique(threat_labels(uv.take(i as int))),
            payload == exists|k: int|
                0 <= k < labels@.len() && is_payload_label(#[trigger] char_views(labels@)[k]),
        decreases u.len() - i,
    {
        assert(uv.take(i + 1).drop_last() == uv.take(i as int));
        assert(uv.take(i + 1).last() == uv[i as int]);
        match &u[i].threat {
            Some(t) => {
                let tc = chars_of(t.as_str());
                let p = contains_exec(tc.as_slice(), chars_of("payload").as_slice())
                    || contains_exec(tc.as_slice(), chars_of("downloader").as_slice())
                    || contains_exec(tc.as_slice(), chars_of("malware").as_slice());
                let ghost before_labels = char_views(labels@);
                let ghost was = payload;
                labels.push(tc.clone());
                insert_unique_exec(&mut unique, tc);
                proof {
                    assert(char_views(labels@) =~= before_labels.push(t@));
                    assert(threat_labels(uv.take(i + 1)) =~= threat_labels(uv.take(i as int)).push(t@));
                    assert(threat_labels(uv.take(i + 1)).drop_last() == threat_labels(uv.take(i as int)));
                    if p && !was {
                        assert(is_payload_label(char_views(labels@)[labels@.len() - 1]));
                    }
                    if was {
                        let k = choose|k: int|
                            0 <= k < before_labels.len() && is_payload_label(#[trigger] before_labels[k]);
                        assert(char_views(labels@)[k] == before_labels[k]);
                    }
                    if !p && !was {
                        assert forall|k: int| 0 <= k < labels@.len() implies !is_payload_label(
                            #[trigger] char_views(labels@)[k],
                        ) by {
                            if k < before_labels.len() {
                                assert(char_views(labels@)[k] == before_labels[k]);
                            }
                        }
                    }
                }
                payload = payload || p;
            },
            None => {
                assert(threat_labels(uv.take(i + 1)) =~= threat_labels(uv.take(i as int)));
            },
        }
        i = i + 1;
    }
    assert(uv.take(uv.len() as int) == uv);
    let n = if u.len() < 3 {
        u.len()
    } else {
        3
    };
    let mut shown: Vec<Vec<char>> = Vec::new();
    let mut k: usize = 0;
    while k < n
        invariant
            k <= n <= u.len(),
            uv == u@,
            char_views(shown@) == listed_urls(uv.take(k as int)),
        decreases n - k,
    {
        assert(uv.take(k + 1).drop_last() == uv.take(k as int));
        assert(uv.take(k + 1).last() == uv[k as int]);
        match &u[k].url {
            Some(x) => {
                let ghost before_shown = char_views(shown@);
                shown.push(chars_of(x.as_str()));
                assert(char_views(shown@) =~= before_shown.push(x@));
            },
            None => {},
        }
        k = k + 1;
    }
    let mut ev = String::new();
    push_decimal(&mut ev, u.len() as u64);
    push_str(&mut ev, " threats reported (");
    push_str(&mut ev, join_exec(&unique, ", ").as_str());
    push_str(&mut ev, "): ");
    push_str(&mut ev, join_exec(&shown, "; ").as_str());
    let f = Finding {
        source: "URLHaus",
        title: "Domain listed on URLHaus blocklist",
        detail: "This download host is known for distributing malware or threats",
        severity: if payload {
            Severity::Critical
        } else {
            Severity::High
        },
        score: if payload {
            55
        } else {
            35
        },
        evidence: ev,
    };
    proof {
        let labels_spec = threat_labels(uv);
        assert(char_views(labels@) == labels_spec);
        assert(payload == exists|k: int| 0 <= k < labels_spec.len() && is_payload_label(#[trigger] labels_spec[k]));
        assert(f@ =~= urlhaus_finding_spec(Some(status->0@), Some(uv))->0);
    }
    Some(f)
}

} // verus!
