//! Trust scoring: the risk category of a binary and the quick,
//! path-based signature verdict used for bulk listings.

use vstd::prelude::*;
use vstd::string::StringExecFns;
use crate::json::{json_parses, json_text_at, parse_doc, text_at};
use crate::text::{
    ascii_lower_seq, eq_ignore_ascii_case,
    chars_of, contains_seq, occurs_at, contains_str, find_chars, first_index, slice_chars, trim_bounds,
    trim_seq,
};

verus! {

/// How far a process, service or startup entry is to be trusted.
#[derive(Clone, Copy, Debug, PartialEq, Eq, Structural)]
pub enum RiskCategory {
    Low,
    Medium,
    High,
    Suspicious,
    Unknown,
}

impl RiskCategory {
    /// The lower-case word that names the category.
    pub open spec fn label_spec(self) -> Seq<char> {
        match self {
            RiskCategory::Low => "low"@,
            RiskCategory::Medium => "medium"@,
            RiskCategory::High => "high"@,
            RiskCategory::Suspicious => "suspicious"@,
            RiskCategory::Unknown => "unknown"@,
        }
    }

    /// The lower-case word that names the category.
    pub fn label(&self) -> (r: String)
        ensures
            r@ == self.label_spec(),
    {
        match self {
            RiskCategory::Low => String::from_str("low"),
            RiskCategory::Medium => String::from_str("medium"),
            RiskCategory::High => String::from_str("high"),
            RiskCategory::Suspicious => String::from_str("suspicious"),
            RiskCategory::Unknown => String::from_str("unknown"),
        }
    }
}

/// Whether a binary's signature was verified, and by whom.
#[derive(Clone, Debug)]
pub struct TrustMetadata {
    pub signed: bool,
    pub publisher: Option<String>,
}

impl Default for TrustMetadata {
    fn default() -> (r: TrustMetadata)
        ensures
            !r.signed,
            r.publisher is None,
    {
        TrustMetadata { signed: false, publisher: None }
    }
}

/// Full Unicode lower-case mapping of a text, as `str::to_lowercase` gives it.
pub uninterp spec fn lower_of(s: Seq<char>) -> Seq<char>;

/// Relies on `str::to_lowercase`: its result depends on the characters alone.
#[verifier::external_body]
fn lowercase(s: &str) -> (r: String)
    ensures
        r@ == lower_of(s@),
{
    s.to_lowercase()
}

/// Whether a lower-cased name looks like a typosquat of a critical system
/// process (digits standing in for letters, a doubled letter).
pub open spec fn is_typosquat_name(name_lower: Seq<char>) -> bool {
    contains_seq(name_lower, "svch0st"@) || contains_seq(name_lower, "exp1orer"@)
        || contains_seq(name_lower, "1sass"@) || contains_seq(name_lower, "csrsss"@)
}

/// Whether a lower-cased path lies in a temporary directory.
pub open spec fn is_temp_path(path_lower: Seq<char>) -> bool {
    contains_seq(path_lower, "\\temp\\"@) || contains_seq(path_lower, "\\tmp\\"@)
        || contains_seq(path_lower, "\\appdata\\local\\temp\\"@) || contains_seq(
        path_lower,
        "/tmp/"@,
    )
}

/// Whether a lower-cased path lies under a trusted system or installation
/// directory.
pub open spec fn is_trusted_location(path_lower: Seq<char>) -> bool {
    contains_seq(path_lower, "\\windows\\"@) || contains_seq(path_lower, "\\program files\\"@)
        || contains_seq(path_lower, "/usr/bin/"@) || contains_seq(path_lower, "/bin/"@)
}

/// The risk of a binary whose path and display name are given lower-cased;
/// the first rule that applies decides.
pub open spec fn folded_risk(path_lower: Seq<char>, name_lower: Seq<char>, signed: bool) -> RiskCategory {
    if is_typosquat_name(name_lower) {
        RiskCategory::Suspicious
    } else if !signed && is_temp_path(path_lower) {
        RiskCategory::High
    } else if !signed {
        RiskCategory::Medium
    } else {
        RiskCategory::Low
    }
}

/// The risk category of a binary. Without a path nothing is known; the
/// name, when absent, is taken from the path. Matching ignores case, and a
/// publisher does not change the outcome.
pub open spec fn risk_of(
    path: Option<Seq<char>>,
    publisher: Option<Seq<char>>,
    signed: bool,
    name: Option<Seq<char>>,
) -> RiskCategory {
    match path {
        None => RiskCategory::Unknown,
        Some(p) => {
            let n = match name {
                Some(n) => n,
                None => p,
            };
            folded_risk(lower_of(p), lower_of(n), signed)
        },
    }
}

/// The view of an optional text.
pub open spec fn opt_view(s: Option<&str>) -> Option<Seq<char>> {
    match s {
        Some(t) => Some(t@),
        None => None,
    }
}

/// The risk of a binary whose path and display name are already lower-cased.
pub fn folded_risk_of(path_lower: &str, name_lower: &str, signed: bool) -> (r: RiskCategory)
    ensures
        r == folded_risk(path_lower@, name_lower@, signed),
{
    let n = chars_of(name_lower);
    if contains_str(&n, "svch0st") || contains_str(&n, "exp1orer") || contains_str(&n, "1sass")
        || contains_str(&n, "csrsss") {
        return RiskCategory::Suspicious;
    }
    let p = chars_of(path_lower);
    if !signed && (contains_str(&p, "\\temp\\") || contains_str(&p, "\\tmp\\") || contains_str(
        &p,
        "\\appdata\\local\\temp\\",
    ) || contains_str(&p, "/tmp/")) {
        return RiskCategory::High;
    }
    if !signed {
        return RiskCategory::Medium;
    }
    RiskCategory::Low
}

/// The risk category of a binary, as its label (`low`, `medium`, `high`,
/// `suspicious` or `unknown`).
pub fn assess_risk(
    path: Option<&str>,
    publisher: Option<&str>,
    signed: bool,
    process_name: Option<&str>,
) -> (r: String)
    ensures
        r@ == risk_of(opt_view(path), opt_view(publisher), signed, opt_view(process_name)).label_spec(),
{
    let category = match path {
        None => RiskCategory::Unknown,
        Some(p) => {
            let path_lower = lowercase(p);
            let name_lower = match process_name {
                Some(n) => lowercase(n),
                None => lowercase(p),
            };
            folded_risk_of(path_lower.as_str(), name_lower.as_str(), signed)
        },
    };
    category.label()
}

/// The quick verdict for a binary whose path is already lower-cased.
pub fn quick_trust_folded(path_lower: &str) -> (r: TrustMetadata)
    ensures
        r.signed == is_trusted_location(path_lower@),
        r.publisher is None,
{
    let p = chars_of(path_lower);
    let likely_signed = contains_str(&p, "\\windows\\") || contains_str(&p, "\\program files\\")
        || contains_str(&p, "/usr/bin/") || contains_str(&p, "/bin/");
    TrustMetadata { signed: likely_signed, publisher: None }
}

/// The fast verdict for bulk listings: signed exactly when the binary sits
/// under a trusted system directory (case ignored), with no publisher.
pub fn quick_trust_from_path(path: Option<&str>) -> (r: TrustMetadata)
    ensures
        r.signed == match path {
            Some(p) => is_trusted_location(lower_of(p@)),
            None => false,
        },
        r.publisher is None,
{
    match path {
        None => TrustMetadata::default(),
        Some(p) => {
            let lower = lowercase(p);
            quick_trust_folded(lower.as_str())
        },
    }
}

/// The risk rules, first match wins: without a path the risk is `unknown`;
/// a typosquat name (the name, or the path when no name is given, compared
/// lower-cased) is `suspicious` whatever the signature and the path; an
/// unsigned binary in a temporary directory is `high`; any other unsigned
/// one is `medium`; a signed one is `low`. The publisher never changes the
/// outcome, and exactly one category results.
pub proof fn lemma_risk_rules(
    path: Option<Seq<char>>,
    publisher: Option<Seq<char>>,
    signed: bool,
    name: Option<Seq<char>>,
)
    ensures
        path is None ==> risk_of(path, publisher, signed, name) == RiskCategory::Unknown,
        path is Some ==> ({
            let p = path->0;
            let n = match name {
                Some(n) => n,
                None => p,
            };
            &&& is_typosquat_name(lower_of(n)) ==> risk_of(path, publisher, signed, name)
                == RiskCategory::Suspicious
            &&& !is_typosquat_name(lower_of(n)) && !signed && is_temp_path(lower_of(p)) ==> risk_of(
                path,
                publisher,
                signed,
                name,
            ) == RiskCategory::High
            &&& !is_typosquat_name(lower_of(n)) && !signed && !is_temp_path(lower_of(p)) ==> risk_of(
                path,
                publisher,
                signed,
                name,
            ) == RiskCategory::Medium
            &&& !is_typosquat_name(lower_of(n)) && signed ==> risk_of(path, publisher, signed, name)
                == RiskCategory::Low
        }),
        risk_of(path, publisher, signed, name) == risk_of(path, None, signed, name),
{
}

/// Scoring has no hidden state: two results of `assess_risk` on the same
/// inputs are the same label.
pub proof fn lemma_assess_risk_repeatable(
    r1: Seq<char>,
    r2: Seq<char>,
    path: Option<Seq<char>>,
    publisher: Option<Seq<char>>,
    signed: bool,
    name: Option<Seq<char>>,
)
    requires
        r1 == risk_of(path, publisher, signed, name).label_spec(),
        r2 == risk_of(path, publisher, signed, name).label_spec(),
    ensures
        r1 == r2,
{
}

/// The signer's common name in a certificate subject: what follows the first
/// `CN=` up to the next comma (or the end), trimmed; `None` without a `CN=`.
pub open spec fn cn_of(subject: Seq<char>) -> Option<Seq<char>> {
    if contains_seq(subject, "CN="@) {
        let rest = subject.subrange(first_index(subject, "CN="@) + "CN="@.len(), subject.len() as int);
        let end = if contains_seq(rest, ","@) {
            first_index(rest, ","@)
        } else {
            rest.len() as int
        };
        Some(trim_seq(rest.take(end)))
    } else {
        None
    }
}

/// The signer's common name in a certificate subject.
pub fn subject_cn(subject: &str) -> (r: Option<String>)
    ensures
        match r {
            Some(s) => cn_of(subject@) == Some(s@),
            None => cn_of(subject@) is None,
        },
{
    let v = chars_of(subject);
    let token = chars_of("CN=");
    let found = find_chars(&v, &token);
    let idx = match found {
        Some(i) => i,
        None => return None,
    };
    let n = v.len();
    assert(occurs_at(v@, token@, idx as int));
    assert(idx + token@.len() <= n);
    let start = idx + token.len();
    let rest = slice_chars(&v, start, n);
    let comma = chars_of(",");
    let end = match find_chars(&rest, &comma) {
        Some(e) => e,
        None => rest.len(),
    };
    let (a, b) = trim_bounds(&rest, 0, end);
    assert(rest@.subrange(0, end as int) =~= rest@.take(end as int));
    assert(subject@.subrange(start + a, start + b) =~= rest@.subrange(a as int, b as int));
    Some(String::from_str(subject.substring_char(start + a, start + b)))
}

/// Whether `r` is the verdict of a signature check that reported `status`
/// and a signer certificate with `subject`: signed exactly when the status
/// is `Valid` (ASCII case ignored), published by the subject's common name.
pub open spec fn verdict_fits(r: TrustMetadata, status: Option<Seq<char>>, subject: Option<Seq<char>>) -> bool {
    &&& r.signed == match status {
        Some(st) => ascii_lower_seq(st) == ascii_lower_seq("Valid"@),
        None => false,
    }
    &&& match subject {
        Some(su) => match cn_of(su) {
            Some(cn) => r.publisher is Some && r.publisher->0@ == cn,
            None => r.publisher is None,
        },
        None => r.publisher is None,
    }
}

/// The verdict of a signature check from the status it reported and its
/// signer certificate's subject.
pub fn signature_verdict(status: Option<&str>, subject: Option<&str>) -> (r: TrustMetadata)
    ensures
        verdict_fits(r, opt_view(status), opt_view(subject)),
{
    let signed = match status {
        Some(st) => eq_ignore_ascii_case(st, "Valid"),
        None => false,
    };
    let publisher = match subject {
        Some(su) => subject_cn(su),
        None => None,
    };
    TrustMetadata { signed, publisher }
}

/// The signature status in the JSON printed by the signature check.
pub open spec fn status_of(output: Seq<u8>) -> Option<Seq<char>> {
    json_text_at(output, "/Status"@)
}

/// The subject of the signer certificate in the JSON printed by the
/// signature check.
pub open spec fn subject_of(output: Seq<u8>) -> Option<Seq<char>> {
    json_text_at(output, "/SignerCertificate/Subject"@)
}

/// The verdict in the JSON printed by the signature check: from its
/// `Status` and the `Subject` of its `SignerCertificate`; none when the
/// output is not JSON.
pub fn signature_from_json(output: &[u8]) -> (r: Option<TrustMetadata>)
    ensures
        r is Some <==> json_parses(output@),
        r is Some ==> verdict_fits(r->0, status_of(output@), subject_of(output@)),
{
    let doc = match parse_doc(output) {
        Ok(d) => d,
        Err(_) => return None,
    };
    let status = text_at(&doc, "/Status");
    let subject = text_at(&doc, "/SignerCertificate/Subject");
    let status_str: Option<&str> = match &status {
        Some(t) => Some(t.as_str()),
        None => None,
    };
    let subject_str: Option<&str> = match &subject {
        Some(t) => Some(t.as_str()),
        None => None,
    };
    Some(signature_verdict(status_str, subject_str))
}

/// What the platform's signature check produced: whether it exited
/// successfully, and what it printed.
#[derive(Clone, Debug)]
pub struct SignatureCheck {
    pub succeeded: bool,
    pub output: Vec<u8>,
}

/// The authoritative verdict for a binary. A blank path gets the default
/// verdict. Where the file is missing, or the check is unavailable, failed
/// or printed no JSON, the quick path-based verdict stands in; otherwise
/// the verdict follows the check's status and signer.
pub fn get_signature_details(path: &str, path_exists: bool, check: Option<SignatureCheck>) -> (r:
    TrustMetadata)
    ensures
        path@.len() == 0 ==> !r.signed && r.publisher is None,
        path@.len() > 0 && (!path_exists || check is None || !check->0.succeeded || !json_parses(
            check->0.output@,
        )) ==> r.signed == is_trusted_location(lower_of(path@)) && r.publisher is None,
        path@.len() > 0 && path_exists && check is Some && check->0.succeeded && json_parses(
            check->0.output@,
        ) ==> verdict_fits(r, status_of(check->0.output@), subject_of(check->0.output@)),
{
    if path.unicode_len() == 0 {
        return TrustMetadata::default();
    }
    if !path_exists {
        return quick_trust_from_path(Some(path));
    }
    match check {
        Some(c) => if c.succeeded {
            match signature_from_json(c.output.as_slice()) {
                Some(t) => t,
                None => quick_trust_from_path(Some(path)),
            }
        } else {
            quick_trust_from_path(Some(path))
        },
        None => quick_trust_from_path(Some(path)),
    }
}

} // verus!
