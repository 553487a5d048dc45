//! System services: shaping the service manager's listing into records with
//! a trust verdict, and the scripts and outcomes of service actions.

use vstd::prelude::*;
use vstd::string::StringExecFns;
use crate::json::{
    array_len_at, json_array_len_at, json_error_text, json_object_at, json_parses, json_text_at,
    object_at, parse_doc, text_at, JsonDoc,
};
use crate::startup::{executable_of, extract_executable_path};
use crate::store::{opt_seq, ChangeEvent, ChangeView};
use crate::text::{
    append_decimal, decimal, ascii_lower_seq, chars_of, concat2, escape_single_quotes, quote_escaped, to_ascii_lowercase,
};
use crate::trust::{assess_risk, is_trusted_location, lower_of, quick_trust_from_path, risk_of};

verus! {

/// The binary that a service's command line starts.
pub fn parse_binary_path(path: &str) -> (r: Option<String>)
    ensures
        opt_seq(r) == executable_of(path@),
{
    extract_executable_path(path)
}

/// One system service, with its trust verdict.
#[derive(Clone, Debug)]
pub struct ServiceInfo {
    pub name: String,
    pub display_name: String,
    pub status: String,
    pub start_type: String,
    pub description: Option<String>,
    pub binary_path: Option<String>,
    pub signed: bool,
    pub publisher: Option<String>,
    pub risk: String,
    pub requires_admin: bool,
}

/// The services found.
#[derive(Clone, Debug)]
pub struct ServicesResponse {
    pub services: Vec<ServiceInfo>,
}

/// The outcome of a service action.
#[derive(Clone, Debug)]
pub struct ServiceActionResponse {
    pub success: bool,
    pub name: String,
    pub action: String,
    pub message: String,
}

/// The fields that the service manager reports for one service.
#[derive(Clone, Debug)]
pub struct ServiceFields {
    pub name: Option<String>,
    pub display_name: Option<String>,
    pub state: Option<String>,
    pub start_mode: Option<String>,
    pub path_name: Option<String>,
}

/// What the service manager reports for one service, as texts.
pub struct ServiceRow {
    pub name: Option<Seq<char>>,
    pub display_name: Option<Seq<char>>,
    pub state: Option<Seq<char>>,
    pub start_mode: Option<Seq<char>>,
    pub path_name: Option<Seq<char>>,
}

impl ServiceFields {
    /// The reported fields as texts.
    pub open spec fn row(self) -> ServiceRow {
        ServiceRow {
            name: opt_seq(self.name),
            display_name: opt_seq(self.display_name),
            state: opt_seq(self.state),
            start_mode: opt_seq(self.start_mode),
            path_name: opt_seq(self.path_name),
        }
    }
}

/// A text, or `fallback` where it is absent.
pub open spec fn or_else(s: Option<Seq<char>>, fallback: Seq<char>) -> Seq<char> {
    match s {
        Some(t) => t,
        None => fallback,
    }
}

/// The binary path of a service, from its reported command line.
pub open spec fn service_binary(f: ServiceRow) -> Option<Seq<char>> {
    match f.path_name {
        Some(p) => executable_of(p),
        None => None,
    }
}

/// Whether `r` is the record of the reported service `f`: the display name
/// falls back to the name, state and start mode to `Unknown`, and the
/// binary comes from the command line, with its quick trust verdict and
/// the risk that follows (judged by the display name).
pub open spec fn service_fits(r: ServiceInfo, f: ServiceRow) -> bool {
    let name = or_else(f.name, Seq::empty());
    let display = or_else(f.display_name, name);
    let binary = service_binary(f);
    let signed = match binary {
        Some(b) => is_trusted_location(lower_of(b)),
        None => false,
    };
    &&& r.name@ == name
    &&& r.display_name@ == display
    &&& r.status@ == or_else(f.state, "Unknown"@)
    &&& r.start_type@ == or_else(f.start_mode, "Unknown"@)
    &&& r.description is None
    &&& opt_seq(r.binary_path) == binary
    &&& r.signed == signed
    &&& r.publisher is None
    &&& r.risk@ == risk_of(binary, None, signed, Some(display)).label_spec()
    &&& !r.requires_admin
}

/// Whether a reported service is kept: it has a non-empty name.
pub open spec fn service_named(f: ServiceRow) -> bool {
    match f.name {
        Some(n) => n.len() > 0,
        None => false,
    }
}

/// A text, or `fallback` where it is absent.
fn text_or(s: &Option<String>, fallback: &str) -> (r: String)
    ensures
        r@ == or_else(opt_seq(*s), fallback@),
{
    match s {
        Some(t) => t.clone(),
        None => String::from_str(fallback),
    }
}

/// The record of a reported service; none for one without a name.
pub fn service_record(f: &ServiceFields) -> (r: Option<ServiceInfo>)
    ensures
        r is Some <==> service_named(f.row()),
        r is Some ==> service_fits(r->0, f.row()),
{
    let name = match &f.name {
        Some(n) => n.clone(),
        None => return None,
    };
    if name.unicode_len() == 0 {
        return None;
    }
    let display_name = text_or(&f.display_name, name.as_str());
    let binary_path = match &f.path_name {
        Some(p) => parse_binary_path(p.as_str()),
        None => None,
    };
    let binary_str: Option<&str> = match &binary_path {
        Some(b) => Some(b.as_str()),
        None => None,
    };
    let trust = quick_trust_from_path(binary_str);
    let risk = assess_risk(binary_str, None, trust.signed, Some(display_name.as_str()));
    Some(
        ServiceInfo {
            name,
            display_name,
            status: text_or(&f.state, "Unknown"),
            start_type: text_or(&f.start_mode, "Unknown"),
            description: None,
            binary_path,
            signed: trust.signed,
            publisher: trust.publisher,
            risk,
            requires_admin: false,
        },
    )
}

/// Whether `a` comes before `b` in code-point order.
pub open spec fn text_less(a: Seq<char>, b: Seq<char>) -> bool
    decreases a.len(),
{
    if a.len() == 0 {
        b.len() > 0
    } else if b.len() == 0 {
        false
    } else if a[0] != b[0] {
        a[0] < b[0]
    } else {
        text_less(a.drop_first(), b.drop_first())
    }
}

/// Whether `a` comes before `b` in code-point order.
pub fn is_text_less(a: &str, b: &str) -> (r: bool)
    ensures
        r == text_less(a@, b@),
{
    let av = chars_of(a);
    let bv = chars_of(b);
    let mut i: usize = 0;
    assert(av@.subrange(0, av@.len() as int) =~= av@);
    assert(bv@.subrange(0, bv@.len() as int) =~= bv@);
    while i < av.len() && i < bv.len() && av[i] == bv[i]
        invariant
            i <= av@.len(),
            i <= bv@.len(),
            text_less(a@, b@) == text_less(av@.subrange(i as int, av@.len() as int), bv@.subrange(
                i as int,
                bv@.len() as int,
            )),
        decreases av@.len() - i,
    {
        assert(av@.subrange(i as int, av@.len() as int).drop_first() =~= av@.subrange(
            i + 1,
            av@.len() as int,
        ));
        assert(bv@.subrange(i as int, bv@.len() as int).drop_first() =~= bv@.subrange(
            i + 1,
            bv@.len() as int,
        ));
        i = i + 1;
    }
    if i == av.len() {
        i < bv.len()
    } else if i == bv.len() {
        false
    } else {
        av[i] < bv[i]
    }
}

/// `s` with `x` placed after every service whose display name does not come
/// after its own.
pub open spec fn insert_by_name(s: Seq<ServiceInfo>, x: ServiceInfo) -> Seq<ServiceInfo>
    decreases s.len(),
{
    if s.len() == 0 {
        seq![x]
    } else if text_less(x.display_name@, s[0].display_name@) {
        seq![x] + s
    } else {
        seq![s[0]] + insert_by_name(s.drop_first(), x)
    }
}

/// `s` ordered by display name, services with equal names in their order.
pub open spec fn sort_by_name(s: Seq<ServiceInfo>) -> Seq<ServiceInfo>
    decreases s.len(),
{
    if s.len() == 0 {
        s
    } else {
        insert_by_name(sort_by_name(s.drop_last()), s.last())
    }
}

proof fn lemma_insert_by_name_at(s: Seq<ServiceInfo>, x: ServiceInfo, p: int)
    requires
        0 <= p <= s.len(),
        forall|k: int| 0 <= k < p ==> !text_less(x.display_name@, #[trigger] s[k].display_name@),
        p == s.len() || text_less(x.display_name@, s[p].display_name@),
    ensures
        insert_by_name(s, x) == s.insert(p, x),
    decreases p,
{
    if s.len() == 0 {
        assert(s.insert(p, x) =~= seq![x]);
    } else if p == 0 {
        assert(s.insert(p, x) =~= seq![x] + s);
    } else {
        assert(!text_less(x.display_name@, s[0].display_name@));
        lemma_insert_by_name_at(s.drop_first(), x, p - 1);
        assert(s.insert(p, x) =~= seq![s[0]] + s.drop_first().insert(p - 1, x));
    }
}

/// The services ordered by display name; equal names keep their order.
pub fn sort_services(services: Vec<ServiceInfo>) -> (r: Vec<ServiceInfo>)
    ensures
        r@ == sort_by_name(services@),
{
    let n = services.len();
    let ghost all = services@;
    let mut rest = services;
    let mut out: Vec<ServiceInfo> = Vec::new();
    let mut i: usize = 0;
    while i < n
        invariant
            n == all.len(),
            i <= n,
            rest@ == all.subrange(i as int, n as int),
            out@ == sort_by_name(all.take(i as int)),
        decreases n - i,
    {
        let x = rest.remove(0);
        proof {
            assert(x == all[i as int]);
            assert(all.take(i + 1).drop_last() =~= all.take(i as int));
        }
        let mut p: usize = 0;
        while p < out.len() && !is_text_less(x.display_name.as_str(), out[p].display_name.as_str())
            invariant
                p <= out@.len(),
                forall|k: int| 0 <= k < p ==> !text_less(x.display_name@, #[trigger] out@[k].display_name@),
            decreases out@.len() - p,
        {
            p = p + 1;
        }
        proof {
            lemma_insert_by_name_at(out@, x, p as int);
        }
        out.insert(p, x);
        i = i + 1;
        assert(rest@ =~= all.subrange(i as int, n as int));
    }
    assert(all.take(n as int) =~= all);
    out
}

/// The actions that can be applied to a service.
#[derive(Clone, Copy, Debug, PartialEq, Eq, Structural)]
pub enum ServiceCommand {
    Start,
    Stop,
    Restart,
    Automatic,
    Manual,
    Disabled,
}

/// The action named by a lower-cased action word.
pub open spec fn command_named(lower: Seq<char>) -> Option<ServiceCommand> {
    if lower == "start"@ {
        Some(ServiceCommand::Start)
    } else if lower == "stop"@ {
        Some(ServiceCommand::Stop)
    } else if lower == "restart"@ {
        Some(ServiceCommand::Restart)
    } else if lower == "automatic"@ {
        Some(ServiceCommand::Automatic)
    } else if lower == "manual"@ {
        Some(ServiceCommand::Manual)
    } else if lower == "disabled"@ {
        Some(ServiceCommand::Disabled)
    } else {
        None
    }
}

/// The shell script that applies `c` to the service whose quoted name is
/// `escaped`.
pub open spec fn script_for(c: ServiceCommand, escaped: Seq<char>) -> Seq<char> {
    match c {
        ServiceCommand::Start => "Start-Service -Name '"@ + escaped + "'"@,
        ServiceCommand::Stop => "Stop-Service -Name '"@ + escaped + "' -Force"@,
        ServiceCommand::Restart => "Restart-Service -Name '"@ + escaped + "' -Force"@,
        ServiceCommand::Automatic => "Set-Service -Name '"@ + escaped + "' -StartupType Automatic"@,
        ServiceCommand::Manual => "Set-Service -Name '"@ + escaped + "' -StartupType Manual"@,
        ServiceCommand::Disabled => "Set-Service -Name '"@ + escaped + "' -StartupType Disabled"@,
    }
}

/// The script for a service action: the action word is read without regard
/// to ASCII case, and an unknown one is refused with its lower-cased form.
pub fn service_action_script(name: &str, action: &str) -> (r: Result<String, String>)
    ensures
        match command_named(ascii_lower_seq(action@)) {
            Some(c) => r is Ok && r->Ok_0@ == script_for(c, quote_escaped(name@)),
            None => r is Err && r->Err_0@ == "unsupported service action: "@ + ascii_lower_seq(
                action@,
            ),
        },
{
    let lower = to_ascii_lowercase(action);
    let escaped = escape_single_quotes(name);
    let (head, tail) = if lower.eq(&String::from_str("start")) {
        ("Start-Service -Name '", "'")
    } else if lower.eq(&String::from_str("stop")) {
        ("Stop-Service -Name '", "' -Force")
    } else if lower.eq(&String::from_str("restart")) {
        ("Restart-Service -Name '", "' -Force")
    } else if lower.eq(&String::from_str("automatic")) {
        ("Set-Service -Name '", "' -StartupType Automatic")
    } else if lower.eq(&String::from_str("manual")) {
        ("Set-Service -Name '", "' -StartupType Manual")
    } else if lower.eq(&String::from_str("disabled")) {
        ("Set-Service -Name '", "' -StartupType Disabled")
    } else {
        return Err(concat2("unsupported service action: ", lower.as_str()));
    };
    let mut script = concat2(head, escaped.as_str());
    script.append(tail);
    Ok(script)
}

/// The outcome of a service action from the script's exit status and its
/// trimmed error output.
pub fn service_action_outcome(succeeded: bool, error_output: &str) -> (r: Result<String, String>)
    ensures
        succeeded ==> r is Ok && r->Ok_0@ == "Service action completed."@,
        !succeeded && error_output@.len() == 0 ==> r is Err && r->Err_0@
            == "Service action failed. Administrator rights may be required."@,
        !succeeded && error_output@.len() > 0 ==> r is Err && r->Err_0@ == error_output@,
{
    if succeeded {
        return Ok(String::from_str("Service action completed."));
    }
    if error_output.unicode_len() == 0 {
        return Err(String::from_str("Service action failed. Administrator rights may be required."));
    }
    Err(String::from_str(error_output))
}

/// The response to a service action, given its outcome: the success message
/// or the failure text.
pub fn service_action_response(name: String, action: String, outcome: Result<String, String>) -> (r:
    ServiceActionResponse)
    ensures
        r.name == name,
        r.action == action,
        r.success == outcome is Ok,
        r.message == match outcome {
            Ok(m) => m,
            Err(e) => e,
        },
{
    match outcome {
        Ok(message) => ServiceActionResponse { success: true, name, action, message },
        Err(message) => ServiceActionResponse { success: false, name, action, message },
    }
}

/// The change event that records a completed service action.
pub open spec fn service_event(name: Seq<char>, action: Seq<char>, message: Seq<char>, now: i64) -> ChangeView {
    ChangeView {
        id: None,
        detected_utc: now,
        category: "Service"@,
        change_type: "Modified"@,
        name: Some(name),
        path: None,
        details: Some("Action '"@ + action + "' completed: "@ + message),
        is_approved: false,
        is_ignored: false,
    }
}

/// The change event that records a service action completed at `now`.
pub fn service_change_event(name: &str, action: &str, message: &str, now: i64) -> (r: ChangeEvent)
    ensures
        r@ == service_event(name@, action@, message@, now),
{
    let mut details = concat2("Action '", action);
    details.append("' completed: ");
    details.append(message);
    ChangeEvent {
        id: None,
        detected_utc: now,
        category: String::from_str("Service"),
        change_type: String::from_str("Modified"),
        name: Some(String::from_str(name)),
        path: None,
        details: Some(details),
        is_approved: false,
        is_ignored: false,
    }
}

/// The report of the service at `prefix` (a JSON pointer) in `doc`.
pub open spec fn row_at(doc: Seq<u8>, prefix: Seq<char>) -> ServiceRow {
    ServiceRow {
        name: json_text_at(doc, prefix + "/Name"@),
        display_name: json_text_at(doc, prefix + "/DisplayName"@),
        state: json_text_at(doc, prefix + "/State"@),
        start_mode: json_text_at(doc, prefix + "/StartMode"@),
        path_name: json_text_at(doc, prefix + "/PathName"@),
    }
}

/// The services reported in the listing `doc`: each item of a top-level
/// array, a top-level object as the only service, and none otherwise.
pub open spec fn service_rows_of(doc: Seq<u8>) -> Seq<ServiceRow> {
    match json_array_len_at(doc, ""@) {
        Some(n) => Seq::new(n, |i: int| row_at(doc, "/"@ + decimal(i as nat))),
        None => if json_object_at(doc, ""@) {
            seq![row_at(doc, ""@)]
        } else {
            Seq::empty()
        },
    }
}

/// The reported services that have a non-empty name, in order.
pub open spec fn named_rows(s: Seq<ServiceRow>) -> Seq<ServiceRow>
    decreases s.len(),
{
    if s.len() == 0 {
        Seq::empty()
    } else if service_named(s.last()) {
        named_rows(s.drop_last()).push(s.last())
    } else {
        named_rows(s.drop_last())
    }
}

/// Whether `listing` is the list of records `recs`, one for each of the
/// reported `rows` in turn, ordered by display name.
pub open spec fn listing_fits(listing: Seq<ServiceInfo>, rows: Seq<ServiceRow>, recs: Seq<ServiceInfo>) -> bool {
    &&& recs.len() == rows.len()
    &&& forall|i: int| 0 <= i < recs.len() ==> service_fits(#[trigger] recs[i], rows[i])
    &&& listing == sort_by_name(recs)
}

/// The fields of the service at `prefix` in the document.
fn fields_at(doc: &JsonDoc, prefix: &str) -> (r: ServiceFields)
    ensures
        r.row() == row_at(doc.source(), prefix@),
{
    let name = text_at(doc, concat2(prefix, "/Name").as_str());
    let display_name = text_at(doc, concat2(prefix, "/DisplayName").as_str());
    let state = text_at(doc, concat2(prefix, "/State").as_str());
    let start_mode = text_at(doc, concat2(prefix, "/StartMode").as_str());
    let path_name = text_at(doc, concat2(prefix, "/PathName").as_str());
    ServiceFields { name, display_name, state, start_mode, path_name }
}

/// The services in the JSON listing printed by the service manager (one
/// object, or an array of objects with `Name`, `DisplayName`, `State`,
/// `StartMode` and `PathName`): one record for each reported service with a
/// non-empty name, ordered by display name. Output that is not JSON is
/// refused.
pub fn services_from_json(output: &[u8]) -> (r: Result<Vec<ServiceInfo>, String>)
    ensures
        r is Ok <==> json_parses(output@),
        r is Ok ==> exists|recs: Seq<ServiceInfo>|
            #[trigger] listing_fits(r->Ok_0@, named_rows(service_rows_of(output@)), recs),
        r is Err ==> exists|detail: Seq<char>| r->Err_0@ == "invalid services json: "@ + detail,
{
    let doc = match parse_doc(output) {
        Ok(d) => d,
        Err(e) => {
            let detail = json_error_text(&e);
            return Err(concat2("invalid services json: ", detail.as_str()));
        },
    };
    let ghost rows = service_rows_of(output@);
    let (count, is_array): (usize, bool) = match array_len_at(&doc, "") {
        Some(n) => (n, true),
        None => if object_at(&doc, "") {
            (1, false)
        } else {
            (0, false)
        },
    };
    let mut records: Vec<ServiceInfo> = Vec::new();
    let mut i: usize = 0;
    while i < count
        invariant
            doc.source() == output@,
            rows == service_rows_of(output@),
            rows.len() == count,
            is_array ==> json_array_len_at(output@, ""@) == Some(count as nat),
            !is_array ==> json_array_len_at(output@, ""@) is None,
            i <= count,
            records@.len() == named_rows(rows.take(i as int)).len(),
            forall|k: int|
                0 <= k < records@.len() ==> service_fits(
                    #[trigger] records@[k],
                    named_rows(rows.take(i as int))[k],
                ),
        decreases count - i,
    {
        let prefix = if is_array {
            let mut p = String::from_str("/");
            append_decimal(&mut p, i as u128);
            p
        } else {
            String::new()
        };
        proof {
            reveal_strlit("");
            if is_array {
                assert(prefix@ =~= "/"@ + decimal(i as nat));
            } else {
                assert(prefix@ =~= ""@);
            }
        }
        let f = fields_at(&doc, prefix.as_str());
        proof {
            assert(f.row() == rows[i as int]);
            assert(rows.take(i + 1).drop_last() =~= rows.take(i as int));
            assert(rows.take(i + 1).last() == rows[i as int]);
        }
        let ghost before = records@;
        match service_record(&f) {
            Some(rec) => {
                records.push(rec);
                assert(named_rows(rows.take(i + 1)) == named_rows(rows.take(i as int)).push(
                    rows[i as int],
                ));
                assert forall|k: int| 0 <= k < records@.len() implies service_fits(
                    #[trigger] records@[k],
                    named_rows(rows.take(i + 1))[k],
                ) by {
                    if k < before.len() {
                        assert(records@[k] == before[k]);
                    }
                }
            },
            None => {
                assert(named_rows(rows.take(i + 1)) == named_rows(rows.take(i as int)));
            },
        }
        i = i + 1;
    }
    assert(rows.take(count as int) =~= rows);
    let ghost recs = records@;
    let sorted = sort_services(records);
    let r = Ok(sorted);
    assert(listing_fits(r->Ok_0@, named_rows(service_rows_of(output@)), recs));
    r
}

} // verus!
