//! One update cycle: resolve all addresses once, render every entry's URL
//! and prepare its credentials, classify every entry's HTTP answer, and
//! fold all outcomes into one cycle result. A resolution failure aborts
//! the whole cycle; a render or execution failure is scoped to its entry
//! and never hides the failures of its siblings.

use vstd::prelude::*;

use crate::addresses::AddressMap;
use crate::config::{Config, DdnsEntry};
use crate::executor::{
    basic_auth_header_value, spec_basic_auth, spec_status_message, u16_to_string, UpdateOutcome,
};
use crate::render::{render, spec_render, spec_render_error_message};
use crate::resolver::{
    host_interfaces, resolve_with_interfaces, spec_resolve, NetworkInterfaceInfo, ResolutionError,
};

verus! {

/// What one entry needs for its update call: the rendered URL and the
/// Authorization header value, if credentials are configured — or the
/// failure that already befell the entry at rendering.
#[derive(Clone, Debug)]
pub enum EntryPlan {
    Ready { url: String, authorization: Option<String>, entry_url: String },
    Failed { entry_url: String, message: String },
}

/// The Authorization value an entry's credentials call for: present with
/// the Basic header value exactly when a username is configured; a missing
/// password stands in as the empty string.
pub open spec fn spec_entry_auth(entry: DdnsEntry, authorization: Option<String>) -> bool {
    match entry.username {
        Some(u) => authorization matches Some(a) && a@ == spec_basic_auth(
            u@,
            match entry.password {
                Some(p) => p@,
                None => Seq::empty(),
            },
        ),
        None => authorization is None,
    }
}

/// How a plan relates to its entry under a resolved address map.
pub open spec fn spec_plan_matches(
    entry: DdnsEntry,
    m: Map<Seq<char>, Seq<char>>,
    p: EntryPlan,
) -> bool {
    match p {
        EntryPlan::Ready { url, authorization, entry_url } => {
            &&& entry_url@ == entry.url@
            &&& (spec_render(entry.url@, m) matches Ok(u) && url@ == u)
            &&& spec_entry_auth(entry, authorization)
        },
        EntryPlan::Failed { entry_url, message } => {
            &&& entry_url@ == entry.url@
            &&& (spec_render(entry.url@, m) matches Err(ph) && message@
                == spec_render_error_message(ph))
        },
    }
}

/// Renders one entry's URL template and prepares its credentials.
pub fn plan_entry(entry: &DdnsEntry, addresses: &AddressMap) -> (r: EntryPlan)
    ensures
        spec_plan_matches(*entry, addresses@, r),
{
    match render(entry.url.as_str(), addresses) {
        Ok(url) => {
            let authorization = match &entry.username {
                Some(u) => Some(
                    match &entry.password {
                        Some(p) => basic_auth_header_value(u.as_str(), p.as_str()),
                        None => {
                            proof {
                                reveal_strlit("");
                                assert(""@ =~= Seq::<char>::empty());
                            }
                            basic_auth_header_value(u.as_str(), "")
                        },
                    },
                ),
                None => None,
            };
            EntryPlan::Ready { url, authorization, entry_url: entry.url.clone() }
        },
        Err(e) => EntryPlan::Failed { entry_url: entry.url.clone(), message: e.message() },
    }
}

/// Plans every configured entry against the resolved addresses. Entries
/// are independent: each one's plan depends only on that entry and the
/// address map.
pub fn plan_entries(entries: &Vec<DdnsEntry>, addresses: &AddressMap) -> (r: Vec<EntryPlan>)
    ensures
        r@.len() == entries@.len(),
        forall|i: int|
            0 <= i < entries@.len() ==> spec_plan_matches(entries@[i], addresses@, #[trigger] r@[i]),
{
    let mut out: Vec<EntryPlan> = Vec::new();
    let mut i: usize = 0;
    while i < entries.len()
        invariant
            i <= entries@.len(),
            out@.len() == i,
            forall|j: int|
                0 <= j < i ==> spec_plan_matches(entries@[j], addresses@, #[trigger] out@[j]),
        decreases entries@.len() - i,
    {
        let p = plan_entry(&entries[i], addresses);
        out.push(p);
        i = i + 1;
    }
    out
}

/// How an outcome relates to an entry's plan and the answer to its call.
/// A plan that already failed keeps its failure, whatever answer is
/// passed along with it; a ready plan succeeds exactly on a 2xx status.
pub open spec fn spec_outcome_matches(
    p: EntryPlan,
    status: Option<u16>,
    transport_error: Seq<char>,
    o: UpdateOutcome,
) -> bool {
    match p {
        EntryPlan::Ready { url, authorization, entry_url } => match status {
            Some(s) => if 200 <= s && s < 300 {
                o matches UpdateOutcome::Succeeded { url: u, status: st } && u@ == url@ && st == s
            } else {
                o matches UpdateOutcome::Failed { url: u, message: m } && u@ == entry_url@ && m@
                    == spec_status_message(s as int)
            },
            None => o matches UpdateOutcome::Failed { url: u, message: m } && u@ == entry_url@
                && m@ == transport_error,
        },
        EntryPlan::Failed { entry_url, message } => o matches UpdateOutcome::Failed {
            url: u,
            message: m,
        } && u@ == entry_url@ && m@ == message@,
    }
}

/// Turns the answer to one entry's update call into that entry's outcome.
/// `status` is the HTTP status the call was answered with, or `None` for
/// a transport failure described by `transport_error`.
pub fn entry_outcome(plan: &EntryPlan, status: Option<u16>, transport_error: String) -> (r:
    UpdateOutcome)
    ensures
        spec_outcome_matches(*plan, status, transport_error@, r),
{
    match plan {
        EntryPlan::Ready { url, authorization: _, entry_url } => match status {
            Some(s) => {
                if 200 <= s && s < 300 {
                    UpdateOutcome::Succeeded { url: url.clone(), status: s }
                } else {
                    let mut message = String::from_str("unexpected HTTP status ");
                    let digits = u16_to_string(s);
                    message.append(digits.as_str());
                    UpdateOutcome::Failed { url: entry_url.clone(), message }
                }
            },
            None => UpdateOutcome::Failed { url: entry_url.clone(), message: transport_error },
        },
        EntryPlan::Failed { entry_url, message } => UpdateOutcome::Failed {
            url: entry_url.clone(),
            message: message.clone(),
        },
    }
}

/// Law: an entry whose URL template does not render has no rendered URL —
/// its plan is already failed, so no request is ever issued from a partial
/// URL — and its outcome, whatever answer is passed along with it, is the
/// failure naming the unresolved placeholder, labeled by the entry.
pub proof fn lemma_unrendered_entry_fails_alone(
    entry: DdnsEntry,
    m: Map<Seq<char>, Seq<char>>,
    p: EntryPlan,
    status: Option<u16>,
    transport_error: Seq<char>,
    o: UpdateOutcome,
)
    requires
        spec_render(entry.url@, m) is Err,
        spec_plan_matches(entry, m, p),
        spec_outcome_matches(p, status, transport_error, o),
    ensures
        p is Failed,
        o is Failed,
        spec_failure_line(o) == entry.url@ + ": "@ + spec_render_error_message(
            spec_render(entry.url@, m)->Err_0,
        ),
{
}

/// The line that reports one failed outcome, labeled by the entry it is
/// about.
pub open spec fn spec_failure_line(o: UpdateOutcome) -> Seq<char> {
    match o {
        UpdateOutcome::Failed { url, message } => url@ + ": "@ + message@,
        UpdateOutcome::Succeeded { .. } => Seq::empty(),
    }
}

/// The report lines of all failed outcomes, in entry order.
pub open spec fn spec_failure_lines(s: Seq<UpdateOutcome>) -> Seq<Seq<char>>
    decreases s.len(),
{
    if s.len() == 0 {
        Seq::empty()
    } else {
        spec_failure_lines(s.drop_last()) + (if s.last() is Failed {
            seq![spec_failure_line(s.last())]
        } else {
            Seq::empty()
        })
    }
}

/// Lines joined by single newlines.
pub open spec fn spec_join_lines(lines: Seq<Seq<char>>) -> Seq<char>
    decreases lines.len(),
{
    if lines.len() == 0 {
        Seq::empty()
    } else if lines.len() == 1 {
        lines[0]
    } else {
        spec_join_lines(lines.drop_last()) + seq!['\n'] + lines.last()
    }
}

/// No failure line exists exactly when no outcome failed.
proof fn lemma_failure_lines_empty(s: Seq<UpdateOutcome>)
    ensures
        spec_failure_lines(s).len() == 0 <==> (forall|i: int|
            0 <= i < s.len() ==> !(#[trigger] s[i] is Failed)),
    decreases s.len(),
{
    if s.len() > 0 {
        lemma_failure_lines_empty(s.drop_last());
        assert(forall|i: int| 0 <= i < s.len() - 1 ==> s.drop_last()[i] == s[i]);
        assert(s.last() == s[s.len() - 1]);
    }
}

/// Folds all outcomes of one cycle: success exactly when every entry
/// succeeded; otherwise the newline-joined report of every failing entry.
pub fn collect_outcomes(outcomes: &Vec<UpdateOutcome>) -> (r: Result<(), String>)
    ensures
        r is Ok <==> spec_failure_lines(outcomes@).len() == 0,
        r is Ok <==> (forall|i: int|
            0 <= i < outcomes@.len() ==> !(#[trigger] outcomes@[i] is Failed)),
        r matches Err(e) ==> e@ == spec_join_lines(spec_failure_lines(outcomes@)),
{
    let ghost s = outcomes@;
    let mut text = String::new();
    let mut any = false;
    let mut i: usize = 0;
    proof {
        assert(s.take(0) =~= Seq::<UpdateOutcome>::empty());
    }
    while i < outcomes.len()
        invariant
            s == outcomes@,
            i <= s.len(),
            any <==> spec_failure_lines(s.take(i as int)).len() > 0,
            text@ == spec_join_lines(spec_failure_lines(s.take(i as int))),
        decreases s.len() - i,
    {
        proof {
            assert(s.take(i + 1).drop_last() =~= s.take(i as int));
            assert(s.take(i + 1).last() == s[i as int]);
        }
        let ghost lines_old = spec_failure_lines(s.take(i as int));
        match &outcomes[i] {
            UpdateOutcome::Failed { url, message } => {
                let ghost line = spec_failure_line(s[i as int]);
                let ghost text_old = text@;
                if any {
                    text.append("\n");
                }
                text.append(url.as_str());
                text.append(": ");
                text.append(message.as_str());
                proof {
                    let lines_new = spec_failure_lines(s.take(i + 1));
                    assert(lines_new =~= lines_old + seq![line]);
                    assert(lines_new.drop_last() =~= lines_old);
                    if lines_old.len() == 0 {
                        assert(text@ =~= line);
                    } else {
                        reveal_strlit("\n");
                        assert("\n"@ =~= seq!['\n']);
                        assert(text@ =~= spec_join_lines(lines_old) + seq!['\n'] + line);
                    }
                }
                any = true;
            },
            UpdateOutcome::Succeeded { .. } => {
                proof {
                    assert(spec_failure_lines(s.take(i + 1)) =~= lines_old);
                }
            },
        }
        i = i + 1;
    }
    proof {
        assert(s.take(s.len() as int) =~= s);
        lemma_failure_lines_empty(s);
    }
    if any {
        Err(text)
    } else {
        Ok(())
    }
}

/// Text occurs somewhere inside other text.
pub open spec fn spec_contains_text(hay: Seq<char>, needle: Seq<char>) -> bool {
    exists|j: int|
        0 <= j && j + needle.len() <= hay.len() && #[trigger] hay.subrange(j, j + needle.len())
            == needle
}

proof fn lemma_line_in_failure_lines(s: Seq<UpdateOutcome>, i: int)
    requires
        0 <= i < s.len(),
        s[i] is Failed,
    ensures
        exists|k: int|
            0 <= k < spec_failure_lines(s).len() && spec_failure_lines(s)[k]
                == spec_failure_line(s[i]),
    decreases s.len(),
{
    if i == s.len() - 1 {
        let k = spec_failure_lines(s.drop_last()).len() as int;
        assert(s.last() == s[i]);
        assert(spec_failure_lines(s)[k] == spec_failure_line(s[i]));
    } else {
        assert(s.drop_last()[i] == s[i]);
        lemma_line_in_failure_lines(s.drop_last(), i);
        let k = choose|k: int|
            0 <= k < spec_failure_lines(s.drop_last()).len() && spec_failure_lines(
                s.drop_last(),
            )[k] == spec_failure_line(s.drop_last()[i]);
        assert(spec_failure_lines(s)[k] == spec_failure_line(s[i]));
    }
}

proof fn lemma_join_contains(lines: Seq<Seq<char>>, k: int)
    requires
        0 <= k < lines.len(),
    ensures
        spec_contains_text(spec_join_lines(lines), lines[k]),
    decreases lines.len(),
{
    let joined = spec_join_lines(lines);
    if lines.len() == 1 {
        let w: int = 0;
        assert(joined.subrange(w, w + lines[k].len()) =~= lines[k]);
        assert(spec_contains_text(joined, lines[k]));
    } else if k == lines.len() - 1 {
        let a = spec_join_lines(lines.drop_last());
        let w: int = a.len() as int + 1;
        assert(joined.subrange(w, w + lines[k].len()) =~= lines[k]);
        assert(spec_contains_text(joined, lines[k]));
    } else {
        assert(lines.drop_last()[k] == lines[k]);
        lemma_join_contains(lines.drop_last(), k);
        let a = spec_join_lines(lines.drop_last());
        let w = choose|j: int|
            0 <= j && j + lines[k].len() <= a.len() && #[trigger] a.subrange(
                j,
                j + lines[k].len(),
            ) == lines[k];
        assert(joined.subrange(w, w + lines[k].len()) =~= a.subrange(w, w + lines[k].len()));
        assert(spec_contains_text(joined, lines[k]));
    }
}

/// Law: when an entry's outcome failed, the cycle's joined failure text
/// mentions that entry's failure line — every failing entry is reported,
/// not only the first.
pub proof fn lemma_cycle_failure_text_mentions_all(outcomes: Seq<UpdateOutcome>, i: int)
    requires
        0 <= i < outcomes.len(),
        outcomes[i] is Failed,
    ensures
        spec_failure_lines(outcomes).len() > 0,
        spec_contains_text(
            spec_join_lines(spec_failure_lines(outcomes)),
            spec_failure_line(outcomes[i]),
        ),
{
    lemma_line_in_failure_lines(outcomes, i);
    let k = choose|k: int|
        0 <= k < spec_failure_lines(outcomes).len() && spec_failure_lines(outcomes)[k]
            == spec_failure_line(outcomes[i]);
    lemma_join_contains(spec_failure_lines(outcomes), k);
}

/// The error texts among many independent trigger results, in order.
pub open spec fn spec_error_texts(s: Seq<Result<(), String>>) -> Seq<Seq<char>>
    decreases s.len(),
{
    if s.len() == 0 {
        Seq::empty()
    } else {
        spec_error_texts(s.drop_last()) + (match s.last() {
            Result::Err(e) => seq![e@],
            Result::Ok(_) => Seq::empty(),
        })
    }
}

/// No error text exists exactly when no result failed.
proof fn lemma_error_texts_empty(s: Seq<Result<(), String>>)
    ensures
        spec_error_texts(s).len() == 0 <==> (forall|i: int|
            0 <= i < s.len() ==> !(#[trigger] s[i] is Err)),
    decreases s.len(),
{
    if s.len() > 0 {
        lemma_error_texts_empty(s.drop_last());
        assert(forall|i: int| 0 <= i < s.len() - 1 ==> s.drop_last()[i] == s[i]);
        assert(s.last() == s[s.len() - 1]);
    }
}

/// Combines the results of many independent trigger runs into the process
/// result: success exactly when every run succeeded; otherwise every
/// error text, newline-joined in input order, as one combined error. An
/// empty error text still counts as a failure.
pub fn combine_errors(results: Vec<Result<(), String>>) -> (r: Result<(), String>)
    ensures
        r is Ok <==> (forall|i: int| 0 <= i < results@.len() ==> !(#[trigger] results@[i] is Err)),
        r matches Err(e) ==> e@ == spec_join_lines(spec_error_texts(results@)),
{
    let ghost s = results@;
    let mut text = String::new();
    let mut any = false;
    let mut i: usize = 0;
    proof {
        assert(s.take(0) =~= Seq::<Result<(), String>>::empty());
    }
    while i < results.len()
        invariant
            s == results@,
            i <= s.len(),
            any <==> spec_error_texts(s.take(i as int)).len() > 0,
            text@ == spec_join_lines(spec_error_texts(s.take(i as int))),
        decreases s.len() - i,
    {
        proof {
            assert(s.take(i + 1).drop_last() =~= s.take(i as int));
            assert(s.take(i + 1).last() == s[i as int]);
        }
        let ghost texts_old = spec_error_texts(s.take(i as int));
        match &results[i] {
            Result::Err(e) => {
                let ghost text_old = text@;
                if any {
                    text.append("\n");
                }
                text.append(e.as_str());
                proof {
                    let texts_new = spec_error_texts(s.take(i + 1));
                    assert(texts_new =~= texts_old + seq![e@]);
                    assert(texts_new.drop_last() =~= texts_old);
                    if texts_old.len() == 0 {
                        assert(text@ =~= e@);
                    } else {
                        reveal_strlit("\n");
                        assert("\n"@ =~= seq!['\n']);
                        assert(text@ =~= spec_join_lines(texts_old) + seq!['\n'] + e@);
                    }
                }
                any = true;
            },
            Result::Ok(_) => {
                proof {
                    assert(spec_error_texts(s.take(i + 1)) =~= texts_old);
                }
            },
        }
        i = i + 1;
    }
    proof {
        assert(s.take(s.len() as int) =~= s);
        lemma_error_texts_empty(s);
    }
    if any {
        Err(text)
    } else {
        Ok(())
    }
}

/// Resolves all addresses once against the given interface snapshot and
/// plans every entry: the first half of one update cycle, before any
/// network call leaves the process.
pub fn cycle_plan_with_interfaces(
    config: &Config,
    supplied: &AddressMap,
    ifaces: &Vec<NetworkInterfaceInfo>,
) -> (r: Result<Vec<EntryPlan>, ResolutionError>)
    ensures
        spec_cycle_plan_matches(*config, supplied@, ifaces@, r),
{
    match resolve_with_interfaces(&config.ip_addresses, supplied, ifaces) {
        Ok(addresses) => Ok(plan_entries(&config.ddns_entries, &addresses)),
        Err(e) => Err(e),
    }
}

/// How a cycle plan relates to the configuration, the supplied addresses
/// and the interface snapshot: a resolution failure fails the whole cycle
/// before any entry is attempted; otherwise every entry is planned against
/// the one resolved map.
pub open spec fn spec_cycle_plan_matches(
    config: Config,
    supplied: Map<Seq<char>, Seq<char>>,
    ifaces: Seq<NetworkInterfaceInfo>,
    r: Result<Vec<EntryPlan>, ResolutionError>,
) -> bool {
    match r {
        Ok(plans) => {
            &&& spec_resolve(config.ip_addresses@, supplied, ifaces) matches Ok(m)
                && plans@.len() == config.ddns_entries@.len() && (forall|i: int|
                0 <= i < plans@.len() ==> spec_plan_matches(
                    config.ddns_entries@[i],
                    m,
                    #[trigger] plans@[i],
                ))
        },
        Err(e) => {
            &&& spec_resolve(config.ip_addresses@, supplied, ifaces) matches Err(se)
                && e.kind() == se.0 && e.subject() == se.1
        },
    }
}

/// As `cycle_plan_with_interfaces`, against a snapshot of the host's
/// interfaces taken now.
pub fn cycle_plan(config: &Config, supplied: &AddressMap) -> (r: Result<
    Vec<EntryPlan>,
    ResolutionError,
>)
    ensures
        exists|ifs: Seq<NetworkInterfaceInfo>|
            spec_cycle_plan_matches(*config, supplied@, ifs, r),
{
    let ifaces = host_interfaces();
    let r = cycle_plan_with_interfaces(config, supplied, &ifaces);
    proof {
        assert(spec_cycle_plan_matches(*config, supplied@, ifaces@, r));
    }
    r
}

/// Law: a cycle over a configuration with no address sources and no
/// entries trivially succeeds — resolution returns the empty map under
/// any snapshot, and the empty outcome list folds to success.
pub proof fn lemma_empty_cycle_succeeds(
    supplied: Map<Seq<char>, Seq<char>>,
    ifaces: Seq<NetworkInterfaceInfo>,
)
    ensures
        spec_resolve(Seq::empty(), supplied, ifaces) == Ok::<
            Map<Seq<char>, Seq<char>>,
            (crate::resolver::ResolutionErrorKind, Seq<char>),
        >(Map::empty()),
        spec_failure_lines(Seq::empty()).len() == 0,
        spec_join_lines(spec_failure_lines(Seq::empty())).len() == 0,
{
}

} // verus!
