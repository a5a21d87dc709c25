//! Reconciliation of one zone: which records go, and whether one is added.
//!
//! Every function here works on values that the caller has already fetched
//! and answers with the calls that the caller is to make. Two policies remove
//! records. The unique policy removes every record whose content differs from
//! the current address. The stale policy removes every record whose address
//! did not answer a reachability probe, whatever its content.

use crate::cloudflare::{
    create_record_call, delete_record_call, ApiCall, ApiCallView, DnsRecord, DnsRecordView, Zone,
    ZoneView,
};
use crate::json::{record_body, record_json, EncodeError};
use crate::seqs::{lemma_filter_ignores, lemma_filter_keeps_exactly, lemma_filter_next, views};
use vstd::prelude::*;
use vstd::string::StringExecFns;

verus! {

/// Holds of a zone whose name is one of `names`.
pub open spec fn is_of_interest(names: Seq<Seq<char>>) -> spec_fn(ZoneView) -> bool {
    |zone: ZoneView| names.contains(zone.name)
}

/// Holds of a record whose name is `name`.
pub open spec fn is_named(name: Seq<char>) -> spec_fn(DnsRecordView) -> bool {
    |record: DnsRecordView| record.name == name
}

/// Holds of a record whose content is not `ip`.
pub open spec fn points_elsewhere(ip: Seq<char>) -> spec_fn(DnsRecordView) -> bool {
    |record: DnsRecordView| record.content != ip
}

/// One deletion call for each record of `doomed`, in the same order.
pub open spec fn deletions(zone_id: Seq<char>, doomed: Seq<DnsRecordView>) -> Seq<ApiCallView> {
    doomed.map_values(|record: DnsRecordView| delete_record_call(zone_id, record.id.unwrap()))
}

/// The "A" record that maps `name` to `ip`, not yet known to the API.
pub open spec fn a_record(name: Seq<char>, ip: Seq<char>) -> DnsRecordView {
    DnsRecordView { name, content: ip, id: None, type_: "A"@ }
}

/// Some record of `records` maps `name` to `ip`.
pub open spec fn has_record(records: Seq<DnsRecordView>, name: Seq<char>, ip: Seq<char>) -> bool {
    exists|i: int|
        0 <= i < records.len() && (#[trigger] records[i]).name == name && records[i].content == ip
}

fn contains_name(names: &Vec<String>, name: &String) -> (found: bool)
    ensures
        found == views(names@).contains(name@),
{
    let mut i: usize = 0;
    while i < names.len()
        invariant
            i <= names.len(),
            forall|j: int| 0 <= j < i ==> views(names@)[j] != name@,
        decreases names.len() - i,
    {
        if names[i] == *name {
            assert(views(names@)[i as int] == name@);
            return true;
        }
        i += 1;
    }
    false
}

/// The zones whose name is one of `names`, in the order of `zones`.
///
/// No other zone is ever handed on, so none is fetched or changed.
pub fn zones_of_interest(zones: &Vec<Zone>, names: &Vec<String>) -> (chosen: Vec<Zone>)
    ensures
        views(chosen@) == views(zones@).filter(is_of_interest(views(names@))),
{
    let ghost all = views(zones@);
    let ghost keep = is_of_interest(views(names@));
    let mut chosen: Vec<Zone> = Vec::new();
    let mut i: usize = 0;
    proof {
        reveal(Seq::filter);
        assert(all.take(0).filter(keep) =~= views(chosen@));
    }
    while i < zones.len()
        invariant
            i <= zones.len(),
            all == views(zones@),
            keep == is_of_interest(views(names@)),
            views(chosen@) == all.take(i as int).filter(keep),
        decreases zones.len() - i,
    {
        let zone = &zones[i];
        let ghost before = views(chosen@);
        proof {
            lemma_filter_next(all, keep, i as int);
        }
        if contains_name(names, &zone.name) {
            chosen.push(zone.clone());
            assert(views(chosen@) =~= before.push(all[i as int]));
        }
        i += 1;
    }
    assert(all.take(i as int) =~= all);
    chosen
}

/// The records of a listing that belong to `zone`: those that carry its name,
/// in the order of the listing. A listing that could not be fetched counts as
/// empty.
pub fn dns_records_type_a(fetched: Option<Vec<DnsRecord>>, zone: &Zone) -> (kept: Vec<DnsRecord>)
    ensures
        views(kept@) == match fetched {
            Some(listing) => views(listing@).filter(is_named(zone@.name)),
            None => Seq::empty(),
        },
{
    let mut kept: Vec<DnsRecord> = Vec::new();
    let listing = match fetched {
        Some(listing) => listing,
        None => {
            assert(views(kept@) =~= Seq::empty());
            return kept;
        },
    };
    let ghost all = views(listing@);
    let ghost keep = is_named(zone@.name);
    let mut i: usize = 0;
    proof {
        reveal(Seq::filter);
        assert(all.take(0).filter(keep) =~= views(kept@));
    }
    while i < listing.len()
        invariant
            i <= listing.len(),
            all == views(listing@),
            keep == is_named(zone@.name),
            views(kept@) == all.take(i as int).filter(keep),
        decreases listing.len() - i,
    {
        let record = &listing[i];
        let ghost before = views(kept@);
        proof {
            lemma_filter_next(all, keep, i as int);
        }
        if record.name == zone.name {
            kept.push(record.clone());
            assert(views(kept@) =~= before.push(all[i as int]));
        }
        i += 1;
    }
    assert(all.take(i as int) =~= all);
    kept
}

/// The records that the unique policy removes: those whose content is not
/// `ip`, in the order of `dns_records`.
pub fn other_records(ip: &str, dns_records: &Vec<DnsRecord>) -> (doomed: Vec<DnsRecord>)
    ensures
        views(doomed@) == views(dns_records@).filter(points_elsewhere(ip@)),
{
    let ghost all = views(dns_records@);
    let ghost keep = points_elsewhere(ip@);
    let address = ip.to_owned();
    let mut doomed: Vec<DnsRecord> = Vec::new();
    let mut i: usize = 0;
    proof {
        reveal(Seq::filter);
        assert(all.take(0).filter(keep) =~= views(doomed@));
    }
    while i < dns_records.len()
        invariant
            i <= dns_records.len(),
            all == views(dns_records@),
            keep == points_elsewhere(ip@),
            address@ == ip@,
            views(doomed@) == all.take(i as int).filter(keep),
        decreases dns_records.len() - i,
    {
        let record = &dns_records[i];
        let ghost before = views(doomed@);
        proof {
            lemma_filter_next(all, keep, i as int);
        }
        if record.content != address {
            doomed.push(record.clone());
            assert(views(doomed@) =~= before.push(all[i as int]));
        }
        i += 1;
    }
    assert(all.take(i as int) =~= all);
    doomed
}

/// A record together with the outcome of the reachability probe of its address.
#[derive(Debug, PartialEq, Eq)]
pub struct ProbedRecord {
    pub record: DnsRecord,
    pub reachable: bool,
}

/// The mathematical content of a [`ProbedRecord`].
pub struct ProbedRecordView {
    pub record: DnsRecordView,
    pub reachable: bool,
}

impl View for ProbedRecord {
    type V = ProbedRecordView;

    open spec fn view(&self) -> ProbedRecordView {
        ProbedRecordView { record: self.record@, reachable: self.reachable }
    }
}

/// Holds of a record whose address did not answer.
pub open spec fn is_unreachable() -> spec_fn(ProbedRecordView) -> bool {
    |probed: ProbedRecordView| !probed.reachable
}

/// The records among `probed` whose address did not answer, in order.
pub open spec fn unreachable_records(probed: Seq<ProbedRecordView>) -> Seq<DnsRecordView> {
    probed.filter(is_unreachable()).map_values(|probed: ProbedRecordView| probed.record)
}

/// The records that the stale policy removes: those whose address did not
/// answer the probe, in the order of `probed`. The content of a record plays
/// no part.
pub fn dead_records(probed: &Vec<ProbedRecord>) -> (doomed: Vec<DnsRecord>)
    ensures
        views(doomed@) == unreachable_records(views(probed@)),
{
    let ghost all = views(probed@);
    let ghost keep = is_unreachable();
    let mut doomed: Vec<DnsRecord> = Vec::new();
    let mut i: usize = 0;
    proof {
        reveal(Seq::filter);
        assert(unreachable_records(all.take(0)) =~= views(doomed@));
    }
    while i < probed.len()
        invariant
            i <= probed.len(),
            all == views(probed@),
            keep == is_unreachable(),
            views(doomed@) == unreachable_records(all.take(i as int)),
        decreases probed.len() - i,
    {
        let ghost before = views(doomed@);
        proof {
            lemma_filter_next(all, keep, i as int);
        }
        if !probed[i].reachable {
            doomed.push(probed[i].record.clone());
            assert(views(doomed@) =~= before.push(all[i as int].record));
            assert(unreachable_records(all.take(i + 1)) =~= before.push(all[i as int].record));
        }
        i += 1;
    }
    assert(all.take(i as int) =~= all);
    doomed
}

/// A record that is to be deleted carries no id, so no call can name it.
#[derive(Debug, Clone, Copy, PartialEq, Eq)]
pub struct MissingId {}

/// Some record of `records` carries no id.
pub open spec fn lacks_id(records: Seq<DnsRecordView>) -> bool {
    exists|i: int| 0 <= i < records.len() && (#[trigger] records[i]).id is None
}

/// One deletion call for each record of `doomed`, in order; an error exactly
/// when one of them carries no id.
pub fn delete_calls(zone: &Zone, doomed: &Vec<DnsRecord>) -> (planned: Result<
    Vec<ApiCall>,
    MissingId,
>)
    ensures
        match planned {
            Ok(calls) => !lacks_id(views(doomed@)) && views(calls@) == deletions(
                zone@.id,
                views(doomed@),
            ),
            Err(_) => lacks_id(views(doomed@)),
        },
{
    let ghost all = views(doomed@);
    let mut calls: Vec<ApiCall> = Vec::new();
    let mut i: usize = 0;
    assert(views(calls@) =~= deletions(zone@.id, all.take(0)));
    while i < doomed.len()
        invariant
            i <= doomed.len(),
            all == views(doomed@),
            forall|j: int| 0 <= j < i ==> (#[trigger] all[j]).id is Some,
            views(calls@) == deletions(zone@.id, all.take(i as int)),
        decreases doomed.len() - i,
    {
        let ghost before = views(calls@);
        match &doomed[i].id {
            Some(id) => {
                calls.push(ApiCall::delete_record(zone, id.as_str()));
                assert(views(calls@) =~= before.push(
                    delete_record_call(zone@.id, all[i as int].id.unwrap()),
                ));
                assert(deletions(zone@.id, all.take(i + 1)) =~= before.push(
                    delete_record_call(zone@.id, all[i as int].id.unwrap()),
                ));
            },
            None => {
                assert(all[i as int].id is None);
                return Err(MissingId {});
            },
        }
        i += 1;
    }
    assert(all.take(i as int) =~= all);
    Ok(calls)
}

/// The deletions of the unique policy: one call for each record whose content
/// is not `ip`. The records whose content is `ip` are not touched.
pub fn clear_other_records(zone: &Zone, ip: &str, dns_records: &Vec<DnsRecord>) -> (planned:
    Result<Vec<ApiCall>, MissingId>)
    ensures
        match planned {
            Ok(calls) => {
                let doomed = views(dns_records@).filter(points_elsewhere(ip@));
                !lacks_id(doomed) && views(calls@) == deletions(zone@.id, doomed)
            },
            Err(_) => lacks_id(views(dns_records@).filter(points_elsewhere(ip@))),
        },
{
    let doomed = other_records(ip, dns_records);
    delete_calls(zone, &doomed)
}

/// The deletions of the stale policy: one call for each record whose address
/// did not answer the probe. The records whose address answered are not
/// touched, whatever their content.
pub fn clear_dead_records(zone: &Zone, probed: &Vec<ProbedRecord>) -> (planned: Result<
    Vec<ApiCall>,
    MissingId,
>)
    ensures
        match planned {
            Ok(calls) => {
                let doomed = unreachable_records(views(probed@));
                !lacks_id(doomed) && views(calls@) == deletions(zone@.id, doomed)
            },
            Err(_) => lacks_id(unreachable_records(views(probed@))),
        },
{
    let doomed = dead_records(probed);
    delete_calls(zone, &doomed)
}

/// The record that has to be created for `ip`, if any: none where some record
/// of `records` already maps `name` to `ip`.
pub open spec fn record_to_add(
    name: Seq<char>,
    ip: Seq<char>,
    records: Seq<DnsRecordView>,
) -> Option<DnsRecordView> {
    if has_record(records, name, ip) {
        None
    } else {
        Some(a_record(name, ip))
    }
}

/// The "A" record that maps the zone's name to `ip`, as it is handed to the API
/// for creation: without an id.
pub fn new_record(zone: &Zone, ip: &str) -> (record: DnsRecord)
    ensures
        record@ == a_record(zone@.name, ip@),
{
    DnsRecord {
        name: zone.name.clone(),
        content: ip.to_owned(),
        id: None,
        type_: String::from_str("A"),
    }
}

/// The record that is missing from `dns_records`: the "A" record that maps the
/// zone's name to `ip`, unless some record already does.
pub fn missing_record(zone: &Zone, ip: &str, dns_records: &Vec<DnsRecord>) -> (missing: Option<
    DnsRecord,
>)
    ensures
        match missing {
            Some(record) => Some(record@),
            None => None,
        } == record_to_add(zone@.name, ip@, views(dns_records@)),
{
    let address = ip.to_owned();
    let mut i: usize = 0;
    while i < dns_records.len()
        invariant
            i <= dns_records.len(),
            address@ == ip@,
            forall|j: int|
                0 <= j < i ==> !((#[trigger] views(dns_records@)[j]).name == zone@.name && views(
                    dns_records@,
                )[j].content == ip@),
        decreases dns_records.len() - i,
    {
        let record = &dns_records[i];
        if record.name == zone.name && record.content == address {
            assert(views(dns_records@)[i as int].name == zone@.name);
            return None;
        }
        i += 1;
    }
    Some(new_record(zone, ip))
}

/// The creation that a zone with `records` needs: the call that posts the
/// missing record, or none where nothing is missing.
pub open spec fn addition(
    zone: ZoneView,
    ip: Seq<char>,
    records: Seq<DnsRecordView>,
) -> Option<ApiCallView> {
    match record_to_add(zone.name, ip, records) {
        Some(record) => Some(create_record_call(zone.id, record_json(record))),
        None => None,
    }
}

/// The creation that follows the deletions: a call that posts the "A" record
/// for `ip` to the zone, or nothing where `dns_records` already holds a record
/// with the zone's name and `ip` as its content.
///
/// The plan always comes back: the body of the call can be encoded for every
/// record.
pub fn add_record(zone: &Zone, ip: &str, dns_records: &Vec<DnsRecord>) -> (planned: Result<
    Option<ApiCall>,
    EncodeError,
>)
    ensures
        planned is Ok,
        match planned.unwrap() {
            Some(call) => Some(call@),
            None => None,
        } == addition(zone@, ip@, views(dns_records@)),
{
    match missing_record(zone, ip, dns_records) {
        Some(record) => match record_body(&record) {
            Ok(body) => Ok(Some(ApiCall::create_record(zone, body))),
            Err(error) => Err(error),
        },
        None => Ok(None),
    }
}

/// How the records of a zone are pruned before the creation step.
#[derive(Debug, Clone, Copy, PartialEq, Eq, Structural)]
pub enum Pruning {
    /// The zone has no record: there is nothing to prune.
    Nothing,
    /// Remove every record whose content is not the current address.
    Others,
    /// Probe every record's address and remove those that do not answer.
    Dead,
}

/// The pruning that applies to a zone with the records `dns_records`: none for
/// an empty zone, else the unique policy where `unique` is set and the stale
/// policy where it is not.
pub fn pruning(unique: bool, dns_records: &Vec<DnsRecord>) -> (policy: Pruning)
    ensures
        policy == if dns_records@.len() == 0 {
            Pruning::Nothing
        } else if unique {
            Pruning::Others
        } else {
            Pruning::Dead
        },
{
    if dns_records.len() == 0 {
        Pruning::Nothing
    } else if unique {
        Pruning::Others
    } else {
        Pruning::Dead
    }
}

/// A zone is handed on exactly when the account lists it and its name is one of
/// the configured names. A zone that is not configured is never handed on,
/// whatever the account lists.
pub proof fn lemma_only_zones_of_interest(
    zones: Seq<ZoneView>,
    names: Seq<Seq<char>>,
    zone: ZoneView,
)
    ensures
        zones.filter(is_of_interest(names)).contains(zone) <==> zones.contains(zone)
            && names.contains(zone.name),
{
    lemma_filter_keeps_exactly(zones, is_of_interest(names), zone);
}

/// A record of a listing is considered for a zone exactly when it carries the
/// zone's name.
pub proof fn lemma_only_records_of_zone(
    listing: Seq<DnsRecordView>,
    name: Seq<char>,
    record: DnsRecordView,
)
    ensures
        listing.filter(is_named(name)).contains(record) <==> listing.contains(record)
            && record.name == name,
{
    lemma_filter_keeps_exactly(listing, is_named(name), record);
}

/// A record under another name takes no part: wherever it stands in a listing,
/// the records that are considered for the zone are the same as without it. So
/// it is neither deleted nor taken for the record that is to be created.
pub proof fn lemma_foreign_record_takes_no_part(
    listing: Seq<DnsRecordView>,
    name: Seq<char>,
    at: int,
    foreign: DnsRecordView,
)
    requires
        0 <= at <= listing.len(),
        foreign.name != name,
    ensures
        listing.insert(at, foreign).filter(is_named(name)) == listing.filter(is_named(name)),
{
    lemma_filter_ignores(listing, is_named(name), at, foreign);
}

/// The unique policy removes a record exactly when its content is not the
/// current address: every other record goes, and every record for the address
/// stays.
pub proof fn lemma_unique_policy_removes_the_others(
    records: Seq<DnsRecordView>,
    ip: Seq<char>,
    record: DnsRecordView,
)
    ensures
        records.filter(points_elsewhere(ip)).contains(record) <==> records.contains(record)
            && record.content != ip,
{
    lemma_filter_keeps_exactly(records, points_elsewhere(ip), record);
}

/// The stale policy removes a record exactly when its address did not answer
/// the probe. Neither the content of the record nor the current address plays
/// a part.
pub proof fn lemma_stale_policy_follows_the_probe(
    probed: Seq<ProbedRecordView>,
    record: DnsRecordView,
)
    ensures
        unreachable_records(probed).contains(record) <==> exists|i: int|
            0 <= i < probed.len() && (#[trigger] probed[i]).record == record
                && !probed[i].reachable,
{
    let dead = probed.filter(is_unreachable());
    if unreachable_records(probed).contains(record) {
        let k = choose|k: int|
            0 <= k < unreachable_records(probed).len() && unreachable_records(probed)[k] == record;
        assert(dead[k].record == record);
        assert(dead.contains(dead[k]));
        lemma_filter_keeps_exactly(probed, is_unreachable(), dead[k]);
        let i = choose|i: int| 0 <= i < probed.len() && probed[i] == dead[k];
        assert(probed[i].record == record && !probed[i].reachable);
    }
    if exists|i: int|
        0 <= i < probed.len() && (#[trigger] probed[i]).record == record && !probed[i].reachable {
        let i = choose|i: int|
            0 <= i < probed.len() && (#[trigger] probed[i]).record == record
                && !probed[i].reachable;
        assert(probed.contains(probed[i]));
        lemma_filter_keeps_exactly(probed, is_unreachable(), probed[i]);
        let k = choose|k: int| 0 <= k < dead.len() && dead[k] == probed[i];
        assert(unreachable_records(probed)[k] == record);
    }
}

/// A zone without records gets exactly the "A" record that maps its name to the
/// current address.
pub proof fn lemma_empty_zone_gets_its_record(zone: ZoneView, ip: Seq<char>)
    ensures
        record_to_add(zone.name, ip, Seq::empty()) == Some(a_record(zone.name, ip)),
        addition(zone, ip, Seq::empty()) == Some(
            create_record_call(zone.id, record_json(a_record(zone.name, ip))),
        ),
{
}

/// Nothing is created for a zone that holds a record for the current address,
/// whatever else it holds.
pub proof fn lemma_present_record_is_not_created_again(
    zone: ZoneView,
    ip: Seq<char>,
    records: Seq<DnsRecordView>,
    present: DnsRecordView,
)
    requires
        records.contains(present),
        present.name == zone.name,
        present.content == ip,
    ensures
        record_to_add(zone.name, ip, records) is None,
        addition(zone, ip, records) is None,
{
    let i = choose|i: int| 0 <= i < records.len() && records[i] == present;
    assert(records[i].name == zone.name && records[i].content == ip);
}

/// The records for the current address: those that the unique policy leaves.
pub open spec fn points_here(ip: Seq<char>) -> spec_fn(DnsRecordView) -> bool {
    |record: DnsRecordView| record.content == ip
}

/// What a zone holds after a pass of the unique policy in which every call
/// succeeded: the records for the current address and, where there was none,
/// the record that was created, as the API stored it.
pub open spec fn after_unique_pass(
    name: Seq<char>,
    ip: Seq<char>,
    records: Seq<DnsRecordView>,
    stored_id: Seq<char>,
) -> Seq<DnsRecordView> {
    let left = records.filter(points_here(ip));
    match record_to_add(name, ip, records) {
        Some(record) => left.push(DnsRecordView { id: Some(stored_id), ..record }),
        None => left,
    }
}

/// A second pass of the unique policy over the records of a zone, with the
/// address unchanged, plans no call that changes anything: it deletes nothing
/// and creates nothing.
pub proof fn lemma_unique_pass_is_idempotent(
    zone: ZoneView,
    ip: Seq<char>,
    listing: Seq<DnsRecordView>,
    stored_id: Seq<char>,
)
    ensures
        ({
            let records = listing.filter(is_named(zone.name));
            let after = after_unique_pass(zone.name, ip, records, stored_id);
            &&& deletions(zone.id, after.filter(points_elsewhere(ip))) == Seq::<
                ApiCallView,
            >::empty()
            &&& addition(zone, ip, after) is None
        }),
{
    let records = listing.filter(is_named(zone.name));
    let after = after_unique_pass(zone.name, ip, records, stored_id);
    let left = records.filter(points_here(ip));
    assert forall|i: int| 0 <= i < records.len() implies (#[trigger] records[i]).name
        == zone.name by {
        listing.lemma_filter_pred(is_named(zone.name), i);
    }
    assert forall|i: int| 0 <= i < after.len() implies (#[trigger] after[i]).content == ip
        && after[i].name == zone.name by {
        if i < left.len() {
            records.lemma_filter_pred(points_here(ip), i);
            assert(left.contains(left[i]));
            lemma_filter_keeps_exactly(records, points_here(ip), left[i]);
            let j = choose|j: int| 0 <= j < records.len() && records[j] == left[i];
            assert(records[j].name == zone.name);
        }
    }
    let others = after.filter(points_elsewhere(ip));
    if others.len() > 0 {
        after.lemma_filter_pred(points_elsewhere(ip), 0);
        assert(others.contains(others[0]));
        lemma_filter_keeps_exactly(after, points_elsewhere(ip), others[0]);
        let j = choose|j: int| 0 <= j < after.len() && after[j] == others[0];
        assert(after[j].content == ip);
    }
    assert(deletions(zone.id, others) =~= Seq::<ApiCallView>::empty());
    if record_to_add(zone.name, ip, records) is Some {
        assert(after[after.len() - 1].name == zone.name && after[after.len() - 1].content == ip);
    } else {
        let i = choose|i: int|
            0 <= i < records.len() && (#[trigger] records[i]).name == zone.name
                && records[i].content == ip;
        assert(records.contains(records[i]));
        lemma_filter_keeps_exactly(records, points_here(ip), records[i]);
        let k = choose|k: int| 0 <= k < left.len() && left[k] == records[i];
        assert(after[k].name == zone.name && after[k].content == ip);
    }
}

} // verus!
