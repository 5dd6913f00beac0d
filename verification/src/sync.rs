//! One refresh of the authorization set from the registry.
//!
//! The set is changed in place: members that the registry no longer lists
//! leave, then the new ones enter. It is never emptied and rebuilt, so a
//! token that stays authorized is authorized at every moment of a refresh.

use crate::access::AuthorizationSet;
use crate::identifier::OneWireId;
use crate::registry::{lines, listed_ids, parse_registry, rejections, Rejection};
use crate::seqs::lemma_take_next_to_set;
use crate::store::{serialize_1w_devices, stores};
use vstd::prelude::*;
use vstd::seq_lib::seq_to_set_is_finite;
use vstd::set_lib::{lemma_set_difference_len, lemma_set_empty_equivalency_len};

verus! {

/// What a refresh did to the set.
#[derive(Clone, Copy, Debug, PartialEq, Eq, Structural)]
pub struct DiffReport {
    /// The number of members after the refresh.
    pub total: usize,
    /// The number of identifiers that entered.
    pub added: usize,
    /// The number of identifiers that left.
    pub removed: usize,
    /// Whether the set is another than before.
    pub changed: bool,
}

/// What came of asking the registry.
#[derive(Debug, PartialEq, Eq)]
pub enum Fetched {
    /// No answer: the transport failed or the request timed out.
    Unreachable,
    /// An answer, with its HTTP status and its body.
    Answered { status: u16, body: String },
}

/// How a refresh ended.
#[derive(Debug, PartialEq, Eq)]
pub enum Outcome {
    /// The registry gave no answer; the set is as it was.
    Unreachable,
    /// The registry answered with a status that is no success; the set is
    /// as it was.
    Refused { status: u16 },
    /// The set now holds what the registry lists.
    Refreshed {
        /// What changed.
        report: DiffReport,
        /// The lines of the answer that were dropped.
        rejected: Vec<Rejection>,
        /// The bytes to store, where the set changed.
        save: Option<Vec<u8>>,
    },
}

/// The bytes that a refresh hands over to be stored, if any.
pub open spec fn bytes_to_save(outcome: Outcome) -> Option<Seq<u8>> {
    match outcome {
        Outcome::Refreshed { save: Some(bytes), .. } => Some(bytes@),
        _ => None,
    }
}

/// Whether an HTTP status is a success: 200 to 299.
pub open spec fn is_success(status: u16) -> bool {
    200 <= status < 300
}

/// The set that the registry's answer `body` asks for.
pub open spec fn desired_set(body: Seq<char>) -> Set<OneWireId> {
    listed_ids(lines(body)).to_set()
}

/// The members after a refresh that was given `fetched`.
pub open spec fn refreshed(before: Set<OneWireId>, fetched: Fetched) -> Set<OneWireId> {
    match fetched {
        Fetched::Answered { status, body } if is_success(status) => desired_set(body@),
        _ => before,
    }
}

/// Whether a refresh that was given `fetched` asks for the set to be stored.
pub open spec fn asks_to_save(before: Set<OneWireId>, fetched: Fetched) -> bool {
    refreshed(before, fetched) != before
}

/// A refresh with the answer that the previous refresh had stores nothing.
pub proof fn lemma_same_answer_saves_nothing(before: Set<OneWireId>, fetched: Fetched)
    ensures
        !asks_to_save(refreshed(before, fetched), fetched),
{
}

/// A refresh whose answer lists exactly the members leaves the set as it is
/// and stores nothing.
pub proof fn lemma_same_list_is_quiet(members: Set<OneWireId>, fetched: Fetched)
    requires
        fetched matches Fetched::Answered { status, body } && is_success(status) && desired_set(
            body@,
        ) == members,
    ensures
        refreshed(members, fetched) == members,
        !asks_to_save(members, fetched),
{
}

/// A refresh that had no answer, or a refusal, leaves the set as it is and
/// stores nothing.
pub proof fn lemma_no_answer_is_quiet(members: Set<OneWireId>, fetched: Fetched)
    requires
        fetched matches Fetched::Answered { status, body } ==> !is_success(status),
    ensures
        refreshed(members, fetched) == members,
        !asks_to_save(members, fetched),
{
}

/// Tells whether an HTTP status is a success.
pub fn status_is_success(status: u16) -> (success: bool)
    ensures
        success == is_success(status),
{
    200 <= status && status < 300
}

/// Makes the members of `set` those of `desired`, in place: drops the
/// members that `desired` does not list, then adds what is new.
pub fn reconcile(set: &mut AuthorizationSet, desired: &Vec<OneWireId>) -> (report: DiffReport)
    ensures
        final(set).members() == desired@.to_set(),
        report.total == desired@.to_set().len(),
        report.added == desired@.to_set().difference(old(set).members()).len(),
        report.removed == old(set).members().difference(desired@.to_set()).len(),
        report.changed == (report.added > 0 || report.removed > 0),
        report.changed == (old(set).members() != desired@.to_set()),
{
    let ghost before = set.members();
    let ghost wanted = desired@.to_set();
    let old_len: usize = set.len();
    set.retain_listed(desired);
    let kept: usize = set.len();
    proof {
        seq_to_set_is_finite(desired@);
        lemma_set_difference_len(before, wanted);
    }
    let removed: usize = old_len - kept;
    let mut added: usize = 0;
    let mut i: usize = 0;
    proof {
        assert(desired@.take(0) =~= Seq::<OneWireId>::empty());
        assert(desired@.take(0).to_set() =~= Set::<OneWireId>::empty());
        assert(set.members() =~= before.intersect(wanted).union(desired@.take(0).to_set()));
        assert(desired@.take(0).to_set().difference(before) =~= Set::<OneWireId>::empty());
    }
    while i < desired.len()
        invariant
            i <= desired.len(),
            added <= i,
            before.finite(),
            wanted == desired@.to_set(),
            removed == before.difference(wanted).len(),
            set.members() == before.intersect(wanted).union(desired@.take(i as int).to_set()),
            added == desired@.take(i as int).to_set().difference(before).len(),
        decreases desired.len() - i,
    {
        let id = desired[i];
        let ghost seen = desired@.take(i as int).to_set();
        let ghost more = desired@.take(i + 1).to_set();
        proof {
            lemma_take_next_to_set(desired@, i as int);
            seq_to_set_is_finite(desired@.take(i as int));
            assert(desired@.contains(id));
            assert(wanted.contains(id));
        }
        if !set.contains(&id) {
            set.insert(id);
            added = added + 1;
            proof {
                assert(!before.contains(id));
                assert(!seen.contains(id));
                assert(more.difference(before) =~= seen.difference(before).insert(id));
                assert(set.members() =~= before.intersect(wanted).union(more));
            }
        } else {
            proof {
                assert(more.difference(before) =~= seen.difference(before));
                assert(set.members() =~= before.intersect(wanted).union(more));
            }
        }
        i += 1;
    }
    proof {
        assert(desired@.take(i as int) =~= desired@);
        assert(set.members() =~= wanted);
        lemma_set_difference_len(wanted, before);
        if added == 0 && removed == 0 {
            lemma_set_empty_equivalency_len(wanted.difference(before));
            lemma_set_empty_equivalency_len(before.difference(wanted));
            assert forall|id: OneWireId| before.contains(id) == wanted.contains(id) by {
                assert(!wanted.difference(before).contains(id));
                assert(!before.difference(wanted).contains(id));
            }
            assert(before =~= wanted);
        }
        if before == wanted {
            assert(wanted.difference(before) =~= Set::<OneWireId>::empty());
            assert(before.difference(wanted) =~= Set::<OneWireId>::empty());
        }
    }
    let total: usize = set.len();
    DiffReport { total, added, removed, changed: added > 0 || removed > 0 }
}

/// One refresh: takes what came of asking the registry, brings the set in
/// line with the answer, and says what is to be stored.
///
/// Without an answer, or with one whose status is no success, the set is
/// left as it is and nothing is stored. Otherwise the set becomes what the
/// answer lists, and is to be stored exactly when that changed it.
pub fn mos_refresh(access_list: &mut AuthorizationSet, fetched: &Fetched) -> (outcome: Outcome)
    ensures
        final(access_list).members() == refreshed(old(access_list).members(), *fetched),
        bytes_to_save(outcome) is Some <==> asks_to_save(old(access_list).members(), *fetched),
        bytes_to_save(outcome) matches Some(bytes) ==> stores(
            bytes,
            final(access_list).members(),
        ),
        match *fetched {
            Fetched::Unreachable => outcome == Outcome::Unreachable,
            Fetched::Answered { status, body } => if is_success(status) {
                &&& outcome matches Outcome::Refreshed { report, rejected, save }
                &&& report.total == desired_set(body@).len()
                &&& report.added == desired_set(body@).difference(
                    old(access_list).members(),
                ).len()
                &&& report.removed == old(access_list).members().difference(
                    desired_set(body@),
                ).len()
                &&& report.changed == (report.added > 0 || report.removed > 0)
                &&& report.changed == save is Some
                &&& rejected@ == rejections(lines(body@))
            } else {
                outcome == (Outcome::Refused { status })
            },
        },
{
    match fetched {
        Fetched::Unreachable => Outcome::Unreachable,
        Fetched::Answered { status, body } => {
            if !status_is_success(*status) {
                return Outcome::Refused { status: *status };
            }
            let listing = parse_registry(body.as_str());
            let report = reconcile(access_list, &listing.ids);
            let save = if report.changed {
                Some(serialize_1w_devices(access_list))
            } else {
                None
            };
            Outcome::Refreshed { report, rejected: listing.rejected, save }
        },
    }
}

} // verus!
