//! Properties that hold across the operations on experiment records.
use vstd::prelude::*;
use crate::json::{array_field, field_error, get_field, key_of, CliError, Field, Json, JsonKind};
use crate::recipe::{
    belongs_to, experiment_outcome, first_with_slug, for_app, is_document_of, record_error,
    rollout_outcome,
};

verus! {

/// A record without `slug`, `appName`, `branches` or `featureIds` is
/// refused with a field error, whichever of the two recipes is prepared.
pub proof fn missing_field_is_refused(
    record: Json,
    f: Field,
    app_name: Seq<char>,
    branch: Seq<char>,
    keep_targeting: bool,
    keep_bucketing: bool,
    r: Result<Json, CliError>,
)
    requires
        f == Field::Slug || f == Field::AppName || f == Field::Branches || f == Field::FeatureIds,
        get_field(record, key_of(f)) is None,
        experiment_outcome(record, app_name, branch, keep_targeting, keep_bucketing, r)
            || rollout_outcome(record, app_name, keep_targeting, keep_bucketing, r),
    ensures
        record_error(record) matches Some(e) && (e is MissingField || e is WrongType),
        r == Err::<Json, CliError>(record_error(record).unwrap()),
{
}

/// Preparing an experiment again, for the same app and branch, keeps the
/// one branch that the first preparation pinned.
pub proof fn pinning_a_branch_again_keeps_it(
    record: Json,
    app_name: Seq<char>,
    branch: Seq<char>,
    keep_targeting: bool,
    keep_bucketing: bool,
    first: Json,
    again: Result<Json, CliError>,
)
    requires
        experiment_outcome(record, app_name, branch, keep_targeting, keep_bucketing, Ok(first)),
        experiment_outcome(first, app_name, branch, keep_targeting, keep_bucketing, again),
    ensures
        again matches Ok(j) && array_field(j, Field::Branches) == array_field(first, Field::Branches),
{
    crate::recipe::lemma_keys_differ();
    let branches = array_field(record, Field::Branches).unwrap();
    let k = choose|k: int| first_with_slug(branches, branch, k)
        && array_field(first, Field::Branches) == Some(seq![branches[k]])
        && crate::recipe::pinned(record, first, keep_targeting, keep_bucketing);
    assert(get_field(first, key_of(Field::Slug)) == get_field(record, key_of(Field::Slug)));
    assert(get_field(first, key_of(Field::AppName)) == get_field(record, key_of(Field::AppName)));
    assert(get_field(first, key_of(Field::FeatureIds)) == get_field(record, key_of(Field::FeatureIds)));
    let pinned_branches = seq![branches[k]];
    assert(first_with_slug(pinned_branches, branch, 0));
    assert(record_error(first) is None);
    assert(belongs_to(first, app_name));
    assert(array_field(first, Field::Branches).unwrap() == pinned_branches);
    let j = again->Ok_0;
    let k2 = choose|k2: int| first_with_slug(pinned_branches, branch, k2)
        && array_field(j, Field::Branches) == Some(seq![pinned_branches[k2]])
        && crate::recipe::pinned(first, j, keep_targeting, keep_bucketing);
    assert(k2 == 0);
    assert(seq![pinned_branches[k2]] =~= pinned_branches);
}

/// The records kept for an app are exactly those whose `appName` is the
/// app's, in their order; they are kept whenever every record has a string
/// `appName`.
pub proof fn kept_records_are_the_apps(records: Seq<Json>, app_name: Seq<char>)
    ensures
        for_app(records, app_name) is Ok <==> forall|i: int| 0 <= i < records.len()
            ==> field_error(#[trigger] records[i], Field::AppName, JsonKind::Text) is None,
        for_app(records, app_name) is Ok ==> for_app(records, app_name) == Ok::<Seq<Json>, CliError>(
            records.filter(|r: Json| belongs_to(r, app_name))),
    decreases records.len(),
{
    let pred = |r: Json| belongs_to(r, app_name);
    reveal(Seq::filter);
    if records.len() == 0 {
        assert(records =~= Seq::<Json>::empty());
    } else {
        assert(records.filter(pred) == if pred(records.last()) {
            records.drop_last().filter(pred).push(records.last())
        } else {
            records.drop_last().filter(pred)
        });
        kept_records_are_the_apps(records.drop_last(), app_name);
        let prefix = records.drop_last();
        if !(forall|i: int| 0 <= i < prefix.len()
            ==> field_error(#[trigger] prefix[i], Field::AppName, JsonKind::Text) is None) {
            let i = choose|i: int| 0 <= i < prefix.len()
                && field_error(#[trigger] prefix[i], Field::AppName, JsonKind::Text) is Some;
            assert(records[i] == prefix[i]);
        }
        assert forall|i: int| 0 <= i < prefix.len() implies #[trigger] prefix[i] == records[i] by {}
        if forall|i: int| 0 <= i < records.len()
            ==> field_error(#[trigger] records[i], Field::AppName, JsonKind::Text) is None {
            assert forall|i: int| 0 <= i < prefix.len()
                implies field_error(#[trigger] prefix[i], Field::AppName, JsonKind::Text) is None by {
                assert(prefix[i] == records[i]);
            }
            assert(records.last() == records[records.len() - 1]);
        }
        if for_app(records, app_name) is Ok {
            assert forall|i: int| 0 <= i < records.len()
                implies field_error(#[trigger] records[i], Field::AppName, JsonKind::Text) is None by {
                if i < prefix.len() {
                    assert(prefix[i] == records[i]);
                }
            }
        }
    }
}

/// Records fetched for an app and written out as a list document read back
/// as the same records, and keeping the app's records among them again
/// keeps them all.
pub proof fn fetched_records_read_back(records: Seq<Json>, app_name: Seq<char>, kept: Seq<Json>, doc: Json)
    requires
        for_app(records, app_name) == Ok::<Seq<Json>, CliError>(kept),
        is_document_of(doc, kept),
    ensures
        array_field(doc, Field::Data) == Some(kept),
        for_app(kept, app_name) == Ok::<Seq<Json>, CliError>(kept),
{
    kept_records_are_the_apps(records, app_name);
    lemma_all_belong(records, app_name);
    lemma_keeps_all(kept, app_name);
}

/// Every record kept for an app belongs to it.
proof fn lemma_all_belong(records: Seq<Json>, app_name: Seq<char>)
    ensures
        for_app(records, app_name) matches Ok(kept) ==> forall|i: int| 0 <= i < kept.len()
            ==> belongs_to(#[trigger] kept[i], app_name),
    decreases records.len(),
{
    if records.len() > 0 {
        lemma_all_belong(records.drop_last(), app_name);
    }
}

/// Records that all belong to an app are all kept.
proof fn lemma_keeps_all(records: Seq<Json>, app_name: Seq<char>)
    requires
        forall|i: int| 0 <= i < records.len() ==> belongs_to(#[trigger] records[i], app_name),
    ensures
        for_app(records, app_name) == Ok::<Seq<Json>, CliError>(records),
    decreases records.len(),
{
    if records.len() == 0 {
        assert(records =~= Seq::<Json>::empty());
    } else {
        let prefix = records.drop_last();
        assert forall|i: int| 0 <= i < prefix.len() implies belongs_to(#[trigger] prefix[i], app_name) by {
            assert(prefix[i] == records[i]);
        }
        lemma_keeps_all(prefix, app_name);
        assert(prefix.push(records.last()) =~= records);
    }
}

} // verus!
