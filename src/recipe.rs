//! Experiment records: finding them in lists, checking them, keeping those
//! of one app, and preparing them into the recipes an app is launched with.
use vstd::prelude::*;
use crate::device::texts;
use crate::json::{
    array_field, field_error, get_field, key_of, str_field, updated, CliError, Field, Json,
    JsonKind,
};

verus! {

/// The app whose experiments are handled: its Nimbus name and channel.
#[derive(Debug)]
pub struct NimbusApp {
    pub app_name: String,
    pub channel: String,
}

/// The first error that a record missing one of its required fields raises:
/// `slug` and `appName` must be strings, `branches` and `featureIds` arrays.
pub open spec fn record_error(j: Json) -> Option<CliError> {
    if field_error(j, Field::Slug, JsonKind::Text) is Some {
        field_error(j, Field::Slug, JsonKind::Text)
    } else if field_error(j, Field::AppName, JsonKind::Text) is Some {
        field_error(j, Field::AppName, JsonKind::Text)
    } else if field_error(j, Field::Branches, JsonKind::Array) is Some {
        field_error(j, Field::Branches, JsonKind::Array)
    } else {
        field_error(j, Field::FeatureIds, JsonKind::Array)
    }
}

/// Whether `k` is the first index of a record whose slug is `slug`.
pub open spec fn first_with_slug(records: Seq<Json>, slug: Seq<char>, k: int) -> bool {
    &&& 0 <= k < records.len()
    &&& str_field(records[k], Field::Slug) == Some(slug)
    &&& forall|j: int| 0 <= j < k ==> str_field(#[trigger] records[j], Field::Slug) != Some(slug)
}

/// Whether a record's slug is `slug`.
pub fn has_slug(record: &Json, slug: &String) -> (r: bool)
    ensures
        r == (str_field(*record, Field::Slug) == Some(slug@)),
{
    match record.get_str(Field::Slug) {
        Ok(s) => *s == *slug,
        Err(_) => false,
    }
}

/// Checks that a record has the fields every record must have.
pub fn validate_record(record: &Json) -> (r: Result<(), CliError>)
    ensures
        match record_error(*record) {
            None => r is Ok,
            Some(e) => r == Err::<(), CliError>(e),
        },
{
    record.get_str(Field::Slug)?;
    record.get_str(Field::AppName)?;
    record.get_array(Field::Branches)?;
    record.get_array(Field::FeatureIds)?;
    Ok(())
}

/// Takes the `data` array out of a list document.
pub fn take_data_list(doc: Json) -> (r: Result<Vec<Json>, CliError>)
    ensures
        match r {
            Ok(items) => array_field(doc, Field::Data) == Some(items@),
            Err(e) => field_error(doc, Field::Data, JsonKind::Array) == Some(e),
        },
        field_error(doc, Field::Data, JsonKind::Array) is None <==> r is Ok,
{
    let (_, data) = doc.take_field(&Field::Data.key());
    match data {
        None => Err(CliError::MissingField(Field::Data)),
        Some(Json::Array(items)) => Ok(items),
        Some(_) => Err(CliError::WrongType(Field::Data, JsonKind::Array)),
    }
}

/// Finds the first record of a list document whose slug is `slug`.
pub fn try_find_experiment(doc: Json, slug: &String) -> (r: Result<Json, CliError>)
    ensures
        match array_field(doc, Field::Data) {
            None => r == Err::<Json, CliError>(field_error(doc, Field::Data, JsonKind::Array).unwrap()),
            Some(records) => match r {
                Ok(found) => exists|k: int| first_with_slug(records, slug@, k) && found == records[k],
                Err(CliError::ExperimentNotFound(s)) => s@ == slug@
                    && forall|k: int| 0 <= k < records.len() ==> str_field(#[trigger] records[k], Field::Slug) != Some(slug@),
                Err(_) => false,
            },
        },
{
    let mut records = match take_data_list(doc) {
        Ok(records) => records,
        Err(e) => return Err(e),
    };
    let ghost all = records@;
    let mut i: usize = 0;
    while i < records.len()
        invariant
            i <= records.len(),
            records@ == all,
            array_field(doc, Field::Data) == Some(all),
            forall|j: int| 0 <= j < i ==> str_field(#[trigger] records@[j], Field::Slug) != Some(slug@),
        decreases records.len() - i,
    {
        if has_slug(&records[i], slug) {
            proof { assert(first_with_slug(records@, slug@, i as int)); }
            return Ok(records.remove(i));
        }
        i = i + 1;
    }
    Err(CliError::ExperimentNotFound(slug.clone()))
}

/// The text of a string held under `key`.
pub open spec fn text_at(j: Json, key: Seq<char>) -> Option<Seq<char>> {
    match get_field(j, key) {
        Some(Json::Str(s)) => Some(s@),
        _ => None,
    }
}

/// The decimal text of a number held under `key`.
pub open spec fn number_at(j: Json, key: Seq<char>) -> Option<Seq<char>> {
    match get_field(j, key) {
        Some(Json::Number(n)) => Some(n@),
        _ => None,
    }
}

/// A bucketing configuration that takes in every client: it starts at
/// bucket 0 and counts all 10000 of 10000 buckets, and keeps the other
/// settings of `old`.
pub open spec fn takes_everyone(old: Option<Json>, b: Json) -> bool {
    &&& b is Object
    &&& number_at(b, "start"@) == Some("0"@)
    &&& number_at(b, "count"@) == Some("10000"@)
    &&& number_at(b, "total"@) == Some("10000"@)
    &&& forall|k: Seq<char>| k != "start"@ && k != "count"@ && k != "total"@
        ==> #[trigger] get_field(b, k) == match old {
            Some(o) => get_field(o, k),
            None => None,
        }
}

/// `r` is `record` with its targeting forced to always match unless
/// `keep_targeting`, and its bucketing forced to take in everyone unless
/// `keep_bucketing`; every other field is as it was.
pub open spec fn overrides_applied(record: Json, r: Json, keep_targeting: bool, keep_bucketing: bool) -> bool {
    &&& r is Object
    &&& keep_targeting ==> get_field(r, "targeting"@) == get_field(record, "targeting"@)
    &&& !keep_targeting ==> text_at(r, "targeting"@) == Some("true"@)
    &&& keep_bucketing ==> get_field(r, "bucketConfig"@) == get_field(record, "bucketConfig"@)
    &&& !keep_bucketing ==> (get_field(r, "bucketConfig"@) matches Some(b)
        && takes_everyone(get_field(record, "bucketConfig"@), b))
    &&& forall|k: Seq<char>| k != "targeting"@ && k != "bucketConfig"@
        ==> #[trigger] get_field(r, k) == get_field(record, k)
}

/// The keys that preparing a recipe reads or sets are all different.
pub(crate) proof fn lemma_keys_differ()
    ensures
        "start"@ != "count"@,
        "start"@ != "total"@,
        "count"@ != "total"@,
        "targeting"@ != "bucketConfig"@,
        key_of(Field::Branches) != "targeting"@,
        key_of(Field::Branches) != "bucketConfig"@,
        key_of(Field::Slug) != "targeting"@,
        key_of(Field::Slug) != "bucketConfig"@,
        key_of(Field::AppName) != "targeting"@,
        key_of(Field::AppName) != "bucketConfig"@,
        key_of(Field::FeatureIds) != "targeting"@,
        key_of(Field::FeatureIds) != "bucketConfig"@,
        key_of(Field::Slug) != key_of(Field::Branches),
        key_of(Field::AppName) != key_of(Field::Branches),
        key_of(Field::FeatureIds) != key_of(Field::Branches),
{
    reveal_strlit("start");
    reveal_strlit("count");
    reveal_strlit("total");
    reveal_strlit("targeting");
    reveal_strlit("bucketConfig");
    reveal_strlit("branches");
    reveal_strlit("slug");
    reveal_strlit("appName");
    reveal_strlit("featureIds");
    assert("start"@[0] != "count"@[0]);
    assert("start"@[0] != "total"@[0]);
    assert("count"@[0] != "total"@[0]);
    assert("targeting"@[0] != "bucketConfig"@[0]);
    assert("branches"@[1] != "bucketConfig"@[1]);
    assert("branches"@[0] != "targeting"@[0]);
    assert("slug"@[0] != "targeting"@[0]);
    assert("slug"@[0] != "bucketConfig"@[0]);
    assert("slug"@[0] != "branches"@[0]);
    assert("appName"@[0] != "targeting"@[0]);
    assert("appName"@[0] != "bucketConfig"@[0]);
    assert("appName"@[0] != "branches"@[0]);
    assert("featureIds"@[0] != "targeting"@[0]);
    assert("featureIds"@[0] != "bucketConfig"@[0]);
    assert("featureIds"@[0] != "branches"@[0]);
}

/// A bucketing configuration like `old` that takes in every client.
fn full_bucketing(old: Option<Json>) -> (r: Json)
    ensures
        takes_everyone(old, r),
{
    let base = match old {
        Some(b) => b,
        None => Json::Object(Vec::new()),
    };
    let ghost b0 = base;
    proof { lemma_keys_differ(); }
    let b1 = base.with_field(String::from_str("start"), Json::Number(String::from_str("0")));
    let b2 = b1.with_field(String::from_str("count"), Json::Number(String::from_str("10000")));
    let b3 = b2.with_field(String::from_str("total"), Json::Number(String::from_str("10000")));
    assert(get_field(b2, "start"@) == get_field(b1, "start"@));
    assert(get_field(b3, "start"@) == get_field(b2, "start"@));
    assert(get_field(b3, "count"@) == get_field(b2, "count"@));
    assert forall|k: Seq<char>| k != "start"@ && k != "count"@ && k != "total"@
        implies #[trigger] get_field(b3, k) == match old {
            Some(o) => get_field(o, k),
            None => None,
        } by {
        assert(get_field(b3, k) == get_field(b2, k));
        assert(get_field(b2, k) == get_field(b1, k));
        assert(get_field(b1, k) == get_field(b0, k));
    }
    b3
}

/// Forces targeting to always match and bucketing to take in everyone,
/// each unless asked to keep it.
fn apply_overrides(record: Json, keep_targeting: bool, keep_bucketing: bool) -> (r: Json)
    ensures
        record is Object ==> overrides_applied(record, r, keep_targeting, keep_bucketing),
{
    let ghost r0 = record;
    proof { lemma_keys_differ(); }
    let targeted = if keep_targeting {
        record
    } else {
        record.with_field(String::from_str("targeting"), Json::Str(String::from_str("true")))
    };
    let ghost r1 = targeted;
    if keep_bucketing {
        targeted
    } else {
        let (rest, old) = targeted.take_field(&String::from_str("bucketConfig"));
        let ghost r2 = rest;
        let r = rest.with_field(String::from_str("bucketConfig"), full_bucketing(old));
        assert(get_field(r, "targeting"@) == get_field(r2, "targeting"@));
        assert(get_field(r2, "targeting"@) == get_field(r1, "targeting"@));
        assert(old == get_field(r1, "bucketConfig"@));
        assert(get_field(r1, "bucketConfig"@) == get_field(r0, "bucketConfig"@));
        assert forall|k: Seq<char>| k != "targeting"@ && k != "bucketConfig"@
            implies #[trigger] get_field(r, k) == get_field(r0, k) by {
            assert(get_field(r, k) == get_field(r2, k));
            assert(get_field(r2, k) == get_field(r1, k));
        }
        r
    }
}

/// What preparing a rollout gives: the record's own field error, else
/// `AppMismatch` when it belongs to another app, else the record with the
/// targeting and bucketing overrides applied.
pub open spec fn rollout_outcome(
    record: Json,
    app_name: Seq<char>,
    keep_targeting: bool,
    keep_bucketing: bool,
    r: Result<Json, CliError>,
) -> bool {
    match record_error(record) {
        Some(e) => r == Err::<Json, CliError>(e),
        None => if str_field(record, Field::AppName) != Some(app_name) {
            r matches Err(CliError::AppMismatch(n)) && str_field(record, Field::AppName) == Some(n@)
        } else {
            r matches Ok(j) && overrides_applied(record, j, keep_targeting, keep_bucketing)
        },
    }
}

/// What preparing an experiment gives: as for a rollout, and besides, the
/// `branches` array holds only the first branch whose slug is `branch`, or
/// `BranchNotFound` when there is none.
pub open spec fn experiment_outcome(
    record: Json,
    app_name: Seq<char>,
    branch: Seq<char>,
    keep_targeting: bool,
    keep_bucketing: bool,
    r: Result<Json, CliError>,
) -> bool {
    match record_error(record) {
        Some(e) => r == Err::<Json, CliError>(e),
        None => if str_field(record, Field::AppName) != Some(app_name) {
            r matches Err(CliError::AppMismatch(n)) && str_field(record, Field::AppName) == Some(n@)
        } else {
            let branches = array_field(record, Field::Branches).unwrap();
            if exists|k: int| first_with_slug(branches, branch, k) {
                r matches Ok(j) && exists|k: int| first_with_slug(branches, branch, k)
                    && array_field(j, Field::Branches) == Some(seq![branches[k]])
                    && pinned(record, j, keep_targeting, keep_bucketing)
            } else {
                r matches Err(CliError::BranchNotFound(b)) && b@ == branch
            }
        },
    }
}

/// `r` is `record` with the overrides applied to all but its branches.
pub open spec fn pinned(record: Json, r: Json, keep_targeting: bool, keep_bucketing: bool) -> bool {
    &&& r is Object
    &&& keep_targeting ==> get_field(r, "targeting"@) == get_field(record, "targeting"@)
    &&& !keep_targeting ==> text_at(r, "targeting"@) == Some("true"@)
    &&& keep_bucketing ==> get_field(r, "bucketConfig"@) == get_field(record, "bucketConfig"@)
    &&& !keep_bucketing ==> (get_field(r, "bucketConfig"@) matches Some(b)
        && takes_everyone(get_field(record, "bucketConfig"@), b))
    &&& forall|k: Seq<char>| k != "targeting"@ && k != "bucketConfig"@ && k != key_of(Field::Branches)
        ==> #[trigger] get_field(r, k) == get_field(record, k)
}

/// Checks the record's fields and that it belongs to `app`.
fn check_record(record: &Json, app: &NimbusApp) -> (r: Result<(), CliError>)
    ensures
        match record_error(*record) {
            Some(e) => r == Err::<(), CliError>(e),
            None => if str_field(*record, Field::AppName) != Some(app.app_name@) {
                r matches Err(CliError::AppMismatch(n)) && str_field(*record, Field::AppName) == Some(n@)
            } else {
                r is Ok
            },
        },
{
    match validate_record(record) {
        Ok(()) => {},
        Err(e) => return Err(e),
    }
    match record.get_str(Field::AppName) {
        Ok(name) => if *name == app.app_name {
            Ok(())
        } else {
            Err(CliError::AppMismatch(name.clone()))
        },
        Err(e) => Err(e),
    }
}

/// Prepares a rollout for `app`: all of its branches stay.
pub fn prepare_rollout(record: Json, app: &NimbusApp, keep_targeting: bool, keep_bucketing: bool) -> (r: Result<Json, CliError>)
    ensures
        rollout_outcome(record, app.app_name@, keep_targeting, keep_bucketing, r),
{
    match check_record(&record, app) {
        Ok(()) => {},
        Err(e) => return Err(e),
    }
    Ok(apply_overrides(record, keep_targeting, keep_bucketing))
}

/// Prepares an experiment for `app`, enrolled in the branch `branch`.
pub fn prepare_experiment(
    record: Json,
    app: &NimbusApp,
    branch: &String,
    keep_targeting: bool,
    keep_bucketing: bool,
) -> (r: Result<Json, CliError>)
    ensures
        experiment_outcome(record, app.app_name@, branch@, keep_targeting, keep_bucketing, r),
{
    match check_record(&record, app) {
        Ok(()) => {},
        Err(e) => return Err(e),
    }
    let ghost r0 = record;
    proof { lemma_keys_differ(); }
    let branches_key = Field::Branches.key();
    let (rest, branches) = record.take_field(&branches_key);
    let mut branches = match branches {
        Some(Json::Array(items)) => items,
        _ => return Err(CliError::MissingField(Field::Branches)),
    };
    let ghost all = branches@;
    let mut i: usize = 0;
    while i < branches.len() && !has_slug(&branches[i], branch)
        invariant
            i <= branches.len(),
            branches@ == all,
            forall|j: int| 0 <= j < i ==> str_field(#[trigger] all[j], Field::Slug) != Some(branch@),
        decreases branches.len() - i,
    {
        i = i + 1;
    }
    if i == branches.len() {
        return Err(CliError::BranchNotFound(branch.clone()));
    }
    assert(first_with_slug(all, branch@, i as int));
    let chosen = branches.remove(i);
    let one = vec![chosen];
    assert(one@ =~= seq![all[i as int]]);
    let ghost one_view = one@;
    let with_one = rest.with_field(branches_key, Json::Array(one));
    let ghost w = with_one;
    let r = apply_overrides(with_one, keep_targeting, keep_bucketing);
    assert(array_field(r, Field::Branches) == Some(one_view));
    assert forall|k: Seq<char>| k != "targeting"@ && k != "bucketConfig"@ && k != key_of(Field::Branches)
        implies #[trigger] get_field(r, k) == get_field(r0, k) by {
        assert(get_field(r, k) == get_field(w, k));
        assert(get_field(w, k) == get_field(rest, k));
    }
    assert(get_field(w, "targeting"@) == get_field(rest, "targeting"@));
    assert(get_field(w, "bucketConfig"@) == get_field(rest, "bucketConfig"@));
    assert(get_field(r0, "targeting"@) == get_field(rest, "targeting"@));
    assert(get_field(r0, "bucketConfig"@) == get_field(rest, "bucketConfig"@));
    Ok(r)
}

/// The records that belong to the app named `app_name`, in their order; or
/// the error of the first record without a string `appName`.
pub open spec fn for_app(records: Seq<Json>, app_name: Seq<char>) -> Result<Seq<Json>, CliError>
    decreases records.len(),
{
    if records.len() == 0 {
        Ok(Seq::empty())
    } else {
        match for_app(records.drop_last(), app_name) {
            Err(e) => Err(e),
            Ok(kept) => match field_error(records.last(), Field::AppName, JsonKind::Text) {
                Some(e) => Err(e),
                None => if str_field(records.last(), Field::AppName) == Some(app_name) {
                    Ok(kept.push(records.last()))
                } else {
                    Ok(kept)
                },
            },
        }
    }
}

/// Whether a record belongs to the app named `app_name`.
pub open spec fn belongs_to(record: Json, app_name: Seq<char>) -> bool {
    str_field(record, Field::AppName) == Some(app_name)
}

/// The payload document `{"data": [...]}` around a sequence of records.
pub open spec fn is_document_of(doc: Json, records: Seq<Json>) -> bool {
    &&& array_field(doc, Field::Data) == Some(records)
    &&& forall|k: Seq<char>| k != key_of(Field::Data) ==> #[trigger] get_field(doc, k) is None
}

/// Wraps records in the document `{"data": [...]}` that apps and list files use.
pub fn recipes_document(records: Vec<Json>) -> (r: Json)
    ensures
        is_document_of(r, records@),
{
    let doc = Json::Object(Vec::new());
    let ghost d = doc;
    let r = doc.with_field(Field::Data.key(), Json::Array(records));
    assert forall|k: Seq<char>| k != key_of(Field::Data) implies #[trigger] get_field(r, k) is None by {
        assert(get_field(r, k) == get_field(d, k));
    }
    r
}

impl NimbusApp {
    /// The records of a list document that belong to this app, in their order.
    pub fn fetch_list(&self, doc: Json) -> (r: Result<Vec<Json>, CliError>)
        ensures
            match array_field(doc, Field::Data) {
                None => r == Err::<Vec<Json>, CliError>(field_error(doc, Field::Data, JsonKind::Array).unwrap()),
                Some(records) => match for_app(records, self.app_name@) {
                    Ok(kept) => r matches Ok(v) && v@ == kept,
                    Err(e) => r == Err::<Vec<Json>, CliError>(e),
                },
            },
    {
        match take_data_list(doc) {
            Ok(records) => self.filter_for_app(records),
            Err(e) => Err(e),
        }
    }

    /// Keeps the records that belong to this app, in their order.
    pub fn filter_for_app(&self, records: Vec<Json>) -> (r: Result<Vec<Json>, CliError>)
        ensures
            match for_app(records@, self.app_name@) {
                Ok(kept) => r matches Ok(v) && v@ == kept,
                Err(e) => r == Err::<Vec<Json>, CliError>(e),
            },
    {
        let n = records.len();
        let ghost all = records@;
        let mut rest = records;
        let mut kept: Vec<Json> = Vec::new();
        let mut i: usize = 0;
        assert(all.subrange(0, 0) =~= Seq::<Json>::empty());
        assert(all.subrange(0, all.len() as int) =~= all);
        while rest.len() > 0
            invariant
                i + rest@.len() == all.len(),
                all.len() <= usize::MAX,
                all == records@,
                rest@ == all.subrange(i as int, all.len() as int),
                for_app(all.subrange(0, i as int), self.app_name@) == Ok::<Seq<Json>, CliError>(kept@),
            decreases rest.len(),
        {
            let record = rest.remove(0);
            let ghost done = all.subrange(0, i as int + 1);
            assert(done.drop_last() =~= all.subrange(0, i as int));
            assert(done.last() == record);
            assert(rest@ =~= all.subrange(i as int + 1, all.len() as int));
            let belongs = match record.get_str(Field::AppName) {
                Ok(name) => *name == self.app_name,
                Err(e) => {
                    assert(for_app(done, self.app_name@) == Err::<Seq<Json>, CliError>(e));
                    proof { lemma_for_app_stops(all, i as int + 1, self.app_name@); }
                    assert(for_app(all, self.app_name@) == Err::<Seq<Json>, CliError>(e));
                    return Err(e);
                },
            };
            if belongs {
                kept.push(record);
            }
            i = i + 1;
        }
        assert(all.subrange(0, i as int) =~= all);
        Ok(kept)
    }
}

/// Once a prefix of the records is an error, so is every longer prefix.
proof fn lemma_for_app_stops(all: Seq<Json>, n: int, app_name: Seq<char>)
    requires
        0 <= n <= all.len(),
        for_app(all.subrange(0, n), app_name) is Err,
    ensures
        for_app(all, app_name) == for_app(all.subrange(0, n), app_name),
    decreases all.len() - n,
{
    if n < all.len() {
        let next = all.subrange(0, n + 1);
        assert(next.drop_last() =~= all.subrange(0, n));
        lemma_for_app_stops(all, n + 1, app_name);
    } else {
        assert(all.subrange(0, n) =~= all);
    }
}

/// Whether preparing a rollout for the app named `app_name` succeeds.
pub open spec fn rollout_ok(record: Json, app_name: Seq<char>) -> bool {
    record_error(record) is None && belongs_to(record, app_name)
}

/// Whether preparing an experiment for the app named `app_name`, in the
/// branch `branch`, succeeds.
pub open spec fn experiment_ok(record: Json, app_name: Seq<char>, branch: Seq<char>) -> bool {
    &&& rollout_ok(record, app_name)
    &&& exists|k: int| first_with_slug(array_field(record, Field::Branches).unwrap(), branch, k)
}

/// What building the enrolment payload gives: the prepared experiment,
/// then the prepared rollouts in their order, in a payload document. The
/// error is the experiment's, else the first failing rollout's.
pub open spec fn enroll_outcome(
    app_name: Seq<char>,
    experiment: Json,
    rollouts: Seq<Json>,
    branch: Seq<char>,
    keep_targeting: bool,
    keep_bucketing: bool,
    r: Result<Json, CliError>,
) -> bool {
    &&& r is Ok <==> experiment_ok(experiment, app_name, branch)
        && forall|i: int| 0 <= i < rollouts.len() ==> rollout_ok(#[trigger] rollouts[i], app_name)
    &&& !experiment_ok(experiment, app_name, branch) ==> r is Err
        && experiment_outcome(experiment, app_name, branch, keep_targeting, keep_bucketing, r)
    &&& r is Err && experiment_ok(experiment, app_name, branch) ==> exists|j: int|
        0 <= j < rollouts.len() && !rollout_ok(rollouts[j], app_name)
        && (forall|i: int| 0 <= i < j ==> rollout_ok(#[trigger] rollouts[i], app_name))
        && rollout_outcome(rollouts[j], app_name, keep_targeting, keep_bucketing, r)
    &&& r matches Ok(doc) ==> (array_field(doc, Field::Data) matches Some(items)
        && is_document_of(doc, items)
        && items.len() == rollouts.len() + 1
        && experiment_outcome(experiment, app_name, branch, keep_targeting, keep_bucketing, Ok(items[0]))
        && forall|i: int| 0 <= i < rollouts.len() ==> rollout_outcome(#[trigger] rollouts[i], app_name,
            keep_targeting, keep_bucketing, Ok(items[i + 1])))
}

/// The payload that enrolls the app in one branch of an experiment and in
/// every given rollout.
pub fn enroll_payload(
    app: &NimbusApp,
    experiment: Json,
    rollouts: Vec<Json>,
    branch: &String,
    keep_targeting: bool,
    keep_bucketing: bool,
) -> (r: Result<Json, CliError>)
    ensures
        enroll_outcome(app.app_name@, experiment, rollouts@, branch@, keep_targeting, keep_bucketing, r),
{
    let ghost x = experiment;
    let first = match prepare_experiment(experiment, app, branch, keep_targeting, keep_bucketing) {
        Ok(j) => j,
        Err(e) => return Err(e),
    };
    let mut recipes: Vec<Json> = vec![first];
    let n = rollouts.len();
    let ghost all = rollouts@;
    let mut rest = rollouts;
    let mut i: usize = 0;
    while rest.len() > 0
        invariant
            i + rest@.len() == all.len(),
            all.len() == n,
            all == rollouts@,
            rest@ == all.subrange(i as int, all.len() as int),
            recipes@.len() == i + 1,
            x == experiment,
            experiment_ok(x, app.app_name@, branch@),
            experiment_outcome(x, app.app_name@, branch@, keep_targeting, keep_bucketing, Ok(recipes@[0])),
            forall|j: int| 0 <= j < i ==> rollout_ok(#[trigger] all[j], app.app_name@),
            forall|j: int| 0 <= j < i ==> rollout_outcome(#[trigger] all[j], app.app_name@,
                keep_targeting, keep_bucketing, Ok(recipes@[j + 1])),
        decreases rest.len(),
    {
        let rollout = rest.remove(0);
        assert(rollout == all[i as int]);
        assert(rest@ =~= all.subrange(i as int + 1, all.len() as int));
        match prepare_rollout(rollout, app, keep_targeting, keep_bucketing) {
            Ok(j) => recipes.push(j),
            Err(e) => {
                assert(!rollout_ok(all[i as int], app.app_name@));
                return Err(e);
            },
        }
        i = i + 1;
    }
    let ghost items = recipes@;
    let doc = recipes_document(recipes);
    assert(items.len() == all.len() + 1);
    Ok(doc)
}

/// The payload that leaves every experiment and rollout: `{"data": []}`.
pub fn unenroll_payload() -> (r: Json)
    ensures
        is_document_of(r, Seq::empty()),
{
    let r = recipes_document(Vec::new());
    r
}

/// Where experiments are listed on the remote settings server: the preview
/// collection, or the one for mobile apps.
pub fn collection_name(is_preview: bool) -> (r: String)
    ensures
        r@ == if is_preview { "nimbus-preview"@ } else { "nimbus-mobile-experiments"@ },
{
    if is_preview {
        String::from_str("nimbus-preview")
    } else {
        String::from_str("nimbus-mobile-experiments")
    }
}

/// One line of the experiment table: the slug, the feature ids and the
/// branch slugs.
#[derive(Debug)]
pub struct ListRow {
    pub slug: String,
    pub features: Vec<String>,
    pub branches: Vec<String>,
}

/// The texts of the string items, in their order; other items are left out.
pub open spec fn strings_in(items: Seq<Json>) -> Seq<Seq<char>>
    decreases items.len(),
{
    if items.len() == 0 {
        Seq::empty()
    } else {
        match items.last() {
            Json::Str(s) => strings_in(items.drop_last()).push(s@),
            _ => strings_in(items.drop_last()),
        }
    }
}

/// The slugs of the branches, in their order, leaving out slugs that are
/// not strings; or an error for the first branch without a slug.
pub open spec fn branch_slugs(branches: Seq<Json>) -> Result<Seq<Seq<char>>, CliError>
    decreases branches.len(),
{
    if branches.len() == 0 {
        Ok(Seq::empty())
    } else {
        match branch_slugs(branches.drop_last()) {
            Err(e) => Err(e),
            Ok(slugs) => match get_field(branches.last(), key_of(Field::Slug)) {
                None => Err(CliError::MissingField(Field::Slug)),
                Some(Json::Str(s)) => Ok(slugs.push(s@)),
                Some(_) => Ok(slugs),
            },
        }
    }
}

/// Whether `row` shows `record`: its slug, its string feature ids and its
/// branch slugs.
pub open spec fn row_shows(row: ListRow, record: Json) -> bool {
    &&& str_field(record, Field::Slug) == Some(row.slug@)
    &&& texts(row.features@) == strings_in(array_field(record, Field::FeatureIds).unwrap())
    &&& branch_slugs(array_field(record, Field::Branches).unwrap()) == Ok::<Seq<Seq<char>>, CliError>(texts(row.branches@))
}

/// What listing a record gives: its first field error (slug, then
/// `appName`); nothing when it belongs to another app; else the error of
/// `featureIds`, then `branches`, then of a branch without a slug.
pub open spec fn list_error(record: Json, app_name: Seq<char>) -> Option<CliError> {
    if field_error(record, Field::Slug, JsonKind::Text) is Some {
        field_error(record, Field::Slug, JsonKind::Text)
    } else if field_error(record, Field::AppName, JsonKind::Text) is Some {
        field_error(record, Field::AppName, JsonKind::Text)
    } else if !belongs_to(record, app_name) {
        None
    } else if field_error(record, Field::FeatureIds, JsonKind::Array) is Some {
        field_error(record, Field::FeatureIds, JsonKind::Array)
    } else if field_error(record, Field::Branches, JsonKind::Array) is Some {
        field_error(record, Field::Branches, JsonKind::Array)
    } else {
        match branch_slugs(array_field(record, Field::Branches).unwrap()) {
            Err(e) => Some(e),
            Ok(_) => None,
        }
    }
}

/// The feature ids that are strings.
fn feature_names(items: &Vec<Json>) -> (r: Vec<String>)
    ensures
        texts(r@) == strings_in(items@),
{
    let mut r: Vec<String> = Vec::new();
    let mut i: usize = 0;
    assert(items@.subrange(0, 0) =~= Seq::<Json>::empty());
    assert(texts(r@) =~= Seq::<Seq<char>>::empty());
    while i < items.len()
        invariant
            i <= items.len(),
            texts(r@) == strings_in(items@.subrange(0, i as int)),
        decreases items.len() - i,
    {
        let ghost done = items@.subrange(0, i as int + 1);
        assert(done.drop_last() =~= items@.subrange(0, i as int));
        let ghost before = r@;
        if let Json::Str(s) = &items[i] {
            r.push(s.clone());
            assert(texts(r@) =~= texts(before).push(s@));
        }
        i = i + 1;
    }
    assert(items@.subrange(0, items.len() as int) =~= items@);
    r
}

/// The slugs of the branches that are strings; an error for a branch
/// without a slug.
fn branch_names(items: &Vec<Json>) -> (r: Result<Vec<String>, CliError>)
    ensures
        match branch_slugs(items@) {
            Ok(slugs) => r matches Ok(v) && texts(v@) == slugs,
            Err(e) => r == Err::<Vec<String>, CliError>(e),
        },
{
    let mut r: Vec<String> = Vec::new();
    let mut i: usize = 0;
    let key = Field::Slug.key();
    assert(items@.subrange(0, 0) =~= Seq::<Json>::empty());
    assert(texts(r@) =~= Seq::<Seq<char>>::empty());
    while i < items.len()
        invariant
            i <= items.len(),
            key@ == key_of(Field::Slug),
            branch_slugs(items@.subrange(0, i as int)) == Ok::<Seq<Seq<char>>, CliError>(texts(r@)),
        decreases items.len() - i,
    {
        let ghost done = items@.subrange(0, i as int + 1);
        assert(done.drop_last() =~= items@.subrange(0, i as int));
        let ghost before = r@;
        match items[i].get(&key) {
            None => {
                proof { lemma_slugs_stop(items@, i as int + 1); }
                return Err(CliError::MissingField(Field::Slug));
            },
            Some(Json::Str(s)) => {
                r.push(s.clone());
                assert(texts(r@) =~= texts(before).push(s@));
            },
            Some(_) => {},
        }
        i = i + 1;
    }
    assert(items@.subrange(0, items.len() as int) =~= items@);
    Ok(r)
}

/// Once a prefix of the branches has a branch without a slug, so has
/// every longer prefix.
proof fn lemma_slugs_stop(all: Seq<Json>, n: int)
    requires
        0 <= n <= all.len(),
        branch_slugs(all.subrange(0, n)) is Err,
    ensures
        branch_slugs(all) == branch_slugs(all.subrange(0, n)),
    decreases all.len() - n,
{
    if n < all.len() {
        let next = all.subrange(0, n + 1);
        assert(next.drop_last() =~= all.subrange(0, n));
        lemma_slugs_stop(all, n + 1);
    } else {
        assert(all.subrange(0, n) =~= all);
    }
}

impl NimbusApp {
    /// The table row of a record: nothing when the record belongs to
    /// another app.
    pub fn list_row(&self, record: &Json) -> (r: Result<Option<ListRow>, CliError>)
        ensures
            match list_error(*record, self.app_name@) {
                Some(e) => r == Err::<Option<ListRow>, CliError>(e),
                None => r matches Ok(row) && (belongs_to(*record, self.app_name@) <==> row is Some)
                    && (row matches Some(x) ==> row_shows(x, *record)),
            },
    {
        let slug = match record.get_str(Field::Slug) {
            Ok(s) => s.clone(),
            Err(e) => return Err(e),
        };
        match record.get_str(Field::AppName) {
            Ok(name) => if !(*name == self.app_name) {
                return Ok(None);
            },
            Err(e) => return Err(e),
        }
        let features = match record.get_array(Field::FeatureIds) {
            Ok(items) => feature_names(items),
            Err(e) => return Err(e),
        };
        let branches = match record.get_array(Field::Branches) {
            Ok(items) => match branch_names(items) {
                Ok(v) => v,
                Err(e) => return Err(e),
            },
            Err(e) => return Err(e),
        };
        Ok(Some(ListRow { slug, features, branches }))
    }

    /// The table rows of a list document's records that belong to this
    /// app, in their order; or the error of the first record that has one.
    pub fn list(&self, doc: Json) -> (r: Result<Vec<ListRow>, CliError>)
        ensures
            match array_field(doc, Field::Data) {
                None => r == Err::<Vec<ListRow>, CliError>(field_error(doc, Field::Data, JsonKind::Array).unwrap()),
                Some(records) => {
                    &&& r is Ok <==> forall|i: int| 0 <= i < records.len()
                        ==> list_error(#[trigger] records[i], self.app_name@) is None
                    &&& r matches Ok(rows) ==> {
                        let kept = records.filter(|x: Json| belongs_to(x, self.app_name@));
                        &&& rows@.len() == kept.len()
                        &&& forall|i: int| 0 <= i < kept.len() ==> row_shows(#[trigger] rows@[i], kept[i])
                    }
                    &&& r matches Err(e) ==> exists|j: int| 0 <= j < records.len()
                        && list_error(records[j], self.app_name@) == Some(e)
                        && forall|i: int| 0 <= i < j ==> list_error(#[trigger] records[i], self.app_name@) is None
                },
            },
    {
        let records = match take_data_list(doc) {
            Ok(records) => records,
            Err(e) => return Err(e),
        };
        let ghost pred = |x: Json| belongs_to(x, self.app_name@);
        let mut rows: Vec<ListRow> = Vec::new();
        let mut i: usize = 0;
        proof {
            reveal(Seq::filter);
            assert(records@.subrange(0, 0) =~= Seq::<Json>::empty());
        }
        while i < records.len()
            invariant
                i <= records.len(),
                array_field(doc, Field::Data) == Some(records@),
                pred == (|x: Json| belongs_to(x, self.app_name@)),
                forall|j: int| 0 <= j < i ==> list_error(#[trigger] records@[j], self.app_name@) is None,
                rows@.len() == records@.subrange(0, i as int).filter(pred).len(),
                forall|j: int| 0 <= j < rows@.len()
                    ==> row_shows(#[trigger] rows@[j], records@.subrange(0, i as int).filter(pred)[j]),
            decreases records.len() - i,
        {
            let ghost done = records@.subrange(0, i as int + 1);
            let ghost before = records@.subrange(0, i as int).filter(pred);
            proof {
                reveal(Seq::filter);
                assert(done.drop_last() =~= records@.subrange(0, i as int));
                assert(done.last() == records@[i as int]);
            }
            let ghost rows_before = rows@;
            match self.list_row(&records[i]) {
                Ok(Some(row)) => {
                    rows.push(row);
                    assert(done.filter(pred) == before.push(records@[i as int]));
                    assert forall|j: int| 0 <= j < rows@.len()
                        implies #[trigger] row_shows(rows@[j], done.filter(pred)[j]) by {
                        if j < rows_before.len() {
                            assert(rows@[j] == rows_before[j]);
                        }
                    }
                },
                Ok(None) => {
                    assert(done.filter(pred) == before);
                },
                Err(e) => {
                    return Err(e);
                },
            }
            i = i + 1;
        }
        assert(records@.subrange(0, records.len() as int) =~= records@);
        Ok(rows)
    }
}

} // verus!
