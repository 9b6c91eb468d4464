//! Experiments made up on the spot from local feature-configuration files,
//! for testing a feature without a published recipe.
use vstd::prelude::*;
use crate::json::{array_field, get_field, lookup, str_field, CliError, Field, Json};
use crate::recipe::{record_error, NimbusApp};

verus! {

/// What a key holds in the merge of the configurations: its value in the
/// last configuration that has it.
pub open spec fn merged_field(configs: Seq<Json>, key: Seq<char>) -> Option<Json>
    decreases configs.len(),
{
    if configs.len() == 0 {
        None
    } else if get_field(configs.last(), key) is Some {
        get_field(configs.last(), key)
    } else {
        merged_field(configs.drop_last(), key)
    }
}

/// Whether `merged` is an object that holds the merge of the configurations.
pub open spec fn is_merge_of(merged: Json, configs: Seq<Json>) -> bool {
    &&& merged is Object
    &&& forall|k: Seq<char>| #[trigger] get_field(merged, k) == merged_field(configs, k)
}

/// Copies each entry of `config` into `merged`, replacing what was there.
fn merge_into(merged: Json, config: Json) -> (r: Json)
    requires
        merged is Object,
    ensures
        r is Object,
        forall|k: Seq<char>| #[trigger] get_field(r, k) == if get_field(config, k) is Some {
            get_field(config, k)
        } else {
            get_field(merged, k)
        },
{
    let mut entries = match config {
        Json::Object(entries) => entries,
        _ => Vec::new(),
    };
    let ghost all = entries@;
    let mut r = merged;
    assert(all.subrange(all.len() as int, all.len() as int) =~= Seq::<(String, Json)>::empty());
    while entries.len() > 0
        invariant
            entries@ == all.subrange(0, entries@.len() as int),
            entries@.len() <= all.len(),
            r is Object,
            forall|k: Seq<char>| #[trigger] get_field(r, k) == if lookup(all.subrange(entries@.len() as int, all.len() as int), k) is Some {
                lookup(all.subrange(entries@.len() as int, all.len() as int), k)
            } else {
                get_field(merged, k)
            },
        decreases entries.len(),
    {
        let ghost n = entries@.len() as int;
        let ghost before = r;
        let (key, v) = match entries.pop() {
            Some(e) => e,
            None => (String::new(), Json::Null),
        };
        let ghost tail = all.subrange(n - 1, all.len() as int);
        assert(tail.drop_first() =~= all.subrange(n, all.len() as int));
        assert(tail[0] == all[n - 1]);
        assert(entries@ =~= all.subrange(0, n - 1));
        r = r.with_field(key, v);
        assert forall|k: Seq<char>| #[trigger] get_field(r, k) == if lookup(tail, k) is Some {
            lookup(tail, k)
        } else {
            get_field(merged, k)
        } by {
            if k != key@ {
                assert(get_field(r, k) == get_field(before, k));
            }
        }
    }
    assert(all.subrange(0, all.len() as int) =~= all);
    r
}

/// The configurations of one feature, one from each file.
pub open spec fn configs_of(files: Seq<Json>, feature_id: Seq<char>) -> Seq<Json> {
    Seq::new(files.len(), |i: int| get_field(files[i], feature_id).unwrap())
}

/// The slug of an experiment made for a feature.
pub open spec fn test_slug(feature_id: Seq<char>) -> Seq<char> {
    feature_id + "-feature-test"@
}

/// Whether `branch` is the one branch of an experiment made for a feature:
/// slug `treatment`, configuring the feature with `value`.
pub open spec fn is_test_branch(branch: Json, feature_id: Seq<char>, value: Json) -> bool {
    &&& str_field(branch, Field::Slug) == Some("treatment"@)
    &&& get_field(branch, "features"@) matches Some(Json::Array(fs))
    &&& fs@.len() == 1
    &&& get_field(fs@[0], "featureId"@) matches Some(Json::Str(id))
    &&& id@ == feature_id
    &&& get_field(fs@[0], "value"@) == Some(value)
}

/// Merges the configurations of one feature, in order.
fn merge_configs(configs: Vec<Json>) -> (r: Json)
    ensures
        is_merge_of(r, configs@),
{
    let ghost all = configs@;
    let n = configs.len();
    let mut rest = configs;
    let mut r = Json::Object(Vec::new());
    let mut done: usize = 0;
    assert(all.subrange(0, 0) =~= Seq::<Json>::empty());
    while rest.len() > 0
        invariant
            done + rest@.len() == all.len(),
            all.len() == n,
            rest@ == all.subrange(done as int, all.len() as int),
            is_merge_of(r, all.subrange(0, done as int)),
        decreases rest.len(),
    {
        let config = rest.remove(0);
        let ghost prefix = all.subrange(0, done as int + 1);
        assert(prefix.drop_last() =~= all.subrange(0, done as int));
        assert(prefix.last() == config);
        assert(rest@ =~= all.subrange(done as int + 1, all.len() as int));
        r = merge_into(r, config);
        done = done + 1;
    }
    assert(all.subrange(0, n as int) =~= all);
    r
}

/// Makes up an experiment for `app` that turns on one feature with the
/// merge of its configurations in the given files, later files winning.
/// Each file maps feature ids to configurations; one without the feature
/// is an invalid source.
pub fn create_experiment(app: &NimbusApp, feature_id: &String, files: Vec<Json>) -> (r: Result<Json, CliError>)
    ensures
        r is Ok <==> forall|i: int| 0 <= i < files@.len() ==> get_field(#[trigger] files@[i], feature_id@) is Some,
        r matches Err(e) ==> (e matches CliError::InvalidSource(m) && m@ == feature_id@),
        r matches Ok(rec) ==> {
            &&& record_error(rec) is None
            &&& str_field(rec, Field::Slug) == Some(test_slug(feature_id@))
            &&& str_field(rec, Field::AppName) == Some(app.app_name@)
            &&& array_field(rec, Field::FeatureIds) matches Some(ids)
            &&& ids.len() == 1
            &&& ids[0] matches Json::Str(id)
            &&& id@ == feature_id@
            &&& array_field(rec, Field::Branches) matches Some(bs)
            &&& bs.len() == 1
            &&& exists|value: Json| is_merge_of(value, configs_of(files@, feature_id@))
                && is_test_branch(bs[0], feature_id@, value)
        },
{
    let ghost all = files@;
    let n = files.len();
    let mut rest = files;
    let mut configs: Vec<Json> = Vec::new();
    let mut i: usize = 0;
    while rest.len() > 0
        invariant
            i + rest@.len() == all.len(),
            all.len() == n,
            all == files@,
            rest@ == all.subrange(i as int, all.len() as int),
            configs@.len() == i,
            forall|j: int| 0 <= j < i ==> get_field(#[trigger] all[j], feature_id@) is Some,
            forall|j: int| 0 <= j < i ==> configs@[j] == get_field(#[trigger] all[j], feature_id@).unwrap(),
        decreases rest.len(),
    {
        let file = rest.remove(0);
        assert(file == all[i as int]);
        assert(rest@ =~= all.subrange(i as int + 1, all.len() as int));
        let (_, config) = file.take_field(feature_id);
        match config {
            Some(c) => configs.push(c),
            None => return Err(CliError::InvalidSource(feature_id.clone())),
        }
        i = i + 1;
    }
    assert(configs@ =~= configs_of(all, feature_id@));
    let value = merge_configs(configs);
    let ghost v = value;

    let feature = Json::Object(Vec::new())
        .with_field(String::from_str("featureId"), Json::Str(feature_id.clone()))
        .with_field(String::from_str("value"), value);
    let ghost fv = feature;
    proof { crate::recipe::lemma_keys_differ(); reveal_strlit("featureId"); reveal_strlit("value"); }
    assert("featureId"@[0] != "value"@[0]);
    let branch = Json::Object(Vec::new())
        .with_field(Field::Slug.key(), Json::Str(String::from_str("treatment")))
        .with_field(String::from_str("features"), Json::Array(vec![feature]));
    proof { reveal_strlit("features"); reveal_strlit("slug"); }
    assert("features"@[0] != "slug"@[0]);
    assert(is_test_branch(branch, feature_id@, v));
    let mut slug = feature_id.clone();
    slug.append("-feature-test");
    let rec = Json::Object(Vec::new())
        .with_field(Field::Slug.key(), Json::Str(slug))
        .with_field(Field::AppName.key(), Json::Str(app.app_name.clone()))
        .with_field(Field::Branches.key(), Json::Array(vec![branch]))
        .with_field(Field::FeatureIds.key(), Json::Array(vec![Json::Str(feature_id.clone())]));
    proof { reveal_strlit("appName"); reveal_strlit("featureIds"); reveal_strlit("branches"); }
    assert("slug"@[0] != "appName"@[0]);
    assert("slug"@[0] != "featureIds"@[0]);
    assert("appName"@[0] != "featureIds"@[0]);
    assert("appName"@[0] != "branches"@[0]);
    Ok(rec)
}

} // verus!
