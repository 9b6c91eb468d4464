use nimbus_cli::features::create_experiment;
use nimbus_cli::json::{CliError, Field, Json, JsonKind};
use nimbus_cli::recipe::{
    collection_name, enroll_payload, prepare_experiment, prepare_rollout, recipes_document,
    try_find_experiment, unenroll_payload, validate_record, NimbusApp,
};
use nimbus_cli::text::{parse_json, to_json_pretty, to_json_text};

fn json(text: &str) -> Json {
    parse_json(text).unwrap()
}

fn fenix() -> NimbusApp {
    NimbusApp { app_name: "fenix".to_string(), channel: "developer".to_string() }
}

const LIST: &str = r#"{"data":[{"slug":"exp1","appName":"fenix","branches":[{"slug":"control"},{"slug":"treatment"}],"featureIds":["f1"]}]}"#;

const MIXED: &str = r#"{"data":[
    {"slug":"a","appName":"fenix","branches":[{"slug":"control"}],"featureIds":["f1"]},
    {"slug":"b","appName":"firefox_ios","branches":[{"slug":"control"}],"featureIds":["f2"]},
    {"slug":"c","appName":"fenix","branches":[{"slug":"control"}],"featureIds":["f3"]}
]}"#;

fn slugs(records: &[Json]) -> Vec<String> {
    records
        .iter()
        .map(|r| match r.get_str(Field::Slug) {
            Ok(s) => s.clone(),
            Err(_) => String::new(),
        })
        .collect()
}

#[test]
fn missing_fields_are_reported_in_order() {
    let no_slug = json(r#"{"appName":"fenix","branches":[],"featureIds":[]}"#);
    assert!(matches!(validate_record(&no_slug), Err(CliError::MissingField(Field::Slug))));
    let no_app = json(r#"{"slug":"x","branches":[],"featureIds":[]}"#);
    assert!(matches!(validate_record(&no_app), Err(CliError::MissingField(Field::AppName))));
    let no_branches = json(r#"{"slug":"x","appName":"fenix","featureIds":[]}"#);
    assert!(matches!(validate_record(&no_branches), Err(CliError::MissingField(Field::Branches))));
    let no_features = json(r#"{"slug":"x","appName":"fenix","branches":[]}"#);
    assert!(matches!(validate_record(&no_features), Err(CliError::MissingField(Field::FeatureIds))));
    let wrong = json(r#"{"slug":3,"appName":"fenix","branches":[],"featureIds":[]}"#);
    assert!(matches!(validate_record(&wrong), Err(CliError::WrongType(Field::Slug, JsonKind::Text))));
    let good = json(r#"{"slug":"x","appName":"fenix","branches":[],"featureIds":[]}"#);
    assert!(validate_record(&good).is_ok());
}

#[test]
fn preparing_a_record_without_a_field_fails() {
    let no_features = json(r#"{"slug":"x","appName":"fenix","branches":[{"slug":"control"}]}"#);
    let r = prepare_experiment(no_features, &fenix(), &"control".to_string(), false, false);
    assert!(matches!(r, Err(CliError::MissingField(Field::FeatureIds))));
    let no_app = json(r#"{"slug":"x","branches":[],"featureIds":[]}"#);
    assert!(matches!(prepare_rollout(no_app, &fenix(), false, false), Err(CliError::MissingField(Field::AppName))));
}

#[test]
fn preparing_for_another_app_or_branch_fails() {
    let record = try_find_experiment(json(LIST), &"exp1".to_string()).unwrap();
    let ios = NimbusApp { app_name: "firefox_ios".to_string(), channel: "beta".to_string() };
    match prepare_experiment(record, &ios, &"control".to_string(), false, false) {
        Err(CliError::AppMismatch(name)) => assert_eq!(name, "fenix"),
        other => panic!("unexpected {:?}", other),
    }
    let record = try_find_experiment(json(LIST), &"exp1".to_string()).unwrap();
    match prepare_experiment(record, &fenix(), &"nope".to_string(), false, false) {
        Err(CliError::BranchNotFound(b)) => assert_eq!(b, "nope"),
        other => panic!("unexpected {:?}", other),
    }
}

#[test]
fn preparing_twice_keeps_the_pinned_branch() {
    let record = try_find_experiment(json(LIST), &"exp1".to_string()).unwrap();
    let once = prepare_experiment(record, &fenix(), &"treatment".to_string(), false, false).unwrap();
    let once_text = to_json_text(&once);
    let twice = prepare_experiment(once, &fenix(), &"treatment".to_string(), false, false).unwrap();
    assert_eq!(to_json_text(&twice), once_text);
    let branches = twice.get_array(Field::Branches).unwrap();
    assert_eq!(slugs(branches), vec!["treatment".to_string()]);
}

#[test]
fn enrolling_pins_the_branch_and_opens_targeting_and_bucketing() {
    let record = try_find_experiment(json(LIST), &"exp1".to_string()).unwrap();
    let payload = enroll_payload(&fenix(), record, Vec::new(), &"treatment".to_string(), false, false).unwrap();
    let data = payload.get_array(Field::Data).unwrap();
    assert_eq!(data.len(), 1);
    let recipe = &data[0];
    assert_eq!(slugs(recipe.get_array(Field::Branches).unwrap()), vec!["treatment".to_string()]);
    assert_eq!(to_json_text(recipe.get(&"targeting".to_string()).unwrap()), r#""true""#);
    let bucket = recipe.get(&"bucketConfig".to_string()).unwrap();
    assert_eq!(to_json_text(bucket), r#"{"count":10000,"start":0,"total":10000}"#);
}

#[test]
fn preserved_targeting_and_bucketing_stay_as_they_were() {
    let record = json(r#"{"slug":"e","appName":"fenix","branches":[{"slug":"a"}],"featureIds":[],
        "targeting":"is_first_run","bucketConfig":{"namespace":"ns","start":10,"count":5,"total":10000}}"#);
    let r = prepare_experiment(record, &fenix(), &"a".to_string(), true, true).unwrap();
    assert_eq!(to_json_text(r.get(&"targeting".to_string()).unwrap()), r#""is_first_run""#);
    assert_eq!(
        to_json_text(r.get(&"bucketConfig".to_string()).unwrap()),
        r#"{"count":5,"namespace":"ns","start":10,"total":10000}"#
    );
    let record = json(r#"{"slug":"e","appName":"fenix","branches":[{"slug":"a"}],"featureIds":[],
        "bucketConfig":{"namespace":"ns","start":10,"count":5,"total":10000}}"#);
    let r = prepare_experiment(record, &fenix(), &"a".to_string(), true, false).unwrap();
    assert_eq!(
        to_json_text(r.get(&"bucketConfig".to_string()).unwrap()),
        r#"{"count":10000,"namespace":"ns","start":0,"total":10000}"#
    );
}

#[test]
fn rollouts_keep_all_their_branches() {
    let record = json(r#"{"slug":"r","appName":"fenix","branches":[{"slug":"a"},{"slug":"b"}],"featureIds":[]}"#);
    let r = prepare_rollout(record, &fenix(), false, true).unwrap();
    assert_eq!(slugs(r.get_array(Field::Branches).unwrap()), vec!["a".to_string(), "b".to_string()]);
    assert_eq!(to_json_text(r.get(&"targeting".to_string()).unwrap()), r#""true""#);
}

#[test]
fn enrolling_adds_rollouts_after_the_experiment() {
    let record = try_find_experiment(json(LIST), &"exp1".to_string()).unwrap();
    let rollout = json(r#"{"slug":"r","appName":"fenix","branches":[{"slug":"a"}],"featureIds":[]}"#);
    let payload = enroll_payload(&fenix(), record, vec![rollout], &"control".to_string(), true, true).unwrap();
    assert_eq!(slugs(payload.get_array(Field::Data).unwrap()), vec!["exp1".to_string(), "r".to_string()]);
    let record = try_find_experiment(json(LIST), &"exp1".to_string()).unwrap();
    let bad = json(r#"{"slug":"r","appName":"fenix","branches":[{"slug":"a"}]}"#);
    let r = enroll_payload(&fenix(), record, vec![bad], &"control".to_string(), true, true);
    assert!(matches!(r, Err(CliError::MissingField(Field::FeatureIds))));
}

#[test]
fn unenrolling_sends_an_empty_list() {
    assert_eq!(to_json_text(&unenroll_payload()), r#"{"data":[]}"#);
}

#[test]
fn finding_an_experiment_by_slug() {
    let list = r#"{"data":[{"slug":"other","appName":"fenix","branches":[],"featureIds":[]},
        {"slug":"my-experiment","appName":"fenix","branches":[{"slug":"a"}],"featureIds":["f"]}]}"#;
    match try_find_experiment(json(list), &"missing".to_string()) {
        Err(CliError::ExperimentNotFound(s)) => assert_eq!(s, "missing"),
        other => panic!("unexpected {:?}", other),
    }
    let found = try_find_experiment(json(list), &"my-experiment".to_string()).unwrap();
    let expected = json(r#"{"slug":"my-experiment","appName":"fenix","branches":[{"slug":"a"}],"featureIds":["f"]}"#);
    assert_eq!(to_json_text(&found), to_json_text(&expected));
    assert!(matches!(
        try_find_experiment(json(r#"{"records":[]}"#), &"x".to_string()),
        Err(CliError::MissingField(Field::Data))
    ));
}

#[test]
fn fetching_keeps_the_apps_records_in_order() {
    let kept = fenix().fetch_list(json(MIXED)).unwrap();
    assert_eq!(slugs(&kept), vec!["a".to_string(), "c".to_string()]);
    let none = NimbusApp { app_name: "focus".to_string(), channel: "beta".to_string() };
    assert!(none.fetch_list(json(MIXED)).unwrap().is_empty());
    let bad = json(r#"{"data":[{"slug":"a"}]}"#);
    assert!(matches!(fenix().fetch_list(bad), Err(CliError::MissingField(Field::AppName))));
}

#[test]
fn fetched_records_read_back_the_same() {
    let kept = fenix().fetch_list(json(MIXED)).unwrap();
    let before: Vec<String> = kept.iter().map(to_json_text).collect();
    let file = to_json_pretty(&recipes_document(kept));
    let again = fenix().fetch_list(parse_json(&file).unwrap()).unwrap();
    let after: Vec<String> = again.iter().map(to_json_text).collect();
    assert_eq!(before, after);
}

#[test]
fn filtering_resolved_recipes() {
    let records = vec![
        json(r#"{"slug":"x","appName":"focus"}"#),
        json(r#"{"slug":"y","appName":"fenix"}"#),
    ];
    let kept = fenix().filter_for_app(records).unwrap();
    assert_eq!(slugs(&kept), vec!["y".to_string()]);
}

#[test]
fn listing_shows_slugs_features_and_branches() {
    let list = r#"{"data":[
        {"slug":"a","appName":"fenix","branches":[{"slug":"control"},{"slug":"t"}],"featureIds":["f1","f2"]},
        {"slug":"b","appName":"focus","branches":[],"featureIds":[]}]}"#;
    let rows = fenix().list(json(list)).unwrap();
    assert_eq!(rows.len(), 1);
    assert_eq!(rows[0].slug, "a");
    assert_eq!(rows[0].features, vec!["f1".to_string(), "f2".to_string()]);
    assert_eq!(rows[0].branches, vec!["control".to_string(), "t".to_string()]);
    let bad = r#"{"data":[{"slug":"a","appName":"fenix","branches":[{"name":"x"}],"featureIds":[]}]}"#;
    assert!(matches!(fenix().list(json(bad)), Err(CliError::MissingField(Field::Slug))));
}

#[test]
fn invalid_json_is_an_invalid_source() {
    assert!(matches!(parse_json("{not json"), Err(CliError::InvalidSource(_))));
}

#[test]
fn collections_by_preview() {
    assert_eq!(collection_name(true), "nimbus-preview");
    assert_eq!(collection_name(false), "nimbus-mobile-experiments");
}

#[test]
fn feature_files_make_a_one_branch_experiment() {
    let files = vec![
        json(r#"{"homescreen":{"enabled":false,"title":"a"}}"#),
        json(r#"{"homescreen":{"enabled":true}}"#),
    ];
    let rec = create_experiment(&fenix(), &"homescreen".to_string(), files).unwrap();
    assert!(validate_record(&rec).is_ok());
    assert_eq!(rec.get_str(Field::Slug).unwrap(), "homescreen-feature-test");
    assert_eq!(rec.get_str(Field::AppName).unwrap(), "fenix");
    let branches = rec.get_array(Field::Branches).unwrap();
    assert_eq!(slugs(branches), vec!["treatment".to_string()]);
    assert_eq!(
        to_json_text(branches[0].get(&"features".to_string()).unwrap()),
        r#"[{"featureId":"homescreen","value":{"enabled":true,"title":"a"}}]"#
    );
    let missing = vec![json(r#"{"other":{}}"#)];
    match create_experiment(&fenix(), &"homescreen".to_string(), missing) {
        Err(CliError::InvalidSource(s)) => assert_eq!(s, "homescreen"),
        other => panic!("unexpected {:?}", other),
    }
}
