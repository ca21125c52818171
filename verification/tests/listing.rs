use list_buckets::listing::{show_buckets, Step};
use list_buckets::report::{join_lines, Bucket, Report};

fn named(name: &str) -> Bucket {
    Bucket { name: Some(name.to_string()) }
}

fn located(place: &str) -> Result<Option<String>, String> {
    Ok(Some(place.to_string()))
}

fn text(report: &Report) -> String {
    join_lines(&report.lines())
}

/// Runs a listing to its end, answering each lookup from `places` by the
/// position of the lookup, and records the names that were asked about.
fn run(
    strict: bool,
    buckets: Vec<Bucket>,
    places: Vec<Result<Option<String>, String>>,
    region: &str,
    asked: &mut Vec<String>,
) -> Result<Report, String> {
    let mut step = show_buckets(strict, Ok(buckets), region);
    let mut places = places.into_iter();
    loop {
        match step {
            Step::Locate(lookup) => {
                asked.push(lookup.bucket_name());
                let answer = places.next().expect("one answer for each lookup");
                step = lookup.answer(answer);
            }
            Step::Done(report) => return Ok(report),
            Step::Failed(failure) => return Err(failure),
        }
    }
}

#[test]
fn all_buckets_are_listed_with_their_count() {
    let mut asked = Vec::new();
    let report = run(false, vec![named("alpha"), named("beta")], vec![], "us-east-1", &mut asked)
        .unwrap();
    assert_eq!(text(&report), "alpha\nbeta\n\nFound 2 buckets in all regions.");
    assert_eq!(report.names, vec!["alpha".to_string(), "beta".to_string()]);
    assert!(asked.is_empty());
}

#[test]
fn listing_of_all_buckets_is_done_with_its_first_step() {
    let step = show_buckets::<String>(false, Ok(vec![named("alpha"), named("beta")]), "eu-west-1");
    assert!(matches!(step, Step::Done(_)));
}

#[test]
fn only_buckets_in_the_region_are_listed() {
    let mut asked = Vec::new();
    let report = run(
        true,
        vec![named("alpha"), named("beta")],
        vec![located("us-east-1"), located("eu-west-1")],
        "us-east-1",
        &mut asked,
    )
    .unwrap();
    assert_eq!(
        text(&report),
        "alpha\n\nFound 1 buckets in the us-east-1 region out of a total of 2 buckets."
    );
    assert_eq!(asked, vec!["alpha".to_string(), "beta".to_string()]);
}

#[test]
fn report_lines_are_names_then_blank_then_summary() {
    let mut asked = Vec::new();
    let report = run(false, vec![named("alpha"), named("beta")], vec![], "us-east-1", &mut asked)
        .unwrap();
    assert_eq!(
        report.lines(),
        vec![
            "alpha".to_string(),
            "beta".to_string(),
            String::new(),
            "Found 2 buckets in all regions.".to_string(),
        ]
    );
}

#[test]
fn no_buckets_listing_all() {
    let mut asked = Vec::new();
    let report = run(false, vec![], vec![], "us-east-1", &mut asked).unwrap();
    assert!(report.names.is_empty());
    assert_eq!(text(&report), "\nFound 0 buckets in all regions.");
}

#[test]
fn no_buckets_held_to_a_region() {
    let mut asked = Vec::new();
    let report = run(true, vec![], vec![], "us-east-1", &mut asked).unwrap();
    assert!(report.names.is_empty());
    assert!(asked.is_empty());
    assert_eq!(
        text(&report),
        "\nFound 0 buckets in the us-east-1 region out of a total of 0 buckets."
    );
}

#[test]
fn no_buckets_held_to_a_region_is_done_with_its_first_step() {
    let step = show_buckets::<String>(true, Ok(vec![]), "us-east-1");
    assert!(matches!(step, Step::Done(_)));
}

#[test]
fn a_bucket_without_a_name_is_an_empty_line() {
    let mut asked = Vec::new();
    let report = run(
        false,
        vec![named("alpha"), Bucket { name: None }, named("gamma")],
        vec![],
        "us-east-1",
        &mut asked,
    )
    .unwrap();
    assert_eq!(text(&report), "alpha\n\ngamma\n\nFound 3 buckets in all regions.");
}

#[test]
fn a_bucket_without_a_name_is_looked_up_by_the_empty_name() {
    let mut asked = Vec::new();
    let report = run(
        true,
        vec![Bucket { name: None }],
        vec![located("us-east-1")],
        "us-east-1",
        &mut asked,
    )
    .unwrap();
    assert_eq!(asked, vec![String::new()]);
    assert_eq!(report.names, vec![String::new()]);
    assert_eq!(
        text(&report),
        "\n\nFound 1 buckets in the us-east-1 region out of a total of 1 buckets."
    );
}

#[test]
fn a_failed_list_request_fails_the_listing() {
    let step = show_buckets(false, Err("access denied".to_string()), "us-east-1");
    match step {
        Step::Failed(failure) => assert_eq!(failure, "access denied"),
        _ => panic!("the listing went on after its request failed"),
    }
    let step = show_buckets(true, Err("throttled".to_string()), "us-east-1");
    match step {
        Step::Failed(failure) => assert_eq!(failure, "throttled"),
        _ => panic!("the listing went on after its request failed"),
    }
}

#[test]
fn a_failed_lookup_fails_the_listing_without_a_report() {
    let mut asked = Vec::new();
    let outcome = run(
        true,
        vec![named("alpha"), named("beta"), named("gamma")],
        vec![located("us-east-1"), Err("no such bucket".to_string()), located("us-east-1")],
        "us-east-1",
        &mut asked,
    );
    assert_eq!(outcome.err(), Some("no such bucket".to_string()));
    assert_eq!(asked, vec!["alpha".to_string(), "beta".to_string()]);
}

#[test]
fn a_failed_first_lookup_fails_the_listing() {
    let mut asked = Vec::new();
    let outcome = run(
        true,
        vec![named("alpha"), named("beta")],
        vec![Err("timed out".to_string())],
        "us-east-1",
        &mut asked,
    );
    assert_eq!(outcome.err(), Some("timed out".to_string()));
    assert_eq!(asked, vec!["alpha".to_string()]);
}

#[test]
fn the_region_is_held_against_the_location_as_written() {
    let mut asked = Vec::new();
    let report = run(
        true,
        vec![named("upper"), named("spaced"), named("longer"), named("exact")],
        vec![
            located("US-EAST-1"),
            located(" us-east-1"),
            located("us-east-10"),
            located("us-east-1"),
        ],
        "us-east-1",
        &mut asked,
    )
    .unwrap();
    assert_eq!(report.names, vec!["exact".to_string()]);
    assert_eq!(
        report.summary,
        "Found 1 buckets in the us-east-1 region out of a total of 4 buckets."
    );
}

#[test]
fn an_empty_location_is_no_special_region() {
    let mut asked = Vec::new();
    let report = run(
        true,
        vec![named("legacy"), named("unset"), named("plain")],
        vec![located(""), Ok(None), located("us-east-1")],
        "us-east-1",
        &mut asked,
    )
    .unwrap();
    assert_eq!(report.names, vec!["plain".to_string()]);
    assert_eq!(
        text(&report),
        "plain\n\nFound 1 buckets in the us-east-1 region out of a total of 3 buckets."
    );
}

#[test]
fn an_empty_location_is_an_empty_region_character_for_character() {
    let mut asked = Vec::new();
    let report = run(
        true,
        vec![named("legacy"), named("unset"), named("plain")],
        vec![located(""), Ok(None), located("us-east-1")],
        "",
        &mut asked,
    )
    .unwrap();
    assert_eq!(report.names, vec!["legacy".to_string(), "unset".to_string()]);
    assert_eq!(
        report.summary,
        "Found 2 buckets in the  region out of a total of 3 buckets."
    );
}

#[test]
fn buckets_are_kept_in_the_order_of_the_answer() {
    let mut asked = Vec::new();
    let report = run(
        true,
        vec![named("zeta"), named("alpha"), named("mid"), named("beta")],
        vec![
            located("eu-west-1"),
            located("us-east-1"),
            located("eu-west-1"),
            located("eu-west-1"),
        ],
        "eu-west-1",
        &mut asked,
    )
    .unwrap();
    assert_eq!(
        asked,
        vec!["zeta".to_string(), "alpha".to_string(), "mid".to_string(), "beta".to_string()]
    );
    assert_eq!(
        text(&report),
        "zeta\nmid\nbeta\n\nFound 3 buckets in the eu-west-1 region out of a total of 4 buckets."
    );
}

#[test]
fn the_count_shown_is_the_number_of_names_listed() {
    let mut buckets = Vec::new();
    for i in 0..12 {
        buckets.push(named(&format!("bucket-{}", i)));
    }
    let mut asked = Vec::new();
    let report = run(false, buckets, vec![], "us-east-1", &mut asked).unwrap();
    assert_eq!(report.names.len(), 12);
    assert_eq!(report.names[11], "bucket-11");
    assert_eq!(report.summary, "Found 12 buckets in all regions.");
    assert_eq!(report.lines().len(), 14);
}

#[test]
fn the_count_found_is_the_number_of_names_listed_and_at_most_the_total() {
    let mut buckets = Vec::new();
    let mut places = Vec::new();
    for i in 0..25 {
        buckets.push(named(&format!("bucket-{}", i)));
        places.push(located(if i % 2 == 0 { "ap-south-1" } else { "us-west-2" }));
    }
    let mut asked = Vec::new();
    let report = run(true, buckets, places, "ap-south-1", &mut asked).unwrap();
    assert_eq!(asked.len(), 25);
    assert_eq!(report.names.len(), 13);
    assert!(report.names.len() <= 25);
    assert_eq!(report.names[12], "bucket-24");
    assert_eq!(
        report.summary,
        "Found 13 buckets in the ap-south-1 region out of a total of 25 buckets."
    );
}

#[test]
fn a_name_returned_twice_is_listed_and_counted_twice() {
    let mut asked = Vec::new();
    let report = run(
        true,
        vec![named("twin"), named("twin")],
        vec![located("us-east-1"), located("us-east-1")],
        "us-east-1",
        &mut asked,
    )
    .unwrap();
    assert_eq!(
        text(&report),
        "twin\ntwin\n\nFound 2 buckets in the us-east-1 region out of a total of 2 buckets."
    );
}

#[test]
fn a_listing_run_twice_prints_the_same() {
    let buckets = vec![named("alpha"), named("beta"), named("gamma")];
    let places = vec![located("us-east-1"), located("eu-west-1"), located("us-east-1")];
    for strict in [false, true] {
        let mut first_asked = Vec::new();
        let mut second_asked = Vec::new();
        let first =
            run(strict, buckets.clone(), places.clone(), "us-east-1", &mut first_asked).unwrap();
        let second =
            run(strict, buckets.clone(), places.clone(), "us-east-1", &mut second_asked).unwrap();
        assert_eq!(text(&first), text(&second));
        assert_eq!(first.names, second.names);
        assert_eq!(first.summary, second.summary);
        assert_eq!(first_asked, second_asked);
    }
}

#[test]
fn no_bucket_in_the_region() {
    let mut asked = Vec::new();
    let report = run(
        true,
        vec![named("alpha"), named("beta")],
        vec![located("eu-west-1"), located("eu-central-1")],
        "us-east-1",
        &mut asked,
    )
    .unwrap();
    assert_eq!(
        text(&report),
        "\nFound 0 buckets in the us-east-1 region out of a total of 2 buckets."
    );
}
