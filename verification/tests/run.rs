use gcsdrop::adc::AdcKind;
use gcsdrop::config::from_vars;
use gcsdrop::manifest::{scan, Found, Listing};
use gcsdrop::run::{Action, Event, Run, Stage, Stop};
use gcsdrop::verify::Probe;
use std::time::Duration;

fn machine() -> Run {
    Run::new(from_vars(Some("my-bucket".into()), Some("drops".into())).unwrap())
}

fn site() -> gcsdrop::manifest::Manifest {
    scan(
        "/site",
        Listing::Directory(vec![
            Found {
                local: "/site/a.css".into(),
                components: vec!["a.css".into()],
                size: 3,
            },
            Found {
                local: "/site/index.html".into(),
                components: vec!["index.html".into()],
                size: 5,
            },
        ]),
    )
    .unwrap()
}

#[test]
fn a_successful_run_signs_uploads_checks_and_prints() {
    let mut r = machine();
    assert!(matches!(r.step(Event::Begin { expires: Some("30m".into()) }), Action::Scan));
    assert!(matches!(r.step(Event::Scanned(site())), Action::CheckCredentials));
    assert!(matches!(r.step(Event::Checked(AdcKind::Impersonated)), Action::ReadClock));
    let signed_object = match r.step(Event::Clock { now_secs: 0 }) {
        Action::Sign { object, ttl } => {
            assert_eq!(ttl, Duration::from_secs(1800));
            object
        }
        _ => panic!("expected a signing step"),
    };
    assert!(signed_object.starts_with("drops/19700101-000000-"), "{signed_object}");
    assert!(signed_object.ends_with("/index.html"), "{signed_object}");
    match r.step(Event::Signed("https://example/u".into())) {
        Action::Upload { manifest, names } => {
            assert_eq!(manifest.entries.len(), 2);
            assert!(names.contains(&signed_object));
            assert!(names[0].ends_with("/a.css"));
        }
        _ => panic!("expected an upload step"),
    }
    match r.step(Event::Uploaded) {
        Action::Fetch { url } => assert_eq!(url, "https://example/u"),
        _ => panic!("expected a fetch step"),
    }
    match r.step(Event::Probed(Probe::from_response(206, None))) {
        Action::Print { url } => assert_eq!(url, "https://example/u"),
        _ => panic!("expected the link to be printed"),
    }
    assert!(matches!(r.stage, Stage::Finished));
}

#[test]
fn credentials_that_cannot_sign_stop_before_anything_is_uploaded() {
    let mut r = machine();
    r.step(Event::Begin { expires: None });
    r.step(Event::Scanned(site()));
    match r.step(Event::Checked(AdcKind::AuthorizedUser)) {
        Action::Stop(Stop::Advice(msg)) => {
            assert!(msg.contains("user account, which cannot sign URLs"), "{msg}")
        }
        _ => panic!("expected the run to stop"),
    }
}

#[test]
fn a_bad_lifetime_stops_the_run_first() {
    let mut r = machine();
    match r.step(Event::Begin { expires: Some("8d".into()) }) {
        Action::Stop(Stop::Advice(msg)) => assert!(msg.contains("7 days"), "{msg}"),
        _ => panic!("expected the run to stop"),
    }
}

#[test]
fn a_failing_link_is_explained_not_printed() {
    let mut r = machine();
    r.step(Event::Begin { expires: None });
    r.step(Event::Scanned(site()));
    r.step(Event::Checked(AdcKind::MetadataServer));
    r.step(Event::Clock { now_secs: 1 });
    r.step(Event::Signed("https://example/u".into()));
    r.step(Event::Uploaded);
    match r.step(Event::Probed(Probe::from_response(403, Some("denied".into())))) {
        Action::Stop(Stop::Final(msg)) => {
            assert!(msg.contains("gs://my-bucket"), "{msg}");
            assert!(msg.ends_with("GCS said:\n\n    denied"), "{msg}");
        }
        _ => panic!("expected the run to stop"),
    }
}

#[test]
fn a_failed_operation_stops_with_its_own_error() {
    let mut r = machine();
    r.step(Event::Begin { expires: None });
    assert!(matches!(r.step(Event::Failed), Action::Stop(Stop::Outside)));
    assert!(matches!(r.stage, Stage::Finished));
}
