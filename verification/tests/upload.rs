use gcsdrop::manifest::{scan, Found, Listing};
use gcsdrop::upload::{landing_path, object_names, object_path};

#[test]
fn object_path_joins_with_slashes() {
    assert_eq!(
        object_path("gcsdrop", "20260903-040506-abcd1234", "index.html"),
        "gcsdrop/20260903-040506-abcd1234/index.html"
    );
}

#[test]
fn object_path_keeps_nested_relatives() {
    assert_eq!(
        object_path("reports", "r1", "assets/style.css"),
        "reports/r1/assets/style.css"
    );
}

#[test]
fn object_path_omits_empty_prefix() {
    assert_eq!(object_path("", "r1", "index.html"), "r1/index.html");
}

fn found(rel: &[&str]) -> Found {
    Found {
        local: format!("/site/{}", rel.join("/")),
        components: rel.iter().map(|c| c.to_string()).collect(),
        size: 1,
    }
}

#[test]
fn landing_is_index_html_when_present() {
    let m = scan(
        "/site",
        Listing::Directory(vec![found(&["a.html"]), found(&["index.html"])]),
    )
    .unwrap();
    assert_eq!(landing_path("p", "r1", &m), "p/r1/index.html");
    assert_eq!(
        object_names("p", "r1", &m),
        vec!["p/r1/a.html".to_string(), "p/r1/index.html".to_string()]
    );
}

#[test]
fn landing_falls_back_to_the_first_file() {
    let m = scan(
        "/site",
        Listing::Directory(vec![found(&["b.html"]), found(&["a", "c.css"])]),
    )
    .unwrap();
    assert_eq!(m.index, None);
    assert_eq!(landing_path("", "r1", &m), "r1/b.html");
}
