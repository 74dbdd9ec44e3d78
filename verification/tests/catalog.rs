use viletech::catalog;
use viletech::catalog::{lookup_var, nice_path, substitute_vars, take_version};

#[test]
fn version_from_string() {
    let mut input = [
        "DOOM".to_string(),
        "DOOM2".to_string(),
        "weighmedown_1.2.0".to_string(),
        "none an island V1.0".to_string(),
        "bitter_arcsV0.9.3".to_string(),
        "stuck-in-the-system_v3.1".to_string(),
        "555-5555 v5a".to_string(),
        "yesterdays_pain_6-19-2022".to_string(),
        "i-am_a dagger_1.3".to_string(),
        "BROKEN_MANTRA_R3.1c".to_string(),
        "There Is Still Time 0.3tf1".to_string(),
        "setmefree-4.7.1c".to_string(),
        "Outoftheframe_1_7_0b".to_string(),
        "a c i d r a i n_716".to_string(),
    ];

    let expected = [
        ("DOOM", ""),
        ("DOOM2", ""),
        ("weighmedown", "1.2.0"),
        ("none an island", "V1.0"),
        ("bitter_arcs", "V0.9.3"),
        ("stuck-in-the-system", "v3.1"),
        ("555-5555", "v5a"),
        ("yesterdays_pain", "6-19-2022"),
        ("i-am_a dagger", "1.3"),
        ("BROKEN_MANTRA", "R3.1c"),
        ("There Is Still Time", "0.3tf1"),
        ("setmefree", "4.7.1c"),
        ("Outoftheframe", "1_7_0b"),
        ("a c i d r a i n", "716"),
    ];

    for (i, string) in input.iter_mut().enumerate() {
        let res = catalog::version_from_string(string);

        if expected[i].1.is_empty() {
            assert!(res.is_none(), "[{i}] expected nothing; returned: {}", res.unwrap());
        } else {
            assert!(
                string == expected[i].0,
                "[{i}] expected modified string: {} - actual output: {}",
                expected[i].0,
                string
            );

            let vers = res.unwrap();

            assert!(
                vers == expected[i].1,
                "[{i}] expected version: {} - actual output: {}",
                expected[i].1,
                vers
            );
        }
    }
}

#[test]
fn take_version_trims_padding_and_joins_the_rest() {
    let mut s = "mymod -_v1.2_ end".to_string();
    let found = Some(("mymod".to_string(), " -_v1.2_ ".to_string(), " end".to_string()));
    let v = take_version(&mut s, found);
    assert_eq!(v.as_deref(), Some("v1.2"));
    assert_eq!(s, "mymod end");
}

#[test]
fn take_version_without_a_match_leaves_the_string() {
    let mut s = "plain".to_string();
    assert_eq!(take_version(&mut s, None), None);
    assert_eq!(s, "plain");
}

fn env(pairs: &[(&str, &str)]) -> Vec<(String, String)> {
    pairs.iter().map(|(k, v)| (k.to_string(), v.to_string())).collect()
}

#[test]
fn nice_path_substitutes_environment_variables() {
    let vars = env(&[("FOO", "bar"), ("DIR", "/games")]);
    assert_eq!(nice_path("$FOO/x", &vars), "bar/x");
    assert_eq!(nice_path("$DIR/doom/$FOO.wad", &vars), "/games/doom/bar.wad");
    assert_eq!(nice_path("/a/$UNSET/b", &vars), "/a//b");
    assert_eq!(nice_path("", &vars), ".");
    assert_eq!(nice_path("/", &vars), "/");
    assert_eq!(nice_path("plain/path", &vars), "plain/path");
}

#[test]
fn variables_take_the_first_value_given() {
    let vars = env(&[("A", "1"), ("A", "2")]);
    assert_eq!(lookup_var(&vars, "A"), "1");
    assert_eq!(lookup_var(&vars, "B"), "");
    assert_eq!(substitute_vars("x$A$A y", &vars), "x11 y");
}
