use passwd::environ::{environ_removals, filter_environ, must_remove_var};

fn vars(pairs: &[(&str, &str)]) -> Vec<(String, String)> {
    pairs.iter().map(|(k, v)| (k.to_string(), v.to_string())).collect()
}

fn names(vs: &[(String, String)]) -> Vec<String> {
    vs.iter().map(|(k, _)| k.clone()).collect()
}

fn verify_environ(kept: &[(String, String)], wantlang: bool) {
    let mut found_xxx = false;
    let mut found_yyy = false;
    let mut found_lang = false;
    let mut found_lca = false;
    let mut found_extra = false;
    for (key, _) in kept {
        match key.as_str() {
            "XXX" => found_xxx = true,
            "YYY" => found_yyy = true,
            "LANG" => found_lang = true,
            "LC_A" => found_lca = true,
            _ => found_extra = true,
        }
    }
    assert_eq!(found_xxx, true);
    assert_eq!(found_yyy, true);
    assert_eq!(found_extra, false);
    assert_eq!(found_lang, wantlang);
    assert_eq!(found_lca, wantlang);
}

#[test]
fn test_env() {
    let first = vars(&[
        ("XXX", "xxx"),
        ("YYY", "yyy"),
        ("ENV", "1"),
        ("LD_A", "1"),
        ("LANG", "1"),
        ("LC_A", "1"),
    ]);
    verify_environ(&filter_environ(&first), true);

    let second = vars(&[
        ("XXX", "xxx"),
        ("YYY", "yyy"),
        ("LANG", "./bad/wolf"),
        ("LC_A", "./bad/wolf"),
    ]);
    verify_environ(&filter_environ(&second), false);
}

#[test]
fn exact_denied_name_is_removed() {
    assert!(must_remove_var("ENV", "1"));
    let kept = filter_environ(&vars(&[("ENV", "1")]));
    assert!(kept.is_empty());
    for name in [
        "_RLD_", "BASH_ENV", "ENV", "HOME", "IFS", "KRB_CONF", "LIBPATH", "MAIL", "NLSPATH",
        "PATH", "SHELL", "SHLIB_PATH",
    ] {
        assert!(must_remove_var(name, "plain"), "{name}");
    }
}

#[test]
fn denied_prefix_is_removed() {
    assert!(must_remove_var("LD_PRELOAD", "x"));
    assert!(must_remove_var("LD_LIBRARY_PATH", "/lib"));
    let kept = filter_environ(&vars(&[("LD_PRELOAD", "x")]));
    assert!(kept.is_empty());
}

#[test]
fn guarded_names_removed_only_with_slash() {
    assert!(!must_remove_var("LANG", "en_US"));
    assert!(must_remove_var("LANG", "./evil"));
    assert!(!must_remove_var("LANGUAGE", "de"));
    assert!(must_remove_var("LANGUAGE", "/x"));
    assert!(!must_remove_var("LC_ALL", "C"));
    assert!(must_remove_var("LC_ALL", "a/b"));
}

#[test]
fn unrelated_names_survive() {
    assert!(!must_remove_var("XXX", "xxx"));
    assert!(!must_remove_var("XXX", "/with/slash"));
    assert!(!must_remove_var("PATHX", "1"));
    assert!(!must_remove_var("LANGX", "/a"));
    assert!(!must_remove_var("", ""));
}

#[test]
fn sanitizing_twice_keeps_the_same_set() {
    let all = vars(&[
        ("XXX", "xxx"),
        ("PATH", "/bin"),
        ("LANG", "./bad"),
        ("LC_TIME", "C"),
        ("LD_X", "1"),
        ("YYY", "yyy"),
    ]);
    let once = filter_environ(&all);
    let twice = filter_environ(&once);
    assert_eq!(once, twice);
    assert_eq!(names(&once), vec!["XXX", "LC_TIME", "YYY"]);
}

#[test]
fn removals_list_every_removed_name_in_order() {
    let all = vars(&[
        ("XXX", "xxx"),
        ("PATH", "/bin"),
        ("LANG", "./bad"),
        ("LC_TIME", "C"),
        ("LD_X", "1"),
    ]);
    assert_eq!(environ_removals(&all), vec!["PATH", "LANG", "LD_X"]);
    assert!(environ_removals(&Vec::new()).is_empty());
}
