use rng_rename::cli::{ErrorHandlingMode, ExtensionModeSelection};
use rng_rename::compute::{
    answer_step, combine_name, extension_step, finalise_name, finalise_name_for, finalise_names,
    get_extension, keep_all_extensions, on_failure, AnswerStep, FailureAction, LookupStep,
    NameFinaliseError, PathText,
};
use rng_rename::util::{ExtensionMode, OnErrorResponse};

fn path_of(file_name: &str, extension: Option<&str>) -> PathText {
    PathText {
        shown: format!("\"/data/{file_name}\""),
        file_name: Some(file_name.to_string()),
        extension: extension.map(|ext| Some(ext.to_string())),
    }
}

#[test]
fn every_extension_is_what_follows_the_first_dot() {
    assert_eq!(keep_all_extensions("tarball.tar.xz"), Some("tar.xz".to_string()));
    assert_eq!(keep_all_extensions("photo.jpeg"), Some("jpeg".to_string()));
    assert_eq!(keep_all_extensions("a.b.c.d"), Some("b.c.d".to_string()));
    assert_eq!(keep_all_extensions("trailing."), Some(String::new()));
    assert_eq!(keep_all_extensions("é.ü"), Some("ü".to_string()));
}

#[test]
fn a_dot_that_starts_the_name_is_no_extension() {
    assert_eq!(keep_all_extensions(".bashrc"), None);
    assert_eq!(keep_all_extensions(".config.toml"), Some("toml".to_string()));
    assert_eq!(keep_all_extensions("..a"), Some("a".to_string()));
    assert_eq!(keep_all_extensions("."), None);
    assert_eq!(keep_all_extensions(".."), Some(String::new()));
}

#[test]
fn a_name_without_a_dot_has_no_extension() {
    assert_eq!(keep_all_extensions("README"), None);
    assert_eq!(keep_all_extensions(""), None);
}

#[test]
fn each_mode_gives_its_extension() {
    let path = path_of("tarball.tar.xz", Some("xz"));
    assert_eq!(get_extension(&path, &ExtensionMode::KeepAll), Ok(Some("tar.xz".to_string())));
    assert_eq!(get_extension(&path, &ExtensionMode::KeepLast), Ok(Some("xz".to_string())));
    assert_eq!(
        get_extension(&path, &ExtensionMode::Static("bin".to_string())),
        Ok(Some("bin".to_string()))
    );
    assert_eq!(get_extension(&path, &ExtensionMode::Discard), Ok(None));
    let bare = path_of("README", None);
    assert_eq!(get_extension(&bare, &ExtensionMode::KeepAll), Ok(None));
    assert_eq!(get_extension(&bare, &ExtensionMode::KeepLast), Ok(None));
    assert_eq!(
        get_extension(&bare, &ExtensionMode::Static(String::new())),
        Ok(Some(String::new()))
    );
}

#[test]
fn a_name_that_is_no_text_gives_no_extension_to_keep() {
    let opaque = PathText {
        shown: "\"/data/\\xFF.bin\"".to_string(),
        file_name: None,
        extension: Some(Some("bin".to_string())),
    };
    let not_text = NameFinaliseError::NotUtf8 { path: "\"/data/\\xFF.bin\"".to_string() };
    assert_eq!(get_extension(&opaque, &ExtensionMode::KeepAll), Err(not_text.clone()));
    assert_eq!(get_extension(&opaque, &ExtensionMode::KeepLast), Ok(Some("bin".to_string())));
    assert_eq!(get_extension(&opaque, &ExtensionMode::Discard), Ok(None));
    assert_eq!(
        get_extension(&opaque, &ExtensionMode::Static("x".to_string())),
        Ok(Some("x".to_string()))
    );
    let opaque_extension = PathText {
        shown: "\"/data/a.\\xFF\"".to_string(),
        file_name: None,
        extension: Some(None),
    };
    assert_eq!(
        get_extension(&opaque_extension, &ExtensionMode::KeepLast),
        Err(NameFinaliseError::NotUtf8 { path: "\"/data/a.\\xFF\"".to_string() })
    );
}

#[test]
fn failures_to_finalise_read_as_sentences() {
    assert_eq!(
        NameFinaliseError::NotUtf8 { path: "\"/data/x\"".to_string() }.to_string(),
        "\"/data/x\" is not UTF8"
    );
    assert_eq!(NameFinaliseError::UserHalt.to_string(), "user halt");
}

#[test]
fn the_error_mode_says_what_a_failure_leads_to() {
    assert_eq!(on_failure(ErrorHandlingMode::Ignore), FailureAction::Skip);
    assert_eq!(on_failure(ErrorHandlingMode::Warn), FailureAction::Ask);
    assert_eq!(on_failure(ErrorHandlingMode::Halt), FailureAction::Halt);
}

#[test]
fn names_are_put_together_in_order() {
    assert_eq!(combine_name("ab12", None, None, None), "ab12");
    assert_eq!(combine_name("ab12", Some("pre-"), None, None), "pre-ab12");
    assert_eq!(combine_name("ab12", None, Some("-post"), None), "ab12-post");
    assert_eq!(combine_name("ab12", None, None, Some("tar.xz")), "ab12.tar.xz");
    assert_eq!(combine_name("ab12", Some("pre-"), Some("-post"), Some("xz")), "pre-ab12-post.xz");
    assert_eq!(combine_name("", Some("p"), Some("s"), Some("")), "ps.");
    assert_eq!(combine_name("", None, None, None), "");
}

#[test]
fn final_names_are_sanitised() {
    assert_eq!(finalise_name_for("ab12", Some("a/b:"), Some("<c>"), Some("t?xt"), false), "abab12c.txt");
    assert_eq!(finalise_name_for("ab12", Some("pre-"), None, Some("xz"), false), "pre-ab12.xz");
    assert_eq!(finalise_name_for("ab12", None, None, None, true), "ab12");
    assert_eq!(finalise_name_for("con", None, None, None, true), "");
    assert_eq!(finalise_name_for("con", None, None, None, false), "con");
    assert_eq!(finalise_name_for("name", None, Some(". "), None, true), "name");
    assert_eq!(finalise_name_for("name", None, Some(". "), None, false), "name. ");
}

#[test]
fn final_names_are_never_cut_short() {
    let long = "x".repeat(300);
    assert_eq!(finalise_name_for(&long, None, None, Some("txt"), false).len(), 304);
    assert_eq!(finalise_name_for(&long, None, None, Some("txt"), true).len(), 304);
    assert_eq!(finalise_name(&long, None, None, Some("txt")).len(), 304);
}

#[test]
fn the_platform_decides_between_the_two_sets_of_rules() {
    let name = finalise_name("aux", Some("p/"), None, Some("t*t"));
    assert_eq!(name, "paux.tt");
    let reserved = finalise_name("aux", None, None, None);
    assert!(reserved == finalise_name_for("aux", None, None, None, false)
        || reserved == finalise_name_for("aux", None, None, None, true));
}

#[test]
fn every_file_keeps_its_place_when_names_are_finalised() {
    let files = vec![
        ("/data/one.txt", "aaaa".to_string(), Some("txt".to_string())),
        ("/data/two", "bb/bb".to_string(), None),
        ("/data/three.tar.gz", "cccc".to_string(), Some("tar.gz".to_string())),
    ];
    let finalised = finalise_names(files, Some("img_"), Some("_v1"));
    assert_eq!(
        finalised,
        vec![
            ("/data/one.txt", "img_aaaa_v1.txt".to_string()),
            ("/data/two", "img_bbbb_v1".to_string()),
            ("/data/three.tar.gz", "img_cccc_v1.tar.gz".to_string()),
        ]
    );
    let none: Vec<(u8, String, Option<String>)> = Vec::new();
    assert!(finalise_names(none, None, None).is_empty());
}

#[test]
fn a_mode_comes_from_a_selection_and_its_static_extension() {
    assert_eq!(
        ExtensionMode::try_from((ExtensionModeSelection::KeepAll, None)),
        Ok(ExtensionMode::KeepAll)
    );
    assert_eq!(
        ExtensionMode::try_from((ExtensionModeSelection::KeepAll, Some("x".to_string()))),
        Ok(ExtensionMode::KeepAll)
    );
    assert_eq!(
        ExtensionMode::try_from((ExtensionModeSelection::KeepLast, None)),
        Ok(ExtensionMode::KeepLast)
    );
    assert_eq!(
        ExtensionMode::try_from((ExtensionModeSelection::Discard, Some("x".to_string()))),
        Ok(ExtensionMode::Discard)
    );
    assert_eq!(
        ExtensionMode::try_from((ExtensionModeSelection::Static, Some("bin".to_string()))),
        Ok(ExtensionMode::Static("bin".to_string()))
    );
    assert_eq!(
        ExtensionMode::try_from((ExtensionModeSelection::Static, None)),
        Err("`--static-ext` should be required by clap".to_string())
    );
}

#[test]
fn modes_are_shown_by_name() {
    assert_eq!(ExtensionMode::KeepAll.to_string(), "KeepAll");
    assert_eq!(ExtensionMode::KeepLast.to_string(), "KeepLast");
    assert_eq!(ExtensionMode::Discard.to_string(), "Discard");
    assert_eq!(ExtensionMode::Static("tar.gz".to_string()).to_string(), "Static(\"tar.gz\")");
    assert_eq!(ExtensionMode::Static(String::new()).to_string(), "Static(\"\")");
}

#[test]
fn a_file_with_an_extension_to_be_had_stays_in_every_error_mode() {
    let path = path_of("tarball.tar.xz", Some("xz"));
    for err_mode in [ErrorHandlingMode::Ignore, ErrorHandlingMode::Warn, ErrorHandlingMode::Halt] {
        assert_eq!(
            extension_step(&path, &ExtensionMode::KeepAll, err_mode),
            LookupStep::Keep { ext: Some("tar.xz".to_string()) }
        );
        assert_eq!(
            extension_step(&path, &ExtensionMode::KeepLast, err_mode),
            LookupStep::Keep { ext: Some("xz".to_string()) }
        );
        assert_eq!(
            extension_step(&path, &ExtensionMode::Discard, err_mode),
            LookupStep::Keep { ext: None }
        );
    }
}

#[test]
fn a_failed_lookup_goes_the_way_of_the_error_mode() {
    let opaque = PathText { shown: "\"/data/x\"".to_string(), file_name: None, extension: None };
    let reason = NameFinaliseError::NotUtf8 { path: "\"/data/x\"".to_string() };
    assert_eq!(
        extension_step(&opaque, &ExtensionMode::KeepAll, ErrorHandlingMode::Ignore),
        LookupStep::Drop
    );
    assert_eq!(
        extension_step(&opaque, &ExtensionMode::KeepAll, ErrorHandlingMode::Warn),
        LookupStep::Ask { reason: reason.clone() }
    );
    assert_eq!(
        extension_step(&opaque, &ExtensionMode::KeepAll, ErrorHandlingMode::Halt),
        LookupStep::Fail { reason }
    );
}

#[test]
fn an_answer_leads_to_its_step() {
    assert_eq!(answer_step(OnErrorResponse::Skip), AnswerStep::Drop);
    assert_eq!(answer_step(OnErrorResponse::Retry), AnswerStep::Again);
    assert_eq!(
        answer_step(OnErrorResponse::Halt),
        AnswerStep::Fail { reason: NameFinaliseError::UserHalt }
    );
}

#[test]
fn a_failure_to_finalise_turns_into_its_text() {
    let text: String = NameFinaliseError::UserHalt.into();
    assert_eq!(text, "user halt");
    let text: String = NameFinaliseError::NotUtf8 { path: "\"/x\"".to_string() }.into();
    assert_eq!(text, "\"/x\" is not UTF8");
}
