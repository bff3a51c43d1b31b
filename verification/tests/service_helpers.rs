use star_vote::{
    alert_style, button_primary, check_combined_options_for_profanity, combine_classes,
    generate_browser_fingerprint, generate_server_fingerprint, Config, Error, ErrorCode,
};

fn names(list: &[&str]) -> Vec<String> {
    list.iter().map(|s| s.to_string()).collect()
}

#[test]
fn clean_options_pass_moderation() {
    assert!(check_combined_options_for_profanity(&names(&["Red", "Green", "Blue"])).is_ok());
}

#[test]
fn profane_option_is_flagged() {
    match check_combined_options_for_profanity(&names(&["Sushi", "fuck"])) {
        Err(msg) => assert_eq!(msg, "Possible profanity detected in option: fuck"),
        Ok(()) => panic!("expected the option to be flagged"),
    }
}

#[test]
fn profanity_split_across_options_is_flagged() {
    match check_combined_options_for_profanity(&names(&["fu", "ck"])) {
        Err(msg) => assert_eq!(msg, "Inappropriate content detected across options: fu, ck"),
        Ok(()) => panic!("expected the joined window to be flagged"),
    }
}

#[test]
fn server_fingerprint_matches_known_digest() {
    // SHA-256 of the empty input, URL-safe base64 with padding.
    assert_eq!(
        generate_server_fingerprint("", None),
        "47DEQpj8HBSa-_TImW-5JCeuQeRkm5NMpJWZG3hSuFU="
    );
}

#[test]
fn fingerprints_depend_on_their_inputs() {
    let a = generate_server_fingerprint("10.0.0.1", None);
    let b = generate_server_fingerprint("10.0.0.2", None);
    let c = generate_server_fingerprint("10.0.0.1", Some("agent"));
    assert_ne!(a, b);
    assert_ne!(a, c);
    assert_eq!(a, generate_server_fingerprint("10.0.0.1", None));
}

#[test]
fn browser_fingerprint_joins_parts_with_dashes() {
    assert_eq!(
        generate_browser_fingerprint("ua", "linux", "en"),
        generate_server_fingerprint("ua-linux-en", None)
    );
}

#[test]
fn combine_classes_inserts_one_space() {
    assert_eq!(combine_classes("a b", "c"), "a b c");
}

#[test]
fn button_primary_composes_expected_classes() {
    let narrow = button_primary(false);
    assert_eq!(
        narrow,
        "px-5 py-2 rounded-lg font-medium text-white transition-all duration-150 \
         disabled:opacity-50 disabled:cursor-not-allowed bg-blue-600 hover:bg-blue-700 \
         focus:ring-2 focus:ring-blue-400 focus:outline-none"
    );
    let full = button_primary(true);
    assert!(full.ends_with(
        "w-full py-3 px-5 font-semibold rounded-lg transition-all duration-150 \
         disabled:opacity-50 disabled:cursor-not-allowed mt-8"
    ));
}

#[test]
fn alert_style_picks_the_named_palette() {
    assert_eq!(alert_style("error"), "p-4 rounded-lg shadow-md mb-6 bg-red-500 text-white shadow-lg");
    assert_eq!(
        alert_style("success"),
        "p-4 rounded-lg shadow-md mb-6 bg-green-500 text-white shadow-lg"
    );
    assert_eq!(
        alert_style("warning"),
        "p-4 rounded-lg shadow-md mb-6 bg-yellow-500 text-white shadow-lg"
    );
    assert_eq!(alert_style("note"), "p-4 rounded-lg shadow-md mb-6 bg-blue-500 text-white shadow-lg");
}

#[test]
fn errors_carry_code_message_and_details() {
    let e = Error::new(ErrorCode::NotFound, "missing".to_string());
    assert_eq!(e.code, ErrorCode::NotFound);
    assert_eq!(e.message, "missing");
    assert!(e.details.is_none());

    let e = Error::with_details(ErrorCode::Conflict, "clash".to_string(), "again".to_string());
    assert_eq!(e.code, ErrorCode::Conflict);
    assert_eq!(e.details.as_deref(), Some("again"));
}

#[test]
fn config_points_at_the_api_root() {
    assert_eq!(Config::new().api_base_url, "/api");
}
