use remotty::attachment_file::{
    ensure_within_limit, file_extension_from_name, file_name_from_path, file_stem_from_name,
    is_windows_reserved_name, sanitize_extension, sanitize_file_component, validate_download_limit,
};
use remotty::ids::{uuid_v5_hyphenated, uuid_v5_simple};
use remotty::service::{
    format_service_status, service_name, service_run_args,
    service_working_directory, ServiceState,
};
use remotty::version::{compare_versions, numeric_version_parts};

fn chars(s: &str) -> Vec<char> {
    s.chars().collect()
}

#[test]
fn file_names_take_the_last_non_blank_segment() {
    assert_eq!(file_name_from_path(&chars("a/b\\c.txt")), Some(chars("c.txt")));
    assert_eq!(file_name_from_path(&chars("a/b/  /")), Some(chars("b")));
    assert_eq!(file_name_from_path(&chars(" / ")), None);
    assert_eq!(file_stem_from_name(&chars("dir/archive.tar.gz")), Some(chars("archive.tar")));
    assert_eq!(file_stem_from_name(&chars(".bashrc")), Some(chars(".bashrc")));
    assert_eq!(file_extension_from_name(&chars("dir/archive.tar.gz")), Some(chars("gz")));
    assert_eq!(file_extension_from_name(&chars("name.")), None);
    assert_eq!(file_extension_from_name(&chars("name")), None);
}

#[test]
fn sanitizing_replaces_unsafe_characters() {
    assert_eq!(sanitize_file_component("a<b>  c", "x", 80), "a_b_c");
    assert_eq!(sanitize_file_component("..", "fallback", 80), "fallback");
    assert_eq!(sanitize_file_component("abcdef", "x", 3), "abc");
    assert_eq!(sanitize_file_component("nul", "x", 80), "_nul");
    assert_eq!(sanitize_extension(&chars("_P-D F_")), chars("p_d_f"));
    assert!(is_windows_reserved_name(&chars("lpt9")));
    assert!(!is_windows_reserved_name(&chars("lpt10")));
}

#[test]
fn download_limits() {
    assert_eq!(
        validate_download_limit(0),
        Err("telegram attachment download limit must be greater than zero".to_owned())
    );
    assert!(validate_download_limit(1).is_ok());
    assert!(ensure_within_limit(None, 10, "f").is_ok());
    assert!(ensure_within_limit(Some(10), 10, "f").is_ok());
    assert_eq!(
        ensure_within_limit(Some(11), 10, "f"),
        Err("telegram file f exceeds download limit of 10 bytes".to_owned())
    );
    assert_eq!(
        ensure_within_limit(Some(-1), 10, "f"),
        Err("telegram file f returned invalid negative size".to_owned())
    );
}

#[test]
fn uuid_text_forms_match_the_uuid_crate() {
    let uuid = uuid::Uuid::new_v5(&uuid::Uuid::NAMESPACE_URL, b"remotty");
    assert_eq!(uuid_v5_hyphenated(b"remotty"), uuid.to_string());
    assert_eq!(uuid_v5_simple(b"remotty"), uuid.simple().to_string());
}

#[test]
fn format_service_status_reports_reason_when_present() {
    assert_eq!(
        format_service_status(&ServiceState::Stopped(Some("manual".to_owned()))),
        "stopped (manual)"
    );
    assert_eq!(
        format_service_status(&ServiceState::Running),
        "running"
    );
    assert_eq!(
        format_service_status(&ServiceState::NotInstalled),
        "not_installed"
    );
    assert_eq!(format_service_status(&ServiceState::Stopped(None)), "stopped");
}

#[test]
fn service_install_arguments() {
    assert_eq!(service_name(), "codex_telegram_bridge");
    assert_eq!(
        service_run_args("C:/workspace/bridge.toml"),
        vec![
            "service".to_owned(),
            "run".to_owned(),
            "--config".to_owned(),
            "C:/workspace/bridge.toml".to_owned(),
        ]
    );
    assert_eq!(
        service_working_directory(Some("C:/workspace".to_owned())),
        Ok("C:/workspace".to_owned())
    );
    assert!(service_working_directory(None).is_err());
}

#[test]
fn versions_compare_numerically() {
    assert_eq!(numeric_version_parts("1.20.3.4"), [1, 20, 3]);
    assert_eq!(numeric_version_parts("2"), [2, 0, 0]);
    assert_eq!(numeric_version_parts("x.5"), [0, 5, 0]);
    assert_eq!(compare_versions("0.118.0", "0.99.9"), std::cmp::Ordering::Greater);
    assert_eq!(compare_versions("1.2", "1.2.0"), std::cmp::Ordering::Equal);
}

#[test]
fn version_order_is_total_and_antisymmetric() {
    let versions = ["0.118.0", "0.99.9", "1.2", "1.2.0", "0.118.1"];
    for a in versions {
        assert_eq!(compare_versions(a, a), std::cmp::Ordering::Equal);
        for b in versions {
            assert_eq!(compare_versions(a, b), compare_versions(b, a).reverse());
        }
    }
}
