use refresh::mode::ServeMode;

#[test]
fn serve_mode_names_are_recognised() {
    assert_eq!(ServeMode::parse("DEPLOY_INGEST"), Some(ServeMode::DeployIngest));
    assert_eq!(ServeMode::parse("SERVE_FRESH"), Some(ServeMode::ServeFresh));
}

#[test]
fn other_serve_mode_settings_name_nothing() {
    assert_eq!(ServeMode::parse(""), None);
    assert_eq!(ServeMode::parse("deploy_ingest"), None);
    assert_eq!(ServeMode::parse("SERVE_FRESH "), None);
    assert_eq!(ServeMode::parse("DEPLOY_INGEST,SERVE_FRESH"), None);
    assert_eq!(ServeMode::parse("SERVE"), None);
    assert_eq!(ServeMode::parse("DEPLOY_INGESTX"), None);
}
