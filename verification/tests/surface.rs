use warp_context::codebase_index::{
    chunk_code, clean_up_snapshot_files, snapshot_path, has_snapshot, CodebaseIndexFinishedStatus, CodebaseIndexStatus,
    CodebaseIndexingError, RetrievalID, RetrieveFileError, SyncProgress, migrate_snapshots_to_secure_dir_if_needed, snapshot_dir, split_snapshot_metadata_by_validity, CodebaseIndexManager,
    FlushFragmentResult, FragmentLocation, FragmentMetadata,
};
use std::collections::hash_map::DefaultHasher;
use std::hash::{Hash, Hasher};
use warp_context::computer_use::is_supported_on_current_platform;
use warp_context::persistence::{database_file_path, read_only_database_url};
use warp_context::onboarding::{
    current_onboarding_auth_state, AgentAutonomy, AgentDevelopmentSettings, LLMId,
    OnboardingAuthState, OnboardingCalloutView, OnboardingIntention, OnboardingKeybindings,
    OnboardingQuery, ProjectOnboardingSettings, SelectedSettings, SessionDefault,
    UICustomizationSettings,
};
use warp_context::secrets::{
    issue_gcp_workload_identity_federation_token, GcpCredentials, GcpFederationConfig,
    GcpWorkloadIdentityFederationError, GcpWorkloadIdentityFederationToken, ManagedSecretType,
    ManagedSecretValue, PrepareGcpCredentialsError, TaskIdentityToken,
};
use warp_context::server::{
    get_user_facing_error_message, FirebaseError, UserFacingError, UserFacingErrorDetail,
    UserFacingErrorInterface,
};
use warp_context::toolbar::{HeaderToolbarItemKind, Icon};

#[test]
fn toolbar_labels_icons_and_defaults() {
    assert_eq!(HeaderToolbarItemKind::TabsPanel.display_label(), "Tabs Panel");
    assert_eq!(HeaderToolbarItemKind::NotificationsMailbox.display_label(), "Notifications");
    assert_eq!(HeaderToolbarItemKind::AgentManagement.icon(), Icon::Grid);
    assert_eq!(HeaderToolbarItemKind::CodeReview.icon(), Icon::Diff);
    assert!(HeaderToolbarItemKind::TabsPanel.is_panel() && HeaderToolbarItemKind::CodeReview.is_panel() && !HeaderToolbarItemKind::ToolsPanel.is_panel());
    assert_eq!(HeaderToolbarItemKind::default_left(), vec![HeaderToolbarItemKind::TabsPanel, HeaderToolbarItemKind::AgentManagement]);
    assert_eq!(HeaderToolbarItemKind::default_right(), vec![HeaderToolbarItemKind::CodeReview, HeaderToolbarItemKind::NotificationsMailbox]);
    assert_eq!(
        HeaderToolbarItemKind::all_items(),
        vec![HeaderToolbarItemKind::TabsPanel, HeaderToolbarItemKind::ToolsPanel, HeaderToolbarItemKind::AgentManagement, HeaderToolbarItemKind::CodeReview, HeaderToolbarItemKind::NotificationsMailbox]
    );
}

#[test]
fn only_tabs_panel_can_be_supported() {
    assert!(HeaderToolbarItemKind::TabsPanel.is_supported(true, true));
    assert!(!HeaderToolbarItemKind::TabsPanel.is_supported(true, false));
    assert!(!HeaderToolbarItemKind::TabsPanel.is_supported(false, true));
    for k in HeaderToolbarItemKind::all_items() {
        assert_eq!(k.is_available(true, true), k == HeaderToolbarItemKind::TabsPanel);
    }
}

#[test]
fn every_toolbar_item_is_listed_once_and_defaults_are_disjoint() {
    let all = HeaderToolbarItemKind::all_items();
    for (i, a) in all.iter().enumerate() {
        for b in &all[i + 1..] {
            assert_ne!(a, b);
        }
    }
    for k in HeaderToolbarItemKind::default_left() {
        assert!(!HeaderToolbarItemKind::default_right().contains(&k));
        assert!(all.contains(&k));
    }
}

#[test]
fn onboarding_names_and_defaults() {
    assert_eq!(OnboardingIntention::AgentDrivenDevelopment.to_string(), "agent_driven");
    assert_eq!(OnboardingIntention::Terminal.to_string(), "terminal");
    assert_eq!(SessionDefault::default(), SessionDefault::Agent);
    assert_eq!(SessionDefault::Terminal.to_string(), "terminal");
    assert_eq!(AgentAutonomy::default(), AgentAutonomy::Partial);
    assert_eq!(AgentAutonomy::NoAutonomy.to_string(), "none");
    assert_eq!(AgentAutonomy::Full.to_string(), "full");
    let a = UICustomizationSettings::agent_defaults();
    assert!(a.use_vertical_tabs && a.show_warp_drive && a.show_code_review_button);
    let t = UICustomizationSettings::terminal_defaults();
    assert!(!t.use_vertical_tabs && !t.show_global_search && !t.show_project_explorer);
    assert!(!a.tools_panel_enabled(&OnboardingIntention::Terminal));
}

#[test]
fn agent_settings_start_from_the_default_model() {
    let id = LLMId { id: "model-x".to_string() };
    let s = AgentDevelopmentSettings::new(id.clone());
    assert_eq!(s.selected_model_id, id);
    assert_eq!(s.autonomy, Some(AgentAutonomy::Partial));
    assert!(s.cli_agent_toolbar_enabled && s.show_agent_notifications && !s.disable_oz);
    assert_eq!(s.session_default, SessionDefault::Agent);
    let sel = SelectedSettings::AgentDrivenDevelopment {
        agent_settings: s,
        project_settings: ProjectOnboardingSettings::from_path(Some("/p".to_string())),
        ui_customization: None,
    };
    assert!(!sel.is_ai_enabled() && !sel.is_warp_drive_enabled());
}

#[test]
fn project_settings_from_path() {
    assert_eq!(ProjectOnboardingSettings::from_path(None), ProjectOnboardingSettings::NoProject);
    assert_eq!(ProjectOnboardingSettings::default(), ProjectOnboardingSettings::NoProject);
    assert_eq!(
        ProjectOnboardingSettings::from_path(Some("/w".to_string())),
        ProjectOnboardingSettings::Project {
            selected_local_folder: "/w".to_string(),
            initialize_projects_automatically: true,
        }
    );
}

#[test]
fn auth_state_from_session() {
    assert_eq!(current_onboarding_auth_state(true, Some(true)), OnboardingAuthState::LoggedOut);
    assert_eq!(current_onboarding_auth_state(false, Some(true)), OnboardingAuthState::PayingUser);
    assert_eq!(current_onboarding_auth_state(false, Some(false)), OnboardingAuthState::FreeUser);
    assert_eq!(current_onboarding_auth_state(false, None), OnboardingAuthState::FreeUser);
}

#[test]
fn onboarding_callout_is_never_active() {
    let keys = OnboardingKeybindings {
        toggle_input_mode: "⌘I".to_string(),
        ..OnboardingKeybindings::default()
    };
    let mut v = OnboardingCalloutView::new_universal_input(true, true, keys);
    assert_eq!(v.keybindings.toggle_input_mode, "⌘I");
    v.start_onboarding();
    assert!(!v.is_onboarding_active() && !v.has_project() && !v.should_position_above_zero_state());
    assert_eq!(v.prompt_string(), "");
    assert!(matches!(v.prompt(), OnboardingQuery::NoQuery));
}

#[test]
fn secret_values_and_their_kinds() {
    let v = ManagedSecretValue::raw_value("s3cret".to_string());
    assert_eq!(v.secret_type(), ManagedSecretType::RawValue);
    assert!(matches!(v, ManagedSecretValue::RawValue { ref value } if value == "s3cret"));
    let v = ManagedSecretValue::anthropic_api_key("k".to_string());
    assert_eq!(v.secret_type(), ManagedSecretType::AnthropicApiKey);
    let v = ManagedSecretValue::anthropic_bedrock_access_key(
        "id".to_string(),
        "secret".to_string(),
        None,
        "us-east-1".to_string(),
    );
    assert_eq!(v.secret_type(), ManagedSecretType::AnthropicBedrockAccessKey);
    match v {
        ManagedSecretValue::AnthropicBedrockAccessKey { aws_access_key_id, aws_session_token, aws_region, .. } => {
            assert_eq!(aws_access_key_id, "id");
            assert_eq!(aws_session_token, None);
            assert_eq!(aws_region, "us-east-1");
        }
        _ => panic!("wrong variant"),
    }
    let v = ManagedSecretValue::anthropic_bedrock_api_key("t".to_string(), "eu".to_string());
    assert_eq!(v.secret_type(), ManagedSecretType::AnthropicBedrockApiKey);
}

#[test]
fn gcp_federation_is_disabled() {
    let config = GcpFederationConfig {
        project_number: "1".to_string(),
        pool_id: "p".to_string(),
        provider_id: "q".to_string(),
        service_account_email: None,
        token_lifetime: None,
    };
    assert!(matches!(GcpCredentials::federated("task", &config), Err(PrepareGcpCredentialsError::NoBinaryPath)));
    assert!(GcpCredentials.cleanup().is_ok());
    assert_eq!(PrepareGcpCredentialsError::NoBinaryPath.to_string(), "warp-lite: GCP federation is disabled");
    let err = issue_gcp_workload_identity_federation_token(
        "aud".to_string(),
        "t".to_string(),
        std::time::Duration::from_secs(60),
    )
    .unwrap_err();
    assert_eq!(err.message, "warp-lite: identity federation is disabled");
    assert_eq!(err.code, "TOKEN_ISSUANCE_FAILED");
    assert_eq!(err.version, 1);
    assert!(!err.success);
}

#[test]
fn federation_results_carry_version_and_token() {
    let e = GcpWorkloadIdentityFederationError::new("boom".to_string());
    assert_eq!((e.version, e.success, e.code.as_str(), e.message.as_str()), (1, false, "TOKEN_ISSUANCE_FAILED", "boom"));
    let token = TaskIdentityToken { token: "jwt".to_string(), expires_at: 1_700_000_000, issuer: "i".to_string() };
    let t = GcpWorkloadIdentityFederationToken::new(token, "urn:x".to_string());
    assert_eq!(t.version, 1);
    assert!(t.success);
    assert_eq!(t.token_type, "urn:x");
    assert_eq!(t.id_token, "jwt");
    assert_eq!(t.expiration_time, 1_700_000_000);
}

#[test]
fn firebase_error_display() {
    let e = FirebaseError { code: 400, message: "INVALID_REFRESH_TOKEN".to_string() };
    assert_eq!(e.to_string(), "Firebase request failed with status 400 and message: INVALID_REFRESH_TOKEN");
    let e = FirebaseError { code: -7, message: String::new() };
    assert_eq!(e.to_string(), "Firebase request failed with status -7 and message: ");
    let e = FirebaseError { code: i32::MIN, message: "m".to_string() };
    assert_eq!(e.to_string(), "Firebase request failed with status -2147483648 and message: m");
}

#[test]
fn user_facing_error_message_is_the_errors_own() {
    let detail = |m: &str| UserFacingErrorDetail { message: m.to_string() };
    let e = UserFacingError { error: UserFacingErrorInterface::BudgetExceededError(detail("over budget")) };
    assert_eq!(get_user_facing_error_message(e), "over budget");
    let e = UserFacingError { error: UserFacingErrorInterface::Unknown(detail("fallback")) };
    assert_eq!(get_user_facing_error_message(e), "fallback");
}

#[test]
fn computer_use_is_unsupported() {
    assert!(!is_supported_on_current_platform());
}

#[test]
fn fragment_sizes_and_flush_totals() {
    let f = |start, end| FragmentMetadata {
        absolute_path: "/a.rs".to_string(),
        location: FragmentLocation { start_line: 1, end_line: 2, byte_range_start: start, byte_range_end: end },
    };
    assert_eq!(f(10, 25).content_byte_size(), 15);
    assert_eq!(f(25, 10).content_byte_size(), 0);
    let mut total = FlushFragmentResult::default();
    total.add_assign(FlushFragmentResult { fragment_count: 2, total_fragment_size_bytes: 100 });
    total.add_assign(FlushFragmentResult { fragment_count: 1, total_fragment_size_bytes: 5 });
    assert_eq!((total.fragment_count, total.total_fragment_size_bytes), (3, 105));
}

#[test]
fn codebase_index_manager_keeps_limits_and_indexes_nothing() {
    let mut m = CodebaseIndexManager::new(Some(3), 1000, 50);
    assert_eq!((m.max_indices, m.max_files_repo_limit, m.embedding_generation_batch_size), (Some(3), 1000, 50));
    m.update_max_limits(None, 10, 20);
    assert_eq!((m.max_indices, m.max_files_repo_limit, m.embedding_generation_batch_size), (None, 10, 20));
    assert!(!m.can_create_new_indices());
    assert_eq!(m.num_active_indices(), 0);
    assert!(m.get_codebase_paths().is_empty());
    assert_eq!(m.root_path_for_codebase("/x"), None);
    let t = CodebaseIndexManager::new_for_test();
    assert_eq!((t.max_indices, t.max_files_repo_limit, t.embedding_generation_batch_size), (None, 0, 100));
    let (invalid, valid) = split_snapshot_metadata_by_validity(vec![1, 2, 3]);
    assert!(invalid.is_empty());
    assert_eq!(valid, vec![1, 2, 3]);
    assert!(!has_snapshot("/repo"));
    assert!(chunk_code("fn main() {}", "/a.rs").is_empty());
    clean_up_snapshot_files("/snapshots", &[1u8, 2u8]);
    assert!(migrate_snapshots_to_secure_dir_if_needed().is_ok());
    assert_eq!(snapshot_dir(), None);
}

#[test]
fn database_locations() {
    assert_eq!(database_file_path("/state"), "/state/warp.sqlite");
    assert_eq!(read_only_database_url("/state/warp.sqlite"), "file:/state/warp.sqlite?mode=ro");
}

#[test]
fn index_status_reports_last_sync() {
    let mut st = CodebaseIndexStatus {
        has_pending: true,
        has_synced_version: false,
        last_sync_successful: None,
        sync_progress: Some(SyncProgress::Syncing { completed_nodes: 3, total_nodes: 9 }),
    };
    assert!(st.has_pending());
    assert!(!st.has_synced_version());
    assert_eq!(st.last_sync_successful(), None);
    assert!(st.last_sync_result().is_none());
    assert!(matches!(st.sync_progress(), Some(SyncProgress::Syncing { completed_nodes: 3, total_nodes: 9 })));
    st.last_sync_successful = Some(CodebaseIndexFinishedStatus::Completed);
    assert_eq!(st.last_sync_successful(), Some(true));
    st.last_sync_successful =
        Some(CodebaseIndexFinishedStatus::Failed(CodebaseIndexingError::MaxDepthExceeded));
    assert_eq!(st.last_sync_successful(), Some(false));
    assert!(matches!(
        st.last_sync_result(),
        Some(CodebaseIndexFinishedStatus::Failed(CodebaseIndexingError::MaxDepthExceeded))
    ));
}

#[test]
fn manager_finds_no_index() {
    let mut m = CodebaseIndexManager::new(None, 1, 1);
    assert!(m.get_codebase_index_status_for_path("/r").is_none());
    assert!(matches!(
        m.retrieve_relevant_files("q".to_string(), "/r"),
        Err(RetrieveFileError::IndexNotFound)
    ));
    assert!(m.abort_retrieval_request("/r", RetrievalID(4)).is_ok());
    assert!(m.trigger_incremental_sync_for_path("/r").is_ok());
}

#[test]
fn snapshot_file_is_named_by_the_path_hash() {
    let mut h = DefaultHasher::new();
    std::path::Path::new("/repo").hash(&mut h);
    assert_eq!(snapshot_path("/snaps", "/repo"), format!("/snaps/snapshot_{}", h.finish()));
    assert_ne!(snapshot_path("/snaps", "/repo"), snapshot_path("/snaps", "/other"));
}

#[test]
fn secret_values_never_print_their_material() {
    let v = ManagedSecretValue::raw_value("hunter2".to_string());
    assert_eq!(v.debug_text(), "ManagedSecretValue { .. }");
    let v = ManagedSecretValue::anthropic_bedrock_api_key("tok".to_string(), "eu".to_string());
    assert!(!v.debug_text().contains("tok"));
    assert_eq!(format!("{:?}", DebugProbe), v.debug_text());
}

/// Prints what `finish_non_exhaustive` prints for a struct with no fields.
struct DebugProbe;

impl std::fmt::Debug for DebugProbe {
    fn fmt(&self, f: &mut std::fmt::Formatter) -> std::fmt::Result {
        f.debug_struct("ManagedSecretValue").finish_non_exhaustive()
    }
}
