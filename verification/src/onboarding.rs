//! The typed surface of onboarding: the user's choices and the settings
//! they select. The onboarding views are inert: they render nothing and
//! emit no events.
use vstd::prelude::*;

verus! {

/// The user's intention selected during onboarding slides.
#[derive(Clone, Copy, Debug, PartialEq, Eq, Structural)]
pub enum OnboardingIntention {
    Terminal,
    AgentDrivenDevelopment,
}

impl OnboardingIntention {
    /// The telemetry name of the intention.
    pub fn to_string(&self) -> (r: String)
        ensures
            r@ == (match *self {
                OnboardingIntention::AgentDrivenDevelopment => "agent_driven"@,
                OnboardingIntention::Terminal => "terminal"@,
            }),
    {
        match self {
            OnboardingIntention::AgentDrivenDevelopment => "agent_driven".to_owned(),
            OnboardingIntention::Terminal => "terminal".to_owned(),
        }
    }
}

/// Which kind of session a new tab opens.
#[derive(Clone, Copy, Debug, PartialEq, Eq, Structural)]
pub enum SessionDefault {
    Agent,
    Terminal,
}

impl Default for SessionDefault {
    fn default() -> (r: Self)
        ensures
            r == SessionDefault::Agent,
    {
        SessionDefault::Agent
    }
}

impl SessionDefault {
    pub fn to_string(&self) -> (r: String)
        ensures
            r@ == (match *self {
                SessionDefault::Agent => "agent"@,
                SessionDefault::Terminal => "terminal"@,
            }),
    {
        match self {
            SessionDefault::Agent => "agent".to_owned(),
            SessionDefault::Terminal => "terminal".to_owned(),
        }
    }
}

#[derive(Clone, Copy, Debug, PartialEq, Eq, Structural)]
pub enum OnboardingAuthState {
    LoggedOut,
    FreeUser,
    PayingUser,
}

/// The onboarding auth state, from what the caller read of the session:
/// whether it is anonymous or logged out, and whether the current
/// workspace's billing is on a paid plan (`None` without a workspace).
pub fn current_onboarding_auth_state(is_anonymous_or_logged_out: bool, on_paid_plan: Option<bool>) -> (r:
    OnboardingAuthState)
    ensures
        is_anonymous_or_logged_out ==> r == OnboardingAuthState::LoggedOut,
        !is_anonymous_or_logged_out && on_paid_plan == Some(true) ==> r
            == OnboardingAuthState::PayingUser,
        !is_anonymous_or_logged_out && on_paid_plan != Some(true) ==> r
            == OnboardingAuthState::FreeUser,
{
    if is_anonymous_or_logged_out {
        return OnboardingAuthState::LoggedOut;
    }
    let is_on_paid_plan = match on_paid_plan {
        Some(p) => p,
        None => false,
    };
    if is_on_paid_plan {
        OnboardingAuthState::PayingUser
    } else {
        OnboardingAuthState::FreeUser
    }
}

#[derive(Clone, Debug)]
pub struct UICustomizationSettings {
    pub use_vertical_tabs: bool,
    pub show_conversation_history: bool,
    pub show_project_explorer: bool,
    pub show_global_search: bool,
    pub show_warp_drive: bool,
    pub show_code_review_button: bool,
}

/// Every customization set to `on`.
pub open spec fn all_customizations(s: UICustomizationSettings, on: bool) -> bool {
    &&& s.use_vertical_tabs == on
    &&& s.show_conversation_history == on
    &&& s.show_project_explorer == on
    &&& s.show_global_search == on
    &&& s.show_warp_drive == on
    &&& s.show_code_review_button == on
}

impl UICustomizationSettings {
    /// Everything shown.
    pub fn agent_defaults() -> (r: Self)
        ensures
            all_customizations(r, true),
    {
        UICustomizationSettings {
            use_vertical_tabs: true,
            show_conversation_history: true,
            show_project_explorer: true,
            show_global_search: true,
            show_warp_drive: true,
            show_code_review_button: true,
        }
    }

    /// Everything hidden.
    pub fn terminal_defaults() -> (r: Self)
        ensures
            all_customizations(r, false),
    {
        UICustomizationSettings {
            use_vertical_tabs: false,
            show_conversation_history: false,
            show_project_explorer: false,
            show_global_search: false,
            show_warp_drive: false,
            show_code_review_button: false,
        }
    }

    /// The tools panel is never enabled, whatever the intention.
    pub fn tools_panel_enabled(&self, _intention: &OnboardingIntention) -> (r: bool)
        ensures
            !r,
    {
        false
    }
}

/// What the user chose at the end of onboarding.
#[derive(Clone, Debug)]
pub enum SelectedSettings {
    Terminal {
        ui_customization: Option<UICustomizationSettings>,
        cli_agent_toolbar_enabled: bool,
        show_agent_notifications: bool,
    },
    AgentDrivenDevelopment {
        agent_settings: AgentDevelopmentSettings,
        project_settings: ProjectOnboardingSettings,
        ui_customization: Option<UICustomizationSettings>,
    },
}

impl SelectedSettings {
    /// AI is never enabled, whatever was selected.
    pub fn is_ai_enabled(&self) -> (r: bool)
        ensures
            !r,
    {
        false
    }

    /// Warp Drive is never enabled, whatever was selected.
    pub fn is_warp_drive_enabled(&self) -> (r: bool)
        ensures
            !r,
    {
        false
    }
}

/// The identifier of a language model, by its text.
#[derive(Clone, Debug, PartialEq, Eq)]
pub struct LLMId {
    pub id: String,
}

#[derive(Clone, Copy, Debug, PartialEq, Eq, Structural)]
pub enum AgentAutonomy {
    Full,
    Partial,
    NoAutonomy,
}

impl Default for AgentAutonomy {
    fn default() -> (r: Self)
        ensures
            r == AgentAutonomy::Partial,
    {
        AgentAutonomy::Partial
    }
}

impl AgentAutonomy {
    pub fn to_string(&self) -> (r: String)
        ensures
            r@ == (match *self {
                AgentAutonomy::Full => "full"@,
                AgentAutonomy::Partial => "partial"@,
                AgentAutonomy::NoAutonomy => "none"@,
            }),
    {
        match self {
            AgentAutonomy::Full => "full".to_owned(),
            AgentAutonomy::Partial => "partial".to_owned(),
            AgentAutonomy::NoAutonomy => "none".to_owned(),
        }
    }
}

#[derive(Clone, Debug, PartialEq, Eq)]
pub struct AgentDevelopmentSettings {
    pub selected_model_id: LLMId,
    pub autonomy: Option<AgentAutonomy>,
    pub cli_agent_toolbar_enabled: bool,
    pub session_default: SessionDefault,
    pub disable_oz: bool,
    pub show_agent_notifications: bool,
}

impl AgentDevelopmentSettings {
    /// The settings an agent-driven user starts from: the default model,
    /// partial autonomy, the CLI agent toolbar and notifications on, new
    /// sessions in agent mode.
    pub fn new(default_model_id: LLMId) -> (r: Self)
        ensures
            r.selected_model_id == default_model_id,
            r.autonomy == Some(AgentAutonomy::Partial),
            r.cli_agent_toolbar_enabled,
            r.session_default == SessionDefault::Agent,
            !r.disable_oz,
            r.show_agent_notifications,
    {
        AgentDevelopmentSettings {
            selected_model_id: default_model_id,
            autonomy: Some(AgentAutonomy::default()),
            cli_agent_toolbar_enabled: true,
            session_default: SessionDefault::Agent,
            disable_oz: false,
            show_agent_notifications: true,
        }
    }
}

#[derive(Clone, Debug, PartialEq, Eq)]
pub enum ProjectOnboardingSettings {
    NoProject,
    Project { selected_local_folder: String, initialize_projects_automatically: bool },
}

impl Default for ProjectOnboardingSettings {
    fn default() -> (r: Self)
        ensures
            r == ProjectOnboardingSettings::NoProject,
    {
        ProjectOnboardingSettings::NoProject
    }
}

impl ProjectOnboardingSettings {
    /// A chosen folder becomes a project that is initialized automatically.
    pub fn from_path(path: Option<String>) -> (r: Self)
        ensures
            path is None ==> r == ProjectOnboardingSettings::NoProject,
            path is Some ==> r == (ProjectOnboardingSettings::Project {
                selected_local_folder: path.unwrap(),
                initialize_projects_automatically: true,
            }),
    {
        match path {
            None => ProjectOnboardingSettings::NoProject,
            Some(path) => ProjectOnboardingSettings::Project {
                selected_local_folder: path,
                initialize_projects_automatically: true,
            },
        }
    }
}

/// How a slide's foreground image fits its panel.
#[derive(Clone, Copy)]
pub enum ForegroundFit {
    Width,
    Height,
}

/// Final state when the onboarding callout completes.
#[derive(Clone, Copy, Debug, PartialEq, Eq, Structural)]
pub enum FinalState {
    Submit,
    Initialize,
    Skip,
    Finish,
    BackToTerminal,
}

/// Query produced by the callout (typed by the user during the tutorial).
#[derive(Clone, Debug)]
pub enum OnboardingQuery {
    NoQuery,
    TerminalCommand(String),
    AgentPrompt(String),
}

impl Default for OnboardingQuery {
    fn default() -> (r: Self)
        ensures
            r is NoQuery,
    {
        OnboardingQuery::NoQuery
    }
}

/// Display strings for keybindings shown in the onboarding callout.
#[derive(Clone, Debug)]
pub struct OnboardingKeybindings {
    pub toggle_input_mode: String,
    pub submit_to_local_agent: String,
    pub submit_to_cloud_agent: String,
}

impl Default for OnboardingKeybindings {
    fn default() -> (r: Self)
        ensures
            r.toggle_input_mode@.len() == 0,
            r.submit_to_local_agent@.len() == 0,
            r.submit_to_cloud_agent@.len() == 0,
    {
        OnboardingKeybindings {
            toggle_input_mode: String::new(),
            submit_to_local_agent: String::new(),
            submit_to_cloud_agent: String::new(),
        }
    }
}

#[derive(Clone, Debug)]
pub enum OnboardingCalloutViewEvent {
    StateUpdated,
    Completed { final_state: FinalState },
    EnterAgentModality,
    NaturalLanguageDetectionToggled(bool),
}

/// The onboarding callout: it keeps its keybindings and is never active.
pub struct OnboardingCalloutView {
    pub keybindings: OnboardingKeybindings,
}

impl OnboardingCalloutView {
    pub fn new_universal_input(
        _has_project: bool,
        _initial_natural_language_detection_enabled: bool,
        keybindings: OnboardingKeybindings,
    ) -> (r: Self)
        ensures
            r.keybindings == keybindings,
    {
        OnboardingCalloutView { keybindings }
    }

    pub fn new_agent_modality(
        _has_project: bool,
        _intention: OnboardingIntention,
        _initial_natural_language_detection_enabled: bool,
        keybindings: OnboardingKeybindings,
    ) -> (r: Self)
        ensures
            r.keybindings == keybindings,
    {
        OnboardingCalloutView { keybindings }
    }

    pub fn has_project(&self) -> (r: bool)
        ensures
            !r,
    {
        false
    }

    pub fn start_onboarding(&mut self)
        ensures
            *final(self) == *old(self),
    {
    }

    pub fn is_onboarding_active(&self) -> (r: bool)
        ensures
            !r,
    {
        false
    }

    pub fn prompt_string(&self) -> (r: String)
        ensures
            r@.len() == 0,
    {
        String::new()
    }

    pub fn prompt(&self) -> (r: OnboardingQuery)
        ensures
            r is NoQuery,
    {
        OnboardingQuery::NoQuery
    }

    pub fn should_position_above_zero_state(&self) -> (r: bool)
        ensures
            !r,
    {
        false
    }
}

#[derive(Clone, Debug)]
pub enum OnboardingCalloutViewAction {
    NextClicked,
    SkipClicked,
    BackToTerminalClicked,
}

#[derive(Clone, Debug)]
pub enum AgentOnboardingAction {
    Next,
    Back,
    Skip,
}

#[derive(Clone, Debug)]
pub enum AgentOnboardingEvent {
    ThemeSelected { theme_name: String },
    SyncWithOsToggled { enabled: bool },
    OnboardingCompleted(SelectedSettings),
    OnboardingSkipped,
    UpgradeRequested,
    UpgradeCopyUrlRequested,
    UpgradePasteTokenFromClipboardRequested,
    PrivacySettingsFromTerminalThemeSlideRequested,
    LoginFromWelcomeRequested,
    AppBecameActive,
}

/// The agent onboarding flow; it keeps nothing of what it is given.
pub struct AgentOnboardingView;

impl Default for AgentOnboardingView {
    fn default() -> (r: Self) {
        AgentOnboardingView
    }
}

impl AgentOnboardingView {
    pub fn new<Themes, Models>(
        _themes: Themes,
        _is_skippable: bool,
        _models: Models,
        _default_model_id: LLMId,
        _workspace_enforces_autonomy: bool,
        _agent_modality_enabled: bool,
        _free_user_no_ai_experiment: bool,
        _agent_price_cents: Option<i32>,
        _auth_state: OnboardingAuthState,
    ) -> (r: Self) {
        AgentOnboardingView
    }

    pub fn start_onboarding(&mut self) {
    }

    pub fn use_vertical_tabs(&self) -> (r: bool)
        ensures
            !r,
    {
        false
    }

    pub fn set_agent_price_cents(&mut self, _cents: Option<i32>) {
    }

    pub fn set_workspace_enforces_autonomy(&mut self, _value: bool) {
    }

    pub fn free_user_no_ai_experiment(&self) -> (r: bool)
        ensures
            !r,
    {
        false
    }

    pub fn set_free_user_no_ai_experiment(&mut self, _value: bool) {
    }

    pub fn advance_to_agent_step(&mut self) {
    }

    pub fn set_auth_state(&mut self, _auth_state: OnboardingAuthState) {
    }
}

/// Telemetry events of onboarding.
#[derive(Clone, Debug)]
pub enum OnboardingEvent {
    Started,
    Completed,
    Skipped,
}

} // verus!
