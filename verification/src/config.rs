//! Server configuration and its defaults.
use vstd::prelude::*;

verus! {

/// Name of the environment variable that points at the configuration file.
pub const ENV_VAR_NAME: &'static str = "ROAMERS_DIR";

/// Address the http server listens on.
#[derive(Clone, Debug)]
pub struct HttpServerConfig {
    pub host: String,
    pub port: u16,
}

impl Default for HttpServerConfig {
    fn default() -> (r: Self)
        ensures
            r.host@ == "localhost"@,
            r.port == 5000,
    {
        HttpServerConfig { host: String::from_str("localhost"), port: 5000 }
    }
}

/// How a special block (`#+begin_NAME`) is rendered: a css class, a header
/// and styles.
#[derive(Clone, Debug)]
pub struct EnvAdvice {
    pub on: String,
    pub header: String,
    pub css_style: String,
    pub text_styling: String,
}

impl Default for EnvAdvice {
    fn default() -> (r: Self)
        ensures
            r.on@.len() == 0,
            r.header@.len() == 0,
            r.css_style@.len() == 0,
            r.text_styling@.len() == 0,
    {
        EnvAdvice {
            on: String::new(),
            header: String::new(),
            css_style: String::new(),
            text_styling: String::new(),
        }
    }
}

/// Settings of the html export.
#[derive(Clone, Debug)]
pub struct HtmlExportSettings {
    /// Headlines tagged `noexport` (and their subtrees) are left out.
    pub respect_noexport: bool,
    pub env_advices: Vec<EnvAdvice>,
}

impl Default for HtmlExportSettings {
    fn default() -> (r: Self)
        ensures
            !r.respect_noexport,
            r.env_advices@.len() == 0,
    {
        HtmlExportSettings { respect_noexport: false, env_advices: Vec::new() }
    }
}

/// Commands that render LaTeX fragments to svg.
#[derive(Clone, Debug)]
pub struct LatexConfig {
    pub latex_cmd: String,
    pub latex_opt: Vec<String>,
    pub dvisvgm_cmd: String,
    pub dvisvgm_opt: Vec<String>,
}

impl Default for LatexConfig {
    fn default() -> (r: Self)
        ensures
            r.latex_cmd@ == "latex"@,
            r.latex_opt@.len() == 2,
            r.latex_opt@[0]@ == "-interaction"@,
            r.latex_opt@[1]@ == "nonstopmode"@,
            r.dvisvgm_cmd@ == "dvisvgm"@,
            r.dvisvgm_opt@.len() == 7,
            r.dvisvgm_opt@[0]@ == "--optimize"@,
            r.dvisvgm_opt@[1]@ == "--clipjoin"@,
            r.dvisvgm_opt@[2]@ == "--relative"@,
            r.dvisvgm_opt@[3]@ == "--no-fonts"@,
            r.dvisvgm_opt@[4]@ == "--exact-bbox"@,
            r.dvisvgm_opt@[5]@ == "--precision=6"@,
            r.dvisvgm_opt@[6]@ == "--verbosity=0"@,
    {
        let mut latex_opt: Vec<String> = Vec::new();
        latex_opt.push(String::from_str("-interaction"));
        latex_opt.push(String::from_str("nonstopmode"));
        let mut dvisvgm_opt: Vec<String> = Vec::new();
        dvisvgm_opt.push(String::from_str("--optimize"));
        dvisvgm_opt.push(String::from_str("--clipjoin"));
        dvisvgm_opt.push(String::from_str("--relative"));
        dvisvgm_opt.push(String::from_str("--no-fonts"));
        dvisvgm_opt.push(String::from_str("--exact-bbox"));
        dvisvgm_opt.push(String::from_str("--precision=6"));
        dvisvgm_opt.push(String::from_str("--verbosity=0"));
        LatexConfig {
            latex_cmd: String::from_str("latex"),
            latex_opt,
            dvisvgm_cmd: String::from_str("dvisvgm"),
            dvisvgm_opt,
        }
    }
}

/// Which files the asset route may serve.
#[derive(Clone, Copy, Debug, PartialEq, Eq, Structural)]
pub enum AssetPolicy {
    AllowAll,
    ForbidAll,
    AllowChildrenOfRoot,
}

impl Default for AssetPolicy {
    fn default() -> (r: Self)
        ensures
            r == AssetPolicy::AllowChildrenOfRoot,
    {
        AssetPolicy::AllowChildrenOfRoot
    }
}

/// An authorised user, with the password in plain text as configured.
#[derive(Clone, Debug)]
pub struct User {
    pub username: String,
    pub password: String,
}

/// When sessions expire.
#[derive(Clone, Copy, Debug, PartialEq, Eq, Structural)]
pub enum SessionExpiryMode {
    /// After a period of inactivity.
    OnInactivity,
    /// When the browser session ends.
    BrowserSession,
}

impl Default for SessionExpiryMode {
    fn default() -> (r: Self)
        ensures
            r == SessionExpiryMode::OnInactivity,
    {
        SessionExpiryMode::OnInactivity
    }
}

/// Session settings of the authentication layer.
#[derive(Clone, Debug)]
pub struct SessionConfig {
    pub expiry_mode: SessionExpiryMode,
    pub expiry_duration_hours: u64,
    pub secure_cookie: bool,
    pub cleanup_interval_minutes: u64,
}

impl Default for SessionConfig {
    fn default() -> (r: Self)
        ensures
            r.expiry_mode == SessionExpiryMode::OnInactivity,
            r.expiry_duration_hours == 24,
            !r.secure_cookie,
            r.cleanup_interval_minutes == 60,
    {
        SessionConfig {
            expiry_mode: SessionExpiryMode::OnInactivity,
            expiry_duration_hours: 24,
            secure_cookie: false,
            cleanup_interval_minutes: 60,
        }
    }
}

/// Authentication settings.
#[derive(Clone, Debug)]
pub struct AuthConfig {
    pub enabled: bool,
    pub users: Vec<User>,
    pub session: SessionConfig,
}

impl Default for AuthConfig {
    fn default() -> (r: Self)
        ensures
            !r.enabled,
            r.users@.len() == 0,
            r.session.expiry_mode == SessionExpiryMode::OnInactivity,
            r.session.expiry_duration_hours == 24,
            !r.session.secure_cookie,
            r.session.cleanup_interval_minutes == 60,
    {
        AuthConfig { enabled: false, users: Vec::new(), session: SessionConfig::default() }
    }
}

/// The whole server configuration. Paths are held as text.
#[derive(Clone, Debug)]
pub struct Config {
    /// Root of the org-roam directory.
    pub org_roamers_root: String,
    pub http_server_config: HttpServerConfig,
    pub org_to_html: HtmlExportSettings,
    /// Root of the web client's files.
    pub root: String,
    pub fs_watcher: bool,
    pub latex_config: LatexConfig,
    pub asset_policy: AssetPolicy,
    pub authentication: Option<AuthConfig>,
}

impl Default for Config {
    fn default() -> (r: Self)
        ensures
            r.org_roamers_root@ == "~/notes/"@,
            r.http_server_config.host@ == "localhost"@,
            r.http_server_config.port == 5000,
            !r.org_to_html.respect_noexport,
            r.org_to_html.env_advices@.len() == 0,
            r.root@ == "./web/dist/"@,
            !r.fs_watcher,
            r.latex_config.latex_cmd@ == "latex"@,
            r.latex_config.dvisvgm_cmd@ == "dvisvgm"@,
            r.asset_policy == AssetPolicy::AllowChildrenOfRoot,
            r.authentication is None,
    {
        Config {
            org_roamers_root: String::from_str("~/notes/"),
            http_server_config: HttpServerConfig::default(),
            org_to_html: HtmlExportSettings::default(),
            root: String::from_str("./web/dist/"),
            fs_watcher: false,
            latex_config: LatexConfig::default(),
            asset_policy: AssetPolicy::default(),
            authentication: None,
        }
    }
}

} // verus!
