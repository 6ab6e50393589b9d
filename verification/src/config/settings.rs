//! The configuration and its defaults.

use vstd::prelude::*;
use vstd::string::StringExecFns;

verus! {

/// Everything the client is configured with at startup.
#[derive(Debug)]
pub struct AppConfig {
    pub general: GeneralConfig,
    pub tui: TuiConfig,
    pub mock_provider: MockProviderConfig,
    pub whatsapp: WhatsAppConfig,
}

#[derive(Debug)]
pub struct GeneralConfig {
    pub data_dir: String,
    pub log_level: String,
}

#[derive(Debug, Clone, Copy, PartialEq, Eq, Structural)]
pub struct TuiConfig {
    pub tick_rate_ms: u64,
    pub render_rate_ms: u64,
    pub chat_list_width_percent: u16,
}

#[derive(Debug, Clone, Copy, PartialEq, Eq, Structural)]
pub struct MockProviderConfig {
    pub enabled: bool,
    pub chat_count: usize,
    pub message_interval_secs: u64,
}

#[derive(Debug)]
pub struct WhatsAppConfig {
    pub enabled: bool,
    pub phone_number: Option<String>,
}

/// Name of the data directory, below the user's home directory where there
/// is one.
pub open spec fn data_dir_name() -> Seq<char> {
    ".zero-drift-chat"@
}

/// The user's home directory, as `dirs::home_dir` reports it for the current
/// user. It depends on the environment, so nothing is promised of it.
#[verifier::external_body]
fn home_dir() -> (home: Option<String>) {
    dirs::home_dir().map(|h| h.to_string_lossy().to_string())
}

/// `leaf` appended to the path `base` by `std::path::Path::join`. The
/// separator is the platform's, so nothing is promised of the result.
#[verifier::external_body]
fn path_join(base: &str, leaf: &str) -> (joined: String) {
    std::path::Path::new(base).join(leaf).to_string_lossy().to_string()
}

/// The data directory for a given home directory: the directory named
/// [`data_dir_name`] inside it, or that bare name where there is no home.
pub fn data_dir_under(home: Option<String>) -> (dir: String)
    ensures
        home is None ==> dir@ == data_dir_name(),
{
    match home {
        Some(h) => path_join(h.as_str(), ".zero-drift-chat"),
        None => String::from_str(".zero-drift-chat"),
    }
}

pub fn default_data_dir() -> (dir: String) {
    data_dir_under(home_dir())
}

pub fn default_log_level() -> (level: String)
    ensures
        level@ == "info"@,
{
    String::from_str("info")
}

pub fn default_tick_rate() -> (ms: u64)
    ensures
        ms == 250,
{
    250
}

pub fn default_render_rate() -> (ms: u64)
    ensures
        ms == 33,
{
    33
}

pub fn default_chat_list_width() -> (percent: u16)
    ensures
        percent == 30,
{
    30
}

pub fn default_true() -> (b: bool)
    ensures
        b,
{
    true
}

pub fn default_chat_count() -> (n: usize)
    ensures
        n == 5,
{
    5
}

pub fn default_message_interval() -> (secs: u64)
    ensures
        secs == 3,
{
    3
}

impl Default for WhatsAppConfig {
    fn default() -> (cfg: Self)
        ensures
            cfg.enabled,
            cfg.phone_number is None,
    {
        WhatsAppConfig { enabled: true, phone_number: None }
    }
}

impl Default for GeneralConfig {
    fn default() -> (cfg: Self)
        ensures
            cfg.log_level@ == "info"@,
    {
        GeneralConfig { data_dir: default_data_dir(), log_level: default_log_level() }
    }
}

impl Default for TuiConfig {
    fn default() -> (cfg: Self)
        ensures
            cfg == (TuiConfig { tick_rate_ms: 250, render_rate_ms: 33, chat_list_width_percent: 30 }),
    {
        TuiConfig {
            tick_rate_ms: default_tick_rate(),
            render_rate_ms: default_render_rate(),
            chat_list_width_percent: default_chat_list_width(),
        }
    }
}

impl Default for MockProviderConfig {
    fn default() -> (cfg: Self)
        ensures
            cfg == (MockProviderConfig { enabled: true, chat_count: 5, message_interval_secs: 3 }),
    {
        MockProviderConfig {
            enabled: default_true(),
            chat_count: default_chat_count(),
            message_interval_secs: default_message_interval(),
        }
    }
}

impl Default for AppConfig {
    fn default() -> (cfg: Self)
        ensures
            cfg.general.log_level@ == "info"@,
            cfg.tui == (TuiConfig { tick_rate_ms: 250, render_rate_ms: 33, chat_list_width_percent: 30 }),
            cfg.mock_provider == (MockProviderConfig {
                enabled: true,
                chat_count: 5,
                message_interval_secs: 3,
            }),
            cfg.whatsapp.enabled,
            cfg.whatsapp.phone_number is None,
    {
        AppConfig {
            general: GeneralConfig::default(),
            tui: TuiConfig::default(),
            mock_provider: MockProviderConfig::default(),
            whatsapp: WhatsAppConfig::default(),
        }
    }
}

impl Clone for GeneralConfig {
    fn clone(&self) -> (copy: Self)
        ensures
            copy == *self,
    {
        GeneralConfig { data_dir: self.data_dir.clone(), log_level: self.log_level.clone() }
    }
}

impl Clone for WhatsAppConfig {
    fn clone(&self) -> (copy: Self)
        ensures
            copy == *self,
    {
        WhatsAppConfig {
            enabled: self.enabled,
            phone_number: match &self.phone_number {
                Some(p) => Some(p.clone()),
                None => None,
            },
        }
    }
}

impl Clone for AppConfig {
    fn clone(&self) -> (copy: Self)
        ensures
            copy == *self,
    {
        AppConfig {
            general: self.general.clone(),
            tui: self.tui,
            mock_provider: self.mock_provider,
            whatsapp: self.whatsapp.clone(),
        }
    }
}

} // verus!
