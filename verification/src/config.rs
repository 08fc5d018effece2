//! Configuration of the engines, the RPC server and the browser, with defaults.
use vstd::prelude::*;
use vstd::string::*;
use crate::types::Confidence;

verus! {

pub fn default_fast_provider() -> (r: String)
    ensures
        r@ == "laya"@,
{
    String::from_str("laya")
}

pub fn default_laya_endpoint() -> (r: String)
    ensures
        r@ == "http://127.0.0.1:8000"@,
{
    String::from_str("http://127.0.0.1:8000")
}

pub fn default_laya_model() -> (r: String)
    ensures
        r@ == "multilingual"@,
{
    String::from_str("multilingual")
}

/// 0.85.
pub fn default_confidence_threshold() -> (r: Confidence)
    ensures
        r == 8500,
{
    8500
}

pub fn default_fast_timeout_ms() -> (r: u64)
    ensures
        r == 5000,
{
    5000
}

pub fn default_slow_provider() -> (r: String)
    ensures
        r@ == "rpc"@,
{
    String::from_str("rpc")
}

pub fn default_slow_endpoint() -> (r: String)
    ensures
        r@ == "http://127.0.0.1:50051"@,
{
    String::from_str("http://127.0.0.1:50051")
}

pub fn default_slow_timeout_ms() -> (r: u64)
    ensures
        r == 60000,
{
    60000
}

pub fn default_true() -> (r: bool)
    ensures
        r,
{
    true
}

pub fn default_window_width() -> (r: u32)
    ensures
        r == 1920,
{
    1920
}

pub fn default_window_height() -> (r: u32)
    ensures
        r == 1080,
{
    1080
}

pub fn default_rpc_listen() -> (r: String)
    ensures
        r@ == "127.0.0.1:9090"@,
{
    String::from_str("127.0.0.1:9090")
}

/// Fast engine (System 1) settings.
#[derive(Debug, Clone)]
pub struct FastEngineConfig {
    /// `"laya"` or `"mock"`.
    pub provider: String,
    pub endpoint: String,
    pub model: String,
    /// Minimum confidence for acting without the slow engine.
    pub confidence_threshold: Confidence,
    pub timeout_ms: u64,
}

impl Default for FastEngineConfig {
    fn default() -> (r: Self)
        ensures
            r.provider@ == "laya"@,
            r.endpoint@ == "http://127.0.0.1:8000"@,
            r.model@ == "multilingual"@,
            r.confidence_threshold == 8500,
            r.timeout_ms == 5000,
    {
        FastEngineConfig {
            provider: default_fast_provider(),
            endpoint: default_laya_endpoint(),
            model: default_laya_model(),
            confidence_threshold: default_confidence_threshold(),
            timeout_ms: default_fast_timeout_ms(),
        }
    }
}

/// Slow engine (System 2) settings.
#[derive(Debug, Clone)]
pub struct SlowEngineConfig {
    /// `"rpc"` (JSON-RPC 2.0) or `"openai"` (OpenAI-compatible REST).
    pub provider: String,
    pub endpoint: String,
    pub timeout_ms: u64,
    pub api_key: Option<String>,
    pub base_url: Option<String>,
    pub model: Option<String>,
    /// `"heuristic"` enables the first-candidate fallback when arbitration fails.
    pub fallback: Option<String>,
}

impl Default for SlowEngineConfig {
    fn default() -> (r: Self)
        ensures
            r.provider@ == "rpc"@,
            r.endpoint@ == "http://127.0.0.1:50051"@,
            r.timeout_ms == 60000,
            r.api_key is None,
            r.base_url is None,
            r.model is None,
            r.fallback is None,
    {
        SlowEngineConfig {
            provider: default_slow_provider(),
            endpoint: default_slow_endpoint(),
            timeout_ms: default_slow_timeout_ms(),
            api_key: None,
            base_url: None,
            model: None,
            fallback: None,
        }
    }
}

impl SlowEngineConfig {
    /// Whether the heuristic fallback is configured.
    pub fn heuristic_fallback(&self) -> (b: bool)
        ensures
            b == (self.fallback matches Some(f) && f@ == "heuristic"@),
    {
        match &self.fallback {
            Some(f) => crate::text::str_eq(f.as_str(), "heuristic"),
            None => false,
        }
    }
}

/// The JSON-RPC server this process exposes.
#[derive(Debug, Clone)]
pub struct RpcServerConfig {
    pub enabled: bool,
    pub listen: String,
}

impl Default for RpcServerConfig {
    fn default() -> (r: Self)
        ensures
            r.enabled,
            r.listen@ == "127.0.0.1:9090"@,
    {
        RpcServerConfig { enabled: default_true(), listen: default_rpc_listen() }
    }
}

/// Browser settings.
#[derive(Debug, Clone)]
pub struct BrowserProfileConfig {
    pub headless: bool,
    pub window_width: u32,
    pub window_height: u32,
    /// An existing CDP endpoint to connect to.
    pub cdp_endpoint: Option<String>,
}

impl Default for BrowserProfileConfig {
    fn default() -> (r: Self)
        ensures
            r.headless,
            r.window_width == 1920,
            r.window_height == 1080,
            r.cdp_endpoint is None,
    {
        BrowserProfileConfig {
            headless: default_true(),
            window_width: default_window_width(),
            window_height: default_window_height(),
            cdp_endpoint: None,
        }
    }
}

/// The whole configuration.
#[derive(Debug, Clone)]
pub struct MuninConfig {
    pub fast_engine: FastEngineConfig,
    pub slow_engine: SlowEngineConfig,
    pub rpc_server: RpcServerConfig,
    pub browser: BrowserProfileConfig,
}

impl Default for MuninConfig {
    fn default() -> (r: Self)
        ensures
            r.fast_engine.provider@ == "laya"@,
            r.fast_engine.endpoint@ == "http://127.0.0.1:8000"@,
            r.fast_engine.model@ == "multilingual"@,
            r.fast_engine.confidence_threshold == 8500,
            r.fast_engine.timeout_ms == 5000,
            r.slow_engine.provider@ == "rpc"@,
            r.slow_engine.endpoint@ == "http://127.0.0.1:50051"@,
            r.slow_engine.timeout_ms == 60000,
            r.slow_engine.api_key is None,
            r.slow_engine.base_url is None,
            r.slow_engine.model is None,
            r.slow_engine.fallback is None,
            r.rpc_server.enabled,
            r.rpc_server.listen@ == "127.0.0.1:9090"@,
            r.browser.headless,
            r.browser.window_width == 1920,
            r.browser.window_height == 1080,
            r.browser.cdp_endpoint is None,
    {
        MuninConfig {
            fast_engine: FastEngineConfig::default(),
            slow_engine: SlowEngineConfig::default(),
            rpc_server: RpcServerConfig::default(),
            browser: BrowserProfileConfig::default(),
        }
    }
}

/// The files a configuration is looked for in, in order: the given path,
/// then `munin.toml`, then `config.toml` (the defaults apply when none reads).
pub fn config_candidates(custom_path: Option<&str>) -> (r: Vec<String>)
    ensures
        r@.len() == (if custom_path is Some { 3int } else { 2int }),
        custom_path matches Some(p) ==> r@[0]@ == p@,
        r@[r@.len() - 2]@ == "munin.toml"@,
        r@[r@.len() - 1]@ == "config.toml"@,
{
    let mut v: Vec<String> = Vec::new();
    match custom_path {
        Some(p) => v.push(String::from_str(p)),
        None => {},
    }
    v.push(String::from_str("munin.toml"));
    v.push(String::from_str("config.toml"));
    v
}

} // verus!
