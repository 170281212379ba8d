//! The configuration snapshot each job works from.
//!
//! Loading the layered configuration is the surrounding process's work;
//! the jobs receive this plain value and nothing else reaches them.

use vstd::prelude::*;

verus! {

/// Credentials for the chat platform.
pub struct DiscordSettings {
    pub token: String,
}

/// The library server: where it is, how to authenticate, and an
/// optional allowlist of library names to restrict the newsletter to.
pub struct KomgaSettings {
    pub url: String,
    pub username: String,
    pub password: String,
    pub public_url: Option<String>,
    pub libraries: Option<Vec<String>>,
}

/// The newsletter job's configuration.  Without a schedule the job runs
/// once, at startup.
pub struct NewslettersSettings {
    pub enabled: bool,
    pub templates_dir: String,
    pub content_dir: String,
    pub url: String,
    pub channel: String,
    pub schedule: Option<String>,
}

/// The stats job's configuration.
pub struct StatsSettings {
    pub enabled: bool,
    pub category: String,
    pub schedule: String,
}

/// One configuration snapshot, loaded at process start and passed to
/// each job.
pub struct Settings {
    pub discord: DiscordSettings,
    pub komga: KomgaSettings,
    pub newsletters: NewslettersSettings,
    pub stats: StatsSettings,
}

/// The base URL the rendered page links back to: the public URL where
/// one is configured, else the server URL itself.
pub fn effective_public_url(komga: &KomgaSettings) -> (r: &String)
    ensures
        komga.public_url is Some ==> r@ == komga.public_url->Some_0@,
        komga.public_url is None ==> r@ == komga.url@,
{
    match &komga.public_url {
        Some(u) => u,
        None => &komga.url,
    }
}

} // verus!
