//! What the user can ask for.

use crate::config::{
    add_webhook, added, default_webhook, del_webhook, distinct, list_webhooks, listed, url_of,
    without, Config, ConfigError, ConfigErrorView, ConfigView,
};
use vstd::prelude::*;

verus! {

/// The arguments of one run.
#[derive(Debug)]
pub struct Args {
    pub command: Command,
}

/// One request of the user.
#[derive(Debug)]
pub enum Command {
    /// Store `file` at an endpoint.
    Upload { file: String, webhook: Option<String> },
    /// Fetch the file whose index is at `url`, to `output` or under its own
    /// name.
    Download { url: String, output: Option<String> },
    /// Erase the file whose index the message `mid` holds.
    Delete { mid: u64, webhook: Option<String> },
    /// Look at or change the kept endpoints.
    Webhook { command: WebhookCommand },
}

/// One request on the kept endpoints.
#[derive(Debug)]
pub enum WebhookCommand {
    /// Keep `url` under `name`.
    Add { name: String, url: String },
    /// Drop what is kept under `name`.
    Delete { name: String },
    /// List what is kept.
    List,
    /// Make `name` the default.
    Default { name: String },
}

impl Command {
    /// What the user gave for the endpoint, for a request that goes to one.
    pub fn webhook(&self) -> (r: Option<&String>)
        ensures
            r == match self {
                Command::Upload { webhook: Some(name), .. } => Some(name),
                Command::Delete { webhook: Some(name), .. } => Some(name),
                _ => None,
            },
    {
        match self {
            Command::Upload { webhook: Some(name), .. } => Some(name),
            Command::Delete { webhook: Some(name), .. } => Some(name),
            _ => None,
        }
    }

    /// The request goes to an endpoint, which has to be resolved first.
    pub fn needs_endpoint(&self) -> (r: bool)
        ensures
            r == (self is Upload || self is Delete),
    {
        match self {
            Command::Upload { .. } => true,
            Command::Delete { .. } => true,
            _ => false,
        }
    }
}

/// What a request on the kept endpoints came to: the lines to show, and
/// whether the config was changed and has to be stored.
#[derive(Debug)]
pub struct WebhookOutcome {
    pub lines: Vec<String>,
    pub changed: bool,
}

impl WebhookCommand {
    /// Carries out the request on `cfg`. A refusal leaves `cfg` as it was.
    /// Only a listing gives lines, and only a listing leaves nothing to
    /// store. A config that keeps every name once still does so afterwards.
    pub fn apply(self, cfg: &mut Config) -> (r: Result<WebhookOutcome, ConfigError>)
        ensures
            distinct(old(cfg)@.webhooks) ==> distinct(final(cfg)@.webhooks),
            match self {
                WebhookCommand::Add { name, url } => match added(old(cfg)@, name@, url@) {
                    Ok(after) => r matches Ok(outcome) && outcome.changed && outcome.lines@.len()
                        == 0 && final(cfg)@ == after,
                    Err(error) => r matches Err(e) && e@ == error && final(cfg)@ == old(cfg)@,
                },
                WebhookCommand::Delete { name } => match url_of(old(cfg)@.webhooks, name@) {
                    Some(_) => r matches Ok(outcome) && outcome.changed && outcome.lines@.len() == 0
                        && final(cfg)@ == (ConfigView {
                        webhooks: without(old(cfg)@.webhooks, name@),
                        ..old(cfg)@
                    }),
                    None => r matches Err(e) && e@ == (ConfigErrorView::NotFound { name: name@ })
                        && final(cfg)@ == old(cfg)@,
                },
                WebhookCommand::List => r matches Ok(outcome) && !outcome.changed && final(cfg)@
                    == old(cfg)@ && outcome.lines@.len() == old(cfg)@.webhooks.len() && forall|
                    i: int,
                |
                    0 <= i < outcome.lines@.len() ==> (#[trigger] outcome.lines@[i])@ == listed(
                        old(cfg)@.webhooks[i],
                        old(cfg)@.default_webhook,
                    ),
                WebhookCommand::Default { name } => match url_of(old(cfg)@.webhooks, name@) {
                    Some(_) => r matches Ok(outcome) && outcome.changed && outcome.lines@.len() == 0
                        && final(cfg)@ == (ConfigView {
                        default_webhook: Some(name@),
                        ..old(cfg)@
                    }),
                    None => r matches Err(e) && e@ == (ConfigErrorView::NotFound { name: name@ })
                        && final(cfg)@ == old(cfg)@,
                },
            },
    {
        match self {
            WebhookCommand::Add { name, url } => match add_webhook(cfg, name, url) {
                Ok(()) => Ok(WebhookOutcome { lines: Vec::new(), changed: true }),
                Err(e) => Err(e),
            },
            WebhookCommand::Delete { name } => match del_webhook(cfg, name.as_str()) {
                Ok(()) => Ok(WebhookOutcome { lines: Vec::new(), changed: true }),
                Err(e) => Err(e),
            },
            WebhookCommand::List => Ok(WebhookOutcome { lines: list_webhooks(cfg), changed: false }),
            WebhookCommand::Default { name } => match default_webhook(cfg, name) {
                Ok(()) => Ok(WebhookOutcome { lines: Vec::new(), changed: true }),
                Err(e) => Err(e),
            },
        }
    }
}

} // verus!
