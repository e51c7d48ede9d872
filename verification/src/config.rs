//! The named endpoints that a user keeps, and the document in which they are
//! stored.
//!
//! Reading and writing the file is left to the caller: this module turns the
//! file's text into a [`Config`] and back, and resolves what the user gave
//! for an endpoint.

use crate::document::{
    entry_pairs, lemma_table_of_members, lemma_table_of_push, lemma_table_view, node_writable,
    table_of, Entry, Node, NodeView,
};
use crate::toml_format::{
    node_of_toml, read_toml, toml_document, toml_of_node, toml_pretty_text, write_toml_pretty,
};
use vstd::prelude::*;
use vstd::string::*;

verus! {

/// One endpoint under the name that the user gave it.
#[derive(Debug)]
pub struct Webhook {
    pub name: String,
    pub url: String,
}

/// The mathematical content of a [`Webhook`].
pub struct WebhookView {
    pub name: Seq<char>,
    pub url: Seq<char>,
}

impl View for Webhook {
    type V = WebhookView;

    open spec fn view(&self) -> WebhookView {
        WebhookView { name: self.name@, url: self.url@ }
    }
}

/// The endpoints that the user keeps, and the name of the one that is used
/// where none is named. A config that was read from its document, and
/// changed only by the functions of this module, keeps every name once
/// ([`distinct`]). In one that was put together otherwise, the last entry
/// of a name counts.
#[derive(Debug)]
pub struct Config {
    pub webhooks: Vec<Webhook>,
    pub default_webhook: Option<String>,
}

/// The mathematical content of a [`Config`].
pub struct ConfigView {
    pub webhooks: Seq<WebhookView>,
    pub default_webhook: Option<Seq<char>>,
}

/// The contents of a run of endpoints.
pub open spec fn webhooks_view(webhooks: Seq<Webhook>) -> Seq<WebhookView> {
    Seq::new(webhooks.len(), |i: int| webhooks[i]@)
}

impl View for Config {
    type V = ConfigView;

    open spec fn view(&self) -> ConfigView {
        ConfigView {
            webhooks: webhooks_view(self.webhooks@),
            default_webhook: match self.default_webhook {
                Some(name) => Some(name@),
                None => None,
            },
        }
    }
}

/// The address kept under `name`: that of the last entry so named.
pub open spec fn url_of(webhooks: Seq<WebhookView>, name: Seq<char>) -> Option<Seq<char>>
    decreases webhooks.len(),
{
    if webhooks.len() == 0 {
        None
    } else if webhooks.last().name == name {
        Some(webhooks.last().url)
    } else {
        url_of(webhooks.drop_last(), name)
    }
}

/// No name stands twice among the entries.
pub open spec fn distinct(webhooks: Seq<WebhookView>) -> bool {
    forall|i: int, j: int|
        0 <= i < j < webhooks.len() ==> (#[trigger] webhooks[i]).name != (
        #[trigger] webhooks[j]).name
}

/// Nothing is kept under a name exactly when no entry has it.
pub proof fn lemma_url_of_none(webhooks: Seq<WebhookView>, name: Seq<char>)
    ensures
        url_of(webhooks, name) is None <==> forall|i: int|
            0 <= i < webhooks.len() ==> (#[trigger] webhooks[i]).name != name,
    decreases webhooks.len(),
{
    if webhooks.len() > 0 {
        let init = webhooks.drop_last();
        lemma_url_of_none(init, name);
        if webhooks.last().name != name {
            if url_of(init, name) is None {
                assert forall|i: int| 0 <= i < webhooks.len() implies (#[trigger] webhooks[i]).name
                    != name by {
                    if i < init.len() {
                        assert(init[i] == webhooks[i]);
                    }
                }
            } else {
                let i = choose|i: int| 0 <= i < init.len() && (#[trigger] init[i]).name == name;
                assert(webhooks[i] == init[i]);
            }
        } else {
            assert(webhooks[webhooks.len() - 1].name == name);
        }
    }
}

/// Every entry that is left after dropping a name was there before.
pub proof fn lemma_without_members(webhooks: Seq<WebhookView>, name: Seq<char>)
    ensures
        forall|i: int|
            0 <= i < without(webhooks, name).len() ==> exists|j: int|
                0 <= j < webhooks.len() && #[trigger] webhooks[j] == (#[trigger] without(
                    webhooks,
                    name,
                )[i]),
    decreases webhooks.len(),
{
    if webhooks.len() > 0 {
        let init = webhooks.drop_last();
        lemma_without_members(init, name);
        let kept = without(webhooks, name);
        assert forall|i: int| 0 <= i < kept.len() implies exists|j: int|
            0 <= j < webhooks.len() && #[trigger] webhooks[j] == (#[trigger] kept[i]) by {
            if i < without(init, name).len() {
                let j = choose|j: int|
                    0 <= j < init.len() && #[trigger] init[j] == without(init, name)[i];
                assert(webhooks[j] == init[j]);
                assert(kept[i] == without(init, name)[i]);
            } else {
                assert(webhooks[webhooks.len() - 1] == kept[i]);
            }
        }
    }
}

/// Adding an entry under a name that was not kept, and dropping a name,
/// both leave every name standing once.
pub proof fn lemma_distinct_kept(webhooks: Seq<WebhookView>, entry: WebhookView, name: Seq<char>)
    requires
        distinct(webhooks),
    ensures
        url_of(webhooks, entry.name) is None ==> distinct(webhooks.push(entry)),
        distinct(without(webhooks, name)),
    decreases webhooks.len(),
{
    lemma_url_of_none(webhooks, entry.name);
    if webhooks.len() > 0 {
        let init = webhooks.drop_last();
        assert forall|i: int, j: int| 0 <= i < j < init.len() implies (#[trigger] init[i]).name != (
        #[trigger] init[j]).name by {
            assert(init[i] == webhooks[i] && init[j] == webhooks[j]);
        }
        lemma_distinct_kept(init, entry, name);
        lemma_without_members(init, name);
        let kept = without(webhooks, name);
        assert forall|i: int, j: int| 0 <= i < j < kept.len() implies (#[trigger] kept[i]).name != (
        #[trigger] kept[j]).name by {
            if j < without(init, name).len() {
                assert(kept[i] == without(init, name)[i] && kept[j] == without(init, name)[j]);
            } else {
                let k = choose|k: int|
                    0 <= k < init.len() && #[trigger] init[k] == without(init, name)[i];
                assert(kept[i] == without(init, name)[i]);
                assert(webhooks[k] == init[k]);
                assert(kept[j] == webhooks[webhooks.len() - 1]);
            }
        }
    }
}

/// The entries that are not named `name`, in their order.
pub open spec fn without(webhooks: Seq<WebhookView>, name: Seq<char>) -> Seq<WebhookView>
    decreases webhooks.len(),
{
    if webhooks.len() == 0 {
        Seq::empty()
    } else if webhooks.last().name == name {
        without(webhooks.drop_last(), name)
    } else {
        without(webhooks.drop_last(), name).push(webhooks.last())
    }
}

/// Why a request on the kept endpoints was refused.
#[derive(Debug)]
pub enum ConfigError {
    /// The user named an endpoint that is not kept.
    NamedNotFound { name: String },
    /// No endpoint was named, and none is set as the default.
    NoDefault,
    /// The default names an endpoint that is not kept.
    DefaultNotFound { name: String },
    /// An endpoint of that name is kept already.
    AlreadyExists { name: String },
    /// No endpoint of that name is kept.
    NotFound { name: String },
    /// The stored document is no document of endpoints.
    Malformed,
}

/// The mathematical content of a [`ConfigError`].
pub enum ConfigErrorView {
    NamedNotFound { name: Seq<char> },
    NoDefault,
    DefaultNotFound { name: Seq<char> },
    AlreadyExists { name: Seq<char> },
    NotFound { name: Seq<char> },
    Malformed,
}

impl View for ConfigError {
    type V = ConfigErrorView;

    open spec fn view(&self) -> ConfigErrorView {
        match self {
            ConfigError::NamedNotFound { name } => ConfigErrorView::NamedNotFound { name: name@ },
            ConfigError::NoDefault => ConfigErrorView::NoDefault,
            ConfigError::DefaultNotFound { name } => ConfigErrorView::DefaultNotFound {
                name: name@,
            },
            ConfigError::AlreadyExists { name } => ConfigErrorView::AlreadyExists { name: name@ },
            ConfigError::NotFound { name } => ConfigErrorView::NotFound { name: name@ },
            ConfigError::Malformed => ConfigErrorView::Malformed,
        }
    }
}

/// The text that tells the user of a refusal.
pub open spec fn error_text(error: ConfigErrorView) -> Seq<char> {
    match error {
        ConfigErrorView::NamedNotFound { name } => "Webhook named '"@ + name + "' not found."@,
        ConfigErrorView::NoDefault => "No default webhook set"@,
        ConfigErrorView::DefaultNotFound { name } => "Default webhook '"@ + name
            + "' not found."@,
        ConfigErrorView::AlreadyExists { name } => "Webhook "@ + name + " already exists"@,
        ConfigErrorView::NotFound { name } => "Webhook '"@ + name + "' not found."@,
        ConfigErrorView::Malformed => "The config file is malformed"@,
    }
}

impl ConfigError {
    /// The text that tells the user of the refusal.
    pub fn message(&self) -> (r: String)
        ensures
            r@ == error_text(self@),
    {
        match self {
            ConfigError::NamedNotFound { name } => {
                let mut text = "Webhook named '".to_owned();
                text.append(name.as_str());
                text.append("' not found.");
                text
            },
            ConfigError::NoDefault => "No default webhook set".to_owned(),
            ConfigError::DefaultNotFound { name } => {
                let mut text = "Default webhook '".to_owned();
                text.append(name.as_str());
                text.append("' not found.");
                text
            },
            ConfigError::AlreadyExists { name } => {
                let mut text = "Webhook ".to_owned();
                text.append(name.as_str());
                text.append(" already exists");
                text
            },
            ConfigError::NotFound { name } => {
                let mut text = "Webhook '".to_owned();
                text.append(name.as_str());
                text.append("' not found.");
                text
            },
            ConfigError::Malformed => "The config file is malformed".to_owned(),
        }
    }
}

/// The endpoint that a text names literally: what follows `raw:`, where the
/// text begins so.
pub open spec fn literal(text: Seq<char>) -> Option<Seq<char>> {
    if text.len() >= 4 && text[0] == 'r' && text[1] == 'a' && text[2] == 'w' && text[3] == ':' {
        Some(text.subrange(4, text.len() as int))
    } else {
        None
    }
}

/// The endpoint that `webhook` stands for: the literal after `raw:`, else
/// the address kept under that name; where nothing is given, the address
/// kept under the default's name.
pub open spec fn resolved(webhook: Option<Seq<char>>, config: ConfigView) -> Result<
    Seq<char>,
    ConfigErrorView,
> {
    match webhook {
        Some(text) => match literal(text) {
            Some(url) => Ok(url),
            None => match url_of(config.webhooks, text) {
                Some(url) => Ok(url),
                None => Err(ConfigErrorView::NamedNotFound { name: text }),
            },
        },
        None => match config.default_webhook {
            None => Err(ConfigErrorView::NoDefault),
            Some(name) => match url_of(config.webhooks, name) {
                Some(url) => Ok(url),
                None => Err(ConfigErrorView::DefaultNotFound { name }),
            },
        },
    }
}

/// The content of an outcome that carries text either way.
pub open spec fn outcome_view(outcome: Result<String, ConfigError>) -> Result<
    Seq<char>,
    ConfigErrorView,
> {
    match outcome {
        Ok(text) => Ok(text@),
        Err(error) => Err(error@),
    }
}

/// The content of an outcome that carries nothing on success.
pub open spec fn done_view(outcome: Result<(), ConfigError>) -> Result<(), ConfigErrorView> {
    match outcome {
        Ok(_) => Ok(()),
        Err(error) => Err(error@),
    }
}

/// The endpoint that a text names literally, if it names one so. A caller
/// that finds one here needs no kept endpoints at all.
pub fn literal_webhook(webhook: &str) -> (r: Option<String>)
    ensures
        match r {
            Some(url) => literal(webhook@) == Some(url@),
            None => literal(webhook@) is None,
        },
{
    let len: usize = webhook.unicode_len();
    if len >= 4 && webhook.get_char(0) == 'r' && webhook.get_char(1) == 'a' && webhook.get_char(2)
        == 'w' && webhook.get_char(3) == ':' {
        Some(webhook.substring_char(4, len).to_owned())
    } else {
        None
    }
}

impl Config {
    /// The config that keeps nothing.
    pub fn new() -> (r: Config)
        ensures
            r@.webhooks.len() == 0,
            r@.default_webhook is None,
            distinct(r@.webhooks),
    {
        Config { webhooks: Vec::new(), default_webhook: None }
    }

    /// The address kept under `name`.
    pub fn find<'a>(&'a self, name: &String) -> (r: Option<&'a String>)
        ensures
            match r {
                Some(url) => url_of(self@.webhooks, name@) == Some(url@),
                None => url_of(self@.webhooks, name@) is None,
            },
    {
        find_url(&self.webhooks, name)
    }
}

/// The address that a run of entries keeps under `name`.
fn find_url<'a>(webhooks: &'a Vec<Webhook>, name: &String) -> (r: Option<&'a String>)
    ensures
        match r {
            Some(url) => url_of(webhooks_view(webhooks@), name@) == Some(url@),
            None => url_of(webhooks_view(webhooks@), name@) is None,
        },
{
    let ghost all = webhooks_view(webhooks@);
    assert(all.take(all.len() as int) =~= all);
    let mut i: usize = webhooks.len();
    while i > 0
        invariant
            0 <= i <= webhooks.len(),
            all == webhooks_view(webhooks@),
            url_of(all, name@) == url_of(all.take(i as int), name@),
        decreases i,
    {
        i = i - 1;
        proof {
            assert(all.take(i + 1).drop_last() =~= all.take(i as int));
            assert(all.take(i + 1).last() == all[i as int]);
        }
        if webhooks[i].name == *name {
            return Some(&webhooks[i].url);
        }
    }
    None
}

/// Resolves what the user gave for an endpoint against the kept endpoints.
pub fn get_webhook(webhook: Option<&str>, config: &Config) -> (r: Result<String, ConfigError>)
    ensures
        outcome_view(r) == resolved(
            match webhook {
                Some(text) => Some(text@),
                None => None,
            },
            config@,
        ),
{
    match webhook {
        Some(text) => match literal_webhook(text) {
            Some(url) => Ok(url),
            None => {
                let name = text.to_owned();
                match config.find(&name) {
                    Some(url) => Ok(url.clone()),
                    None => Err(ConfigError::NamedNotFound { name }),
                }
            },
        },
        None => match &config.default_webhook {
            None => Err(ConfigError::NoDefault),
            Some(name) => match config.find(name) {
                Some(url) => Ok(url.clone()),
                None => Err(ConfigError::DefaultNotFound { name: name.clone() }),
            },
        },
    }
}

/// The config after `name` was added for `url`: refused where the name is
/// kept already; else the entry is added, and it becomes the default where
/// nothing was kept before.
pub open spec fn added(config: ConfigView, name: Seq<char>, url: Seq<char>) -> Result<
    ConfigView,
    ConfigErrorView,
> {
    if url_of(config.webhooks, name) is Some {
        Err(ConfigErrorView::AlreadyExists { name })
    } else {
        Ok(
            ConfigView {
                webhooks: config.webhooks.push(WebhookView { name, url }),
                default_webhook: if config.webhooks.len() == 0 {
                    Some(name)
                } else {
                    config.default_webhook
                },
            },
        )
    }
}

/// Keeps `url` under `name`. On a refusal the config stays as it was.
pub fn add_webhook(cfg: &mut Config, name: String, url: String) -> (r: Result<(), ConfigError>)
    ensures
        match added(old(cfg)@, name@, url@) {
            Ok(after) => r is Ok && final(cfg)@ == after,
            Err(error) => r matches Err(e) && e@ == error && final(cfg)@ == old(cfg)@,
        },
        distinct(old(cfg)@.webhooks) ==> distinct(final(cfg)@.webhooks),
{
    proof {
        if distinct(cfg@.webhooks) {
            lemma_distinct_kept(cfg@.webhooks, WebhookView { name: name@, url: url@ }, name@);
        }
    }
    if cfg.find(&name).is_some() {
        return Err(ConfigError::AlreadyExists { name });
    }
    let ghost before = cfg@.webhooks;
    if cfg.webhooks.len() == 0 {
        cfg.default_webhook = Some(name.clone());
    }
    cfg.webhooks.push(Webhook { name, url });
    assert(cfg@.webhooks =~= before.push(WebhookView { name: name@, url: url@ }));
    Ok(())
}

/// Drops what is kept under `name`: refused where nothing is. The default
/// stays as it is, also where it names what was dropped.
pub fn del_webhook(cfg: &mut Config, name: &str) -> (r: Result<(), ConfigError>)
    ensures
        match url_of(old(cfg)@.webhooks, name@) {
            Some(_) => r is Ok && final(cfg)@ == (ConfigView {
                webhooks: without(old(cfg)@.webhooks, name@),
                ..old(cfg)@
            }),
            None => r matches Err(e) && e@ == (ConfigErrorView::NotFound { name: name@ })
                && final(cfg)@ == old(cfg)@,
        },
        distinct(old(cfg)@.webhooks) ==> distinct(final(cfg)@.webhooks),
{
    proof {
        if distinct(cfg@.webhooks) {
            lemma_distinct_kept(cfg@.webhooks, WebhookView { name: name@, url: name@ }, name@);
        }
    }
    let wanted = name.to_owned();
    if cfg.find(&wanted).is_none() {
        return Err(ConfigError::NotFound { name: wanted });
    }
    let ghost all = cfg@.webhooks;
    let mut kept: Vec<Webhook> = Vec::new();
    let mut i: usize = 0;
    assert(all.take(0) =~= Seq::<WebhookView>::empty());
    while i < cfg.webhooks.len()
        invariant
            0 <= i <= cfg.webhooks.len(),
            all == cfg@.webhooks,
            *cfg == *old(cfg),
            wanted@ == name@,
            webhooks_view(kept@) == without(all.take(i as int), name@),
        decreases cfg.webhooks.len() - i,
    {
        proof {
            assert(all.take(i + 1).drop_last() =~= all.take(i as int));
            assert(all.take(i + 1).last() == all[i as int]);
        }
        if !(cfg.webhooks[i].name == wanted) {
            let ghost before = webhooks_view(kept@);
            let entry = Webhook {
                name: cfg.webhooks[i].name.clone(),
                url: cfg.webhooks[i].url.clone(),
            };
            kept.push(entry);
            assert(webhooks_view(kept@) =~= before.push(all[i as int]));
        }
        i = i + 1;
    }
    assert(all.take(all.len() as int) =~= all);
    cfg.webhooks = kept;
    Ok(())
}

/// The line that lists one entry: the name, marked where it is the default,
/// and the address in grey.
pub open spec fn listed(entry: WebhookView, default_webhook: Option<Seq<char>>) -> Seq<char> {
    " - "@ + (if default_webhook == Some(entry.name) {
        "[*] "@
    } else {
        ""@
    }) + entry.name + " \x1b[90m("@ + entry.url + ")\x1b[0m"@
}

/// The lines that list what is kept, one for each entry in its order; in a
/// config that keeps every name once, that is one line for each name.
pub fn list_webhooks(cfg: &Config) -> (r: Vec<String>)
    ensures
        r@.len() == cfg@.webhooks.len(),
        forall|i: int|
            0 <= i < r@.len() ==> (#[trigger] r@[i])@ == listed(
                cfg@.webhooks[i],
                cfg@.default_webhook,
            ),
{
    let mut lines: Vec<String> = Vec::new();
    let mut i: usize = 0;
    while i < cfg.webhooks.len()
        invariant
            0 <= i <= cfg.webhooks.len(),
            lines@.len() == i,
            forall|j: int|
                0 <= j < i ==> (#[trigger] lines@[j])@ == listed(
                    cfg@.webhooks[j],
                    cfg@.default_webhook,
                ),
        decreases cfg.webhooks.len() - i,
    {
        let entry = &cfg.webhooks[i];
        let is_default = match &cfg.default_webhook {
            Some(name) => *name == entry.name,
            None => false,
        };
        let mut line = " - ".to_owned();
        if is_default {
            line.append("[*] ");
        } else {
            line.append("");
        }
        line.append(entry.name.as_str());
        line.append(" \x1b[90m(");
        line.append(entry.url.as_str());
        line.append(")\x1b[0m");
        lines.push(line);
        i = i + 1;
    }
    lines
}

/// Makes `name` the default: refused where nothing is kept under it.
pub fn default_webhook(cfg: &mut Config, name: String) -> (r: Result<(), ConfigError>)
    ensures
        match url_of(old(cfg)@.webhooks, name@) {
            Some(_) => r is Ok && final(cfg)@ == (ConfigView {
                default_webhook: Some(name@),
                ..old(cfg)@
            }),
            None => r matches Err(e) && e@ == (ConfigErrorView::NotFound { name: name@ })
                && final(cfg)@ == old(cfg)@,
        },
        distinct(old(cfg)@.webhooks) ==> distinct(final(cfg)@.webhooks),
{
    if cfg.find(&name).is_none() {
        return Err(ConfigError::NotFound { name });
    }
    cfg.default_webhook = Some(name);
    Ok(())
}

/// The name under which the document holds the table of endpoints.
pub open spec fn key_webhooks() -> Seq<char> {
    "webhooks"@
}

/// The name under which the document holds the default's name.
pub open spec fn key_default_webhook() -> Seq<char> {
    "default_webhook"@
}

/// The two names of the document differ.
pub proof fn lemma_config_keys_differ()
    ensures
        key_webhooks() != key_default_webhook(),
{
    reveal_strlit("webhooks");
    reveal_strlit("default_webhook");
    assert(key_webhooks().len() == 8);
    assert(key_default_webhook().len() == 15);
}

/// The named values that a run of endpoints makes: each address as a string
/// under its name.
pub open spec fn webhook_pairs(webhooks: Seq<WebhookView>) -> Seq<(Seq<char>, NodeView)> {
    Seq::new(webhooks.len(), |i: int| (webhooks[i].name, NodeView::Text(webhooks[i].url)))
}

/// The document form of a config: the table of endpoints, and the default's
/// name where there is one.
pub open spec fn config_node(config: ConfigView) -> NodeView {
    let base = Map::empty().insert(
        key_webhooks(),
        NodeView::Table(table_of(webhook_pairs(config.webhooks))),
    );
    NodeView::Table(
        match config.default_webhook {
            Some(name) => base.insert(key_default_webhook(), NodeView::Text(name)),
            None => base,
        },
    )
}

/// The document holds endpoints: a table named `webhooks` whose values are
/// all strings, and, where it has a `default_webhook`, a string there.
pub open spec fn holds_config(node: NodeView) -> bool {
    &&& node.field(key_webhooks()) matches Some(NodeView::Table(table)) && forall|k: Seq<char>|
        table.dom().contains(k) ==> (#[trigger] table[k]) is Text
    &&& node.field(key_default_webhook()) matches Some(name) ==> name is Text
}

/// The config is what the document holds: it keeps every name once, under
/// every name the address that the table gives it and no name besides, and
/// the default that the document names. Only the order of the entries is
/// left open.
pub open spec fn config_of(node: NodeView, config: ConfigView) -> bool {
    &&& holds_config(node)
    &&& distinct(config.webhooks)
    &&& forall|k: Seq<char>| #[trigger]
        url_of(config.webhooks, k) == match node.field(key_webhooks()).unwrap().field(k) {
            Some(value) => value.text(),
            None => None,
        }
    &&& config.default_webhook == match node.field(key_default_webhook()) {
        Some(name) => name.text(),
        None => None,
    }
}

/// The address under a name is that of the last entry so named.
proof fn lemma_url_of_push(webhooks: Seq<WebhookView>, entry: WebhookView, name: Seq<char>)
    ensures
        url_of(webhooks.push(entry), name) == if entry.name == name {
            Some(entry.url)
        } else {
            url_of(webhooks, name)
        },
{
    assert(webhooks.push(entry).drop_last() =~= webhooks);
}

/// The table that a run of endpoints makes gives every name the address
/// that the run keeps under it, as a string.
proof fn lemma_webhook_table(webhooks: Seq<WebhookView>, name: Seq<char>)
    ensures
        (NodeView::Table(table_of(webhook_pairs(webhooks)))).field(name) == match url_of(
            webhooks,
            name,
        ) {
            Some(url) => Some(NodeView::Text(url)),
            None => None,
        },
    decreases webhooks.len(),
{
    if webhooks.len() > 0 {
        lemma_webhook_table(webhooks.drop_last(), name);
        assert(webhook_pairs(webhooks).drop_last() =~= webhook_pairs(webhooks.drop_last()));
    }
}

/// The document form of a config is plain, and it holds that config where
/// the config keeps every name once.
pub proof fn lemma_config_round_trip(config: ConfigView)
    ensures
        config_node(config).plain(),
        distinct(config.webhooks) ==> config_of(config_node(config), config),
{
    lemma_config_keys_differ();
    let pairs = webhook_pairs(config.webhooks);
    let inner = table_of(pairs);
    lemma_table_of_members(pairs);
    assert forall|k: Seq<char>| inner.dom().contains(k) implies (#[trigger] inner[k]) is Text
        && inner[k].plain() by {
        let i = choose|i: int| 0 <= i < pairs.len() && #[trigger] pairs[i] == (k, inner[k]);
    }
    let outer = config_node(config)->Table_0;
    assert(outer.dom() =~= match config.default_webhook {
        Some(_) => set![key_webhooks(), key_default_webhook()],
        None => set![key_webhooks()],
    });
    assert forall|k: Seq<char>| outer.dom().contains(k) implies (#[trigger] outer[k]).plain() by {}
    assert forall|k: Seq<char>| #[trigger]
        url_of(config.webhooks, k) == match NodeView::Table(inner).field(k) {
            Some(value) => value.text(),
            None => None,
        } by {
        lemma_webhook_table(config.webhooks, k);
    }
}

/// What loading gave: the config, and whether it was made new and has to be
/// stored.
#[derive(Debug)]
pub struct Loaded {
    pub config: Config,
    pub created: bool,
}

impl Config {
    /// The config's document form.
    pub fn to_node(&self) -> (r: Node)
        ensures
            r@ == config_node(self@),
            r@.plain(),
            node_writable(r),
    {
        let ghost all = self@.webhooks;
        let mut inner: Vec<Entry> = Vec::new();
        let mut i: usize = 0;
        while i < self.webhooks.len()
            invariant
                0 <= i <= self.webhooks.len(),
                all == self@.webhooks,
                inner@.len() == i,
                entry_pairs(inner@) == webhook_pairs(all.take(i as int)),
                forall|j: int| 0 <= j < i ==> node_writable((#[trigger] inner@[j]).value),
            decreases self.webhooks.len() - i,
        {
            let ghost before = entry_pairs(inner@);
            inner.push(
                Entry {
                    key: self.webhooks[i].name.clone(),
                    value: Node::from_text(self.webhooks[i].url.as_str()),
                },
            );
            proof {
                let after = entry_pairs(inner@);
                let wanted = webhook_pairs(all.take(i + 1));
                assert(after.len() == wanted.len());
                assert forall|j: int| 0 <= j < after.len() implies after[j] == wanted[j] by {
                    if j < i {
                        assert(after[j] == before[j]);
                        assert(before[j] == webhook_pairs(all.take(i as int))[j]);
                    }
                }
                assert(after =~= wanted);
            }
            i = i + 1;
        }
        assert(all.take(all.len() as int) =~= all);
        proof {
            lemma_table_view(inner);
            assert(node_writable(Node::Table(inner)));
        }
        let mut entries: Vec<Entry> = Vec::new();
        entries.push(Entry { key: "webhooks".to_owned(), value: Node::Table(inner) });
        match &self.default_webhook {
            Some(name) => {
                entries.push(
                    Entry { key: "default_webhook".to_owned(), value: Node::from_text(name.as_str()) },
                );
            },
            None => {},
        }
        proof {
            lemma_table_view(entries);
            let pairs = entry_pairs(entries@);
            let none = Seq::<(Seq<char>, NodeView)>::empty();
            lemma_table_of_push(none, pairs[0].0, pairs[0].1);
            if self.default_webhook is Some {
                lemma_table_of_push(none.push(pairs[0]), pairs[1].0, pairs[1].1);
                assert(pairs =~= none.push(pairs[0]).push(pairs[1]));
            } else {
                assert(pairs =~= none.push(pairs[0]));
            }
            lemma_config_round_trip(self@);
            assert forall|i: int| 0 <= i < entries@.len() implies node_writable(
                (#[trigger] entries@[i]).value,
            ) by {
                assert(i == 0 || i == 1);
            }
        }
        Node::Table(entries)
    }

    /// Reads the config that a document holds; `None` exactly where it holds
    /// none.
    #[verifier::loop_isolation(false)]
    pub fn from_node(node: &Node) -> (r: Option<Config>)
        ensures
            match r {
                Some(config) => config_of(node@, config@),
                None => !holds_config(node@),
            },
    {
        let default_webhook = match node.get(&"default_webhook".to_owned()) {
            Some(found) => match found.as_text() {
                Some(name) => Some(name.clone()),
                None => {
                    return None;
                },
            },
            None => None,
        };
        let table = match node.get(&"webhooks".to_owned()) {
            Some(found) => found,
            None => {
                return None;
            },
        };
        let entries = match table.as_table() {
            Some(entries) => entries,
            None => {
                return None;
            },
        };
        let ghost pairs = entry_pairs(entries@);
        let ghost map = table_of(pairs);
        proof {
            lemma_table_of_members(pairs);
        }
        let mut webhooks: Vec<Webhook> = Vec::new();
        let mut i: usize = 0;
        while i < entries.len()
            invariant
                0 <= i <= entries.len(),
                pairs == entry_pairs(entries@),
                map == table_of(pairs),
                table@ == NodeView::Table(map),
                forall|j: int| 0 <= j < pairs.len() ==> map.dom().contains(#[trigger] pairs[j].0),
                forall|k: Seq<char>| #[trigger]
                    url_of(webhooks_view(webhooks@), k) == if exists|j: int|
                        0 <= j < i && #[trigger] pairs[j].0 == k {
                        map[k].text()
                    } else {
                        None
                    },
                forall|j: int| 0 <= j < i ==> map[#[trigger] pairs[j].0] is Text,
                distinct(webhooks_view(webhooks@)),
            decreases entries.len() - i,
        {
            let key = &entries[i].key;
            assert(pairs[i as int].0 == key@);
            if find_url(&webhooks, key).is_some() {
                proof {
                    let j0 = choose|j: int| 0 <= j < i && #[trigger] pairs[j].0 == key@;
                    assert forall|k: Seq<char>| #[trigger]
                        url_of(webhooks_view(webhooks@), k) == if exists|j: int|
                            0 <= j < i + 1 && #[trigger] pairs[j].0 == k {
                            map[k].text()
                        } else {
                            None
                        } by {
                        if k == key@ {
                            assert(pairs[j0].0 == k);
                        } else if exists|j: int| 0 <= j < i + 1 && #[trigger] pairs[j].0 == k {
                            let j = choose|j: int| 0 <= j < i + 1 && #[trigger] pairs[j].0 == k;
                            assert(j < i);
                        }
                    }
                }
                i = i + 1;
                continue;
            }
            let url = match table.get(key) {
                Some(found) => match found.as_text() {
                    Some(url) => url.clone(),
                    None => {
                        assert(map.dom().contains(key@) && !(map[key@] is Text));
                        return None;
                    },
                },
                None => {
                    return None;
                },
            };
            let ghost before = webhooks_view(webhooks@);
            webhooks.push(Webhook { name: key.clone(), url });
            proof {
                let entry = WebhookView { name: key@, url: map[key@].text().unwrap() };
                assert(webhooks_view(webhooks@) =~= before.push(entry));
                lemma_distinct_kept(before, entry, key@);
                assert forall|k: Seq<char>| #[trigger]
                    url_of(webhooks_view(webhooks@), k) == if exists|j: int|
                        0 <= j < i + 1 && #[trigger] pairs[j].0 == k {
                        map[k].text()
                    } else {
                        None
                    } by {
                    lemma_url_of_push(before, entry, k);
                    if k == key@ {
                        assert(pairs[i as int].0 == k);
                    } else if exists|j: int| 0 <= j < i + 1 && #[trigger] pairs[j].0 == k {
                        let j = choose|j: int| 0 <= j < i + 1 && #[trigger] pairs[j].0 == k;
                        assert(j < i);
                    }
                }
            }
            i = i + 1;
        }
        let config = Config { webhooks, default_webhook };
        proof {
            assert forall|k: Seq<char>| map.dom().contains(k) implies (#[trigger] map[k]) is Text by {
                let j = choose|j: int| 0 <= j < pairs.len() && #[trigger] pairs[j] == (k, map[k]);
                assert(map[pairs[j].0] is Text);
            }
            assert forall|k: Seq<char>| #[trigger]
                url_of(config@.webhooks, k) == match table@.field(k) {
                    Some(value) => value.text(),
                    None => None,
                } by {
                if map.dom().contains(k) {
                    let j = choose|j: int| 0 <= j < pairs.len() && #[trigger] pairs[j] == (k, map[k]);
                    assert(pairs[j].0 == k);
                }
            }
        }
        Some(config)
    }

    /// Writes the config as the text of its document. `Malformed` only where
    /// the writer refuses the document.
    pub fn save(&self) -> (r: Result<String, ConfigError>)
        ensures
            match r {
                Ok(text) => toml_pretty_text(config_node(self@)) == Some(text@),
                Err(e) => e@ == ConfigErrorView::Malformed && toml_pretty_text(
                    config_node(self@),
                ) is None,
            },
    {
        let node = self.to_node();
        match toml_of_node(&node) {
            Some(value) => match write_toml_pretty(&value) {
                Ok(text) => Ok(text),
                Err(_) => Err(ConfigError::Malformed),
            },
            None => Err(ConfigError::Malformed),
        }
    }

    /// Loads the config from the text of its file, or makes a new one where
    /// there is no file yet (`text` is `None`); the new one keeps nothing
    /// and is marked as created, for the caller to store. Fails with
    /// `Malformed` where the text is no document or the document holds no
    /// config.
    pub fn load(text: Option<&str>) -> (r: Result<Loaded, ConfigError>)
        ensures
            match text {
                None => r matches Ok(loaded) && loaded.created && loaded.config@.webhooks.len() == 0
                    && loaded.config@.default_webhook is None && distinct(
                    loaded.config@.webhooks,
                ),
                Some(text) => match toml_document(text@) {
                    Some(node) => match r {
                        Ok(loaded) => !loaded.created && config_of(node, loaded.config@),
                        Err(e) => e@ == ConfigErrorView::Malformed && !holds_config(node),
                    },
                    None => r matches Err(e) && e@ == ConfigErrorView::Malformed,
                },
            },
    {
        match text {
            None => Ok(Loaded { config: Config::new(), created: true }),
            Some(text) => match read_toml(text) {
                Ok(value) => {
                    let node = node_of_toml(&value);
                    match Config::from_node(&node) {
                        Some(config) => Ok(Loaded { config, created: false }),
                        None => Err(ConfigError::Malformed),
                    }
                },
                Err(_) => Err(ConfigError::Malformed),
            },
        }
    }
}

/// Where the config file lies below a base directory.
#[derive(Debug)]
pub struct ConfigPath {
    /// The directory of the program below the base directory.
    pub directory: String,
    /// The file in that directory.
    pub file: String,
}

/// Names the directory and the file of the config below the base directory
/// that the caller has: the user's configuration directory, or the working
/// directory where the system names none.
pub fn get_configpath() -> (r: ConfigPath)
    ensures
        r.directory@ == "dcfzf"@,
        r.file@ == "config.toml"@,
{
    ConfigPath { directory: "dcfzf".to_owned(), file: "config.toml".to_owned() }
}

} // verus!
