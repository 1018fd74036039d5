//! From the `[event]` section to the plugin that is to be loaded.

use vstd::prelude::*;
use vstd::string::*;

use crate::config::{EventSubscribeConfig, EventTopicConfig};
use crate::text::{quoted, quoted_text, trim, trimmed};

verus! {

/// Why the event plugin cannot be loaded.
#[derive(Debug, Clone, PartialEq, Eq)]
pub enum EventLoaderError {
    /// The section is enabled without a path.
    MissingPath,
    /// The path has no file stem to name the plugin by.
    UnstemmablePath(String),
    /// The plugin itself failed.
    Plugin(String),
}

impl EventLoaderError {
    /// The failure in words.
    pub open spec fn text(&self) -> Seq<char> {
        match *self {
            EventLoaderError::MissingPath =>
                "event.subscribe.path is required when event.subscribe.enable = true (got empty string)"@,
            EventLoaderError::UnstemmablePath(p) => "event.subscribe.path "@ + quoted_text(p@)
                + " has no file stem (java-tron uses the file stem as the plugin id)"@,
            EventLoaderError::Plugin(s) => "plugin loader failed: "@ + s@,
        }
    }

    /// The failure in words.
    pub fn message(&self) -> (r: String)
        ensures
            r@ == self.text(),
    {
        match self {
            EventLoaderError::MissingPath =>
                "event.subscribe.path is required when event.subscribe.enable = true (got empty string)".to_owned(),
            EventLoaderError::UnstemmablePath(p) => {
                let mut s = "event.subscribe.path ".to_owned();
                let q = quoted(p.as_str());
                s.append(q.as_str());
                s.append(" has no file stem (java-tron uses the file stem as the plugin id)");
                s
            },
            EventLoaderError::Plugin(e) => {
                let mut s = "plugin loader failed: ".to_owned();
                s.append(e.as_str());
                s
            },
        }
    }
}

/// The name part of a path's last component, without its extension, as
/// `Path::file_stem` finds it.
pub uninterp spec fn stem_of(path: Seq<char>) -> Option<Seq<char>>;

/// `Path::file_stem`: the last component of a path without its extension, None
/// where there is none. It is a function of the path's text.
#[verifier::external_body]
pub(crate) fn file_stem(path: &str) -> (r: Option<String>)
    ensures
        (match r {
            Some(s) => Some(s@),
            None => None,
        }) == stem_of(path@),
{
    std::path::Path::new(path).file_stem().and_then(|s| s.to_str()).map(|s| s.to_string())
}

/// One trigger's settings as the plugin gets them.
#[derive(Debug, Clone)]
pub struct TopicEnable {
    pub trigger_name: String,
    pub enabled: bool,
    pub topic: String,
    pub redundancy: bool,
    pub eth_compatible: bool,
    pub solidified: bool,
}

/// What the plugin is built with.
#[derive(Debug, Clone)]
pub struct PluginParams {
    pub path: String,
    pub server: String,
    pub db_config: String,
    pub send_queue_length: usize,
    pub use_native_queue: bool,
    pub bind_port: u16,
    pub start_sync_block_num: i64,
    pub contract_parse: bool,
    pub topics: Vec<TopicEnable>,
}

/// Which event bus is to be built.
#[derive(Debug, Clone)]
pub enum EventPlan {
    /// A bus without listeners.
    Empty,
    /// A bus with the plugin of this id.
    Load { plugin_id: String, params: PluginParams },
}

/// Whether a trigger's settings are those of a configuration row.
pub open spec fn same_topic(t: TopicEnable, c: EventTopicConfig) -> bool {
    &&& t.trigger_name@ == c.trigger_name@
    &&& t.enabled == c.enable
    &&& t.topic@ == c.topic@
    &&& t.redundancy == c.redundancy
    &&& t.eth_compatible == c.eth_compatible
    &&& t.solidified == c.solidified
}

/// Whether the parameters are those of a configuration.
pub open spec fn same_params(p: PluginParams, c: EventSubscribeConfig) -> bool {
    &&& p.path@ == c.path@
    &&& p.server@ == c.server@
    &&& p.db_config@ == c.db_config@
    &&& p.send_queue_length == c.send_queue_length
    &&& p.use_native_queue == c.use_native_queue
    &&& p.bind_port == c.bind_port
    &&& p.start_sync_block_num == c.start_sync_block_num
    &&& p.contract_parse == c.contract_parse
    &&& p.topics@.len() == c.topics@.len()
    &&& forall|i: int|
        0 <= i < p.topics@.len() ==> same_topic(#[trigger] p.topics@[i], c.topics@[i])
}

/// Whether an outcome is the one owed for a configuration whose path has the
/// given stem.
pub open spec fn plan_is_owed(
    cfg: Option<EventSubscribeConfig>,
    stem: Option<Seq<char>>,
    r: Result<EventPlan, EventLoaderError>,
) -> bool {
    match cfg {
        None => r matches Ok(EventPlan::Empty),
        Some(c) => if !c.enable {
            r matches Ok(EventPlan::Empty)
        } else if trimmed(c.path@).len() == 0 {
            r matches Err(EventLoaderError::MissingPath)
        } else {
            match stem {
                None => r matches Err(EventLoaderError::UnstemmablePath(p)) && p@ == c.path@,
                Some(id) => r matches Ok(EventPlan::Load { plugin_id, params }) && plugin_id@ == id
                    && same_params(params, c),
            }
        },
    }
}

fn topic_to_enable(t: &EventTopicConfig) -> (r: TopicEnable)
    ensures
        same_topic(r, *t),
{
    TopicEnable {
        trigger_name: t.trigger_name.clone(),
        enabled: t.enable,
        topic: t.topic.clone(),
        redundancy: t.redundancy,
        eth_compatible: t.eth_compatible,
        solidified: t.solidified,
    }
}

fn params_of(cfg: &EventSubscribeConfig) -> (r: PluginParams)
    ensures
        same_params(r, *cfg),
{
    let mut topics: Vec<TopicEnable> = Vec::new();
    let mut i: usize = 0;
    while i < cfg.topics.len()
        invariant
            i <= cfg.topics@.len(),
            topics@.len() == i,
            forall|j: int| 0 <= j < i ==> same_topic(#[trigger] topics@[j], cfg.topics@[j]),
        decreases cfg.topics@.len() - i,
    {
        topics.push(topic_to_enable(&cfg.topics[i]));
        i = i + 1;
    }
    PluginParams {
        path: cfg.path.clone(),
        server: cfg.server.clone(),
        db_config: cfg.db_config.clone(),
        send_queue_length: cfg.send_queue_length,
        use_native_queue: cfg.use_native_queue,
        bind_port: cfg.bind_port,
        start_sync_block_num: cfg.start_sync_block_num,
        contract_parse: cfg.contract_parse,
        topics,
    }
}

/// The plan for a configuration whose path has the given stem.
pub fn plan_event_bus(cfg: Option<&EventSubscribeConfig>, stem: Option<String>) -> (r: Result<
    EventPlan,
    EventLoaderError,
>)
    ensures
        plan_is_owed(
            match cfg {
                Some(c) => Some(*c),
                None => None,
            },
            match stem {
                Some(s) => Some(s@),
                None => None,
            },
            r,
        ),
{
    match cfg {
        None => Ok(EventPlan::Empty),
        Some(c) => {
            if !c.enable {
                return Ok(EventPlan::Empty);
            }
            if trim(c.path.as_str()).unicode_len() == 0 {
                return Err(EventLoaderError::MissingPath);
            }
            match stem {
                None => Err(EventLoaderError::UnstemmablePath(c.path.clone())),
                Some(plugin_id) => Ok(EventPlan::Load { plugin_id, params: params_of(c) }),
            }
        },
    }
}

/// The plan for a configuration: nothing is loaded where the section is
/// missing or off; else the plugin is named by the stem of its path.
pub fn build_event_bus(cfg: Option<&EventSubscribeConfig>) -> (r: Result<
    EventPlan,
    EventLoaderError,
>)
    ensures
        plan_is_owed(
            match cfg {
                Some(c) => Some(*c),
                None => None,
            },
            match cfg {
                Some(c) => stem_of(c.path@),
                None => None,
            },
            r,
        ),
{
    match cfg {
        None => plan_event_bus(None, None),
        Some(c) => {
            let stem = file_stem(c.path.as_str());
            plan_event_bus(Some(c), stem)
        },
    }
}

/// A plugin is loaded only from an enabled section with a path, under the
/// path's stem, and with every setting of the section as it stands there.
pub proof fn plans_carry_the_settings(
    c: EventSubscribeConfig,
    stem: Option<Seq<char>>,
    r: Result<EventPlan, EventLoaderError>,
    i: int,
)
    requires
        plan_is_owed(Some(c), stem, r),
    ensures
        !c.enable ==> r is Ok && r->Ok_0 is Empty,
        c.enable && trimmed(c.path@).len() == 0 ==> r is Err && r->Err_0 is MissingPath,
        c.enable && trimmed(c.path@).len() > 0 && stem is None ==> r is Err
            && r->Err_0 is UnstemmablePath,
        r is Ok && r->Ok_0 is Load ==> c.enable && stem is Some,
        c.enable && trimmed(c.path@).len() > 0 && stem is Some ==> r is Ok && r->Ok_0 is Load && {
            let p = r->Ok_0->Load_params;
            &&& (r->Ok_0->Load_plugin_id)@ == stem->Some_0
            &&& p.path@ == c.path@
            &&& p.server@ == c.server@
            &&& p.db_config@ == c.db_config@
            &&& p.send_queue_length == c.send_queue_length
            &&& p.use_native_queue == c.use_native_queue
            &&& p.bind_port == c.bind_port
            &&& p.start_sync_block_num == c.start_sync_block_num
            &&& p.contract_parse == c.contract_parse
            &&& p.topics@.len() == c.topics@.len()
            &&& 0 <= i < c.topics@.len() ==> {
                &&& p.topics@[i].trigger_name@ == c.topics@[i].trigger_name@
                &&& p.topics@[i].enabled == c.topics@[i].enable
                &&& p.topics@[i].topic@ == c.topics@[i].topic@
                &&& p.topics@[i].redundancy == c.topics@[i].redundancy
                &&& p.topics@[i].eth_compatible == c.topics@[i].eth_compatible
                &&& p.topics@[i].solidified == c.topics@[i].solidified
            }
        },
{
    if r is Ok && r->Ok_0 is Load && 0 <= i < c.topics@.len() {
        let p = r->Ok_0->Load_params;
        assert(same_topic(p.topics@[i], c.topics@[i]));
    }
}

} // verus!
