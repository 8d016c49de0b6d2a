//! The plugin registry: registration, enabling, per-plugin configuration and tool lookup.
//!
//! A plugin is registered together with what it says of itself (name, description, tools);
//! its handler, of any type `H`, is kept alongside and handed back for tool execution.
use vstd::prelude::*;
use crate::error::AppError;
use crate::models::plugin::{PluginInfo, ToolDefinition};
use crate::text::same_text;

verus! {

/// A registered plugin.
struct PluginEntry<H> {
    handler: H,
    name: String,
    description: String,
    tools: Vec<ToolDefinition>,
    enabled: bool,
    config: Option<serde_json::Value>,
}

/// The plain state of a registered plugin.
pub struct PluginState {
    pub name: Seq<char>,
    pub description: Seq<char>,
    pub tools: Seq<ToolDefinition>,
    pub enabled: bool,
    pub config: Option<serde_json::Value>,
}

/// The plain state of an entry.
spec fn state_of<H>(e: PluginEntry<H>) -> PluginState {
    PluginState {
        name: e.name@,
        description: e.description@,
        tools: e.tools@,
        enabled: e.enabled,
        config: e.config,
    }
}

/// The registered plugins, in the order they were registered.
pub struct DefaultPluginRegistry<H> {
    entries: Vec<PluginEntry<H>>,
}

impl<H> View for DefaultPluginRegistry<H> {
    type V = Seq<PluginState>;

    closed spec fn view(&self) -> Seq<PluginState> {
        self.entries@.map_values(|e: PluginEntry<H>| state_of(e))
    }
}

/// No two plugins share a name.
pub open spec fn names_unique(v: Seq<PluginState>) -> bool {
    forall|i: int, j: int| 0 <= i < j < v.len() ==> v[i].name != v[j].name
}

/// Position of the plugin named `name`, or -1.
pub open spec fn position_of(v: Seq<PluginState>, name: Seq<char>) -> int
    decreases v.len(),
{
    if v.len() == 0 {
        -1
    } else if v.last().name == name {
        v.len() - 1
    } else {
        position_of(v.drop_last(), name)
    }
}

/// A plugin named `name` is registered.
pub open spec fn is_registered(v: Seq<PluginState>, name: Seq<char>) -> bool {
    position_of(v, name) >= 0
}

/// The configuration of the plugin named `name`; none when it is not registered.
pub open spec fn config_of(v: Seq<PluginState>, name: Seq<char>) -> Option<serde_json::Value> {
    if is_registered(v, name) {
        v[position_of(v, name)].config
    } else {
        None
    }
}

/// A plugin named `name` is registered and enabled.
pub open spec fn is_enabled(v: Seq<PluginState>, name: Seq<char>) -> bool {
    is_registered(v, name) && v[position_of(v, name)].enabled
}

/// The tools of the enabled plugins, in registration order.
pub open spec fn enabled_tools(v: Seq<PluginState>) -> Seq<ToolDefinition>
    decreases v.len(),
{
    if v.len() == 0 {
        Seq::empty()
    } else if v.last().enabled {
        enabled_tools(v.drop_last()) + v.last().tools
    } else {
        enabled_tools(v.drop_last())
    }
}

/// Whether a plugin's tools include one named `tool`.
pub open spec fn provides(p: PluginState, tool: Seq<char>) -> bool {
    exists|k: int| 0 <= k < p.tools.len() && #[trigger] p.tools[k].name@ == tool
}

/// Position of the first enabled plugin that provides the tool named `tool`, or -1.
pub open spec fn provider_of(v: Seq<PluginState>, tool: Seq<char>) -> int {
    first_provider_from(v, tool, 0)
}

/// Position of the first enabled plugin at or after `i` that provides `tool`, or -1.
pub open spec fn first_provider_from(v: Seq<PluginState>, tool: Seq<char>, i: int) -> int
    decreases v.len() - i,
{
    if i < 0 || i >= v.len() {
        -1
    } else if v[i].enabled && provides(v[i], tool) {
        i
    } else {
        first_provider_from(v, tool, i + 1)
    }
}

/// The state after registering a new plugin: appended, enabled, without configuration.
pub open spec fn registered(
    v: Seq<PluginState>,
    name: Seq<char>,
    description: Seq<char>,
    tools: Seq<ToolDefinition>,
) -> Seq<PluginState> {
    v.push(PluginState { name, description, tools, enabled: true, config: None })
}

/// The state after setting whether the plugin named `name` is enabled.
pub open spec fn with_enabled(v: Seq<PluginState>, name: Seq<char>, enabled: bool) -> Seq<
    PluginState,
> {
    let i = position_of(v, name);
    v.update(i, PluginState { enabled, ..v[i] })
}

/// The state after setting the configuration of the plugin named `name`.
pub open spec fn with_config(
    v: Seq<PluginState>,
    name: Seq<char>,
    config: serde_json::Value,
) -> Seq<PluginState> {
    let i = position_of(v, name);
    v.update(i, PluginState { config: Some(config), ..v[i] })
}

/// `Plugin '{name}'{rest}`.
pub open spec fn plugin_message(name: Seq<char>, rest: Seq<char>) -> Seq<char> {
    "Plugin '"@ + name + rest
}

proof fn lemma_position_of(v: Seq<PluginState>, name: Seq<char>)
    ensures
        position_of(v, name) >= 0 ==> position_of(v, name) < v.len() && v[position_of(
            v,
            name,
        )].name == name,
        position_of(v, name) < 0 ==> forall|i: int| 0 <= i < v.len() ==> v[i].name != name,
    decreases v.len(),
{
    if v.len() > 0 && v.last().name != name {
        lemma_position_of(v.drop_last(), name);
        assert forall|i: int| 0 <= i < v.len() && position_of(v, name) < 0 implies v[i].name
            != name by {
            if i < v.len() - 1 {
                assert(v[i] == v.drop_last()[i]);
            }
        }
    }
}

proof fn lemma_position_is(v: Seq<PluginState>, name: Seq<char>, i: int)
    requires
        names_unique(v),
        0 <= i < v.len(),
        v[i].name == name,
    ensures
        position_of(v, name) == i,
    decreases v.len(),
{
    if v.last().name != name {
        lemma_position_is(v.drop_last(), name, i);
    }
}

proof fn lemma_first_provider(v: Seq<PluginState>, tool: Seq<char>, i: int)
    requires
        0 <= i,
    ensures
        first_provider_from(v, tool, i) >= 0 ==> i <= first_provider_from(v, tool, i) < v.len()
            && v[first_provider_from(v, tool, i)].enabled && provides(
            v[first_provider_from(v, tool, i)],
            tool,
        ),
        first_provider_from(v, tool, i) < 0 ==> forall|j: int|
            i <= j < v.len() ==> !(v[j].enabled && provides(v[j], tool)),
    decreases v.len() - i,
{
    if i < v.len() && !(v[i].enabled && provides(v[i], tool)) {
        lemma_first_provider(v, tool, i + 1);
    }
}

fn clone_tool(t: &ToolDefinition) -> (r: ToolDefinition)
    ensures
        r == *t,
{
    ToolDefinition {
        name: t.name.clone(),
        description: t.description.clone(),
        parameters: t.parameters.clone(),
    }
}

fn clone_tools(ts: &Vec<ToolDefinition>) -> (r: Vec<ToolDefinition>)
    ensures
        r@ == ts@,
{
    let mut r: Vec<ToolDefinition> = Vec::new();
    let mut i: usize = 0;
    while i < ts.len()
        invariant
            i <= ts.len(),
            r@ == ts@.subrange(0, i as int),
        decreases ts.len() - i,
    {
        r.push(clone_tool(&ts[i]));
        i += 1;
    }
    assert(ts@.subrange(0, ts.len() as int) =~= ts@);
    r
}

fn clone_config(c: &Option<serde_json::Value>) -> (r: Option<serde_json::Value>)
    ensures
        r == *c,
{
    match c {
        Some(v) => Some(v.clone()),
        None => None,
    }
}

fn plugin_error_text(name: &str, rest: &str) -> (m: String)
    ensures
        m@ == plugin_message(name@, rest@),
{
    let mut m = String::from_str("Plugin '");
    m.append(name);
    m.append(rest);
    m
}

impl<H> DefaultPluginRegistry<H> {
    /// No two registered plugins share a name.
    pub open spec fn wf(&self) -> bool {
        names_unique(self@)
    }

    /// The handlers of the registered plugins, in the order of the plugins.
    pub closed spec fn handlers(&self) -> Seq<H> {
        self.entries@.map_values(|e: PluginEntry<H>| e.handler)
    }

    /// There is one handler for each registered plugin.
    pub proof fn lemma_handlers_len(&self)
        ensures
            self.handlers().len() == self@.len(),
    {
    }

    /// An empty registry.
    pub fn new() -> (t: Self)
        ensures
            t@ == Seq::<PluginState>::empty(),
            t.handlers() == Seq::<H>::empty(),
            t.wf(),
    {
        let t = DefaultPluginRegistry { entries: Vec::new() };
        assert(t@ =~= Seq::<PluginState>::empty());
        assert(t.handlers() =~= Seq::<H>::empty());
        t
    }

    /// Position of the plugin named `name`.
    fn find(&self, name: &str) -> (r: Option<usize>)
        requires
            self.wf(),
        ensures
            match r {
                Some(i) => i as int == position_of(self@, name@) && i < self@.len(),
                None => position_of(self@, name@) < 0,
            },
    {
        let mut i: usize = 0;
        while i < self.entries.len()
            invariant
                i <= self.entries.len(),
                names_unique(self@),
                forall|j: int| 0 <= j < i ==> self@[j].name != name@,
            decreases self.entries.len() - i,
        {
            if same_text(self.entries[i].name.as_str(), name) {
                proof {
                    lemma_position_is(self@, name@, i as int);
                }
                return Some(i);
            }
            i += 1;
        }
        proof {
            lemma_position_of(self@, name@);
            if position_of(self@, name@) >= 0 {
                assert(self@[position_of(self@, name@)].name == name@);
            }
        }
        None
    }

    /// Registers a plugin under its name, enabled and without configuration; a name that is
    /// already registered is refused and nothing changes.
    pub fn register(
        &mut self,
        handler: H,
        name: String,
        description: String,
        tools: Vec<ToolDefinition>,
    ) -> (r: Result<(), AppError>)
        requires
            old(self).wf(),
        ensures
            final(self).wf(),
            is_registered(old(self)@, name@) ==> (final(self)@ == old(self)@ && final(self).handlers() == old(self).handlers() && (r matches Err(AppError::Plugin(m)) && m@
                == plugin_message(name@, "' is already registered"@))),
            !is_registered(old(self)@, name@) ==> r is Ok && final(self)@ == registered(
                old(self)@,
                name@,
                description@,
                tools@,
            ) && final(self).handlers() == old(self).handlers().push(handler),
    {
        match self.find(name.as_str()) {
            Some(_) => {
                let m = plugin_error_text(name.as_str(), "' is already registered");
                Err(AppError::Plugin(m))
            },
            None => {
                proof {
                    lemma_position_of(self@, name@);
                }
                let ghost nm = name@;
                let ghost d = description@;
                let ghost ts = tools@;
                let ghost h = handler;
                self.entries.push(
                    PluginEntry { handler, name, description, tools, enabled: true, config: None },
                );
                assert(self@ =~= registered(old(self)@, nm, d, ts));
                assert(self.handlers() =~= old(self).handlers().push(h));
                Ok(())
            },
        }
    }

    /// Removes the plugin named `name`; a name that is not registered is a `NotFound` error.
    pub fn unregister(&mut self, name: &str) -> (r: Result<(), AppError>)
        requires
            old(self).wf(),
        ensures
            final(self).wf(),
            !is_registered(old(self)@, name@) ==> (final(self)@ == old(self)@ && final(self).handlers() == old(self).handlers() && (r matches Err(AppError::NotFound(m)) && m@
                == plugin_message(name@, "' not found"@))),
            is_registered(old(self)@, name@) ==> r is Ok && final(self)@ == old(self)@.remove(
                position_of(old(self)@, name@),
            ) && final(self).handlers() == old(self).handlers().remove(
                position_of(old(self)@, name@),
            ),
    {
        match self.find(name) {
            None => Err(AppError::NotFound(plugin_error_text(name, "' not found"))),
            Some(i) => {
                self.entries.remove(i);
                assert(self@ =~= old(self)@.remove(i as int));
                assert(self.handlers() =~= old(self).handlers().remove(i as int));
                Ok(())
            },
        }
    }

    /// Describes each registered plugin, in registration order, as version 1.0.0.
    pub fn list_plugins(&self) -> (infos: Vec<PluginInfo>)
        ensures
            infos.len() == self@.len(),
            forall|i: int|
                0 <= i < self@.len() ==> {
                    &&& (#[trigger] infos@[i]).name@ == self@[i].name
                    &&& infos@[i].description@ == self@[i].description
                    &&& infos@[i].version@ == "1.0.0"@
                    &&& infos@[i].enabled == self@[i].enabled
                    &&& infos@[i].tools@ == self@[i].tools
                    &&& infos@[i].config == self@[i].config
                },
    {
        let mut infos: Vec<PluginInfo> = Vec::new();
        let mut i: usize = 0;
        while i < self.entries.len()
            invariant
                i <= self.entries.len(),
                infos.len() == i,
                forall|j: int|
                    0 <= j < i ==> {
                        &&& (#[trigger] infos@[j]).name@ == self@[j].name
                        &&& infos@[j].description@ == self@[j].description
                        &&& infos@[j].version@ == "1.0.0"@
                        &&& infos@[j].enabled == self@[j].enabled
                        &&& infos@[j].tools@ == self@[j].tools
                        &&& infos@[j].config == self@[j].config
                    },
            decreases self.entries.len() - i,
        {
            let e = &self.entries[i];
            infos.push(
                PluginInfo {
                    name: e.name.clone(),
                    description: e.description.clone(),
                    version: String::from_str("1.0.0"),
                    enabled: e.enabled,
                    tools: clone_tools(&e.tools),
                    config: clone_config(&e.config),
                },
            );
            i += 1;
        }
        infos
    }

    fn set_enabled(&mut self, name: &str, enabled: bool) -> (r: Result<(), AppError>)
        requires
            old(self).wf(),
        ensures
            final(self).wf(),
            final(self).handlers() == old(self).handlers(),
            !is_registered(old(self)@, name@) ==> (final(self)@ == old(self)@ && (r matches Err(
                AppError::NotFound(m),
            ) && m@ == plugin_message(name@, "' not found"@))),
            is_registered(old(self)@, name@) ==> r is Ok && final(self)@ == with_enabled(
                old(self)@,
                name@,
                enabled,
            ),
    {
        match self.find(name) {
            None => Err(AppError::NotFound(plugin_error_text(name, "' not found"))),
            Some(i) => {
                let mut e = self.entries.remove(i);
                e.enabled = enabled;
                self.entries.insert(i, e);
                assert(self@ =~= with_enabled(old(self)@, name@, enabled));
                assert(self.handlers() =~= old(self).handlers());
                Ok(())
            },
        }
    }

    /// Enables the plugin named `name`; `NotFound` when it is not registered.
    pub fn enable_plugin(&mut self, name: &str) -> (r: Result<(), AppError>)
        requires
            old(self).wf(),
        ensures
            final(self).wf(),
            final(self).handlers() == old(self).handlers(),
            !is_registered(old(self)@, name@) ==> (final(self)@ == old(self)@ && (r matches Err(
                AppError::NotFound(m),
            ) && m@ == plugin_message(name@, "' not found"@))),
            is_registered(old(self)@, name@) ==> r is Ok && final(self)@ == with_enabled(
                old(self)@,
                name@,
                true,
            ),
    {
        self.set_enabled(name, true)
    }

    /// Disables the plugin named `name`; `NotFound` when it is not registered.
    pub fn disable_plugin(&mut self, name: &str) -> (r: Result<(), AppError>)
        requires
            old(self).wf(),
        ensures
            final(self).wf(),
            final(self).handlers() == old(self).handlers(),
            !is_registered(old(self)@, name@) ==> (final(self)@ == old(self)@ && (r matches Err(
                AppError::NotFound(m),
            ) && m@ == plugin_message(name@, "' not found"@))),
            is_registered(old(self)@, name@) ==> r is Ok && final(self)@ == with_enabled(
                old(self)@,
                name@,
                false,
            ),
    {
        self.set_enabled(name, false)
    }

    /// The configuration of the plugin named `name`; none when it has none or is not registered.
    pub fn get_plugin_config(&self, name: &str) -> (c: Option<serde_json::Value>)
        requires
            self.wf(),
        ensures
            c == config_of(self@, name@),
    {
        match self.find(name) {
            Some(i) => clone_config(&self.entries[i].config),
            None => None,
        }
    }

    /// Sets the configuration of the plugin named `name`; `NotFound` when it is not registered.
    pub fn set_plugin_config(&mut self, name: &str, config: serde_json::Value) -> (r: Result<
        (),
        AppError,
    >)
        requires
            old(self).wf(),
        ensures
            final(self).wf(),
            final(self).handlers() == old(self).handlers(),
            !is_registered(old(self)@, name@) ==> (final(self)@ == old(self)@ && (r matches Err(
                AppError::NotFound(m),
            ) && m@ == plugin_message(name@, "' not found"@))),
            is_registered(old(self)@, name@) ==> r is Ok && final(self)@ == with_config(
                old(self)@,
                name@,
                config,
            ),
    {
        match self.find(name) {
            None => Err(AppError::NotFound(plugin_error_text(name, "' not found"))),
            Some(i) => {
                let ghost c = config;
                let mut e = self.entries.remove(i);
                e.config = Some(config);
                self.entries.insert(i, e);
                assert(self@ =~= with_config(old(self)@, name@, c));
                assert(self.handlers() =~= old(self).handlers());
                Ok(())
            },
        }
    }

    /// The tools of the enabled plugins, in registration order.
    pub fn get_enabled_tools(&self) -> (tools: Vec<ToolDefinition>)
        ensures
            tools@ == enabled_tools(self@),
    {
        let mut tools: Vec<ToolDefinition> = Vec::new();
        let mut i: usize = 0;
        while i < self.entries.len()
            invariant
                i <= self.entries.len(),
                tools@ == enabled_tools(self@.subrange(0, i as int)),
            decreases self.entries.len() - i,
        {
            assert(self@.subrange(0, i + 1).drop_last() =~= self@.subrange(0, i as int));
            let e = &self.entries[i];
            if e.enabled {
                let ts = clone_tools(&e.tools);
                let mut k: usize = 0;
                let ghost before = tools@;
                while k < ts.len()
                    invariant
                        k <= ts.len(),
                        tools@ == before + ts@.subrange(0, k as int),
                    decreases ts.len() - k,
                {
                    tools.push(clone_tool(&ts[k]));
                    k += 1;
                    assert(ts@.subrange(0, k as int) =~= ts@.subrange(0, k - 1) + seq![ts@[k - 1]]);
                }
                assert(ts@.subrange(0, ts.len() as int) =~= ts@);
            }
            i += 1;
        }
        assert(self@.subrange(0, self.entries.len() as int) =~= self@);
        tools
    }

    /// Position of the first enabled plugin that provides the tool named `tool_name`.
    pub fn find_tool_provider(&self, tool_name: &str) -> (r: Option<usize>)
        ensures
            match r {
                Some(i) => i < self@.len() && i as int == provider_of(self@, tool_name@),
                None => provider_of(self@, tool_name@) < 0,
            },
    {
        let mut i: usize = 0;
        while i < self.entries.len()
            invariant
                i <= self.entries.len(),
                provider_of(self@, tool_name@) == first_provider_from(self@, tool_name@, i as int),
            decreases self.entries.len() - i,
        {
            let e = &self.entries[i];
            assert(self@[i as int].tools == e.tools@ && self@[i as int].enabled == e.enabled);
            if e.enabled {
                let mut k: usize = 0;
                while k < e.tools.len()
                    invariant
                        k <= e.tools.len(),
                        e == &self.entries@[i as int],
                        self@[i as int].tools == e.tools@,
                        self@[i as int].enabled,
                        i < self.entries.len(),
                        provider_of(self@, tool_name@) == first_provider_from(
                            self@,
                            tool_name@,
                            i as int,
                        ),
                        forall|m: int| 0 <= m < k ==> e.tools@[m].name@ != tool_name@,
                    decreases e.tools.len() - k,
                {
                    if same_text(e.tools[k].name.as_str(), tool_name) {
                        assert(self@[i as int].tools[k as int].name@ == tool_name@);
                        assert(provides(self@[i as int], tool_name@));
                        return Some(i);
                    }
                    k += 1;
                }
                assert(!provides(self@[i as int], tool_name@));
            }
            i += 1;
        }
        None
    }

    /// The plugin that executes a tool call: the first enabled plugin providing a tool of the
    /// call's name; when there is none the call fails with `NotFound`.
    pub fn route_tool_call(&self, tool_name: &str) -> (r: Result<usize, AppError>)
        ensures
            match r {
                Ok(i) => i < self@.len() && i as int == provider_of(self@, tool_name@),
                Err(e) => provider_of(self@, tool_name@) < 0 && (e matches AppError::NotFound(m)
                    && m@ == "No enabled plugin provides tool '"@ + tool_name@ + "'"@),
            },
    {
        match self.find_tool_provider(tool_name) {
            Some(i) => Ok(i),
            None => {
                let mut m = String::from_str("No enabled plugin provides tool '");
                m.append(tool_name);
                m.append("'");
                Err(AppError::NotFound(m))
            },
        }
    }

    /// The handler of the plugin at position `i`.
    pub fn handler(&self, i: usize) -> (h: &H)
        requires
            i < self@.len(),
        ensures
            *h == self.handlers()[i as int],
    {
        &self.entries[i].handler
    }
}

// ---------------------------------------------------------------------------------------
// Laws
// ---------------------------------------------------------------------------------------

/// A newly registered plugin is enabled, has no configuration, and its name is taken.
pub proof fn lemma_register_then_lookup(
    v: Seq<PluginState>,
    name: Seq<char>,
    description: Seq<char>,
    tools: Seq<ToolDefinition>,
)
    requires
        names_unique(v),
        !is_registered(v, name),
    ensures
        names_unique(registered(v, name, description, tools)),
        is_registered(registered(v, name, description, tools), name),
        is_enabled(registered(v, name, description, tools), name),
        config_of(registered(v, name, description, tools), name) is None,
{
    let w = registered(v, name, description, tools);
    lemma_position_of(v, name);
    assert(names_unique(w));
    lemma_position_is(w, name, v.len() as int);
}

/// Read after write: the configuration set for a registered plugin is the one read back, and
/// the configurations of the other plugins do not change.
pub proof fn lemma_config_read_after_write(
    v: Seq<PluginState>,
    name: Seq<char>,
    other: Seq<char>,
    config: serde_json::Value,
)
    requires
        names_unique(v),
        is_registered(v, name),
    ensures
        names_unique(with_config(v, name, config)),
        config_of(with_config(v, name, config), name) == Some(config),
        other != name ==> config_of(with_config(v, name, config), other) == config_of(v, other),
{
    let w = with_config(v, name, config);
    lemma_position_of(v, name);
    assert(names_unique(w));
    lemma_position_is(w, name, position_of(v, name));
    lemma_position_of(v, other);
    if other != name && position_of(v, other) >= 0 {
        lemma_position_is(w, other, position_of(v, other));
    } else if other != name {
        lemma_position_of(w, other);
    }
}

/// A disabled plugin provides no tool: no tool lookup finds it, whatever the tool.
pub proof fn lemma_disabled_provides_nothing(v: Seq<PluginState>, name: Seq<char>, tool: Seq<char>)
    requires
        names_unique(v),
        is_registered(v, name),
    ensures
        provider_of(with_enabled(v, name, false), tool) != position_of(v, name),
        !is_enabled(with_enabled(v, name, false), name),
{
    let w = with_enabled(v, name, false);
    lemma_position_of(v, name);
    assert(names_unique(w));
    lemma_position_is(w, name, position_of(v, name));
    lemma_first_provider(w, tool, 0);
}

/// Enabling or disabling one plugin changes only that plugin's enabled flag: every other
/// plugin stays enabled or disabled as it was, and every configuration stays as it was.
pub proof fn lemma_enable_is_local(
    v: Seq<PluginState>,
    name: Seq<char>,
    other: Seq<char>,
    enabled: bool,
)
    requires
        names_unique(v),
        is_registered(v, name),
    ensures
        names_unique(with_enabled(v, name, enabled)),
        config_of(with_enabled(v, name, enabled), other) == config_of(v, other),
        is_enabled(with_enabled(v, name, enabled), name) == enabled,
        other != name ==> is_enabled(with_enabled(v, name, enabled), other) == is_enabled(
            v,
            other,
        ),
{
    let w = with_enabled(v, name, enabled);
    lemma_position_of(v, name);
    assert(names_unique(w));
    lemma_position_is(w, name, position_of(v, name));
    lemma_position_of(v, other);
    if position_of(v, other) >= 0 {
        lemma_position_is(w, other, position_of(v, other));
    } else {
        lemma_position_of(w, other);
    }
}

/// After unregistering, the name is free again and no other plugin is lost.
pub proof fn lemma_unregister_frees_name(v: Seq<PluginState>, name: Seq<char>, other: Seq<char>)
    requires
        names_unique(v),
        is_registered(v, name),
    ensures
        names_unique(v.remove(position_of(v, name))),
        !is_registered(v.remove(position_of(v, name)), name),
        other != name ==> is_registered(v.remove(position_of(v, name)), other) == is_registered(
            v,
            other,
        ),
{
    let p = position_of(v, name);
    let w = v.remove(p);
    lemma_position_of(v, name);
    assert(names_unique(w));
    lemma_position_of(w, name);
    lemma_position_of(w, other);
    lemma_position_of(v, other);
    if other != name && position_of(v, other) >= 0 {
        let q = position_of(v, other);
        if q < p {
            lemma_position_is(w, other, q);
        } else {
            lemma_position_is(w, other, q - 1);
        }
    }
    if position_of(w, name) >= 0 {
        let q = position_of(w, name);
        if q < p {
            assert(w[q] == v[q]);
        } else {
            assert(w[q] == v[q + 1]);
        }
    }
}

} // verus!
