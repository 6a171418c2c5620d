//! Plugin settings kept beside the registry: whether each plugin is enabled, the
//! permissions it was granted and its settings. Reading and writing the settings files
//! is the host's; the rules they feed are decided here.
use vstd::prelude::*;
use crate::macos_integrations::joined;
use crate::plugin_info::{PluginDependency, PluginInfo};
use crate::plugin_registry::{key_pos, lemma_key_pos, PluginRegistry};
use crate::text::{chars_of, push_str, str_eq, string_of, views};

verus! {

/// The settings of one plugin. Setting values are JSON text.
#[derive(Debug, Clone, PartialEq)]
pub struct PluginConfig {
    pub enabled: bool,
    pub settings: Vec<(String, String)>,
    pub permissions: Vec<String>,
    pub auto_update: bool,
}

impl Default for PluginConfig {
    /// Enabled, no settings, allowed to read and write files, no automatic updates.
    fn default() -> (r: Self)
        ensures
            r.enabled,
            r.settings@.len() == 0,
            views(r.permissions@) == seq!["read_files"@, "write_files"@],
            !r.auto_update,
    {
        let mut permissions: Vec<String> = Vec::new();
        permissions.push(String::from_str("read_files"));
        permissions.push(String::from_str("write_files"));
        assert(views(permissions@) =~= seq!["read_files"@, "write_files"@]);
        PluginConfig { enabled: true, settings: Vec::new(), permissions, auto_update: false }
    }
}

/// The registry with each plugin's settings; a name's settings are the first record
/// under it.
pub struct PluginManager<P> {
    pub registry: PluginRegistry<P>,
    pub configs: Vec<(String, PluginConfig)>,
    pub plugin_directory: String,
    pub config_directory: String,
}

/// The names of the dependencies in `deps` that are required and not registered, in
/// order.
pub open spec fn missing_required<P>(registry: PluginRegistry<P>, deps: Seq<PluginDependency>) -> Seq<
    Seq<char>,
>
    decreases deps.len(),
{
    if deps.len() == 0 {
        Seq::empty()
    } else {
        let rest = missing_required(registry, deps.drop_last());
        if !deps.last().optional && !registry.registered(deps.last().name@) {
            rest.push(deps.last().name@)
        } else {
            rest
        }
    }
}

impl<P> PluginManager<P> {
    /// The settings records under their names.
    pub open spec fn configs(self) -> Seq<(String, PluginConfig)> {
        self.configs@
    }

    /// The settings recorded for `name`.
    pub open spec fn config_of(self, name: Seq<char>) -> Option<PluginConfig> {
        match key_pos(self.configs(), name) {
            Some(i) => Some(self.configs()[i].1),
            None => None,
        }
    }

    /// A plugin is enabled unless its settings say otherwise.
    pub open spec fn enabled(self, name: Seq<char>) -> bool {
        match self.config_of(name) {
            Some(c) => c.enabled,
            None => true,
        }
    }

    /// A manager over `registry` for plugins in `plugin_directory`, whose settings
    /// files live in its `configs` directory; no settings are recorded yet.
    pub fn new(plugin_directory: String, registry: PluginRegistry<P>) -> (r: Self)
        ensures
            r.plugin_directory@ == plugin_directory@,
            r.config_directory@ == plugin_directory@ + "/configs"@,
            r.configs().len() == 0,
            r.registry == registry,
    {
        let mut d = chars_of(plugin_directory.as_str());
        push_str(&mut d, "/configs");
        let config_directory = string_of(d.as_slice());
        PluginManager { registry, configs: Vec::new(), plugin_directory, config_directory }
    }

    /// Where the settings of `plugin_name` are stored: `<config dir>/<name>.json`.
    pub fn config_path(&self, plugin_name: &str) -> (r: String)
        ensures
            r@ == self.config_directory@ + "/"@ + plugin_name@ + ".json"@,
    {
        let mut p = chars_of(self.config_directory.as_str());
        push_str(&mut p, "/");
        push_str(&mut p, plugin_name);
        push_str(&mut p, ".json");
        string_of(p.as_slice())
    }

    fn find(&self, name: &str) -> (r: Option<usize>)
        ensures
            match r {
                Some(i) => i < self.configs@.len() && key_pos(self.configs@, name@) == Some(i as int),
                None => key_pos(self.configs@, name@) is None,
            },
    {
        proof {
            lemma_key_pos(self.configs@, name@);
        }
        let ghost found = key_pos(self.configs@, name@);
        let mut i: usize = 0;
        while i < self.configs.len()
            invariant
                i <= self.configs@.len(),
                found == key_pos(self.configs@, name@),
                forall|j: int| 0 <= j < i ==> self.configs@[j].0@ != name@,
                match found {
                    Some(k) => 0 <= k < self.configs@.len() && self.configs@[k].0@ == name@
                        && forall|j: int| 0 <= j < k ==> self.configs@[j].0@ != name@,
                    None => forall|j: int| 0 <= j < self.configs@.len() ==> self.configs@[j].0@ != name@,
                },
            decreases self.configs@.len() - i,
        {
            if str_eq(self.configs[i].0.as_str(), name) {
                return Some(i);
            }
            i = i + 1;
        }
        None
    }

    /// The settings recorded for `name`.
    pub fn get_plugin_config(&self, name: &str) -> (r: Option<&PluginConfig>)
        ensures
            match key_pos(self.configs(), name@) {
                Some(i) => r == Some(&self.configs()[i].1),
                None => r is None,
            },
    {
        match self.find(name) {
            Some(i) => Some(&self.configs[i].1),
            None => None,
        }
    }

    /// Records `config` as the settings of `name`, replacing what was recorded.
    pub fn update_plugin_config(&mut self, name: &str, config: PluginConfig)
        ensures
            final(self).config_of(name@) == Some(config),
            forall|n: Seq<char>| n != name@ ==> final(self).config_of(n) == old(self).config_of(n),
            final(self).registry == old(self).registry,
            final(self).plugin_directory == old(self).plugin_directory,
            final(self).config_directory == old(self).config_directory,
    {
        let ghost old_configs = self.configs@;
        let mut table: Vec<(String, PluginConfig)> = Vec::new();
        std::mem::swap(&mut table, &mut self.configs);
        proof {
            lemma_key_pos(old_configs, name@);
        }
        let ghost cfg = config;
        match self.find_in(&table, name) {
            Some(i) => {
                let key = table[i].0.clone();
                table.set(i, (key, config));
                proof {
                    lemma_key_pos(table@, name@);
                    assert(table@[i as int].0@ == name@);
                    assert forall|j: int| 0 <= j < i implies table@[j].0@ != name@ by {
                        assert(table@[j] == old_configs[j]);
                    }
                    assert(key_pos(table@, name@) == Some(i as int));
                }
            },
            None => {
                table.push((String::from_str(name), config));
                proof {
                    lemma_key_pos(table@, name@);
                    let n = old_configs.len() as int;
                    assert(table@[n].0@ == name@);
                    assert forall|j: int| 0 <= j < n implies table@[j].0@ != name@ by {
                        assert(table@[j] == old_configs[j]);
                    }
                    assert(key_pos(table@, name@) == Some(n));
                }
            },
        }
        assert(key_pos(table@, name@) matches Some(i) && table@[i].1 == cfg);
        proof {
            lemma_key_pos(table@, name@);
            assert forall|n: Seq<char>| n != name@ implies key_pos(table@, n) == key_pos(old_configs, n)
                && (key_pos(table@, n) matches Some(j) ==> table@[j] == old_configs[j]) by {
                lemma_key_pos(table@, n);
                lemma_key_pos(old_configs, n);
                match key_pos(old_configs, n) {
                    Some(j) => {
                        assert(table@[j] == old_configs[j]);
                    },
                    None => {
                        if key_pos(table@, n) is Some {
                            let j = key_pos(table@, n)->0;
                            if j < old_configs.len() {
                                assert(table@[j].0@ == old_configs[j].0@);
                            }
                        }
                    },
                }
            }
        }
        self.configs = table;
    }

    fn find_in(&self, table: &Vec<(String, PluginConfig)>, name: &str) -> (r: Option<usize>)
        ensures
            match r {
                Some(i) => i < table@.len() && key_pos(table@, name@) == Some(i as int),
                None => key_pos(table@, name@) is None,
            },
    {
        proof {
            lemma_key_pos(table@, name@);
        }
        let ghost found = key_pos(table@, name@);
        let mut i: usize = 0;
        while i < table.len()
            invariant
                i <= table@.len(),
                found == key_pos(table@, name@),
                forall|j: int| 0 <= j < i ==> table@[j].0@ != name@,
                match found {
                    Some(k) => 0 <= k < table@.len() && table@[k].0@ == name@ && forall|j: int|
                        0 <= j < k ==> table@[j].0@ != name@,
                    None => forall|j: int| 0 <= j < table@.len() ==> table@[j].0@ != name@,
                },
            decreases table@.len() - i,
        {
            if str_eq(table[i].0.as_str(), name) {
                return Some(i);
            }
            i = i + 1;
        }
        None
    }

    /// Whether `name` is enabled: as its settings say, and enabled when it has none.
    pub fn is_plugin_enabled(&self, name: &str) -> (r: bool)
        ensures
            r == self.enabled(name@),
    {
        match self.get_plugin_config(name) {
            Some(c) => c.enabled,
            None => true,
        }
    }

    /// Turns `name` on or off, keeping its other settings. Fails when `name` has no
    /// settings recorded.
    pub fn set_plugin_enabled(&mut self, name: &str, enabled: bool) -> (r: Result<(), String>)
        ensures
            match old(self).config_of(name@) {
                None => (r matches Err(e) && e@ == "Plugin '"@ + name@ + "' not found"@)
                    && final(self).configs() == old(self).configs(),
                Some(c) => r is Ok && final(self).enabled(name@) == enabled
                    && (final(self).config_of(name@) matches Some(c2) && c2.permissions@ == c.permissions@
                    && c2.settings@ == c.settings@ && c2.auto_update == c.auto_update),
            },
            forall|n: Seq<char>| n != name@ ==> final(self).config_of(n) == old(self).config_of(n),
            final(self).registry == old(self).registry,
    {
        let updated = match self.get_plugin_config(name) {
            None => {
                let mut m = chars_of("Plugin '");
                push_str(&mut m, name);
                push_str(&mut m, "' not found");
                return Err(string_of(m.as_slice()));
            },
            Some(c) => PluginConfig {
                enabled,
                settings: clone_settings(&c.settings),
                permissions: crate::workflow_types::clone_strings(&c.permissions),
                auto_update: c.auto_update,
            },
        };
        self.update_plugin_config(name, updated);
        Ok(())
    }

    /// Whether the settings of `name` grant `permission`; a plugin with no settings has
    /// none.
    pub fn validate_plugin_permissions(&self, name: &str, permission: &str) -> (r: bool)
        ensures
            r == (self.config_of(name@) matches Some(c) && views(c.permissions@).contains(permission@)),
    {
        match self.get_plugin_config(name) {
            None => false,
            Some(c) => {
                let mut i: usize = 0;
                while i < c.permissions.len()
                    invariant
                        i <= c.permissions@.len(),
                        self.config_of(name@) == Some(*c),
                        forall|j: int| 0 <= j < i ==> (#[trigger] c.permissions@[j])@ != permission@,
                    decreases c.permissions@.len() - i,
                {
                    if str_eq(c.permissions[i].as_str(), permission) {
                        assert(views(c.permissions@)[i as int] == permission@);
                        return true;
                    }
                    i = i + 1;
                }
                assert(!views(c.permissions@).contains(permission@)) by {
                    if views(c.permissions@).contains(permission@) {
                        let j = choose|j: int|
                            0 <= j < views(c.permissions@).len() && views(c.permissions@)[j] == permission@;
                        assert(c.permissions@[j]@ == permission@);
                    }
                }
                false
            },
        }
    }

    /// Checks that every required dependency of the plugin registered under `name` is
    /// registered, naming all that are missing.
    pub fn validate_plugin_dependencies(&self, name: &str) -> (r: Result<(), String>)
        ensures
            match key_pos(self.registry.entries(), name@) {
                None => (r matches Err(e) && e@ == "Plugin '"@ + name@ + "' not found"@),
                Some(i) => {
                    let missing = missing_required(
                        self.registry,
                        self.registry.entries()[i].1.info.dependencies@,
                    );
                    if missing.len() == 0 {
                        r is Ok
                    } else {
                        r matches Err(e) && e@ == "Missing required dependencies: "@ + joined(
                            missing,
                            ", "@,
                        )
                    }
                },
            },
    {
        match self.registry.get(name) {
            None => {
                let mut m = chars_of("Plugin '");
                push_str(&mut m, name);
                push_str(&mut m, "' not found");
                Err(string_of(m.as_slice()))
            },
            Some(p) => {
                let deps = &p.info.dependencies;
                let mut out: Vec<char> = Vec::new();
                let mut count: usize = 0;
                let mut k: usize = 0;
                while k < deps.len()
                    invariant
                        k <= deps@.len(),
                        count <= k,
                        count == missing_required(self.registry, deps@.subrange(0, k as int)).len(),
                        out@ == joined(missing_required(self.registry, deps@.subrange(0, k as int)), ", "@),
                    decreases deps@.len() - k,
                {
                    let ghost before = missing_required(self.registry, deps@.subrange(0, k as int));
                    assert(deps@.subrange(0, k + 1).drop_last() =~= deps@.subrange(0, k as int));
                    let dep = &deps[k];
                    if !dep.optional && self.registry.get(dep.name.as_str()).is_none() {
                        if count > 0 {
                            push_str(&mut out, ", ");
                        }
                        push_str(&mut out, dep.name.as_str());
                        count = count + 1;
                        assert(before.push(dep.name@).drop_last() =~= before);
                    }
                    k = k + 1;
                }
                assert(deps@.subrange(0, deps@.len() as int) =~= deps@);
                if count == 0 {
                    Ok(())
                } else {
                    let mut m = chars_of("Missing required dependencies: ");
                    let ghost list = out@;
                    let mut i: usize = 0;
                    while i < out.len()
                        invariant
                            i <= out@.len(),
                            m@ == "Missing required dependencies: "@ + out@.subrange(0, i as int),
                        decreases out@.len() - i,
                    {
                        m.push(out[i]);
                        i = i + 1;
                        assert(m@ =~= "Missing required dependencies: "@ + out@.subrange(0, i as int));
                    }
                    assert(out@.subrange(0, out@.len() as int) =~= out@);
                    Err(string_of(m.as_slice()))
                }
            },
        }
    }

    /// Every registered plugin's name, whether it is enabled and its metadata, in
    /// registry order.
    pub fn list_plugins_with_status(&self) -> (r: Vec<(String, bool, &PluginInfo)>)
        ensures
            r@.len() == self.registry.entries().len(),
            forall|i: int|
                0 <= i < r@.len() ==> r@[i].0@ == self.registry.entries()[i].0@ && r@[i].1
                    == self.enabled(self.registry.entries()[i].0@) && *r@[i].2
                    == self.registry.entries()[i].1.info,
    {
        let names = self.registry.plugin_names();
        let infos = self.registry.list_plugins();
        assert(views(names@).len() == names@.len());
        let mut r: Vec<(String, bool, &PluginInfo)> = Vec::new();
        let mut i: usize = 0;
        while i < names.len()
            invariant
                i <= names@.len(),
                names@.len() == self.registry.entries().len(),
                views(names@) == crate::plugin_registry::keys(self.registry.entries()),
                infos@.len() == self.registry.entries().len(),
                forall|k: int| 0 <= k < infos@.len() ==> *infos@[k] == self.registry.entries()[k].1.info,
                r@.len() == i,
                forall|k: int|
                    0 <= k < i ==> r@[k].0@ == self.registry.entries()[k].0@ && r@[k].1 == self.enabled(
                        self.registry.entries()[k].0@,
                    ) && *r@[k].2 == self.registry.entries()[k].1.info,
            decreases names@.len() - i,
        {
            assert(views(names@)[i as int] == names@[i as int]@);
            assert(crate::plugin_registry::keys(self.registry.entries())[i as int] == self.registry.entries()[i as int].0@);
            let enabled = self.is_plugin_enabled(names[i].as_str());
            r.push((names[i].clone(), enabled, infos[i]));
            i = i + 1;
        }
        r
    }
}

fn clone_settings(v: &Vec<(String, String)>) -> (r: Vec<(String, String)>)
    ensures
        r@ == v@,
{
    let mut r: Vec<(String, String)> = Vec::new();
    let mut i: usize = 0;
    while i < v.len()
        invariant
            i <= v@.len(),
            r@ == v@.subrange(0, i as int),
        decreases v@.len() - i,
    {
        r.push((v[i].0.clone(), v[i].1.clone()));
        i = i + 1;
        assert(r@ =~= v@.subrange(0, i as int));
    }
    assert(v@.subrange(0, v@.len() as int) =~= v@);
    r
}

} // verus!
