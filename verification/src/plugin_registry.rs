//! The registry of loaded plugins: each plugin under its name with its declared
//! metadata and the handle the host runs it through, the versions registered under
//! each name, and the dependencies each declared when it was registered. Lookups,
//! dependency checks and dependency resolution are decided here; loading a plugin
//! and running it are the host's.
use vstd::prelude::*;
use crate::plugin_info::{PluginDependency, PluginInfo};
use crate::text::{chars_of, owned, push_str, str_eq, string_of, views};
use crate::workflow_types::clone_strings;

verus! {

/// A registered plugin: its metadata and the handle it is run through.
pub struct RegisteredPlugin<P> {
    pub info: PluginInfo,
    pub plugin: P,
}

/// The loaded plugins, one per name.
pub struct PluginRegistry<P> {
    plugins: Vec<(String, RegisteredPlugin<P>)>,
    plugin_versions: Vec<(String, Vec<String>)>,
    plugin_dependencies: Vec<(String, Vec<PluginDependency>)>,
}

/// The position of `key` in a keyed table (the first, when several).
pub open spec fn key_pos<V>(t: Seq<(String, V)>, key: Seq<char>) -> Option<int>
    decreases t.len(),
{
    if t.len() == 0 {
        None
    } else if t[0].0@ == key {
        Some(0)
    } else {
        match key_pos(t.drop_first(), key) {
            Some(k) => Some(k + 1),
            None => None,
        }
    }
}

/// No key occurs twice in the table.
pub open spec fn unique_keys<V>(t: Seq<(String, V)>) -> bool {
    forall|i: int, j: int| 0 <= i < j < t.len() ==> t[i].0@ != t[j].0@
}

/// The keys of a table, in order.
pub open spec fn keys<V>(t: Seq<(String, V)>) -> Seq<Seq<char>> {
    t.map_values(|e: (String, V)| e.0@)
}

/// A dependency as its name and whether it is optional.
pub open spec fn dep_view(d: PluginDependency) -> (Seq<char>, bool) {
    (d.name@, d.optional)
}

/// The dependency table as names and flags.
pub open spec fn dependency_views(t: Seq<(String, Vec<PluginDependency>)>) -> Seq<
    (Seq<char>, Seq<(Seq<char>, bool)>),
> {
    t.map_values(
        |e: (String, Vec<PluginDependency>)| (e.0@, e.1@.map_values(|d: PluginDependency| dep_view(d))),
    )
}

/// The version table as names and version texts.
pub open spec fn version_views(t: Seq<(String, Vec<String>)>) -> Seq<(Seq<char>, Seq<Seq<char>>)> {
    t.map_values(|e: (String, Vec<String>)| (e.0@, views(e.1@)))
}

/// `v` stored under `key`: in place of the value already there, else at the end.
pub open spec fn put<V>(t: Seq<(Seq<char>, V)>, key: Seq<char>, v: V) -> Seq<(Seq<char>, V)> {
    match view_pos(t, key) {
        Some(i) => t.update(i, (key, v)),
        None => t.push((key, v)),
    }
}

/// The position of `key` in a table of viewed keys.
pub open spec fn view_pos<V>(t: Seq<(Seq<char>, V)>, key: Seq<char>) -> Option<int>
    decreases t.len(),
{
    if t.len() == 0 {
        None
    } else if t[0].0 == key {
        Some(0)
    } else {
        match view_pos(t.drop_first(), key) {
            Some(k) => Some(k + 1),
            None => None,
        }
    }
}

/// `version` added to the versions recorded under `key` (a new entry when none are).
pub open spec fn add_version(
    t: Seq<(Seq<char>, Seq<Seq<char>>)>,
    key: Seq<char>,
    version: Seq<char>,
) -> Seq<(Seq<char>, Seq<Seq<char>>)> {
    match view_pos(t, key) {
        Some(i) => t.update(i, (key, t[i].1.push(version))),
        None => t.push((key, seq![version])),
    }
}

/// `key_pos` finds the first entry under the key, and none when no entry has it.
pub proof fn lemma_key_pos<V>(t: Seq<(String, V)>, key: Seq<char>)
    ensures
        match key_pos(t, key) {
            Some(k) => 0 <= k < t.len() && t[k].0@ == key && forall|j: int|
                0 <= j < k ==> t[j].0@ != key,
            None => forall|j: int| 0 <= j < t.len() ==> t[j].0@ != key,
        },
    decreases t.len(),
{
    if t.len() > 0 && t[0].0@ != key {
        let rest = t.drop_first();
        lemma_key_pos(rest, key);
        assert forall|j: int| 1 <= j < t.len() implies t[j] == rest[j - 1] by {}
    }
}

/// Finds `key` in a keyed table.
fn find_key<V>(t: &Vec<(String, V)>, key: &str) -> (r: Option<usize>)
    ensures
        match r {
            Some(i) => i < t@.len() && key_pos(t@, key@) == Some(i as int),
            None => key_pos(t@, key@) is None,
        },
{
    proof {
        lemma_key_pos(t@, key@);
    }
    let ghost found = key_pos(t@, key@);
    let mut i: usize = 0;
    while i < t.len()
        invariant
            i <= t@.len(),
            found == key_pos(t@, key@),
            forall|j: int| 0 <= j < i ==> t@[j].0@ != key@,
            match found {
                Some(k) => 0 <= k < t@.len() && t@[k].0@ == key@ && forall|j: int|
                    0 <= j < k ==> t@[j].0@ != key@,
                None => forall|j: int| 0 <= j < t@.len() ==> t@[j].0@ != key@,
            },
        decreases t@.len() - i,
    {
        if str_eq(t[i].0.as_str(), key) {
            return Some(i);
        }
        i = i + 1;
    }
    None
}

proof fn lemma_keys_agree<V, W>(t: Seq<(String, V)>, u: Seq<(Seq<char>, W)>, key: Seq<char>)
    requires
        t.len() == u.len(),
        forall|i: int| 0 <= i < t.len() ==> u[i].0 == t[i].0@,
    ensures
        view_pos(u, key) == key_pos(t, key),
    decreases t.len(),
{
    if t.len() > 0 {
        lemma_keys_agree(t.drop_first(), u.drop_first(), key);
    }
}

fn clone_dependency(d: &PluginDependency) -> (r: PluginDependency)
    ensures
        dep_view(r) == dep_view(*d),
{
    PluginDependency { name: d.name.clone(), optional: d.optional }
}

fn clone_dependencies(v: &Vec<PluginDependency>) -> (r: Vec<PluginDependency>)
    ensures
        r@.map_values(|d: PluginDependency| dep_view(d)) == v@.map_values(
            |d: PluginDependency| dep_view(d),
        ),
{
    let mut r: Vec<PluginDependency> = Vec::new();
    let mut i: usize = 0;
    while i < v.len()
        invariant
            i <= v@.len(),
            r@.len() == i,
            forall|k: int| 0 <= k < i ==> dep_view(#[trigger] r@[k]) == dep_view(v@[k]),
        decreases v@.len() - i,
    {
        r.push(clone_dependency(&v[i]));
        i = i + 1;
    }
    assert(r@.map_values(|d: PluginDependency| dep_view(d)) =~= v@.map_values(
        |d: PluginDependency| dep_view(d),
    ));
    r
}

/// The name of the first entry, other than `name`'s own, whose recorded dependencies
/// require `name`.
pub open spec fn first_requirer(t: Seq<(Seq<char>, Seq<(Seq<char>, bool)>)>, name: Seq<char>) -> Option<
    Seq<char>,
>
    decreases t.len(),
{
    if t.len() == 0 {
        None
    } else if t[0].0 != name && requires_name(t[0].1, name) {
        Some(t[0].0)
    } else {
        first_requirer(t.drop_first(), name)
    }
}

/// Some dependency in `deps` is `name` and is required.
pub open spec fn requires_name(deps: Seq<(Seq<char>, bool)>, name: Seq<char>) -> bool {
    exists|k: int| 0 <= k < deps.len() && (#[trigger] deps[k]).0 == name && !deps[k].1
}

/// How many entries of the table have a key that `seen` does not hold.
pub open spec fn count_unseen<V>(t: Seq<(String, V)>, seen: Seq<Seq<char>>) -> nat
    decreases t.len(),
{
    if t.len() == 0 {
        0
    } else {
        count_unseen(t.drop_last(), seen) + if seen.contains(t.last().0@) {
            0nat
        } else {
            1nat
        }
    }
}

proof fn lemma_count_unseen_mono<V>(t: Seq<(String, V)>, a: Seq<Seq<char>>, b: Seq<Seq<char>>)
    requires
        forall|x: Seq<char>| a.contains(x) ==> b.contains(x),
    ensures
        count_unseen(t, b) <= count_unseen(t, a),
    decreases t.len(),
{
    if t.len() > 0 {
        lemma_count_unseen_mono(t.drop_last(), a, b);
    }
}

proof fn lemma_count_unseen_drops<V>(t: Seq<(String, V)>, a: Seq<Seq<char>>, b: Seq<Seq<char>>, x: Seq<char>)
    requires
        forall|y: Seq<char>| a.contains(y) ==> b.contains(y),
        b.contains(x),
        !a.contains(x),
        key_pos(t, x) is Some,
    ensures
        count_unseen(t, b) < count_unseen(t, a),
    decreases t.len(),
{
    lemma_key_pos(t, x);
    let d = t.drop_last();
    if t.last().0@ == x {
        lemma_count_unseen_mono(d, a, b);
    } else {
        let i = key_pos(t, x)->0;
        assert(d[i].0@ == x);
        lemma_key_pos(d, x);
        if key_pos(d, x) is None {
            assert(d[i].0@ != x);
        }
        lemma_count_unseen_drops(d, a, b, x);
    }
}

proof fn lemma_count_unseen_none<V>(t: Seq<(String, V)>)
    ensures
        count_unseen(t, Seq::empty()) == t.len(),
    decreases t.len(),
{
    if t.len() > 0 {
        lemma_count_unseen_none(t.drop_last());
    }
}

fn contains_name(v: &Vec<String>, name: &str) -> (r: bool)
    ensures
        r == views(v@).contains(name@),
{
    let mut i: usize = 0;
    while i < v.len()
        invariant
            i <= v@.len(),
            forall|j: int| 0 <= j < i ==> (#[trigger] v@[j])@ != name@,
        decreases v@.len() - i,
    {
        if str_eq(v[i].as_str(), name) {
            assert(views(v@)[i as int] == name@);
            return true;
        }
        i = i + 1;
    }
    assert(!views(v@).contains(name@)) by {
        if views(v@).contains(name@) {
            let j = choose|j: int| 0 <= j < views(v@).len() && views(v@)[j] == name@;
            assert(v@[j]@ == name@);
        }
    }
    false
}

/// The plugin declares the tag.
pub open spec fn has_tag(info: PluginInfo, tag: Seq<char>) -> bool {
    views(info.tags@).contains(tag)
}

/// A plugin declares a tag when any one of its tags, at any position, is that tag.
pub proof fn lemma_any_tag_counts(info: PluginInfo, tag: Seq<char>, k: int)
    requires
        0 <= k < info.tags@.len(),
        info.tags@[k]@ == tag,
    ensures
        has_tag(info, tag),
{
    assert(views(info.tags@)[k] == tag);
}

/// A plugin declares no tag it does not list.
pub proof fn lemma_unlisted_tag_absent(info: PluginInfo, tag: Seq<char>)
    requires
        forall|k: int| 0 <= k < info.tags@.len() ==> (#[trigger] info.tags@[k])@ != tag,
    ensures
        !has_tag(info, tag),
{
    if has_tag(info, tag) {
        let k = choose|k: int| 0 <= k < views(info.tags@).len() && views(info.tags@)[k] == tag;
        assert(info.tags@[k]@ == tag);
    }
}

/// A search by tag finds every registered plugin that lists the tag anywhere among its
/// tags, and only plugins that list it.
pub proof fn lemma_tag_search_finds_any_position<P>(
    t: Seq<(String, RegisteredPlugin<P>)>,
    tag: Seq<char>,
    i: int,
    k: int,
)
    requires
        0 <= i < t.len(),
        0 <= k < t[i].1.info.tags@.len(),
        t[i].1.info.tags@[k]@ == tag,
    ensures
        tagged(t, tag).contains(t[i].1.info),
    decreases t.len(),
{
    lemma_any_tag_counts(t[i].1.info, tag, k);
    if i == t.len() - 1 {
        assert(tagged(t, tag).last() == t.last().1.info);
        assert(tagged(t, tag)[tagged(t, tag).len() - 1] == t[i].1.info);
    } else {
        let d = t.drop_last();
        assert(d[i] == t[i]);
        lemma_tag_search_finds_any_position(d, tag, i, k);
        let rest = tagged(d, tag);
        let j = choose|j: int| 0 <= j < rest.len() && rest[j] == t[i].1.info;
        if has_tag(t.last().1.info, tag) {
            assert(tagged(t, tag)[j] == rest[j]);
        } else {
            assert(tagged(t, tag) == rest);
        }
    }
}

/// Every plugin a search by tag returns lists that tag among its tags.
pub proof fn lemma_tag_search_only_tagged<P>(t: Seq<(String, RegisteredPlugin<P>)>, tag: Seq<char>, j: int)
    requires
        0 <= j < tagged(t, tag).len(),
    ensures
        exists|k: int|
            0 <= k < tagged(t, tag)[j].tags@.len() && (#[trigger] tagged(t, tag)[j].tags@[k])@ == tag,
    decreases t.len(),
{
    let rest = tagged(t.drop_last(), tag);
    if j < rest.len() {
        lemma_tag_search_only_tagged(t.drop_last(), tag, j);
        if has_tag(t.last().1.info, tag) {
            assert(tagged(t, tag)[j] == rest[j]);
        }
    } else {
        let info = t.last().1.info;
        assert(tagged(t, tag)[j] == info);
        let k = choose|k: int| 0 <= k < views(info.tags@).len() && views(info.tags@)[k] == tag;
        assert(info.tags@[k]@ == tag);
    }
}

/// The plugin declares a capability of that name.
pub open spec fn has_capability(info: PluginInfo, capability: Seq<char>) -> bool {
    exists|k: int|
        0 <= k < info.capabilities@.len() && (#[trigger] info.capabilities@[k]).name@ == capability
}

/// The metadata of the registered plugins that declare `tag`, in order.
pub open spec fn tagged<P>(t: Seq<(String, RegisteredPlugin<P>)>, tag: Seq<char>) -> Seq<PluginInfo>
    decreases t.len(),
{
    if t.len() == 0 {
        Seq::empty()
    } else {
        let rest = tagged(t.drop_last(), tag);
        if has_tag(t.last().1.info, tag) {
            rest.push(t.last().1.info)
        } else {
            rest
        }
    }
}

/// The metadata of the registered plugins that declare a capability named
/// `capability`, in order.
pub open spec fn capable<P>(t: Seq<(String, RegisteredPlugin<P>)>, capability: Seq<char>) -> Seq<
    PluginInfo,
>
    decreases t.len(),
{
    if t.len() == 0 {
        Seq::empty()
    } else {
        let rest = capable(t.drop_last(), capability);
        if has_capability(t.last().1.info, capability) {
            rest.push(t.last().1.info)
        } else {
            rest
        }
    }
}

/// The table without the entry under `key`.
pub open spec fn without_key<V>(t: Seq<(String, V)>, key: Seq<char>) -> Seq<(String, V)> {
    match key_pos(t, key) {
        Some(i) => t.remove(i),
        None => t,
    }
}

/// The viewed table without the entry under `key`.
pub open spec fn without_view<V>(t: Seq<(Seq<char>, V)>, key: Seq<char>) -> Seq<(Seq<char>, V)> {
    match view_pos(t, key) {
        Some(i) => t.remove(i),
        None => t,
    }
}

fn has_tag_exec(info: &PluginInfo, tag: &str) -> (r: bool)
    ensures
        r == has_tag(*info, tag@),
{
    let mut i: usize = 0;
    while i < info.tags.len()
        invariant
            i <= info.tags@.len(),
            forall|j: int| 0 <= j < i ==> (#[trigger] info.tags@[j])@ != tag@,
        decreases info.tags@.len() - i,
    {
        if str_eq(info.tags[i].as_str(), tag) {
            assert(views(info.tags@)[i as int] == tag@);
            return true;
        }
        i = i + 1;
    }
    assert(!views(info.tags@).contains(tag@)) by {
        if views(info.tags@).contains(tag@) {
            let j = choose|j: int| 0 <= j < views(info.tags@).len() && views(info.tags@)[j] == tag@;
            assert(info.tags@[j]@ == tag@);
        }
    }
    false
}

fn has_capability_exec(info: &PluginInfo, capability: &str) -> (r: bool)
    ensures
        r == has_capability(*info, capability@),
{
    let mut i: usize = 0;
    while i < info.capabilities.len()
        invariant
            i <= info.capabilities@.len(),
            forall|j: int| 0 <= j < i ==> (#[trigger] info.capabilities@[j]).name@ != capability@,
        decreases info.capabilities@.len() - i,
    {
        if str_eq(info.capabilities[i].name.as_str(), capability) {
            return true;
        }
        i = i + 1;
    }
    false
}

proof fn lemma_visited_covered(
    v0: Seq<Seq<char>>,
    r0: Seq<Seq<char>>,
    stack: Seq<Seq<char>>,
    name: Seq<char>,
    vis: Seq<Seq<char>>,
    res: Seq<Seq<char>>,
    n0: int,
)
    requires
        0 <= n0 <= res.len(),
        res.subrange(0, n0) == r0,
        forall|x: Seq<char>| v0.contains(x) ==> r0.contains(x) || stack.contains(x),
        forall|x: Seq<char>|
            vis.contains(x) <==> (v0.contains(x) || x == name || res.subrange(n0, res.len() as int).contains(x)),
    ensures
        forall|x: Seq<char>| vis.contains(x) ==> res.contains(x) || stack.push(name).contains(x),
{
    let path = stack.push(name);
    assert forall|x: Seq<char>| vis.contains(x) implies res.contains(x) || path.contains(x) by {
        if v0.contains(x) && r0.contains(x) {
            let i = choose|i: int| 0 <= i < r0.len() && r0[i] == x;
            assert(res[i] == r0[i]);
        } else if v0.contains(x) {
            let i = choose|i: int| 0 <= i < stack.len() && stack[i] == x;
            assert(path[i] == x);
        } else if x == name {
            assert(path[stack.len() as int] == x);
        } else {
            let acc = res.subrange(n0, res.len() as int);
            let i = choose|i: int| 0 <= i < acc.len() && acc[i] == x;
            assert(res[n0 + i] == x);
        }
    }
}

impl<P> PluginRegistry<P> {
    #[verifier::type_invariant]
    spec fn well_formed(self) -> bool {
        &&& unique_keys(self.plugins@)
        &&& unique_keys(self.plugin_versions@)
        &&& unique_keys(self.plugin_dependencies@)
        &&& forall|i: int|
            0 <= i < self.plugin_dependencies@.len() ==> key_pos(
                self.plugins@,
                (#[trigger] self.plugin_dependencies@[i]).0@,
            ) is Some
    }

    /// The registered plugins under their names, in the order first registered.
    pub closed spec fn entries(self) -> Seq<(String, RegisteredPlugin<P>)> {
        self.plugins@
    }

    /// The versions registered under each name.
    pub closed spec fn versions(self) -> Seq<(Seq<char>, Seq<Seq<char>>)> {
        version_views(self.plugin_versions@)
    }

    /// The dependencies each name declared when it was last registered.
    pub closed spec fn dependencies(self) -> Seq<(Seq<char>, Seq<(Seq<char>, bool)>)> {
        dependency_views(self.plugin_dependencies@)
    }

    /// A plugin is registered under `name`.
    pub open spec fn registered(self, name: Seq<char>) -> bool {
        key_pos(self.entries(), name) is Some
    }

    /// The dependencies recorded for `name`, none when nothing is recorded.
    pub open spec fn declared(self, name: Seq<char>) -> Seq<(Seq<char>, bool)> {
        match view_pos(self.dependencies(), name) {
            Some(i) => self.dependencies()[i].1,
            None => Seq::empty(),
        }
    }

    /// Resolving `from` goes on to `to`: `from` recorded a dependency on `to` that is
    /// required, or optional and registered.
    pub open spec fn follows(self, from: Seq<char>, to: Seq<char>) -> bool {
        exists|k: int|
            0 <= k < self.declared(from).len() && (#[trigger] self.declared(from)[k]).0 == to && (
            !self.declared(from)[k].1 || self.registered(to))
    }

    /// An empty registry.
    pub fn new() -> (r: Self)
        ensures
            r.entries().len() == 0,
            r.versions().len() == 0,
            r.dependencies().len() == 0,
    {
        PluginRegistry {
            plugins: Vec::new(),
            plugin_versions: Vec::new(),
            plugin_dependencies: Vec::new(),
        }
    }

    pub fn plugin_count(&self) -> (r: usize)
        ensures
            r == self.entries().len(),
    {
        self.plugins.len()
    }

    /// The registered names, in order.
    pub fn plugin_names(&self) -> (r: Vec<String>)
        ensures
            views(r@) == keys(self.entries()),
    {
        let mut r: Vec<String> = Vec::new();
        let mut i: usize = 0;
        while i < self.plugins.len()
            invariant
                i <= self.plugins@.len(),
                views(r@) == keys(self.plugins@.subrange(0, i as int)),
            decreases self.plugins@.len() - i,
        {
            let ghost before = r@;
            r.push(self.plugins[i].0.clone());
            assert(views(r@) =~= views(before).push(self.plugins@[i as int].0@));
            assert(keys(self.plugins@.subrange(0, i + 1)) =~= keys(self.plugins@.subrange(0, i as int)).push(
                self.plugins@[i as int].0@,
            ));
            i = i + 1;
        }
        assert(self.plugins@.subrange(0, self.plugins@.len() as int) =~= self.plugins@);
        r
    }

    /// Registers `plugin` under its declared name, replacing any plugin registered
    /// under that name; its version is added to the versions recorded for the name and
    /// its declared dependencies replace those recorded for it.
    pub fn register_plugin(&mut self, info: PluginInfo, plugin: P)
        ensures
            match key_pos(old(self).entries(), info.name@) {
                Some(i) => final(self).entries() == old(self).entries().update(
                    i,
                    (old(self).entries()[i].0, (RegisteredPlugin { info, plugin })),
                ),
                None => final(self).entries() == old(self).entries().push(
                    (info.name, (RegisteredPlugin { info, plugin })),
                ),
            },
            final(self).versions() == add_version(old(self).versions(), info.name@, info.version@),
            final(self).dependencies() == put(
                old(self).dependencies(),
                info.name@,
                info.dependencies@.map_values(|d: PluginDependency| dep_view(d)),
            ),
    {
        proof {
            use_type_invariant(&*self);
        }
        let name = info.name.clone();
        let version = info.version.clone();
        let deps = clone_dependencies(&info.dependencies);
        let ghost old_plugins = self.plugins@;
        let ghost old_versions = self.plugin_versions@;
        let ghost old_deps = self.plugin_dependencies@;
        let ghost entry = (RegisteredPlugin { info, plugin });
        let ghost dv = info.dependencies@.map_values(|d: PluginDependency| dep_view(d));
        let mut dep_table: Vec<(String, Vec<PluginDependency>)> = Vec::new();
        std::mem::swap(&mut dep_table, &mut self.plugin_dependencies);
        let mut ver_table: Vec<(String, Vec<String>)> = Vec::new();
        std::mem::swap(&mut ver_table, &mut self.plugin_versions);
        let mut plug_table: Vec<(String, RegisteredPlugin<P>)> = Vec::new();
        std::mem::swap(&mut plug_table, &mut self.plugins);

        match find_key(&plug_table, name.as_str()) {
            Some(i) => {
                let key = plug_table[i].0.clone();
                plug_table.set(i, (key, RegisteredPlugin { info, plugin }));
                assert(plug_table@ =~= old_plugins.update(i as int, (old_plugins[i as int].0, entry)));
                proof {
                    lemma_key_pos(old_plugins, name@);
                    lemma_key_pos(plug_table@, name@);
                    assert(plug_table@[i as int].0@ == name@);
                }
            },
            None => {
                plug_table.push((name.clone(), RegisteredPlugin { info, plugin }));
                assert(plug_table@ =~= old_plugins.push((name, entry)));
                proof {
                    lemma_key_pos(plug_table@, name@);
                    assert(plug_table@[old_plugins.len() as int].0@ == name@);
                }
            },
        }
        assert(key_pos(plug_table@, name@) is Some);
        assert(unique_keys(plug_table@)) by {
            lemma_key_pos(old_plugins, name@);
            let t = plug_table@;
            assert forall|a: int, b: int| 0 <= a < b < t.len() implies t[a].0@ != t[b].0@ by {
                if b < old_plugins.len() && a < old_plugins.len() {
                    if t[a].0@ == old_plugins[a].0@ && t[b].0@ == old_plugins[b].0@ {
                    }
                }
            }
        }
        assert forall|k: Seq<char>| #[trigger] key_pos(old_plugins, k) is Some implies key_pos(
            plug_table@,
            k,
        ) is Some by {
            lemma_key_pos(old_plugins, k);
            lemma_key_pos(plug_table@, k);
            let j = key_pos(old_plugins, k)->0;
            assert(plug_table@[j].0@ == k);
        }
        self.plugins = plug_table;

        match find_key(&ver_table, name.as_str()) {
            Some(i) => {
                let key = ver_table[i].0.clone();
                let mut vs = clone_strings(&ver_table[i].1);
                vs.push(version);
                proof {
                    lemma_keys_agree(old_versions, version_views(old_versions), name@);
                    lemma_key_pos(old_versions, name@);
                    assert(views(vs@) =~= version_views(old_versions)[i as int].1.push(info.version@));
                }
                ver_table.set(i, (key, vs));
                assert(version_views(ver_table@) =~= add_version(
                    version_views(old_versions),
                    name@,
                    info.version@,
                ));
            },
            None => {
                let mut vs: Vec<String> = Vec::new();
                vs.push(version);
                proof {
                    lemma_keys_agree(old_versions, version_views(old_versions), name@);
                    assert(views(vs@) =~= seq![info.version@]);
                }
                ver_table.push((name.clone(), vs));
                assert(version_views(ver_table@) =~= add_version(
                    version_views(old_versions),
                    name@,
                    info.version@,
                ));
            },
        }
        assert(unique_keys(ver_table@)) by {
            lemma_key_pos(old_versions, name@);
            let t = ver_table@;
            assert forall|a: int, b: int| 0 <= a < b < t.len() implies t[a].0@ != t[b].0@ by {
                if b < old_versions.len() && a < old_versions.len() {
                    if t[a].0@ == old_versions[a].0@ && t[b].0@ == old_versions[b].0@ {
                    }
                }
            }
        }
        self.plugin_versions = ver_table;

        match find_key(&dep_table, name.as_str()) {
            Some(i) => {
                let key = dep_table[i].0.clone();
                dep_table.set(i, (key, deps));
                proof {
                    lemma_keys_agree(old_deps, dependency_views(old_deps), info.name@);
                    lemma_key_pos(old_deps, info.name@);
                }
                assert(dependency_views(dep_table@) =~= put(dependency_views(old_deps), info.name@, dv));
            },
            None => {
                dep_table.push((name, deps));
                proof {
                    lemma_keys_agree(old_deps, dependency_views(old_deps), info.name@);
                }
                assert(dependency_views(dep_table@) =~= put(dependency_views(old_deps), info.name@, dv));
            },
        }
        assert(unique_keys(dep_table@)) by {
            lemma_key_pos(old_deps, info.name@);
            let t = dep_table@;
            assert forall|a: int, b: int| 0 <= a < b < t.len() implies t[a].0@ != t[b].0@ by {
                if b < old_deps.len() && a < old_deps.len() {
                    if t[a].0@ == old_deps[a].0@ && t[b].0@ == old_deps[b].0@ {
                    }
                }
            }
        }
        assert(forall|j: int|
            0 <= j < dep_table@.len() && (#[trigger] dep_table@[j]).0@ != info.name@ ==> j
                < old_deps.len() && dep_table@[j] == old_deps[j]);
        assert forall|i: int| 0 <= i < dep_table@.len() implies key_pos(
            self.plugins@,
            (#[trigger] dep_table@[i]).0@,
        ) is Some by {
            if dep_table@[i].0@ != info.name@ {
                assert(key_pos(old_plugins, old_deps[i].0@) is Some);
            }
        }
        self.plugin_dependencies = dep_table;
    }

    /// The metadata of every registered plugin, in order.
    pub fn list_plugins(&self) -> (r: Vec<&PluginInfo>)
        ensures
            r@.len() == self.entries().len(),
            forall|i: int| 0 <= i < r@.len() ==> *r@[i] == self.entries()[i].1.info,
    {
        let mut r: Vec<&PluginInfo> = Vec::new();
        let mut i: usize = 0;
        while i < self.plugins.len()
            invariant
                i <= self.plugins@.len(),
                r@.len() == i,
                forall|k: int| 0 <= k < i ==> *r@[k] == self.plugins@[k].1.info,
            decreases self.plugins@.len() - i,
        {
            r.push(&self.plugins[i].1.info);
            i = i + 1;
        }
        r
    }

    /// The metadata of the registered plugins that declare `tag`, in order.
    pub fn find_plugins_by_tag(&self, tag: &str) -> (r: Vec<&PluginInfo>)
        ensures
            r@.map_values(|p: &PluginInfo| *p) == tagged(self.entries(), tag@),
    {
        let mut r: Vec<&PluginInfo> = Vec::new();
        let mut i: usize = 0;
        while i < self.plugins.len()
            invariant
                i <= self.plugins@.len(),
                r@.map_values(|p: &PluginInfo| *p) == tagged(self.plugins@.subrange(0, i as int), tag@),
            decreases self.plugins@.len() - i,
        {
            let ghost before = r@;
            let info = &self.plugins[i].1.info;
            assert(self.plugins@.subrange(0, i + 1).drop_last() =~= self.plugins@.subrange(0, i as int));
            if has_tag_exec(info, tag) {
                r.push(info);
                assert(r@.map_values(|p: &PluginInfo| *p) =~= before.map_values(|p: &PluginInfo| *p).push(
                    *info,
                ));
            }
            i = i + 1;
        }
        assert(self.plugins@.subrange(0, self.plugins@.len() as int) =~= self.plugins@);
        r
    }

    /// The metadata of the registered plugins that declare a capability named
    /// `capability`, in order.
    pub fn find_plugins_by_capability(&self, capability: &str) -> (r: Vec<&PluginInfo>)
        ensures
            r@.map_values(|p: &PluginInfo| *p) == capable(self.entries(), capability@),
    {
        let mut r: Vec<&PluginInfo> = Vec::new();
        let mut i: usize = 0;
        while i < self.plugins.len()
            invariant
                i <= self.plugins@.len(),
                r@.map_values(|p: &PluginInfo| *p) == capable(
                    self.plugins@.subrange(0, i as int),
                    capability@,
                ),
            decreases self.plugins@.len() - i,
        {
            let ghost before = r@;
            let info = &self.plugins[i].1.info;
            assert(self.plugins@.subrange(0, i + 1).drop_last() =~= self.plugins@.subrange(0, i as int));
            if has_capability_exec(info, capability) {
                r.push(info);
                assert(r@.map_values(|p: &PluginInfo| *p) =~= before.map_values(|p: &PluginInfo| *p).push(
                    *info,
                ));
            }
            i = i + 1;
        }
        assert(self.plugins@.subrange(0, self.plugins@.len() as int) =~= self.plugins@);
        r
    }

    /// The first of `deps` that is required and not registered.
    pub open spec fn first_missing(self, deps: Seq<PluginDependency>) -> Option<Seq<char>>
        decreases deps.len(),
    {
        if deps.len() == 0 {
            None
        } else if !deps[0].optional && !self.registered(deps[0].name@) {
            Some(deps[0].name@)
        } else {
            self.first_missing(deps.drop_first())
        }
    }

    /// The first dependency that blocks removing `name`: an entry of the dependency
    /// table, other than `name`'s own, that requires `name`. Gives that entry's name.
    pub open spec fn first_dependent(self, name: Seq<char>) -> Option<Seq<char>> {
        first_requirer(self.dependencies(), name)
    }

    /// Checks that every required dependency of the plugin registered under `name` is
    /// registered; a name with no plugin passes.
    pub fn validate_plugin_compatibility(&self, plugin_name: &str) -> (r: Result<(), String>)
        ensures
            match key_pos(self.entries(), plugin_name@) {
                None => r is Ok,
                Some(i) => match self.first_missing(self.entries()[i].1.info.dependencies@) {
                    None => r is Ok,
                    Some(d) => (r matches Err(e) && e@ == "Missing required dependency: "@ + d),
                },
            },
    {
        match find_key(&self.plugins, plugin_name) {
            None => Ok(()),
            Some(i) => {
                let deps = &self.plugins[i].1.info.dependencies;
                let mut k: usize = 0;
                assert(deps@.subrange(0, deps@.len() as int) =~= deps@);
                while k < deps.len()
                    invariant
                        k <= deps@.len(),
                        i < self.plugins@.len(),
                        key_pos(self.plugins@, plugin_name@) == Some(i as int),
                        *deps == self.plugins@[i as int].1.info.dependencies,
                        self.first_missing(deps@) == self.first_missing(deps@.subrange(k as int, deps@.len() as int)),
                    decreases deps@.len() - k,
                {
                    let ghost rest = deps@.subrange(k as int, deps@.len() as int);
                    assert(rest.drop_first() =~= deps@.subrange(k + 1, deps@.len() as int));
                    let dep = &deps[k];
                    if !dep.optional && find_key(&self.plugins, dep.name.as_str()).is_none() {
                        let mut m = chars_of("Missing required dependency: ");
                        push_str(&mut m, dep.name.as_str());
                        return Err(string_of(m.as_slice()));
                    }
                    k = k + 1;
                }
                Ok(())
            },
        }
    }

    /// Replaces the plugin registered under `plugin_name` (the name it is kept under)
    /// once the current plugin's required dependencies are all registered; its recorded
    /// versions and dependencies stay. Fails, changing nothing, when no plugin has that
    /// name or a required dependency is missing.
    pub fn update_plugin(&mut self, plugin_name: &str, info: PluginInfo, plugin: P) -> (r: Result<
        (),
        String,
    >)
        ensures
            final(self).versions() == old(self).versions(),
            final(self).dependencies() == old(self).dependencies(),
            match key_pos(old(self).entries(), plugin_name@) {
                None => (r matches Err(e) && e@ == "Plugin "@ + plugin_name@ + " not found"@)
                    && final(self).entries() == old(self).entries(),
                Some(i) => match old(self).first_missing(old(self).entries()[i].1.info.dependencies@) {
                    Some(d) => (r matches Err(e) && e@ == "Missing required dependency: "@ + d)
                        && final(self).entries() == old(self).entries(),
                    None => r is Ok && final(self).entries() == old(self).entries().update(
                        i,
                        (old(self).entries()[i].0, (RegisteredPlugin { info, plugin })),
                    ),
                },
            },
    {
        proof {
            use_type_invariant(&*self);
        }
        match find_key(&self.plugins, plugin_name) {
            None => {
                let mut m = chars_of("Plugin ");
                push_str(&mut m, plugin_name);
                push_str(&mut m, " not found");
                Err(string_of(m.as_slice()))
            },
            Some(i) => {
                match self.validate_plugin_compatibility(plugin_name) {
                    Err(e) => Err(e),
                    Ok(()) => {
                        let ghost old_plugins = self.plugins@;
                        let ghost entry = (RegisteredPlugin { info, plugin });
                        let mut dep_table: Vec<(String, Vec<PluginDependency>)> = Vec::new();
                        std::mem::swap(&mut dep_table, &mut self.plugin_dependencies);
                        let mut plug_table: Vec<(String, RegisteredPlugin<P>)> = Vec::new();
                        std::mem::swap(&mut plug_table, &mut self.plugins);
                        let key = plug_table[i].0.clone();
                        plug_table.set(i, (key, RegisteredPlugin { info, plugin }));
                        assert(plug_table@ =~= old_plugins.update(
                            i as int,
                            (old_plugins[i as int].0, entry),
                        ));
                        assert(unique_keys(plug_table@)) by {
                            let t = plug_table@;
                            assert forall|a: int, b: int| 0 <= a < b < t.len() implies t[a].0@
                                != t[b].0@ by {
                                assert(t[a].0@ == old_plugins[a].0@ && t[b].0@ == old_plugins[b].0@);
                            }
                        }
                        assert forall|k: Seq<char>| #[trigger] key_pos(old_plugins, k) is Some implies key_pos(
                            plug_table@,
                            k,
                        ) is Some by {
                            lemma_key_pos(old_plugins, k);
                            lemma_key_pos(plug_table@, k);
                            let j = key_pos(old_plugins, k)->0;
                            assert(plug_table@[j].0@ == k);
                        }
                        self.plugins = plug_table;
                        assert forall|j: int| 0 <= j < dep_table@.len() implies key_pos(
                            self.plugins@,
                            (#[trigger] dep_table@[j]).0@,
                        ) is Some by {
                            assert(key_pos(old_plugins, dep_table@[j].0@) is Some);
                        }
                        self.plugin_dependencies = dep_table;
                        Ok(())
                    },
                }
            },
        }
    }

    /// Removes the plugin registered under `plugin_name` with its recorded versions and
    /// dependencies, unless another plugin's recorded dependencies require it: then it
    /// fails naming the first such plugin and changes nothing. Removing a name with no
    /// plugin succeeds.
    pub fn remove_plugin(&mut self, plugin_name: &str) -> (r: Result<(), String>)
        ensures
            match old(self).first_dependent(plugin_name@) {
                Some(other) => (r matches Err(e) && e@ == "Cannot remove "@ + plugin_name@
                    + ": required by "@ + other) && final(self).entries() == old(self).entries()
                    && final(self).versions() == old(self).versions()
                    && final(self).dependencies() == old(self).dependencies(),
                None => r is Ok && final(self).entries() == without_key(
                    old(self).entries(),
                    plugin_name@,
                ) && final(self).versions() == without_view(old(self).versions(), plugin_name@)
                    && final(self).dependencies() == without_view(
                    old(self).dependencies(),
                    plugin_name@,
                ),
            },
    {
        proof {
            use_type_invariant(&*self);
        }
        let ghost dviews = dependency_views(self.plugin_dependencies@);
        let mut j: usize = 0;
        assert(dviews.subrange(0, dviews.len() as int) =~= dviews);
        while j < self.plugin_dependencies.len()
            invariant
                j <= self.plugin_dependencies@.len(),
                dviews == dependency_views(self.plugin_dependencies@),
                first_requirer(dviews, plugin_name@) == first_requirer(
                    dviews.subrange(j as int, dviews.len() as int),
                    plugin_name@,
                ),
            decreases self.plugin_dependencies@.len() - j,
        {
            let ghost rest = dviews.subrange(j as int, dviews.len() as int);
            assert(rest.drop_first() =~= dviews.subrange(j + 1, dviews.len() as int));
            let entry = &self.plugin_dependencies[j];
            if !str_eq(entry.0.as_str(), plugin_name) {
                let deps = &entry.1;
                let ghost dv = deps@.map_values(|d: PluginDependency| dep_view(d));
                let mut k: usize = 0;
                let mut required = false;
                while k < deps.len()
                    invariant
                        k <= deps@.len(),
                        dv == deps@.map_values(|d: PluginDependency| dep_view(d)),
                        required == exists|q: int| 0 <= q < k && (#[trigger] dv[q]).0 == plugin_name@ && !dv[q].1,
                    decreases deps@.len() - k,
                {
                    if str_eq(deps[k].name.as_str(), plugin_name) && !deps[k].optional {
                        required = true;
                    }
                    assert(dv[k as int] == dep_view(deps@[k as int]));
                    k = k + 1;
                }
                assert(rest[0] == (entry.0@, dv));
                if required {
                    let mut m = chars_of("Cannot remove ");
                    push_str(&mut m, plugin_name);
                    push_str(&mut m, ": required by ");
                    push_str(&mut m, entry.0.as_str());
                    return Err(string_of(m.as_slice()));
                }
            }
            j = j + 1;
        }
        let ghost old_plugins = self.plugins@;
        let ghost old_versions = self.plugin_versions@;
        let ghost old_deps = self.plugin_dependencies@;
        proof {
            lemma_key_pos(old_plugins, plugin_name@);
            lemma_key_pos(old_versions, plugin_name@);
            lemma_key_pos(old_deps, plugin_name@);
            lemma_keys_agree(old_versions, version_views(old_versions), plugin_name@);
            lemma_keys_agree(old_deps, dependency_views(old_deps), plugin_name@);
        }
        let mut dep_table: Vec<(String, Vec<PluginDependency>)> = Vec::new();
        std::mem::swap(&mut dep_table, &mut self.plugin_dependencies);
        let mut ver_table: Vec<(String, Vec<String>)> = Vec::new();
        std::mem::swap(&mut ver_table, &mut self.plugin_versions);
        let mut plug_table: Vec<(String, RegisteredPlugin<P>)> = Vec::new();
        std::mem::swap(&mut plug_table, &mut self.plugins);
        match find_key(&plug_table, plugin_name) {
            Some(i) => {
                plug_table.remove(i);
            },
            None => {},
        }
        assert(plug_table@ == without_key(old_plugins, plugin_name@));
        assert(unique_keys(plug_table@)) by {
            let t = plug_table@;
            assert forall|a: int, b: int| 0 <= a < b < t.len() implies t[a].0@ != t[b].0@ by {
                match key_pos(old_plugins, plugin_name@) {
                    Some(i) => {
                        let a0 = if a < i { a } else { a + 1 };
                        let b0 = if b < i { b } else { b + 1 };
                        assert(t[a] == old_plugins[a0] && t[b] == old_plugins[b0]);
                    },
                    None => {},
                }
            }
        }
        self.plugins = plug_table;
        match find_key(&ver_table, plugin_name) {
            Some(i) => {
                ver_table.remove(i);
            },
            None => {},
        }
        assert(ver_table@ == without_key(old_versions, plugin_name@));
        assert(unique_keys(ver_table@)) by {
            let t = ver_table@;
            assert forall|a: int, b: int| 0 <= a < b < t.len() implies t[a].0@ != t[b].0@ by {
                match key_pos(old_versions, plugin_name@) {
                    Some(i) => {
                        let a0 = if a < i { a } else { a + 1 };
                        let b0 = if b < i { b } else { b + 1 };
                        assert(t[a] == old_versions[a0] && t[b] == old_versions[b0]);
                    },
                    None => {},
                }
            }
        }
        assert(version_views(ver_table@) =~= without_view(version_views(old_versions), plugin_name@));
        self.plugin_versions = ver_table;
        match find_key(&dep_table, plugin_name) {
            Some(i) => {
                dep_table.remove(i);
            },
            None => {},
        }
        assert(dep_table@ == without_key(old_deps, plugin_name@));
        assert(unique_keys(dep_table@)) by {
            let t = dep_table@;
            assert forall|a: int, b: int| 0 <= a < b < t.len() implies t[a].0@ != t[b].0@ by {
                match key_pos(old_deps, plugin_name@) {
                    Some(i) => {
                        let a0 = if a < i { a } else { a + 1 };
                        let b0 = if b < i { b } else { b + 1 };
                        assert(t[a] == old_deps[a0] && t[b] == old_deps[b0]);
                    },
                    None => {},
                }
            }
        }
        assert(dependency_views(dep_table@) =~= without_view(dependency_views(old_deps), plugin_name@));
        assert forall|q: int| 0 <= q < dep_table@.len() implies key_pos(
            self.plugins@,
            (#[trigger] dep_table@[q]).0@,
        ) is Some by {
            let q0 = match key_pos(old_deps, plugin_name@) {
                Some(i) => if q < i { q } else { q + 1 },
                None => q,
            };
            assert(dep_table@[q] == old_deps[q0]);
            let k = dep_table@[q].0@;
            assert(key_pos(old_plugins, old_deps[q0].0@) is Some);
            assert(k != plugin_name@);
            lemma_key_pos(old_plugins, k);
            lemma_key_pos(self.plugins@, k);
            let w = key_pos(old_plugins, k)->0;
            match key_pos(old_plugins, plugin_name@) {
                Some(i) => {
                    assert(w != i);
                    let w1 = if w < i { w } else { w - 1 };
                    assert(self.plugins@[w1] == old_plugins[w]);
                },
                None => {
                    assert(self.plugins@[w] == old_plugins[w]);
                },
            }
        }
        self.plugin_dependencies = dep_table;
        Ok(())
    }

    /// Every name but the last is one that a later name in the list goes on to.
    pub open spec fn pulled_in(self, names: Seq<Seq<char>>) -> bool {
        names.len() >= 1 ==> self.pulled_in_by(names.drop_last(), names.last())
    }

    /// Every name in the list is one that a later name, or `top`, goes on to.
    pub open spec fn pulled_in_by(self, names: Seq<Seq<char>>, top: Seq<char>) -> bool {
        forall|k: int|
            #![trigger names[k]]
            0 <= k < names.len() ==> (exists|j: int|
                k < j < names.len() && #[trigger] self.follows(names[j], names[k])) || self.follows(
                top,
                names[k],
            )
    }

    /// Everything a name in the list goes on to is in `seen`.
    pub open spec fn closed_over(self, names: Seq<Seq<char>>, seen: Seq<Seq<char>>) -> bool {
        forall|k: int, d: Seq<char>|
            0 <= k < names.len() && #[trigger] self.follows(names[k], d) ==> seen.contains(d)
    }

    /// What resolving `name` from the names in `before` produces: `added`, the names
    /// it resolved in order (`name` last, none of them seen before and none twice,
    /// each pulled in by a later one, everything they go on to seen), with `after` the
    /// names seen once it is done.
    pub open spec fn resolves(
        self,
        name: Seq<char>,
        before: Seq<Seq<char>>,
        after: Seq<Seq<char>>,
        added: Seq<Seq<char>>,
    ) -> bool {
        &&& added.len() >= 1
        &&& added.last() == name
        &&& added.no_duplicates()
        &&& forall|x: Seq<char>| added.contains(x) ==> !before.contains(x)
        &&& forall|x: Seq<char>| after.contains(x) <==> (before.contains(x) || added.contains(x))
        &&& self.pulled_in(added)
        &&& self.closed_over(added, after)
    }

    /// Resolution goes on along a recorded dependency: it is required, or optional and
    /// registered.
    pub open spec fn goes_on(self, d: (Seq<char>, bool)) -> bool {
        !d.1 || self.registered(d.0)
    }

    /// Depth-first resolution of `name` when the names in `seen` were visited before,
    /// nesting at most `fuel` deep: the names visited afterwards, and the names it
    /// adds in the order they are listed. A name seen before adds nothing; otherwise
    /// its dependencies are resolved in the order declared, then the name follows.
    pub open spec fn walk(self, fuel: nat, name: Seq<char>, seen: Seq<Seq<char>>) -> (
        Seq<Seq<char>>,
        Seq<Seq<char>>,
    )
        decreases fuel, 0int, 0int,
    {
        if fuel == 0 || seen.contains(name) {
            (seen, Seq::empty())
        } else {
            let (after, added) = self.walk_deps((fuel - 1) as nat, self.declared(name), 0, seen.push(name));
            (after, added.push(name))
        }
    }

    /// Resolution of the dependencies `deps` from the one at `k` on, with the names in
    /// `seen` visited before: the names visited afterwards and the names added.
    pub open spec fn walk_deps(
        self,
        fuel: nat,
        deps: Seq<(Seq<char>, bool)>,
        k: int,
        seen: Seq<Seq<char>>,
    ) -> (Seq<Seq<char>>, Seq<Seq<char>>)
        decreases fuel, 1int, deps.len() - k,
    {
        if k < 0 || k >= deps.len() {
            (seen, Seq::empty())
        } else if self.goes_on(deps[k]) && !seen.contains(deps[k].0) {
            let (mid, first) = self.walk(fuel, deps[k].0, seen);
            let (after, rest) = self.walk_deps(fuel, deps, k + 1, mid);
            (after, first + rest)
        } else {
            self.walk_deps(fuel, deps, k + 1, seen)
        }
    }

    /// The names that resolving `name` lists, in order: depth first from `name`, each
    /// name once, at its first visit, after the names it goes on to.
    pub open spec fn load_order(self, name: Seq<char>) -> Seq<Seq<char>> {
        self.walk(self.entries().len() + 1, name, Seq::empty()).1
    }

    /// Each name in `s` goes on to the next one.
    pub open spec fn chain(self, s: Seq<Seq<char>>) -> bool {
        forall|k: int| #![trigger s[k]] 0 <= k < s.len() - 1 ==> self.follows(s[k], s[k + 1])
    }

    /// No name goes on, through a chain of dependencies, back to itself.
    pub open spec fn acyclic(self) -> bool {
        forall|p: Seq<Seq<char>>| #[trigger] self.chain(p) && p.len() >= 2 ==> p[0] != p.last()
    }

    /// Every name that a name of the list goes on to stands earlier in the list.
    pub open spec fn dependencies_first(self, names: Seq<Seq<char>>) -> bool {
        self.placed_from(names, 0)
    }

    /// Every name from position `start` on is preceded by the names it goes on to.
    pub open spec fn placed_from(self, names: Seq<Seq<char>>, start: int) -> bool {
        forall|i: int, d: Seq<char>|
            start <= i < names.len() && #[trigger] self.follows(names[i], d) ==> exists|j: int|
                0 <= j < i && names[j] == d
    }

    proof fn lemma_chain_push(self, s: Seq<Seq<char>>, x: Seq<char>)
        requires
            self.chain(s),
            s.len() >= 1,
            self.follows(s.last(), x),
        ensures
            self.chain(s.push(x)),
    {
        let t = s.push(x);
        assert forall|k: int| #![trigger t[k]] 0 <= k < t.len() - 1 implies self.follows(t[k], t[k + 1]) by {
            assert(t[k] == s[k]);
            if k < s.len() - 1 {
                assert(t[k + 1] == s[k + 1]);
            }
        }
    }

    /// A name that goes on to one of the names before it in a chain closes a cycle.
    proof fn lemma_back_edge(self, s: Seq<Seq<char>>, k: int)
        requires
            self.chain(s),
            0 <= k < s.len(),
            self.follows(s.last(), s[k]),
        ensures
            !self.acyclic(),
    {
        let p = s.subrange(k, s.len() as int).push(s[k]);
        assert forall|m: int| #![trigger p[m]] 0 <= m < p.len() - 1 implies self.follows(p[m], p[m + 1]) by {
            assert(p[m] == s[k + m]);
            if m < s.len() - k - 1 {
                assert(p[m + 1] == s[k + m + 1]);
            } else {
                assert(p[m + 1] == s[k]);
            }
        }
        assert(self.chain(p));
        assert(p[0] == p.last());
    }

    /// With no cycle, a dependency that was already visited, while every visited name
    /// is resolved or on the chain being resolved, is resolved.
    proof fn lemma_seen_dependency_resolved(
        self,
        path: Seq<Seq<char>>,
        visited: Seq<Seq<char>>,
        resolved: Seq<Seq<char>>,
        d: Seq<char>,
    )
        requires
            self.acyclic(),
            self.chain(path),
            path.len() >= 1,
            self.follows(path.last(), d),
            visited.contains(d),
            forall|x: Seq<char>| visited.contains(x) ==> resolved.contains(x) || path.contains(x),
        ensures
            resolved.contains(d),
    {
        if !resolved.contains(d) {
            let k = choose|k: int| 0 <= k < path.len() && path[k] == d;
            self.lemma_back_edge(path, k);
        }
    }

    fn visit(&self, Ghost(fuel): Ghost<nat>, Ghost(stack): Ghost<Seq<Seq<char>>>, name: &String, visited: Vec<String>, resolved: Vec<String>) -> (r: (
        Vec<String>,
        Vec<String>,
    ))
        requires
            !views(visited@).contains(name@),
            fuel > count_unseen(self.plugins@, views(visited@)),
            self.chain(stack.push(name@)),
            forall|x: Seq<char>|
                views(visited@).contains(x) ==> views(resolved@).contains(x) || stack.contains(x),
        ensures
            self.acyclic() ==> self.placed_from(views(r.1@), resolved@.len() as int),
            r.1@.len() > resolved@.len(),
            views(r.1@).subrange(0, resolved@.len() as int) == views(resolved@),
            self.resolves(
                name@,
                views(visited@),
                views(r.0@),
                views(r.1@).subrange(resolved@.len() as int, r.1@.len() as int),
            ),
            (views(r.0@), views(r.1@).subrange(resolved@.len() as int, r.1@.len() as int)) == self.walk(
                fuel,
                name@,
                views(visited@),
            ),
        decreases count_unseen(self.plugins@, views(visited@)),
    {
        proof {
            use_type_invariant(self);
        }
        let ghost v0 = views(visited@);
        let ghost r0 = views(resolved@);
        let ghost n0 = resolved@.len();
        let ghost f1 = (fuel - 1) as nat;
        let ghost full = self.walk_deps(f1, self.declared(name@), 0, v0.push(name@));
        let ghost path = stack.push(name@);
        let mut vis = visited;
        let mut res = resolved;
        vis.push(name.clone());
        assert(views(vis@) =~= v0.push(name@));
        assert(views(res@).subrange(n0 as int, res@.len() as int) =~= Seq::<Seq<char>>::empty());
        assert forall|x: Seq<char>| views(vis@).contains(x) <==> (v0.contains(x) || x == name@) by {
            if v0.contains(x) {
                let i = choose|i: int| 0 <= i < v0.len() && v0[i] == x;
                assert(views(vis@)[i] == x);
            }
            if x == name@ {
                assert(views(vis@)[v0.len() as int] == x);
            }
            if views(vis@).contains(x) {
                let i = choose|i: int| 0 <= i < views(vis@).len() && views(vis@)[i] == x;
                if i < v0.len() {
                    assert(v0[i] == x);
                }
            }
        }
        proof {
            lemma_keys_agree(self.plugin_dependencies@, dependency_views(self.plugin_dependencies@), name@);
            lemma_key_pos(self.plugin_dependencies@, name@);
        }
        match find_key(&self.plugin_dependencies, name.as_str()) {
            None => {
                assert(self.declared(name@) == Seq::<(Seq<char>, bool)>::empty());
                assert(full == (views(vis@), views(res@).subrange(n0 as int, res@.len() as int)));
                assert(views(res@) == r0);
            },
            Some(p) => {
                let deps = &self.plugin_dependencies[p].1;
                let ghost dv = deps@.map_values(|d: PluginDependency| dep_view(d));
                assert(self.declared(name@) == dv);
                assert(key_pos(self.plugins@, name@) is Some);
                let mut k: usize = 0;
                while k < deps.len()
                    invariant
                        k <= deps@.len(),
                        v0 == views(visited@),
                        dv == deps@.map_values(|d: PluginDependency| dep_view(d)),
                        self.declared(name@) == dv,
                        key_pos(self.plugins@, name@) is Some,
                        !v0.contains(name@),
                        fuel > count_unseen(self.plugins@, v0),
                        f1 == (fuel - 1) as nat,
                        full == self.walk_deps(f1, dv, 0, v0.push(name@)),
                        full.0 == self.walk_deps(f1, dv, k as int, views(vis@)).0,
                        full.1 == views(res@).subrange(n0 as int, res@.len() as int) + self.walk_deps(
                            f1,
                            dv,
                            k as int,
                            views(vis@),
                        ).1,
                        res@.len() >= n0,
                        views(res@).subrange(0, n0 as int) == r0,
                        ({
                            let acc = views(res@).subrange(n0 as int, res@.len() as int);
                            &&& acc.no_duplicates()
                            &&& forall|x: Seq<char>| acc.contains(x) ==> !v0.contains(x) && x != name@
                            &&& forall|x: Seq<char>|
                                views(vis@).contains(x) <==> (v0.contains(x) || x == name@
                                    || acc.contains(x))
                            &&& self.pulled_in_by(acc, name@)
                            &&& self.closed_over(acc, views(vis@))
                        }),
                        forall|q: int|
                            0 <= q < k && (!dv[q].1 || self.registered(dv[q].0)) ==> views(
                                vis@,
                            ).contains(#[trigger] dv[q].0),
                        path == stack.push(name@),
                        self.chain(path),
                        forall|x: Seq<char>| v0.contains(x) ==> r0.contains(x) || stack.contains(x),
                        self.acyclic() ==> self.placed_from(views(res@), n0 as int),
                        self.acyclic() ==> (forall|q: int|
                            0 <= q < k && self.goes_on(dv[q]) ==> views(res@).contains(
                                #[trigger] dv[q].0,
                            )),
                    decreases deps@.len() - k,
                {
                    let dep = &deps[k];
                    assert(dv[k as int] == dep_view(*dep));
                    let ghost vis_k = views(vis@);
                    let ghost acc_k = views(res@).subrange(n0 as int, res@.len() as int);
                    let follow = !dep.optional || find_key(&self.plugins, dep.name.as_str()).is_some();
                    assert(follow == self.goes_on(dv[k as int]));
                    let unseen = !contains_name(&vis, dep.name.as_str());
                    if follow && unseen {
                        let ghost vis_b = views(vis@);
                        let ghost res_b = views(res@);
                        let ghost acc_b = res_b.subrange(n0 as int, res_b.len() as int);
                        proof {
                            lemma_count_unseen_drops(self.plugins@, v0, vis_b, name@);
                        }
                        assert(count_unseen(self.plugins@, vis_b) < count_unseen(self.plugins@, v0));
                        proof {
                            assert(self.follows(name@, dep.name@)) by {
                                assert(self.declared(name@)[k as int].0 == dep.name@);
                            }
                            assert(path.last() == name@);
                            self.lemma_chain_push(path, dep.name@);
                            lemma_visited_covered(v0, r0, stack, name@, vis_b, res_b, n0 as int);
                        }
                        let (v2, r2) = self.visit(Ghost(f1), Ghost(path), &dep.name, vis, res);
                        vis = v2;
                        res = r2;
                        proof {
                            let res_a = views(res@);
                            let new_c = res_a.subrange(res_b.len() as int, res_a.len() as int);
                            let acc_a = res_a.subrange(n0 as int, res_a.len() as int);
                            assert(res_a.subrange(0, res_b.len() as int) == res_b);
                            assert(acc_a =~= acc_b + new_c) by {
                                assert forall|i: int| 0 <= i < acc_a.len() implies acc_a[i] == (acc_b
                                    + new_c)[i] by {
                                    if i < acc_b.len() {
                                        assert(acc_a[i] == res_a[n0 + i]);
                                        assert(res_a[n0 + i] == res_a.subrange(0, res_b.len() as int)[n0 + i]);
                                    }
                                }
                            }
                            assert(res_a.subrange(0, n0 as int) =~= res_b.subrange(0, n0 as int)) by {
                                assert forall|i: int| 0 <= i < n0 implies res_a[i] == res_b[i] by {
                                    assert(res_a[i] == res_a.subrange(0, res_b.len() as int)[i]);
                                }
                            }
                            assert(self.follows(name@, dep.name@)) by {
                                assert(self.declared(name@)[k as int].0 == dep.name@);
                            }
                            assert(acc_a.no_duplicates()) by {
                                assert forall|a: int, b: int| 0 <= a < b < acc_a.len() implies acc_a[a]
                                    != acc_a[b] by {
                                    if a < acc_b.len() && b >= acc_b.len() {
                                        assert(acc_a[b] == new_c[b - acc_b.len()]);
                                        assert(new_c.contains(acc_a[b]));
                                        assert(acc_a[a] == acc_b[a]);
                                        assert(acc_b.contains(acc_b[a]));
                                        assert(vis_b.contains(acc_a[a]));
                                    } else if a < acc_b.len() {
                                        assert(acc_a[a] == acc_b[a] && acc_a[b] == acc_b[b]);
                                    } else {
                                        assert(acc_a[a] == new_c[a - acc_b.len()]);
                                        assert(acc_a[b] == new_c[b - acc_b.len()]);
                                    }
                                }
                            }
                            assert forall|x: Seq<char>| acc_a.contains(x) implies !v0.contains(x) && x
                                != name@ by {
                                let i = choose|i: int| 0 <= i < acc_a.len() && acc_a[i] == x;
                                if i >= acc_b.len() {
                                    assert(new_c[i - acc_b.len()] == x);
                                    assert(new_c.contains(x));
                                    assert(!vis_b.contains(x));
                                } else {
                                    assert(acc_b[i] == x);
                                    assert(acc_b.contains(x));
                                }
                            }
                            assert forall|x: Seq<char>| views(vis@).contains(x) <==> (v0.contains(x)
                                || x == name@ || acc_a.contains(x)) by {
                                if acc_a.contains(x) {
                                    let i = choose|i: int| 0 <= i < acc_a.len() && acc_a[i] == x;
                                    if i >= acc_b.len() {
                                        assert(new_c[i - acc_b.len()] == x);
                                    } else {
                                        assert(acc_b[i] == x);
                                    }
                                }
                                if acc_b.contains(x) {
                                    let i = choose|i: int| 0 <= i < acc_b.len() && acc_b[i] == x;
                                    assert(acc_a[i] == x);
                                }
                                if new_c.contains(x) {
                                    let i = choose|i: int| 0 <= i < new_c.len() && new_c[i] == x;
                                    assert(acc_a[acc_b.len() + i] == x);
                                }
                            }
                            assert(self.pulled_in_by(acc_a, name@)) by {
                                assert forall|i: int| #![trigger acc_a[i]] 0 <= i < acc_a.len() implies (exists|j: int|
                                    i < j < acc_a.len() && #[trigger] self.follows(acc_a[j], acc_a[i]))
                                    || self.follows(name@, acc_a[i]) by {
                                    if i < acc_b.len() {
                                        assert(acc_a[i] == acc_b[i]);
                                        if !self.follows(name@, acc_b[i]) {
                                            let j = choose|j: int|
                                                i < j < acc_b.len() && #[trigger] self.follows(
                                                    acc_b[j],
                                                    acc_b[i],
                                                );
                                            assert(acc_a[j] == acc_b[j]);
                                        }
                                    } else if i < acc_a.len() - 1 {
                                        let m = i - acc_b.len();
                                        let pre = new_c.drop_last();
                                        assert(acc_a[i] == new_c[m]);
                                        assert(pre[m] == new_c[m]);
                                        if self.follows(new_c.last(), pre[m]) {
                                            let j = new_c.len() - 1;
                                            assert(acc_a[acc_b.len() + j] == new_c[j]);
                                            assert(self.follows(acc_a[acc_b.len() + j], acc_a[i]));
                                        } else {
                                            let j = choose|j: int|
                                                m < j < pre.len() && #[trigger] self.follows(pre[j], pre[m]);
                                            assert(pre[j] == new_c[j]);
                                            assert(acc_a[acc_b.len() + j] == new_c[j]);
                                            assert(self.follows(acc_a[acc_b.len() + j], acc_a[i]));
                                        }
                                    } else {
                                        assert(acc_a[i] == new_c.last());
                                    }
                                }
                            }
                            assert(self.closed_over(acc_a, views(vis@))) by {
                                assert forall|i: int, d: Seq<char>|
                                    0 <= i < acc_a.len() && #[trigger] self.follows(acc_a[i], d) implies views(
                                    vis@,
                                ).contains(d) by {
                                    if i < acc_b.len() {
                                        assert(acc_a[i] == acc_b[i]);
                                        assert(vis_b.contains(d));
                                    } else {
                                        assert(acc_a[i] == new_c[i - acc_b.len()]);
                                    }
                                }
                            }
                            let rest = self.walk_deps(f1, dv, k + 1, views(vis@)).1;
                            assert(self.walk_deps(f1, dv, k as int, vis_b) == (
                                self.walk_deps(f1, dv, k + 1, views(vis@)).0,
                                new_c + rest,
                            ));
                            assert(acc_b + (new_c + rest) =~= acc_a + rest);
                            if self.acyclic() {
                                assert(self.placed_from(res_a, n0 as int)) by {
                                    assert forall|i: int, d: Seq<char>|
                                        n0 <= i < res_a.len() && #[trigger] self.follows(res_a[i], d) implies exists|j: int|
                                        0 <= j < i && res_a[j] == d by {
                                        if i < res_b.len() {
                                            assert(res_a[i] == res_a.subrange(0, res_b.len() as int)[i]);
                                            let j = choose|j: int| 0 <= j < i && res_b[j] == d;
                                            assert(res_a[j] == res_a.subrange(0, res_b.len() as int)[j]);
                                        }
                                    }
                                }
                                assert(new_c.last() == dep.name@);
                                assert(res_a[res_a.len() - 1] == dep.name@);
                                assert(res_a.contains(dep.name@));
                                assert forall|q: int| 0 <= q < k && self.goes_on(dv[q]) implies res_a.contains(#[trigger] dv[q].0) by {
                                    let j = choose|j: int| 0 <= j < res_b.len() && res_b[j] == dv[q].0;
                                    assert(res_a[j] == res_a.subrange(0, res_b.len() as int)[j]);
                                }
                            }
                        }
                    }
                    proof {
                        if !(follow && unseen) {
                            assert(self.walk_deps(f1, dv, k as int, vis_k) == self.walk_deps(
                                f1,
                                dv,
                                k + 1,
                                vis_k,
                            ));
                        }
                        if !dv[k as int].1 || self.registered(dv[k as int].0) {
                            assert(views(vis@).contains(dv[k as int].0));
                        }
                        if self.acyclic() && !(follow && unseen) && self.goes_on(dv[k as int]) {
                            assert(self.follows(name@, dv[k as int].0)) by {
                                assert(self.declared(name@)[k as int].0 == dv[k as int].0);
                            }
                            assert(vis_k.contains(dv[k as int].0));
                            lemma_visited_covered(v0, r0, stack, name@, vis_k, views(res@), n0 as int);
                            assert(path.last() == name@);
                            self.lemma_seen_dependency_resolved(path, vis_k, views(res@), dv[k as int].0);
                        }
                    }
                    k = k + 1;
                }
                let ghost acc_end = views(res@).subrange(n0 as int, res@.len() as int);
                assert(acc_end + Seq::<Seq<char>>::empty() =~= acc_end);
            },
        }
        let ghost res_b = views(res@);
        let ghost acc = res_b.subrange(n0 as int, res_b.len() as int);
        let ghost vis_end = views(vis@);
        assert(full == (vis_end, acc));
        assert(self.acyclic() ==> (forall|d: Seq<char>| self.follows(name@, d) ==> res_b.contains(d))) by {
            if self.acyclic() {
                assert forall|d: Seq<char>| self.follows(name@, d) implies res_b.contains(d) by {
                    let q = choose|q: int|
                        0 <= q < self.declared(name@).len() && (#[trigger] self.declared(name@)[q]).0 == d
                            && (!self.declared(name@)[q].1 || self.registered(d));
                    assert(self.goes_on(self.declared(name@)[q]));
                }
            }
        }
        res.push(name.clone());
        proof {
            let res_a = views(res@);
            assert(res_a =~= res_b.push(name@));
            let added = res_a.subrange(n0 as int, res_a.len() as int);
            assert(added =~= acc.push(name@));
            assert(res_a.subrange(0, n0 as int) =~= res_b.subrange(0, n0 as int));
            assert(added.no_duplicates()) by {
                assert forall|a: int, b: int| 0 <= a < b < added.len() implies added[a] != added[b] by {
                    if b == added.len() - 1 {
                        assert(acc.contains(added[a]));
                    }
                }
            }
            assert forall|x: Seq<char>| added.contains(x) implies !v0.contains(x) by {
                let i = choose|i: int| 0 <= i < added.len() && added[i] == x;
                if i < acc.len() {
                    assert(acc[i] == x);
                }
            }
            assert forall|x: Seq<char>| vis_end.contains(x) <==> (v0.contains(x) || added.contains(x)) by {
                if added.contains(x) {
                    let i = choose|i: int| 0 <= i < added.len() && added[i] == x;
                    if i < acc.len() {
                        assert(acc[i] == x);
                    }
                }
                if acc.contains(x) {
                    let i = choose|i: int| 0 <= i < acc.len() && acc[i] == x;
                    assert(added[i] == x);
                }
                if x == name@ {
                    assert(added[acc.len() as int] == x);
                }
            }
            assert(self.pulled_in_by(acc, name@));
            assert(added.drop_last() =~= acc);
            assert(self.walk(fuel, name@, v0) == (vis_end, added));
            if self.acyclic() {
                assert(self.placed_from(res_a, n0 as int)) by {
                    assert forall|i: int, d: Seq<char>|
                        n0 <= i < res_a.len() && #[trigger] self.follows(res_a[i], d) implies exists|j: int|
                        0 <= j < i && res_a[j] == d by {
                        if i < res_b.len() {
                            assert(res_a[i] == res_b[i]);
                            let j = choose|j: int| 0 <= j < i && res_b[j] == d;
                            assert(res_a[j] == res_b[j]);
                        } else {
                            assert(res_a[i] == name@);
                            let j = choose|j: int| 0 <= j < res_b.len() && res_b[j] == d;
                            assert(res_a[j] == res_b[j]);
                        }
                    }
                }
            }
            assert(self.pulled_in(added));
            assert(self.closed_over(added, vis_end)) by {
                assert forall|i: int, d: Seq<char>|
                    0 <= i < added.len() && #[trigger] self.follows(added[i], d) implies vis_end.contains(d) by {
                    if i < acc.len() {
                        assert(added[i] == acc[i]);
                    } else {
                        assert(added[i] == name@);
                        let q = choose|q: int|
                            0 <= q < self.declared(name@).len() && (#[trigger] self.declared(name@)[q]).0 == d
                                && (!self.declared(name@)[q].1 || self.registered(d));
                    }
                }
            }
        }
        (vis, res)
    }

    /// The order to load `plugin_name` and what it depends on, depth first as
    /// `load_order` says: each name once,
    /// `plugin_name` last, every other name pulled in by a later one through a
    /// dependency that is required or optional-and-registered, and every such
    /// dependency of a listed name listed too, and, where no dependency chain comes
    /// back to where it started, listed before the names that depend on it. A name with
    /// no recorded dependencies resolves to itself alone. Never fails.
    pub fn resolve_dependencies(&self, plugin_name: &str) -> (r: Result<Vec<String>, String>)
        ensures
            r matches Ok(v) && {
                let names = views(v@);
                &&& names == self.load_order(plugin_name@)
                &&& names.len() >= 1
                &&& names.last() == plugin_name@
                &&& names.no_duplicates()
                &&& self.pulled_in(names)
                &&& self.closed_over(names, names)
                &&& self.acyclic() ==> self.dependencies_first(names)
            },
    {
        let name = owned(plugin_name);
        let visited: Vec<String> = Vec::new();
        let resolved: Vec<String> = Vec::new();
        proof {
            lemma_count_unseen_none(self.plugins@);
            assert(views(visited@) =~= Seq::<Seq<char>>::empty());
        }
        let ghost fuel = (self.plugins@.len() + 1) as nat;
        let ghost stack = Seq::<Seq<char>>::empty();
        proof {
            assert(stack.push(name@).len() == 1);
        }
        let (_visited, resolved) = self.visit(Ghost(fuel), Ghost(stack), &name, visited, resolved);
        assert(views(resolved@).subrange(0, resolved@.len() as int) =~= views(resolved@));
        Ok(resolved)
    }

    /// The plugin registered under `name`.
    pub fn get(&self, name: &str) -> (r: Option<&RegisteredPlugin<P>>)
        ensures
            match key_pos(self.entries(), name@) {
                Some(i) => r == Some(&self.entries()[i].1),
                None => r is None,
            },
    {
        match find_key(&self.plugins, name) {
            Some(i) => Some(&self.plugins[i].1),
            None => None,
        }
    }

    /// The plugin registered under `name`, when its version is `version`.
    pub fn get_with_version(&self, name: &str, version: &str) -> (r: Option<&RegisteredPlugin<P>>)
        ensures
            match key_pos(self.entries(), name@) {
                Some(i) => if self.entries()[i].1.info.version@ == version@ {
                    r == Some(&self.entries()[i].1)
                } else {
                    r is None
                },
                None => r is None,
            },
    {
        match self.get(name) {
            Some(p) => if str_eq(p.info.version.as_str(), version) {
                Some(p)
            } else {
                None
            },
            None => None,
        }
    }
}

impl<P> Default for PluginRegistry<P> {
    /// An empty registry.
    fn default() -> (r: Self)
        ensures
            r.entries().len() == 0,
            r.versions().len() == 0,
            r.dependencies().len() == 0,
    {
        Self::new()
    }
}

} // verus!
