//! Native desktop integrations: the menu bar layout and keyboard shortcuts, a
//! searchable index of workflows and plugins, text previews, and the notification
//! log. Paths are `/`-separated text.
use vstd::prelude::*;
use crate::path_policy::{components, path_components};
use crate::text::{
    chars_of, has_infix, lowercase, push_all, push_str, replace_all, replace_chars, signed_decimal,
    signed_decimal_chars, split_chars, split_on, str_contains, str_eq, string_of, to_lowercase, views,
};

verus! {

/// One menu entry: its label and its keyboard shortcut (empty when it has none).
#[derive(Debug, Clone)]
pub struct MenuItem {
    pub label: String,
    pub shortcut: String,
}

impl MenuItem {
    /// An entry with the given label and shortcut.
    pub fn new(label: &str, shortcut: &str) -> (r: Self)
        ensures
            r.label@ == label@,
            r.shortcut@ == shortcut@,
    {
        MenuItem { label: String::from_str(label), shortcut: String::from_str(shortcut) }
    }
}

/// The item has this label and shortcut.
pub open spec fn item_is(i: MenuItem, label: Seq<char>, shortcut: Seq<char>) -> bool {
    i.label@ == label && i.shortcut@ == shortcut
}

/// The application menu.
#[derive(Debug, Clone)]
pub struct AppMenu {
    pub about: MenuItem,
    pub preferences: MenuItem,
    pub quit: MenuItem,
}

impl Default for AppMenu {
    fn default() -> (r: Self)
        ensures
            item_is(r.about, "About LAO"@, ""@),
            item_is(r.preferences, "Preferences"@, "Cmd+,"@),
            item_is(r.quit, "Quit LAO"@, "Cmd+Q"@),
    {
        AppMenu {
            about: MenuItem::new("About LAO", ""),
            preferences: MenuItem::new("Preferences", "Cmd+,"),
            quit: MenuItem::new("Quit LAO", "Cmd+Q"),
        }
    }
}

/// The file menu.
#[derive(Debug, Clone)]
pub struct FileMenu {
    pub new_workflow: MenuItem,
    pub open_workflow: MenuItem,
    pub recent_workflows: MenuItem,
    pub save_workflow: MenuItem,
}

impl Default for FileMenu {
    fn default() -> (r: Self)
        ensures
            item_is(r.new_workflow, "New Workflow"@, "Cmd+N"@),
            item_is(r.open_workflow, "Open Workflow"@, "Cmd+O"@),
            item_is(r.recent_workflows, "Open Recent"@, ""@),
            item_is(r.save_workflow, "Save Workflow"@, "Cmd+S"@),
    {
        FileMenu {
            new_workflow: MenuItem::new("New Workflow", "Cmd+N"),
            open_workflow: MenuItem::new("Open Workflow", "Cmd+O"),
            recent_workflows: MenuItem::new("Open Recent", ""),
            save_workflow: MenuItem::new("Save Workflow", "Cmd+S"),
        }
    }
}

/// The edit menu.
#[derive(Debug, Clone)]
pub struct EditMenu {
    pub undo: MenuItem,
    pub redo: MenuItem,
    pub cut: MenuItem,
    pub copy: MenuItem,
    pub paste: MenuItem,
}

impl Default for EditMenu {
    fn default() -> (r: Self)
        ensures
            item_is(r.undo, "Undo"@, "Cmd+Z"@),
            item_is(r.redo, "Redo"@, "Cmd+Shift+Z"@),
            item_is(r.cut, "Cut"@, "Cmd+X"@),
            item_is(r.copy, "Copy"@, "Cmd+C"@),
            item_is(r.paste, "Paste"@, "Cmd+V"@),
    {
        EditMenu {
            undo: MenuItem::new("Undo", "Cmd+Z"),
            redo: MenuItem::new("Redo", "Cmd+Shift+Z"),
            cut: MenuItem::new("Cut", "Cmd+X"),
            copy: MenuItem::new("Copy", "Cmd+C"),
            paste: MenuItem::new("Paste", "Cmd+V"),
        }
    }
}

/// The view menu.
#[derive(Debug, Clone)]
pub struct ViewMenu {
    pub toggle_sidebar: MenuItem,
    pub toggle_console: MenuItem,
    pub fullscreen: MenuItem,
    pub zoom_in: MenuItem,
    pub zoom_out: MenuItem,
}

impl Default for ViewMenu {
    fn default() -> (r: Self)
        ensures
            item_is(r.toggle_sidebar, "Toggle Sidebar"@, "Cmd+B"@),
            item_is(r.toggle_console, "Toggle Console"@, "Cmd+J"@),
            item_is(r.fullscreen, "Enter Full Screen"@, "Cmd+Ctrl+F"@),
            item_is(r.zoom_in, "Zoom In"@, "Cmd++"@),
            item_is(r.zoom_out, "Zoom Out"@, "Cmd+-"@),
    {
        ViewMenu {
            toggle_sidebar: MenuItem::new("Toggle Sidebar", "Cmd+B"),
            toggle_console: MenuItem::new("Toggle Console", "Cmd+J"),
            fullscreen: MenuItem::new("Enter Full Screen", "Cmd+Ctrl+F"),
            zoom_in: MenuItem::new("Zoom In", "Cmd++"),
            zoom_out: MenuItem::new("Zoom Out", "Cmd+-"),
        }
    }
}

/// The help menu.
#[derive(Debug, Clone)]
pub struct HelpMenu {
    pub documentation: MenuItem,
    pub keyboard_shortcuts: MenuItem,
    pub report_issue: MenuItem,
    pub check_updates: MenuItem,
}

impl Default for HelpMenu {
    fn default() -> (r: Self)
        ensures
            item_is(r.documentation, "LAO Documentation"@, ""@),
            item_is(r.keyboard_shortcuts, "Keyboard Shortcuts"@, "Cmd+?"@),
            item_is(r.report_issue, "Report Issue"@, ""@),
            item_is(r.check_updates, "Check for Updates"@, ""@),
    {
        HelpMenu {
            documentation: MenuItem::new("LAO Documentation", ""),
            keyboard_shortcuts: MenuItem::new("Keyboard Shortcuts", "Cmd+?"),
            report_issue: MenuItem::new("Report Issue", ""),
            check_updates: MenuItem::new("Check for Updates", ""),
        }
    }
}

/// The whole menu bar.
#[derive(Debug, Clone)]
pub struct MenuStructure {
    pub app_menu: AppMenu,
    pub file_menu: FileMenu,
    pub edit_menu: EditMenu,
    pub view_menu: ViewMenu,
    pub help_menu: HelpMenu,
}

/// The default menu bar: each menu with its standard entries.
pub open spec fn standard_menus(m: MenuStructure) -> bool {
    &&& item_is(m.app_menu.about, "About LAO"@, ""@)
    &&& item_is(m.app_menu.preferences, "Preferences"@, "Cmd+,"@)
    &&& item_is(m.app_menu.quit, "Quit LAO"@, "Cmd+Q"@)
    &&& item_is(m.file_menu.new_workflow, "New Workflow"@, "Cmd+N"@)
    &&& item_is(m.file_menu.open_workflow, "Open Workflow"@, "Cmd+O"@)
    &&& item_is(m.file_menu.recent_workflows, "Open Recent"@, ""@)
    &&& item_is(m.file_menu.save_workflow, "Save Workflow"@, "Cmd+S"@)
    &&& item_is(m.edit_menu.undo, "Undo"@, "Cmd+Z"@)
    &&& item_is(m.edit_menu.redo, "Redo"@, "Cmd+Shift+Z"@)
    &&& item_is(m.edit_menu.cut, "Cut"@, "Cmd+X"@)
    &&& item_is(m.edit_menu.copy, "Copy"@, "Cmd+C"@)
    &&& item_is(m.edit_menu.paste, "Paste"@, "Cmd+V"@)
    &&& item_is(m.view_menu.toggle_sidebar, "Toggle Sidebar"@, "Cmd+B"@)
    &&& item_is(m.view_menu.toggle_console, "Toggle Console"@, "Cmd+J"@)
    &&& item_is(m.view_menu.fullscreen, "Enter Full Screen"@, "Cmd+Ctrl+F"@)
    &&& item_is(m.view_menu.zoom_in, "Zoom In"@, "Cmd++"@)
    &&& item_is(m.view_menu.zoom_out, "Zoom Out"@, "Cmd+-"@)
    &&& item_is(m.help_menu.documentation, "LAO Documentation"@, ""@)
    &&& item_is(m.help_menu.keyboard_shortcuts, "Keyboard Shortcuts"@, "Cmd+?"@)
    &&& item_is(m.help_menu.report_issue, "Report Issue"@, ""@)
    &&& item_is(m.help_menu.check_updates, "Check for Updates"@, ""@)
}

/// The application's keyboard shortcuts.
#[derive(Debug, Clone)]
pub struct KeyboardShortcuts {
    pub new_workflow: String,
    pub open_workflow: String,
    pub save_workflow: String,
    pub run_workflow: String,
    pub stop_workflow: String,
    pub search_spotlight: String,
    pub quick_look: String,
}

/// The standard shortcuts.
pub open spec fn standard_shortcuts(k: KeyboardShortcuts) -> bool {
    &&& k.new_workflow@ == "Cmd+N"@
    &&& k.open_workflow@ == "Cmd+O"@
    &&& k.save_workflow@ == "Cmd+S"@
    &&& k.run_workflow@ == "Cmd+R"@
    &&& k.stop_workflow@ == "Cmd+."@
    &&& k.search_spotlight@ == "Cmd+Space"@
    &&& k.quick_look@ == "Space"@
}

impl Default for KeyboardShortcuts {
    fn default() -> (r: Self)
        ensures
            standard_shortcuts(r),
    {
        KeyboardShortcuts {
            new_workflow: String::from_str("Cmd+N"),
            open_workflow: String::from_str("Cmd+O"),
            save_workflow: String::from_str("Cmd+S"),
            run_workflow: String::from_str("Cmd+R"),
            stop_workflow: String::from_str("Cmd+."),
            search_spotlight: String::from_str("Cmd+Space"),
            quick_look: String::from_str("Space"),
        }
    }
}

/// The menu bar of the application.
#[derive(Debug, Clone)]
pub struct MenuBarManager {
    pub app_name: String,
    pub version: String,
    pub workflows_path: String,
}

impl MenuBarManager {
    /// A menu bar for `app_name` at `version`, with workflows under `workflows_path`.
    pub fn new(app_name: &str, version: &str, workflows_path: &str) -> (r: Self)
        ensures
            r.app_name@ == app_name@,
            r.version@ == version@,
            r.workflows_path@ == workflows_path@,
    {
        MenuBarManager {
            app_name: String::from_str(app_name),
            version: String::from_str(version),
            workflows_path: String::from_str(workflows_path),
        }
    }

    /// The menus to show: the standard ones.
    pub fn get_menu_structure(&self) -> (r: MenuStructure)
        ensures
            standard_menus(r),
    {
        MenuStructure {
            app_menu: AppMenu::default(),
            file_menu: FileMenu::default(),
            edit_menu: EditMenu::default(),
            view_menu: ViewMenu::default(),
            help_menu: HelpMenu::default(),
        }
    }

    /// The keyboard shortcuts: the standard ones.
    pub fn get_shortcuts(&self) -> (r: KeyboardShortcuts)
        ensures
            standard_shortcuts(r),
    {
        KeyboardShortcuts::default()
    }
}

/// An entry of the search index.
#[derive(Debug, Clone)]
pub struct SpotlightItem {
    pub id: String,
    pub title: String,
    pub description: String,
    /// The item's uniform type identifier.
    pub content_type: String,
    pub path: String,
    pub keywords: Vec<String>,
    pub thumbnail_path: Option<String>,
}

/// The item describes a workflow.
pub open spec fn is_workflow_item(item: SpotlightItem) -> bool {
    item.content_type@ == "com.lao.workflow"@
}

/// The last `limit` workflow items of `items`, the most recently indexed first.
pub open spec fn recent_workflows(items: Seq<SpotlightItem>, limit: nat) -> Seq<SpotlightItem>
    decreases items.len(),
{
    if limit == 0 || items.len() == 0 {
        Seq::empty()
    } else if is_workflow_item(items.last()) {
        seq![items.last()] + recent_workflows(items.drop_last(), (limit - 1) as nat)
    } else {
        recent_workflows(items.drop_last(), limit)
    }
}

/// `a` carries the same values as `b`.
pub open spec fn same_item(a: SpotlightItem, b: SpotlightItem) -> bool {
    a.id == b.id && a.title == b.title && a.description == b.description && a.content_type
        == b.content_type && a.path == b.path && views(a.keywords@) == views(b.keywords@)
        && a.thumbnail_path == b.thumbnail_path
}

fn copy_item(item: &SpotlightItem) -> (r: SpotlightItem)
    ensures
        same_item(r, *item),
{
    SpotlightItem {
        id: item.id.clone(),
        title: item.title.clone(),
        description: item.description.clone(),
        content_type: item.content_type.clone(),
        path: item.path.clone(),
        keywords: crate::workflow_types::clone_strings(&item.keywords),
        thumbnail_path: match &item.thumbnail_path {
            Some(t) => Some(t.clone()),
            None => None,
        },
    }
}

/// The final component of a path when it names something (not the root, `.` or
/// `..`), as `Path::file_name` gives it.
pub open spec fn file_name(p: Seq<char>) -> Option<Seq<char>> {
    let c = components(p);
    if c.len() > 0 && c.last() != "/"@ && c.last() != "."@ && c.last() != ".."@ {
        Some(c.last())
    } else {
        None
    }
}

/// The position of the last `.` in `s`.
pub open spec fn last_dot(s: Seq<char>) -> Option<int>
    decreases s.len(),
{
    if s.len() == 0 {
        None
    } else if s.last() == '.' {
        Some(s.len() - 1)
    } else {
        last_dot(s.drop_last())
    }
}

/// A file name without its extension, as `Path::file_stem` gives it: everything
/// before the last `.`, unless that dot starts the name.
pub open spec fn stem_of(name: Seq<char>) -> Seq<char> {
    match last_dot(name) {
        Some(i) => if i == 0 {
            name
        } else {
            name.subrange(0, i)
        },
        None => name,
    }
}

/// The stem of a path's file name; empty when the path names no file.
pub open spec fn path_stem(p: Seq<char>) -> Seq<char> {
    match file_name(p) {
        Some(n) => stem_of(n),
        None => Seq::empty(),
    }
}

fn stem_chars(name: &Vec<char>) -> (r: Vec<char>)
    ensures
        r@ == stem_of(name@),
{
    let mut i: usize = name.len();
    assert(name@.subrange(0, i as int) =~= name@);
    while i > 0
        invariant
            i <= name@.len(),
            last_dot(name@) == last_dot(name@.subrange(0, i as int)),
        decreases i,
    {
        assert(name@.subrange(0, i as int).drop_last() =~= name@.subrange(0, i - 1));
        if name[i - 1] == '.' {
            if i - 1 == 0 {
                return crate::path_policy::copy_chars(name);
            }
            let mut r: Vec<char> = Vec::new();
            let mut k: usize = 0;
            while k < i - 1
                invariant
                    k <= i - 1,
                    i <= name@.len(),
                    r@ == name@.subrange(0, k as int),
                decreases i - 1 - k,
            {
                r.push(name[k]);
                k = k + 1;
                assert(r@ =~= name@.subrange(0, k as int));
            }
            return r;
        }
        i = i - 1;
    }
    crate::path_policy::copy_chars(name)
}

fn path_stem_chars(p: &str) -> (r: Vec<char>)
    ensures
        r@ == path_stem(p@),
{
    proof {
        reveal_strlit("/");
        reveal_strlit(".");
        reveal_strlit("..");
    }
    let comps = path_components(&chars_of(p));
    let ghost c = comps@.map_values(|v: Vec<char>| v@);
    if comps.len() == 0 {
        return Vec::new();
    }
    let last = &comps[comps.len() - 1];
    assert(c.last() == last@);
    let is_root = last.len() == 1 && last[0] == '/';
    let is_dot = last.len() == 1 && last[0] == '.';
    let is_up = last.len() == 2 && last[0] == '.' && last[1] == '.';
    proof {
        if last@.len() == 1 {
            assert(is_root == (last@ =~= "/"@));
            assert(is_dot == (last@ =~= "."@));
        }
        if last@.len() == 2 {
            assert(is_up == (last@ =~= ".."@));
        }
    }
    if is_root || is_dot || is_up {
        return Vec::new();
    }
    stem_chars(last)
}

/// The search index of workflows and plugins, in the order they were indexed.
#[derive(Debug, Clone)]
pub struct SpotlightSearchManager {
    pub indexed_items: Vec<SpotlightItem>,
}

impl Default for SpotlightSearchManager {
    fn default() -> (r: Self)
        ensures
            r.indexed_items@.len() == 0,
    {
        SpotlightSearchManager::new()
    }
}

/// The item's texts match the query (all of them already lowercased): the title,
/// the description or a keyword contains it.
pub open spec fn lowered_match(title: Seq<char>, description: Seq<char>, keywords: Seq<Seq<char>>, query: Seq<char>) -> bool {
    has_infix(title, query) || has_infix(description, query) || exists|k: int|
        0 <= k < keywords.len() && has_infix(#[trigger] keywords[k], query)
}

/// The item matches a search for `query`, compared in lowercase.
pub open spec fn item_matches(item: SpotlightItem, query: Seq<char>) -> bool {
    lowered_match(
        lowercase(item.title@),
        lowercase(item.description@),
        views(item.keywords@).map_values(|k: Seq<char>| lowercase(k)),
        lowercase(query),
    )
}

/// The items of `items` that match `query`, in order.
pub open spec fn matching(items: Seq<SpotlightItem>, query: Seq<char>) -> Seq<SpotlightItem>
    decreases items.len(),
{
    if items.len() == 0 {
        Seq::empty()
    } else if item_matches(items.last(), query) {
        matching(items.drop_last(), query).push(items.last())
    } else {
        matching(items.drop_last(), query)
    }
}

/// An item matches a query when any one of its keywords, at any position, contains
/// the query in lowercase, whatever its title and description say.
pub proof fn lemma_any_keyword_matches(item: SpotlightItem, query: Seq<char>, k: int)
    requires
        0 <= k < item.keywords@.len(),
        has_infix(lowercase(item.keywords@[k]@), lowercase(query)),
    ensures
        item_matches(item, query),
{
    let kws = views(item.keywords@).map_values(|w: Seq<char>| lowercase(w));
    assert(kws[k] == lowercase(item.keywords@[k]@));
    assert(has_infix(kws[k], lowercase(query)));
}

/// A search returns every indexed item one of whose keywords, at any position,
/// contains the query in lowercase.
pub proof fn lemma_search_finds_keyword_match(
    items: Seq<SpotlightItem>,
    query: Seq<char>,
    i: int,
    k: int,
)
    requires
        0 <= i < items.len(),
        0 <= k < items[i].keywords@.len(),
        has_infix(lowercase(items[i].keywords@[k]@), lowercase(query)),
    ensures
        matching(items, query).contains(items[i]),
    decreases items.len(),
{
    lemma_any_keyword_matches(items[i], query, k);
    if i == items.len() - 1 {
        let m = matching(items, query);
        assert(m[m.len() - 1] == items[i]);
    } else {
        let d = items.drop_last();
        assert(d[i] == items[i]);
        lemma_search_finds_keyword_match(d, query, i, k);
        let rest = matching(d, query);
        let j = choose|j: int| 0 <= j < rest.len() && rest[j] == items[i];
        if item_matches(items.last(), query) {
            assert(matching(items, query)[j] == rest[j]);
        } else {
            assert(matching(items, query) == rest);
        }
    }
}

/// Whether lowercased texts match a lowercased query: the title, the description or
/// one of the keywords contains it.
pub fn matches_lowered(title: &str, description: &str, keywords: &Vec<String>, query: &str) -> (r:
    bool)
    ensures
        r == lowered_match(title@, description@, views(keywords@), query@),
{
    if str_contains(title, query) || str_contains(description, query) {
        return true;
    }
    let mut k: usize = 0;
    while k < keywords.len()
        invariant
            k <= keywords@.len(),
            forall|j: int| 0 <= j < k ==> !has_infix(#[trigger] views(keywords@)[j], query@),
        decreases keywords@.len() - k,
    {
        if str_contains(keywords[k].as_str(), query) {
            assert(has_infix(views(keywords@)[k as int], query@));
            return true;
        }
        k = k + 1;
    }
    false
}

impl SpotlightSearchManager {
    /// An empty index.
    pub fn new() -> (r: Self)
        ensures
            r.indexed_items@.len() == 0,
    {
        SpotlightSearchManager { indexed_items: Vec::new() }
    }

    /// Indexes the workflow at `workflow_path` under `title` with `tags` as keywords;
    /// its id is `workflow-` and the stem of the path's file name.
    pub fn index_workflow(&mut self, workflow_path: &str, title: &str, tags: Vec<String>)
        ensures
            final(self).indexed_items@.len() == old(self).indexed_items@.len() + 1,
            final(self).indexed_items@.drop_last() == old(self).indexed_items@,
            ({
                let item = final(self).indexed_items@.last();
                &&& item.id@ == "workflow-"@ + path_stem(workflow_path@)
                &&& item.title@ == title@
                &&& item.description@ == "Workflow: "@ + title@
                &&& item.content_type@ == "com.lao.workflow"@
                &&& item.path@ == workflow_path@
                &&& item.keywords == tags
                &&& item.thumbnail_path is None
            }),
    {
        let mut id = chars_of("workflow-");
        let stem = path_stem_chars(workflow_path);
        push_all(&mut id, &stem);
        let mut description = chars_of("Workflow: ");
        push_str(&mut description, title);
        let item = SpotlightItem {
            id: string_of(id.as_slice()),
            title: String::from_str(title),
            description: string_of(description.as_slice()),
            content_type: String::from_str("com.lao.workflow"),
            path: String::from_str(workflow_path),
            keywords: tags,
            thumbnail_path: None,
        };
        self.indexed_items.push(item);
        assert(self.indexed_items@.drop_last() =~= old(self).indexed_items@);
    }

    /// Indexes the plugin `plugin_name` with its description and `tags` as keywords;
    /// its id is `plugin-` and the lowercased name, and it has no path.
    pub fn index_plugin(&mut self, plugin_name: &str, description: &str, tags: Vec<String>)
        ensures
            final(self).indexed_items@.len() == old(self).indexed_items@.len() + 1,
            final(self).indexed_items@.drop_last() == old(self).indexed_items@,
            ({
                let item = final(self).indexed_items@.last();
                &&& item.id@ == "plugin-"@ + lowercase(plugin_name@)
                &&& item.title@ == plugin_name@
                &&& item.description@ == description@
                &&& item.content_type@ == "com.lao.plugin"@
                &&& item.path@ == Seq::<char>::empty()
                &&& item.keywords == tags
                &&& item.thumbnail_path is None
            }),
    {
        let mut id = chars_of("plugin-");
        let lower = to_lowercase(plugin_name);
        push_str(&mut id, lower.as_str());
        let item = SpotlightItem {
            id: string_of(id.as_slice()),
            title: String::from_str(plugin_name),
            description: String::from_str(description),
            content_type: String::from_str("com.lao.plugin"),
            path: String::new(),
            keywords: tags,
            thumbnail_path: None,
        };
        self.indexed_items.push(item);
        assert(self.indexed_items@.drop_last() =~= old(self).indexed_items@);
    }

    /// The indexed items matching `query` (in lowercase: title, description or a
    /// keyword contains it), in index order.
    pub fn search(&self, query: &str) -> (r: Vec<SpotlightItem>)
        ensures
            r@.len() == matching(self.indexed_items@, query@).len(),
            forall|k: int|
                0 <= k < r@.len() ==> {
                    let a = #[trigger] r@[k];
                    let b = matching(self.indexed_items@, query@)[k];
                    a.id == b.id && a.title == b.title && a.description == b.description
                        && a.content_type == b.content_type && a.path == b.path && views(
                        a.keywords@,
                    ) == views(b.keywords@) && a.thumbnail_path == b.thumbnail_path
                },
    {
        let q = to_lowercase(query);
        let ghost items = self.indexed_items@;
        let mut out: Vec<SpotlightItem> = Vec::new();
        let mut i: usize = 0;
        while i < self.indexed_items.len()
            invariant
                i <= items.len(),
                items == self.indexed_items@,
                q@ == lowercase(query@),
                out@.len() == matching(items.subrange(0, i as int), query@).len(),
                forall|k: int|
                    0 <= k < out@.len() ==> {
                        let a = #[trigger] out@[k];
                        let b = matching(items.subrange(0, i as int), query@)[k];
                        a.id == b.id && a.title == b.title && a.description == b.description
                            && a.content_type == b.content_type && a.path == b.path && views(
                            a.keywords@,
                        ) == views(b.keywords@) && a.thumbnail_path == b.thumbnail_path
                    },
            decreases items.len() - i,
        {
            let item = &self.indexed_items[i];
            assert(items.subrange(0, i + 1).drop_last() =~= items.subrange(0, i as int));
            assert(items.subrange(0, i + 1).last() == *item);
            let title = to_lowercase(item.title.as_str());
            let description = to_lowercase(item.description.as_str());
            let mut keywords: Vec<String> = Vec::new();
            let mut k: usize = 0;
            while k < item.keywords.len()
                invariant
                    k <= item.keywords@.len(),
                    views(keywords@) == views(item.keywords@).map_values(
                        |w: Seq<char>| lowercase(w),
                    ).subrange(0, k as int),
                decreases item.keywords@.len() - k,
            {
                let ghost before = views(keywords@);
                let lw = to_lowercase(item.keywords[k].as_str());
                keywords.push(lw);
                proof {
                    let full = views(item.keywords@).map_values(|w: Seq<char>| lowercase(w));
                    assert(views(item.keywords@)[k as int] == item.keywords@[k as int]@);
                    assert(full[k as int] == lw@);
                    assert(views(keywords@) =~= before.push(lw@));
                    assert(full.subrange(0, k + 1) =~= full.subrange(0, k as int).push(full[k as int]));
                }
                k = k + 1;
            }
            assert(views(keywords@) =~= views(item.keywords@).map_values(|w: Seq<char>| lowercase(w)));
            if matches_lowered(title.as_str(), description.as_str(), &keywords, q.as_str()) {
                let ghost o = out@;
                let copy = SpotlightItem {
                    id: item.id.clone(),
                    title: item.title.clone(),
                    description: item.description.clone(),
                    content_type: item.content_type.clone(),
                    path: item.path.clone(),
                    keywords: crate::workflow_types::clone_strings(&item.keywords),
                    thumbnail_path: match &item.thumbnail_path {
                        Some(t) => Some(t.clone()),
                        None => None,
                    },
                };
                out.push(copy);
                proof {
                    let m = matching(items.subrange(0, i + 1), query@);
                    assert(m == matching(items.subrange(0, i as int), query@).push(*item));
                    assert forall|j: int| 0 <= j < out@.len() implies {
                        let a = #[trigger] out@[j];
                        let b = m[j];
                        a.id == b.id && a.title == b.title && a.description == b.description
                            && a.content_type == b.content_type && a.path == b.path && views(
                            a.keywords@,
                        ) == views(b.keywords@) && a.thumbnail_path == b.thumbnail_path
                    } by {
                        if j < o.len() {
                            assert(out@[j] == o[j]);
                        }
                    }
                }
            }
            i = i + 1;
        }
        assert(items.subrange(0, items.len() as int) =~= items);
        out
    }

    /// The most recently indexed workflows, newest first, at most `limit` of them.
    pub fn get_recent_items(&self, limit: usize) -> (r: Vec<SpotlightItem>)
        ensures
            r@.len() == recent_workflows(self.indexed_items@, limit as nat).len(),
            forall|k: int|
                0 <= k < r@.len() ==> same_item(
                    #[trigger] r@[k],
                    recent_workflows(self.indexed_items@, limit as nat)[k],
                ),
    {
        let mut out: Vec<SpotlightItem> = Vec::new();
        let mut i: usize = self.indexed_items.len();
        let ghost items = self.indexed_items@;
        let ghost mut taken: Seq<SpotlightItem> = Seq::empty();
        proof {
            assert(items.subrange(0, i as int) =~= items);
            assert(taken + recent_workflows(items, limit as nat) =~= recent_workflows(items, limit as nat));
        }
        while i > 0 && out.len() < limit
            invariant
                items == self.indexed_items@,
                i <= items.len(),
                out@.len() <= limit,
                taken.len() == out@.len(),
                recent_workflows(items, limit as nat) == taken + recent_workflows(
                    items.subrange(0, i as int),
                    (limit - out@.len()) as nat,
                ),
                forall|k: int| 0 <= k < out@.len() ==> same_item(#[trigger] out@[k], taken[k]),
            decreases i,
        {
            let ghost pre = items.subrange(0, i as int);
            let ghost m = (limit - out@.len()) as nat;
            assert(pre.drop_last() =~= items.subrange(0, i - 1));
            assert(pre.last() == items[i - 1]);
            let item = &self.indexed_items[i - 1];
            if str_eq(item.content_type.as_str(), "com.lao.workflow") {
                proof {
                    reveal_strlit("com.lao.workflow");
                }
                assert(is_workflow_item(*item));
                assert(recent_workflows(pre, m) == seq![*item] + recent_workflows(
                    items.subrange(0, i - 1),
                    (m - 1) as nat,
                ));
                let copy = copy_item(item);
                out.push(copy);
                proof {
                    assert((taken + seq![*item]) + recent_workflows(items.subrange(0, i - 1), (m - 1) as nat)
                        =~= taken + (seq![*item] + recent_workflows(items.subrange(0, i - 1), (m - 1) as nat)));
                    taken = taken.push(*item);
                }
            } else {
                proof {
                    reveal_strlit("com.lao.workflow");
                }
                assert(!is_workflow_item(*item));
            }
            i = i - 1;
        }
        proof {
            let m = (limit - out@.len()) as nat;
            assert(recent_workflows(items.subrange(0, i as int), m) =~= Seq::<SpotlightItem>::empty());
            assert(taken + Seq::<SpotlightItem>::empty() =~= taken);
        }
        out
    }

    /// Empties the index.
    pub fn clear(&mut self)
        ensures
            final(self).indexed_items@.len() == 0,
    {
        self.indexed_items.clear();
    }
}

/// The kind of text a preview shows.
#[derive(Debug, Clone, Copy, PartialEq, Eq, Structural)]
pub enum PreviewType {
    YAML,
    JSON,
    Markdown,
    Text,
    Unknown,
}

/// A text preview of a file.
#[derive(Debug, Clone)]
pub struct QuickLookPreview {
    pub file_path: String,
    pub preview_type: PreviewType,
    pub preview_text: String,
}

/// `s` with `&`, `<`, `>` and `"` replaced by their HTML entities.
pub open spec fn html_escaped(s: Seq<char>) -> Seq<char> {
    replace_all(
        replace_all(replace_all(replace_all(s, "&"@, "&amp;"@), "<"@, "&lt;"@), ">"@, "&gt;"@),
        "\""@,
        "&quot;"@,
    )
}

/// The page that shows a preview text.
pub open spec fn html_page(text: Seq<char>) -> Seq<char> {
    "<html><head><style>body { font-family: monospace; padding: 10px; } pre { white-space: pre-wrap; }</style></head><body><pre>"@
        + html_escaped(text) + "</pre></body></html>"@
}

/// A line without the carriage return that ended it.
pub open spec fn strip_cr(p: Seq<char>) -> Seq<char> {
    if p.len() > 0 && p.last() == '\r' {
        p.drop_last()
    } else {
        p
    }
}

/// The lines of `s` as `str::lines` yields them: split at `\n` (a `\r` before it
/// dropped too), with no empty line after a final `\n`.
pub open spec fn text_lines(s: Seq<char>) -> Seq<Seq<char>> {
    let parts = split_on(s, '\n');
    let body = parts.drop_last().map_values(|p: Seq<char>| strip_cr(p));
    if parts.last().len() == 0 {
        body
    } else {
        body.push(parts.last())
    }
}

/// `parts` joined with `sep` between them.
pub open spec fn joined(parts: Seq<Seq<char>>, sep: Seq<char>) -> Seq<char>
    decreases parts.len(),
{
    if parts.len() == 0 {
        Seq::empty()
    } else if parts.len() == 1 {
        parts[0]
    } else {
        joined(parts.drop_last(), sep) + sep + parts.last()
    }
}

/// The preview text after truncation to `max_lines` lines.
pub open spec fn truncated_text(text: Seq<char>, max_lines: nat) -> Seq<char> {
    let lines = text_lines(text);
    if lines.len() > max_lines {
        joined(lines.subrange(0, max_lines as int), "\n"@) + "\n\n[Preview truncated...]"@
    } else {
        text
    }
}

fn replace_str(s: &Vec<char>, pat: &str, rep: &str) -> (r: Vec<char>)
    requires
        pat@.len() > 0,
    ensures
        r@ == replace_all(s@, pat@, rep@),
{
    let p = chars_of(pat);
    let q = chars_of(rep);
    replace_chars(s, &p, &q)
}

impl QuickLookPreview {
    /// The preview as an HTML page: the text, escaped, in a preformatted block.
    pub fn to_html(&self) -> (r: String)
        ensures
            r@ == html_page(self.preview_text@),
    {
        proof {
            reveal_strlit("&");
            reveal_strlit("<");
            reveal_strlit(">");
            reveal_strlit("\"");
        }
        let t = chars_of(self.preview_text.as_str());
        let a = replace_str(&t, "&", "&amp;");
        let b = replace_str(&a, "<", "&lt;");
        let c = replace_str(&b, ">", "&gt;");
        let d = replace_str(&c, "\"", "&quot;");
        let mut page = chars_of(
            "<html><head><style>body { font-family: monospace; padding: 10px; } pre { white-space: pre-wrap; }</style></head><body><pre>",
        );
        push_all(&mut page, &d);
        push_str(&mut page, "</pre></body></html>");
        string_of(page.as_slice())
    }

    /// The preview as plain text.
    pub fn to_text(&self) -> (r: &str)
        ensures
            r@ == self.preview_text@,
    {
        self.preview_text.as_str()
    }

    /// Keeps the first `max_lines` lines of a longer preview, joined by `\n`, and
    /// appends a truncation notice; a preview that fits is left as it is.
    pub fn truncate(&mut self, max_lines: usize)
        ensures
            final(self).preview_text@ == truncated_text(old(self).preview_text@, max_lines as nat),
            final(self).file_path == old(self).file_path,
            final(self).preview_type == old(self).preview_type,
    {
        let parts = split_chars(self.preview_text.as_str(), '\n');
        let ghost pv = views(parts@);
        proof {
            crate::text::lemma_split_on_len(self.preview_text@, '\n');
        }
        let n = parts.len();
        let mut lines: Vec<String> = Vec::new();
        let mut i: usize = 0;
        while i + 1 < n
            invariant
                n == parts@.len(),
                n >= 1,
                i + 1 <= n,
                pv == views(parts@),
                views(lines@) == pv.drop_last().map_values(|p: Seq<char>| strip_cr(p)).subrange(
                    0,
                    i as int,
                ),
            decreases n - i,
        {
            let piece = chars_of(parts[i].as_str());
            let stripped = if piece.len() > 0 && piece[piece.len() - 1] == '\r' {
                let mut r: Vec<char> = Vec::new();
                let mut k: usize = 0;
                let m = piece.len() - 1;
                while k < m
                    invariant
                        m + 1 == piece@.len(),
                        k <= m,
                        r@ == piece@.subrange(0, k as int),
                    decreases m - k,
                {
                    r.push(piece[k]);
                    k = k + 1;
                    assert(r@ =~= piece@.subrange(0, k as int));
                }
                assert(r@ =~= piece@.drop_last());
                r
            } else {
                piece
            };
            let ghost before = views(lines@);
            let line = string_of(stripped.as_slice());
            lines.push(line);
            proof {
                let full = pv.drop_last().map_values(|p: Seq<char>| strip_cr(p));
                assert(pv[i as int] == parts@[i as int]@);
                assert(full[i as int] == strip_cr(pv[i as int]));
                assert(views(lines@) =~= before.push(line@));
                assert(full.subrange(0, i + 1) =~= full.subrange(0, i as int).push(full[i as int]));
            }
            i = i + 1;
        }
        let ghost body = pv.drop_last().map_values(|p: Seq<char>| strip_cr(p));
        assert(views(lines@) =~= body);
        if parts[n - 1].as_str().unicode_len() != 0 {
            let last = parts[n - 1].clone();
            let ghost before = views(lines@);
            lines.push(last);
            assert(pv.last() == parts@[n - 1]@);
            assert(views(lines@) =~= before.push(pv.last()));
        } else {
            proof {
                assert(pv.last() == parts@[n - 1]@);
                assert(pv.last().len() == 0);
            }
        }
        assert(views(lines@) == text_lines(self.preview_text@));
        if lines.len() > max_lines {
            let ghost lv = views(lines@);
            let mut out: Vec<char> = Vec::new();
            let mut k: usize = 0;
            assert(lv.subrange(0, 0) =~= Seq::<Seq<char>>::empty());
            while k < max_lines
                invariant
                    k <= max_lines,
                    max_lines < lines@.len(),
                    lv == views(lines@),
                    out@ == joined(lv.subrange(0, k as int), "\n"@),
                decreases max_lines - k,
            {
                proof {
                    reveal_strlit("\n");
                }
                assert(lv.subrange(0, k + 1).drop_last() =~= lv.subrange(0, k as int));
                assert(lv.subrange(0, k + 1).last() == lines@[k as int]@);
                if k > 0 {
                    out.push('\n');
                }
                push_str(&mut out, lines[k].as_str());
                proof {
                    if k == 0 {
                        assert(out@ =~= joined(lv.subrange(0, 1), "\n"@));
                    } else {
                        assert(out@ =~= joined(lv.subrange(0, k + 1), "\n"@));
                    }
                }
                k = k + 1;
            }
            push_str(&mut out, "\n\n[Preview truncated...]");
            self.preview_text = string_of(out.as_slice());
        }
    }
}

/// What a notification reports.
#[derive(Debug, Clone, Copy, PartialEq, Eq, Structural)]
pub enum NotificationType {
    Success,
    Error,
    Warning,
    Info,
}

/// A button offered with a notification.
#[derive(Debug, Clone)]
pub struct ActionButton {
    pub label: String,
    pub action_id: String,
}

/// A notification that was sent.
#[derive(Debug, Clone)]
pub struct Notification {
    pub id: String,
    pub title: String,
    pub body: String,
    pub notification_type: NotificationType,
    pub timestamp: String,
    pub action_buttons: Vec<ActionButton>,
}

/// The notifications sent so far, oldest first.
#[derive(Debug, Clone)]
pub struct NotificationManager {
    pub notifications: Vec<Notification>,
}

impl Default for NotificationManager {
    fn default() -> (r: Self)
        ensures
            r.notifications@.len() == 0,
    {
        NotificationManager::new()
    }
}

/// `chrono::Local::now().timestamp()`: the current time in whole seconds since the
/// epoch. It reads the clock, so nothing is stated of the value.
#[verifier::external_body]
fn local_timestamp() -> (t: i64) {
    chrono::Local::now().timestamp()
}

/// `chrono::Local::now().to_rfc3339()`: the current local time as RFC 3339 text. It
/// reads the clock, so nothing is stated of the value.
#[verifier::external_body]
fn local_rfc3339() -> (s: String) {
    chrono::Local::now().to_rfc3339()
}

/// The notification has this id prefix followed by a time in seconds, this title,
/// body and type, and these buttons (label, action) in order.
pub open spec fn notification_is(
    n: Notification,
    id_prefix: Seq<char>,
    at: int,
    title: Seq<char>,
    body: Seq<char>,
    kind: NotificationType,
    buttons: Seq<(Seq<char>, Seq<char>)>,
) -> bool {
    &&& n.id@ == id_prefix + signed_decimal(at)
    &&& n.title@ == title
    &&& n.body@ == body
    &&& n.notification_type == kind
    &&& n.action_buttons@.len() == buttons.len()
    &&& forall|k: int|
        0 <= k < buttons.len() ==> (#[trigger] n.action_buttons@[k]).label@ == buttons[k].0
            && n.action_buttons@[k].action_id@ == buttons[k].1
}

fn button(label: &str, action_id: &str) -> (b: ActionButton)
    ensures
        b.label@ == label@,
        b.action_id@ == action_id@,
{
    ActionButton { label: String::from_str(label), action_id: String::from_str(action_id) }
}

fn stamped_id(prefix: &str, at: i64) -> (r: String)
    ensures
        r@ == prefix@ + signed_decimal(at as int),
{
    let mut m = chars_of(prefix);
    let d = signed_decimal_chars(at);
    push_all(&mut m, &d);
    string_of(m.as_slice())
}

impl NotificationManager {
    /// No notifications yet.
    pub fn new() -> (r: Self)
        ensures
            r.notifications@.len() == 0,
    {
        NotificationManager { notifications: Vec::new() }
    }

    /// Records that `workflow_name` completed in `duration_secs` seconds, as of `at`
    /// seconds since the epoch (local time `timestamp`), offering to view the results.
    pub fn record_workflow_complete(
        &mut self,
        workflow_name: &str,
        duration_secs: u64,
        at: i64,
        timestamp: String,
    )
        ensures
            final(self).notifications@.drop_last() == old(self).notifications@,
            final(self).notifications@.len() == old(self).notifications@.len() + 1,
            notification_is(
                final(self).notifications@.last(),
                "workflow-complete-"@,
                at as int,
                "Workflow Completed"@,
                workflow_name@ + " completed in "@ + crate::text::decimal(duration_secs as nat)
                    + " seconds"@,
                NotificationType::Success,
                seq![("View Results"@, "view_results"@)],
            ),
            final(self).notifications@.last().timestamp == timestamp,
    {
        let mut body = chars_of(workflow_name);
        push_str(&mut body, " completed in ");
        let d = crate::text::decimal_chars(duration_secs);
        push_all(&mut body, &d);
        push_str(&mut body, " seconds");
        let mut buttons: Vec<ActionButton> = Vec::new();
        buttons.push(button("View Results", "view_results"));
        let n = Notification {
            id: stamped_id("workflow-complete-", at),
            title: String::from_str("Workflow Completed"),
            body: string_of(body.as_slice()),
            notification_type: NotificationType::Success,
            timestamp,
            action_buttons: buttons,
        };
        self.notifications.push(n);
        assert(self.notifications@.drop_last() =~= old(self).notifications@);
    }

    /// Records that `workflow_name` failed with `error`, as of `at` seconds since the
    /// epoch (local time `timestamp`), offering to view the details.
    pub fn record_workflow_error(&mut self, workflow_name: &str, error: &str, at: i64, timestamp: String)
        ensures
            final(self).notifications@.drop_last() == old(self).notifications@,
            final(self).notifications@.len() == old(self).notifications@.len() + 1,
            notification_is(
                final(self).notifications@.last(),
                "workflow-error-"@,
                at as int,
                "Workflow Error"@,
                workflow_name@ + ": "@ + error@,
                NotificationType::Error,
                seq![("View Details"@, "view_details"@)],
            ),
            final(self).notifications@.last().timestamp == timestamp,
    {
        let mut body = chars_of(workflow_name);
        push_str(&mut body, ": ");
        push_str(&mut body, error);
        let mut buttons: Vec<ActionButton> = Vec::new();
        buttons.push(button("View Details", "view_details"));
        let n = Notification {
            id: stamped_id("workflow-error-", at),
            title: String::from_str("Workflow Error"),
            body: string_of(body.as_slice()),
            notification_type: NotificationType::Error,
            timestamp,
            action_buttons: buttons,
        };
        self.notifications.push(n);
        assert(self.notifications@.drop_last() =~= old(self).notifications@);
    }

    /// Records an update `status` of the background task `task_name`, as of `at`
    /// seconds since the epoch (local time `timestamp`).
    pub fn record_background_task(&mut self, task_name: &str, status: &str, at: i64, timestamp: String)
        ensures
            final(self).notifications@.drop_last() == old(self).notifications@,
            final(self).notifications@.len() == old(self).notifications@.len() + 1,
            notification_is(
                final(self).notifications@.last(),
                "task-update-"@,
                at as int,
                "Background Task"@,
                task_name@ + ": "@ + status@,
                NotificationType::Info,
                Seq::empty(),
            ),
            final(self).notifications@.last().timestamp == timestamp,
    {
        let mut body = chars_of(task_name);
        push_str(&mut body, ": ");
        push_str(&mut body, status);
        let n = Notification {
            id: stamped_id("task-update-", at),
            title: String::from_str("Background Task"),
            body: string_of(body.as_slice()),
            notification_type: NotificationType::Info,
            timestamp,
            action_buttons: Vec::new(),
        };
        self.notifications.push(n);
        assert(self.notifications@.drop_last() =~= old(self).notifications@);
    }

    /// Sends a completion notification stamped with the current local time.
    pub fn notify_workflow_complete(&mut self, workflow_name: &str, duration_secs: u64)
        ensures
            final(self).notifications@.drop_last() == old(self).notifications@,
            final(self).notifications@.len() == old(self).notifications@.len() + 1,
            exists|at: i64|
                notification_is(
                    final(self).notifications@.last(),
                    "workflow-complete-"@,
                    at as int,
                    "Workflow Completed"@,
                    workflow_name@ + " completed in "@ + crate::text::decimal(duration_secs as nat)
                        + " seconds"@,
                    NotificationType::Success,
                    seq![("View Results"@, "view_results"@)],
                ),
    {
        let at = local_timestamp();
        let timestamp = local_rfc3339();
        self.record_workflow_complete(workflow_name, duration_secs, at, timestamp);
    }

    /// Sends an error notification stamped with the current local time.
    pub fn notify_workflow_error(&mut self, workflow_name: &str, error: &str)
        ensures
            final(self).notifications@.drop_last() == old(self).notifications@,
            final(self).notifications@.len() == old(self).notifications@.len() + 1,
            exists|at: i64|
                notification_is(
                    final(self).notifications@.last(),
                    "workflow-error-"@,
                    at as int,
                    "Workflow Error"@,
                    workflow_name@ + ": "@ + error@,
                    NotificationType::Error,
                    seq![("View Details"@, "view_details"@)],
                ),
    {
        let at = local_timestamp();
        let timestamp = local_rfc3339();
        self.record_workflow_error(workflow_name, error, at, timestamp);
    }

    /// Sends a background task notification stamped with the current local time.
    pub fn notify_background_task(&mut self, task_name: &str, status: &str)
        ensures
            final(self).notifications@.drop_last() == old(self).notifications@,
            final(self).notifications@.len() == old(self).notifications@.len() + 1,
            exists|at: i64|
                notification_is(
                    final(self).notifications@.last(),
                    "task-update-"@,
                    at as int,
                    "Background Task"@,
                    task_name@ + ": "@ + status@,
                    NotificationType::Info,
                    Seq::empty(),
                ),
    {
        let at = local_timestamp();
        let timestamp = local_rfc3339();
        self.record_background_task(task_name, status, at, timestamp);
    }

    /// The notifications sent so far.
    pub fn get_notifications(&self) -> (r: &[Notification])
        ensures
            r@ == self.notifications@,
    {
        self.notifications.as_slice()
    }

    /// Forgets every notification.
    pub fn clear(&mut self)
        ensures
            final(self).notifications@.len() == 0,
    {
        self.notifications.clear();
    }
}

} // verus!
