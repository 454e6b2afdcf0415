use vstd::prelude::*;

use crate::config::{managed_file_name, other_target, path_join, target_label, target_tag, texts, Config, Target};
use crate::flakes::{find_from, first_occurrence, lemma_first_occurrence_exists, occurs_at};
use crate::input::{edited, EditRequest, TextInput};
use crate::manifest::{rendered_home_manager, rendered_nixos, FileWrite, ManagedFile, Manifest};
use crate::number::{decimal, decimal_string};
use crate::search::SearchHit;
use crate::text::{chars_of, push_str, string_of_range, text_eq, trim, trim_range};

verus! {

// ---------------------------------------------------------------------------
// Plain types of the interface
// ---------------------------------------------------------------------------

/// What the interface is doing besides browsing.
#[derive(PartialEq, Eq, Structural, Clone, Copy, Debug)]
pub enum Mode {
    Browsing,
    ThemeSelect,
    ChannelEdit,
}

/// Whether a search bar takes typed text or vim-style keys.
#[derive(PartialEq, Eq, Structural, Clone, Copy, Debug)]
pub enum SearchInputMode {
    Insert,
    Normal,
}

/// The tabs of the interface.
#[derive(PartialEq, Eq, Structural, Clone, Copy, Debug)]
pub enum Tab {
    Search,
    Installed,
    Building,
    Queue,
}

/// The title of a tab.
pub open spec fn tab_title(t: Tab) -> Seq<char> {
    match t {
        Tab::Search => "Search"@,
        Tab::Installed => "Installed"@,
        Tab::Building => "Building"@,
        Tab::Queue => "Queue"@,
    }
}

impl Tab {
    pub fn label(self) -> (s: &'static str)
        ensures
            s@ == tab_title(self),
    {
        match self {
            Tab::Search => "Search",
            Tab::Installed => "Installed",
            Tab::Building => "Building",
            Tab::Queue => "Queue",
        }
    }
}

/// The channels offered in the channel picker.
pub open spec fn channels() -> Seq<Seq<char>> {
    seq!["nixpkgs"@, "nixpkgs-unstable"@]
}

/// How many channels the picker offers.
pub const CHANNEL_COUNT: usize = 2;

/// The channel at position `i` of the picker.
pub fn channel_at(i: usize) -> (s: &'static str)
    requires
        i < CHANNEL_COUNT,
    ensures
        s@ == channels()[i as int],
{
    if i == 0 {
        "nixpkgs"
    } else {
        "nixpkgs-unstable"
    }
}

/// A package tracked by nixbox's manifest, tagged with the target it belongs
/// to.
pub struct ManagedPackage {
    pub name: String,
    pub scope: Target,
}

/// A package declared directly in one of the user's main config files.
pub struct ExternalPackage {
    pub name: String,
    /// The attribute whose list declares it.
    pub source_attr: String,
    /// Whether it stands on a line of its own, so that it can be moved.
    pub migratable: bool,
    /// The config file it was found in.
    pub scope: Target,
}

impl ExternalPackage {
    /// A copy of the package.
    pub fn duplicate(&self) -> (p: ExternalPackage)
        ensures
            p == *self,
    {
        ExternalPackage {
            name: self.name.clone(),
            source_attr: self.source_attr.clone(),
            migratable: self.migratable,
            scope: self.scope,
        }
    }
}

/// The row under the cursor in the Installed tab.
pub enum InstalledCursor {
    Managed(ManagedPackage),
    External(ExternalPackage),
}

/// A change waiting for its rebuild.
pub enum QueuedOp {
    Install { hit: SearchHit, scope: Target },
    Uninstall { name: String, scope: Target },
    Migrate { names: Vec<String>, scope: Target },
}

/// The target an operation changes.
pub open spec fn op_scope(op: QueuedOp) -> Target {
    match op {
        QueuedOp::Install { scope, .. } => scope,
        QueuedOp::Uninstall { scope, .. } => scope,
        QueuedOp::Migrate { scope, .. } => scope,
    }
}

/// How an operation is shown: what it does and to which target.
pub open spec fn op_label(op: QueuedOp) -> Seq<char> {
    let tag = " ["@ + target_tag(op_scope(op)) + "]"@;
    match op {
        QueuedOp::Install { hit, .. } => "install "@ + hit.attr@ + tag,
        QueuedOp::Uninstall { name, .. } => "remove "@ + name@ + tag,
        QueuedOp::Migrate { names, .. } => if names.len() == 1 {
            "migrate "@ + names[0]@ + tag
        } else {
            "migrate "@ + decimal(names.len() as nat) + " packages"@ + tag
        },
    }
}

impl QueuedOp {
    pub fn scope(&self) -> (t: Target)
        ensures
            t == op_scope(*self),
    {
        match self {
            QueuedOp::Install { scope, .. } => *scope,
            QueuedOp::Uninstall { scope, .. } => *scope,
            QueuedOp::Migrate { scope, .. } => *scope,
        }
    }

    pub fn label(&self) -> (s: String)
        ensures
            s@ == op_label(*self),
    {
        let tag = self.scope().tag();
        let mut s = String::new();
        match self {
            QueuedOp::Install { hit, .. } => {
                push_str(&mut s, "install ");
                push_str(&mut s, hit.attr.as_str());
            },
            QueuedOp::Uninstall { name, .. } => {
                push_str(&mut s, "remove ");
                push_str(&mut s, name.as_str());
            },
            QueuedOp::Migrate { names, .. } => {
                push_str(&mut s, "migrate ");
                if names.len() == 1 {
                    push_str(&mut s, names[0].as_str());
                } else {
                    let n = decimal_string(names.len() as u64);
                    push_str(&mut s, n.as_str());
                    push_str(&mut s, " packages");
                }
            },
        }
        push_str(&mut s, " [");
        push_str(&mut s, tag);
        push_str(&mut s, "]");
        s
    }
}

// ---------------------------------------------------------------------------
// Text helpers
// ---------------------------------------------------------------------------

/// What `str::to_lowercase` returns for `s`: the Unicode lower-case mapping
/// of each character.
pub uninterp spec fn lowercase(s: Seq<char>) -> Seq<char>;

/// `str::to_lowercase`.
#[verifier::external_body]
fn to_lowercase(s: &str) -> (r: String)
    ensures
        r@ == lowercase(s@),
{
    s.to_lowercase()
}

/// `needle` occurs somewhere in `hay`.
pub open spec fn has_substring(hay: Seq<char>, needle: Seq<char>) -> bool {
    first_occurrence(hay, needle, 0) is Some
}

/// Whether `needle` occurs in `hay`.
pub fn text_contains(hay: &str, needle: &str) -> (b: bool)
    ensures
        b == has_substring(hay@, needle@),
{
    let h = chars_of(hay);
    let n = chars_of(needle);
    find_from(&h, &n, 0).is_some()
}


// ---------------------------------------------------------------------------
// The interface's state
// ---------------------------------------------------------------------------

/// Everything the interface knows and shows.
pub struct App {
    pub config: Config,
    /// The directory of the generated nix files.
    pub config_dir: String,
    /// Whether the config directory holds a `configuration.nix`.
    pub local_config_exists: bool,
    /// Packages tracked in `nixbox-home-packages.nix`.
    pub home_manifest: Manifest,
    /// Packages tracked in `nixbox-system-packages.nix`.
    pub nixos_manifest: Manifest,
    /// Packages declared directly in the user's main config files.
    pub external_packages: Vec<ExternalPackage>,
    pub input: TextInput,
    pub results: Vec<SearchHit>,
    pub selected: usize,
    pub installed_input: TextInput,
    pub installed_input_mode: SearchInputMode,
    pub installed_selected: usize,
    pub status: String,
    pub mode: Mode,
    pub tab: Tab,
    pub log: Vec<String>,
    pub search_epoch: u64,
    pub latest_query: String,
    pub should_quit: bool,
    /// The names of the available themes.
    pub theme_names: Vec<String>,
    pub theme_index: usize,
    pub theme_cursor: usize,
    pub search_input_mode: SearchInputMode,
    pub searching: bool,
    pub build_in_progress: bool,
    pub spinner_frame: usize,
    pub queue: Vec<QueuedOp>,
    pub current_op_label: Option<String>,
    pub channel_cursor: usize,
}

/// How many packages the interface holds in all.
pub open spec fn package_count(a: App) -> nat {
    a.home_manifest.packages@.len() + a.nixos_manifest.packages@.len()
        + a.external_packages@.len()
}

/// The state is consistent: manifests sorted, inputs well-formed, a theme
/// and a channel selected among those that exist, a selected result when
/// there are results, the build log within its cap, and the counts of
/// packages and results within the signed 32-bit range the cursor
/// arithmetic works in.
pub open spec fn app_wf(a: App) -> bool {
    &&& a.home_manifest.wf()
    &&& a.nixos_manifest.wf()
    &&& a.input.wf()
    &&& a.installed_input.wf()
    &&& a.theme_names@.len() > 0
    &&& a.theme_index < a.theme_names@.len()
    &&& a.theme_cursor < a.theme_names@.len()
    &&& a.channel_cursor < CHANNEL_COUNT
    &&& package_count(a) <= i32::MAX
    &&& a.results@.len() <= i32::MAX
    &&& (a.results@.len() == 0 || a.selected < a.results@.len())
    &&& a.installed_selected < i32::MAX
    &&& a.log@.len() <= MAX_LOG_LINES
}

/// How many lines of build output are kept.
pub const MAX_LOG_LINES: usize = 1000;

/// The status shown after start: how many packages are tracked, and how
/// many are declared outside the manifests when there are any.
pub open spec fn tracked_status(managed: nat, external: nat) -> Seq<char> {
    if external == 0 {
        decimal(managed) + " packages tracked."@
    } else {
        decimal(managed) + " managed  ·  "@ + decimal(external) + " external."@
    }
}

/// The first position of `x` in `names`.
pub open spec fn position_of<A>(names: Seq<A>, x: A, from: int) -> Option<int>
    decreases names.len() - from,
{
    if from < 0 || from >= names.len() {
        None
    } else if names[from] == x {
        Some(from)
    } else {
        position_of(names, x, from + 1)
    }
}

proof fn lemma_position_of_range<A>(names: Seq<A>, x: A, from: int)
    ensures
        position_of(names, x, from) matches Some(i) ==> from <= i < names.len() && names[i] == x,
    decreases names.len() - from,
{
    if 0 <= from < names.len() && names[from] != x {
        lemma_position_of_range(names, x, from + 1);
    }
}

/// The position of `x` among `names`, if there.
pub fn find_name(names: &Vec<String>, x: &str) -> (r: Option<usize>)
    ensures
        r == match position_of(texts(names@), x@, 0) {
            Some(i) => Some(i as usize),
            None => None::<usize>,
        },
        r matches Some(i) ==> i < names.len(),
{
    proof {
        lemma_position_of_range(texts(names@), x@, 0);
    }
    let mut i: usize = 0;
    while i < names.len()
        invariant
            i <= names.len(),
            position_of(texts(names@), x@, 0) == position_of(texts(names@), x@, i as int),
        decreases names.len() - i,
    {
        assert(texts(names@)[i as int] == names@[i as int]@);
        if text_eq(names[i].as_str(), x) {
            return Some(i);
        }
        i = i + 1;
    }
    None
}

impl App {
    /// The state at start: the search tab in normal mode, nothing selected,
    /// the configured theme chosen when it exists (else the first), and a
    /// status that counts the packages.
    pub fn new(
        config: Config,
        config_dir: String,
        local_config_exists: bool,
        home_manifest: Manifest,
        nixos_manifest: Manifest,
        external_packages: Vec<ExternalPackage>,
        theme_names: Vec<String>,
    ) -> (a: App)
        requires
            home_manifest.wf(),
            nixos_manifest.wf(),
            theme_names@.len() > 0,
            home_manifest.packages@.len() + nixos_manifest.packages@.len()
                + external_packages@.len() <= i32::MAX,
        ensures
            app_wf(a),
            a.config == config,
            a.config_dir == config_dir,
            a.local_config_exists == local_config_exists,
            a.home_manifest == home_manifest,
            a.nixos_manifest == nixos_manifest,
            a.external_packages == external_packages,
            a.input.text() == Seq::<char>::empty(),
            a.results@.len() == 0,
            a.selected == 0,
            a.installed_input.text() == Seq::<char>::empty(),
            a.installed_input_mode == SearchInputMode::Normal,
            a.installed_selected == 0,
            a.status@ == tracked_status(
                (home_manifest.packages@.len() + nixos_manifest.packages@.len()) as nat,
                external_packages@.len() as nat,
            ),
            a.mode == Mode::Browsing,
            a.tab == Tab::Search,
            a.log@.len() == 0,
            a.search_epoch == 0,
            a.latest_query@ == Seq::<char>::empty(),
            !a.should_quit,
            a.theme_names == theme_names,
            a.theme_index == match position_of(texts(theme_names@), config.theme@, 0) {
                Some(i) => i as usize,
                None => 0usize,
            },
            a.theme_cursor == a.theme_index,
            a.search_input_mode == SearchInputMode::Normal,
            !a.searching,
            !a.build_in_progress,
            a.spinner_frame == 0,
            a.queue@.len() == 0,
            a.current_op_label is None,
            a.channel_cursor == 0,
    {
        let managed = home_manifest.packages.len() + nixos_manifest.packages.len();
        let external = external_packages.len();
        let theme_index = match find_name(&theme_names, config.theme.as_str()) {
            Some(i) => i,
            None => 0,
        };
        let mut status = decimal_string(managed as u64);
        if external == 0 {
            push_str(&mut status, " packages tracked.");
        } else {
            push_str(&mut status, " managed  ·  ");
            let e = decimal_string(external as u64);
            push_str(&mut status, e.as_str());
            push_str(&mut status, " external.");
        }
        App {
            config,
            config_dir,
            local_config_exists,
            home_manifest,
            nixos_manifest,
            external_packages,
            input: TextInput::empty(),
            results: Vec::new(),
            selected: 0,
            installed_input: TextInput::empty(),
            installed_input_mode: SearchInputMode::Normal,
            installed_selected: 0,
            status,
            mode: Mode::Browsing,
            tab: Tab::Search,
            log: Vec::new(),
            search_epoch: 0,
            latest_query: String::new(),
            should_quit: false,
            theme_names,
            theme_index,
            theme_cursor: theme_index,
            search_input_mode: SearchInputMode::Normal,
            searching: false,
            build_in_progress: false,
            spinner_frame: 0,
            queue: Vec::new(),
            current_op_label: None,
            channel_cursor: 0,
        }
    }
}


// ---------------------------------------------------------------------------
// What the interface shows
// ---------------------------------------------------------------------------

/// The tabs on show: Search and Installed always, Building while a build runs
/// or its log is kept, Queue while operations wait.
pub open spec fn visible_tabs_spec(a: App) -> Seq<Tab> {
    let base = seq![Tab::Search, Tab::Installed];
    let with_build = if a.build_in_progress || a.log@.len() > 0 {
        base.push(Tab::Building)
    } else {
        base
    };
    if a.queue@.len() > 0 {
        with_build.push(Tab::Queue)
    } else {
        with_build
    }
}

/// A managed package as a name and a target.
pub open spec fn entry_of(p: ManagedPackage) -> (Seq<char>, Target) {
    (p.name@, p.scope)
}

/// The managed packages: the home-manager ones, then the NixOS ones, each in
/// manifest order.
pub open spec fn managed_entries(a: App) -> Seq<(Seq<char>, Target)> {
    a.home_manifest.names().map_values(|n: Seq<char>| (n, Target::HomeManager))
        + a.nixos_manifest.names().map_values(|n: Seq<char>| (n, Target::NixosSystem))
}

/// The filter typed in the Installed tab, trimmed and lower-cased; none when
/// blank.
pub open spec fn installed_filter_spec(a: App) -> Option<Seq<char>> {
    let q = lowercase(trim(a.installed_input.text()));
    if q.len() == 0 {
        None
    } else {
        Some(q)
    }
}

/// A name passes the filter when there is none or its lower-cased form holds
/// the filter.
pub open spec fn passes(name: Seq<char>, f: Option<Seq<char>>) -> bool {
    match f {
        None => true,
        Some(q) => has_substring(lowercase(name), q),
    }
}

/// The managed packages that pass the filter.
pub open spec fn filtered_managed_spec(a: App) -> Seq<(Seq<char>, Target)> {
    managed_entries(a).filter(|e: (Seq<char>, Target)| passes(e.0, installed_filter_spec(a)))
}

/// The external packages that pass the filter.
pub open spec fn filtered_external_spec(a: App) -> Seq<ExternalPackage> {
    a.external_packages@.filter(|p: ExternalPackage| passes(p.name@, installed_filter_spec(a)))
}

/// How many rows the Installed tab lists.
pub open spec fn installed_total_spec(a: App) -> int {
    (filtered_managed_spec(a).len() + filtered_external_spec(a).len()) as int
}

/// The row under the cursor of the Installed tab, the cursor held within the
/// rows: `(true, i)` for the `i`th managed row, `(false, i)` for the `i`th
/// external one.
pub open spec fn installed_cursor_spec(a: App) -> Option<(bool, int)> {
    let m = filtered_managed_spec(a).len() as int;
    let total = installed_total_spec(a);
    if total == 0 {
        None
    } else {
        let idx = if a.installed_selected < total {
            a.installed_selected as int
        } else {
            total - 1
        };
        if idx < m {
            Some((true, idx))
        } else {
            Some((false, idx - m))
        }
    }
}

/// The external packages of both config files, each without those its
/// target's manifest already tracks; a file that could not be scanned adds
/// none.
pub open spec fn external_spec(
    home_found: Option<Vec<ExternalPackage>>,
    nixos_found: Option<Vec<ExternalPackage>>,
    home: Manifest,
    nixos: Manifest,
) -> Seq<ExternalPackage> {
    let h = match home_found {
        Some(v) => v@.filter(|p: ExternalPackage| !home.contents().contains(p.name@)),
        None => Seq::<ExternalPackage>::empty(),
    };
    let n = match nixos_found {
        Some(v) => v@.filter(|p: ExternalPackage| !nixos.contents().contains(p.name@)),
        None => Seq::<ExternalPackage>::empty(),
    };
    h + n
}

/// Appends the packages of `found` that `m` does not track.
fn keep_untracked(out: &mut Vec<ExternalPackage>, found: &Vec<ExternalPackage>, m: &Manifest)
    requires
        m.wf(),
    ensures
        final(out)@ == old(out)@ + found@.filter(
            |p: ExternalPackage| !m.contents().contains(p.name@),
        ),
{
    let ghost pred = |p: ExternalPackage| !m.contents().contains(p.name@);
    let ghost start = out@;
    let mut i: usize = 0;
    assert(found@.take(0).filter(pred) =~= Seq::<ExternalPackage>::empty()) by {
        reveal(Seq::filter);
    }
    assert(out@ =~= start + found@.take(0).filter(pred));
    while i < found.len()
        invariant
            m.wf(),
            i <= found.len(),
            pred == (|p: ExternalPackage| !m.contents().contains(p.name@)),
            out@ == start + found@.take(i as int).filter(pred),
        decreases found.len() - i,
    {
        let ghost sub = found@.take(i as int).filter(pred);
        assert(found@.take(i + 1).drop_last() =~= found@.take(i as int));
        assert(found@.take(i + 1).last() == found@[i as int]);
        assert(found@.take(i + 1).filter(pred) == if pred(found@[i as int]) {
            sub.push(found@[i as int])
        } else {
            sub
        }) by {
            reveal(Seq::filter);
        }
        let tracked_already = m.contains(found[i].name.as_str());
        if !tracked_already {
            let p = found[i].duplicate();
            out.push(p);
            assert(out@ =~= start + found@.take(i + 1).filter(pred));
        }
        i = i + 1;
    }
    assert(found@.take(found.len() as int) =~= found@);
}

/// The external packages found in both config files, scope by scope,
/// without those the matching manifest tracks. The same name can appear
/// twice when both files declare it.
pub fn read_external_packages(
    home_found: Option<Vec<ExternalPackage>>,
    nixos_found: Option<Vec<ExternalPackage>>,
    home_manifest: &Manifest,
    nixos_manifest: &Manifest,
) -> (out: Vec<ExternalPackage>)
    requires
        home_manifest.wf(),
        nixos_manifest.wf(),
    ensures
        out@ == external_spec(home_found, nixos_found, *home_manifest, *nixos_manifest),
{
    let mut out: Vec<ExternalPackage> = Vec::new();
    match &home_found {
        Some(found) => keep_untracked(&mut out, found, home_manifest),
        None => {},
    }
    let ghost after_home = out@;
    match &nixos_found {
        Some(found) => keep_untracked(&mut out, found, nixos_manifest),
        None => {},
    }
    assert(out@ =~= external_spec(home_found, nixos_found, *home_manifest, *nixos_manifest));
    out
}

impl App {
    pub fn visible_tabs(&self) -> (tabs: Vec<Tab>)
        ensures
            tabs@ == visible_tabs_spec(*self),
    {
        let mut tabs = vec![Tab::Search, Tab::Installed];
        if self.build_in_progress || self.log.len() > 0 {
            tabs.push(Tab::Building);
        }
        if self.queue.len() > 0 {
            tabs.push(Tab::Queue);
        }
        assert(tabs@ =~= visible_tabs_spec(*self));
        tabs
    }

    pub fn channel(&self) -> (c: &str)
        ensures
            c@ == self.config.channel@,
    {
        self.config.channel.as_str()
    }

    pub fn target_label(&self) -> (s: &'static str)
        ensures
            s@ == target_label(self.config.target),
    {
        self.config.target.label()
    }

    /// The theme on show: the one under the picker's cursor while picking,
    /// else the chosen one.
    pub fn theme_slot(&self) -> (i: usize)
        ensures
            i == if self.mode == Mode::ThemeSelect {
                self.theme_cursor
            } else {
                self.theme_index
            },
    {
        if self.mode == Mode::ThemeSelect {
            self.theme_cursor
        } else {
            self.theme_index
        }
    }

    /// All managed packages from both scopes: home-manager ones first.
    pub fn managed_packages(&self) -> (out: Vec<ManagedPackage>)
        ensures
            out@.map_values(|p: ManagedPackage| entry_of(p)) == managed_entries(*self),
    {
        let mut out: Vec<ManagedPackage> = Vec::new();
        let ghost hm = self.home_manifest.names().map_values(
            |n: Seq<char>| (n, Target::HomeManager),
        );
        let ghost nx = self.nixos_manifest.names().map_values(
            |n: Seq<char>| (n, Target::NixosSystem),
        );
        let mut i: usize = 0;
        while i < self.home_manifest.packages.len()
            invariant
                i <= self.home_manifest.packages.len(),
                hm == self.home_manifest.names().map_values(
                    |n: Seq<char>| (n, Target::HomeManager),
                ),
                out@.len() == i,
                out@.map_values(|p: ManagedPackage| entry_of(p)) == hm.take(i as int),
            decreases self.home_manifest.packages.len() - i,
        {
            let ghost before = out@;
            out.push(ManagedPackage { name: self.home_manifest.packages[i].clone(), scope: Target::HomeManager });
            assert(hm[i as int] == (self.home_manifest.packages@[i as int]@, Target::HomeManager));
            assert(out@.map_values(|p: ManagedPackage| entry_of(p)) =~= hm.take(i + 1));
            i = i + 1;
        }
        assert(hm.take(i as int) =~= hm);
        let mut j: usize = 0;
        while j < self.nixos_manifest.packages.len()
            invariant
                j <= self.nixos_manifest.packages.len(),
                hm == self.home_manifest.names().map_values(
                    |n: Seq<char>| (n, Target::HomeManager),
                ),
                nx == self.nixos_manifest.names().map_values(
                    |n: Seq<char>| (n, Target::NixosSystem),
                ),
                out@.len() == hm.len() + j,
                out@.map_values(|p: ManagedPackage| entry_of(p)) == hm + nx.take(j as int),
            decreases self.nixos_manifest.packages.len() - j,
        {
            let ghost before = out@.map_values(|p: ManagedPackage| entry_of(p));
            out.push(ManagedPackage { name: self.nixos_manifest.packages[j].clone(), scope: Target::NixosSystem });
            assert(nx[j as int] == (self.nixos_manifest.packages@[j as int]@, Target::NixosSystem));
            assert(out@.map_values(|p: ManagedPackage| entry_of(p)) =~= before.push(nx[j as int]));
            assert(hm + nx.take(j + 1) =~= (hm + nx.take(j as int)).push(nx[j as int]));
            j = j + 1;
        }
        assert(nx.take(j as int) =~= nx);
        out
    }

    /// The trimmed, lower-cased filter of the Installed tab, if not blank.
    pub fn installed_filter(&self) -> (f: Option<String>)
        ensures
            match f {
                Some(q) => installed_filter_spec(*self) == Some(q@),
                None => installed_filter_spec(*self) is None,
            },
    {
        let v = chars_of(self.installed_input.value());
        let (a, b) = trim_range(&v, 0, v.len());
        assert(v@.subrange(0, v.len() as int) =~= v@);
        let t = string_of_range(&v, a, b);
        let q = to_lowercase(t.as_str());
        if q.as_str().is_empty() {
            None
        } else {
            Some(q)
        }
    }
}

/// Whether `name` passes the filter `f`.
fn name_passes(name: &str, f: &Option<String>) -> (b: bool)
    ensures
        b == passes(
            name@,
            match f {
                Some(q) => Some(q@),
                None => None,
            },
        ),
{
    match f {
        None => true,
        Some(q) => {
            let lower = to_lowercase(name);
            text_contains(lower.as_str(), q.as_str())
        },
    }
}

impl App {
    /// The managed packages whose names pass the Installed tab's filter.
    pub fn filtered_managed_packages(&self) -> (out: Vec<ManagedPackage>)
        ensures
            out@.map_values(|p: ManagedPackage| entry_of(p)) == filtered_managed_spec(*self),
    {
        let f = self.installed_filter();
        let ghost fs = installed_filter_spec(*self);
        let ghost pred = |e: (Seq<char>, Target)| passes(e.0, fs);
        let all = self.managed_packages();
        let ghost entries = managed_entries(*self);
        let mut out: Vec<ManagedPackage> = Vec::new();
        let mut i: usize = 0;
        assert(all@.map_values(|p: ManagedPackage| entry_of(p)).len() == all@.len());
        assert(entries.take(0).filter(pred) =~= Seq::<(Seq<char>, Target)>::empty()) by {
            reveal(Seq::filter);
        }
        assert(out@.map_values(|p: ManagedPackage| entry_of(p)) =~= entries.take(0).filter(pred));
        while i < all.len()
            invariant
                i <= all.len(),
                all@.map_values(|p: ManagedPackage| entry_of(p)) == entries,
                entries.len() == all@.len(),
                fs == installed_filter_spec(*self),
                fs == match f {
                    Some(q) => Some(q@),
                    None => None,
                },
                pred == (|e: (Seq<char>, Target)| passes(e.0, fs)),
                out@.map_values(|p: ManagedPackage| entry_of(p)) == entries.take(i as int).filter(
                    pred,
                ),
            decreases all.len() - i,
        {
            let ghost sub = entries.take(i as int).filter(pred);
            assert(entries.take(i + 1).drop_last() =~= entries.take(i as int));
            assert(entries[i as int] == entry_of(all@[i as int]));
            assert(entries.take(i + 1).last() == entries[i as int]);
            assert(entries.take(i + 1).filter(pred) == if pred(entries[i as int]) {
                sub.push(entries[i as int])
            } else {
                sub
            }) by {
                reveal(Seq::filter);
            }
            if name_passes(all[i].name.as_str(), &f) {
                out.push(ManagedPackage { name: all[i].name.clone(), scope: all[i].scope });
                assert(out@.map_values(|p: ManagedPackage| entry_of(p)) =~= sub.push(
                    entries[i as int],
                ));
            }
            i = i + 1;
        }
        assert(entries.take(all.len() as int) =~= entries);
        out
    }

    /// The external packages whose names pass the Installed tab's filter.
    pub fn filtered_external_packages(&self) -> (out: Vec<ExternalPackage>)
        ensures
            out@ == filtered_external_spec(*self),
    {
        let f = self.installed_filter();
        let ghost fs = installed_filter_spec(*self);
        let ghost pred = |p: ExternalPackage| passes(p.name@, fs);
        let ghost all = self.external_packages@;
        let mut out: Vec<ExternalPackage> = Vec::new();
        let mut i: usize = 0;
        assert(all.take(0).filter(pred) =~= Seq::<ExternalPackage>::empty()) by {
            reveal(Seq::filter);
        }
        while i < self.external_packages.len()
            invariant
                i <= all.len(),
                all == self.external_packages@,
                fs == installed_filter_spec(*self),
                fs == match f {
                    Some(q) => Some(q@),
                    None => None,
                },
                pred == (|p: ExternalPackage| passes(p.name@, fs)),
                out@ == all.take(i as int).filter(pred),
            decreases all.len() - i,
        {
            let ghost sub = all.take(i as int).filter(pred);
            assert(all.take(i + 1).drop_last() =~= all.take(i as int));
            assert(all.take(i + 1).last() == all[i as int]);
            assert(all.take(i + 1).filter(pred) == if pred(all[i as int]) {
                sub.push(all[i as int])
            } else {
                sub
            }) by {
                reveal(Seq::filter);
            }
            if name_passes(self.external_packages[i].name.as_str(), &f) {
                out.push(self.external_packages[i].duplicate());
            }
            i = i + 1;
        }
        assert(all.take(all.len() as int) =~= all);
        out
    }
}


/// The clamped cursor of the Installed tab once `total` rows are listed.
pub open spec fn clamped_cursor(sel: usize, total: int) -> usize {
    if total == 0 {
        0
    } else if sel >= total {
        (total - 1) as usize
    } else {
        sel
    }
}

impl App {
    /// The manifest of a target.
    pub fn manifest_for(&self, scope: Target) -> (m: &Manifest)
        ensures
            *m == match scope {
                Target::HomeManager => self.home_manifest,
                Target::NixosSystem => self.nixos_manifest,
            },
    {
        match scope {
            Target::HomeManager => &self.home_manifest,
            Target::NixosSystem => &self.nixos_manifest,
        }
    }

    /// How many rows the Installed tab lists.
    pub fn installed_total(&self) -> (n: usize)
        requires
            package_count(*self) <= usize::MAX,
        ensures
            n == installed_total_spec(*self),
    {
        let m = self.filtered_managed_packages();
        let e = self.filtered_external_packages();
        proof {
            let f = installed_filter_spec(*self);
            managed_entries(*self).lemma_filter_len(
                |x: (Seq<char>, Target)| passes(x.0, f),
            );
            self.external_packages@.lemma_filter_len(
                |p: ExternalPackage| passes(p.name@, f),
            );
            assert(m@.map_values(|p: ManagedPackage| entry_of(p)).len() == m@.len());
        }
        m.len() + e.len()
    }

    /// Holds the Installed tab's cursor within its rows.
    fn clamp_installed_selection(&mut self)
        requires
            package_count(*old(self)) <= usize::MAX,
        ensures
            *final(self) == (App {
                installed_selected: clamped_cursor(
                    old(self).installed_selected,
                    installed_total_spec(*old(self)),
                ),
                ..*old(self)
            }),
    {
        let total = self.installed_total();
        if total == 0 {
            self.installed_selected = 0;
        } else if self.installed_selected >= total {
            self.installed_selected = total - 1;
        }
    }
}


/// The Installed tab never lists more rows than there are packages.
pub proof fn lemma_installed_total_bound(a: App)
    ensures
        0 <= filtered_managed_spec(a).len() <= a.home_manifest.packages@.len()
            + a.nixos_manifest.packages@.len(),
        0 <= filtered_external_spec(a).len() <= a.external_packages@.len(),
        installed_total_spec(a) <= package_count(a),
{
    let f = installed_filter_spec(a);
    managed_entries(a).lemma_filter_len(|x: (Seq<char>, Target)| passes(x.0, f));
    a.external_packages@.lemma_filter_len(|p: ExternalPackage| passes(p.name@, f));
}

impl App {
    /// The row under the Installed tab's cursor, the cursor held within the
    /// rows; none when no row is listed.
    pub fn installed_cursor(&self) -> (c: Option<InstalledCursor>)
        requires
            package_count(*self) <= usize::MAX,
        ensures
            match installed_cursor_spec(*self) {
                None => c is None,
                Some((true, i)) => c matches Some(InstalledCursor::Managed(p))
                    && entry_of(p) == filtered_managed_spec(*self)[i],
                Some((false, i)) => c matches Some(InstalledCursor::External(e))
                    && e == filtered_external_spec(*self)[i],
            },
    {
        let managed = self.filtered_managed_packages();
        let external = self.filtered_external_packages();
        proof {
            lemma_installed_total_bound(*self);
            assert(managed@.map_values(|p: ManagedPackage| entry_of(p)).len() == managed@.len());
        }
        let total = managed.len() + external.len();
        if total == 0 {
            return None;
        }
        let idx = if self.installed_selected < total {
            self.installed_selected
        } else {
            total - 1
        };
        if idx < managed.len() {
            let p = &managed[idx];
            assert(managed@.map_values(|p: ManagedPackage| entry_of(p))[idx as int] == entry_of(
                managed@[idx as int],
            ));
            Some(InstalledCursor::Managed(ManagedPackage { name: p.name.clone(), scope: p.scope }))
        } else {
            Some(InstalledCursor::External(external[idx - managed.len()].duplicate()))
        }
    }

    /// Replaces the external packages with a fresh scan's and holds the
    /// Installed tab's cursor within the rows.
    pub fn set_external_packages(&mut self, found: Vec<ExternalPackage>)
        requires
            app_wf(*old(self)),
            old(self).home_manifest.packages@.len() + old(self).nixos_manifest.packages@.len()
                + found@.len() <= i32::MAX,
        ensures
            app_wf(*final(self)),
            *final(self) == (App {
                external_packages: found,
                installed_selected: clamped_cursor(
                    old(self).installed_selected,
                    installed_total_spec(App { external_packages: found, ..*old(self) }),
                ),
                ..*old(self)
            }),
    {
        self.external_packages = found;
        self.clamp_installed_selection();
        proof {
            lemma_installed_total_bound(*final(self));
        }
    }
}


// ---------------------------------------------------------------------------
// Navigation
// ---------------------------------------------------------------------------

/// What the interface asks of the world around it after a key or an event.
pub enum Command {
    /// Nothing.
    Idle,
    /// Store the settings.
    SaveConfig,
    /// Search `channel` for `query` and report back under `epoch`.
    Search { epoch: u64, channel: String, query: String },
    /// Take the queued operations in turn until one starts a rebuild.
    RunQueue,
}

/// `x` modulo `n`, the remainder taken in `0..n` as `i32::rem_euclid` does.
fn wrap_index(x: i32, n: i32) -> (r: i32)
    requires
        n > 0,
    ensures
        r == x % n,
        0 <= r < n,
{
    match x.checked_rem_euclid(n) {
        Some(r) => r,
        None => 0,
    }
}

/// The position of `t` among the visible tabs, the first when absent.
pub open spec fn tab_position(tabs: Seq<Tab>, t: Tab) -> int {
    match position_of(tabs, t, 0) {
        Some(i) => i,
        None => 0,
    }
}

/// The tab after the current one among those on show, wrapping around.
pub open spec fn next_tab(a: App) -> Tab {
    let tabs = visible_tabs_spec(a);
    tabs[(tab_position(tabs, a.tab) + 1) % tabs.len() as int]
}

/// The tab before the current one among those on show, wrapping around.
pub open spec fn prev_tab(a: App) -> Tab {
    let tabs = visible_tabs_spec(a);
    tabs[(tab_position(tabs, a.tab) + tabs.len() - 1) % tabs.len() as int]
}

/// The state once tab `t` is chosen, with `status` as the new status: the
/// search bars of the Search and Installed tabs go back to normal mode when
/// their tab is chosen.
pub open spec fn with_tab(a: App, t: Tab, status: String) -> App {
    App {
        tab: t,
        search_input_mode: if t == Tab::Search {
            SearchInputMode::Normal
        } else {
            a.search_input_mode
        },
        installed_input_mode: if t == Tab::Installed {
            SearchInputMode::Normal
        } else {
            a.installed_input_mode
        },
        status,
        ..a
    }
}

/// The status once tab `t` is chosen.
pub open spec fn tab_status(t: Tab) -> Seq<char> {
    tab_title(t) + " tab"@
}

/// The status once the install target is switched to `t`.
pub open spec fn target_status(t: Target) -> Seq<char> {
    "Install target switched to "@ + target_label(t) + " (existing entries unchanged)."@
}

/// The status while a theme is being picked.
pub open spec fn theme_picker_status() -> Seq<char> {
    "↑/↓ preview  ·  Enter confirm  ·  Esc cancel"@
}

/// The status while a channel is being picked.
pub open spec fn channel_picker_status() -> Seq<char> {
    "j/k navigate  ↵ confirm  esc cancel"@
}

proof fn lemma_visible_tabs_distinct(a: App)
    ensures
        visible_tabs_spec(a).len() >= 2,
        forall|i: int|
            0 <= i < visible_tabs_spec(a).len() ==> position_of(
                visible_tabs_spec(a),
                visible_tabs_spec(a)[i],
                0,
            ) == Some(i),
{
    let tabs = visible_tabs_spec(a);
    assert forall|i: int| 0 <= i < tabs.len() implies position_of(tabs, tabs[i], 0) == Some(i) by {
        reveal_with_fuel(position_of, 5);
    }
}

// What the operations do, stated once for the operations themselves and
// for the key dispatch.

/// The search cursor moved by `delta` over the results, wrapping around;
/// nothing moves when there are no results.
pub open spec fn selection_moved(old: App, new: App, delta: i32) -> bool {
    new == if old.results@.len() == 0 {
        old
    } else {
        App { selected: ((old.selected + delta) % (old.results@.len() as int)) as usize, ..old }
    }
}

/// The Installed tab's cursor moved by `delta` over its rows, wrapping
/// around; nothing moves when no row is listed.
pub open spec fn installed_selection_moved(old: App, new: App, delta: i32) -> bool {
    new == if installed_total_spec(old) == 0 {
        old
    } else {
        App {
            installed_selected: ((old.installed_selected + delta) % installed_total_spec(old)) as usize,
            ..old
        }
    }
}

/// Tab `t` is chosen and the status names it.
pub open spec fn tab_chosen(old: App, new: App, t: Tab) -> bool {
    &&& new == with_tab(old, t, new.status)
    &&& new.status@ == tab_status(t)
}

/// The install target switched to the other one, as the status says.
pub open spec fn target_toggled(old: App, new: App) -> bool {
    &&& new == (App {
        config: Config { target: other_target(old.config.target), ..old.config },
        status: new.status,
        ..old
    })
    &&& new.status@ == target_status(other_target(old.config.target))
}

/// The theme picker opened on the chosen theme.
pub open spec fn theme_picker_opened(old: App, new: App) -> bool {
    &&& new == (App {
        theme_cursor: old.theme_index,
        mode: Mode::ThemeSelect,
        status: new.status,
        ..old
    })
    &&& new.status@ == theme_picker_status()
}

/// The channel picker opened on the current channel, or on the first
/// when the current one is not offered.
pub open spec fn channel_picker_opened(old: App, new: App) -> bool {
    &&& new == (App {
        channel_cursor: match position_of(channels(), old.config.channel@, 0) {
            Some(i) => i as usize,
            None => 0usize,
        },
        mode: Mode::ChannelEdit,
        status: new.status,
        ..old
    })
    &&& new.status@ == channel_picker_status()
}

/// What a key does in the channel picker: `j`/`k` and the arrows move,
/// Enter takes the channel under the cursor (the settings are to be
/// stored), Esc leaves the channel as it was.
pub open spec fn channel_key_done(old: App, new: App, code: KeyCode, c: Command) -> bool {
    &&& (code == KeyCode::Enter ==> {
                &&& c is SaveConfig
                &&& new.config.channel@ == channels()[old.channel_cursor as int]
                &&& new.status@ == "Channel set to "@ + channels()[old.channel_cursor as int] + "."@
                &&& new == (App {
                    config: Config { channel: new.config.channel, ..old.config },
                    status: new.status,
                    mode: Mode::Browsing,
                    ..old
                })
            })
    &&& (code == KeyCode::Esc ==> {
                &&& c is Idle
                &&& new.status@ == "Channel unchanged: "@ + old.config.channel@ + "."@
                &&& new == (App {
                    status: new.status,
                    mode: Mode::Browsing,
                    ..old
                })
            })
    &&& (code != KeyCode::Enter && code != KeyCode::Esc ==> {
                &&& c is Idle
                &&& new == (App {
                    channel_cursor: channel_cursor_after(old.channel_cursor, code),
                    ..old
                })
            })
}

/// What a key does in the theme picker: `j`/`k` and the arrows move the
/// previewed theme, Enter takes it (the settings are to be stored), Esc or
/// Ctrl-n close the picker on the theme chosen before.
pub open spec fn theme_key_done(old: App, new: App, code: KeyCode, ctrl: bool, c: Command) -> bool {
    &&& (code == KeyCode::Enter ==> {
                &&& c is SaveConfig
                &&& new.config.theme@ == old.theme_names@[old.theme_cursor as int]@
                &&& new.status@ == "Theme set to "@
                    + old.theme_names@[old.theme_cursor as int]@ + "."@
                &&& new == (App {
                    theme_index: old.theme_cursor,
                    config: Config { theme: new.config.theme, ..old.config },
                    status: new.status,
                    mode: Mode::Browsing,
                    ..old
                })
            })
    &&& ((code == KeyCode::Esc || (code == KeyCode::Char('n') && ctrl)) ==> {
                &&& c is Idle
                &&& new.status@ == "Theme: "@
                    + old.theme_names@[old.theme_index as int]@ + "."@
                &&& new == (App {
                    status: new.status,
                    mode: Mode::Browsing,
                    ..old
                })
            })
    &&& (code != KeyCode::Enter && code != KeyCode::Esc && !(code == KeyCode::Char('n') && ctrl)
                ==> {
                &&& c is Idle
                &&& new == (App {
                    theme_cursor: theme_cursor_after(
                        old.theme_cursor,
                        old.theme_names@.len(),
                        code,
                    ),
                    ..old
                })
            })
}

/// A search for what the search bar holds started under the next epoch,
/// unless the bar is empty.
pub open spec fn search_scheduled(old: App, new: App, c: Command) -> bool {
    &&& (old.input.text().len() == 0 ==> c is Idle && new == old)
    &&& (old.input.text().len() > 0 ==> {
                &&& new == (App {
                    searching: true,
                    search_epoch: (old.search_epoch + 1) as u64,
                    latest_query: new.latest_query,
                    ..old
                })
                &&& new.latest_query@ == old.input.text()
                &&& c matches Command::Search { epoch, channel, query } && epoch
                    == new.search_epoch && channel@ == old.config.channel@
                    && query@ == old.input.text()
            })
}

/// The selected search result was queued for install into the current
/// target, or the status says why not.
pub open spec fn install_done(old: App, new: App, c: Command) -> bool {
    &&& (old.results@.len() == 0 ==> c is Idle && status_set(
                old,
                new,
                no_selection(),
            ))
    &&& (old.results@.len() > 0 ==> {
                let hit = old.results@[old.selected as int];
                let scope = old.config.target;
                if manifest_of(old, scope).contents().contains(hit.attr@)
                    || queued_install(old.queue@, hit.attr@) {
                    c is Idle && status_set(
                        old,
                        new,
                        hit.attr@ + " already tracked or queued."@,
                    )
                } else {
                    enqueued(
                        old,
                        new,
                        seq![QueuedOp::Install { hit, scope }],
                        "Queued install: "@ + hit.attr@ + "."@,
                        c,
                    )
                }
            })
}

/// The managed package under the Installed tab's cursor was queued for
/// removal, or the status says why not.
pub open spec fn uninstall_done(old: App, new: App, c: Command) -> bool {
    &&& (match installed_cursor_spec(old) {
                None => c is Idle && status_set(old, new, no_selection()),
                Some((false, i)) => c is Idle && status_set(
                    old,
                    new,
                    filtered_external_spec(old)[i].name@
                        + " is not managed by nixbox — press m to migrate."@,
                ),
                Some((true, i)) => {
                    let (name, scope) = filtered_managed_spec(old)[i];
                    if queued_uninstall(old.queue@, name, scope) {
                        c is Idle && status_set(
                            old,
                            new,
                            name + " already queued for removal."@,
                        )
                    } else {
                        &&& new.queue@.len() == old.queue@.len() + 1
                        &&& new.queue@.last() matches QueuedOp::Uninstall {
                            name: n,
                            scope: s,
                        } && n@ == name && s == scope
                        &&& enqueued(
                            old,
                            new,
                            seq![new.queue@.last()],
                            "Queued remove: "@ + name + "."@,
                            c,
                        )
                    }
                },
            })
}

/// The external package under the Installed tab's cursor was queued to
/// move into its target's manifest, or the status says why not.
pub open spec fn migrate_selected_done(old: App, new: App, c: Command) -> bool {
    &&& (match installed_cursor_spec(old) {
                None => c is Idle && status_set(old, new, no_selection()),
                Some((true, i)) => c is Idle && status_set(
                    old,
                    new,
                    filtered_managed_spec(old)[i].0
                        + " is already managed — press d to uninstall."@,
                ),
                Some((false, i)) => {
                    let ep = filtered_external_spec(old)[i];
                    if !ep.migratable {
                        c is Idle && status_set(
                            old,
                            new,
                            ep.name@ + " is on a same-line list in "@ + ep.source_attr@
                                + "; remove it manually."@,
                        )
                    } else if queued_migration(old.queue@, ep.name@) {
                        c is Idle && status_set(
                            old,
                            new,
                            ep.name@ + " already queued for migration."@,
                        )
                    } else {
                        &&& new.queue@.len() == old.queue@.len() + 1
                        &&& new.queue@.last() matches QueuedOp::Migrate { names, scope }
                            && texts(names@) == seq![ep.name@] && scope == ep.scope
                        &&& enqueued(
                            old,
                            new,
                            seq![new.queue@.last()],
                            "Queued migrate: "@ + ep.name@ + "."@,
                            c,
                        )
                    }
                },
            })
}

/// Every external package that can be moved was queued to move, one move
/// per target, or the status says there is none.
pub open spec fn migrate_all_done(old: App, new: App, c: Command) -> bool {
    &&& (({
                let hm = migratable_names(old.external_packages@, Target::HomeManager);
                let nx = migratable_names(old.external_packages@, Target::NixosSystem);
                if hm.len() + nx.len() == 0 {
                    c is Idle && status_set(
                        old,
                        new,
                        "No migratable external packages found."@,
                    )
                } else {
                    let added = new.queue@.skip(old.queue@.len() as int);
                    &&& new.queue@.len() >= old.queue@.len()
                    &&& are_planned_migrations(added, old.external_packages@)
                    &&& enqueued(
                        old,
                        new,
                        added,
                        "Queued migrate "@ + decimal((hm.len() + nx.len()) as nat)
                            + " packages."@,
                        c,
                    )
                }
            }))
}

impl App {
    /// Moves the cursor over the search results by `delta`, wrapping around;
    /// nothing moves when there are no results.
    pub fn move_selection(&mut self, delta: i32)
        requires
            app_wf(*old(self)),
            old(self).results@.len() == 0 || i32::MIN <= old(self).selected + delta <= i32::MAX,
        ensures
            app_wf(*final(self)),
            selection_moved(*old(self), *final(self), delta),
    {
        if self.results.len() == 0 {
            return;
        }
        let len = self.results.len() as i32;
        let next = wrap_index(self.selected as i32 + delta, len);
        self.selected = next as usize;
    }

    /// Moves the cursor over the Installed tab's rows by `delta`, wrapping
    /// around; nothing moves when no row is listed.
    pub fn move_installed_selection(&mut self, delta: i32)
        requires
            app_wf(*old(self)),
            i32::MIN <= old(self).installed_selected + delta <= i32::MAX,
        ensures
            app_wf(*final(self)),
            installed_selection_moved(*old(self), *final(self), delta),
    {
        proof {
            lemma_installed_total_bound(*self);
        }
        let len = self.installed_total();
        if len == 0 {
            return;
        }
        let next = wrap_index(self.installed_selected as i32 + delta, len as i32);
        self.installed_selected = next as usize;
    }

    /// Chooses tab `t`.
    pub fn set_tab(&mut self, t: Tab)
        requires
            app_wf(*old(self)),
        ensures
            app_wf(*final(self)),
            tab_chosen(*old(self), *final(self), t),
    {
        self.tab = t;
        match t {
            Tab::Search => self.search_input_mode = SearchInputMode::Normal,
            Tab::Installed => self.installed_input_mode = SearchInputMode::Normal,
            _ => {},
        }
        let mut status = String::from_str(t.label());
        push_str(&mut status, " tab");
        self.status = status;
    }

    /// The position of the current tab among those on show, the first when
    /// it is not on show.
    fn tab_index(&self, tabs: &Vec<Tab>) -> (i: usize)
        requires
            tabs@ == visible_tabs_spec(*self),
        ensures
            i == tab_position(tabs@, self.tab),
            i < tabs@.len(),
    {
        proof {
            lemma_position_of_range(tabs@, self.tab, 0);
            lemma_visible_tabs_distinct(*self);
        }
        let mut i: usize = 0;
        while i < tabs.len()
            invariant
                i <= tabs@.len(),
                position_of(tabs@, self.tab, 0) == position_of(tabs@, self.tab, i as int),
            decreases tabs@.len() - i,
        {
            if tabs[i] == self.tab {
                return i;
            }
            i = i + 1;
        }
        0
    }

    /// Moves to the next tab on show.
    pub fn cycle_tab(&mut self)
        requires
            app_wf(*old(self)),
        ensures
            app_wf(*final(self)),
            tab_chosen(*old(self), *final(self), next_tab(*old(self))),
    {
        let tabs = self.visible_tabs();
        let cur = self.tab_index(&tabs);
        let next = tabs[(cur + 1) % tabs.len()];
        self.set_tab(next);
    }

    /// Moves to the previous tab on show.
    pub fn cycle_tab_back(&mut self)
        requires
            app_wf(*old(self)),
        ensures
            app_wf(*final(self)),
            tab_chosen(*old(self), *final(self), prev_tab(*old(self))),
    {
        let tabs = self.visible_tabs();
        let cur = self.tab_index(&tabs);
        let prev = tabs[(cur + tabs.len() - 1) % tabs.len()];
        self.set_tab(prev);
    }

    /// Switches the target new packages go to; the settings are to be
    /// stored.
    pub fn toggle_target(&mut self) -> (c: Command)
        requires
            app_wf(*old(self)),
        ensures
            app_wf(*final(self)),
            c is SaveConfig,
            target_toggled(*old(self), *final(self)),
    {
        self.config.target = self.config.target.toggled();
        let mut status = String::from_str("Install target switched to ");
        push_str(&mut status, self.config.target.label());
        push_str(&mut status, " (existing entries unchanged).");
        self.status = status;
        Command::SaveConfig
    }

    /// Opens the theme picker on the current theme.
    pub fn cycle_theme(&mut self)
        requires
            app_wf(*old(self)),
        ensures
            app_wf(*final(self)),
            theme_picker_opened(*old(self), *final(self)),
    {
        self.theme_cursor = self.theme_index;
        self.mode = Mode::ThemeSelect;
        self.status = String::from_str("↑/↓ preview  ·  Enter confirm  ·  Esc cancel");
    }

    /// Opens the channel picker on the current channel, or on the first
    /// when the current one is not offered.
    pub fn open_channel_edit(&mut self)
        requires
            app_wf(*old(self)),
        ensures
            app_wf(*final(self)),
            channel_picker_opened(*old(self), *final(self)),
    {
        proof {
            lemma_position_of_range(channels(), self.config.channel@, 0);
            reveal_with_fuel(position_of, 3);
        }
        let c = self.config.channel.as_str();
        let cursor = if text_eq(c, channel_at(0)) {
            0
        } else if text_eq(c, channel_at(1)) {
            1
        } else {
            0
        };
        self.channel_cursor = cursor;
        self.mode = Mode::ChannelEdit;
        self.status = String::from_str("j/k navigate  ↵ confirm  esc cancel");
    }
}


// ---------------------------------------------------------------------------
// Keys
// ---------------------------------------------------------------------------

/// The key of a key press, as far as the interface tells keys apart.
#[derive(PartialEq, Eq, Structural, Clone, Copy, Debug)]
pub enum KeyCode {
    Char(char),
    Up,
    Down,
    Enter,
    Esc,
    Tab,
    BackTab,
    Delete,
    Other,
}

/// The channel picker's cursor after a key.
pub open spec fn channel_cursor_after(cursor: usize, code: KeyCode) -> usize {
    if code == KeyCode::Down || code == KeyCode::Char('j') {
        ((cursor + 1) % (CHANNEL_COUNT as int)) as usize
    } else if code == KeyCode::Up || code == KeyCode::Char('k') {
        if cursor == 0 {
            (CHANNEL_COUNT - 1) as usize
        } else {
            (cursor - 1) as usize
        }
    } else {
        cursor
    }
}

/// The theme picker's cursor after a key, over `n` themes.
pub open spec fn theme_cursor_after(cursor: usize, n: nat, code: KeyCode) -> usize {
    if code == KeyCode::Up || code == KeyCode::Char('k') {
        if cursor == 0 {
            (n - 1) as usize
        } else {
            (cursor - 1) as usize
        }
    } else if code == KeyCode::Down || code == KeyCode::Char('j') {
        ((cursor + 1) % (n as int)) as usize
    } else {
        cursor
    }
}

impl App {
    /// A key while the channel picker is open: `j`/`k` and the arrows move,
    /// Enter takes the channel under the cursor (the settings are to be
    /// stored), Esc leaves the channel as it was.
    pub fn handle_channel_edit(&mut self, code: KeyCode) -> (c: Command)
        requires
            app_wf(*old(self)),
        ensures
            app_wf(*final(self)),
            channel_key_done(*old(self), *final(self), code, c),

    {
        if code == KeyCode::Down || code == KeyCode::Char('j') {
            self.channel_cursor = (self.channel_cursor + 1) % CHANNEL_COUNT;
            Command::Idle
        } else if code == KeyCode::Up || code == KeyCode::Char('k') {
            self.channel_cursor = if self.channel_cursor == 0 {
                CHANNEL_COUNT - 1
            } else {
                self.channel_cursor - 1
            };
            Command::Idle
        } else if code == KeyCode::Enter {
            let chosen = channel_at(self.channel_cursor);
            self.config.channel = String::from_str(chosen);
            let mut status = String::from_str("Channel set to ");
            push_str(&mut status, chosen);
            push_str(&mut status, ".");
            self.status = status;
            self.mode = Mode::Browsing;
            Command::SaveConfig
        } else if code == KeyCode::Esc {
            self.mode = Mode::Browsing;
            let mut status = String::from_str("Channel unchanged: ");
            push_str(&mut status, self.config.channel.as_str());
            push_str(&mut status, ".");
            self.status = status;
            Command::Idle
        } else {
            Command::Idle
        }
    }

    /// A key while the theme picker is open: `j`/`k` and the arrows move
    /// the previewed theme, Enter takes it (the settings are to be stored),
    /// Esc or Ctrl-n close the picker on the theme chosen before.
    pub fn handle_theme_select(&mut self, code: KeyCode, ctrl: bool) -> (c: Command)
        requires
            app_wf(*old(self)),
        ensures
            app_wf(*final(self)),
            theme_key_done(*old(self), *final(self), code, ctrl, c),

    {
        let n = self.theme_names.len();
        if code == KeyCode::Up || code == KeyCode::Char('k') {
            self.theme_cursor = if self.theme_cursor == 0 {
                n - 1
            } else {
                self.theme_cursor - 1
            };
            Command::Idle
        } else if code == KeyCode::Down || code == KeyCode::Char('j') {
            self.theme_cursor = (self.theme_cursor + 1) % n;
            Command::Idle
        } else if code == KeyCode::Enter {
            self.theme_index = self.theme_cursor;
            let name = self.theme_names[self.theme_index].clone();
            let mut status = String::from_str("Theme set to ");
            push_str(&mut status, name.as_str());
            push_str(&mut status, ".");
            self.config.theme = name;
            self.status = status;
            self.mode = Mode::Browsing;
            Command::SaveConfig
        } else if code == KeyCode::Esc || (code == KeyCode::Char('n') && ctrl) {
            self.mode = Mode::Browsing;
            let mut status = String::from_str("Theme: ");
            push_str(&mut status, self.theme_names[self.theme_index].as_str());
            push_str(&mut status, ".");
            self.status = status;
            Command::Idle
        } else {
            Command::Idle
        }
    }
}


// ---------------------------------------------------------------------------
// Events from searches and rebuilds
// ---------------------------------------------------------------------------

/// The build log after one more line: the oldest lines go once there are
/// more than `MAX_LOG_LINES`.
pub open spec fn log_with(log: Seq<String>, line: String) -> Seq<String> {
    let l = log.push(line);
    if l.len() > MAX_LOG_LINES {
        l.skip(l.len() - MAX_LOG_LINES)
    } else {
        l
    }
}

/// The status once a search gives `count` results for `query`.
pub open spec fn matches_status(count: nat, query: Seq<char>) -> Seq<char> {
    decimal(count) + " matches for `"@ + query + "`"@
}

/// The status once a rebuild labelled `label` ends with `result`.
pub open spec fn finished_status(label: Seq<char>, result: Result<(), String>) -> Seq<char> {
    match result {
        Ok(_) => label + " done."@,
        Err(e) => label + " failed: "@ + e@ + "."@,
    }
}

/// The label of the rebuild that ran: that of its operation, else "build".
pub open spec fn running_label(current: Option<String>) -> Seq<char> {
    match current {
        Some(l) => l@,
        None => "build"@,
    }
}

impl App {
    /// A search reported results; only the latest search counts.
    pub fn on_search_done(&mut self, epoch: u64, hits: Vec<SearchHit>)
        requires
            app_wf(*old(self)),
            hits@.len() <= i32::MAX,
        ensures
            app_wf(*final(self)),
            epoch != old(self).search_epoch ==> *final(self) == *old(self),
            epoch == old(self).search_epoch ==> {
                &&& *final(self) == (App {
                    searching: false,
                    results: hits,
                    selected: 0,
                    status: final(self).status,
                    ..*old(self)
                })
                &&& final(self).status@ == matches_status(
                    hits@.len() as nat,
                    old(self).latest_query@,
                )
            },
    {
        if epoch == self.search_epoch {
            self.searching = false;
            let count = hits.len();
            self.results = hits;
            self.selected = 0;
            let mut status = decimal_string(count as u64);
            push_str(&mut status, " matches for `");
            push_str(&mut status, self.latest_query.as_str());
            push_str(&mut status, "`");
            self.status = status;
        }
    }

    /// A search failed; only the latest search counts.
    pub fn on_search_failed(&mut self, epoch: u64, error: String)
        requires
            app_wf(*old(self)),
        ensures
            app_wf(*final(self)),
            epoch != old(self).search_epoch ==> *final(self) == *old(self),
            epoch == old(self).search_epoch ==> {
                &&& *final(self) == (App {
                    searching: false,
                    results: final(self).results,
                    status: final(self).status,
                    ..*old(self)
                })
                &&& final(self).results@.len() == 0
                &&& final(self).status@ == "search failed: "@ + error@
            },
    {
        if epoch == self.search_epoch {
            self.searching = false;
            self.results.clear();
            let mut status = String::from_str("search failed: ");
            push_str(&mut status, error.as_str());
            self.status = status;
        }
    }

    /// One more line of build output.
    pub fn on_build_line(&mut self, line: String)
        requires
            app_wf(*old(self)),
        ensures
            app_wf(*final(self)),
            *final(self) == (App { log: final(self).log, ..*old(self) }),
            final(self).log@ == log_with(old(self).log@, line),
    {
        let ghost l = self.log@.push(line);
        self.log.push(line);
        if self.log.len() > MAX_LOG_LINES {
            self.log.remove(0);
            assert(self.log@ =~= l.skip(1));
        } else {
            assert(self.log@ =~= l);
        }
    }

    /// The rebuild ended: the status says how, and `true` asks for the
    /// external packages to be scanned again, which follows a success.
    pub fn on_build_finished(&mut self, result: Result<(), String>) -> (refresh: bool)
        requires
            app_wf(*old(self)),
        ensures
            app_wf(*final(self)),
            refresh == result is Ok,
            *final(self) == (App {
                current_op_label: None,
                build_in_progress: false,
                status: final(self).status,
                ..*old(self)
            }),
            final(self).status@ == finished_status(
                running_label(old(self).current_op_label),
                result,
            ),
    {
        let label = match self.current_op_label.take() {
            Some(l) => l,
            None => String::from_str("build"),
        };
        self.build_in_progress = false;
        let mut status = label;
        match &result {
            Ok(_) => push_str(&mut status, " done."),
            Err(e) => {
                push_str(&mut status, " failed: ");
                push_str(&mut status, e.as_str());
                push_str(&mut status, ".");
            },
        }
        self.status = status;
        result.is_ok()
    }

    /// Goes back to the Search tab when the current tab is no longer on
    /// show.
    pub fn settle_tab(&mut self)
        requires
            app_wf(*old(self)),
        ensures
            app_wf(*final(self)),
            *final(self) == (App {
                tab: if visible_tabs_spec(*old(self)).contains(old(self).tab) {
                    old(self).tab
                } else {
                    Tab::Search
                },
                ..*old(self)
            }),
    {
        let tabs = self.visible_tabs();
        let mut found = false;
        let mut i: usize = 0;
        while i < tabs.len()
            invariant
                i <= tabs@.len(),
                found == tabs@.take(i as int).contains(self.tab),
            decreases tabs@.len() - i,
        {
            proof {
                let before = tabs@.take(i as int);
                let after = tabs@.take(i + 1);
                if before.contains(self.tab) {
                    let k = choose|k: int| 0 <= k < before.len() && before[k] == self.tab;
                    assert(after[k] == self.tab);
                }
                if tabs@[i as int] == self.tab {
                    assert(after[i as int] == self.tab);
                }
                if after.contains(self.tab) {
                    let k = choose|k: int| 0 <= k < after.len() && after[k] == self.tab;
                    if k < i {
                        assert(before[k] == self.tab);
                    }
                }
            }
            if tabs[i] == self.tab {
                found = true;
            }
            i = i + 1;
        }
        assert(tabs@.take(tabs@.len() as int) =~= tabs@);
        if !found {
            self.tab = Tab::Search;
        }
    }

    /// One step of the spinner.
    pub fn tick(&mut self)
        requires
            app_wf(*old(self)),
        ensures
            app_wf(*final(self)),
            *final(self) == (App {
                spinner_frame: if old(self).spinner_frame == usize::MAX {
                    0
                } else {
                    (old(self).spinner_frame + 1) as usize
                },
                ..*old(self)
            }),
    {
        self.spinner_frame = self.spinner_frame.wrapping_add(1);
    }

    /// Starts a search for what the search bar holds, unless it is empty:
    /// the search gets the next epoch so that older answers are ignored.
    pub fn schedule_search(&mut self) -> (c: Command)
        requires
            app_wf(*old(self)),
            old(self).search_epoch < u64::MAX,
        ensures
            app_wf(*final(self)),
            search_scheduled(*old(self), *final(self), c),

    {
        let query = String::from_str(self.input.value());
        if query.as_str().is_empty() {
            return Command::Idle;
        }
        self.searching = true;
        self.search_epoch = self.search_epoch + 1;
        let epoch = self.search_epoch;
        let channel = self.config.channel.clone();
        self.latest_query = query.clone();
        Command::Search { epoch, channel, query }
    }
}


// ---------------------------------------------------------------------------
// Queueing changes
// ---------------------------------------------------------------------------

/// The manifest of a target.
pub open spec fn manifest_of(a: App, scope: Target) -> Manifest {
    match scope {
        Target::HomeManager => a.home_manifest,
        Target::NixosSystem => a.nixos_manifest,
    }
}

/// The queue holds an install of `attr`.
pub open spec fn queued_install(q: Seq<QueuedOp>, attr: Seq<char>) -> bool {
    exists|i: int|
        0 <= i < q.len() && (#[trigger] q[i] matches QueuedOp::Install { hit, .. } && hit.attr@
            == attr)
}

/// The queue holds a removal of `name` from `scope`.
pub open spec fn queued_uninstall(q: Seq<QueuedOp>, name: Seq<char>, scope: Target) -> bool {
    exists|i: int|
        0 <= i < q.len() && (#[trigger] q[i] matches QueuedOp::Uninstall { name: n, scope: s }
            && n@ == name && s == scope)
}

/// The queue holds a migration that moves `name`.
pub open spec fn queued_migration(q: Seq<QueuedOp>, name: Seq<char>) -> bool {
    exists|i: int|
        0 <= i < q.len() && (#[trigger] q[i] matches QueuedOp::Migrate { names, .. }
            && texts(names@).contains(name))
}

/// Only the status changed, to `msg`.
pub open spec fn status_set(old: App, new: App, msg: Seq<char>) -> bool {
    &&& new == (App { status: new.status, ..old })
    &&& new.status@ == msg
}

/// `ops` joined the queue: while a rebuild runs they wait, the status says
/// `waiting` and the Queue tab shows; else the Building tab shows and the
/// queue is to be run.
pub open spec fn enqueued(
    old: App,
    new: App,
    ops: Seq<QueuedOp>,
    waiting: Seq<char>,
    c: Command,
) -> bool {
    &&& new.queue@ == old.queue@ + ops
    &&& if old.build_in_progress {
        &&& new == (App { queue: new.queue, status: new.status, tab: Tab::Queue, ..old })
        &&& new.status@ == waiting
        &&& c is Idle
    } else {
        &&& new == (App { queue: new.queue, tab: Tab::Building, ..old })
        &&& c is RunQueue
    }
}

/// The status for a selection that is missing.
pub open spec fn no_selection() -> Seq<char> {
    "No selection."@
}

/// The names of the external packages of `scope` that can be moved, in
/// order.
pub open spec fn migratable_names(ext: Seq<ExternalPackage>, scope: Target) -> Seq<Seq<char>>
    decreases ext.len(),
{
    if ext.len() == 0 {
        Seq::empty()
    } else {
        let rest = migratable_names(ext.drop_last(), scope);
        if ext.last().migratable && ext.last().scope == scope {
            rest.push(ext.last().name@)
        } else {
            rest
        }
    }
}

/// The moves that "migrate all" queues: one per target that has packages
/// to move, home-manager first, each with that target's names.
pub open spec fn planned_migrations(ext: Seq<ExternalPackage>) -> Seq<(Seq<Seq<char>>, Target)> {
    let hm = migratable_names(ext, Target::HomeManager);
    let nx = migratable_names(ext, Target::NixosSystem);
    (if hm.len() > 0 {
        seq![(hm, Target::HomeManager)]
    } else {
        Seq::empty()
    }) + (if nx.len() > 0 {
        seq![(nx, Target::NixosSystem)]
    } else {
        Seq::empty()
    })
}

/// `ops` are the moves planned for `ext`.
pub open spec fn are_planned_migrations(ops: Seq<QueuedOp>, ext: Seq<ExternalPackage>) -> bool {
    let plan = planned_migrations(ext);
    &&& ops.len() == plan.len()
    &&& forall|i: int|
        0 <= i < ops.len() ==> (#[trigger] ops[i] matches QueuedOp::Migrate { names, scope }
            && texts(names@) == plan[i].0 && scope == plan[i].1)
}

impl App {
    fn set_status(&mut self, msg: String)
        ensures
            status_set(*old(self), *final(self), msg@),
    {
        self.status = msg;
    }

    fn enqueue(&mut self, ops: Vec<QueuedOp>, waiting: String) -> (c: Command)
        ensures
            enqueued(*old(self), *final(self), ops@, waiting@, c),
    {
        let mut ops = ops;
        self.queue.append(&mut ops);
        if self.build_in_progress {
            self.status = waiting;
            self.tab = Tab::Queue;
            Command::Idle
        } else {
            self.tab = Tab::Building;
            Command::RunQueue
        }
    }

    fn has_queued_install(&self, attr: &str) -> (b: bool)
        ensures
            b == queued_install(self.queue@, attr@),
    {
        let mut i: usize = 0;
        while i < self.queue.len()
            invariant
                i <= self.queue@.len(),
                forall|j: int|
                    0 <= j < i ==> !(#[trigger] self.queue@[j] matches QueuedOp::Install {
                        hit,
                        ..
                    } && hit.attr@ == attr@),
            decreases self.queue@.len() - i,
        {
            match &self.queue[i] {
                QueuedOp::Install { hit, .. } => {
                    if text_eq(hit.attr.as_str(), attr) {
                        return true;
                    }
                },
                _ => {},
            }
            i = i + 1;
        }
        false
    }

    fn has_queued_uninstall(&self, name: &str, scope: Target) -> (b: bool)
        ensures
            b == queued_uninstall(self.queue@, name@, scope),
    {
        let mut i: usize = 0;
        while i < self.queue.len()
            invariant
                i <= self.queue@.len(),
                forall|j: int|
                    0 <= j < i ==> !(#[trigger] self.queue@[j] matches QueuedOp::Uninstall {
                        name: n,
                        scope: s,
                    } && n@ == name@ && s == scope),
            decreases self.queue@.len() - i,
        {
            match &self.queue[i] {
                QueuedOp::Uninstall { name: n, scope: s } => {
                    if *s == scope && text_eq(n.as_str(), name) {
                        return true;
                    }
                },
                _ => {},
            }
            i = i + 1;
        }
        false
    }

    fn has_queued_migration(&self, name: &str) -> (b: bool)
        ensures
            b == queued_migration(self.queue@, name@),
    {
        let mut i: usize = 0;
        while i < self.queue.len()
            invariant
                i <= self.queue@.len(),
                forall|j: int|
                    0 <= j < i ==> !(#[trigger] self.queue@[j] matches QueuedOp::Migrate {
                        names,
                        ..
                    } && texts(names@).contains(name@)),
            decreases self.queue@.len() - i,
        {
            match &self.queue[i] {
                QueuedOp::Migrate { names, .. } => {
                    if find_name(names, name).is_some() {
                        proof {
                            lemma_position_of_range(texts(names@), name@, 0);
                        }
                        return true;
                    }
                    proof {
                        lemma_position_of_none(texts(names@), name@, 0);
                    }
                },
                _ => {},
            }
            i = i + 1;
        }
        false
    }
}

proof fn lemma_position_of_none<A>(names: Seq<A>, x: A, from: int)
    requires
        0 <= from,
        position_of(names, x, from) is None,
    ensures
        forall|k: int| from <= k < names.len() ==> names[k] != x,
    decreases names.len() - from,
{
    if from < names.len() {
        lemma_position_of_none(names, x, from + 1);
    }
}


impl App {
    /// Queues the install of the selected search result into the current
    /// target, unless it is tracked there or already queued.
    pub fn install_selected(&mut self) -> (c: Command)
        requires
            app_wf(*old(self)),
        ensures
            app_wf(*final(self)),
            install_done(*old(self), *final(self), c),

    {
        if self.results.len() == 0 {
            self.set_status(String::from_str("No selection."));
            return Command::Idle;
        }
        let hit = self.results[self.selected].duplicate();
        let scope = self.config.target;
        let in_manifest = self.manifest_for(scope).contains(hit.attr.as_str());
        if in_manifest || self.has_queued_install(hit.attr.as_str()) {
            let mut msg = hit.attr.clone();
            push_str(&mut msg, " already tracked or queued.");
            self.set_status(msg);
            return Command::Idle;
        }
        let mut waiting = String::from_str("Queued install: ");
        push_str(&mut waiting, hit.attr.as_str());
        push_str(&mut waiting, ".");
        let op = QueuedOp::Install { hit, scope };
        let ghost g = op;
        let ops = vec![op];
        assert(ops@ =~= seq![g]);
        self.enqueue(ops, waiting)
    }

    /// Queues the removal of the managed package under the Installed tab's
    /// cursor, unless it is already queued.
    pub fn uninstall_selected(&mut self) -> (c: Command)
        requires
            app_wf(*old(self)),
        ensures
            app_wf(*final(self)),
            uninstall_done(*old(self), *final(self), c),

    {
        proof {
            lemma_installed_total_bound(*self);
        }
        match self.installed_cursor() {
            None => {
                self.set_status(String::from_str("No selection."));
                Command::Idle
            },
            Some(InstalledCursor::External(ep)) => {
                let mut msg = ep.name;
                push_str(&mut msg, " is not managed by nixbox — press m to migrate.");
                self.set_status(msg);
                Command::Idle
            },
            Some(InstalledCursor::Managed(p)) => {
                if self.has_queued_uninstall(p.name.as_str(), p.scope) {
                    let mut msg = p.name;
                    push_str(&mut msg, " already queued for removal.");
                    self.set_status(msg);
                    return Command::Idle;
                }
                let mut waiting = String::from_str("Queued remove: ");
                push_str(&mut waiting, p.name.as_str());
                push_str(&mut waiting, ".");
                let op = QueuedOp::Uninstall { name: p.name, scope: p.scope };
                let ghost g = op;
                let ops = vec![op];
                assert(ops@ =~= seq![g]);
                let ghost old_queue = self.queue@;
                let c = self.enqueue(ops, waiting);
                assert(self.queue@ =~= old_queue.push(self.queue@.last()));
                c
            },
        }
    }

    /// Queues the move of the external package under the Installed tab's
    /// cursor into its target's manifest, unless it is managed already,
    /// shares a line with other entries, or is queued already.
    pub fn migrate_selected(&mut self) -> (c: Command)
        requires
            app_wf(*old(self)),
        ensures
            app_wf(*final(self)),
            migrate_selected_done(*old(self), *final(self), c),

    {
        proof {
            lemma_installed_total_bound(*self);
        }
        match self.installed_cursor() {
            None => {
                self.set_status(String::from_str("No selection."));
                Command::Idle
            },
            Some(InstalledCursor::Managed(p)) => {
                let mut msg = p.name;
                push_str(&mut msg, " is already managed — press d to uninstall.");
                self.set_status(msg);
                Command::Idle
            },
            Some(InstalledCursor::External(ep)) => {
                if !ep.migratable {
                    let mut msg = ep.name;
                    push_str(&mut msg, " is on a same-line list in ");
                    push_str(&mut msg, ep.source_attr.as_str());
                    push_str(&mut msg, "; remove it manually.");
                    self.set_status(msg);
                    return Command::Idle;
                }
                if self.has_queued_migration(ep.name.as_str()) {
                    let mut msg = ep.name;
                    push_str(&mut msg, " already queued for migration.");
                    self.set_status(msg);
                    return Command::Idle;
                }
                let mut waiting = String::from_str("Queued migrate: ");
                push_str(&mut waiting, ep.name.as_str());
                push_str(&mut waiting, ".");
                let names = vec![ep.name];
                assert(texts(names@) =~= seq![ep.name@]);
                let op = QueuedOp::Migrate { names, scope: ep.scope };
                let ghost g = op;
                let ops = vec![op];
                assert(ops@ =~= seq![g]);
                let ghost old_queue = self.queue@;
                let c = self.enqueue(ops, waiting);
                assert(self.queue@ =~= old_queue.push(self.queue@.last()));
                c
            },
        }
    }
}


impl App {
    /// Queues the move of every external package that can be moved: one
    /// move per target.
    pub fn migrate_all(&mut self) -> (c: Command)
        requires
            app_wf(*old(self)),
        ensures
            app_wf(*final(self)),
            migrate_all_done(*old(self), *final(self), c),

    {
        let ghost ext = self.external_packages@;
        let mut hm: Vec<String> = Vec::new();
        let mut nx: Vec<String> = Vec::new();
        let mut i: usize = 0;
        while i < self.external_packages.len()
            invariant
                i <= ext.len(),
                ext == self.external_packages@,
                ext.len() <= i32::MAX,
                texts(hm@) == migratable_names(ext.take(i as int), Target::HomeManager),
                texts(nx@) == migratable_names(ext.take(i as int), Target::NixosSystem),
                hm@.len() + nx@.len() <= i,
            decreases ext.len() - i,
        {
            let ghost hm_before = hm@;
            let ghost nx_before = nx@;
            assert(ext.take(i + 1).drop_last() =~= ext.take(i as int));
            assert(ext.take(i + 1).last() == ext[i as int]);
            let p = &self.external_packages[i];
            if p.migratable {
                match p.scope {
                    Target::HomeManager => {
                        hm.push(p.name.clone());
                        assert(texts(hm@) =~= texts(hm_before).push(p.name@));
                    },
                    Target::NixosSystem => {
                        nx.push(p.name.clone());
                        assert(texts(nx@) =~= texts(nx_before).push(p.name@));
                    },
                }
            }
            i = i + 1;
        }
        assert(ext.take(ext.len() as int) =~= ext);
        let count = hm.len() + nx.len();
        if count == 0 {
            self.set_status(String::from_str("No migratable external packages found."));
            return Command::Idle;
        }
        let mut waiting = String::from_str("Queued migrate ");
        let n = decimal_string(count as u64);
        push_str(&mut waiting, n.as_str());
        push_str(&mut waiting, " packages.");
        let ghost hm_names = texts(hm@);
        let ghost nx_names = texts(nx@);
        let mut ops: Vec<QueuedOp> = Vec::new();
        if hm.len() > 0 {
            ops.push(QueuedOp::Migrate { names: hm, scope: Target::HomeManager });
        }
        if nx.len() > 0 {
            ops.push(QueuedOp::Migrate { names: nx, scope: Target::NixosSystem });
        }
        assert(are_planned_migrations(ops@, ext));
        let ghost old_queue = self.queue@;
        let c = self.enqueue(ops, waiting);
        assert(self.queue@.skip(old_queue.len() as int) =~= ops@);
        c
    }
}


// ---------------------------------------------------------------------------
// Running the queue
// ---------------------------------------------------------------------------

/// The contents of the manifest of `op`'s target once `op` is applied;
/// `removed` holds the names a move took out of the main config file.
pub open spec fn applied_contents(a: App, op: QueuedOp, removed: Seq<Seq<char>>) -> Set<Seq<char>> {
    let before = manifest_of(a, op_scope(op)).contents();
    match op {
        QueuedOp::Install { hit, .. } => before.insert(hit.attr@),
        QueuedOp::Uninstall { name, .. } => before.remove(name@),
        QueuedOp::Migrate { .. } => before.union(removed.to_set()),
    }
}

/// The text of a managed file for target `scope` listing `names`.
pub open spec fn rendered_for(scope: Target, names: Seq<Seq<char>>) -> Seq<char> {
    match scope {
        Target::HomeManager => rendered_home_manager(names),
        Target::NixosSystem => rendered_nixos(names),
    }
}

/// The external packages once a move took `removed` out of the main config
/// files.
pub open spec fn without_removed(ext: Seq<ExternalPackage>, removed: Seq<Seq<char>>) -> Seq<
    ExternalPackage,
> {
    ext.filter(|p: ExternalPackage| !removed.contains(p.name@))
}

/// Adds every name of `names` to `m`.
fn add_all(m: &mut Manifest, names: &Vec<String>)
    requires
        old(m).wf(),
    ensures
        final(m).wf(),
        final(m).contents() == old(m).contents().union(texts(names@).to_set()),
        final(m).packages@.len() <= old(m).packages@.len() + names@.len(),
{
    let ghost start = m.contents();
    let ghost start_len = m.packages@.len();
    let ghost all = texts(names@);
    let mut i: usize = 0;
    assert(all.take(0).to_set() =~= Set::<Seq<char>>::empty());
    assert(start.union(all.take(0).to_set()) =~= start);
    while i < names.len()
        invariant
            i <= names@.len(),
            all == texts(names@),
            m.wf(),
            m.contents() == start.union(all.take(i as int).to_set()),
            m.packages@.len() <= start_len + i,
        decreases names@.len() - i,
    {
        m.add(names[i].as_str());
        proof {
            let prev = all.take(i as int);
            let next = all.take(i + 1);
            let x = names@[i as int]@;
            assert(next =~= prev.push(x));
            assert forall|n: Seq<char>| next.to_set().contains(n) implies prev.to_set().insert(
                x,
            ).contains(n) by {
                let k = choose|k: int| 0 <= k < next.len() && next[k] == n;
                if k < prev.len() {
                    assert(prev[k] == n);
                }
            }
            assert forall|n: Seq<char>| prev.to_set().insert(x).contains(n) implies next.to_set().contains(
                n,
            ) by {
                if n == x {
                    assert(next[prev.len() as int] == n);
                } else {
                    let k = choose|k: int| 0 <= k < prev.len() && prev[k] == n;
                    assert(next[k] == n);
                }
            }
            assert(next.to_set() =~= prev.to_set().insert(x));
        }
        assert(m.contents() =~= start.union(all.take(i + 1).to_set()));
        i = i + 1;
    }
    assert(all.take(names@.len() as int) =~= all);
}

/// The packages of `ext` whose names `removed` does not hold.
fn keep_unremoved(ext: &Vec<ExternalPackage>, removed: &Vec<String>) -> (out: Vec<ExternalPackage>)
    ensures
        out@ == without_removed(ext@, texts(removed@)),
{
    let ghost gone = texts(removed@);
    let ghost pred = |p: ExternalPackage| !gone.contains(p.name@);
    let mut out: Vec<ExternalPackage> = Vec::new();
    let mut i: usize = 0;
    assert(ext@.take(0).filter(pred) =~= Seq::<ExternalPackage>::empty()) by {
        reveal(Seq::filter);
    }
    while i < ext.len()
        invariant
            i <= ext@.len(),
            gone == texts(removed@),
            pred == (|p: ExternalPackage| !gone.contains(p.name@)),
            out@ == ext@.take(i as int).filter(pred),
        decreases ext@.len() - i,
    {
        let ghost sub = ext@.take(i as int).filter(pred);
        assert(ext@.take(i + 1).drop_last() =~= ext@.take(i as int));
        assert(ext@.take(i + 1).last() == ext@[i as int]);
        assert(ext@.take(i + 1).filter(pred) == if pred(ext@[i as int]) {
            sub.push(ext@[i as int])
        } else {
            sub
        }) by {
            reveal(Seq::filter);
        }
        let found = find_name(removed, ext[i].name.as_str());
        proof {
            lemma_position_of_range(gone, ext@[i as int].name@, 0);
            if found is None {
                lemma_position_of_none(gone, ext@[i as int].name@, 0);
            }
        }
        if found.is_none() {
            out.push(ext[i].duplicate());
        }
        i = i + 1;
    }
    assert(ext@.take(ext@.len() as int) =~= ext@);
    out
}

impl App {
    /// Takes the next queued operation, unless a rebuild is running or
    /// nothing waits.
    pub fn next_op(&mut self) -> (op: Option<QueuedOp>)
        requires
            app_wf(*old(self)),
        ensures
            app_wf(*final(self)),
            (old(self).build_in_progress || old(self).queue@.len() == 0) ==> op is None
                && *final(self) == *old(self),
            !(old(self).build_in_progress || old(self).queue@.len() == 0) ==> {
                &&& op == Some(old(self).queue@[0])
                &&& *final(self) == (App { queue: final(self).queue, ..*old(self) })
                &&& final(self).queue@ == old(self).queue@.skip(1)
            },
    {
        if self.build_in_progress || self.queue.len() == 0 {
            return None;
        }
        let op = self.queue.remove(0);
        assert(self.queue@ =~= old(self).queue@.skip(1));
        Some(op)
    }

    /// Applies `op` to its target's manifest (and, for a move, drops the
    /// moved names from the external packages, `removed` being the names
    /// taken out of the main config file), holds the Installed tab's cursor
    /// within its rows, and gives the write that stores the manifest.
    pub fn apply_op(&mut self, op: &QueuedOp, removed: &Vec<String>) -> (w: FileWrite)
        requires
            app_wf(*old(self)),
            package_count(*old(self)) + removed@.len() + 1 <= i32::MAX,
        ensures
            app_wf(*final(self)),
            manifest_of(*final(self), op_scope(*op)).contents() == applied_contents(
                *old(self),
                *op,
                texts(removed@),
            ),
            manifest_of(*final(self), other_target(op_scope(*op))) == manifest_of(
                *old(self),
                other_target(op_scope(*op)),
            ),
            final(self).external_packages@ == match *op {
                QueuedOp::Migrate { .. } => without_removed(
                    old(self).external_packages@,
                    texts(removed@),
                ),
                _ => old(self).external_packages@,
            },
            final(self).installed_selected == match *op {
                QueuedOp::Install { .. } => old(self).installed_selected,
                _ => clamped_cursor(old(self).installed_selected, installed_total_spec(*final(self))),
            },
            *final(self) == (App {
                home_manifest: final(self).home_manifest,
                nixos_manifest: final(self).nixos_manifest,
                external_packages: final(self).external_packages,
                installed_selected: final(self).installed_selected,
                ..*old(self)
            }),
            w.path@ == path_join(old(self).config_dir@, managed_file_name(op_scope(*op))),
            w.content@ == rendered_for(
                op_scope(*op),
                manifest_of(*final(self), op_scope(*op)).names(),
            ),
    {
        let scope = op.scope();
        match op {
            QueuedOp::Install { hit, .. } => {
                match scope {
                    Target::HomeManager => {
                        self.home_manifest.add(hit.attr.as_str());
                    },
                    Target::NixosSystem => {
                        self.nixos_manifest.add(hit.attr.as_str());
                    },
                }
            },
            QueuedOp::Uninstall { name, .. } => {
                match scope {
                    Target::HomeManager => {
                        self.home_manifest.remove(name.as_str());
                    },
                    Target::NixosSystem => {
                        self.nixos_manifest.remove(name.as_str());
                    },
                }
                self.clamp_installed_selection();
            },
            QueuedOp::Migrate { .. } => {
                match scope {
                    Target::HomeManager => add_all(&mut self.home_manifest, removed),
                    Target::NixosSystem => add_all(&mut self.nixos_manifest, removed),
                }
                let kept = keep_unremoved(&self.external_packages, removed);
                proof {
                    old(self).external_packages@.lemma_filter_len(
                        |p: ExternalPackage| !texts(removed@).contains(p.name@),
                    );
                }
                self.external_packages = kept;
                self.clamp_installed_selection();
            },
        }
        proof {
            lemma_installed_total_bound(*self);
        }
        let file = ManagedFile::new(
            self.config.managed_file_for(self.config_dir.as_str(), scope),
        );
        match scope {
            Target::HomeManager => file.write_home_manager(&self.home_manifest),
            Target::NixosSystem => file.write_nixos(&self.nixos_manifest),
        }
    }

    /// The status once `op` could not be written.
    pub fn write_failed(&mut self, op: &QueuedOp, error: &str)
        requires
            app_wf(*old(self)),
        ensures
            app_wf(*final(self)),
            status_set(
                *old(self),
                *final(self),
                op_label(*op) + ": failed to write manifest: "@ + error@,
            ),
    {
        let mut msg = op.label();
        push_str(&mut msg, ": failed to write manifest: ");
        push_str(&mut msg, error);
        self.set_status(msg);
    }

    /// `op` is written: its rebuild starts, labelled by `op`, with a fresh
    /// log. The Building tab is on show from here on, so the tab stays
    /// unless it is the Queue tab with nothing left queued. Gives the target
    /// to rebuild.
    pub fn start_op(&mut self, op: &QueuedOp) -> (scope: Target)
        requires
            app_wf(*old(self)),
        ensures
            app_wf(*final(self)),
            scope == op_scope(*op),
            *final(self) == (App {
                tab: if old(self).tab == Tab::Queue && old(self).queue@.len() == 0 {
                    Tab::Search
                } else {
                    old(self).tab
                },
                build_in_progress: true,
                current_op_label: final(self).current_op_label,
                log: final(self).log,
                status: final(self).status,
                ..*old(self)
            }),
            final(self).log@.len() == 0,
            final(self).current_op_label matches Some(l) && l@ == op_label(*op),
            final(self).status@ == op_label(*op) + "..."@,
    {
        let label = op.label();
        if self.tab == Tab::Queue && self.queue.len() == 0 {
            self.tab = Tab::Search;
        }
        self.build_in_progress = true;
        self.current_op_label = Some(label.clone());
        self.log.clear();
        let mut status = label;
        push_str(&mut status, "...");
        self.status = status;
        op.scope()
    }
}


// ---------------------------------------------------------------------------
// Key dispatch
// ---------------------------------------------------------------------------

/// A key event as the interface reads it.
#[derive(PartialEq, Eq, Structural, Clone, Copy, Debug)]
pub struct Key {
    pub code: KeyCode,
    /// Whether Control was held.
    pub ctrl: bool,
    /// Whether the key went down (not a release or a repeat).
    pub press: bool,
    /// The edit the key makes in a text field, if it makes one.
    pub edit: Option<EditRequest>,
}

/// What a key asks the interface to do.
#[derive(PartialEq, Eq, Structural, Clone, Copy, Debug)]
pub enum Action {
    Ignore,
    Quit,
    ChannelKey(KeyCode),
    ThemeKey(KeyCode, bool),
    LeaveInsert,
    EnterInsert,
    CycleTab,
    CycleTabBack,
    ToggleTarget,
    CycleTheme,
    OpenChannelEdit,
    MoveSelection(i32),
    MoveInstalledSelection(i32),
    Install,
    Uninstall,
    MigrateSelected,
    MigrateAll,
    Edit(EditRequest),
}

/// The action a key asks for in state `a`: only presses count; Ctrl-c
/// quits; an open picker takes every other key; Esc leaves insert mode in
/// the search bar; Tab, Shift-Tab, Ctrl-t (or Ctrl-g) for the target and
/// Ctrl-n for the theme work everywhere and Esc quits; the rest depends on
/// the tab and, on the Search tab, on the search bar's mode, where typing
/// edits the query. The key table of the documentation gives Ctrl-n to the
/// theme picker, so no key opens the channel picker: it is opened by
/// performing `Action::OpenChannelEdit`.
pub open spec fn key_action_spec(a: App, k: Key) -> Action {
    let code = k.code;
    if !k.press {
        Action::Ignore
    } else if k.ctrl && code == KeyCode::Char('c') {
        Action::Quit
    } else if a.mode == Mode::ChannelEdit {
        Action::ChannelKey(code)
    } else if a.mode == Mode::ThemeSelect {
        Action::ThemeKey(code, k.ctrl)
    } else if code == KeyCode::Esc && a.tab == Tab::Search && a.search_input_mode
        == SearchInputMode::Insert {
        Action::LeaveInsert
    } else if code == KeyCode::Tab {
        Action::CycleTab
    } else if code == KeyCode::BackTab {
        Action::CycleTabBack
    } else if (code == KeyCode::Char('t') || code == KeyCode::Char('g')) && k.ctrl {
        Action::ToggleTarget
    } else if code == KeyCode::Char('n') && k.ctrl {
        Action::CycleTheme
    } else if code == KeyCode::Esc {
        Action::Quit
    } else {
        match a.tab {
            Tab::Search => match a.search_input_mode {
                SearchInputMode::Insert => if code == KeyCode::Down {
                    Action::MoveSelection(1i32)
                } else if code == KeyCode::Up {
                    Action::MoveSelection(-1i32)
                } else if code == KeyCode::Enter {
                    Action::Install
                } else {
                    match k.edit {
                        Some(req) => Action::Edit(req),
                        None => Action::Ignore,
                    }
                },
                SearchInputMode::Normal => if code == KeyCode::Down || code == KeyCode::Char('j') {
                    Action::MoveSelection(1i32)
                } else if code == KeyCode::Up || code == KeyCode::Char('k') {
                    Action::MoveSelection(-1i32)
                } else if code == KeyCode::Char('l') {
                    Action::CycleTab
                } else if code == KeyCode::Char('h') {
                    Action::CycleTabBack
                } else if code == KeyCode::Enter {
                    Action::Install
                } else if code == KeyCode::Char('i') || code == KeyCode::Char('a') || code
                    == KeyCode::Char('/') {
                    Action::EnterInsert
                } else {
                    Action::Ignore
                },
            },
            Tab::Installed => if code == KeyCode::Down || code == KeyCode::Char('j') {
                Action::MoveInstalledSelection(1i32)
            } else if code == KeyCode::Up || code == KeyCode::Char('k') {
                Action::MoveInstalledSelection(-1i32)
            } else if code == KeyCode::Char('l') {
                Action::CycleTab
            } else if code == KeyCode::Char('h') {
                Action::CycleTabBack
            } else if code == KeyCode::Delete || code == KeyCode::Char('d') {
                Action::Uninstall
            } else if code == KeyCode::Char('m') {
                Action::MigrateSelected
            } else if code == KeyCode::Char('M') {
                Action::MigrateAll
            } else {
                Action::Ignore
            },
            _ => if code == KeyCode::Char('l') {
                Action::CycleTab
            } else if code == KeyCode::Char('h') {
                Action::CycleTabBack
            } else {
                Action::Ignore
            },
        }
    }
}

/// The search bar took the edit `req`; a changed query starts a search.
pub open spec fn edit_done(old: App, new: App, req: EditRequest, c: Command) -> bool {
    let (t, pos) = edited(old.input.text(), old.input.position(), req);
    let mid = App { input: new.input, ..old };
    &&& new.input.wf()
    &&& new.input.text() == t
    &&& new.input.position() == pos
    &&& if t == old.input.text() {
        c is Idle && new == mid
    } else {
        search_scheduled(mid, new, c)
    }
}

/// What performing `act` does.
pub open spec fn action_done(old: App, new: App, act: Action, c: Command) -> bool {
    match act {
        Action::Ignore => c is Idle && new == old,
        Action::Quit => c is Idle && new == (App { should_quit: true, ..old }),
        Action::ChannelKey(code) => channel_key_done(old, new, code, c),
        Action::ThemeKey(code, ctrl) => theme_key_done(old, new, code, ctrl, c),
        Action::LeaveInsert => c is Idle && new == (App {
            search_input_mode: SearchInputMode::Normal,
            ..old
        }),
        Action::EnterInsert => c is Idle && new == (App {
            search_input_mode: SearchInputMode::Insert,
            ..old
        }),
        Action::CycleTab => c is Idle && tab_chosen(old, new, next_tab(old)),
        Action::CycleTabBack => c is Idle && tab_chosen(old, new, prev_tab(old)),
        Action::ToggleTarget => c is SaveConfig && target_toggled(old, new),
        Action::CycleTheme => c is Idle && theme_picker_opened(old, new),
        Action::OpenChannelEdit => c is Idle && channel_picker_opened(old, new),
        Action::MoveSelection(d) => c is Idle && selection_moved(old, new, d),
        Action::MoveInstalledSelection(d) => c is Idle && installed_selection_moved(old, new, d),
        Action::Install => install_done(old, new, c),
        Action::Uninstall => uninstall_done(old, new, c),
        Action::MigrateSelected => migrate_selected_done(old, new, c),
        Action::MigrateAll => migrate_all_done(old, new, c),
        Action::Edit(req) => edit_done(old, new, req, c),
    }
}

/// The state allows `act`: cursor moves stay within the 32-bit range and
/// an edit can take the next search epoch.
pub open spec fn action_allowed(a: App, act: Action) -> bool {
    match act {
        Action::MoveSelection(d) => a.results@.len() == 0 || i32::MIN <= a.selected + d
            <= i32::MAX,
        Action::MoveInstalledSelection(d) => i32::MIN <= a.installed_selected + d <= i32::MAX,
        Action::Edit(_) => a.search_epoch < u64::MAX,
        _ => true,
    }
}

impl App {
    /// The action `key` asks for, by the table of `key_action_spec`: where
    /// the documented key table and the code's bindings differ (Ctrl-t, Ctrl-n,
    /// `/`), the documented table is followed, and the channel picker, whose
    /// key the table gives to the theme picker, has none.
    pub fn key_action(&self, key: &Key) -> (act: Action)
        ensures
            act == key_action_spec(*self, *key),
    {
        let code = key.code;
        if !key.press {
            return Action::Ignore;
        }
        if key.ctrl && code == KeyCode::Char('c') {
            return Action::Quit;
        }
        if self.mode == Mode::ChannelEdit {
            return Action::ChannelKey(code);
        }
        if self.mode == Mode::ThemeSelect {
            return Action::ThemeKey(code, key.ctrl);
        }
        if code == KeyCode::Esc && self.tab == Tab::Search && self.search_input_mode
            == SearchInputMode::Insert {
            return Action::LeaveInsert;
        }
        if code == KeyCode::Tab {
            return Action::CycleTab;
        }
        if code == KeyCode::BackTab {
            return Action::CycleTabBack;
        }
        if (code == KeyCode::Char('t') || code == KeyCode::Char('g')) && key.ctrl {
            return Action::ToggleTarget;
        }
        if code == KeyCode::Char('n') && key.ctrl {
            return Action::CycleTheme;
        }
        if code == KeyCode::Esc {
            return Action::Quit;
        }
        match self.tab {
            Tab::Search => match self.search_input_mode {
                SearchInputMode::Insert => {
                    if code == KeyCode::Down {
                        Action::MoveSelection(1)
                    } else if code == KeyCode::Up {
                        Action::MoveSelection(-1)
                    } else if code == KeyCode::Enter {
                        Action::Install
                    } else {
                        match key.edit {
                            Some(req) => Action::Edit(req),
                            None => Action::Ignore,
                        }
                    }
                },
                SearchInputMode::Normal => {
                    if code == KeyCode::Down || code == KeyCode::Char('j') {
                        Action::MoveSelection(1)
                    } else if code == KeyCode::Up || code == KeyCode::Char('k') {
                        Action::MoveSelection(-1)
                    } else if code == KeyCode::Char('l') {
                        Action::CycleTab
                    } else if code == KeyCode::Char('h') {
                        Action::CycleTabBack
                    } else if code == KeyCode::Enter {
                        Action::Install
                    } else if code == KeyCode::Char('i') || code == KeyCode::Char('a') || code
                        == KeyCode::Char('/') {
                        Action::EnterInsert
                    } else {
                        Action::Ignore
                    }
                },
            },
            Tab::Installed => {
                if code == KeyCode::Down || code == KeyCode::Char('j') {
                    Action::MoveInstalledSelection(1)
                } else if code == KeyCode::Up || code == KeyCode::Char('k') {
                    Action::MoveInstalledSelection(-1)
                } else if code == KeyCode::Char('l') {
                    Action::CycleTab
                } else if code == KeyCode::Char('h') {
                    Action::CycleTabBack
                } else if code == KeyCode::Delete || code == KeyCode::Char('d') {
                    Action::Uninstall
                } else if code == KeyCode::Char('m') {
                    Action::MigrateSelected
                } else if code == KeyCode::Char('M') {
                    Action::MigrateAll
                } else {
                    Action::Ignore
                }
            },
            _ => {
                if code == KeyCode::Char('l') {
                    Action::CycleTab
                } else if code == KeyCode::Char('h') {
                    Action::CycleTabBack
                } else {
                    Action::Ignore
                }
            },
        }
    }

    /// Types into the search bar; a changed query starts a search.
    fn edit_query(&mut self, req: EditRequest) -> (c: Command)
        requires
            app_wf(*old(self)),
            old(self).search_epoch < u64::MAX,
        ensures
            app_wf(*final(self)),
            edit_done(*old(self), *final(self), req, c),
    {
        let before = String::from_str(self.input.value());
        self.input.handle(req);
        if text_eq(self.input.value(), before.as_str()) {
            Command::Idle
        } else {
            self.schedule_search()
        }
    }

    /// Does what `act` asks.
    pub fn perform(&mut self, act: Action) -> (c: Command)
        requires
            app_wf(*old(self)),
            action_allowed(*old(self), act),
        ensures
            app_wf(*final(self)),
            action_done(*old(self), *final(self), act, c),
    {
        match act {
            Action::Ignore => Command::Idle,
            Action::Quit => {
                self.should_quit = true;
                Command::Idle
            },
            Action::ChannelKey(code) => self.handle_channel_edit(code),
            Action::ThemeKey(code, ctrl) => self.handle_theme_select(code, ctrl),
            Action::LeaveInsert => {
                self.search_input_mode = SearchInputMode::Normal;
                Command::Idle
            },
            Action::EnterInsert => {
                self.search_input_mode = SearchInputMode::Insert;
                Command::Idle
            },
            Action::CycleTab => {
                self.cycle_tab();
                Command::Idle
            },
            Action::CycleTabBack => {
                self.cycle_tab_back();
                Command::Idle
            },
            Action::ToggleTarget => self.toggle_target(),
            Action::CycleTheme => {
                self.cycle_theme();
                Command::Idle
            },
            Action::OpenChannelEdit => {
                self.open_channel_edit();
                Command::Idle
            },
            Action::MoveSelection(d) => {
                self.move_selection(d);
                Command::Idle
            },
            Action::MoveInstalledSelection(d) => {
                self.move_installed_selection(d);
                Command::Idle
            },
            Action::Install => self.install_selected(),
            Action::Uninstall => self.uninstall_selected(),
            Action::MigrateSelected => self.migrate_selected(),
            Action::MigrateAll => self.migrate_all(),
            Action::Edit(req) => self.edit_query(req),
        }
    }

    /// Whether the state allows `act` (see `action_allowed`).
    pub fn allows(&self, act: Action) -> (b: bool)
        ensures
            b == action_allowed(*self, act),
    {
        match act {
            Action::MoveSelection(d) => {
                let t = self.selected as i128 + d as i128;
                self.results.len() == 0 || (i32::MIN as i128 <= t && t <= i32::MAX as i128)
            },
            Action::MoveInstalledSelection(d) => {
                let t = self.installed_selected as i128 + d as i128;
                i32::MIN as i128 <= t && t <= i32::MAX as i128
            },
            Action::Edit(_) => self.search_epoch < u64::MAX,
            _ => true,
        }
    }

    /// Whether the state allows the action `key` asks for; only typing into
    /// the search bar needs a search epoch to spare.
    pub fn key_allowed(&self, key: &Key) -> (b: bool)
        ensures
            b == action_allowed(*self, key_action_spec(*self, *key)),
    {
        let act = self.key_action(key);
        self.allows(act)
    }

    /// Handles a key: decides the action and does it.
    pub fn handle_key(&mut self, key: &Key) -> (c: Command)
        requires
            app_wf(*old(self)),
            action_allowed(*old(self), key_action_spec(*old(self), *key)),
        ensures
            app_wf(*final(self)),
            action_done(*old(self), *final(self), key_action_spec(*old(self), *key), c),
    {
        let act = self.key_action(key);
        self.perform(act)
    }
}


// ---------------------------------------------------------------------------
// Laws of the interface
// ---------------------------------------------------------------------------

/// `x` modulo `n` is `r` when `x` is `q` times `n` plus `r`.
proof fn lemma_mod_is(x: int, n: int, q: int, r: int)
    requires
        n > 0,
        0 <= r < n,
        x == q * n + r,
    ensures
        x % n == r,
{
    vstd::arithmetic::div_mod::lemma_fundamental_div_mod_converse(x, n, q, r);
}

/// One step forward and one step back over `n` places, wrapping around,
/// lands where it started.
proof fn lemma_step_round_trip(s: int, n: int)
    requires
        0 <= s < n,
    ensures
        (((s + 1) % n) - 1) % n == s,
        (((s - 1) % n) + 1) % n == s,
{
    if s + 1 < n {
        lemma_mod_is(s + 1, n, 0, s + 1);
    } else {
        lemma_mod_is(s + 1, n, 1, 0);
        lemma_mod_is(-1, n, -1, n - 1);
    }
    lemma_mod_is(s, n, 0, s);
    if s > 0 {
        lemma_mod_is(s - 1, n, 0, s - 1);
    } else {
        lemma_mod_is(-1, n, -1, n - 1);
        lemma_mod_is(n, n, 1, 0);
    }
}

/// Moving to the next tab and back returns to the tab on show before, and
/// so does moving back and then on.
pub proof fn law_tab_round_trip(a: App, s1: String, s2: String)
    requires
        visible_tabs_spec(a).contains(a.tab),
    ensures
        prev_tab(with_tab(a, next_tab(a), s1)) == a.tab,
        next_tab(with_tab(a, prev_tab(a), s2)) == a.tab,
{
    let tabs = visible_tabs_spec(a);
    let n = tabs.len() as int;
    lemma_visible_tabs_distinct(a);
    let i = choose|i: int| 0 <= i < tabs.len() && tabs[i] == a.tab;
    assert(tab_position(tabs, a.tab) == i);
    lemma_step_round_trip(i, n);
    let j = (i + 1) % n;
    assert(tab_position(tabs, tabs[j]) == j);
    assert((j + n - 1) % n == i) by {
        vstd::arithmetic::div_mod::lemma_mod_add_multiples_vanish(j - 1, n);
    }
    let b = with_tab(a, next_tab(a), s1);
    assert(visible_tabs_spec(b) == tabs);
    let k = (i + n - 1) % n;
    assert(k == (i - 1) % n) by {
        vstd::arithmetic::div_mod::lemma_mod_add_multiples_vanish(i - 1, n);
    }
    assert(tab_position(tabs, tabs[k]) == k);
    let c = with_tab(a, prev_tab(a), s2);
    assert(visible_tabs_spec(c) == tabs);
}

/// Moving the search cursor down and then up returns to the same state.
pub proof fn law_selection_round_trip(a: App, b: App, c: App)
    requires
        app_wf(a),
        selection_moved(a, b, 1i32),
        selection_moved(b, c, -1i32),
    ensures
        c == a,
{
    let n = a.results@.len() as int;
    if n > 0 {
        lemma_step_round_trip(a.selected as int, n);
    }
}

/// Moving the Installed tab's cursor down and then up returns to the same
/// state, the cursor being on a row.
pub proof fn law_installed_selection_round_trip(a: App, b: App, c: App)
    requires
        app_wf(a),
        a.installed_selected < installed_total_spec(a),
        installed_selection_moved(a, b, 1i32),
        installed_selection_moved(b, c, -1i32),
    ensures
        c == a,
{
    let n = installed_total_spec(a);
    lemma_installed_total_bound(a);
    assert(installed_total_spec(b) == n);
    lemma_step_round_trip(a.installed_selected as int, n);
}

/// Switching the target twice gives back the settings as they were.
pub proof fn law_target_toggle_twice(a: App, b: App, c: App)
    requires
        target_toggled(a, b),
        target_toggled(b, c),
    ensures
        c.config == a.config,
{
    assert(other_target(other_target(a.config.target)) == a.config.target);
}

/// Opening the theme picker and cancelling it keeps the chosen theme and
/// the settings.
pub proof fn law_theme_picker_cancel(a: App, b: App, c: App, cmd: Command)
    requires
        theme_picker_opened(a, b),
        theme_key_done(b, c, KeyCode::Esc, false, cmd),
    ensures
        cmd is Idle,
        c.config == a.config,
        c.theme_index == a.theme_index,
        c.mode == Mode::Browsing,
{
}

/// Opening the channel picker and cancelling it keeps the channel and the
/// settings.
pub proof fn law_channel_picker_cancel(a: App, b: App, c: App, cmd: Command)
    requires
        channel_picker_opened(a, b),
        channel_key_done(b, c, KeyCode::Esc, cmd),
    ensures
        cmd is Idle,
        c.config == a.config,
        c.mode == Mode::Browsing,
{
}


impl App {
    /// The write of `op` ended with `written`: on success the operation's
    /// rebuild starts and its target is given back; on failure the status
    /// says why and `None` asks for the next queued operation.
    pub fn finish_write(&mut self, op: &QueuedOp, written: Result<(), String>) -> (started: Option<
        Target,
    >)
        requires
            app_wf(*old(self)),
        ensures
            app_wf(*final(self)),
            written is Ok ==> {
                &&& started == Some(op_scope(*op))
                &&& *final(self) == (App {
                    tab: if old(self).tab == Tab::Queue && old(self).queue@.len() == 0 {
                        Tab::Search
                    } else {
                        old(self).tab
                    },
                    build_in_progress: true,
                    current_op_label: final(self).current_op_label,
                    log: final(self).log,
                    status: final(self).status,
                    ..*old(self)
                })
                &&& final(self).log@.len() == 0
                &&& final(self).current_op_label matches Some(l) && l@ == op_label(*op)
                &&& final(self).status@ == op_label(*op) + "..."@
            },
            written matches Err(e) ==> {
                &&& started is None
                &&& status_set(
                    *old(self),
                    *final(self),
                    op_label(*op) + ": failed to write manifest: "@ + e@,
                )
            },
    {
        match written {
            Ok(()) => Some(self.start_op(op)),
            Err(e) => {
                self.write_failed(op, e.as_str());
                None
            },
        }
    }
}

// ---------------------------------------------------------------------------
// Laws of the keys
// ---------------------------------------------------------------------------

/// Ctrl-c, and Esc while browsing outside the search bar's insert mode,
/// quit: nothing else changes, nothing is queued and nothing is asked of
/// the world around.
pub proof fn law_quit_keys(a: App, b: App, k: Key, c: Command)
    requires
        k.press,
        (k.ctrl && k.code == KeyCode::Char('c')) || (k.code == KeyCode::Esc && a.mode
            == Mode::Browsing && !(a.tab == Tab::Search && a.search_input_mode
            == SearchInputMode::Insert)),
        action_done(a, b, key_action_spec(a, k), c),
    ensures
        key_action_spec(a, k) == Action::Quit,
        b == (App { should_quit: true, ..a }),
        b.queue == a.queue,
        c is Idle,
{
}

/// A key that is not a press (a release or a repeat) changes nothing and
/// asks for nothing.
pub proof fn law_non_press_ignored(a: App, b: App, k: Key, c: Command)
    requires
        !k.press,
        action_done(a, b, key_action_spec(a, k), c),
    ensures
        b == a,
        c is Idle,
{
}


// ---------------------------------------------------------------------------
// Laws of the Installed filter and of the queue
// ---------------------------------------------------------------------------

/// With no filter every name passes; with a filter, a name passes exactly
/// when the filter occurs somewhere in the lower-cased name, at any
/// position.
pub proof fn law_filter_matches_anywhere(name: Seq<char>, q: Seq<char>)
    ensures
        passes(name, None),
        passes(name, Some(q)) <==> exists|i: int|
            0 <= i && i + q.len() <= lowercase(name).len() && #[trigger] lowercase(name).subrange(
                i,
                i + q.len(),
            ) == q,
{
    let h = lowercase(name);
    lemma_first_occurrence_exists(h, q, 0);
    if exists|i: int| 0 <= i && i + q.len() <= h.len() && #[trigger] h.subrange(i, i + q.len()) == q {
        let i = choose|i: int| 0 <= i && i + q.len() <= h.len() && #[trigger] h.subrange(i, i + q.len()) == q;
        assert(occurs_at(h, q, i));
    }
    if passes(name, Some(q)) {
        let i = choose|i: int| i >= 0 && #[trigger] occurs_at(h, q, i);
        assert(h.subrange(i, i + q.len()) == q);
    }
}

/// The queue holds an install of `attr` exactly when one of its queued
/// installs is for that very attribute.
pub proof fn law_queued_install_is_same_attr(q: Seq<QueuedOp>, attr: Seq<char>)
    ensures
        queued_install(q, attr) <==> exists|i: int|
            0 <= i < q.len() && match #[trigger] q[i] {
                QueuedOp::Install { hit, .. } => hit.attr@ == attr,
                _ => false,
            },
{
    if queued_install(q, attr) {
        let i = choose|i: int|
            0 <= i < q.len() && (#[trigger] q[i] matches QueuedOp::Install { hit, .. } && hit.attr@
                == attr);
        assert(match q[i] {
            QueuedOp::Install { hit, .. } => hit.attr@ == attr,
            _ => false,
        });
    }
}

/// Installing the selected result queues it into the current target when
/// the target's manifest does not hold it and no queued install is for its
/// attribute; else the queue stays as it was and the status says it is
/// tracked or queued.
pub proof fn law_install_selected(a: App, b: App, c: Command)
    requires
        app_wf(a),
        a.results@.len() > 0,
        install_done(a, b, c),
    ensures
        ({
            let hit = a.results@[a.selected as int];
            let known = manifest_of(a, a.config.target).contents().contains(hit.attr@) || exists|
                i: int,
            |
                0 <= i < a.queue@.len() && match #[trigger] a.queue@[i] {
                    QueuedOp::Install { hit: h, .. } => h.attr@ == hit.attr@,
                    _ => false,
                };
            &&& !known ==> b.queue@ == a.queue@.push(
                QueuedOp::Install { hit, scope: a.config.target },
            )
            &&& known ==> b.queue@ == a.queue@ && b.status@ == hit.attr@
                + " already tracked or queued."@
        }),
{
    let hit = a.results@[a.selected as int];
    law_queued_install_is_same_attr(a.queue@, hit.attr@);
    assert(seq![QueuedOp::Install { hit, scope: a.config.target }] =~= Seq::empty().push(
        QueuedOp::Install { hit, scope: a.config.target },
    ));
    assert(a.queue@ + seq![QueuedOp::Install { hit, scope: a.config.target }] =~= a.queue@.push(
        QueuedOp::Install { hit, scope: a.config.target },
    ));
}

// ---------------------------------------------------------------------------
// Laws of the key table
// ---------------------------------------------------------------------------

/// Ctrl-c quits in every mode; while browsing, Ctrl-t or Ctrl-g switch the
/// target, Ctrl-n opens the theme picker, Tab and Shift-Tab change tabs.
pub proof fn law_global_keys(a: App, k: Key)
    requires
        k.press,
    ensures
        k.ctrl && k.code == KeyCode::Char('c') ==> key_action_spec(a, k) == Action::Quit,
        a.mode == Mode::Browsing && k.ctrl && (k.code == KeyCode::Char('t') || k.code
            == KeyCode::Char('g')) ==> key_action_spec(a, k) == Action::ToggleTarget,
        a.mode == Mode::Browsing && k.ctrl && k.code == KeyCode::Char('n') ==> key_action_spec(a, k)
            == Action::CycleTheme,
        a.mode == Mode::Browsing && k.code == KeyCode::Tab ==> key_action_spec(a, k)
            == Action::CycleTab,
        a.mode == Mode::Browsing && k.code == KeyCode::BackTab ==> key_action_spec(a, k)
            == Action::CycleTabBack,
{
}

/// An open picker takes every key but Ctrl-c.
pub proof fn law_picker_keys(a: App, k: Key)
    requires
        k.press,
        !(k.ctrl && k.code == KeyCode::Char('c')),
    ensures
        a.mode == Mode::ThemeSelect ==> key_action_spec(a, k) == Action::ThemeKey(k.code, k.ctrl),
        a.mode == Mode::ChannelEdit ==> key_action_spec(a, k) == Action::ChannelKey(k.code),
{
}

/// The keys of the Installed tab: `j`/`k` and the arrows move, `d` or
/// Delete removes, `m` moves the package under the cursor, `M` moves all
/// movable packages, `h`/`l` change tabs, Esc quits.
pub proof fn law_installed_keys(a: App, k: Key)
    requires
        k.press,
        !k.ctrl,
        a.mode == Mode::Browsing,
        a.tab == Tab::Installed,
    ensures
        k.code == KeyCode::Char('M') ==> key_action_spec(a, k) == Action::MigrateAll,
        k.code == KeyCode::Char('m') ==> key_action_spec(a, k) == Action::MigrateSelected,
        (k.code == KeyCode::Char('d') || k.code == KeyCode::Delete) ==> key_action_spec(a, k)
            == Action::Uninstall,
        (k.code == KeyCode::Char('j') || k.code == KeyCode::Down) ==> key_action_spec(a, k)
            == Action::MoveInstalledSelection(1i32),
        (k.code == KeyCode::Char('k') || k.code == KeyCode::Up) ==> key_action_spec(a, k)
            == Action::MoveInstalledSelection(-1i32),
        k.code == KeyCode::Char('l') ==> key_action_spec(a, k) == Action::CycleTab,
        k.code == KeyCode::Char('h') ==> key_action_spec(a, k) == Action::CycleTabBack,
        k.code == KeyCode::Esc ==> key_action_spec(a, k) == Action::Quit,
{
}

/// The keys of the Search tab in normal mode: `j`/`k` and the arrows move,
/// Enter installs, `i`, `a` or `/` start typing, `h`/`l` change tabs, Esc
/// quits.
pub proof fn law_search_normal_keys(a: App, k: Key)
    requires
        k.press,
        !k.ctrl,
        a.mode == Mode::Browsing,
        a.tab == Tab::Search,
        a.search_input_mode == SearchInputMode::Normal,
    ensures
        (k.code == KeyCode::Char('j') || k.code == KeyCode::Down) ==> key_action_spec(a, k)
            == Action::MoveSelection(1i32),
        (k.code == KeyCode::Char('k') || k.code == KeyCode::Up) ==> key_action_spec(a, k)
            == Action::MoveSelection(-1i32),
        k.code == KeyCode::Enter ==> key_action_spec(a, k) == Action::Install,
        (k.code == KeyCode::Char('i') || k.code == KeyCode::Char('a') || k.code == KeyCode::Char(
            '/',
        )) ==> key_action_spec(a, k) == Action::EnterInsert,
        k.code == KeyCode::Char('l') ==> key_action_spec(a, k) == Action::CycleTab,
        k.code == KeyCode::Char('h') ==> key_action_spec(a, k) == Action::CycleTabBack,
        k.code == KeyCode::Esc ==> key_action_spec(a, k) == Action::Quit,
{
}

/// The keys of the Search tab while typing: the arrows move, Enter
/// installs, Esc stops typing, and a character key makes its edit.
pub proof fn law_search_insert_keys(a: App, k: Key)
    requires
        k.press,
        !k.ctrl,
        a.mode == Mode::Browsing,
        a.tab == Tab::Search,
        a.search_input_mode == SearchInputMode::Insert,
    ensures
        k.code == KeyCode::Down ==> key_action_spec(a, k) == Action::MoveSelection(1i32),
        k.code == KeyCode::Up ==> key_action_spec(a, k) == Action::MoveSelection(-1i32),
        k.code == KeyCode::Enter ==> key_action_spec(a, k) == Action::Install,
        k.code == KeyCode::Esc ==> key_action_spec(a, k) == Action::LeaveInsert,
        forall|c: char, r: EditRequest|
            k.code == KeyCode::Char(c) && k.edit == Some(r) ==> key_action_spec(a, k)
                == Action::Edit(r),
{
}

/// On the Building and Queue tabs `h`/`l` change tabs and Esc quits.
pub proof fn law_other_tab_keys(a: App, k: Key)
    requires
        k.press,
        !k.ctrl,
        a.mode == Mode::Browsing,
        a.tab == Tab::Building || a.tab == Tab::Queue,
    ensures
        k.code == KeyCode::Char('l') ==> key_action_spec(a, k) == Action::CycleTab,
        k.code == KeyCode::Char('h') ==> key_action_spec(a, k) == Action::CycleTabBack,
        k.code == KeyCode::Esc ==> key_action_spec(a, k) == Action::Quit,
{
}

/// `M` on the Installed tab queues the moves of every movable external
/// package, one move per target, when there are any and no rebuild runs
/// it starts them.
pub proof fn law_migrate_all_key(a: App, b: App, k: Key, c: Command)
    requires
        app_wf(a),
        k.press,
        !k.ctrl,
        k.code == KeyCode::Char('M'),
        a.mode == Mode::Browsing,
        a.tab == Tab::Installed,
        action_done(a, b, key_action_spec(a, k), c),
        migratable_names(a.external_packages@, Target::HomeManager).len() + migratable_names(
            a.external_packages@,
            Target::NixosSystem,
        ).len() > 0,
    ensures
        b.queue@.len() >= a.queue@.len(),
        b.queue@.take(a.queue@.len() as int) == a.queue@,
        are_planned_migrations(b.queue@.skip(a.queue@.len() as int), a.external_packages@),
        !a.build_in_progress ==> c is RunQueue,
{
    let added = b.queue@.skip(a.queue@.len() as int);
    assert(b.queue@ == a.queue@ + added);
    assert(b.queue@.take(a.queue@.len() as int) =~= a.queue@);
}


/// The queue holds a removal of `name` from `scope` exactly when one of its
/// queued removals is for that name and that target.
pub proof fn law_queued_uninstall_is_same(q: Seq<QueuedOp>, name: Seq<char>, scope: Target)
    ensures
        queued_uninstall(q, name, scope) <==> exists|i: int|
            0 <= i < q.len() && match #[trigger] q[i] {
                QueuedOp::Uninstall { name: n, scope: s } => n@ == name && s == scope,
                _ => false,
            },
{
    if queued_uninstall(q, name, scope) {
        let i = choose|i: int|
            0 <= i < q.len() && (#[trigger] q[i] matches QueuedOp::Uninstall { name: n, scope: s }
                && n@ == name && s == scope);
        assert(match q[i] {
            QueuedOp::Uninstall { name: n, scope: s } => n@ == name && s == scope,
            _ => false,
        });
    }
}

/// The queue holds a move of `name` exactly when one of its queued moves
/// lists that name.
pub proof fn law_queued_migration_is_same(q: Seq<QueuedOp>, name: Seq<char>)
    ensures
        queued_migration(q, name) <==> exists|i: int|
            0 <= i < q.len() && match #[trigger] q[i] {
                QueuedOp::Migrate { names, .. } => exists|j: int|
                    0 <= j < names@.len() && #[trigger] names@[j]@ == name,
                _ => false,
            },
{
    assert forall|i: int| 0 <= i < q.len() implies (match #[trigger] q[i] {
        QueuedOp::Migrate { names, .. } => exists|j: int|
            0 <= j < names@.len() && #[trigger] names@[j]@ == name,
        _ => false,
    }) == (q[i] matches QueuedOp::Migrate { names, .. } && texts(names@).contains(name)) by {
        match q[i] {
            QueuedOp::Migrate { names, .. } => {
                if texts(names@).contains(name) {
                    let j = choose|j: int| 0 <= j < texts(names@).len() && texts(names@)[j] == name;
                    assert(names@[j]@ == name);
                }
                if exists|j: int| 0 <= j < names@.len() && #[trigger] names@[j]@ == name {
                    let j = choose|j: int| 0 <= j < names@.len() && #[trigger] names@[j]@ == name;
                    assert(texts(names@)[j] == name);
                }
            },
            _ => {},
        }
    }
}

/// The tabs on show: Search, then Installed, always; Building while a
/// rebuild runs or its log is kept; Queue while operations wait; nothing
/// twice.
pub proof fn law_visible_tabs(a: App)
    ensures
        visible_tabs_spec(a)[0] == Tab::Search,
        visible_tabs_spec(a)[1] == Tab::Installed,
        visible_tabs_spec(a).contains(Tab::Building) <==> (a.build_in_progress || a.log@.len()
            > 0),
        visible_tabs_spec(a).contains(Tab::Queue) <==> a.queue@.len() > 0,
        visible_tabs_spec(a).no_duplicates(),
{
    let t = visible_tabs_spec(a);
    if t.contains(Tab::Building) {
        let i = choose|i: int| 0 <= i < t.len() && t[i] == Tab::Building;
    }
    if a.build_in_progress || a.log@.len() > 0 {
        assert(t[2] == Tab::Building);
    }
    if t.contains(Tab::Queue) {
        let i = choose|i: int| 0 <= i < t.len() && t[i] == Tab::Queue;
    }
    if a.queue@.len() > 0 {
        assert(t[t.len() - 1] == Tab::Queue);
    }
}

} // verus!
