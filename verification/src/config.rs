use vstd::prelude::*;

use crate::text::{chars_of, push_str, strip_trailing, string_of_range, trim, trim_range};

verus! {

/// Where installed packages go: the user's home-manager configuration or the
/// NixOS system configuration.
#[derive(PartialEq, Eq, Structural, Clone, Copy, Debug)]
pub enum Target {
    HomeManager,
    NixosSystem,
}

/// The name of a target as shown to the user.
pub open spec fn target_label(t: Target) -> Seq<char> {
    match t {
        Target::HomeManager => "home-manager"@,
        Target::NixosSystem => "nixos"@,
    }
}

/// The short scope tag of a target.
pub open spec fn target_tag(t: Target) -> Seq<char> {
    match t {
        Target::HomeManager => "hm"@,
        Target::NixosSystem => "nixos"@,
    }
}

/// The target other than `t`.
pub open spec fn other_target(t: Target) -> Target {
    match t {
        Target::HomeManager => Target::NixosSystem,
        Target::NixosSystem => Target::HomeManager,
    }
}

impl Target {
    pub fn label(self) -> (s: &'static str)
        ensures
            s@ == target_label(self),
    {
        match self {
            Target::HomeManager => "home-manager",
            Target::NixosSystem => "nixos",
        }
    }

    /// Short scope tag for compact display in the TUI.
    pub fn tag(self) -> (s: &'static str)
        ensures
            s@ == target_tag(self),
    {
        match self {
            Target::HomeManager => "hm",
            Target::NixosSystem => "nixos",
        }
    }

    /// The other target.
    pub fn toggled(self) -> (t: Target)
        ensures
            t == other_target(self),
            t != self,
    {
        match self {
            Target::HomeManager => Target::NixosSystem,
            Target::NixosSystem => Target::HomeManager,
        }
    }
}

/// How many recent searches are remembered.
pub const MAX_RECENT_SEARCHES: usize = 20;

/// The user's persisted settings.
pub struct Config {
    pub channel: String,
    pub target: Target,
    pub theme: String,
    pub recent_searches: Vec<String>,
    /// Override for the user's main home-manager config (defaults to
    /// `<config dir>/home.nix`). Scanned for externally-declared packages.
    pub home_manager_main_file: Option<String>,
    /// Override for the user's main NixOS config (defaults to a local
    /// `configuration.nix` if present, else `/etc/nixos/configuration.nix`).
    pub nixos_main_file: Option<String>,
}

/// The theme used when the settings name none.
pub fn default_theme() -> (s: String)
    ensures
        s@ == "default"@,
{
    String::from_str("default")
}

impl Default for Config {
    fn default() -> (c: Config)
        ensures
            c.channel@ == "nixpkgs"@,
            c.target == Target::NixosSystem,
            c.theme@ == "default"@,
            c.recent_searches@.len() == 0,
            c.home_manager_main_file.is_none(),
            c.nixos_main_file.is_none(),
    {
        Config {
            channel: String::from_str("nixpkgs"),
            target: Target::NixosSystem,
            theme: default_theme(),
            recent_searches: Vec::new(),
            home_manager_main_file: None,
            nixos_main_file: None,
        }
    }
}

/// The texts of a list of strings.
pub open spec fn texts(v: Seq<String>) -> Seq<Seq<char>> {
    v.map_values(|s: String| s@)
}

/// The recent-search list after searching for `q`: the trimmed query first,
/// then the earlier entries other than it, at most `MAX_RECENT_SEARCHES` in
/// all. A query that is blank once trimmed leaves the list alone.
pub open spec fn pushed_recent(old: Seq<Seq<char>>, q: Seq<char>) -> Seq<Seq<char>> {
    let t = trim(q);
    if t.len() == 0 {
        old
    } else {
        let s = seq![t] + old.filter(|x: Seq<char>| x != t);
        if s.len() > MAX_RECENT_SEARCHES {
            s.take(MAX_RECENT_SEARCHES as int)
        } else {
            s
        }
    }
}

impl Config {
    /// Pushes a query to the front of recent_searches, dedups, caps the list.
    pub fn push_recent(&mut self, query: String)
        ensures
            texts(final(self).recent_searches@) == pushed_recent(
                texts(old(self).recent_searches@),
                query@,
            ),
            final(self).channel == old(self).channel,
            final(self).target == old(self).target,
            final(self).theme == old(self).theme,
            final(self).home_manager_main_file == old(self).home_manager_main_file,
            final(self).nixos_main_file == old(self).nixos_main_file,
    {
        let v = chars_of(query.as_str());
        let (a, b) = trim_range(&v, 0, v.len());
        assert(v@.subrange(0, v@.len() as int) =~= v@);
        if a == b {
            return;
        }
        let trimmed = string_of_range(&v, a, b);
        let ghost t = trimmed@;
        let ghost olds = texts(self.recent_searches@);
        let ghost pred = |x: Seq<char>| x != t;
        let mut kept: Vec<String> = Vec::new();
        kept.push(trimmed.clone());
        let mut i: usize = 0;
        let n = self.recent_searches.len();
        assert(olds.take(0).filter(pred) =~= Seq::<Seq<char>>::empty()) by {
            reveal(Seq::filter);
        }
        assert(texts(kept@) =~= seq![t] + olds.take(0).filter(pred));
        while i < n
            invariant
                n == self.recent_searches.len(),
                olds == texts(self.recent_searches@),
                i <= n,
                trimmed@ == t,
                pred == (|x: Seq<char>| x != t),
                texts(kept@) == seq![t] + olds.take(i as int).filter(pred),
            decreases n - i,
        {
            let q = &self.recent_searches[i];
            assert(olds.take(i + 1).drop_last() =~= olds.take(i as int));
            assert(olds.take(i + 1).last() == q@);
            let same = *q == trimmed;
            assert(same == (q@ == t));
            assert(pred(q@) == !same);
            let ghost prev = texts(kept@);
            let ghost sub = olds.take(i as int).filter(pred);
            assert(olds.take(i + 1).filter(pred) == if pred(q@) {
                sub.push(q@)
            } else {
                sub
            }) by {
                reveal(Seq::filter);
            }
            if !same {
                let c = q.clone();
                kept.push(c);
                assert(texts(kept@) =~= prev.push(q@));
                assert(texts(kept@) =~= seq![t] + olds.take(i + 1).filter(pred));
            } else {
                assert(texts(kept@) =~= seq![t] + olds.take(i + 1).filter(pred)) by {
                    reveal(Seq::filter);
                }
            }
            i = i + 1;
        }
        assert(olds.take(n as int) =~= olds);
        if kept.len() > MAX_RECENT_SEARCHES {
            kept.truncate(MAX_RECENT_SEARCHES);
            assert(texts(kept@) =~= (seq![t] + olds.filter(pred)).take(MAX_RECENT_SEARCHES as int));
        }
        self.recent_searches = kept;
    }
}

proof fn lemma_filter_all<A>(s: Seq<A>, pred: spec_fn(A) -> bool)
    requires
        forall|i: int| 0 <= i < s.len() ==> pred(#[trigger] s[i]),
    ensures
        s.filter(pred) == s,
    decreases s.len(),
{
    reveal(Seq::filter);
    if s.len() > 0 {
        let f = s.drop_last();
        assert forall|i: int| 0 <= i < f.len() implies pred(#[trigger] f[i]) by {
            assert(f[i] == s[i]);
        }
        lemma_filter_all(f, pred);
        assert(pred(s[s.len() - 1]));
        assert(f.push(s.last()) =~= s);
    }
}

proof fn lemma_filter_no_dup<A>(s: Seq<A>, pred: spec_fn(A) -> bool)
    requires
        s.no_duplicates(),
    ensures
        s.filter(pred).no_duplicates(),
        forall|x: A| s.filter(pred).contains(x) ==> s.contains(x) && pred(x),
    decreases s.len(),
{
    reveal(Seq::filter);
    if s.len() > 0 {
        let f = s.drop_last();
        assert(f.no_duplicates()) by {
            assert forall|i: int, j: int| 0 <= i < f.len() && 0 <= j < f.len() && i != j implies f[i]
                != f[j] by {
                assert(f[i] == s[i] && f[j] == s[j]);
            }
        }
        lemma_filter_no_dup(f, pred);
        let ff = f.filter(pred);
        assert forall|x: A| s.filter(pred).contains(x) implies s.contains(x) && pred(x) by {
            if ff.contains(x) {
                assert(f.contains(x));
                let k = choose|k: int| 0 <= k < f.len() && f[k] == x;
                assert(s[k] == f[k]);
            } else {
                assert(pred(s.last()));
                assert(ff.push(s.last()).contains(x));
                let k = choose|k: int| 0 <= k < ff.len() + 1 && ff.push(s.last())[k] == x;
                if k < ff.len() {
                    assert(ff.contains(x));
                }
                assert(x == s.last());
                assert(s[s.len() - 1] == x);
            }
        }
        if pred(s.last()) {
            assert(!ff.contains(s.last())) by {
                if ff.contains(s.last()) {
                    assert(f.contains(s.last()));
                    let k = choose|k: int| 0 <= k < f.len() && f[k] == s.last();
                    assert(s[k] == f[k]);
                    assert(s[k] == s[s.len() - 1]);
                }
            }
            let r = ff.push(s.last());
            assert forall|i: int, j: int| 0 <= i < r.len() && 0 <= j < r.len() && i != j implies r[i]
                != r[j] by {
                if i < ff.len() && j < ff.len() {
                } else if i < ff.len() {
                    assert(ff.contains(r[i]));
                } else {
                    assert(ff.contains(r[j]));
                }
            }
        }
    }
}

/// After a non-blank query `t`, the list is `t` followed by the first
/// entries of the earlier list without `t`.
proof fn lemma_pushed_shape(old: Seq<Seq<char>>, q: Seq<char>)
    requires
        old.no_duplicates(),
        trim(q).len() > 0,
    ensures
        ({
            let t = trim(q);
            let s1 = pushed_recent(old, q);
            let g = s1.drop_first();
            &&& s1.len() >= 1
            &&& s1[0] == t
            &&& s1 == seq![t] + g
            &&& g == old.filter(|x: Seq<char>| x != t).take(s1.len() - 1)
            &&& g.no_duplicates()
            &&& forall|i: int| 0 <= i < g.len() ==> #[trigger] g[i] != t
            &&& s1.len() <= MAX_RECENT_SEARCHES
        }),
{
    let t = trim(q);
    let pred = |x: Seq<char>| x != t;
    let f = old.filter(pred);
    lemma_filter_no_dup(old, pred);
    let s1 = pushed_recent(old, q);
    let g = s1.drop_first();
    assert(g =~= f.take(s1.len() - 1));
    assert(s1 =~= seq![t] + g);
    assert forall|i: int| 0 <= i < g.len() implies #[trigger] g[i] != t by {
        assert(g[i] == f[i]);
        assert(f.contains(f[i]));
    }
    assert(g.no_duplicates()) by {
        assert forall|i: int, j: int| 0 <= i < g.len() && 0 <= j < g.len() && i != j implies g[i]
            != g[j] by {
            assert(g[i] == f[i] && g[j] == f[j]);
        }
    }
}

proof fn lemma_pushed_distinct(old: Seq<Seq<char>>, q: Seq<char>)
    requires
        old.no_duplicates(),
    ensures
        pushed_recent(old, q).no_duplicates(),
{
    if trim(q).len() > 0 {
        lemma_pushed_shape(old, q);
        let s1 = pushed_recent(old, q);
        let g = s1.drop_first();
        assert forall|i: int, j: int| 0 <= i < s1.len() && 0 <= j < s1.len() && i != j implies s1[i]
            != s1[j] by {
            if i > 0 && j > 0 {
                assert(s1[i] == g[i - 1] && s1[j] == g[j - 1]);
            } else if i == 0 {
                assert(s1[j] == g[j - 1]);
            } else {
                assert(s1[i] == g[i - 1]);
            }
        }
    }
}

proof fn lemma_pushed_again(old: Seq<Seq<char>>, q: Seq<char>)
    requires
        old.no_duplicates(),
    ensures
        pushed_recent(pushed_recent(old, q), q) == pushed_recent(old, q),
{
    let t = trim(q);
    if t.len() > 0 {
        let pred = |x: Seq<char>| x != t;
        lemma_pushed_shape(old, q);
        let s1 = pushed_recent(old, q);
        let g = s1.drop_first();
        assert forall|i: int| 0 <= i < g.len() implies pred(#[trigger] g[i]) by {}
        lemma_filter_all(g, pred);
        Seq::filter_distributes_over_add(seq![t], g, pred);
        assert(seq![t].filter(pred) =~= Seq::<Seq<char>>::empty()) by {
            reveal_with_fuel(Seq::filter, 2);
            assert(seq![t].drop_last() =~= Seq::<Seq<char>>::empty());
            assert(!pred(seq![t].last()));
        }
        assert(Seq::<Seq<char>>::empty() + g =~= g);
        assert(s1.filter(pred) == g);
        assert(seq![t] + s1.filter(pred) =~= s1);
    }
}

/// Searching keeps the recent searches free of repeats and within the cap,
/// puts the trimmed query first, and keeps the earlier entries, other than
/// the query, in their order; searching for the same query again changes
/// nothing.
pub proof fn law_recent_searches(old: Seq<Seq<char>>, q: Seq<char>)
    requires
        old.no_duplicates(),
        old.len() <= MAX_RECENT_SEARCHES,
    ensures
        pushed_recent(old, q).no_duplicates(),
        pushed_recent(old, q).len() <= MAX_RECENT_SEARCHES,
        trim(q).len() > 0 ==> pushed_recent(old, q)[0] == trim(q),
        trim(q).len() > 0 ==> pushed_recent(old, q).drop_first() == old.filter(
            |x: Seq<char>| x != trim(q),
        ).take(pushed_recent(old, q).len() - 1),
        pushed_recent(pushed_recent(old, q), q) == pushed_recent(old, q),
{
    lemma_pushed_distinct(old, q);
    lemma_pushed_again(old, q);
    if trim(q).len() > 0 {
        lemma_pushed_shape(old, q);
    }
}

// ---------------------------------------------------------------------------
// Paths
// ---------------------------------------------------------------------------

/// `dir` joined with the relative path `name`, as `Path::join` does: a `/`
/// goes between them unless `dir` is empty or already ends in one.
pub open spec fn path_join(dir: Seq<char>, name: Seq<char>) -> Seq<char> {
    if dir.len() == 0 {
        name
    } else if dir.last() == '/' {
        dir + name
    } else {
        dir + seq!['/'] + name
    }
}

/// Joins `dir` and the relative path `name`.
pub fn join_path(dir: &str, name: &str) -> (p: String)
    ensures
        p@ == path_join(dir@, name@),
{
    let v = chars_of(dir);
    let mut out = String::from_str(dir);
    if v.len() > 0 && v[v.len() - 1] != '/' {
        push_str(&mut out, "/");
        proof {
            reveal_strlit("/");
        }
    }
    push_str(&mut out, name);
    assert(v.len() > 0 ==> v@[v.len() - 1] == dir@.last());
    assert(out@ =~= path_join(dir@, name@));
    out
}

/// The text of an optional string.
pub open spec fn opt_text(o: Option<String>) -> Option<Seq<char>> {
    match o {
        Some(s) => Some(s@),
        None => None,
    }
}

/// The directory where nixbox keeps its generated nix files: the override if
/// one is set, else `nixos` under the user's configuration directory, else
/// `.config/nixos` under the home directory.
pub open spec fn config_dir_spec(
    override_dir: Option<Seq<char>>,
    base_config: Option<Seq<char>>,
    home: Seq<char>,
) -> Seq<char> {
    match override_dir {
        Some(d) => d,
        None => match base_config {
            Some(b) => path_join(b, "nixos"@),
            None => path_join(home, ".config/nixos"@),
        },
    }
}

/// Picks the directory for generated nix files from what the environment
/// offers.
pub fn config_dir_from(override_dir: Option<String>, base_config: Option<String>, home: &str) -> (d:
    String)
    ensures
        d@ == config_dir_spec(
            opt_text(override_dir),
            opt_text(base_config),
            home@,
        ),
{
    match override_dir {
        Some(d) => d,
        None => match base_config {
            Some(b) => join_path(b.as_str(), "nixos"),
            None => join_path(home, ".config/nixos"),
        },
    }
}

/// `directories::BaseDirs::new()` followed by `config_dir()`: the user's
/// configuration directory, if one can be found. What it returns depends on
/// the platform and the environment, so nothing is stated of it.
#[verifier::external_body]
fn base_config_dir() -> (dir: Option<String>) {
    match directories::BaseDirs::new() {
        Some(base) => Some(base.config_dir().to_string_lossy().into_owned()),
        None => None,
    }
}

/// The directory where nixbox keeps its generated nix files, given the
/// `NIXBOX_CONFIG_DIR` override and the home directory.
pub fn nixos_config_dir(override_dir: Option<String>, home: &str) -> (d: String)
    ensures
        exists|base: Option<Seq<char>>|
            d@ == #[trigger] config_dir_spec(
                opt_text(override_dir),
                base,
                home@,
            ),
{
    let base = base_config_dir();
    let ghost b = opt_text(base);
    let ghost o = opt_text(override_dir);
    let d = config_dir_from(override_dir, base, home);
    assert(d@ == config_dir_spec(o, b, home@));
    d
}

/// The settings file under the user's configuration directory `base`:
/// `<base>/nixbox/settings.json`, or `None` when there is no such directory.
pub fn settings_path_in(base: Option<String>) -> (p: Option<String>)
    ensures
        base is None <==> p is None,
        base matches Some(b) ==> (p matches Some(s) && s@ == path_join(
            path_join(b@, "nixbox"@),
            "settings.json"@,
        )),
{
    match base {
        Some(b) => {
            let dir = join_path(b.as_str(), "nixbox");
            Some(join_path(dir.as_str(), "settings.json"))
        },
        None => None,
    }
}

/// Where the settings file lives, or `None` when the user's directories
/// cannot be found: `settings_path_in` of the configuration directory that
/// the platform reports.
pub fn settings_path() -> (p: Option<String>)
    ensures
        p matches Some(s) ==> exists|base: Seq<char>|
            s@ == path_join(path_join(base, "nixbox"@), "settings.json"@),
{
    settings_path_in(base_config_dir())
}

/// The managed packages file's name for a target.
pub open spec fn managed_file_name(t: Target) -> Seq<char> {
    match t {
        Target::HomeManager => "nixbox-home-packages.nix"@,
        Target::NixosSystem => "nixbox-system-packages.nix"@,
    }
}

/// The user's main config file for a target: the override if set; for
/// home-manager, else `home.nix` in the config directory; for NixOS, else
/// `configuration.nix` in the config directory when that file exists, and
/// `/etc/nixos/configuration.nix` when it does not.
pub open spec fn main_file_spec(
    c: Config,
    config_dir: Seq<char>,
    t: Target,
    local_exists: bool,
) -> Seq<char> {
    match t {
        Target::HomeManager => match c.home_manager_main_file {
            Some(p) => p@,
            None => path_join(config_dir, "home.nix"@),
        },
        Target::NixosSystem => match c.nixos_main_file {
            Some(p) => p@,
            None => if local_exists {
                path_join(config_dir, "configuration.nix"@)
            } else {
                "/etc/nixos/configuration.nix"@
            },
        },
    }
}

/// The `configuration.nix` in the config directory, whose existence decides
/// the default NixOS main file.
pub fn local_configuration(config_dir: &str) -> (p: String)
    ensures
        p@ == path_join(config_dir@, "configuration.nix"@),
{
    join_path(config_dir, "configuration.nix")
}

impl Config {
    /// Returns the path where nixbox writes its managed packages file for the
    /// current target.
    pub fn managed_file(&self, config_dir: &str) -> (p: String)
        ensures
            p@ == path_join(config_dir@, managed_file_name(self.target)),
    {
        self.managed_file_for(config_dir, self.target)
    }

    /// Returns the managed packages file for an arbitrary target.
    pub fn managed_file_for(&self, config_dir: &str, target: Target) -> (p: String)
        ensures
            p@ == path_join(config_dir@, managed_file_name(target)),
    {
        match target {
            Target::HomeManager => join_path(config_dir, "nixbox-home-packages.nix"),
            Target::NixosSystem => join_path(config_dir, "nixbox-system-packages.nix"),
        }
    }

    /// Returns the directory where nixbox keeps its generated nix files.
    pub fn home_manager_dir(&self, config_dir: &str) -> (p: String)
        ensures
            p@ == config_dir@,
    {
        String::from_str(config_dir)
    }

    /// Returns the user's main config file for the current target.
    pub fn main_file(&self, config_dir: &str, local_exists: bool) -> (p: String)
        ensures
            p@ == main_file_spec(*self, config_dir@, self.target, local_exists),
    {
        self.main_file_for(config_dir, self.target, local_exists)
    }

    /// Returns the user's main config file for an arbitrary target;
    /// `local_exists` tells whether `local_configuration(config_dir)` exists.
    pub fn main_file_for(&self, config_dir: &str, target: Target, local_exists: bool) -> (p: String)
        ensures
            p@ == main_file_spec(*self, config_dir@, target, local_exists),
    {
        match target {
            Target::HomeManager => match &self.home_manager_main_file {
                Some(p) => p.clone(),
                None => join_path(config_dir, "home.nix"),
            },
            Target::NixosSystem => match &self.nixos_main_file {
                Some(p) => p.clone(),
                None => {
                    if local_exists {
                        local_configuration(config_dir)
                    } else {
                        String::from_str("/etc/nixos/configuration.nix")
                    }
                },
            },
        }
    }
}


// ---------------------------------------------------------------------------
// Where the managed files stand
// ---------------------------------------------------------------------------

/// The position of the last `/` in `p`, if there is one.
pub open spec fn last_slash(p: Seq<char>) -> Option<int>
    decreases p.len(),
{
    if p.len() == 0 {
        None
    } else if p.last() == '/' {
        Some(p.len() - 1)
    } else {
        last_slash(p.drop_last())
    }
}

/// A directory path as `Path` compares it up to trailing slashes: without
/// them, and `/` for the root.
pub open spec fn dir_text(d: Seq<char>) -> Seq<char> {
    let t = strip_trailing(d, '/');
    if t.len() == 0 && d.len() > 0 {
        seq!['/']
    } else {
        t
    }
}

/// The parent directory of a path whose last component is a plain name, as
/// `Path::parent` gives it: what comes before the last `/`, up to trailing
/// slashes, and the empty path when there is no `/`.
pub open spec fn parent_dir(p: Seq<char>) -> Seq<char> {
    match last_slash(p) {
        None => Seq::<char>::empty(),
        Some(k) => dir_text(p.take(k + 1)),
    }
}

/// `name` is one plain path component: not empty, with no `/`.
pub open spec fn plain_component(name: Seq<char>) -> bool {
    name.len() > 0 && !name.contains('/')
}

proof fn lemma_last_slash_after_plain(q: Seq<char>, n: Seq<char>)
    requires
        !n.contains('/'),
    ensures
        last_slash(q + n) == last_slash(q),
    decreases n.len(),
{
    if n.len() == 0 {
        assert(q + n =~= q);
    } else {
        let m = n.drop_last();
        assert((q + n).drop_last() =~= q + m);
        assert((q + n).last() == n[n.len() - 1]);
        if m.contains('/') {
            let k = choose|k: int| 0 <= k < m.len() && m[k] == '/';
            assert(n[k] == '/');
        }
        lemma_last_slash_after_plain(q, m);
    }
}

/// A directory joined with one plain name has that directory as its
/// parent.
pub proof fn law_join_parent(dir: Seq<char>, name: Seq<char>)
    requires
        plain_component(name),
    ensures
        parent_dir(path_join(dir, name)) == dir_text(dir),
{
    if dir.len() == 0 {
        lemma_last_slash_after_plain(Seq::<char>::empty(), name);
        assert(Seq::<char>::empty() + name =~= name);
    } else if dir.last() == '/' {
        lemma_last_slash_after_plain(dir, name);
        assert((dir + name).take(dir.len() as int) =~= dir);
    } else {
        let d = dir + seq!['/'];
        lemma_last_slash_after_plain(d, name);
        assert((d + name).take(d.len() as int) =~= d);
        assert(d.drop_last() =~= dir);
        assert(strip_trailing(d, '/') == strip_trailing(dir, '/'));
    }
}

/// Each managed file stands directly in the directory of the generated nix
/// files: its parent is `home_manager_dir` (up to trailing slashes), for
/// either target.
pub proof fn law_managed_file_parent(config_dir: Seq<char>, t: Target)
    ensures
        parent_dir(path_join(config_dir, managed_file_name(t))) == dir_text(config_dir),
{
    reveal_strlit("nixbox-home-packages.nix");
    reveal_strlit("nixbox-system-packages.nix");
    let name = managed_file_name(t);
    assert(!name.contains('/')) by {
        if name.contains('/') {
            let k = choose|k: int| 0 <= k < name.len() && name[k] == '/';
            match t {
                Target::HomeManager => {
                    assert(name[k] != '/');
                },
                Target::NixosSystem => {
                    assert(name[k] != '/');
                },
            }
        }
    }
    law_join_parent(config_dir, name);
}

} // verus!
