use vstd::prelude::*;

use crate::order::{
    lemma_sorted_unique, lemma_text_lt_irreflexive, lemma_text_lt_transitive, place_text,
    strictly_sorted, text_lt, Placement,
};
use crate::text::{
    chars_of, is_ws, lemma_split_lines_append_line, lemma_split_lines_nonempty, push_str, range_starts_with, split_lines,
    starts_with, string_of_range, strip_trailing, trim, trim_range,
};

verus! {

/// The set of package names that nixbox manages for one target.
///
/// The names are kept in strictly increasing `text_lt` order, which is the
/// order in which they are written out.
pub struct Manifest {
    pub packages: Vec<String>,
}

impl Manifest {
    /// The package names, in stored order.
    pub open spec fn names(&self) -> Seq<Seq<char>> {
        self.packages@.map_values(|p: String| p@)
    }

    /// Names are sorted and free of repeats.
    pub open spec fn wf(&self) -> bool {
        strictly_sorted(self.names())
    }

    /// The set of package names.
    pub open spec fn contents(&self) -> Set<Seq<char>> {
        self.names().to_set()
    }

    /// An empty manifest.
    pub fn new() -> (m: Manifest)
        ensures
            m.wf(),
            m.names() == Seq::<Seq<char>>::empty(),
    {
        let m = Manifest { packages: Vec::new() };
        assert(m.names() =~= Seq::<Seq<char>>::empty());
        m
    }

    /// The position at which `p` stands or would stand.
    fn locate(&self, p: &Vec<char>) -> (r: (usize, bool))
        requires
            self.wf(),
        ensures
            r.0 <= self.names().len(),
            forall|k: int| 0 <= k < r.0 ==> text_lt(#[trigger] self.names()[k], p@),
            r.1 ==> r.0 < self.names().len() && self.names()[r.0 as int] == p@,
            !r.1 && r.0 < self.names().len() ==> text_lt(p@, self.names()[r.0 as int]),
    {
        let mut i: usize = 0;
        while i < self.packages.len()
            invariant
                self.wf(),
                i <= self.packages.len(),
                self.names().len() == self.packages.len(),
                forall|k: int| 0 <= k < i ==> text_lt(#[trigger] self.names()[k], p@),
            decreases self.packages.len() - i,
        {
            let q = chars_of(self.packages[i].as_str());
            assert(q@ == self.names()[i as int]);
            match place_text(&q, p) {
                Placement::Before => {
                    i = i + 1;
                },
                Placement::Same => {
                    return (i, true);
                },
                Placement::After => {
                    return (i, false);
                },
            }
        }
        (i, false)
    }

    /// Whether `pname` is in the manifest.
    pub fn contains(&self, pname: &str) -> (b: bool)
        requires
            self.wf(),
        ensures
            b == self.contents().contains(pname@),
    {
        let p = chars_of(pname);
        let (i, exact) = self.locate(&p);
        if !exact {
            proof {
                self.lemma_absent(p@, i as int);
            }
        }
        exact
    }

    proof fn lemma_absent(&self, p: Seq<char>, i: int)
        requires
            self.wf(),
            0 <= i <= self.names().len(),
            forall|k: int| 0 <= k < i ==> text_lt(#[trigger] self.names()[k], p),
            i < self.names().len() ==> text_lt(p, self.names()[i]),
        ensures
            !self.contents().contains(p),
    {
        if self.contents().contains(p) {
            let k = choose|k: int| 0 <= k < self.names().len() && self.names()[k] == p;
            if k < i {
                lemma_text_lt_irreflexive(p);
            } else if k == i {
                lemma_text_lt_irreflexive(p);
            } else {
                assert(text_lt(self.names()[i], self.names()[k]));
                lemma_text_lt_transitive(p, self.names()[i], p);
                lemma_text_lt_irreflexive(p);
            }
        }
    }

    /// Adds `pname`; returns whether it was not there before.
    pub fn add(&mut self, pname: &str) -> (added: bool)
        requires
            old(self).wf(),
        ensures
            final(self).wf(),
            final(self).contents() == old(self).contents().insert(pname@),
            added == !old(self).contents().contains(pname@),
            final(self).packages@.len() == old(self).packages@.len() + if added {
                1int
            } else {
                0int
            },
    {
        let p = chars_of(pname);
        let (i, exact) = self.locate(&p);
        if exact {
            assert(old(self).contents().insert(pname@) =~= old(self).contents());
            return false;
        }
        proof {
            self.lemma_absent(p@, i as int);
        }
        let ghost old_names = self.names();
        let entry = String::from_str(pname);
        self.packages.insert(i, entry);
        let ghost new_names = self.names();
        assert(new_names =~= old_names.insert(i as int, p@));
        assert(strictly_sorted(new_names)) by {
            assert forall|x: int, y: int| 0 <= x < y < new_names.len() implies text_lt(
                #[trigger] new_names[x],
                #[trigger] new_names[y],
            ) by {
                if y < i {
                    assert(new_names[x] == old_names[x] && new_names[y] == old_names[y]);
                } else if y == i {
                    assert(new_names[x] == old_names[x]);
                } else if x < i {
                    assert(new_names[y] == old_names[y - 1]);
                    assert(text_lt(old_names[x], p@));
                    if y - 1 == i as int {
                        lemma_text_lt_transitive(old_names[x], p@, old_names[y - 1]);
                    } else {
                        assert(text_lt(old_names[i as int], old_names[y - 1]));
                        lemma_text_lt_transitive(p@, old_names[i as int], old_names[y - 1]);
                        lemma_text_lt_transitive(old_names[x], p@, old_names[y - 1]);
                    }
                } else if x == i {
                    assert(new_names[y] == old_names[y - 1]);
                    if y - 1 > i {
                        assert(text_lt(old_names[i as int], old_names[y - 1]));
                        lemma_text_lt_transitive(p@, old_names[i as int], old_names[y - 1]);
                    }
                } else {
                    assert(new_names[x] == old_names[x - 1] && new_names[y] == old_names[y - 1]);
                }
            }
        }
        assert(new_names.to_set() =~= old_names.to_set().insert(p@)) by {
            assert forall|n: Seq<char>| new_names.to_set().contains(n) implies old_names.to_set().insert(
                p@,
            ).contains(n) by {
                let k = choose|k: int| 0 <= k < new_names.len() && new_names[k] == n;
                if k < i {
                    assert(old_names[k] == n);
                } else if k > i {
                    assert(old_names[k - 1] == n);
                }
            }
            assert forall|n: Seq<char>| old_names.to_set().insert(p@).contains(n) implies new_names.to_set().contains(
                n,
            ) by {
                if n == p@ {
                    assert(new_names[i as int] == n);
                } else {
                    let k = choose|k: int| 0 <= k < old_names.len() && old_names[k] == n;
                    if k < i {
                        assert(new_names[k] == n);
                    } else {
                        assert(new_names[k + 1] == n);
                    }
                }
            }
        }
        true
    }

    /// Removes `pname`; returns whether it was there.
    pub fn remove(&mut self, pname: &str) -> (removed: bool)
        requires
            old(self).wf(),
        ensures
            final(self).wf(),
            final(self).contents() == old(self).contents().remove(pname@),
            removed == old(self).contents().contains(pname@),
            final(self).packages@.len() == old(self).packages@.len() - if removed {
                1int
            } else {
                0int
            },
    {
        let p = chars_of(pname);
        let (i, exact) = self.locate(&p);
        if !exact {
            proof {
                self.lemma_absent(p@, i as int);
            }
            assert(old(self).contents().remove(pname@) =~= old(self).contents());
            return false;
        }
        let ghost old_names = self.names();
        self.packages.remove(i);
        let ghost new_names = self.names();
        assert(new_names =~= old_names.remove(i as int));
        assert(strictly_sorted(new_names)) by {
            assert forall|x: int, y: int| 0 <= x < y < new_names.len() implies text_lt(
                #[trigger] new_names[x],
                #[trigger] new_names[y],
            ) by {
                let x0 = if x < i { x } else { x + 1 };
                let y0 = if y < i { y } else { y + 1 };
                assert(new_names[x] == old_names[x0] && new_names[y] == old_names[y0]);
            }
        }
        assert(new_names.to_set() =~= old_names.to_set().remove(p@)) by {
            assert forall|n: Seq<char>| new_names.to_set().contains(n) implies old_names.to_set().remove(
                p@,
            ).contains(n) by {
                let k = choose|k: int| 0 <= k < new_names.len() && new_names[k] == n;
                let k0 = if k < i { k } else { k + 1 };
                assert(old_names[k0] == n);
                if n == p@ {
                    if k0 < i {
                        assert(text_lt(old_names[k0], old_names[i as int]));
                    } else {
                        assert(text_lt(old_names[i as int], old_names[k0]));
                    }
                    lemma_text_lt_irreflexive(p@);
                }
            }
            assert forall|n: Seq<char>| old_names.to_set().remove(p@).contains(n) implies new_names.to_set().contains(
                n,
            ) by {
                let k = choose|k: int| 0 <= k < old_names.len() && old_names[k] == n;
                if k < i {
                    assert(new_names[k] == n);
                } else {
                    assert(k != i);
                    assert(new_names[k - 1] == n);
                }
            }
        }
        true
    }
}

impl Default for Manifest {
    fn default() -> (m: Manifest)
        ensures
            m.wf(),
            m.names() == Seq::<Seq<char>>::empty(),
    {
        Manifest::new()
    }
}


/// A file to be written: where, and with what text.
pub struct FileWrite {
    pub path: String,
    pub content: String,
}

/// The managed packages file of one target.
pub struct ManagedFile {
    path: String,
}

impl ManagedFile {
    pub closed spec fn path_spec(&self) -> Seq<char> {
        self.path@
    }

    pub fn new(path: String) -> (f: ManagedFile)
        ensures
            f.path_spec() == path@,
    {
        ManagedFile { path }
    }

    pub fn path(&self) -> (p: &str)
        ensures
            p@ == self.path_spec(),
    {
        self.path.as_str()
    }

    /// The write that stores `manifest` as a home-manager module.
    pub fn write_home_manager(&self, manifest: &Manifest) -> (w: FileWrite)
        ensures
            w.path@ == self.path_spec(),
            w.content@ == rendered_home_manager(manifest.names()),
    {
        FileWrite { path: self.path.clone(), content: render_home_manager(manifest) }
    }

    /// The write that stores `manifest` as a NixOS module.
    pub fn write_nixos(&self, manifest: &Manifest) -> (w: FileWrite)
        ensures
            w.path@ == self.path_spec(),
            w.content@ == rendered_nixos(manifest.names()),
    {
        FileWrite { path: self.path.clone(), content: render_nixos(manifest) }
    }
}

// ---------------------------------------------------------------------------
// Reading the managed file
// ---------------------------------------------------------------------------

/// The comment line that opens the block of packages nixbox owns.
pub open spec fn start_marker() -> Seq<char> {
    "# nixbox:packages:start"@
}

/// The comment line that closes the block of packages nixbox owns.
pub open spec fn end_marker() -> Seq<char> {
    "# nixbox:packages:end"@
}

/// What every package entry starts with.
pub open spec fn pkgs_prefix() -> Seq<char> {
    "pkgs."@
}

/// The effect of one line on the reading state: whether the reader is inside
/// the managed block, and the names found so far.
pub open spec fn line_step(state: (bool, Set<Seq<char>>), line: Seq<char>) -> (
    bool,
    Set<Seq<char>>,
) {
    let t = trim(line);
    let token = strip_trailing(t, ';');
    if starts_with(t, start_marker()) {
        (true, state.1)
    } else if starts_with(t, end_marker()) {
        (false, state.1)
    } else if state.0 && t.len() > 0 && t[0] != '#' && starts_with(token, pkgs_prefix()) {
        (true, state.1.insert(token.skip(pkgs_prefix().len() as int)))
    } else {
        state
    }
}

/// The reading state after `lines`, one after another, from `state`.
pub open spec fn fold_lines(state: (bool, Set<Seq<char>>), lines: Seq<Seq<char>>) -> (
    bool,
    Set<Seq<char>>,
)
    decreases lines.len(),
{
    if lines.len() == 0 {
        state
    } else {
        line_step(fold_lines(state, lines.drop_last()), lines.last())
    }
}

/// The package names that a managed file's text declares: every `pkgs.<name>`
/// entry (with trailing `;` dropped) between the start and end markers.
pub open spec fn parsed_packages(raw: Seq<char>) -> Set<Seq<char>> {
    fold_lines((false, Set::<Seq<char>>::empty()), split_lines(raw)).1
}

/// The end of `v[lo..hi]` without its trailing `c` characters.
fn strip_trailing_to(v: &Vec<char>, lo: usize, hi: usize, c: char) -> (b: usize)
    requires
        lo <= hi <= v.len(),
    ensures
        lo <= b <= hi,
        v@.subrange(lo as int, b as int) == strip_trailing(v@.subrange(lo as int, hi as int), c),
{
    let mut b = hi;
    while b > lo && v[b - 1] == c
        invariant
            lo <= b <= hi <= v.len(),
            strip_trailing(v@.subrange(lo as int, hi as int), c) == strip_trailing(
                v@.subrange(lo as int, b as int),
                c,
            ),
        decreases b - lo,
    {
        assert(v@.subrange(lo as int, b as int).drop_last() =~= v@.subrange(
            lo as int,
            b - 1,
        ));
        b = b - 1;
    }
    b
}

/// Applies one line, `v[lo..hi]`, to the reading state.
fn read_line(
    v: &Vec<char>,
    lo: usize,
    hi: usize,
    in_block: bool,
    m: &mut Manifest,
    start: &Vec<char>,
    end: &Vec<char>,
    prefix: &Vec<char>,
) -> (next: bool)
    requires
        lo <= hi <= v.len(),
        old(m).wf(),
        start@ == start_marker(),
        end@ == end_marker(),
        prefix@ == pkgs_prefix(),
    ensures
        final(m).wf(),
        (next, final(m).contents()) == line_step(
            (in_block, old(m).contents()),
            v@.subrange(lo as int, hi as int),
        ),
{
    let (a, b) = trim_range(v, lo, hi);
    let ghost t = v@.subrange(a as int, b as int);
    if range_starts_with(v, a, b, start) {
        return true;
    }
    if range_starts_with(v, a, b, end) {
        return false;
    }
    if in_block && b > a && v[a] != '#' {
        let c = strip_trailing_to(v, a, b, ';');
        assert(t[0] == v@[a as int]);
        if range_starts_with(v, a, c, prefix) {
            let name = string_of_range(v, a + prefix.len(), c);
            assert(name@ =~= v@.subrange(a as int, c as int).skip(prefix@.len() as int));
            m.add(name.as_str());
            return true;
        }
    }
    in_block
}

/// The manifest that a managed file's text declares.
pub fn parse(raw: &str) -> (m: Manifest)
    ensures
        m.wf(),
        m.contents() == parsed_packages(raw@),
{
    let v = chars_of(raw);
    let start = chars_of("# nixbox:packages:start");
    let end = chars_of("# nixbox:packages:end");
    let prefix = chars_of("pkgs.");
    let mut m = Manifest::new();
    let mut in_block = false;
    let mut line_start: usize = 0;
    let mut i: usize = 0;
    proof {
        lemma_split_lines_nonempty(v@.take(0));
        assert(v@.take(0) =~= Seq::<char>::empty());
        assert(split_lines(v@.take(0)).drop_last() =~= Seq::<Seq<char>>::empty());
        assert(m.contents() =~= Set::<Seq<char>>::empty());
    }
    while i < v.len()
        invariant
            v@ == raw@,
            start@ == start_marker(),
            end@ == end_marker(),
            prefix@ == pkgs_prefix(),
            line_start <= i <= v.len(),
            m.wf(),
            split_lines(v@.take(i as int)).len() >= 1,
            split_lines(v@.take(i as int)).last() == v@.subrange(line_start as int, i as int),
            (in_block, m.contents()) == fold_lines(
                (false, Set::<Seq<char>>::empty()),
                split_lines(v@.take(i as int)).drop_last(),
            ),
        decreases v.len() - i,
    {
        let ghost before = split_lines(v@.take(i as int));
        assert(v@.take(i + 1).drop_last() =~= v@.take(i as int));
        assert(v@.take(i + 1).last() == v@[i as int]);
        if v[i] == '\n' {
            in_block = read_line(&v, line_start, i, in_block, &mut m, &start, &end, &prefix);
            let ghost after = split_lines(v@.take(i + 1));
            assert(after == before.push(Seq::<char>::empty()));
            assert(after.drop_last() =~= before);
            assert(before =~= before.drop_last().push(before.last()));
            line_start = i + 1;
            assert(v@.subrange(line_start as int, i + 1) =~= Seq::<char>::empty());
        } else {
            let ghost after = split_lines(v@.take(i + 1));
            assert(after == before.update(before.len() - 1, before.last().push(v@[i as int])));
            assert(after.drop_last() =~= before.drop_last());
            assert(after.last() =~= v@.subrange(line_start as int, i + 1));
        }
        i = i + 1;
    }
    in_block = read_line(&v, line_start, v.len(), in_block, &mut m, &start, &end, &prefix);
    proof {
        let all = split_lines(v@.take(v.len() as int));
        assert(v@.take(v.len() as int) =~= v@);
        assert(all =~= all.drop_last().push(all.last()));
    }
    m
}

// ---------------------------------------------------------------------------
// Writing the managed file
// ---------------------------------------------------------------------------

/// The first line of every managed file.
pub open spec fn header() -> Seq<char> {
    "# Managed by nixbox. Do not edit by hand."@
}

/// One `pkgs.<name>` line per name, in order.
pub open spec fn package_lines(names: Seq<Seq<char>>) -> Seq<char>
    decreases names.len(),
{
    if names.len() == 0 {
        Seq::<char>::empty()
    } else {
        package_lines(names.drop_last()) + "    pkgs."@ + names.last() + "\n"@
    }
}

/// The marked block of package entries.
pub open spec fn rendered_packages(names: Seq<Seq<char>>) -> Seq<char> {
    "    # nixbox:packages:start\n"@ + package_lines(names) + "    # nixbox:packages:end\n"@
}

/// A home-manager module whose `home.packages` holds the names.
pub open spec fn rendered_home_manager(names: Seq<Seq<char>>) -> Seq<char> {
    header() + "\n{ pkgs, ... }:\n{\n  home.packages = [\n"@ + rendered_packages(names)
        + "  ];\n}\n"@
}

/// A NixOS module whose `environment.systemPackages` holds the names.
pub open spec fn rendered_nixos(names: Seq<Seq<char>>) -> Seq<char> {
    header() + "\n{ pkgs, ... }:\n{\n  environment.systemPackages = [\n"@ + rendered_packages(
        names,
    ) + "  ];\n}\n"@
}

/// The marked block of package entries for `manifest`.
pub fn render_packages(manifest: &Manifest) -> (out: String)
    ensures
        out@ == rendered_packages(manifest.names()),
{
    let mut out = String::new();
    push_str(&mut out, "    # nixbox:packages:start\n");
    let mut i: usize = 0;
    let ghost names = manifest.names();
    assert(names.take(0) =~= Seq::<Seq<char>>::empty());
    while i < manifest.packages.len()
        invariant
            names == manifest.names(),
            i <= manifest.packages.len(),
            names.len() == manifest.packages.len(),
            out@ == "    # nixbox:packages:start\n"@ + package_lines(names.take(i as int)),
        decreases manifest.packages.len() - i,
    {
        push_str(&mut out, "    pkgs.");
        push_str(&mut out, manifest.packages[i].as_str());
        push_str(&mut out, "\n");
        assert(names.take(i + 1).drop_last() =~= names.take(i as int));
        assert(names.take(i + 1).last() == manifest.packages@[i as int]@);
        assert(out@ =~= "    # nixbox:packages:start\n"@ + package_lines(names.take(i + 1)));
        i = i + 1;
    }
    assert(names.take(i as int) =~= names);
    push_str(&mut out, "    # nixbox:packages:end\n");
    out
}

/// The home-manager module text for `manifest`.
pub fn render_home_manager(manifest: &Manifest) -> (out: String)
    ensures
        out@ == rendered_home_manager(manifest.names()),
{
    let mut out = String::new();
    push_str(&mut out, "# Managed by nixbox. Do not edit by hand.");
    push_str(&mut out, "\n{ pkgs, ... }:\n{\n  home.packages = [\n");
    let body = render_packages(manifest);
    push_str(&mut out, body.as_str());
    push_str(&mut out, "  ];\n}\n");
    assert(out@ =~= rendered_home_manager(manifest.names()));
    out
}

/// The NixOS module text for `manifest`.
pub fn render_nixos(manifest: &Manifest) -> (out: String)
    ensures
        out@ == rendered_nixos(manifest.names()),
{
    let mut out = String::new();
    push_str(&mut out, "# Managed by nixbox. Do not edit by hand.");
    push_str(&mut out, "\n{ pkgs, ... }:\n{\n  environment.systemPackages = [\n");
    let body = render_packages(manifest);
    push_str(&mut out, body.as_str());
    push_str(&mut out, "  ];\n}\n");
    assert(out@ =~= rendered_nixos(manifest.names()));
    out
}


// ---------------------------------------------------------------------------
// Writing then reading gives the names back
// ---------------------------------------------------------------------------

/// A name that reads back unchanged from its entry line: no line break in it,
/// and it does not end in white space or `;`.
pub open spec fn renderable_name(n: Seq<char>) -> bool {
    &&& !n.contains('\n')
    &&& n.len() > 0 ==> !is_ws(n.last()) && n.last() != ';'
}

/// The text made of `lines`, each followed by `'\n'`.
pub open spec fn text_of_lines(lines: Seq<Seq<char>>) -> Seq<char>
    decreases lines.len(),
{
    if lines.len() == 0 {
        Seq::<char>::empty()
    } else {
        text_of_lines(lines.drop_last()) + lines.last() + seq!['\n']
    }
}

/// The entry line of each name.
pub open spec fn entry_lines(names: Seq<Seq<char>>) -> Seq<Seq<char>> {
    names.map_values(|n: Seq<char>| "    pkgs."@ + n)
}

proof fn lemma_text_of_lines_concat(a: Seq<Seq<char>>, b: Seq<Seq<char>>)
    ensures
        text_of_lines(a + b) == text_of_lines(a) + text_of_lines(b),
    decreases b.len(),
{
    if b.len() == 0 {
        assert(a + b =~= a);
        assert(text_of_lines(a) + text_of_lines(b) =~= text_of_lines(a));
    } else {
        lemma_text_of_lines_concat(a, b.drop_last());
        assert((a + b).drop_last() =~= a + b.drop_last());
        assert((a + b).last() == b.last());
        assert(text_of_lines(a + b) =~= text_of_lines(a) + text_of_lines(b));
    }
}

proof fn lemma_split_text_of_lines(lines: Seq<Seq<char>>)
    requires
        forall|i: int| 0 <= i < lines.len() ==> !(#[trigger] lines[i]).contains('\n'),
    ensures
        split_lines(text_of_lines(lines)) == lines.push(Seq::<char>::empty()),
    decreases lines.len(),
{
    if lines.len() == 0 {
        assert(split_lines(Seq::<char>::empty()) =~= seq![Seq::<char>::empty()]);
        assert(lines.push(Seq::<char>::empty()) =~= seq![Seq::<char>::empty()]);
    } else {
        let front = lines.drop_last();
        assert forall|i: int| 0 <= i < front.len() implies !(#[trigger] front[i]).contains('\n') by {
            assert(front[i] == lines[i]);
        }
        lemma_split_text_of_lines(front);
        assert(!lines.last().contains('\n')) by {
            assert(lines[lines.len() - 1] == lines.last());
        }
        lemma_split_lines_append_line(text_of_lines(front), lines.last());
        assert(front.push(Seq::<char>::empty()).drop_last() =~= front);
        assert(front.push(lines.last()) =~= lines);
    }
}

proof fn lemma_package_lines(names: Seq<Seq<char>>)
    ensures
        package_lines(names) == text_of_lines(entry_lines(names)),
    decreases names.len(),
{
    if names.len() > 0 {
        lemma_package_lines(names.drop_last());
        assert(entry_lines(names).drop_last() =~= entry_lines(names.drop_last()));
        assert(entry_lines(names).last() == "    pkgs."@ + names.last());
        reveal_strlit("\n");
        assert("\n"@ =~= seq!['\n']);
        assert(package_lines(names) =~= text_of_lines(entry_lines(names)));
    } else {
        assert(entry_lines(names) =~= Seq::<Seq<char>>::empty());
    }
}

proof fn lemma_fold_concat(s: (bool, Set<Seq<char>>), a: Seq<Seq<char>>, b: Seq<Seq<char>>)
    ensures
        fold_lines(s, a + b) == fold_lines(fold_lines(s, a), b),
    decreases b.len(),
{
    if b.len() == 0 {
        assert(a + b =~= a);
    } else {
        lemma_fold_concat(s, a, b.drop_last());
        assert((a + b).drop_last() =~= a + b.drop_last());
        assert((a + b).last() == b.last());
    }
}

proof fn lemma_trim_padded(w: Seq<char>, x: Seq<char>)
    requires
        forall|i: int| 0 <= i < w.len() ==> is_ws(#[trigger] w[i]),
        x.len() > 0,
        !is_ws(x[0]),
        !is_ws(x.last()),
    ensures
        trim(w + x) == x,
    decreases w.len(),
{
    if w.len() == 0 {
        assert(w + x =~= x);
    } else {
        let w1 = w.drop_first();
        assert forall|i: int| 0 <= i < w1.len() implies is_ws(#[trigger] w1[i]) by {
            assert(w1[i] == w[i + 1]);
        }
        lemma_trim_padded(w1, x);
        assert((w + x).drop_first() =~= w1 + x);
        assert((w + x)[0] == w[0]);
    }
}

proof fn lemma_empty_line(s: (bool, Set<Seq<char>>))
    ensures
        line_step(s, Seq::<char>::empty()) == s,
{
    reveal_strlit("# nixbox:packages:start");
    reveal_strlit("# nixbox:packages:end");
    assert(trim(Seq::<char>::empty()) =~= Seq::<char>::empty());
}

/// A line outside the block whose trimmed text starts with neither marker
/// leaves the state alone.
proof fn lemma_plain_line(s: (bool, Set<Seq<char>>), l: Seq<char>)
    requires
        !s.0,
        trim(l).len() > 0,
        trim(l)[0] != '#',
    ensures
        line_step(s, l) == s,
{
    reveal_strlit("# nixbox:packages:start");
    reveal_strlit("# nixbox:packages:end");
    let t = trim(l);
    if starts_with(t, start_marker()) {
        assert(t.take(start_marker().len() as int)[0] == t[0]);
    }
    if starts_with(t, end_marker()) {
        assert(t.take(end_marker().len() as int)[0] == t[0]);
    }
}

proof fn lemma_entry_line(s: Set<Seq<char>>, n: Seq<char>)
    requires
        renderable_name(n),
    ensures
        line_step((true, s), "    pkgs."@ + n) == (true, s.insert(n)),
{
    reveal_strlit("    pkgs.");
    reveal_strlit("pkgs.");
    reveal_strlit("    ");
    reveal_strlit("# nixbox:packages:start");
    reveal_strlit("# nixbox:packages:end");
    let x = "pkgs."@ + n;
    assert("    pkgs."@ + n =~= "    "@ + x);
    assert(x[0] == 'p');
    assert(x.last() != ';' && !is_ws(x.last())) by {
        if n.len() > 0 {
            assert(x.last() == n.last());
        } else {
            assert(x.last() == '.');
        }
    }
    lemma_trim_padded("    "@, x);
    let t = trim("    pkgs."@ + n);
    assert(t == x);
    if starts_with(t, start_marker()) {
        assert(t.take(start_marker().len() as int)[0] == t[0]);
    }
    if starts_with(t, end_marker()) {
        assert(t.take(end_marker().len() as int)[0] == t[0]);
    }
    assert(strip_trailing(x, ';') == x);
    assert(x.take(5) =~= "pkgs."@);
    assert(x.skip(5) =~= n);
}

proof fn lemma_fold_entries(s: Set<Seq<char>>, names: Seq<Seq<char>>)
    requires
        forall|i: int| 0 <= i < names.len() ==> renderable_name(#[trigger] names[i]),
    ensures
        fold_lines((true, s), entry_lines(names)) == (true, s.union(names.to_set())),
    decreases names.len(),
{
    if names.len() == 0 {
        assert(entry_lines(names) =~= Seq::<Seq<char>>::empty());
        assert(s.union(names.to_set()) =~= s);
    } else {
        let front = names.drop_last();
        assert forall|i: int| 0 <= i < front.len() implies renderable_name(#[trigger] front[i]) by {
            assert(front[i] == names[i]);
        }
        lemma_fold_entries(s, front);
        assert(entry_lines(names).drop_last() =~= entry_lines(front));
        assert(entry_lines(names).last() == "    pkgs."@ + names.last());
        assert(renderable_name(names.last())) by {
            assert(names[names.len() - 1] == names.last());
        }
        lemma_entry_line(s.union(front.to_set()), names.last());
        assert(s.union(front.to_set()).insert(names.last()) =~= s.union(names.to_set())) by {
            assert(names =~= front.push(names.last()));
            assert forall|x: Seq<char>| names.to_set().contains(x) implies front.to_set().insert(
                names.last(),
            ).contains(x) by {
                let k = choose|k: int| 0 <= k < names.len() && names[k] == x;
                if k < front.len() {
                    assert(front[k] == x);
                }
            }
            assert forall|x: Seq<char>| front.to_set().contains(x) implies names.to_set().contains(x) by {
                let k = choose|k: int| 0 <= k < front.len() && front[k] == x;
                assert(names[k] == x);
            }
            assert(names.to_set().contains(names.last())) by {
                assert(names[names.len() - 1] == names.last());
            }
        }
    }
}

/// The lines of a managed module: the given opening lines, the marked block
/// of entries, and the closing lines.
pub open spec fn module_lines(opening: Seq<Seq<char>>, names: Seq<Seq<char>>) -> Seq<Seq<char>> {
    opening + seq!["    # nixbox:packages:start"@] + entry_lines(names) + seq![
        "    # nixbox:packages:end"@,
        "  ];"@,
        "}"@,
    ]
}

/// Reading a module made of `opening` lines (each outside the block and
/// without markers), the entries, and the closing lines gives the names.
proof fn lemma_read_module(opening: Seq<Seq<char>>, names: Seq<Seq<char>>)
    requires
        forall|i: int| 0 <= i < names.len() ==> renderable_name(#[trigger] names[i]),
        forall|i: int| 0 <= i < opening.len() ==> !(#[trigger] opening[i]).contains('\n'),
        forall|i: int|
            0 <= i < opening.len() ==> line_step(
                (false, Set::<Seq<char>>::empty()),
                #[trigger] opening[i],
            ) == (false, Set::<Seq<char>>::empty()),
    ensures
        parsed_packages(text_of_lines(module_lines(opening, names))) == names.to_set(),
{
    reveal_strlit("    # nixbox:packages:start");
    reveal_strlit("    # nixbox:packages:end");
    reveal_strlit("  ];");
    reveal_strlit("}");
    reveal_strlit("    pkgs.");
    reveal_strlit("# nixbox:packages:start");
    reveal_strlit("# nixbox:packages:end");
    reveal_strlit("    ");
    let empty_set = Set::<Seq<char>>::empty();
    let init = (false, empty_set);
    let start_line = "    # nixbox:packages:start"@;
    let closing = seq!["    # nixbox:packages:end"@, "  ];"@, "}"@];
    let entries = entry_lines(names);
    let lines = module_lines(opening, names);
    // No line holds a line break.
    assert forall|i: int| 0 <= i < lines.len() implies !(#[trigger] lines[i]).contains('\n') by {
        if i < opening.len() {
            assert(lines[i] == opening[i]);
        } else if i == opening.len() {
            assert(lines[i] == start_line);
            if start_line.contains('\n') {
                let k = choose|k: int| 0 <= k < start_line.len() && start_line[k] == '\n';
            }
        } else if i < opening.len() + 1 + entries.len() {
            let j = i - opening.len() - 1;
            assert(lines[i] == entries[j]);
            assert(entries[j] == "    pkgs."@ + names[j]);
            assert(renderable_name(names[j]));
            if lines[i].contains('\n') {
                let k = choose|k: int| 0 <= k < lines[i].len() && lines[i][k] == '\n';
                if k >= 9 {
                    assert(names[j][k - 9] == '\n');
                }
            }
        } else {
            let j = i - opening.len() - 1 - entries.len();
            assert(lines[i] == closing[j]);
            if lines[i].contains('\n') {
                let k = choose|k: int| 0 <= k < lines[i].len() && lines[i][k] == '\n';
            }
        }
    }
    lemma_split_text_of_lines(lines);
    lemma_empty_line(fold_lines(init, lines));
    // The opening lines change nothing.
    assert(fold_lines(init, opening) == init) by {
        lemma_fold_opening(opening);
    }
    // The start line opens the block.
    let x = "# nixbox:packages:start"@;
    assert(start_line =~= "    "@ + x);
    lemma_trim_padded("    "@, x);
    assert(starts_with(x, start_marker())) by {
        assert(x.take(x.len() as int) =~= x);
    }
    lemma_fold_concat(init, opening, seq![start_line]);
    lemma_fold_concat(init, opening + seq![start_line], entries);
    lemma_fold_concat(init, opening + seq![start_line] + entries, closing);
    assert(fold_lines(init, opening + seq![start_line]) == (true, empty_set)) by {
        lemma_fold_concat(init, Seq::<Seq<char>>::empty(), seq![start_line]);
        assert(seq![start_line].drop_last() =~= Seq::<Seq<char>>::empty());
        assert(fold_lines(init, opening + seq![start_line]) == line_step(
            fold_lines(init, opening),
            start_line,
        )) by {
            assert((opening + seq![start_line]).drop_last() =~= opening);
        }
    }
    lemma_fold_entries(empty_set, names);
    let found = empty_set.union(names.to_set());
    assert(found =~= names.to_set());
    // The closing lines: the end marker, then two plain lines.
    let y = "# nixbox:packages:end"@;
    assert("    # nixbox:packages:end"@ =~= "    "@ + y);
    lemma_trim_padded("    "@, y);
    assert(!starts_with(y, start_marker()));
    assert(starts_with(y, end_marker())) by {
        assert(y.take(y.len() as int) =~= y);
    }
    let after_end = line_step((true, found), "    # nixbox:packages:end"@);
    assert(after_end == (false, found));
    let z1 = "];"@;
    reveal_strlit("];");
    reveal_strlit("  ");
    assert("  ];"@ =~= "  "@ + z1);
    lemma_trim_padded("  "@, z1);
    lemma_plain_line(after_end, "  ];"@);
    assert(trim("}"@) == "}"@) by {
        lemma_trim_padded(Seq::<char>::empty(), "}"@);
        assert(Seq::<char>::empty() + "}"@ =~= "}"@);
    }
    lemma_plain_line(after_end, "}"@);
    assert(fold_lines((true, found), closing) == (false, found)) by {
        let c2 = seq!["    # nixbox:packages:end"@, "  ];"@];
        let c1 = seq!["    # nixbox:packages:end"@];
        let c0 = Seq::<Seq<char>>::empty();
        assert(closing.drop_last() =~= c2);
        assert(c2.drop_last() =~= c1);
        assert(c1.drop_last() =~= c0);
        assert(fold_lines((true, found), c0) == (true, found));
        assert(fold_lines((true, found), c1) == line_step((true, found), c1.last()));
        assert(fold_lines((true, found), c1) == after_end);
        assert(fold_lines((true, found), c2) == line_step(after_end, "  ];"@));
        assert(fold_lines((true, found), closing) == line_step(
            fold_lines((true, found), c2),
            "}"@,
        ));
    }
    assert(lines == opening + seq![start_line] + entries + closing);
    assert(lines.push(Seq::<char>::empty()).drop_last() =~= lines);
}

proof fn lemma_fold_opening(opening: Seq<Seq<char>>)
    requires
        forall|i: int|
            0 <= i < opening.len() ==> line_step(
                (false, Set::<Seq<char>>::empty()),
                #[trigger] opening[i],
            ) == (false, Set::<Seq<char>>::empty()),
    ensures
        fold_lines((false, Set::<Seq<char>>::empty()), opening) == (
            false,
            Set::<Seq<char>>::empty(),
        ),
    decreases opening.len(),
{
    if opening.len() > 0 {
        let front = opening.drop_last();
        assert forall|i: int| 0 <= i < front.len() implies line_step(
            (false, Set::<Seq<char>>::empty()),
            #[trigger] front[i],
        ) == (false, Set::<Seq<char>>::empty()) by {
            assert(front[i] == opening[i]);
        }
        lemma_fold_opening(front);
        assert(opening[opening.len() - 1] == opening.last());
    }
}


/// The opening lines of a module whose package list is `list_line`.
pub open spec fn opening_lines(list_line: Seq<char>) -> Seq<Seq<char>> {
    seq![header(), "{ pkgs, ... }:"@, "{"@, list_line]
}

proof fn lemma_module_text(list_open: Seq<char>, names: Seq<Seq<char>>)
    ensures
        text_of_lines(module_lines(opening_lines(list_open), names)) == header() + "\n{ pkgs, ... }:\n{\n"@
            + list_open + "\n"@ + rendered_packages(names) + "  ];\n}\n"@,
{
    reveal_strlit("\n{ pkgs, ... }:\n{\n");
    reveal_strlit("{ pkgs, ... }:");
    reveal_strlit("{");
    reveal_strlit("\n");
    reveal_strlit("    # nixbox:packages:start\n");
    reveal_strlit("    # nixbox:packages:start");
    reveal_strlit("    # nixbox:packages:end\n");
    reveal_strlit("    # nixbox:packages:end");
    reveal_strlit("  ];\n}\n");
    reveal_strlit("  ];");
    reveal_strlit("}");
    let opening = opening_lines(list_open);
    let start = seq!["    # nixbox:packages:start"@];
    let entries = entry_lines(names);
    let closing = seq!["    # nixbox:packages:end"@, "  ];"@, "}"@];
    lemma_text_of_lines_concat(opening, start);
    lemma_text_of_lines_concat(opening + start, entries);
    lemma_text_of_lines_concat(opening + start + entries, closing);
    lemma_package_lines(names);
    let nl = seq!['\n'];
    let o3 = seq![header(), "{ pkgs, ... }:"@, "{"@];
    let o2 = seq![header(), "{ pkgs, ... }:"@];
    let o1 = seq![header()];
    let none = Seq::<Seq<char>>::empty();
    assert(opening.drop_last() =~= o3);
    assert(o3.drop_last() =~= o2);
    assert(o2.drop_last() =~= o1);
    assert(o1.drop_last() =~= none);
    assert(text_of_lines(none) == Seq::<char>::empty());
    assert(text_of_lines(o1) == text_of_lines(none) + header() + nl);
    assert(text_of_lines(o2) == text_of_lines(o1) + "{ pkgs, ... }:"@ + nl);
    assert(text_of_lines(o3) == text_of_lines(o2) + "{"@ + nl);
    assert(text_of_lines(opening) == text_of_lines(o3) + list_open + nl);
    assert(start.drop_last() =~= none);
    assert(text_of_lines(start) == text_of_lines(none) + "    # nixbox:packages:start"@ + nl);
    let c2 = seq!["    # nixbox:packages:end"@, "  ];"@];
    let c1 = seq!["    # nixbox:packages:end"@];
    assert(closing.drop_last() =~= c2);
    assert(c2.drop_last() =~= c1);
    assert(c1.drop_last() =~= none);
    assert(text_of_lines(c1) == text_of_lines(none) + "    # nixbox:packages:end"@ + nl);
    assert(text_of_lines(c2) == text_of_lines(c1) + "  ];"@ + nl);
    assert(text_of_lines(closing) == text_of_lines(c2) + "}"@ + nl);
    assert(text_of_lines(module_lines(opening, names)) =~= header() + "\n{ pkgs, ... }:\n{\n"@
        + list_open + "\n"@ + rendered_packages(names) + "  ];\n}\n"@);
}

/// A line outside the block that starts, once trimmed, with a character
/// other than `#` is read as nothing.
proof fn lemma_opening_ok(list_open: Seq<char>, w: Seq<char>, x: Seq<char>)
    requires
        list_open == w + x,
        forall|i: int| 0 <= i < w.len() ==> is_ws(#[trigger] w[i]),
        x.len() > 0,
        !is_ws(x[0]),
        !is_ws(x.last()),
        x[0] != '#',
        !list_open.contains('\n'),
    ensures
        forall|i: int| 0 <= i < 4 ==> !(#[trigger] opening_lines(list_open)[i]).contains('\n'),
        forall|i: int|
            0 <= i < 4 ==> line_step(
                (false, Set::<Seq<char>>::empty()),
                #[trigger] opening_lines(list_open)[i],
            ) == (false, Set::<Seq<char>>::empty()),
{
    reveal_strlit("# Managed by nixbox. Do not edit by hand.");
    reveal_strlit("{ pkgs, ... }:");
    reveal_strlit("{");
    reveal_strlit("# nixbox:packages:start");
    reveal_strlit("# nixbox:packages:end");
    let init = (false, Set::<Seq<char>>::empty());
    let o = opening_lines(list_open);
    let e = Seq::<char>::empty();
    // The header: trimmed, it is itself, and it differs from both markers at
    // its third character.
    assert(trim(header()) == header()) by {
        lemma_trim_padded(e, header());
        assert(e + header() =~= header());
    }
    if starts_with(header(), start_marker()) {
        assert(header().take(start_marker().len() as int)[2] == header()[2]);
    }
    if starts_with(header(), end_marker()) {
        assert(header().take(end_marker().len() as int)[2] == header()[2]);
    }
    assert(line_step(init, header()) == init);
    assert(trim("{ pkgs, ... }:"@) == "{ pkgs, ... }:"@) by {
        lemma_trim_padded(e, "{ pkgs, ... }:"@);
        assert(e + "{ pkgs, ... }:"@ =~= "{ pkgs, ... }:"@);
    }
    lemma_plain_line(init, "{ pkgs, ... }:"@);
    assert(trim("{"@) == "{"@) by {
        lemma_trim_padded(e, "{"@);
        assert(e + "{"@ =~= "{"@);
    }
    lemma_plain_line(init, "{"@);
    lemma_trim_padded(w, x);
    lemma_plain_line(init, list_open);
    assert forall|i: int| 0 <= i < 4 implies !(#[trigger] o[i]).contains('\n') by {
        if o[i].contains('\n') {
            let k = choose|k: int| 0 <= k < o[i].len() && o[i][k] == '\n';
        }
    }
    assert forall|i: int| 0 <= i < 4 implies line_step(init, #[trigger] o[i]) == init by {
        if i == 0 {
            assert(o[i] == header());
        } else if i == 1 {
            assert(o[i] == "{ pkgs, ... }:"@);
        } else if i == 2 {
            assert(o[i] == "{"@);
        } else {
            assert(o[i] == list_open);
        }
    }
}

/// Writing a manifest as a home-manager module and reading the module back
/// gives the same names, in the same order, provided every name reads back
/// from its own line.
pub proof fn law_home_manager_round_trip(m: Manifest, back: Manifest)
    requires
        m.wf(),
        forall|i: int| 0 <= i < m.names().len() ==> renderable_name(#[trigger] m.names()[i]),
        back.wf(),
        back.contents() == parsed_packages(rendered_home_manager(m.names())),
    ensures
        parsed_packages(rendered_home_manager(m.names())) == m.contents(),
        back.names() == m.names(),
{
    reveal_strlit("  home.packages = [");
    reveal_strlit("home.packages = [");
    reveal_strlit("  ");
    reveal_strlit("\n{ pkgs, ... }:\n{\n  home.packages = [\n");
    reveal_strlit("\n{ pkgs, ... }:\n{\n");
    reveal_strlit("\n");
    let list_open = "  home.packages = ["@;
    let x = "home.packages = ["@;
    assert(list_open =~= "  "@ + x);
    assert(!list_open.contains('\n')) by {
        if list_open.contains('\n') {
            let k = choose|k: int| 0 <= k < list_open.len() && list_open[k] == '\n';
        }
    }
    lemma_opening_ok(list_open, "  "@, x);
    lemma_read_module(opening_lines(list_open), m.names());
    lemma_module_text(list_open, m.names());
    assert("\n{ pkgs, ... }:\n{\n"@ + list_open + "\n"@ =~= "\n{ pkgs, ... }:\n{\n  home.packages = [\n"@);
    assert(rendered_home_manager(m.names()) =~= text_of_lines(
        module_lines(opening_lines(list_open), m.names()),
    ));
    lemma_sorted_unique(back.names(), m.names());
}

/// Writing a manifest as a NixOS module and reading the module back gives
/// the same names, in the same order, provided every name reads back from
/// its own line.
pub proof fn law_nixos_round_trip(m: Manifest, back: Manifest)
    requires
        m.wf(),
        forall|i: int| 0 <= i < m.names().len() ==> renderable_name(#[trigger] m.names()[i]),
        back.wf(),
        back.contents() == parsed_packages(rendered_nixos(m.names())),
    ensures
        parsed_packages(rendered_nixos(m.names())) == m.contents(),
        back.names() == m.names(),
{
    reveal_strlit("  environment.systemPackages = [");
    reveal_strlit("environment.systemPackages = [");
    reveal_strlit("  ");
    reveal_strlit("\n{ pkgs, ... }:\n{\n  environment.systemPackages = [\n");
    reveal_strlit("\n{ pkgs, ... }:\n{\n");
    reveal_strlit("\n");
    let list_open = "  environment.systemPackages = ["@;
    let x = "environment.systemPackages = ["@;
    assert(list_open =~= "  "@ + x);
    assert(!list_open.contains('\n')) by {
        if list_open.contains('\n') {
            let k = choose|k: int| 0 <= k < list_open.len() && list_open[k] == '\n';
        }
    }
    lemma_opening_ok(list_open, "  "@, x);
    lemma_read_module(opening_lines(list_open), m.names());
    lemma_module_text(list_open, m.names());
    assert("\n{ pkgs, ... }:\n{\n"@ + list_open + "\n"@
        =~= "\n{ pkgs, ... }:\n{\n  environment.systemPackages = [\n"@);
    assert(rendered_nixos(m.names()) =~= text_of_lines(
        module_lines(opening_lines(list_open), m.names()),
    ));
    lemma_sorted_unique(back.names(), m.names());
}


/// Adding a package the manifest did not hold and removing it again gives
/// back the manifest as it was, entry for entry.
pub proof fn law_add_then_remove(m: Manifest, added: Manifest, back: Manifest, p: Seq<char>)
    requires
        m.wf(),
        !m.contents().contains(p),
        added.wf(),
        added.contents() == m.contents().insert(p),
        back.wf(),
        back.contents() == added.contents().remove(p),
    ensures
        back.names() == m.names(),
{
    assert(back.contents() =~= m.contents());
    lemma_sorted_unique(back.names(), m.names());
}

/// Two manifests that hold the same packages list them alike: the sorted
/// order leaves no choice.
pub proof fn law_contents_determine_names(m: Manifest, n: Manifest)
    requires
        m.wf(),
        n.wf(),
        m.contents() == n.contents(),
    ensures
        m.names() == n.names(),
{
    lemma_sorted_unique(m.names(), n.names());
}

} // verus!
