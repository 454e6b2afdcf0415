use vstd::prelude::*;

use crate::config::target_label;
use crate::number::{decimal, decimal_string};
use crate::search::SearchHit;
use crate::session::{
    app_wf, filtered_external_spec, filtered_managed_spec, installed_cursor_spec,
    installed_total_spec, lemma_installed_total_bound, tab_title, App,
    ExternalPackage, ManagedPackage, Mode, SearchInputMode, Tab,
};
use crate::text::{chars_of, push_char, push_str};

verus! {

// ---------------------------------------------------------------------------
// The spinner and the progress bar
// ---------------------------------------------------------------------------

/// The frames of the spinner.
pub open spec fn spinner_frames() -> Seq<char> {
    seq!['⠋', '⠙', '⠹', '⠸', '⠼', '⠴', '⠦', '⠧', '⠇', '⠏']
}

/// The spinner's character at step `frame`.
pub fn spinner_char(frame: usize) -> (c: char)
    ensures
        c == spinner_frames()[(frame % 10) as int],
{
    let i = frame % 10;
    if i == 0 {
        '⠋'
    } else if i == 1 {
        '⠙'
    } else if i == 2 {
        '⠹'
    } else if i == 3 {
        '⠸'
    } else if i == 4 {
        '⠼'
    } else if i == 5 {
        '⠴'
    } else if i == 6 {
        '⠦'
    } else if i == 7 {
        '⠧'
    } else if i == 8 {
        '⠇'
    } else {
        '⠏'
    }
}

/// `n` copies of `c`.
pub open spec fn repeated(c: char, n: nat) -> Seq<char> {
    Seq::new(n, |_i: int| c)
}

/// A string of `n` copies of `c`.
pub fn repeat_char(c: char, n: usize) -> (s: String)
    ensures
        s@ == repeated(c, n as nat),
{
    let mut s = String::new();
    let mut i: usize = 0;
    while i < n
        invariant
            i <= n,
            s@ == repeated(c, i as nat),
        decreases n - i,
    {
        push_char(&mut s, c);
        assert(s@ =~= repeated(c, (i + 1) as nat));
        i = i + 1;
    }
    s
}

/// The width of the moving block of a progress bar `w` cells wide: a fifth
/// of the bar, at least six cells, at most the whole bar.
pub open spec fn bar_block(w: int) -> int {
    let b = if w / 5 > 6 {
        w / 5
    } else {
        6
    };
    if b < w {
        b
    } else {
        w
    }
}

/// Where the block starts at step `frame`: it runs from the left end to
/// the right end and back.
pub open spec fn bar_pos(frame: int, w: int) -> int {
    let range = w - bar_block(w);
    if range == 0 {
        0
    } else {
        let f = frame % (2 * range);
        if f <= range {
            f
        } else {
            2 * range - f
        }
    }
}

/// The block of `b` cells: shaded ends around a solid core.
pub open spec fn bar_filled(b: int) -> Seq<char> {
    if b >= 4 {
        "▒▓"@ + repeated('█', (b - 4) as nat) + "▓▒"@
    } else {
        repeated('█', b as nat)
    }
}

/// The indeterminate progress bar shown while a rebuild runs, `width`
/// cells wide at step `frame`: the track before the block, the block, and
/// the track after it. A bar narrower than four cells is not drawn.
pub fn progress_bar(frame: usize, width: u16) -> (parts: Option<(String, String, String)>)
    ensures
        width < 4 ==> parts is None,
        width >= 4 ==> (parts matches Some((before, filled, after)) && {
            let w = width as int;
            let pos = bar_pos(frame as int, w);
            &&& before@ == repeated('░', pos as nat)
            &&& filled@ == bar_filled(bar_block(w))
            &&& after@ == repeated('░', (w - pos - bar_block(w)) as nat)
        }),
{
    let w = width as usize;
    if w < 4 {
        return None;
    }
    let fifth = w / 5;
    let at_least = if fifth > 6 {
        fifth
    } else {
        6
    };
    let block = if at_least < w {
        at_least
    } else {
        w
    };
    let range = w - block;
    let pos = if range == 0 {
        0
    } else {
        let cycle = 2 * range;
        let f = frame % cycle;
        if f <= range {
            f
        } else {
            cycle - f
        }
    };
    let before = repeat_char('░', pos);
    let after = repeat_char('░', w - (pos + block));
    let filled = if block >= 4 {
        let mut s = String::from_str("▒▓");
        let core = repeat_char('█', block - 4);
        push_str(&mut s, core.as_str());
        push_str(&mut s, "▓▒");
        s
    } else {
        repeat_char('█', block)
    };
    Some((before, filled, after))
}

// ---------------------------------------------------------------------------
// Bars
// ---------------------------------------------------------------------------

/// A tab's label in the tab strip: the spinner before Building while a
/// rebuild runs, the number of waiting operations after Queue.
pub open spec fn tab_strip_label(a: App, t: Tab) -> Seq<char> {
    let base = tab_title(t);
    let spun = if t == Tab::Building && a.build_in_progress {
        seq![spinner_frames()[(a.spinner_frame % 10) as int]] + " "@ + base
    } else {
        base
    };
    if t == Tab::Queue && a.queue@.len() > 0 {
        spun + " ("@ + decimal(a.queue@.len()) + ")"@
    } else {
        spun
    }
}

/// The key help shown in the footer.
pub open spec fn context_keys_spec(a: App) -> Seq<char> {
    match a.mode {
        Mode::ThemeSelect => "j/k preview  ↵ confirm  esc cancel"@,
        Mode::ChannelEdit => "↵ confirm  esc cancel"@,
        Mode::Browsing => match a.tab {
            Tab::Search => match a.search_input_mode {
                SearchInputMode::Insert => "↑↓ nav  ↵ install  ^t target  ^n theme  tab switch  esc normal"@,
                SearchInputMode::Normal => "j/k nav  h/l tabs  ↵ install  i insert  ^t target  ^n theme  esc quit"@,
            },
            Tab::Installed => match a.installed_input_mode {
                SearchInputMode::Insert => "↑↓ nav  tab switch  esc normal"@,
                SearchInputMode::Normal => "j/k nav  h/l tabs  d uninstall  m migrate  M migrate all  i filter  esc quit"@,
            },
            Tab::Building => "h/l tabs  esc quit"@,
            Tab::Queue => "h/l tabs  esc quit"@,
        },
    }
}

/// The label of an install target followed by an arrow, as the details pane
/// shows it.
pub open spec fn install_hint_spec(a: App) -> Seq<char> {
    "↵  install → "@ + target_label(a.config.target)
}

/// Which view the results pane shows.
#[derive(PartialEq, Eq, Structural, Clone, Copy, Debug)]
pub enum ResultsView {
    /// A search runs and nothing is listed yet.
    Searching,
    /// The last search found nothing.
    NoResults,
    /// The results, possibly none.
    List,
}

/// The results pane's view.
pub open spec fn results_view_spec(a: App) -> ResultsView {
    if a.searching && a.results@.len() == 0 {
        ResultsView::Searching
    } else if !a.searching && a.latest_query@.len() > 0 && a.results@.len() == 0 {
        ResultsView::NoResults
    } else {
        ResultsView::List
    }
}

impl App {
    /// The label of tab `t` in the tab strip.
    pub fn tab_strip_label(&self, t: Tab) -> (s: String)
        ensures
            s@ == tab_strip_label(*self, t),
    {
        let mut label = String::new();
        if t == Tab::Building && self.build_in_progress {
            push_char(&mut label, spinner_char(self.spinner_frame));
            push_str(&mut label, " ");
        }
        push_str(&mut label, t.label());
        if t == Tab::Queue && self.queue.len() > 0 {
            push_str(&mut label, " (");
            let n = decimal_string(self.queue.len() as u64);
            push_str(&mut label, n.as_str());
            push_str(&mut label, ")");
        }
        label
    }

    /// The key help of the footer.
    pub fn context_keys(&self) -> (s: &'static str)
        ensures
            s@ == context_keys_spec(*self),
    {
        match self.mode {
            Mode::ThemeSelect => "j/k preview  ↵ confirm  esc cancel",
            Mode::ChannelEdit => "↵ confirm  esc cancel",
            Mode::Browsing => match self.tab {
                Tab::Search => match self.search_input_mode {
                    SearchInputMode::Insert => "↑↓ nav  ↵ install  ^t target  ^n theme  tab switch  esc normal",
                    SearchInputMode::Normal => "j/k nav  h/l tabs  ↵ install  i insert  ^t target  ^n theme  esc quit",
                },
                Tab::Installed => match self.installed_input_mode {
                    SearchInputMode::Insert => "↑↓ nav  tab switch  esc normal",
                    SearchInputMode::Normal => "j/k nav  h/l tabs  d uninstall  m migrate  M migrate all  i filter  esc quit",
                },
                Tab::Building => "h/l tabs  esc quit",
                Tab::Queue => "h/l tabs  esc quit",
            },
        }
    }

    /// The hint under a result's details.
    pub fn install_hint(&self) -> (s: String)
        ensures
            s@ == install_hint_spec(*self),
    {
        let mut s = String::from_str("↵  install → ");
        push_str(&mut s, self.config.target.label());
        s
    }

    /// What the results pane shows.
    pub fn results_view(&self) -> (v: ResultsView)
        ensures
            v == results_view_spec(*self),
    {
        if self.searching && self.results.len() == 0 {
            ResultsView::Searching
        } else if !self.searching && !self.latest_query.as_str().is_empty() && self.results.len()
            == 0 {
            ResultsView::NoResults
        } else {
            ResultsView::List
        }
    }

    /// The first log line shown in a build pane `height` rows high (with
    /// its borders): the latest lines fill the rows left below the
    /// progress bar and the blank line after it while a rebuild runs.
    pub fn log_window_start(&self, height: u16) -> (start: usize)
        ensures
            ({
                let bar: int = if self.build_in_progress {
                    2
                } else {
                    0
                };
                let rows: int = if height - 2 - bar > 0 {
                    height - 2 - bar
                } else {
                    0
                };
                start == if self.log@.len() > rows {
                    self.log@.len() - rows
                } else {
                    0
                }
            }),
    {
        let bar: u16 = if self.build_in_progress {
            2
        } else {
            0
        };
        let rows = height.saturating_sub(2).saturating_sub(bar) as usize;
        self.log.len().saturating_sub(rows)
    }

    /// The title of the build pane: the running operation's label, if any.
    pub fn build_title(&self) -> (s: String)
        ensures
            s@ == match self.current_op_label {
                Some(l) => "Build output  ·  "@ + l@,
                None => "Build output"@,
            },
    {
        match &self.current_op_label {
            Some(l) => {
                let mut s = String::from_str("Build output  ·  ");
                push_str(&mut s, l.as_str());
                s
            },
            None => String::from_str("Build output"),
        }
    }

    /// The title of the queue pane.
    pub fn queue_title(&self) -> (s: String)
        ensures
            s@ == "Queue  ·  "@ + decimal(self.queue@.len()) + " pending"@,
    {
        let mut s = String::from_str("Queue  ·  ");
        let n = decimal_string(self.queue.len() as u64);
        push_str(&mut s, n.as_str());
        push_str(&mut s, " pending");
        s
    }
}

/// The empty rows above a one-line message centred in a pane `height` rows
/// high (with its borders).
pub fn centring_pad(height: u16) -> (pad: usize)
    ensures
        pad == (if height >= 2 {
            height - 2
        } else {
            0
        }) / 2,
{
    (height.saturating_sub(2) as usize) / 2
}

/// The room between the status and the key help in a footer `width` cells
/// wide; none when they do not fit.
pub fn footer_pad(width: u16, status: &str, keys: &str) -> (pad: usize)
    requires
        status@.len() + keys@.len() + 2 <= usize::MAX,
    ensures
        pad == if width > status@.len() + keys@.len() + 2 {
            width - (status@.len() + keys@.len() + 2)
        } else {
            0
        },
{
    let s = chars_of(status);
    let k = chars_of(keys);
    (width as usize).saturating_sub(s.len() + k.len() + 2)
}

/// A result's description, or a note that it has none.
pub fn hit_description(hit: &SearchHit) -> (d: &str)
    ensures
        d@ == if hit.description@.len() == 0 {
            "(no description)"@
        } else {
            hit.description@
        },
{
    if hit.description.as_str().is_empty() {
        "(no description)"
    } else {
        hit.description.as_str()
    }
}

/// The number of the `i`th queued operation, counted from one, right-aligned
/// in two cells and followed by a dot.
pub fn queue_number(i: usize) -> (s: String)
    requires
        i < u64::MAX,
    ensures
        s@ == (if i + 1 < 10 {
            " "@
        } else {
            Seq::<char>::empty()
        }) + decimal((i + 1) as nat) + ".  "@,
{
    let mut s = String::new();
    let n = (i as u64) + 1;
    if n < 10 {
        push_str(&mut s, " ");
    }
    let digits = decimal_string(n);
    push_str(&mut s, digits.as_str());
    push_str(&mut s, ".  ");
    s
}

/// An entry of a picker, checked when it is the one in use.
pub fn picker_item(name: &str, chosen: bool) -> (s: String)
    ensures
        s@ == "  "@ + name@ + if chosen {
            "  ✓"@
        } else {
            Seq::<char>::empty()
        },
{
    let mut s = String::from_str("  ");
    push_str(&mut s, name);
    if chosen {
        push_str(&mut s, "  ✓");
    }
    s
}

/// Where a popup `pw` by `ph` cells goes in the area at `(x, y)` that is
/// `w` by `h` cells: centred, and cut to the area.
pub fn popup_rect(x: u16, y: u16, w: u16, h: u16, pw: u16, ph: u16) -> (r: (u16, u16, u16, u16))
    requires
        x + w <= u16::MAX,
        y + h <= u16::MAX,
    ensures
        r.0 == x + (if w > pw {
            w - pw
        } else {
            0
        }) / 2,
        r.1 == y + (if h > ph {
            h - ph
        } else {
            0
        }) / 2,
        r.2 == if pw < w {
            pw
        } else {
            w
        },
        r.3 == if ph < h {
            ph
        } else {
            h
        },
{
    let px = x + w.saturating_sub(pw) / 2;
    let py = y + h.saturating_sub(ph) / 2;
    let rw = if pw < w {
        pw
    } else {
        w
    };
    let rh = if ph < h {
        ph
    } else {
        h
    };
    (px, py, rw, rh)
}


// ---------------------------------------------------------------------------
// The Installed tab's list
// ---------------------------------------------------------------------------

/// A row of the Installed tab's list.
#[derive(PartialEq, Eq, Structural, Clone, Copy, Debug)]
pub enum InstalledRow {
    /// The heading over the managed packages, with their number.
    ManagedHeading(usize),
    /// The `i`th managed package that passes the filter.
    Managed(usize),
    /// An empty row between the two groups.
    Gap,
    /// The heading over the external packages: how many, and how many of
    /// them can be moved.
    ExternalHeading(usize, usize),
    /// The `i`th external package that passes the filter.
    External(usize),
}

/// The rows listing `m` managed and `e` external packages, `movable` of the
/// latter movable: each group under its heading, an empty row between the
/// groups, and a group with no package left out.
pub open spec fn installed_rows_spec(m: nat, e: nat, movable: nat) -> Seq<InstalledRow> {
    let managed = if m > 0 {
        seq![InstalledRow::ManagedHeading(m as usize)] + Seq::new(
            m,
            |i: int| InstalledRow::Managed(i as usize),
        )
    } else {
        Seq::empty()
    };
    let external = if e > 0 {
        (if m > 0 {
            seq![InstalledRow::Gap]
        } else {
            Seq::empty()
        }) + seq![InstalledRow::ExternalHeading(e as usize, movable as usize)] + Seq::new(
            e,
            |i: int| InstalledRow::External(i as usize),
        )
    } else {
        Seq::empty()
    };
    managed + external
}

/// The row of the package under the cursor `sel`, the cursor held within
/// the packages; none when no package is listed.
pub open spec fn selected_row_spec(m: nat, e: nat, sel: nat) -> Option<int> {
    if m + e == 0 {
        None
    } else {
        let k = if sel < m + e {
            sel as int
        } else {
            m + e - 1
        };
        if k < m {
            Some(1 + k)
        } else {
            Some(
                (if m > 0 {
                    m + 2
                } else {
                    0
                }) + 1 + (k - m),
            )
        }
    }
}

/// How many of `ext` can be moved.
pub open spec fn movable_count(ext: Seq<ExternalPackage>) -> nat {
    ext.filter(|p: ExternalPackage| p.migratable).len()
}

fn count_movable(ext: &Vec<ExternalPackage>) -> (n: usize)
    ensures
        n == movable_count(ext@),
{
    let ghost pred = |p: ExternalPackage| p.migratable;
    let mut n: usize = 0;
    let mut i: usize = 0;
    assert(ext@.take(0).filter(pred) =~= Seq::<ExternalPackage>::empty()) by {
        reveal(Seq::filter);
    }
    while i < ext.len()
        invariant
            i <= ext@.len(),
            pred == (|p: ExternalPackage| p.migratable),
            n == ext@.take(i as int).filter(pred).len(),
            n <= i,
        decreases ext@.len() - i,
    {
        let ghost sub = ext@.take(i as int).filter(pred);
        assert(ext@.take(i + 1).drop_last() =~= ext@.take(i as int));
        assert(ext@.take(i + 1).last() == ext@[i as int]);
        assert(ext@.take(i + 1).filter(pred) == if pred(ext@[i as int]) {
            sub.push(ext@[i as int])
        } else {
            sub
        }) by {
            reveal(Seq::filter);
        }
        if ext[i].migratable {
            n = n + 1;
        }
        i = i + 1;
    }
    assert(ext@.take(ext@.len() as int) =~= ext@);
    n
}

impl App {
    /// The rows of the Installed tab and the row under its cursor.
    pub fn installed_rows(&self) -> (r: (Vec<InstalledRow>, Option<usize>))
        requires
            app_wf(*self),
        ensures
            ({
                let m = filtered_managed_spec(*self).len();
                let e = filtered_external_spec(*self).len();
                &&& r.0@ == installed_rows_spec(m, e, movable_count(filtered_external_spec(*self)))
                &&& r.1 == match selected_row_spec(m, e, self.installed_selected as nat) {
                    Some(k) => Some(k as usize),
                    None => None,
                }
            }),
    {
        let managed = self.filtered_managed_packages();
        let external = self.filtered_external_packages();
        proof {
            lemma_installed_total_bound(*self);
            assert(managed@.map_values(|p: ManagedPackage| crate::session::entry_of(p)).len()
                == managed@.len());
        }
        let m = managed.len();
        let e = external.len();
        let movable = count_movable(&external);
        let ghost mn = m as nat;
        let ghost en = e as nat;
        let mut rows: Vec<InstalledRow> = Vec::new();
        if m > 0 {
            rows.push(InstalledRow::ManagedHeading(m));
            let mut i: usize = 0;
            while i < m
                invariant
                    0 < m,
                    i <= m,
                    rows@ == seq![InstalledRow::ManagedHeading(m)] + Seq::new(
                        i as nat,
                        |k: int| InstalledRow::Managed(k as usize),
                    ),
                decreases m - i,
            {
                rows.push(InstalledRow::Managed(i));
                assert(rows@ =~= seq![InstalledRow::ManagedHeading(m)] + Seq::new(
                    (i + 1) as nat,
                    |k: int| InstalledRow::Managed(k as usize),
                ));
                i = i + 1;
            }
        }
        let ghost head = rows@;
        assert(head == if mn > 0 {
            seq![InstalledRow::ManagedHeading(m)] + Seq::new(
                mn,
                |k: int| InstalledRow::Managed(k as usize),
            )
        } else {
            Seq::<InstalledRow>::empty()
        });
        if e > 0 {
            if m > 0 {
                rows.push(InstalledRow::Gap);
            }
            rows.push(InstalledRow::ExternalHeading(e, movable));
            let ghost lead = rows@;
            assert(lead == head + (if mn > 0 {
                seq![InstalledRow::Gap]
            } else {
                Seq::<InstalledRow>::empty()
            }) + seq![InstalledRow::ExternalHeading(e, movable)]);
            let mut j: usize = 0;
            while j < e
                invariant
                    j <= e,
                    rows@ == lead + Seq::new(j as nat, |k: int| InstalledRow::External(k as usize)),
                decreases e - j,
            {
                rows.push(InstalledRow::External(j));
                assert(rows@ =~= lead + Seq::new(
                    (j + 1) as nat,
                    |k: int| InstalledRow::External(k as usize),
                ));
                j = j + 1;
            }
        }
        assert(rows@ =~= installed_rows_spec(mn, en, movable as nat));
        let total = m + e;
        let selected = if total == 0 {
            None
        } else {
            let k = if self.installed_selected < total {
                self.installed_selected
            } else {
                total - 1
            };
            if k < m {
                Some(1 + k)
            } else {
                let base = if m > 0 {
                    m + 2
                } else {
                    0
                };
                Some(base + 1 + (k - m))
            }
        };
        (rows, selected)
    }
}


/// The row the Installed tab highlights is the row of the package that the
/// cursor's actions (remove, move) apply to.
pub proof fn law_highlight_is_cursor_row(a: App)
    requires
        app_wf(a),
        installed_total_spec(a) > 0,
    ensures
        ({
            let m = filtered_managed_spec(a).len();
            let e = filtered_external_spec(a).len();
            let rows = installed_rows_spec(m, e, movable_count(filtered_external_spec(a)));
            selected_row_spec(m, e, a.installed_selected as nat) matches Some(k) && 0 <= k
                < rows.len() && match installed_cursor_spec(a) {
                Some((true, i)) => rows[k] == InstalledRow::Managed(i as usize),
                Some((false, j)) => rows[k] == InstalledRow::External(j as usize),
                None => false,
            }
        }),
{
    lemma_installed_total_bound(a);
    let m = filtered_managed_spec(a).len();
    let e = filtered_external_spec(a).len();
    let mv = movable_count(filtered_external_spec(a));
    let managed = if m > 0 {
        seq![InstalledRow::ManagedHeading(m as usize)] + Seq::new(
            m,
            |i: int| InstalledRow::Managed(i as usize),
        )
    } else {
        Seq::<InstalledRow>::empty()
    };
    let gap = if m > 0 {
        seq![InstalledRow::Gap]
    } else {
        Seq::<InstalledRow>::empty()
    };
    let ext_rows = Seq::new(e, |i: int| InstalledRow::External(i as usize));
    let external = if e > 0 {
        gap + seq![InstalledRow::ExternalHeading(e as usize, mv as usize)] + ext_rows
    } else {
        Seq::<InstalledRow>::empty()
    };
    let rows = installed_rows_spec(m, e, mv);
    assert(rows == managed + external);
    let sel = a.installed_selected as int;
    let k = if sel < m + e {
        sel
    } else {
        m + e - 1
    };
    if k < m {
        assert(rows[1 + k] == managed[1 + k]);
    } else {
        let base = if m > 0 {
            m + 2
        } else {
            0
        };
        assert(managed.len() == if m > 0 { m + 1 } else { 0 });
        assert(external[gap.len() + 1 + (k - m)] == ext_rows[k - m]);
        assert(rows[base + 1 + (k - m)] == external[gap.len() + 1 + (k - m)]);
    }
}

} // verus!
