use vstd::prelude::*;

use crate::text::{
    ascii_alnum, chars_of, is_ascii_alnum, is_whitespace, is_ws, lemma_split_lines_nonempty,
    push_char, push_str, range_eq, range_starts_with, split_lines, starts_with, string_of_range,
    trim, trim_range, trim_start, trim_start_from,
};

verus! {

// ---------------------------------------------------------------------------
// Compacting a matched fragment
// ---------------------------------------------------------------------------

/// The words of `s`: its maximal runs of non-white-space characters, read
/// from the left one character at a time.
pub open spec fn words(s: Seq<char>) -> Seq<Seq<char>>
    decreases s.len(),
{
    if s.len() == 0 {
        Seq::<Seq<char>>::empty()
    } else {
        let prev = words(s.drop_last());
        let c = s.last();
        if is_ws(c) {
            prev
        } else if s.len() == 1 || is_ws(s[s.len() - 2]) {
            prev.push(seq![c])
        } else {
            prev.update(prev.len() - 1, prev.last().push(c))
        }
    }
}

/// The words joined with single spaces.
pub open spec fn join_words(ws: Seq<Seq<char>>) -> Seq<char>
    decreases ws.len(),
{
    if ws.len() == 0 {
        Seq::<char>::empty()
    } else if ws.len() == 1 {
        ws[0]
    } else {
        join_words(ws.drop_last()) + seq![' '] + ws.last()
    }
}

proof fn lemma_words_shape(s: Seq<char>)
    ensures
        forall|i: int| 0 <= i < words(s).len() ==> (#[trigger] words(s)[i]).len() > 0,
        s.len() > 0 && !is_ws(s.last()) ==> words(s).len() > 0,
    decreases s.len(),
{
    if s.len() > 0 {
        lemma_words_shape(s.drop_last());
        let prev = words(s.drop_last());
        let c = s.last();
        if !is_ws(c) && !(s.len() == 1 || is_ws(s[s.len() - 2])) {
            let p = s.drop_last();
            assert(p.last() == s[s.len() - 2]);
        }
    }
}

proof fn lemma_join_nonempty(ws: Seq<Seq<char>>)
    requires
        forall|i: int| 0 <= i < ws.len() ==> (#[trigger] ws[i]).len() > 0,
    ensures
        join_words(ws).len() == 0 <==> ws.len() == 0,
    decreases ws.len(),
{
    if ws.len() > 1 {
        let f = ws.drop_last();
        assert forall|i: int| 0 <= i < f.len() implies (#[trigger] f[i]).len() > 0 by {
            assert(f[i] == ws[i]);
        }
        lemma_join_nonempty(f);
    } else if ws.len() == 1 {
        assert(ws[0].len() > 0);
    }
}

/// The fragment with every run of white space collapsed to one space and none
/// at either end (`split_whitespace` then `join(" ")`).
pub fn compact_fragment(fragment: &str) -> (out: String)
    ensures
        out@ == join_words(words(fragment@)),
{
    let v = chars_of(fragment);
    let mut out = String::new();
    let mut i: usize = 0;
    let mut have_word = false;
    proof {
        assert(v@.take(0) =~= Seq::<char>::empty());
    }
    while i < v.len()
        invariant
            v@ == fragment@,
            i <= v.len(),
            out@ == join_words(words(v@.take(i as int))),
            have_word == (words(v@.take(i as int)).len() > 0),
        decreases v.len() - i,
    {
        let c = v[i];
        let ghost p = v@.take(i as int);
        let ghost q = v@.take(i + 1);
        assert(q.drop_last() =~= p);
        assert(q.last() == c);
        proof {
            lemma_words_shape(p);
            lemma_join_nonempty(words(p));
        }
        if !is_whitespace(c) {
            let fresh = i == 0 || is_whitespace(v[i - 1]);
            if fresh {
                assert(i > 0 ==> q[q.len() - 2] == v@[i - 1]);
                if have_word {
                    push_char(&mut out, ' ');
                }
                push_char(&mut out, c);
                assert(words(q) == words(p).push(seq![c]));
                let ghost w = words(p).push(seq![c]);
                assert(w.drop_last() =~= words(p));
                assert(out@ =~= join_words(w));
                have_word = true;
            } else {
                assert(q[q.len() - 2] == v@[i - 1]);
                assert(p.last() == v@[i - 1]);
                push_char(&mut out, c);
                let ghost wp = words(p);
                assert(wp.len() > 0);
                let ghost w = wp.update(wp.len() - 1, wp.last().push(c));
                assert(words(q) == w);
                proof {
                    if wp.len() == 1 {
                        assert(join_words(wp) == wp[0]);
                        assert(out@ =~= join_words(w));
                    } else {
                        assert(w.drop_last() =~= wp.drop_last());
                        assert(out@ =~= join_words(w));
                    }
                }
            }
        } else {
            assert(words(q) == words(p));
        }
        i = i + 1;
    }
    assert(v@.take(v.len() as int) =~= v@);
    out
}

// ---------------------------------------------------------------------------
// Finding identifiers
// ---------------------------------------------------------------------------

/// A character that can continue a Nix identifier for the output check.
pub open spec fn is_ident_char(c: char) -> bool {
    is_ascii_alnum(c) || c == '_'
}

/// `pat` occurs in `s` at `i`.
pub open spec fn occurs_at(s: Seq<char>, pat: Seq<char>, i: int) -> bool {
    0 <= i && i + pat.len() <= s.len() && s.subrange(i, i + pat.len()) == pat
}

/// The occurrence of `name` at `i` is not part of a longer identifier.
pub open spec fn isolated_at(s: Seq<char>, name: Seq<char>, i: int) -> bool {
    &&& (i == 0 || !is_ident_char(s[i - 1]))
    &&& (i + name.len() == s.len() || !is_ident_char(s[i + name.len()]))
}

/// Walks the non-overlapping occurrences of `name` in `s` from `from`, as
/// `match_indices` does, and tells whether one of them is isolated.
pub open spec fn isolated_match_from(s: Seq<char>, name: Seq<char>, from: int) -> bool
    decreases s.len() + 1 - from,
{
    if from < 0 || from + name.len() > s.len() {
        false
    } else if occurs_at(s, name, from) {
        isolated_at(s, name, from) || isolated_match_from(
            s,
            name,
            from + if name.len() == 0 {
                1
            } else {
                name.len() as int
            },
        )
    } else {
        isolated_match_from(s, name, from + 1)
    }
}

/// Whether `name` occurs in `source` as a whole identifier.
pub open spec fn has_identifier(source: Seq<char>, name: Seq<char>) -> bool {
    isolated_match_from(source, name, 0)
}

fn ident_char(c: char) -> (b: bool)
    ensures
        b == is_ident_char(c),
{
    ascii_alnum(c) || c == '_'
}

/// Whether `v` holds `name` as a whole identifier.
fn chars_contain_identifier(v: &Vec<char>, name: &Vec<char>) -> (b: bool)
    ensures
        b == has_identifier(v@, name@),
{
    let n = name.len();
    let step = if n == 0 {
        1
    } else {
        n
    };
    let mut from: usize = 0;
    while from <= v.len() && n <= v.len() - from
        invariant
            n == name.len(),
            step == if n == 0 {
                1
            } else {
                n
            },
            has_identifier(v@, name@) == isolated_match_from(v@, name@, from as int),
        decreases v.len() + 1 - from,
    {
        if range_eq(v, from, from + n, name) {
            let before_ok = from == 0 || !ident_char(v[from - 1]);
            let after_ok = from + n == v.len() || !ident_char(v[from + n]);
            if before_ok && after_ok {
                return true;
            }
            if step > v.len() - from {
                assert(!isolated_match_from(v@, name@, from + step));
                return false;
            }
            from = from + step;
        } else {
            assert(n > 0) by {
                if n == 0 {
                    assert(v@.subrange(from as int, from as int) =~= name@);
                }
            }
            from = from + 1;
        }
    }
    false
}

/// Whether `name` occurs in `source` as a whole identifier: some occurrence,
/// among the non-overlapping ones found from the left, has no letter, digit
/// or `_` on either side.
pub fn contains_identifier(source: &str, name: &str) -> (b: bool)
    ensures
        b == has_identifier(source@, name@),
{
    let v = chars_of(source);
    let w = chars_of(name);
    chars_contain_identifier(&v, &w)
}

// ---------------------------------------------------------------------------
// Classifying outputs
// ---------------------------------------------------------------------------

/// The output attributes that are recognised, each with its label.
pub open spec fn output_kinds() -> Seq<(Seq<char>, Seq<char>)> {
    seq![
        ("packages"@, "packages"@),
        ("nixosModules"@, "NixOS modules"@),
        ("homeManagerModules"@, "Home Manager modules"@),
        ("homeModules"@, "Home Manager modules"@),
        ("overlays"@, "overlays"@),
        ("devShells"@, "dev shells"@),
        ("apps"@, "apps"@),
        ("formatter"@, "formatter"@),
    ]
}

/// The labels of the first `k` kinds that `source` declares, each once, in
/// table order.
pub open spec fn outputs_upto(source: Seq<char>, k: int) -> Seq<Seq<char>>
    decreases k,
{
    if k <= 0 {
        Seq::<Seq<char>>::empty()
    } else {
        let prev = outputs_upto(source, k - 1);
        let (name, label) = output_kinds()[k - 1];
        if has_identifier(source, name) && !prev.contains(label) {
            prev.push(label)
        } else {
            prev
        }
    }
}

/// The labels of the kinds of output that `source` declares.
pub open spec fn classified_outputs(source: Seq<char>) -> Seq<Seq<char>> {
    outputs_upto(source, 8)
}

/// The texts of a list of strings.
pub open spec fn texts_of(v: Seq<String>) -> Seq<Seq<char>> {
    v.map_values(|s: String| s@)
}

/// Whether `v` holds a string equal to `s`.
pub fn contains_text(v: &Vec<String>, s: &str) -> (b: bool)
    ensures
        b == texts_of(v@).contains(s@),
{
    let mut i: usize = 0;
    while i < v.len()
        invariant
            i <= v.len(),
            forall|k: int| 0 <= k < i ==> v@[k]@ != s@,
        decreases v.len() - i,
    {
        let e = v[i].as_str();
        let a = chars_of(e);
        let b = chars_of(s);
        let n = a.len();
        if range_eq(&a, 0, n, &b) {
            assert(a@.subrange(0, n as int) =~= a@);
            assert(texts_of(v@)[i as int] == s@);
            return true;
        }
        assert(a@.subrange(0, n as int) =~= a@);
        i = i + 1;
    }
    assert forall|k: int| 0 <= k < texts_of(v@).len() implies texts_of(v@)[k] != s@ by {
        assert(texts_of(v@)[k] == v@[k]@);
    }
    false
}

/// Adds `label` when `name` is declared and the label is not there yet.
fn note_output(outputs: &mut Vec<String>, source: &Vec<char>, name: &str, label: &str)
    ensures
        texts_of(final(outputs)@) == if has_identifier(source@, name@) && !texts_of(
            old(outputs)@,
        ).contains(label@) {
            texts_of(old(outputs)@).push(label@)
        } else {
            texts_of(old(outputs)@)
        },
{
    let w = chars_of(name);
    if chars_contain_identifier(source, &w) && !contains_text(outputs, label) {
        outputs.push(String::from_str(label));
        assert(texts_of(outputs@) =~= texts_of(old(outputs)@).push(label@));
    }
}

/// Labels for the kinds of output a flake declares, each once, in a fixed
/// order.
pub fn classify_outputs(source: &str) -> (out: Vec<String>)
    ensures
        texts_of(out@) == classified_outputs(source@),
{
    let v = chars_of(source);
    let mut out: Vec<String> = Vec::new();
    assert(texts_of(out@) =~= outputs_upto(source@, 0));
    note_output(&mut out, &v, "packages", "packages");
    assert(texts_of(out@) == outputs_upto(source@, 1));
    note_output(&mut out, &v, "nixosModules", "NixOS modules");
    assert(texts_of(out@) == outputs_upto(source@, 2));
    note_output(&mut out, &v, "homeManagerModules", "Home Manager modules");
    assert(texts_of(out@) == outputs_upto(source@, 3));
    note_output(&mut out, &v, "homeModules", "Home Manager modules");
    assert(texts_of(out@) == outputs_upto(source@, 4));
    note_output(&mut out, &v, "overlays", "overlays");
    assert(texts_of(out@) == outputs_upto(source@, 5));
    note_output(&mut out, &v, "devShells", "dev shells");
    assert(texts_of(out@) == outputs_upto(source@, 6));
    note_output(&mut out, &v, "apps", "apps");
    assert(texts_of(out@) == outputs_upto(source@, 7));
    note_output(&mut out, &v, "formatter", "formatter");
    assert(texts_of(out@) == outputs_upto(source@, 8));
    out
}


// ---------------------------------------------------------------------------
// Classifying inputs
// ---------------------------------------------------------------------------

/// The first position at or after `from` where `pat` occurs in `s`.
pub open spec fn first_occurrence(s: Seq<char>, pat: Seq<char>, from: int) -> Option<int>
    decreases s.len() + 1 - from,
{
    if from < 0 || from + pat.len() > s.len() {
        None
    } else if occurs_at(s, pat, from) {
        Some(from)
    } else {
        first_occurrence(s, pat, from + 1)
    }
}

/// Scanning from `j` with `depth` braces open, the position of the `}` that
/// brings the depth back to zero.
pub open spec fn close_from(s: Seq<char>, j: int, depth: int) -> Option<int>
    decreases s.len() - j,
{
    if j < 0 || j >= s.len() {
        None
    } else if s[j] == '{' {
        close_from(s, j + 1, depth + 1)
    } else if s[j] == '}' {
        if depth - 1 == 0 {
            Some(j)
        } else {
            close_from(s, j + 1, depth - 1)
        }
    } else {
        close_from(s, j + 1, depth)
    }
}

/// The text between the brace at `open` and the brace that closes it.
pub open spec fn block_of(s: Seq<char>, open: int) -> Option<Seq<char>> {
    match close_from(s, open, 0) {
        Some(j) => Some(s.subrange(open + 1, j)),
        None => None,
    }
}

/// A character that can appear in an input's name.
pub open spec fn is_name_char(c: char) -> bool {
    is_ascii_alnum(c) || c == '_' || c == '-'
}

/// The longest prefix of `t` made of name characters.
pub open spec fn name_prefix(t: Seq<char>) -> Seq<char>
    decreases t.len(),
{
    if t.len() > 0 && is_name_char(t[0]) {
        seq![t[0]] + name_prefix(t.drop_first())
    } else {
        Seq::<char>::empty()
    }
}

/// The effect of one line of the inputs block on the names found so far:
/// a line that is neither blank nor a comment names the input its leading
/// name characters spell, unless it was named already.
pub open spec fn input_step(acc: Seq<Seq<char>>, line: Seq<char>) -> Seq<Seq<char>> {
    let t = trim_start(line);
    if t.len() == 0 || t[0] == '#' {
        acc
    } else {
        let n = name_prefix(t);
        if n.len() > 0 && !acc.contains(n) {
            acc.push(n)
        } else {
            acc
        }
    }
}

/// The names found in `lines`, one after another.
pub open spec fn fold_inputs(lines: Seq<Seq<char>>) -> Seq<Seq<char>>
    decreases lines.len(),
{
    if lines.len() == 0 {
        Seq::<Seq<char>>::empty()
    } else {
        input_step(fold_inputs(lines.drop_last()), lines.last())
    }
}

/// The inputs a flake declares: the names of the lines in the braces that
/// first follow the first `inputs`.
pub open spec fn classified_inputs(s: Seq<char>) -> Seq<Seq<char>> {
    match first_occurrence(s, "inputs"@, 0) {
        None => Seq::<Seq<char>>::empty(),
        Some(start) => match first_occurrence(s, seq!['{'], start) {
            None => Seq::<Seq<char>>::empty(),
            Some(open) => match block_of(s, open) {
                None => Seq::<Seq<char>>::empty(),
                Some(b) => fold_inputs(split_lines(b)),
            },
        },
    }
}

proof fn lemma_first_occurrence_range(s: Seq<char>, pat: Seq<char>, from: int)
    ensures
        first_occurrence(s, pat, from) matches Some(i) ==> from <= i && i + pat.len() <= s.len()
            && occurs_at(s, pat, i),
    decreases s.len() + 1 - from,
{
    if !(from < 0 || from + pat.len() > s.len()) && !occurs_at(s, pat, from) {
        lemma_first_occurrence_range(s, pat, from + 1);
    }
}

proof fn lemma_close_from_range(s: Seq<char>, j: int, depth: int)
    ensures
        close_from(s, j, depth) matches Some(k) ==> j <= k < s.len(),
    decreases s.len() - j,
{
    if 0 <= j < s.len() {
        lemma_close_from_range(s, j + 1, depth + 1);
        lemma_close_from_range(s, j + 1, depth - 1);
        lemma_close_from_range(s, j + 1, depth);
    }
}

/// The first position at or after `from` where `pat` occurs in `v`.
pub fn find_from(v: &Vec<char>, pat: &Vec<char>, from: usize) -> (r: Option<usize>)
    ensures
        r == match first_occurrence(v@, pat@, from as int) {
            Some(i) => Some(i as usize),
            None => None::<usize>,
        },
        r matches Some(i) ==> i + pat.len() <= v.len(),
{
    let n = pat.len();
    let mut i = from;
    proof {
        lemma_first_occurrence_range(v@, pat@, from as int);
    }
    while i <= v.len() && n <= v.len() - i
        invariant
            n == pat.len(),
            from <= i,
            first_occurrence(v@, pat@, from as int) == first_occurrence(v@, pat@, i as int),
        decreases v.len() + 1 - i,
    {
        if range_eq(v, i, i + n, pat) {
            return Some(i);
        }
        assert(n > 0) by {
            if n == 0 {
                assert(v@.subrange(i as int, i as int) =~= pat@);
            }
        }
        i = i + 1;
    }
    None
}

/// The position of the brace that closes the one at `open`.
fn block_close(v: &Vec<char>, open: usize) -> (r: Option<usize>)
    requires
        open <= v.len(),
    ensures
        r == match close_from(v@, open as int, 0) {
            Some(j) => Some(j as usize),
            None => None::<usize>,
        },
        r matches Some(j) ==> open < j < v.len(),
{
    proof {
        lemma_close_from_range(v@, open as int, 0);
    }
    let mut opens: usize = 0;
    let mut closes: usize = 0;
    let mut i = open;
    while i < v.len()
        invariant
            open <= i <= v.len(),
            opens + closes <= i - open,
            opens > 0 ==> i > open,
            close_from(v@, open as int, 0) == close_from(v@, i as int, opens - closes),
        decreases v.len() - i,
    {
        if v[i] == '{' {
            opens = opens + 1;
        } else if v[i] == '}' {
            closes = closes + 1;
            if opens == closes {
                return Some(i);
            }
        }
        i = i + 1;
    }
    None
}

/// The text between the brace at position `open` and the brace that closes
/// it, or `None` when it is never closed.
pub fn balanced_block(source: &str, open: usize) -> (r: Option<String>)
    requires
        open <= source@.len(),
    ensures
        r is Some <==> block_of(source@, open as int) is Some,
        r matches Some(b) ==> block_of(source@, open as int) == Some(b@),
{
    let v = chars_of(source);
    proof {
        lemma_close_from_range(v@, open as int, 0);
    }
    match block_close(&v, open) {
        Some(j) => {
            assert(close_from(source@, open as int, 0) == Some(j as int));
            Some(string_of_range(&v, open + 1, j))
        },
        None => None,
    }
}

/// The end of the leading name characters of `v[a..hi]`.
fn name_prefix_end(v: &Vec<char>, a: usize, hi: usize) -> (e: usize)
    requires
        a <= hi <= v.len(),
    ensures
        a <= e <= hi,
        v@.subrange(a as int, e as int) == name_prefix(v@.subrange(a as int, hi as int)),
{
    let mut e = a;
    assert(v@.subrange(a as int, a as int) + name_prefix(v@.subrange(a as int, hi as int))
        =~= name_prefix(v@.subrange(a as int, hi as int)));
    while e < hi && (ascii_alnum(v[e]) || v[e] == '_' || v[e] == '-')
        invariant
            a <= e <= hi <= v.len(),
            name_prefix(v@.subrange(a as int, hi as int)) == v@.subrange(a as int, e as int)
                + name_prefix(v@.subrange(e as int, hi as int)),
        decreases hi - e,
    {
        assert(v@.subrange(e as int, hi as int).drop_first() =~= v@.subrange(e + 1, hi as int));
        assert(v@.subrange(e as int, hi as int)[0] == v@[e as int]);
        assert(v@.subrange(a as int, e as int) + seq![v@[e as int]] =~= v@.subrange(
            a as int,
            e + 1,
        ));
        e = e + 1;
    }
    assert(v@.subrange(a as int, e as int) + name_prefix(v@.subrange(e as int, hi as int))
        =~= v@.subrange(a as int, e as int)) by {
        if e < hi {
            assert(v@.subrange(e as int, hi as int)[0] == v@[e as int]);
        }
    }
    e
}

/// Applies one line of the inputs block, `v[lo..hi]`, to the names found.
fn input_line(v: &Vec<char>, lo: usize, hi: usize, inputs: &mut Vec<String>)
    requires
        lo <= hi <= v.len(),
    ensures
        texts_of(final(inputs)@) == input_step(
            texts_of(old(inputs)@),
            v@.subrange(lo as int, hi as int),
        ),
{
    let a = trim_start_from(v, lo, hi);
    if a == hi || v[a] == '#' {
        return;
    }
    assert(v@.subrange(a as int, hi as int)[0] == v@[a as int]);
    let e = name_prefix_end(v, a, hi);
    if e > a {
        let name = string_of_range(v, a, e);
        if !contains_text(inputs, name.as_str()) {
            inputs.push(name);
            assert(texts_of(inputs@) =~= texts_of(old(inputs)@).push(v@.subrange(
                a as int,
                e as int,
            )));
        }
    }
}

/// The names of the inputs a flake declares, each once, in order of
/// appearance.
pub fn classify_inputs(source: &str) -> (out: Vec<String>)
    ensures
        texts_of(out@) == classified_inputs(source@),
{
    let v = chars_of(source);
    let key = chars_of("inputs");
    let brace = chars_of("{");
    proof {
        reveal_strlit("{");
        assert(brace@ =~= seq!['{']);
    }
    let mut out: Vec<String> = Vec::new();
    proof {
        lemma_first_occurrence_range(v@, key@, 0);
    }
    let start = match find_from(&v, &key, 0) {
        Some(s) => s,
        None => {
            assert(texts_of(out@) =~= Seq::<Seq<char>>::empty());
            return out;
        },
    };
    assert(first_occurrence(source@, "inputs"@, 0) == Some(start as int));
    proof {
        lemma_first_occurrence_range(v@, brace@, start as int);
    }
    let open = match find_from(&v, &brace, start) {
        Some(o) => o,
        None => {
            assert(texts_of(out@) =~= Seq::<Seq<char>>::empty());
            return out;
        },
    };
    assert(first_occurrence(source@, seq!['{'], start as int) == Some(open as int));
    proof {
        lemma_close_from_range(v@, open as int, 0);
    }
    let close = match block_close(&v, open) {
        Some(c) => c,
        None => {
            assert(texts_of(out@) =~= Seq::<Seq<char>>::empty());
            return out;
        },
    };
    let lo = open + 1;
    let ghost block = v@.subrange(lo as int, close as int);
    assert(block_of(source@, open as int) == Some(block));
    let mut line_start = lo;
    let mut i = lo;
    proof {
        assert(v@.subrange(lo as int, lo as int) =~= Seq::<char>::empty());
        lemma_split_lines_nonempty(Seq::<char>::empty());
        assert(split_lines(Seq::<char>::empty()).drop_last() =~= Seq::<Seq<char>>::empty());
        assert(texts_of(out@) =~= Seq::<Seq<char>>::empty());
    }
    while i < close
        invariant
            lo <= line_start <= i <= close < v.len(),
            split_lines(v@.subrange(lo as int, i as int)).len() >= 1,
            split_lines(v@.subrange(lo as int, i as int)).last() == v@.subrange(
                line_start as int,
                i as int,
            ),
            texts_of(out@) == fold_inputs(split_lines(v@.subrange(lo as int, i as int)).drop_last()),
        decreases close - i,
    {
        let ghost before = split_lines(v@.subrange(lo as int, i as int));
        assert(v@.subrange(lo as int, i + 1).drop_last() =~= v@.subrange(lo as int, i as int));
        assert(v@.subrange(lo as int, i + 1).last() == v@[i as int]);
        if v[i] == '\n' {
            input_line(&v, line_start, i, &mut out);
            let ghost after = split_lines(v@.subrange(lo as int, i + 1));
            assert(after == before.push(Seq::<char>::empty()));
            assert(after.drop_last() =~= before);
            assert(before =~= before.drop_last().push(before.last()));
            line_start = i + 1;
            assert(v@.subrange(line_start as int, i + 1) =~= Seq::<char>::empty());
        } else {
            let ghost after = split_lines(v@.subrange(lo as int, i + 1));
            assert(after == before.update(before.len() - 1, before.last().push(v@[i as int])));
            assert(after.drop_last() =~= before.drop_last());
            assert(after.last() =~= v@.subrange(line_start as int, i + 1));
        }
        i = i + 1;
    }
    input_line(&v, line_start, close, &mut out);
    proof {
        let all = split_lines(block);
        assert(all =~= all.drop_last().push(all.last()));
    }
    out
}


// ---------------------------------------------------------------------------
// Search results and details
// ---------------------------------------------------------------------------

/// How many flakes one code search asks for.
pub const MAX_FLAKE_RESULTS: usize = 20;

/// One flake found by the code search.
pub struct FlakeHit {
    pub repo: String,
    pub repo_url: String,
    pub path: String,
    pub match_fragment: Option<String>,
    /// The API path of the flake file's contents.
    pub content_url: String,
}

/// The prefix of GitHub API URLs.
pub open spec fn api_prefix() -> Seq<char> {
    "https://api.github.com/"@
}

/// An API URL without its host part, as `gh api` takes it; other URLs stay.
pub open spec fn api_path(url: Seq<char>) -> Seq<char> {
    if starts_with(url, api_prefix()) {
        url.skip(api_prefix().len() as int)
    } else {
        url
    }
}

/// `url` without the GitHub API host prefix, when it has it.
pub fn strip_api_prefix(url: &str) -> (p: String)
    ensures
        p@ == api_path(url@),
{
    let v = chars_of(url);
    let pre = chars_of("https://api.github.com/");
    if range_starts_with(&v, 0, v.len(), &pre) {
        assert(v@.subrange(0, v.len() as int) =~= v@);
        let p = string_of_range(&v, pre.len(), v.len());
        assert(p@ =~= url@.skip(api_prefix().len() as int));
        p
    } else {
        assert(v@.subrange(0, v.len() as int) =~= v@);
        String::from_str(url)
    }
}

impl FlakeHit {
    /// The API path of the flake file's contents.
    pub open spec fn content_path(&self) -> Seq<char> {
        self.content_url@
    }

    /// A hit from one code-search item: its repository, URL and path, the
    /// first text match compacted, and the item's API URL.
    pub fn from_search_item(
        repo: String,
        repo_url: String,
        path: String,
        first_fragment: Option<String>,
        url: String,
    ) -> (h: FlakeHit)
        ensures
            h.repo == repo,
            h.repo_url == repo_url,
            h.path == path,
            match first_fragment {
                Some(f) => h.match_fragment matches Some(m) && m@ == join_words(words(f@)),
                None => h.match_fragment is None,
            },
            h.content_path() == api_path(url@),
    {
        let match_fragment = match first_fragment {
            Some(f) => Some(compact_fragment(f.as_str())),
            None => None,
        };
        FlakeHit { repo, repo_url, path, match_fragment, content_url: strip_api_prefix(url.as_str()) }
    }

    /// The API path of the flake file's contents.
    pub fn content_url(&self) -> (u: &str)
        ensures
            u@ == self.content_path(),
    {
        self.content_url.as_str()
    }
}

/// The code-search query for `query`: flake files at a repository's root,
/// matching the trimmed query when there is one.
pub open spec fn flake_query(query: Seq<char>) -> Seq<char> {
    if trim(query).len() == 0 {
        "filename:flake.nix path:/"@
    } else {
        trim(query) + " in:file filename:flake.nix path:/"@
    }
}

/// The code-search query for `query`.
pub fn flake_search_query(query: &str) -> (q: String)
    ensures
        q@ == flake_query(query@),
{
    let v = chars_of(query);
    let (a, b) = trim_range(&v, 0, v.len());
    assert(v@.subrange(0, v.len() as int) =~= v@);
    if a == b {
        String::from_str("filename:flake.nix path:/")
    } else {
        let mut q = string_of_range(&v, a, b);
        push_str(&mut q, " in:file filename:flake.nix path:/");
        q
    }
}

/// The `gh api` arguments of a code search for `query`.
pub fn code_search_args(query: &str) -> (args: Vec<String>)
    ensures
        texts_of(args@) == seq![
            "--method"@,
            "GET"@,
            "-H"@,
            "Accept: application/vnd.github.text-match+json"@,
            "-H"@,
            "X-GitHub-Api-Version: 2026-03-10"@,
            "search/code"@,
            "-f"@,
            "q="@ + flake_query(query@),
            "-f"@,
            "per_page=20"@,
        ],
{
    let mut q = String::from_str("q=");
    let body = flake_search_query(query);
    push_str(&mut q, body.as_str());
    let args = vec![
        String::from_str("--method"),
        String::from_str("GET"),
        String::from_str("-H"),
        String::from_str("Accept: application/vnd.github.text-match+json"),
        String::from_str("-H"),
        String::from_str("X-GitHub-Api-Version: 2026-03-10"),
        String::from_str("search/code"),
        String::from_str("-f"),
        q,
        String::from_str("-f"),
        String::from_str("per_page=20"),
    ];
    assert(texts_of(args@) =~= seq![
        "--method"@,
        "GET"@,
        "-H"@,
        "Accept: application/vnd.github.text-match+json"@,
        "-H"@,
        "X-GitHub-Api-Version: 2026-03-10"@,
        "search/code"@,
        "-f"@,
        "q="@ + flake_query(query@),
        "-f"@,
        "per_page=20"@,
    ]);
    args
}

/// The `gh api` arguments that fetch a hit's repository metadata.
pub fn repository_args(hit: &FlakeHit) -> (args: Vec<String>)
    ensures
        texts_of(args@) == seq!["-H"@, "Accept: application/vnd.github+json"@, "repos/"@ + hit.repo@],
{
    let mut r = String::from_str("repos/");
    push_str(&mut r, hit.repo.as_str());
    let args = vec![String::from_str("-H"), String::from_str("Accept: application/vnd.github+json"), r];
    assert(texts_of(args@) =~= seq![
        "-H"@,
        "Accept: application/vnd.github+json"@,
        "repos/"@ + hit.repo@,
    ]);
    args
}

/// The `gh api` arguments that fetch a hit's flake file.
pub fn source_args(hit: &FlakeHit) -> (args: Vec<String>)
    ensures
        texts_of(args@) == seq![
            "-H"@,
            "Accept: application/vnd.github.raw+json"@,
            hit.content_path(),
        ],
{
    let args = vec![
        String::from_str("-H"),
        String::from_str("Accept: application/vnd.github.raw+json"),
        String::from_str(hit.content_url()),
    ];
    assert(texts_of(args@) =~= seq![
        "-H"@,
        "Accept: application/vnd.github.raw+json"@,
        hit.content_path(),
    ]);
    args
}

/// `o` unless it holds only white space.
pub open spec fn non_blank_spec(o: Option<String>) -> Option<String> {
    match o {
        Some(v) => if trim(v@).len() > 0 {
            Some(v)
        } else {
            None
        },
        None => None,
    }
}

/// Drops a value that holds only white space.
pub fn non_blank(o: Option<String>) -> (r: Option<String>)
    ensures
        r == non_blank_spec(o),
{
    match o {
        Some(v) => {
            let c = chars_of(v.as_str());
            let (a, b) = trim_range(&c, 0, c.len());
            assert(c@.subrange(0, c.len() as int) =~= c@);
            if a < b {
                Some(v)
            } else {
                None
            }
        },
        None => None,
    }
}

/// What the repository endpoint reports of a repository.
pub struct RepositoryInfo {
    pub description: Option<String>,
    pub stargazers_count: u64,
    pub topics: Vec<String>,
    pub homepage: Option<String>,
    pub default_branch: String,
    pub pushed_at: Option<String>,
    pub archived: bool,
}

/// The details shown for a flake.
pub struct FlakeDetails {
    pub repo: String,
    pub repo_url: String,
    pub path: String,
    pub description: Option<String>,
    pub stars: u64,
    pub topics: Vec<String>,
    pub homepage: Option<String>,
    pub default_branch: String,
    pub pushed_at: Option<String>,
    pub archived: bool,
    pub inputs: Vec<String>,
    pub outputs: Vec<String>,
}

/// The details of `hit` from its repository's metadata and its flake file.
pub fn flake_details(hit: &FlakeHit, repository: RepositoryInfo, source: &str) -> (d: FlakeDetails)
    ensures
        d.repo == hit.repo,
        d.repo_url == hit.repo_url,
        d.path == hit.path,
        d.description == non_blank_spec(repository.description),
        d.stars == repository.stargazers_count,
        d.topics == repository.topics,
        d.homepage == non_blank_spec(repository.homepage),
        d.default_branch == repository.default_branch,
        d.pushed_at == repository.pushed_at,
        d.archived == repository.archived,
        texts_of(d.inputs@) == classified_inputs(source@),
        texts_of(d.outputs@) == classified_outputs(source@),
{
    FlakeDetails {
        repo: hit.repo.clone(),
        repo_url: hit.repo_url.clone(),
        path: hit.path.clone(),
        description: non_blank(repository.description),
        stars: repository.stargazers_count,
        topics: repository.topics,
        homepage: non_blank(repository.homepage),
        default_branch: repository.default_branch,
        pushed_at: repository.pushed_at,
        archived: repository.archived,
        inputs: classify_inputs(source),
        outputs: classify_outputs(source),
    }
}


// ---------------------------------------------------------------------------
// Laws of the source readers
// ---------------------------------------------------------------------------

/// `name` occurs in `s` somewhere with no identifier character on either
/// side.
pub open spec fn has_isolated_occurrence(s: Seq<char>, name: Seq<char>) -> bool {
    exists|i: int| #[trigger] occurs_at(s, name, i) && isolated_at(s, name, i)
}

proof fn lemma_isolated_match_from(s: Seq<char>, name: Seq<char>, from: int)
    requires
        name.len() > 0,
        forall|k: int| 0 <= k < name.len() ==> is_ident_char(#[trigger] name[k]),
        from >= 0,
    ensures
        isolated_match_from(s, name, from) <==> exists|i: int|
            i >= from && #[trigger] occurs_at(s, name, i) && isolated_at(s, name, i),
    decreases s.len() + 1 - from,
{
    if from + name.len() > s.len() {
    } else if occurs_at(s, name, from) {
        let next = from + name.len();
        lemma_isolated_match_from(s, name, next);
        if exists|i: int| i >= from && #[trigger] occurs_at(s, name, i) && isolated_at(s, name, i) {
            let i = choose|i: int| i >= from && #[trigger] occurs_at(s, name, i) && isolated_at(s, name, i);
            if from < i < next {
                assert(s.subrange(from, next)[i - 1 - from] == s[i - 1]);
                assert(is_ident_char(name[i - 1 - from]));
            }
        }
    } else {
        lemma_isolated_match_from(s, name, from + 1);
        if exists|i: int| i >= from && #[trigger] occurs_at(s, name, i) && isolated_at(s, name, i) {
            let i = choose|i: int| i >= from && #[trigger] occurs_at(s, name, i) && isolated_at(s, name, i);
            assert(i != from);
        }
    }
}

/// For a name made of identifier characters, the left-to-right walk over
/// non-overlapping occurrences finds an isolated one exactly when one
/// exists: the walk skips no isolated occurrence.
pub proof fn law_identifier_is_isolated_occurrence(s: Seq<char>, name: Seq<char>)
    requires
        name.len() > 0,
        forall|k: int| 0 <= k < name.len() ==> is_ident_char(#[trigger] name[k]),
    ensures
        has_identifier(s, name) <==> has_isolated_occurrence(s, name),
{
    lemma_isolated_match_from(s, name, 0);
}

proof fn lemma_words_of_blank_end(p: Seq<char>)
    ensures
        words(p.push(' ')) == words(p),
{
    assert(p.push(' ').drop_last() =~= p);
}

proof fn lemma_words_append_word(p: Seq<char>, b: Seq<char>)
    requires
        b.len() > 0,
        forall|k: int| 0 <= k < b.len() ==> !is_ws(#[trigger] b[k]),
        p.len() == 0 || is_ws(p.last()),
    ensures
        words(p + b) == words(p).push(b),
    decreases b.len(),
{
    let q = p + b;
    assert(q.drop_last() =~= p + b.drop_last());
    assert(q.last() == b.last());
    if b.len() == 1 {
        assert(b =~= seq![b.last()]);
        if q.len() > 1 {
            assert(q[q.len() - 2] == p.last());
        }
    } else {
        let b1 = b.drop_last();
        assert forall|k: int| 0 <= k < b1.len() implies !is_ws(#[trigger] b1[k]) by {
            assert(b1[k] == b[k]);
        }
        lemma_words_append_word(p, b1);
        assert(q[q.len() - 2] == b[b.len() - 2]);
        assert(b1.push(b.last()) =~= b);
        let w = words(p).push(b1);
        assert(w.last() == b1);
        assert(w.update(w.len() - 1, w.last().push(b.last())) =~= words(p).push(b));
    }
}

proof fn lemma_words_chars(s: Seq<char>)
    ensures
        forall|i: int, k: int|
            0 <= i < words(s).len() && 0 <= k < words(s)[i].len() ==> !is_ws(
                #[trigger] words(s)[i][k],
            ),
        forall|i: int| 0 <= i < words(s).len() ==> (#[trigger] words(s)[i]).len() > 0,
    decreases s.len(),
{
    lemma_words_shape(s);
    if s.len() > 0 {
        let p = s.drop_last();
        lemma_words_chars(p);
        lemma_words_shape(p);
        let prev = words(p);
        let c = s.last();
        if is_ws(c) {
        } else if s.len() == 1 || is_ws(s[s.len() - 2]) {
            assert forall|i: int, k: int|
                0 <= i < words(s).len() && 0 <= k < words(s)[i].len() implies !is_ws(
                #[trigger] words(s)[i][k],
            ) by {
                if i < prev.len() {
                    assert(words(s)[i] == prev[i]);
                } else {
                    assert(words(s)[i] == seq![c]);
                }
            }
        } else {
            assert(p.last() == s[s.len() - 2]);
            assert(prev.len() > 0);
            assert forall|i: int, k: int|
                0 <= i < words(s).len() && 0 <= k < words(s)[i].len() implies !is_ws(
                #[trigger] words(s)[i][k],
            ) by {
                if i < prev.len() - 1 {
                    assert(words(s)[i] == prev[i]);
                } else {
                    assert(words(s)[i] == prev.last().push(c));
                    if k < prev.last().len() {
                        assert(words(s)[i][k] == prev[prev.len() - 1][k]);
                    }
                }
            }
        }
    }
}

proof fn lemma_words_of_join(ws: Seq<Seq<char>>)
    requires
        forall|i: int| 0 <= i < ws.len() ==> (#[trigger] ws[i]).len() > 0,
        forall|i: int, k: int| 0 <= i < ws.len() && 0 <= k < ws[i].len() ==> !is_ws(
            #[trigger] ws[i][k],
        ),
    ensures
        words(join_words(ws)) == ws,
    decreases ws.len(),
{
    if ws.len() == 0 {
    } else if ws.len() == 1 {
        assert(ws[0].len() > 0);
        assert forall|k: int| 0 <= k < ws[0].len() implies !is_ws(#[trigger] ws[0][k]) by {}
        lemma_words_append_word(Seq::<char>::empty(), ws[0]);
        assert(Seq::<char>::empty() + ws[0] =~= ws[0]);
        assert(ws =~= seq![ws[0]]);
    } else {
        let f = ws.drop_last();
        assert forall|i: int| 0 <= i < f.len() implies (#[trigger] f[i]).len() > 0 by {
            assert(f[i] == ws[i]);
        }
        assert forall|i: int, k: int| 0 <= i < f.len() && 0 <= k < f[i].len() implies !is_ws(
            #[trigger] f[i][k],
        ) by {
            assert(f[i] == ws[i]);
        }
        lemma_words_of_join(f);
        let j = join_words(f);
        let last = ws.last();
        assert(last == ws[ws.len() - 1]);
        assert forall|k: int| 0 <= k < last.len() implies !is_ws(#[trigger] last[k]) by {
            assert(last[k] == ws[ws.len() - 1][k]);
        }
        assert(j + seq![' '] =~= j.push(' '));
        lemma_words_of_blank_end(j);
        lemma_words_append_word(j.push(' '), last);
        assert(ws =~= f.push(last));
    }
}

/// Compacting keeps the words of the fragment, in order, and compacting
/// again changes nothing.
pub proof fn law_compact_fragment(s: Seq<char>)
    ensures
        words(join_words(words(s))) == words(s),
        join_words(words(join_words(words(s)))) == join_words(words(s)),
{
    lemma_words_chars(s);
    lemma_words_of_join(words(s));
}

/// Every label among the first `k` kinds' is the label of one of them.
proof fn lemma_outputs_upto_from_kinds(source: Seq<char>, k: int)
    requires
        0 <= k <= 8,
    ensures
        forall|x: Seq<char>|
            #[trigger] outputs_upto(source, k).contains(x) ==> exists|j: int|
                0 <= j < k && output_kinds()[j].1 == x,
    decreases k,
{
    if k > 0 {
        lemma_outputs_upto_from_kinds(source, k - 1);
        let prev = outputs_upto(source, k - 1);
        let label = output_kinds()[k - 1].1;
        assert forall|x: Seq<char>| #[trigger] outputs_upto(source, k).contains(x) implies exists|
            j: int,
        | 0 <= j < k && output_kinds()[j].1 == x by {
            if prev.contains(x) {
                let j = choose|j: int| 0 <= j < k - 1 && output_kinds()[j].1 == x;
                assert(0 <= j < k && output_kinds()[j].1 == x);
            } else {
                let o = outputs_upto(source, k);
                let m = choose|m: int| 0 <= m < o.len() && o[m] == x;
                if m < prev.len() {
                    assert(prev[m] == x);
                } else {
                    assert(x == label);
                    assert(output_kinds()[k - 1].1 == x);
                }
            }
        }
    }
}

/// One label when `b` holds, else none.
pub open spec fn label_if(b: bool, l: Seq<char>) -> Seq<Seq<char>> {
    if b {
        seq![l]
    } else {
        Seq::<Seq<char>>::empty()
    }
}

/// The labels of the kinds of output that `source` declares, stated
/// directly: each label once, in the table's order, Home Manager modules
/// under either of their two attribute names.
pub open spec fn declared_outputs(source: Seq<char>) -> Seq<Seq<char>> {
    label_if(has_identifier(source, "packages"@), "packages"@) + label_if(
        has_identifier(source, "nixosModules"@),
        "NixOS modules"@,
    ) + label_if(
        has_identifier(source, "homeManagerModules"@) || has_identifier(source, "homeModules"@),
        "Home Manager modules"@,
    ) + label_if(has_identifier(source, "overlays"@), "overlays"@) + label_if(
        has_identifier(source, "devShells"@),
        "dev shells"@,
    ) + label_if(has_identifier(source, "apps"@), "apps"@) + label_if(
        has_identifier(source, "formatter"@),
        "formatter"@,
    )
}

/// The labels of the table differ, but for the two names of Home Manager
/// modules.
proof fn lemma_labels_differ(j: int, k: int)
    requires
        0 <= j < k < 8,
        !(j == 2 && k == 3),
    ensures
        output_kinds()[j].1 != output_kinds()[k].1,
{
    reveal_strlit("packages");
    reveal_strlit("NixOS modules");
    reveal_strlit("Home Manager modules");
    reveal_strlit("overlays");
    reveal_strlit("dev shells");
    reveal_strlit("apps");
    reveal_strlit("formatter");
    let kinds = output_kinds();
    assert(kinds[0].1.len() == 8 && kinds[1].1.len() == 13 && kinds[2].1.len() == 20
        && kinds[3].1.len() == 20 && kinds[4].1.len() == 8 && kinds[5].1.len() == 10
        && kinds[6].1.len() == 4 && kinds[7].1.len() == 9);
    assert(kinds[0].1[0] == 'p' && kinds[4].1[0] == 'o');
    assert(j == 0 || j == 1 || j == 2 || j == 3 || j == 4 || j == 5 || j == 6);
    assert(k == 1 || k == 2 || k == 3 || k == 4 || k == 5 || k == 6 || k == 7);
}

/// The classified outputs are exactly the declared ones: the table walk
/// adds each declared label once, in order.
#[verifier::rlimit(50)]
pub proof fn law_classified_outputs(source: Seq<char>)
    ensures
        classified_outputs(source) == declared_outputs(source),
{
    reveal_strlit("packages");
    reveal_strlit("NixOS modules");
    reveal_strlit("Home Manager modules");
    reveal_strlit("overlays");
    reveal_strlit("dev shells");
    reveal_strlit("apps");
    reveal_strlit("formatter");
    let kinds = output_kinds();
    let has = |n: Seq<char>| has_identifier(source, n);
    assert(kinds[3].1 == kinds[2].1);
    let e1 = label_if(has(kinds[0].0), kinds[0].1);
    let e2 = e1 + label_if(has(kinds[1].0), kinds[1].1);
    let e3 = e2 + label_if(has(kinds[2].0), kinds[2].1);
    let e4 = e2 + label_if(has(kinds[2].0) || has(kinds[3].0), kinds[2].1);
    let e5 = e4 + label_if(has(kinds[4].0), kinds[4].1);
    let e6 = e5 + label_if(has(kinds[5].0), kinds[5].1);
    let e7 = e6 + label_if(has(kinds[6].0), kinds[6].1);
    let e8 = e7 + label_if(has(kinds[7].0), kinds[7].1);
    assert(outputs_upto(source, 0) =~= Seq::<Seq<char>>::empty());
    lemma_outputs_upto_from_kinds(source, 0);
    assert(outputs_upto(source, 1) =~= e1);
    lemma_outputs_upto_from_kinds(source, 1);
    if outputs_upto(source, 1).contains(kinds[1].1) {
        let j = choose|j: int| 0 <= j < 1 && output_kinds()[j].1 == kinds[1].1;
        lemma_labels_differ(j, 1);
    }
    assert(outputs_upto(source, 2) =~= e2);
    lemma_outputs_upto_from_kinds(source, 2);
    if outputs_upto(source, 2).contains(kinds[2].1) {
        let j = choose|j: int| 0 <= j < 2 && output_kinds()[j].1 == kinds[2].1;
        lemma_labels_differ(j, 2);
    }
    assert(outputs_upto(source, 3) =~= e3);
    if has(kinds[2].0) {
        assert(outputs_upto(source, 3)[e2.len() as int] == kinds[3].1);
        assert(outputs_upto(source, 3).contains(kinds[3].1));
    }
    assert(outputs_upto(source, 4) =~= e4);
    lemma_outputs_upto_from_kinds(source, 4);
    if outputs_upto(source, 4).contains(kinds[4].1) {
        let j = choose|j: int| 0 <= j < 4 && output_kinds()[j].1 == kinds[4].1;
        lemma_labels_differ(j, 4);
    }
    assert(outputs_upto(source, 5) =~= e5);
    lemma_outputs_upto_from_kinds(source, 5);
    if outputs_upto(source, 5).contains(kinds[5].1) {
        let j = choose|j: int| 0 <= j < 5 && output_kinds()[j].1 == kinds[5].1;
        lemma_labels_differ(j, 5);
    }
    assert(outputs_upto(source, 6) =~= e6);
    lemma_outputs_upto_from_kinds(source, 6);
    if outputs_upto(source, 6).contains(kinds[6].1) {
        let j = choose|j: int| 0 <= j < 6 && output_kinds()[j].1 == kinds[6].1;
        lemma_labels_differ(j, 6);
    }
    assert(outputs_upto(source, 7) =~= e7);
    lemma_outputs_upto_from_kinds(source, 7);
    if outputs_upto(source, 7).contains(kinds[7].1) {
        let j = choose|j: int| 0 <= j < 7 && output_kinds()[j].1 == kinds[7].1;
        lemma_labels_differ(j, 7);
    }
    assert(outputs_upto(source, 8) =~= e8);
    assert(e8 =~= declared_outputs(source));
}


/// The first occurrence from `from` exists exactly when some occurrence at
/// or after `from` does.
pub proof fn lemma_first_occurrence_exists(s: Seq<char>, pat: Seq<char>, from: int)
    requires
        from >= 0,
    ensures
        first_occurrence(s, pat, from) is Some <==> exists|i: int|
            i >= from && #[trigger] occurs_at(s, pat, i),
    decreases s.len() + 1 - from,
{
    if from + pat.len() > s.len() {
        if exists|i: int| i >= from && #[trigger] occurs_at(s, pat, i) {
            let i = choose|i: int| i >= from && #[trigger] occurs_at(s, pat, i);
            assert(i + pat.len() <= s.len());
        }
    } else if !occurs_at(s, pat, from) {
        lemma_first_occurrence_exists(s, pat, from + 1);
        if exists|i: int| i >= from && #[trigger] occurs_at(s, pat, i) {
            let i = choose|i: int| i >= from && #[trigger] occurs_at(s, pat, i);
            assert(i != from);
            assert(i >= from + 1 && occurs_at(s, pat, i));
        }
    }
}

/// The name a line of an inputs block declares: the leading name
/// characters of a line that is neither blank nor a comment, when there
/// are any.
pub open spec fn declared_name(line: Seq<char>) -> Option<Seq<char>> {
    let t = trim_start(line);
    if t.len() == 0 || t[0] == '#' || name_prefix(t).len() == 0 {
        None
    } else {
        Some(name_prefix(t))
    }
}

/// The names that some line of `lines` declares.
pub open spec fn declared_names(lines: Seq<Seq<char>>) -> Set<Seq<char>> {
    Set::new(|n: Seq<char>| exists|i: int| 0 <= i < lines.len() && #[trigger] declared_name(lines[i]) == Some(n))
}

/// Reading the lines of an inputs block lists every declared name exactly
/// once: no name twice, and the names listed are those the lines declare.
pub proof fn law_input_names(lines: Seq<Seq<char>>)
    ensures
        fold_inputs(lines).no_duplicates(),
        fold_inputs(lines).to_set() == declared_names(lines),
    decreases lines.len(),
{
    if lines.len() > 0 {
        let init = lines.drop_last();
        let last = lines.last();
        law_input_names(init);
        let acc = fold_inputs(init);
        let out = fold_inputs(lines);
        assert(out == input_step(acc, last));
        assert forall|i: int| 0 <= i < init.len() implies init[i] == lines[i] by {}
        let t = trim_start(last);
        if declared_name(last) is Some && !acc.contains(name_prefix(t)) {
            let n = name_prefix(t);
            assert(out == acc.push(n));
            assert forall|i: int, j: int| 0 <= i < out.len() && 0 <= j < out.len() && i != j implies out[i]
                != out[j] by {
                if i < acc.len() && j < acc.len() {
                    assert(out[i] == acc[i] && out[j] == acc[j]);
                } else if i < acc.len() {
                    assert(out[i] == acc[i]);
                    assert(acc.contains(out[i]));
                } else if j < acc.len() {
                    assert(out[j] == acc[j]);
                    assert(acc.contains(out[j]));
                }
            }
            assert forall|x: Seq<char>| out.to_set().contains(x) <==> declared_names(lines).contains(x) by {
                if out.to_set().contains(x) {
                    let k = choose|k: int| 0 <= k < out.len() && out[k] == x;
                    if k < acc.len() {
                        assert(acc[k] == x);
                        assert(acc.to_set().contains(x));
                        let i = choose|i: int| 0 <= i < init.len() && #[trigger] declared_name(init[i]) == Some(x);
                        assert(declared_name(lines[i]) == Some(x));
                    } else {
                        assert(declared_name(lines[lines.len() - 1]) == Some(x));
                    }
                }
                if declared_names(lines).contains(x) {
                    let i = choose|i: int| 0 <= i < lines.len() && #[trigger] declared_name(lines[i]) == Some(x);
                    if i < init.len() {
                        assert(declared_name(init[i]) == Some(x));
                        assert(declared_names(init).contains(x));
                        assert(acc.to_set().contains(x));
                        let k = choose|k: int| 0 <= k < acc.len() && acc[k] == x;
                        assert(out[k] == x);
                    } else {
                        assert(out[acc.len() as int] == x);
                    }
                }
            }
            assert(out.to_set() =~= declared_names(lines));
        } else {
            assert(out == acc);
            assert forall|x: Seq<char>| out.to_set().contains(x) <==> declared_names(lines).contains(x) by {
                if out.to_set().contains(x) {
                    assert(declared_names(init).contains(x));
                    let i = choose|i: int| 0 <= i < init.len() && #[trigger] declared_name(init[i]) == Some(x);
                    assert(declared_name(lines[i]) == Some(x));
                }
                if declared_names(lines).contains(x) {
                    let i = choose|i: int| 0 <= i < lines.len() && #[trigger] declared_name(lines[i]) == Some(x);
                    if i < init.len() {
                        assert(declared_name(init[i]) == Some(x));
                        assert(declared_names(init).contains(x));
                    } else {
                        assert(declared_name(last) == Some(x));
                        assert(acc.contains(x));
                        let k = choose|k: int| 0 <= k < acc.len() && acc[k] == x;
                        assert(acc.to_set().contains(x));
                    }
                }
            }
            assert(out.to_set() =~= declared_names(lines));
        }
    } else {
        assert(fold_inputs(lines).to_set() =~= declared_names(lines));
    }
}

/// `x` is declared on some line of `lines` before any line declares `y`.
pub open spec fn declared_before(lines: Seq<Seq<char>>, x: Seq<char>, y: Seq<char>) -> bool {
    exists|i: int|
        0 <= i < lines.len() && #[trigger] declared_name(lines[i]) == Some(x) && forall|j: int|
            0 <= j <= i ==> #[trigger] declared_name(lines[j]) != Some(y)
}

/// The names of an inputs block come in the order of their first
/// declaration: a name listed before another is declared on some line
/// before any line that declares the other.
pub proof fn law_input_names_in_order(lines: Seq<Seq<char>>)
    ensures
        forall|a: int, b: int|
            0 <= a < b < fold_inputs(lines).len() ==> declared_before(
                lines,
                #[trigger] fold_inputs(lines)[a],
                #[trigger] fold_inputs(lines)[b],
            ),
    decreases lines.len(),
{
    if lines.len() > 0 {
        let init = lines.drop_last();
        let last = lines.last();
        law_input_names_in_order(init);
        law_input_names(init);
        let acc = fold_inputs(init);
        let out = fold_inputs(lines);
        assert(out == input_step(acc, last));
        assert forall|a: int, b: int| 0 <= a < b < out.len() implies declared_before(
            lines,
            #[trigger] out[a],
            #[trigger] out[b],
        ) by {
            if b < acc.len() {
                assert(out[a] == acc[a] && out[b] == acc[b]);
                assert(declared_before(init, acc[a], acc[b]));
                let i = choose|i: int|
                    0 <= i < init.len() && #[trigger] declared_name(init[i]) == Some(acc[a])
                        && forall|j: int|
                        0 <= j <= i ==> #[trigger] declared_name(init[j]) != Some(acc[b]);
                assert(declared_name(lines[i]) == Some(out[a]));
                assert forall|j: int| 0 <= j <= i implies #[trigger] declared_name(lines[j]) != Some(
                    out[b],
                ) by {
                    assert(lines[j] == init[j]);
                }
            } else {
                let n = out[b];
                assert(out == acc.push(n));
                assert(!acc.contains(n));
                assert(out[a] == acc[a]);
                assert(acc.to_set().contains(acc[a]));
                assert(declared_names(init).contains(acc[a]));
                let i = choose|i: int| 0 <= i < init.len() && #[trigger] declared_name(init[i]) == Some(
                    acc[a],
                );
                assert(declared_name(lines[i]) == Some(out[a]));
                assert forall|j: int| 0 <= j <= i implies #[trigger] declared_name(lines[j]) != Some(
                    out[b],
                ) by {
                    assert(lines[j] == init[j]);
                    if declared_name(init[j]) == Some(n) {
                        assert(declared_names(init).contains(n));
                        assert(acc.to_set().contains(n));
                    }
                }
            }
        }
    }
}

/// The inputs a flake lists come each once, and are exactly the names that
/// the lines of its inputs block declare (none when there is no block).
pub proof fn law_classified_inputs(source: Seq<char>)
    ensures
        classified_inputs(source).no_duplicates(),
        classified_inputs(source).to_set() == match first_occurrence(source, "inputs"@, 0) {
            None => Set::<Seq<char>>::empty(),
            Some(start) => match first_occurrence(source, seq!['{'], start) {
                None => Set::<Seq<char>>::empty(),
                Some(open) => match block_of(source, open) {
                    None => Set::<Seq<char>>::empty(),
                    Some(b) => declared_names(split_lines(b)),
                },
            },
        },
{
    let e = Seq::<Seq<char>>::empty();
    assert(e.to_set() =~= Set::<Seq<char>>::empty());
    match first_occurrence(source, "inputs"@, 0) {
        None => {},
        Some(start) => match first_occurrence(source, seq!['{'], start) {
            None => {},
            Some(open) => match block_of(source, open) {
                None => {},
                Some(b) => {
                    law_input_names(split_lines(b));
                },
            },
        },
    }
}

} // verus!
