use vstd::prelude::*;

verus! {

// ---------------------------------------------------------------------------
// Character classes
// ---------------------------------------------------------------------------

/// The Unicode `White_Space` property, the class that `char::is_whitespace`
/// and `str::trim` use.
pub open spec fn is_ws(c: char) -> bool {
    let u = c as u32;
    ||| 0x09 <= u <= 0x0D
    ||| u == 0x20
    ||| u == 0x85
    ||| u == 0xA0
    ||| u == 0x1680
    ||| 0x2000 <= u <= 0x200A
    ||| u == 0x2028
    ||| u == 0x2029
    ||| u == 0x202F
    ||| u == 0x205F
    ||| u == 0x3000
}

/// Whether `c` is Unicode white space.
pub fn is_whitespace(c: char) -> (b: bool)
    ensures
        b == is_ws(c),
{
    let u = c as u32;
    (0x09 <= u && u <= 0x0D) || u == 0x20 || u == 0x85 || u == 0xA0 || u == 0x1680 || (0x2000 <= u
        && u <= 0x200A) || u == 0x2028 || u == 0x2029 || u == 0x202F || u == 0x205F || u == 0x3000
}

/// ASCII letters and digits.
pub open spec fn is_ascii_alnum(c: char) -> bool {
    let u = c as u32;
    ||| 0x30 <= u <= 0x39
    ||| 0x41 <= u <= 0x5A
    ||| 0x61 <= u <= 0x7A
}

/// Whether `c` is an ASCII letter or digit.
pub fn ascii_alnum(c: char) -> (b: bool)
    ensures
        b == is_ascii_alnum(c),
{
    let u = c as u32;
    (0x30 <= u && u <= 0x39) || (0x41 <= u && u <= 0x5A) || (0x61 <= u && u <= 0x7A)
}

// ---------------------------------------------------------------------------
// Sequences of characters
// ---------------------------------------------------------------------------

/// `p` is a prefix of `s`.
pub open spec fn starts_with(s: Seq<char>, p: Seq<char>) -> bool {
    p.len() <= s.len() && s.take(p.len() as int) == p
}

/// `s` with its leading white space removed.
pub open spec fn trim_start(s: Seq<char>) -> Seq<char>
    decreases s.len(),
{
    if s.len() > 0 && is_ws(s[0]) {
        trim_start(s.drop_first())
    } else {
        s
    }
}

/// `s` with its trailing white space removed.
pub open spec fn trim_end(s: Seq<char>) -> Seq<char>
    decreases s.len(),
{
    if s.len() > 0 && is_ws(s.last()) {
        trim_end(s.drop_last())
    } else {
        s
    }
}

/// `s` with leading and trailing white space removed, as `str::trim` does.
pub open spec fn trim(s: Seq<char>) -> Seq<char> {
    trim_end(trim_start(s))
}

/// `s` with every trailing `c` removed, as `str::trim_end_matches(c)` does.
pub open spec fn strip_trailing(s: Seq<char>, c: char) -> Seq<char>
    decreases s.len(),
{
    if s.len() > 0 && s.last() == c {
        strip_trailing(s.drop_last(), c)
    } else {
        s
    }
}

/// The lines of `s`: the pieces between its `'\n'` characters, built up one
/// character at a time. A text ending in `'\n'` ends in an empty line.
pub open spec fn split_lines(s: Seq<char>) -> Seq<Seq<char>>
    decreases s.len(),
{
    if s.len() == 0 {
        seq![Seq::<char>::empty()]
    } else {
        let prev = split_lines(s.drop_last());
        if s.last() == '\n' {
            prev.push(Seq::<char>::empty())
        } else {
            prev.update(prev.len() - 1, prev.last().push(s.last()))
        }
    }
}

/// The lines joined back with `'\n'` between them.
pub open spec fn join_lines(lines: Seq<Seq<char>>) -> Seq<char>
    decreases lines.len(),
{
    if lines.len() == 0 {
        Seq::<char>::empty()
    } else if lines.len() == 1 {
        lines[0]
    } else {
        join_lines(lines.drop_last()) + seq!['\n'] + lines.last()
    }
}

pub proof fn lemma_split_lines_nonempty(s: Seq<char>)
    ensures
        split_lines(s).len() >= 1,
    decreases s.len(),
{
    if s.len() > 0 {
        lemma_split_lines_nonempty(s.drop_last());
    }
}

/// Splitting into lines loses nothing, and no line holds a line break.
pub proof fn lemma_split_lines_join(s: Seq<char>)
    ensures
        join_lines(split_lines(s)) == s,
        forall|i: int|
            0 <= i < split_lines(s).len() ==> !(#[trigger] split_lines(s)[i]).contains('\n'),
    decreases s.len(),
{
    if s.len() > 0 {
        let p = s.drop_last();
        lemma_split_lines_join(p);
        lemma_split_lines_nonempty(p);
        let prev = split_lines(p);
        if s.last() == '\n' {
            let cur = prev.push(Seq::<char>::empty());
            assert(cur.drop_last() =~= prev);
            assert(join_lines(cur) =~= p + seq!['\n']);
            assert(s =~= p + seq!['\n']);
            assert forall|i: int| 0 <= i < cur.len() implies !(#[trigger] cur[i]).contains('\n') by {
                if i < prev.len() {
                    assert(cur[i] == prev[i]);
                } else {
                    assert(cur[i] =~= Seq::<char>::empty());
                }
            }
        } else {
            let cur = prev.update(prev.len() - 1, prev.last().push(s.last()));
            if prev.len() == 1 {
                assert(join_lines(prev) == prev[0]);
                assert(join_lines(cur) == cur[0]);
                assert(cur[0] =~= p + seq![s.last()]);
            } else {
                assert(cur.drop_last() =~= prev.drop_last());
                assert(join_lines(cur) =~= join_lines(prev.drop_last()) + seq!['\n'] + prev.last()
                    + seq![s.last()]);
            }
            assert(s =~= p + seq![s.last()]);
            assert forall|i: int| 0 <= i < cur.len() implies !(#[trigger] cur[i]).contains('\n') by {
                if i < prev.len() - 1 {
                    assert(cur[i] == prev[i]);
                } else {
                    let l = prev.last();
                    assert(!l.contains('\n'));
                    if cur[i].contains('\n') {
                        let k = choose|k: int| 0 <= k < cur[i].len() && cur[i][k] == '\n';
                        if k < l.len() {
                            assert(l[k] == '\n');
                        }
                    }
                }
            }
        }
    }
}

/// Appending a character that is not a line break extends the last line.
pub proof fn lemma_split_lines_extend(p: Seq<char>, l: Seq<char>)
    requires
        !l.contains('\n'),
    ensures
        split_lines(p + l) == split_lines(p).update(
            split_lines(p).len() - 1,
            split_lines(p).last() + l,
        ),
    decreases l.len(),
{
    lemma_split_lines_nonempty(p);
    if l.len() == 0 {
        assert(p + l =~= p);
        assert(split_lines(p).last() + l =~= split_lines(p).last());
        assert(split_lines(p).update(split_lines(p).len() - 1, split_lines(p).last())
            =~= split_lines(p));
    } else {
        let l0 = l.drop_last();
        assert(!l0.contains('\n')) by {
            if l0.contains('\n') {
                let k = choose|k: int| 0 <= k < l0.len() && l0[k] == '\n';
                assert(l[k] == '\n');
            }
        }
        lemma_split_lines_extend(p, l0);
        assert((p + l).drop_last() =~= p + l0);
        assert((p + l).last() == l.last());
        assert(l.last() != '\n') by {
            assert(l[l.len() - 1] == l.last());
        }
        let prev = split_lines(p + l0);
        assert(prev.len() == split_lines(p).len());
        assert(prev.last() == split_lines(p).last() + l0);
        assert(prev.last().push(l.last()) =~= split_lines(p).last() + l);
        assert(split_lines(p + l) == prev.update(prev.len() - 1, prev.last().push(l.last())));
        assert(split_lines(p + l) =~= split_lines(p).update(
            split_lines(p).len() - 1,
            split_lines(p).last() + l,
        ));
    }
}

/// Appending a line `l` and its `'\n'` to a text whose last line is empty
/// adds `l` as a line and starts a new empty one.
pub proof fn lemma_split_lines_append_line(p: Seq<char>, l: Seq<char>)
    requires
        !l.contains('\n'),
        split_lines(p).last() == Seq::<char>::empty(),
    ensures
        split_lines(p + l + seq!['\n']) == split_lines(p).drop_last().push(l).push(
            Seq::<char>::empty(),
        ),
{
    lemma_split_lines_nonempty(p);
    lemma_split_lines_extend(p, l);
    let t = p + l + seq!['\n'];
    assert(t.drop_last() =~= p + l);
    assert(t.last() == '\n');
    let sp = split_lines(p);
    assert(Seq::<char>::empty() + l =~= l);
    assert(sp.update(sp.len() - 1, sp.last() + l) =~= sp.drop_last().push(l));
}

// ---------------------------------------------------------------------------
// Executable helpers
// ---------------------------------------------------------------------------

/// The characters of `s`, in order.
pub fn chars_of(s: &str) -> (out: Vec<char>)
    ensures
        out@ == s@,
{
    let mut out: Vec<char> = Vec::new();
    for c in iter: s.chars()
        invariant
            iter.seq() == s@,
            out@ == iter.seq().take(iter.index()),
    {
        out.push(c);
    }
    out
}

/// Appends `c` to `s` (`String::push`).
#[verifier::external_body]
pub fn push_char(s: &mut String, c: char)
    ensures
        final(s)@ == old(s)@.push(c),
{
    s.push(c);
}

/// The string made of `v[lo..hi]`.
pub fn string_of_range(v: &Vec<char>, lo: usize, hi: usize) -> (out: String)
    requires
        lo <= hi <= v.len(),
    ensures
        out@ == v@.subrange(lo as int, hi as int),
{
    let mut out = String::new();
    let mut i = lo;
    while i < hi
        invariant
            lo <= i <= hi <= v.len(),
            out@ == v@.subrange(lo as int, i as int),
        decreases hi - i,
    {
        push_char(&mut out, v[i]);
        assert(v@.subrange(lo as int, i + 1) =~= v@.subrange(lo as int, i as int).push(v@[i as int]));
        i = i + 1;
    }
    out
}

/// The string made of all of `v`.
pub fn string_of(v: &Vec<char>) -> (out: String)
    ensures
        out@ == v@,
{
    let out = string_of_range(v, 0, v.len());
    assert(v@.subrange(0, v@.len() as int) =~= v@);
    out
}

/// Appends all of `t` to `s`.
pub fn push_str(s: &mut String, t: &str)
    ensures
        final(s)@ == old(s)@ + t@,
{
    s.append(t);
}

pub proof fn lemma_trim_start_range(s: Seq<char>, lo: int, hi: int)
    requires
        0 <= lo < hi <= s.len(),
        is_ws(s[lo]),
    ensures
        trim_start(s.subrange(lo, hi)) == trim_start(s.subrange(lo + 1, hi)),
{
    assert(s.subrange(lo, hi).drop_first() =~= s.subrange(lo + 1, hi));
}

pub proof fn lemma_trim_end_range(s: Seq<char>, lo: int, hi: int)
    requires
        0 <= lo < hi <= s.len(),
        is_ws(s[hi - 1]),
    ensures
        trim_end(s.subrange(lo, hi)) == trim_end(s.subrange(lo, hi - 1)),
{
    assert(s.subrange(lo, hi).drop_last() =~= s.subrange(lo, hi - 1));
}

/// The bounds of `v[lo..hi]` with its leading white space removed.
pub fn trim_start_from(v: &Vec<char>, lo: usize, hi: usize) -> (a: usize)
    requires
        lo <= hi <= v.len(),
    ensures
        lo <= a <= hi,
        v@.subrange(a as int, hi as int) == trim_start(v@.subrange(lo as int, hi as int)),
{
    let mut a = lo;
    while a < hi && is_whitespace(v[a])
        invariant
            lo <= a <= hi <= v.len(),
            trim_start(v@.subrange(lo as int, hi as int)) == trim_start(
                v@.subrange(a as int, hi as int),
            ),
        decreases hi - a,
    {
        proof {
            lemma_trim_start_range(v@, a as int, hi as int);
        }
        a = a + 1;
    }
    a
}

/// The bounds of `v[lo..hi]` with its trailing white space removed.
pub fn trim_end_to(v: &Vec<char>, lo: usize, hi: usize) -> (b: usize)
    requires
        lo <= hi <= v.len(),
    ensures
        lo <= b <= hi,
        v@.subrange(lo as int, b as int) == trim_end(v@.subrange(lo as int, hi as int)),
{
    let mut b = hi;
    while b > lo && is_whitespace(v[b - 1])
        invariant
            lo <= b <= hi <= v.len(),
            trim_end(v@.subrange(lo as int, hi as int)) == trim_end(
                v@.subrange(lo as int, b as int),
            ),
        decreases b - lo,
    {
        proof {
            lemma_trim_end_range(v@, lo as int, b as int);
        }
        b = b - 1;
    }
    b
}

/// The bounds of `v[lo..hi]` with white space removed at both ends.
pub fn trim_range(v: &Vec<char>, lo: usize, hi: usize) -> (r: (usize, usize))
    requires
        lo <= hi <= v.len(),
    ensures
        lo <= r.0 <= r.1 <= hi,
        v@.subrange(r.0 as int, r.1 as int) == trim(v@.subrange(lo as int, hi as int)),
{
    let a = trim_start_from(v, lo, hi);
    let b = trim_end_to(v, a, hi);
    (a, b)
}

/// Whether `v[lo..hi]` begins with `p`.
pub fn range_starts_with(v: &Vec<char>, lo: usize, hi: usize, p: &Vec<char>) -> (b: bool)
    requires
        lo <= hi <= v.len(),
    ensures
        b == starts_with(v@.subrange(lo as int, hi as int), p@),
{
    if p.len() > hi - lo {
        return false;
    }
    let mut i: usize = 0;
    while i < p.len()
        invariant
            p.len() <= hi - lo,
            lo <= hi <= v.len(),
            i <= p.len(),
            forall|k: int| 0 <= k < i ==> v@[lo + k] == p@[k],
        decreases p.len() - i,
    {
        if v[lo + i] != p[i] {
            assert(v@.subrange(lo as int, hi as int).take(p.len() as int)[i as int] != p@[i as int]);
            return false;
        }
        i = i + 1;
    }
    assert(v@.subrange(lo as int, hi as int).take(p.len() as int) =~= p@);
    true
}

/// Whether the two ranges hold the same characters.
pub fn range_eq(v: &Vec<char>, lo: usize, hi: usize, w: &Vec<char>) -> (b: bool)
    requires
        lo <= hi <= v.len(),
    ensures
        b == (v@.subrange(lo as int, hi as int) == w@),
{
    if hi - lo != w.len() {
        assert(v@.subrange(lo as int, hi as int).len() != w@.len());
        return false;
    }
    let r = range_starts_with(v, lo, hi, w);
    assert(v@.subrange(lo as int, hi as int).take(w.len() as int) =~= v@.subrange(
        lo as int,
        hi as int,
    ));
    r
}


/// Whether two strings hold the same characters.
pub fn text_eq(a: &str, b: &str) -> (r: bool)
    ensures
        r == (a@ == b@),
{
    let v = chars_of(a);
    let w = chars_of(b);
    let r = range_eq(&v, 0, v.len(), &w);
    assert(v@.subrange(0, v.len() as int) =~= v@);
    r
}

} // verus!
