use vstd::prelude::*;

use crate::number::{decimal, decimal_string};
use crate::order::{lemma_text_lt_asymmetric, lemma_text_lt_transitive, place_text, text_lt, Placement};
use crate::text::{chars_of, push_str, range_eq, string_of_range, trim, trim_range};

verus! {

/// How many hits one search keeps.
pub const MAX_SEARCH_RESULTS: usize = 200;

/// How many bytes of `nix search` output are read before giving up.
pub const MAX_SEARCH_OUTPUT_BYTES: usize = 52428800;

/// How many bytes of `nix search` error output are kept.
pub const MAX_SEARCH_ERROR_BYTES: usize = 65536;

/// One package found by `nix search`.
#[derive(Clone, Debug)]
pub struct SearchHit {
    pub attr: String,
    pub pname: String,
    pub version: String,
    pub description: String,
}

impl SearchHit {
    /// A copy of the hit.
    pub fn duplicate(&self) -> (h: SearchHit)
        ensures
            h == *self,
    {
        SearchHit {
            attr: self.attr.clone(),
            pname: self.pname.clone(),
            version: self.version.clone(),
            description: self.description.clone(),
        }
    }
}

/// The flake reference searched for a channel: `nixpkgs-unstable` is not in
/// every registry, so it maps to its GitHub reference; other names stay.
pub open spec fn resolved_channel(channel: Seq<char>) -> Seq<char> {
    if channel == "nixpkgs-unstable"@ {
        "github:NixOS/nixpkgs/nixos-unstable"@
    } else {
        channel
    }
}

/// Resolves a channel shortname to a flake ref. Bare names like
/// `nixpkgs-unstable` aren't always in the user's registry, so map known ones
/// explicitly.
pub fn resolve_channel(channel: &str) -> (r: &str)
    ensures
        r@ == resolved_channel(channel@),
{
    let v = chars_of(channel);
    let alias = chars_of("nixpkgs-unstable");
    let same = range_eq(&v, 0, v.len(), &alias);
    assert(v@.subrange(0, v.len() as int) =~= v@);
    if same {
        "github:NixOS/nixpkgs/nixos-unstable"
    } else {
        channel
    }
}

/// The position of the last `.` in `s`, if any.
pub open spec fn last_dot(s: Seq<char>) -> Option<int>
    decreases s.len(),
{
    if s.len() == 0 {
        None
    } else if s.last() == '.' {
        Some(s.len() - 1)
    } else {
        last_dot(s.drop_last())
    }
}

/// The final segment of a dotted attribute path.
pub open spec fn short_attr_spec(full: Seq<char>) -> Seq<char> {
    match last_dot(full) {
        Some(k) => full.skip(k + 1),
        None => full,
    }
}

proof fn lemma_last_dot_range(s: Seq<char>)
    ensures
        last_dot(s) matches Some(k) ==> 0 <= k < s.len() && s[k] == '.',
    decreases s.len(),
{
    if s.len() > 0 && s.last() != '.' {
        lemma_last_dot_range(s.drop_last());
    }
}

/// The final segment of a dotted attribute path (`rsplit_once('.')`).
pub fn short_attr(full: &str) -> (s: &str)
    ensures
        s@ == short_attr_spec(full@),
{
    let v = chars_of(full);
    let mut i = v.len();
    assert(v@.take(v.len() as int) =~= v@);
    while i > 0 && v[i - 1] != '.'
        invariant
            i <= v.len(),
            last_dot(v@) == last_dot(v@.take(i as int)),
        decreases i,
    {
        assert(v@.take(i as int).drop_last() =~= v@.take(i - 1));
        i = i - 1;
    }
    proof {
        lemma_last_dot_range(v@);
    }
    if i == 0 {
        assert(v@.take(0) =~= Seq::<char>::empty());
        full
    } else {
        assert(v@.take(i as int).last() == v@[i - 1]);
        full.substring_char(i, v.len())
    }
}

/// The query handed to `nix search`: `^` (everything) when the query is
/// blank.
pub open spec fn effective_query(query: Seq<char>) -> Seq<char> {
    if trim(query).len() == 0 {
        "^"@
    } else {
        query
    }
}

/// The arguments of the `nix search` command for `channel` and `query`.
pub fn search_args(channel: &str, query: &str) -> (args: Vec<String>)
    ensures
        args@.map_values(|a: String| a@) == seq![
            "--quiet"@,
            "search"@,
            "--json"@,
            "--extra-experimental-features"@,
            "nix-command flakes"@,
            resolved_channel(channel@),
            effective_query(query@),
        ],
{
    let v = chars_of(query);
    let (a, b) = trim_range(&v, 0, v.len());
    assert(v@.subrange(0, v.len() as int) =~= v@);
    let q = if a == b {
        String::from_str("^")
    } else {
        String::from_str(query)
    };
    let args = vec![
        String::from_str("--quiet"),
        String::from_str("search"),
        String::from_str("--json"),
        String::from_str("--extra-experimental-features"),
        String::from_str("nix-command flakes"),
        String::from_str(resolve_channel(channel)),
        q,
    ];
    assert(args@.map_values(|a: String| a@) =~= seq![
        "--quiet"@,
        "search"@,
        "--json"@,
        "--extra-experimental-features"@,
        "nix-command flakes"@,
        resolved_channel(channel@),
        effective_query(query@),
    ]);
    args
}

// ---------------------------------------------------------------------------
// Reading the command's output
// ---------------------------------------------------------------------------

/// Whether a chunk of `chunk` bytes may be added to the `read` bytes already
/// kept without going over `max_bytes`.
pub fn within_limit(read: usize, chunk: usize, max_bytes: usize) -> (ok: bool)
    ensures
        ok == (read + chunk <= max_bytes),
{
    read <= max_bytes && chunk <= max_bytes - read
}

/// How many bytes of a chunk of `chunk` bytes are kept when `read` bytes are
/// kept already and at most `max_bytes` are kept in all.
pub fn kept_of_chunk(read: usize, chunk: usize, max_bytes: usize) -> (k: usize)
    ensures
        k == if read >= max_bytes {
            0
        } else if chunk <= max_bytes - read {
            chunk as int
        } else {
            max_bytes - read
        },
{
    if read >= max_bytes {
        0
    } else if chunk <= max_bytes - read {
        chunk
    } else {
        max_bytes - read
    }
}

/// The error for output over the limit of `max_bytes` bytes.
pub fn output_limit_message(max_bytes: usize) -> (m: String)
    ensures
        m@ == "nix search output exceeded "@ + decimal((max_bytes / 1024 / 1024) as nat)
            + " MiB; refine the query"@,
{
    let mut m = String::from_str("nix search output exceeded ");
    let n = decimal_string((max_bytes / 1024 / 1024) as u64);
    push_str(&mut m, n.as_str());
    push_str(&mut m, " MiB; refine the query");
    m
}

// ---------------------------------------------------------------------------
// Collecting and ordering hits
// ---------------------------------------------------------------------------

/// Whether another hit is kept when `count` are kept already.
pub fn wants_hit(count: usize) -> (b: bool)
    ensures
        b == (count < MAX_SEARCH_RESULTS),
{
    count < MAX_SEARCH_RESULTS
}

/// Keeps the hit found under attribute path `attr`, named by its last
/// segment.
pub fn push_hit(
    hits: &mut Vec<SearchHit>,
    attr: &str,
    pname: String,
    version: String,
    description: String,
)
    requires
        old(hits).len() < MAX_SEARCH_RESULTS,
    ensures
        final(hits)@.len() == old(hits)@.len() + 1,
        final(hits)@.len() <= MAX_SEARCH_RESULTS,
        final(hits)@.drop_last() == old(hits)@,
        final(hits)@.last().attr@ == short_attr_spec(attr@),
        final(hits)@.last().pname == pname,
        final(hits)@.last().version == version,
        final(hits)@.last().description == description,
{
    let hit = SearchHit {
        attr: String::from_str(short_attr(attr)),
        pname,
        version,
        description,
    };
    hits.push(hit);
    assert(hits@.drop_last() =~= old(hits)@);
}

/// `h` comes strictly before `g` by package name.
pub open spec fn pname_lt(h: SearchHit, g: SearchHit) -> bool {
    text_lt(h.pname@, g.pname@)
}

/// Where a hit goes in a list sorted by name so that it follows every hit of
/// the same name: the first position whose name is greater.
pub open spec fn insertion_point(sorted: Seq<SearchHit>, x: SearchHit) -> int
    decreases sorted.len(),
{
    if sorted.len() == 0 {
        0
    } else if pname_lt(x, sorted[0]) {
        0
    } else {
        1 + insertion_point(sorted.drop_first(), x)
    }
}

/// The hits sorted by package name, hits of equal names keeping their order
/// (the stable sort, built by inserting each hit after its equals).
pub open spec fn sorted_by_pname(hits: Seq<SearchHit>) -> Seq<SearchHit>
    decreases hits.len(),
{
    if hits.len() == 0 {
        hits
    } else {
        let s = sorted_by_pname(hits.drop_last());
        s.insert(insertion_point(s, hits.last()), hits.last())
    }
}

/// Hits in non-decreasing order of package name.
pub open spec fn pname_ordered(s: Seq<SearchHit>) -> bool {
    forall|i: int, j: int| 0 <= i < j < s.len() ==> !pname_lt(#[trigger] s[j], #[trigger] s[i])
}

proof fn lemma_insertion_point(sorted: Seq<SearchHit>, x: SearchHit)
    ensures
        0 <= insertion_point(sorted, x) <= sorted.len(),
        pname_ordered(sorted) ==> forall|k: int|
            0 <= k < insertion_point(sorted, x) ==> !pname_lt(x, #[trigger] sorted[k]),
        insertion_point(sorted, x) < sorted.len() ==> pname_lt(x, sorted[insertion_point(sorted, x)]),
    decreases sorted.len(),
{
    if sorted.len() > 0 && !pname_lt(x, sorted[0]) {
        let rest = sorted.drop_first();
        lemma_insertion_point(rest, x);
        if pname_ordered(sorted) {
            assert(pname_ordered(rest)) by {
                assert forall|i: int, j: int| 0 <= i < j < rest.len() implies !pname_lt(
                    #[trigger] rest[j],
                    #[trigger] rest[i],
                ) by {
                    assert(rest[i] == sorted[i + 1] && rest[j] == sorted[j + 1]);
                }
            }
            assert forall|k: int| 0 <= k < insertion_point(sorted, x) implies !pname_lt(
                x,
                #[trigger] sorted[k],
            ) by {
                if k > 0 {
                    assert(sorted[k] == rest[k - 1]);
                }
            }
        }
        let p = insertion_point(rest, x);
        if p < rest.len() {
            assert(sorted[p + 1] == rest[p]);
        }
    }
}

/// Sorting by name orders the hits and neither drops nor adds any.
pub proof fn law_sorted_by_pname(hits: Seq<SearchHit>)
    ensures
        pname_ordered(sorted_by_pname(hits)),
        sorted_by_pname(hits).to_multiset() == hits.to_multiset(),
    decreases hits.len(),
{
    if hits.len() > 0 {
        let front = hits.drop_last();
        let x = hits.last();
        law_sorted_by_pname(front);
        let s = sorted_by_pname(front);
        lemma_insertion_point(s, x);
        let p = insertion_point(s, x);
        let r = s.insert(p, x);
        assert forall|i: int, j: int| 0 <= i < j < r.len() implies !pname_lt(
            #[trigger] r[j],
            #[trigger] r[i],
        ) by {
            if j < p {
                assert(r[i] == s[i] && r[j] == s[j]);
            } else if j == p {
                assert(r[i] == s[i] && r[j] == x);
            } else if i < p {
                assert(r[i] == s[i] && r[j] == s[j - 1]);
                assert(!pname_lt(x, s[i]));
                if pname_lt(s[j - 1], s[i]) {
                    // x >= s[i] > s[j-1] >= s[p] > x
                    assert(pname_lt(x, s[p]));
                    if j - 1 > p {
                        assert(!pname_lt(s[j - 1], s[p]));
                    }
                    lemma_text_total_le(s[p].pname@, s[j - 1].pname@);
                    lemma_text_lt_transitive(s[j - 1].pname@, s[i].pname@, x.pname@);
                    lemma_text_lt_le_transitive(x.pname@, s[p].pname@, s[j - 1].pname@);
                    lemma_text_lt_asymmetric(s[j - 1].pname@, x.pname@);
                }
            } else if i == p {
                assert(r[i] == x && r[j] == s[j - 1]);
                if pname_lt(s[j - 1], x) {
                    if j - 1 > p {
                        assert(!pname_lt(s[j - 1], s[p]));
                    }
                    lemma_text_total_le(s[p].pname@, s[j - 1].pname@);
                    lemma_text_lt_le_transitive(x.pname@, s[p].pname@, s[j - 1].pname@);
                    lemma_text_lt_asymmetric(s[j - 1].pname@, x.pname@);
                }
            } else {
                assert(r[i] == s[i - 1] && r[j] == s[j - 1]);
            }
        }
        assert(hits =~= front.push(x));
        front.to_multiset_ensures();
        hits.to_multiset_ensures();
        r.to_multiset_ensures();
        s.to_multiset_ensures();
        assert(r.to_multiset() =~= s.to_multiset().insert(x)) by {
            lemma_insert_multiset(s, p, x);
        }
    }
}

proof fn lemma_insert_multiset<A>(s: Seq<A>, p: int, x: A)
    requires
        0 <= p <= s.len(),
    ensures
        s.insert(p, x).to_multiset() == s.to_multiset().insert(x),
{
    let r = s.insert(p, x);
    assert(r =~= s.take(p) + seq![x] + s.skip(p));
    assert(s =~= s.take(p) + s.skip(p));
    vstd::seq_lib::lemma_multiset_commutative(s.take(p) + seq![x], s.skip(p));
    vstd::seq_lib::lemma_multiset_commutative(s.take(p), seq![x]);
    vstd::seq_lib::lemma_multiset_commutative(s.take(p), s.skip(p));
    assert(seq![x].to_multiset() =~= vstd::multiset::Multiset::empty().insert(x)) by {
        seq![x].to_multiset_ensures();
        assert(seq![x] =~= Seq::<A>::empty().push(x));
        Seq::<A>::empty().to_multiset_ensures();
    }
}

/// When `a` is not after `b`, either `b` is after `a` or they are equal.
proof fn lemma_text_total_le(a: Seq<char>, b: Seq<char>)
    ensures
        !text_lt(b, a) ==> (text_lt(a, b) || a == b),
{
    crate::order::lemma_text_lt_total(a, b);
}

proof fn lemma_text_lt_le_transitive(a: Seq<char>, b: Seq<char>, c: Seq<char>)
    requires
        text_lt(a, b),
        text_lt(b, c) || b == c,
    ensures
        text_lt(a, c),
{
    if text_lt(b, c) {
        lemma_text_lt_transitive(a, b, c);
    }
}

/// The hits sorted by package name, hits of equal names keeping their order.
pub fn sort_hits(hits: Vec<SearchHit>) -> (out: Vec<SearchHit>)
    ensures
        out@ == sorted_by_pname(hits@),
{
    let mut out: Vec<SearchHit> = Vec::new();
    let mut i: usize = 0;
    assert(hits@.take(0) =~= Seq::<SearchHit>::empty());
    while i < hits.len()
        invariant
            i <= hits.len(),
            out@ == sorted_by_pname(hits@.take(i as int)),
        decreases hits.len() - i,
    {
        let x = hits[i].duplicate();
        assert(hits@.take(i + 1).drop_last() =~= hits@.take(i as int));
        assert(hits@.take(i + 1).last() == hits@[i as int]);
        let ghost s = out@;
        let xc = chars_of(hits[i].pname.as_str());
        let mut k: usize = 0;
        let mut stop = false;
        assert(s.skip(0) =~= s);
        while k < out.len() && !stop
            invariant
                i < hits.len(),
                out@ == s,
                k <= out.len(),
                xc@ == hits@[i as int].pname@,
                insertion_point(s, hits@[i as int]) == k + insertion_point(
                    s.skip(k as int),
                    hits@[i as int],
                ),
                stop ==> k < out.len() && pname_lt(hits@[i as int], s[k as int]),
            decreases out.len() - k + if stop { 0int } else { 1int },
        {
            let yc = chars_of(out[k].pname.as_str());
            assert(s.skip(k as int)[0] == s[k as int]);
            assert(s.skip(k as int).drop_first() =~= s.skip(k + 1));
            match place_text(&xc, &yc) {
                Placement::Before => {
                    stop = true;
                },
                _ => {
                    k = k + 1;
                },
            }
        }
        assert(insertion_point(s, hits@[i as int]) == k) by {
            if k == out.len() {
                assert(s.skip(k as int) =~= Seq::<SearchHit>::empty());
            }
        }
        out.insert(k, x);
        i = i + 1;
    }
    assert(hits@.take(hits.len() as int) =~= hits@);
    out
}


// ---------------------------------------------------------------------------
// How a search ends
// ---------------------------------------------------------------------------

/// What `String::from_utf8_lossy` gives for `bytes`: their text, with each
/// invalid sequence replaced by U+FFFD.
pub uninterp spec fn lossy_utf8(bytes: Seq<u8>) -> Seq<char>;

/// `String::from_utf8_lossy`, owned: named by `lossy_utf8`; valid UTF-8
/// comes back as the text it encodes, as the documentation says.
#[verifier::external_body]
fn lossy_text(bytes: &[u8]) -> (t: String)
    ensures
        t@ == lossy_utf8(bytes@),
        vstd::utf8::valid_utf8(bytes@) ==> t@ == vstd::utf8::decode_utf8(bytes@),
{
    String::from_utf8_lossy(bytes).into_owned()
}

/// The error of a search whose command failed: what it wrote to its error
/// stream, trimmed.
pub open spec fn search_failure_text(stderr: Seq<u8>) -> Seq<char> {
    "nix search failed: "@ + trim(lossy_utf8(stderr))
}

/// The error of a search whose command failed, from its error output.
pub fn search_failure_message(stderr: &[u8]) -> (m: String)
    ensures
        m@ == search_failure_text(stderr@),
{
    let text = lossy_text(stderr);
    let v = chars_of(text.as_str());
    let (a, b) = trim_range(&v, 0, v.len());
    assert(v@.subrange(0, v.len() as int) =~= v@);
    let trimmed = string_of_range(&v, a, b);
    let mut m = String::from_str("nix search failed: ");
    push_str(&mut m, trimmed.as_str());
    m
}

/// The error of a search whose output is not a JSON object of hits.
pub open spec fn parse_failure_text() -> Seq<char> {
    "parsing nix search JSON"@
}

/// How a search ends, its checks taken in order: an error while reading its
/// output (such as output over the limit) comes first; then a command that
/// failed, with what it wrote to its error stream; then output that is not
/// a JSON object of hits (`parsed` is `None`); else the hits, ordered by
/// package name.
pub fn search_outcome(
    read: Result<(), String>,
    success: bool,
    stderr: &[u8],
    parsed: Option<Vec<SearchHit>>,
) -> (r: Result<Vec<SearchHit>, String>)
    ensures
        read matches Err(e) ==> (r matches Err(m) && m == e),
        read is Ok && !success ==> (r matches Err(m) && m@ == search_failure_text(stderr@)),
        read is Ok && success && parsed is None ==> (r matches Err(m) && m@
            == parse_failure_text()),
        read is Ok && success ==> (parsed matches Some(h) ==> (r matches Ok(out) && out@
            == sorted_by_pname(h@))),
{
    match read {
        Err(e) => Err(e),
        Ok(()) => {
            if !success {
                Err(search_failure_message(stderr))
            } else {
                match parsed {
                    None => Err(String::from_str("parsing nix search JSON")),
                    Some(hits) => Ok(sort_hits(hits)),
                }
            }
        },
    }
}

} // verus!
