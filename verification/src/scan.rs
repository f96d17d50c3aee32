//! Low-level scanning: the mathematical description of a forward scan
//! over a character sequence (first stop character, first attribute
//! pattern, namespace stripping) together with the lemmas the loop proofs
//! need, and two small verified string helpers.

use vstd::prelude::*;

verus! {

/// The characters that end a tag-name scan.
pub open spec fn tag_stops() -> Set<char> {
    set!['>', ' ']
}

/// The characters that end a bare datatype-name scan.
pub open spec fn dtname_stops() -> Set<char> {
    set!['"', '>', ' ']
}

/// The characters at which the datatype detection of a child tag stops:
/// an opening quote (a candidate value) or the end of the tag.
pub open spec fn detect_stops() -> Set<char> {
    set!['"', '>']
}

pub open spec fn quote_stop() -> Set<char> {
    set!['"']
}

pub open spec fn gt_stop() -> Set<char> {
    set!['>']
}

pub open spec fn lt_stop() -> Set<char> {
    set!['<']
}

/// Every character but a space: where a scan for the next non-space
/// character halts.
pub open spec fn nonspace_stops() -> Set<char> {
    Set::new(|c: char| c != ' ')
}

/// The index of the first character at or after `pos` that belongs to
/// `stops`, or the length of `s` when there is none.
pub open spec fn find_first(s: Seq<char>, pos: int, stops: Set<char>) -> int
    decreases s.len() - pos,
{
    if pos >= s.len() {
        s.len() as int
    } else if stops.contains(s[pos]) {
        pos
    } else {
        find_first(s, pos + 1, stops)
    }
}

/// `find_first` names the first stop: everything known about it follows
/// from a scan that saw no stop before `j`.
pub proof fn lemma_find_first_is(s: Seq<char>, pos: int, stops: Set<char>, j: int)
    requires
        0 <= pos <= j <= s.len(),
        forall|k: int| pos <= k < j ==> !stops.contains(s[k]),
        j < s.len() ==> stops.contains(s[j]),
    ensures
        find_first(s, pos, stops) == j,
    decreases j - pos,
{
    if pos < j {
        lemma_find_first_is(s, pos + 1, stops, j);
    }
}

/// Bounds and characterization of `find_first`.
pub proof fn lemma_find_first_bounds(s: Seq<char>, pos: int, stops: Set<char>)
    requires
        0 <= pos <= s.len(),
    ensures
        pos <= find_first(s, pos, stops) <= s.len(),
        find_first(s, pos, stops) < s.len() ==> stops.contains(s[find_first(s, pos, stops)]),
        forall|k: int| pos <= k < find_first(s, pos, stops) ==> !stops.contains(s[k]),
    decreases s.len() - pos,
{
    if pos < s.len() && !stops.contains(s[pos]) {
        lemma_find_first_bounds(s, pos + 1, stops);
    }
}

/// The position after consuming up to and including the first stop
/// character, or the end of the input when no stop occurs: where the
/// cursor stands after a "read until" loop.
pub open spec fn consumed_to(s: Seq<char>, pos: int, stops: Set<char>) -> int {
    let j = find_first(s, pos, stops);
    if j < s.len() {
        j + 1
    } else {
        s.len() as int
    }
}

/// The suffix of `raw` after its last colon: a datatype name with its
/// namespace prefix stripped; `raw` itself when it has no colon.
pub open spec fn strip_prefix(raw: Seq<char>) -> Seq<char>
    decreases raw.len(),
{
    if raw.len() == 0 {
        raw
    } else if raw.last() == ':' {
        Seq::empty()
    } else {
        strip_prefix(raw.drop_last()).push(raw.last())
    }
}

/// How one more scanned character changes the stripped name.
pub proof fn lemma_strip_prefix_push(raw: Seq<char>, c: char)
    ensures
        strip_prefix(raw.push(c)) == if c == ':' {
            Seq::<char>::empty()
        } else {
            strip_prefix(raw).push(c)
        },
{
    assert(raw.push(c).last() == c);
    assert(raw.push(c).drop_last() =~= raw);
}

/// Whether the text of `pat` stands at index `i` of `s`, followed by
/// `="`: the shape of a keyed attribute assignment.
pub open spec fn attr_pat_at(s: Seq<char>, i: int, pat: Seq<char>) -> bool {
    &&& 0 <= i
    &&& i + pat.len() + 2 <= s.len()
    &&& s.subrange(i, i + pat.len()) == pat
    &&& s[i + pat.len()] == '='
    &&& s[i + pat.len() + 1] == '"'
}

/// The first index in `[pos, end)` where the attribute pattern stands
/// wholly before `end`, or `None`.
pub open spec fn find_attr(s: Seq<char>, pos: int, end: int, pat: Seq<char>) -> Option<int>
    decreases end - pos,
{
    if pos + pat.len() + 2 > end {
        None
    } else if attr_pat_at(s, pos, pat) {
        Some(pos)
    } else {
        find_attr(s, pos + 1, end, pat)
    }
}

/// A scan that saw no pattern before `j` and the pattern at `j` pins
/// `find_attr` down to `Some(j)`.
pub proof fn lemma_find_attr_found(s: Seq<char>, pos: int, end: int, pat: Seq<char>, j: int)
    requires
        pos <= j,
        j + pat.len() + 2 <= end,
        forall|m: int| pos <= m < j ==> !attr_pat_at(s, m, pat),
        attr_pat_at(s, j, pat),
    ensures
        find_attr(s, pos, end, pat) == Some(j),
    decreases j - pos,
{
    if pos < j {
        lemma_find_attr_found(s, pos + 1, end, pat, j);
    }
}

/// A scan that ran out of room without a match pins `find_attr` down to
/// `None`.
pub proof fn lemma_find_attr_none(s: Seq<char>, pos: int, end: int, pat: Seq<char>)
    requires
        forall|m: int| pos <= m && m + pat.len() + 2 <= end ==> !attr_pat_at(s, m, pat),
    ensures
        find_attr(s, pos, end, pat) is None,
    decreases end - pos,
{
    if pos + pat.len() + 2 <= end {
        lemma_find_attr_none(s, pos + 1, end, pat);
    }
}

/// Clamps a successor position into `(pos, s.len()]`.  Every scanning
/// step truly lands there already, so on reachable arguments this is the
/// identity on `p`; it re-establishes the bound syntactically, which is
/// what the termination checker of the mutually recursive grammar
/// functions needs.
pub open spec fn forward(s: Seq<char>, pos: int, p: int) -> int {
    if p <= pos {
        pos + 1
    } else if p > s.len() {
        s.len() as int
    } else {
        p
    }
}

/// Character-by-character string equality.
pub fn str_eq(a: &str, b: &str) -> (r: bool)
    ensures
        r == (a@ == b@),
{
    let la = a.unicode_len();
    let lb = b.unicode_len();
    if la != lb {
        proof {
            if a@ == b@ {
                assert(a@.len() == b@.len());
            }
        }
        return false;
    }
    let mut i: usize = 0;
    while i < la
        invariant
            a@.len() == la,
            b@.len() == lb,
            la == lb,
            i <= la,
            forall|k: int| 0 <= k < i ==> a@[k] == b@[k],
        decreases la - i,
    {
        let ca = a.get_char(i);
        let cb = b.get_char(i);
        if ca != cb {
            proof {
                if a@ == b@ {
                    assert(a@[i as int] == b@[i as int]);
                }
            }
            return false;
        }
        i = i + 1;
    }
    proof {
        assert(a@ =~= b@);
    }
    true
}

/// Whether the text of `pat` stands at character index `at` of `s`.
pub fn str_prefix_at(s: &str, at: usize, pat: &str) -> (r: bool)
    ensures
        r == (at + pat@.len() <= s@.len() && s@.subrange(
            at as int,
            at as int + pat@.len() as int,
        ) == pat@),
{
    let ls = s.unicode_len();
    let lp = pat.unicode_len();
    if lp > ls || at > ls - lp {
        proof {
            assert(!(at + pat@.len() <= s@.len()));
        }
        return false;
    }
    let mut j: usize = 0;
    while j < lp
        invariant
            s@.len() == ls,
            pat@.len() == lp,
            lp <= ls,
            at <= ls - lp,
            j <= lp,
            forall|k: int| 0 <= k < j ==> s@[at + k] == pat@[k],
        decreases lp - j,
    {
        let cs = s.get_char(at + j);
        let cp = pat.get_char(j);
        if cs != cp {
            proof {
                let sub = s@.subrange(at as int, at as int + pat@.len() as int);
                if sub == pat@ {
                    assert(sub[j as int] == s@[at + j]);
                }
            }
            return false;
        }
        j = j + 1;
    }
    proof {
        assert(s@.subrange(at as int, at as int + pat@.len() as int) =~= pat@);
    }
    true
}

} // verus!
