//! Character-level text handling: whitespace trimming and quote stripping
//! for scraped shell output, and comma splitting for command-line target
//! descriptions.

use vstd::prelude::*;
use vstd::string::*;

verus! {

/// The whitespace characters that scraped output is trimmed of: the Unicode
/// White_Space set, as `str::trim` removes it (controls, space, next line,
/// no-break and typographic spaces, line and paragraph separators).
pub open spec fn is_space(c: char) -> bool {
    let u = c as int;
    (9 <= u && u <= 13) || u == 32 || u == 0x85 || u == 0xa0 || u == 0x1680 || (0x2000 <= u
        && u <= 0x200a) || u == 0x2028 || u == 0x2029 || u == 0x202f || u == 0x205f || u == 0x3000
}

pub open spec fn trim_front(s: Seq<char>) -> Seq<char>
    decreases s.len(),
{
    if s.len() > 0 && is_space(s[0]) {
        trim_front(s.drop_first())
    } else {
        s
    }
}

pub open spec fn trim_back(s: Seq<char>) -> Seq<char>
    decreases s.len(),
{
    if s.len() > 0 && is_space(s.last()) {
        trim_back(s.drop_last())
    } else {
        s
    }
}

/// `s` without leading and trailing whitespace.
pub open spec fn trim_spec(s: Seq<char>) -> Seq<char> {
    trim_back(trim_front(s))
}

/// `s` without any double-quote characters.
pub open spec fn strip_quotes(s: Seq<char>) -> Seq<char>
    decreases s.len(),
{
    if s.len() == 0 {
        Seq::empty()
    } else {
        let p = strip_quotes(s.drop_last());
        if s.last() == '"' {
            p
        } else {
            p.push(s.last())
        }
    }
}

proof fn lemma_trim_front_skip(s: Seq<char>, lo: int)
    requires
        0 <= lo <= s.len(),
        forall|k: int| 0 <= k < lo ==> is_space(s[k]),
        lo < s.len() ==> !is_space(s[lo]),
    ensures
        trim_front(s) == s.subrange(lo, s.len() as int),
    decreases lo,
{
    if lo == 0 {
        assert(s.subrange(0, s.len() as int) =~= s);
    } else {
        assert(is_space(s[0]));
        let t = s.drop_first();
        assert(t =~= s.subrange(1, s.len() as int));
        assert forall|k: int| 0 <= k < lo - 1 implies is_space(t[k]) by {
            assert(t[k] == s[k + 1]);
        }
        assert(lo - 1 < t.len() ==> !is_space(t[lo - 1]));
        lemma_trim_front_skip(t, lo - 1);
        assert(t.subrange(lo - 1, t.len() as int) =~= s.subrange(lo, s.len() as int));
    }
}

proof fn lemma_trim_back_keep(s: Seq<char>, hi: int)
    requires
        0 <= hi <= s.len(),
        forall|k: int| hi <= k < s.len() ==> is_space(s[k]),
        hi > 0 ==> !is_space(s[hi - 1]),
    ensures
        trim_back(s) == s.subrange(0, hi),
    decreases s.len(),
{
    if hi == s.len() {
        assert(s.subrange(0, hi) =~= s);
    } else {
        assert(is_space(s.last()));
        let t = s.drop_last();
        assert forall|k: int| hi <= k < t.len() implies is_space(t[k]) by {
            assert(t[k] == s[k]);
        }
        assert(hi > 0 ==> !is_space(t[hi - 1]));
        lemma_trim_back_keep(t, hi);
        assert(t.subrange(0, hi) =~= s.subrange(0, hi));
    }
}

fn is_space_char(c: char) -> (b: bool)
    ensures
        b == is_space(c),
{
    let u = c as u32;
    (9 <= u && u <= 13) || u == 32 || u == 0x85 || u == 0xa0 || u == 0x1680 || (0x2000 <= u
        && u <= 0x200a) || u == 0x2028 || u == 0x2029 || u == 0x202f || u == 0x205f || u == 0x3000
}

/// `cs` with leading and trailing whitespace removed.
pub fn trim_chars(cs: &Vec<char>) -> (r: Vec<char>)
    ensures
        r@ == trim_spec(cs@),
{
    let len = cs.len();
    let mut lo: usize = 0;
    while lo < len && is_space_char(cs[lo])
        invariant
            lo <= len,
            len == cs@.len(),
            forall|k: int| 0 <= k < lo ==> is_space(cs@[k]),
        decreases len - lo,
    {
        lo += 1;
    }
    let mut hi: usize = len;
    while hi > lo && is_space_char(cs[hi - 1])
        invariant
            lo <= hi <= len,
            len == cs@.len(),
            forall|k: int| hi <= k < len ==> is_space(cs@[k]),
        decreases hi,
    {
        hi -= 1;
    }
    let mut r: Vec<char> = Vec::new();
    let mut i: usize = lo;
    while i < hi
        invariant
            lo <= i <= hi <= len,
            len == cs@.len(),
            r@ == cs@.subrange(lo as int, i as int),
        decreases hi - i,
    {
        r.push(cs[i]);
        proof {
            assert(cs@.subrange(lo as int, i as int + 1) =~= cs@.subrange(
                lo as int,
                i as int,
            ).push(cs@[i as int]));
        }
        i += 1;
    }
    proof {
        lemma_trim_front_skip(cs@, lo as int);
        let t = cs@.subrange(lo as int, len as int);
        assert forall|k: int| hi - lo <= k < t.len() implies is_space(t[k]) by {
            assert(t[k] == cs@[k + lo]);
        }
        if hi > lo {
            assert(!is_space(cs@[hi - 1]));
            assert(t[hi - lo - 1] == cs@[hi - 1]);
        }
        lemma_trim_back_keep(t, hi - lo);
        assert(t.subrange(0, hi - lo) =~= cs@.subrange(lo as int, hi as int));
    }
    r
}

/// `cs` without any double-quote characters.
pub fn strip_quote_chars(cs: &Vec<char>) -> (r: Vec<char>)
    ensures
        r@ == strip_quotes(cs@),
{
    let mut r: Vec<char> = Vec::new();
    let mut i: usize = 0;
    while i < cs.len()
        invariant
            i <= cs@.len(),
            r@ == strip_quotes(cs@.subrange(0, i as int)),
        decreases cs@.len() - i,
    {
        proof {
            let p = cs@.subrange(0, i as int);
            let q = cs@.subrange(0, i as int + 1);
            assert(q.drop_last() =~= p);
            assert(q.last() == cs@[i as int]);
        }
        let c = cs[i];
        if c != '"' {
            r.push(c);
        }
        i += 1;
    }
    proof {
        assert(cs@.subrange(0, cs@.len() as int) =~= cs@);
    }
    r
}

/// The characters of `s` as a vector.
pub fn collect_chars(s: &str) -> (r: Vec<char>)
    ensures
        r@ == s@,
{
    let n = s.unicode_len();
    let mut r: Vec<char> = Vec::new();
    let mut i: usize = 0;
    while i < n
        invariant
            i <= n,
            n == s@.len(),
            r@ == s@.subrange(0, i as int),
        decreases n - i,
    {
        let c = s.get_char(i);
        r.push(c);
        proof {
            assert(s@.subrange(0, i as int + 1) =~= s@.subrange(0, i as int).push(s@[i as int]));
        }
        i += 1;
    }
    proof {
        assert(s@.subrange(0, s@.len() as int) =~= s@);
    }
    r
}

/// Relies on String::push: appends one character to the string.
pub assume_specification[ String::push ](s: &mut String, c: char)
    ensures
        final(s)@ == old(s)@.push(c),
;

/// Whether two strings hold the same characters.
pub fn str_eq(a: &str, b: &str) -> (r: bool)
    ensures
        r == (a@ == b@),
{
    let na = a.unicode_len();
    let nb = b.unicode_len();
    if na != nb {
        return false;
    }
    let mut i: usize = 0;
    while i < na
        invariant
            i <= na,
            na == a@.len(),
            na == b@.len(),
            forall|k: int| 0 <= k < i ==> a@[k] == b@[k],
        decreases na - i,
    {
        if a.get_char(i) != b.get_char(i) {
            return false;
        }
        i += 1;
    }
    proof {
        assert(a@ =~= b@);
    }
    true
}

/// The pieces of `s` between its commas, in order; a string without commas
/// is one piece, and every comma opens a new (possibly empty) piece.
pub open spec fn split_commas_spec(s: Seq<char>) -> Seq<Seq<char>>
    decreases s.len(),
{
    if s.len() == 0 {
        seq![Seq::<char>::empty()]
    } else {
        let p = split_commas_spec(s.drop_last());
        if s.last() == ',' {
            p.push(Seq::empty())
        } else {
            p.update(p.len() - 1, p.last().push(s.last()))
        }
    }
}

pub open spec fn views_of(ps: Seq<String>) -> Seq<Seq<char>> {
    ps.map_values(|p: String| p@)
}

proof fn lemma_split_commas_len(s: Seq<char>)
    ensures
        split_commas_spec(s).len() >= 1,
    decreases s.len(),
{
    if s.len() > 0 {
        lemma_split_commas_len(s.drop_last());
    }
}

/// Splits `s` at every comma, keeping empty pieces.
pub fn split_commas(s: &str) -> (parts: Vec<String>)
    ensures
        views_of(parts@) == split_commas_spec(s@),
        parts@.len() >= 1,
{
    let n = s.unicode_len();
    let mut parts: Vec<String> = Vec::new();
    let mut prev: usize = 0;
    let mut i: usize = 0;
    proof {
        assert(s@.subrange(0, 0) =~= Seq::<char>::empty());
    }
    while i < n
        invariant
            prev <= i <= n,
            n == s@.len(),
            split_commas_spec(s@.subrange(0, i as int)) =~= views_of(parts@).push(
                s@.subrange(prev as int, i as int),
            ),
        decreases n - i,
    {
        let ghost p = s@.subrange(0, i as int);
        let ghost q = s@.subrange(0, i as int + 1);
        proof {
            assert(q.drop_last() =~= p);
            assert(q.last() == s@[i as int]);
            lemma_split_commas_len(p);
        }
        let c = s.get_char(i);
        if c == ',' {
            let piece = String::from_str(s.substring_char(prev, i));
            parts.push(piece);
            proof {
                assert(views_of(parts@) =~= views_of(parts@.drop_last()).push(
                    s@.subrange(prev as int, i as int),
                ));
            }
            prev = i + 1;
            proof {
                assert(s@.subrange(prev as int, i as int + 1) =~= Seq::<char>::empty());
            }
        } else {
            proof {
                let cur = s@.subrange(prev as int, i as int);
                let cur2 = s@.subrange(prev as int, i as int + 1);
                assert(cur2 =~= cur.push(s@[i as int]));
                let vs = views_of(parts@);
                assert(vs.push(cur).update(vs.len() as int, cur2) =~= vs.push(cur2));
            }
        }
        i += 1;
    }
    let piece = String::from_str(s.substring_char(prev, n));
    parts.push(piece);
    proof {
        assert(s@.subrange(0, n as int) =~= s@);
        assert(views_of(parts@) =~= views_of(parts@.drop_last()).push(
            s@.subrange(prev as int, n as int),
        ));
        assert(views_of(parts@) =~= split_commas_spec(s@));
    }
    parts
}

} // verus!
