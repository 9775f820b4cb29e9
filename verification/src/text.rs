//! Character-level text operations: whitespace trimming, repeated prefix and
//! suffix stripping and substring search, each stated over the `Seq<char>`
//! view of the text.

use vstd::prelude::*;
use vstd::string::*;

verus! {

broadcast use vstd::string::group_string_axioms;

/// The Unicode `White_Space` property, the set of characters that
/// `char::is_whitespace` accepts.
pub open spec fn is_white_space(c: char) -> bool {
    let u = c as u32;
    ||| 0x09 <= u <= 0x0d
    ||| u == 0x20
    ||| u == 0x85
    ||| u == 0xa0
    ||| u == 0x1680
    ||| 0x2000 <= u <= 0x200a
    ||| u == 0x2028
    ||| u == 0x2029
    ||| u == 0x202f
    ||| u == 0x205f
    ||| u == 0x3000
}

/// `s` without its leading white space.
pub open spec fn trim_start_spec(s: Seq<char>) -> Seq<char>
    decreases s.len(),
{
    if s.len() > 0 && is_white_space(s[0]) {
        trim_start_spec(s.drop_first())
    } else {
        s
    }
}

/// `s` without its trailing white space.
pub open spec fn trim_end_spec(s: Seq<char>) -> Seq<char>
    decreases s.len(),
{
    if s.len() > 0 && is_white_space(s.last()) {
        trim_end_spec(s.drop_last())
    } else {
        s
    }
}

/// `s` without leading and trailing white space.
pub open spec fn trim_spec(s: Seq<char>) -> Seq<char> {
    trim_end_spec(trim_start_spec(s))
}

/// `s` with every leading repetition of the non-empty pattern `p` removed.
pub open spec fn strip_prefixes(s: Seq<char>, p: Seq<char>) -> Seq<char>
    decreases s.len(),
{
    if p.len() > 0 && p.len() <= s.len() && s.take(p.len() as int) == p {
        strip_prefixes(s.skip(p.len() as int), p)
    } else {
        s
    }
}

/// `s` with every trailing repetition of the non-empty pattern `p` removed.
pub open spec fn strip_suffixes(s: Seq<char>, p: Seq<char>) -> Seq<char>
    decreases s.len(),
{
    if p.len() > 0 && p.len() <= s.len() && s.skip(s.len() - p.len()) == p {
        strip_suffixes(s.take(s.len() - p.len()), p)
    } else {
        s
    }
}

/// `p` occurs in `s` at position `i`.
pub open spec fn occurs_at(s: Seq<char>, p: Seq<char>, i: int) -> bool {
    0 <= i && i + p.len() <= s.len() && s.subrange(i, i + p.len()) == p
}

/// `p` occurs somewhere in `s`.
pub open spec fn contains_spec(s: Seq<char>, p: Seq<char>) -> bool {
    exists|i: int| occurs_at(s, p, i)
}

/// The characters of `s`, in order.
pub fn chars_of(s: &str) -> (v: Vec<char>)
    ensures
        v@ == s@,
{
    let mut v: Vec<char> = Vec::new();
    for c in it: s.chars()
        invariant
            it.seq() == s@,
            v@ == it.seq().take(it.index() as int),
    {
        v.push(c);
    }
    v
}

/// Whether `c` is white space, as `char::is_whitespace` decides.
pub fn is_whitespace(c: char) -> (b: bool)
    ensures
        b == is_white_space(c),
{
    let u = c as u32;
    (0x09 <= u && u <= 0x0d) || u == 0x20 || u == 0x85 || u == 0xa0 || u == 0x1680 || (0x2000
        <= u && u <= 0x200a) || u == 0x2028 || u == 0x2029 || u == 0x202f || u == 0x205f || u
        == 0x3000
}

/// The index in `lo..=hi` past the white space that opens `v[lo..hi]`.
fn skip_white_front(v: &Vec<char>, lo: usize, hi: usize) -> (r: usize)
    requires
        lo <= hi <= v@.len(),
    ensures
        lo <= r <= hi,
        v@.subrange(r as int, hi as int) == trim_start_spec(v@.subrange(lo as int, hi as int)),
{
    let mut r = lo;
    while r < hi && is_whitespace(v[r])
        invariant
            lo <= r <= hi <= v@.len(),
            trim_start_spec(v@.subrange(r as int, hi as int)) == trim_start_spec(
                v@.subrange(lo as int, hi as int),
            ),
        decreases hi - r,
    {
        assert(v@.subrange(r as int, hi as int).drop_first() =~= v@.subrange(r + 1, hi as int));
        r = r + 1;
    }
    r
}

/// The index in `lo..=hi` before the white space that closes `v[lo..hi]`.
fn skip_white_back(v: &Vec<char>, lo: usize, hi: usize) -> (r: usize)
    requires
        lo <= hi <= v@.len(),
    ensures
        lo <= r <= hi,
        v@.subrange(lo as int, r as int) == trim_end_spec(v@.subrange(lo as int, hi as int)),
{
    let mut r = hi;
    while lo < r && is_whitespace(v[r - 1])
        invariant
            lo <= r <= hi <= v@.len(),
            trim_end_spec(v@.subrange(lo as int, r as int)) == trim_end_spec(
                v@.subrange(lo as int, hi as int),
            ),
        decreases r - lo,
    {
        assert(v@.subrange(lo as int, r as int).drop_last() =~= v@.subrange(lo as int, r - 1));
        r = r - 1;
    }
    r
}

/// Whether `p` occurs in `v` at position `i`.
fn occurs_in_at(v: &Vec<char>, p: &Vec<char>, i: usize) -> (b: bool)
    ensures
        b == occurs_at(v@, p@, i as int),
{
    if i > v.len() || p.len() > v.len() - i {
        return false;
    }
    let mut k: usize = 0;
    while k < p.len()
        invariant
            i + p@.len() <= v@.len() <= usize::MAX,
            k <= p@.len(),
            forall|j: int| 0 <= j < k ==> v@[i + j] == p@[j],
        decreases p@.len() - k,
    {
        if v[i + k] != p[k] {
            assert(v@.subrange(i as int, i + p@.len())[k as int] != p@[k as int]);
            return false;
        }
        k = k + 1;
    }
    assert(v@.subrange(i as int, i + p@.len()) =~= p@);
    true
}

/// The index in `lo..=hi` past every repetition of `p` that opens `v[lo..hi]`.
fn skip_prefixes(v: &Vec<char>, lo: usize, hi: usize, p: &Vec<char>) -> (r: usize)
    requires
        lo <= hi <= v@.len(),
    ensures
        lo <= r <= hi,
        v@.subrange(r as int, hi as int) == strip_prefixes(v@.subrange(lo as int, hi as int), p@),
{
    let mut r = lo;
    while p.len() > 0 && p.len() <= hi - r && occurs_in_at(v, p, r)
        invariant
            lo <= r <= hi <= v@.len(),
            strip_prefixes(v@.subrange(r as int, hi as int), p@) == strip_prefixes(
                v@.subrange(lo as int, hi as int),
                p@,
            ),
        decreases hi - r,
    {
        let ghost sub = v@.subrange(r as int, hi as int);
        assert(sub.take(p@.len() as int) =~= v@.subrange(r as int, r + p@.len()));
        assert(sub.skip(p@.len() as int) =~= v@.subrange(r + p@.len(), hi as int));
        r = r + p.len();
    }
    proof {
        let sub = v@.subrange(r as int, hi as int);
        if p@.len() > 0 && p@.len() <= sub.len() {
            assert(sub.take(p@.len() as int) =~= v@.subrange(r as int, r + p@.len()));
        }
    }
    r
}

/// The index in `lo..=hi` before every repetition of `p` that closes `v[lo..hi]`.
fn skip_suffixes(v: &Vec<char>, lo: usize, hi: usize, p: &Vec<char>) -> (r: usize)
    requires
        lo <= hi <= v@.len(),
    ensures
        lo <= r <= hi,
        v@.subrange(lo as int, r as int) == strip_suffixes(v@.subrange(lo as int, hi as int), p@),
{
    let mut r = hi;
    while p.len() > 0 && p.len() <= r - lo && occurs_in_at(v, p, r - p.len())
        invariant
            lo <= r <= hi <= v@.len(),
            strip_suffixes(v@.subrange(lo as int, r as int), p@) == strip_suffixes(
                v@.subrange(lo as int, hi as int),
                p@,
            ),
        decreases r - lo,
    {
        let ghost sub = v@.subrange(lo as int, r as int);
        assert(sub.skip(sub.len() - p@.len()) =~= v@.subrange(r - p@.len(), r as int));
        assert(sub.take(sub.len() - p@.len()) =~= v@.subrange(lo as int, r - p@.len()));
        r = r - p.len();
    }
    proof {
        let sub = v@.subrange(lo as int, r as int);
        if p@.len() > 0 && p@.len() <= sub.len() {
            assert(sub.skip(sub.len() - p@.len()) =~= v@.subrange(r - p@.len(), r as int));
        }
    }
    r
}

/// `s` without leading and trailing white space, as `str::trim` gives it.
pub fn trim(s: &str) -> (r: &str)
    ensures
        r@ == trim_spec(s@),
{
    let v = chars_of(s);
    assert(v@.subrange(0, v@.len() as int) =~= v@);
    let a = skip_white_front(&v, 0, v.len());
    let b = skip_white_back(&v, a, v.len());
    s.substring_char(a, b)
}

/// `s` with every leading repetition of the non-empty pattern `p` removed,
/// as `str::trim_start_matches` gives it.
pub fn trim_start_matches<'a>(s: &'a str, p: &str) -> (r: &'a str)
    ensures
        r@ == strip_prefixes(s@, p@),
{
    let v = chars_of(s);
    let pv = chars_of(p);
    assert(v@.subrange(0, v@.len() as int) =~= v@);
    let a = skip_prefixes(&v, 0, v.len(), &pv);
    s.substring_char(a, v.len())
}

/// `s` with every trailing repetition of the non-empty pattern `p` removed,
/// as `str::trim_end_matches` gives it.
pub fn trim_end_matches<'a>(s: &'a str, p: &str) -> (r: &'a str)
    ensures
        r@ == strip_suffixes(s@, p@),
{
    let v = chars_of(s);
    let pv = chars_of(p);
    assert(v@.subrange(0, v@.len() as int) =~= v@);
    let b = skip_suffixes(&v, 0, v.len(), &pv);
    s.substring_char(0, b)
}

/// Whether `p` occurs in `s`, as `str::contains` decides.
pub fn contains(s: &str, p: &str) -> (b: bool)
    ensures
        b == contains_spec(s@, p@),
{
    let v = chars_of(s);
    let pv = chars_of(p);
    if pv.len() > v.len() {
        assert forall|i: int| !occurs_at(s@, p@, i) by {}
        return false;
    }
    if pv.len() == 0 {
        assert(s@.subrange(0, 0) =~= p@);
        assert(occurs_at(s@, p@, 0));
        return true;
    }
    let mut i: usize = 0;
    while i <= v.len() - pv.len()
        invariant
            v@ == s@,
            pv@ == p@,
            0 < pv@.len() <= v@.len(),
            i <= v@.len() - pv@.len() + 1,
            forall|j: int| 0 <= j < i ==> !occurs_at(s@, p@, j),
        decreases v@.len() - pv@.len() + 1 - i,
    {
        if occurs_in_at(&v, &pv, i) {
            return true;
        }
        i = i + 1;
    }
    assert forall|j: int| !occurs_at(s@, p@, j) by {
        if 0 <= j < i {
        }
    }
    false
}

/// Whether `a` and `b` hold the same characters.
pub fn same_text(a: &str, b: &str) -> (r: bool)
    ensures
        r == (a@ == b@),
{
    let va = chars_of(a);
    let vb = chars_of(b);
    if va.len() != vb.len() {
        return false;
    }
    let mut i: usize = 0;
    while i < va.len()
        invariant
            va@ == a@,
            vb@ == b@,
            va@.len() == vb@.len(),
            i <= va@.len(),
            forall|j: int| 0 <= j < i ==> va@[j] == vb@[j],
        decreases va@.len() - i,
    {
        if va[i] != vb[i] {
            return false;
        }
        i = i + 1;
    }
    assert(va@ =~= vb@);
    true
}

/// What `str::to_lowercase` gives for `s`: the Unicode lowercase mapping of
/// each character, which takes tables to state.
pub uninterp spec fn lowercase(s: Seq<char>) -> Seq<char>;

/// Whether every character of `s` is ASCII.
pub open spec fn is_ascii_text(s: Seq<char>) -> bool {
    forall|i: int| 0 <= i < s.len() ==> (s[i] as u32) < 128
}

/// `c` with an ASCII capital letter replaced by its small letter.
pub open spec fn ascii_lower(c: char) -> char {
    if 65 <= (c as u32) <= 90 {
        ((c as u32) + 32) as char
    } else {
        c
    }
}

/// `s` with each ASCII capital letter replaced by its small letter.
pub open spec fn ascii_lowercase(s: Seq<char>) -> Seq<char> {
    s.map_values(|c: char| ascii_lower(c))
}

/// What is known of `lowercase(s)` beyond its name: lowering ASCII capitals
/// first changes nothing, and ASCII text is lowered the ASCII way.
pub open spec fn lowercase_known(s: Seq<char>) -> bool {
    &&& lowercase(s) == lowercase(ascii_lowercase(s))
    &&& (is_ascii_text(s) ==> lowercase(s) == ascii_lowercase(s))
}

/// Calls `str::to_lowercase`, whose result is `lowercase` of the text. The
/// Unicode mapping turns `A`..`Z` into `a`..`z` one character at a time in
/// any text, and the one rule that looks at a character's neighbours (a
/// final capital sigma) asks only whether they are cased letters, which an
/// ASCII letter is in either case; so lowering ASCII capitals beforehand
/// gives the same result, and ASCII text is lowered the ASCII way.
#[verifier::external_body]
pub(crate) fn to_lowercase(s: &str) -> (r: String)
    ensures
        r@ == lowercase(s@),
        r@ == lowercase(ascii_lowercase(s@)),
        is_ascii_text(s@) ==> r@ == ascii_lowercase(s@),
{
    s.to_lowercase()
}

/// `t` is a contiguous part of `s`.
pub open spec fn is_part_of(t: Seq<char>, s: Seq<char>) -> bool {
    exists|i: int, j: int| 0 <= i <= j <= s.len() && s.subrange(i, j) == t
}

/// Being a contiguous part is transitive.
pub proof fn lemma_part_of_part(t: Seq<char>, u: Seq<char>, s: Seq<char>)
    requires
        is_part_of(t, u),
        is_part_of(u, s),
    ensures
        is_part_of(t, s),
{
    let (i, j) = choose|i: int, j: int| 0 <= i <= j <= u.len() && u.subrange(i, j) == t;
    let (k, l) = choose|k: int, l: int| 0 <= k <= l <= s.len() && s.subrange(k, l) == u;
    assert(s.subrange(k + i, k + j) =~= t);
}

/// Trimming the start keeps a suffix of the text.
pub proof fn lemma_trim_start_suffix(s: Seq<char>)
    ensures
        exists|k: int| 0 <= k <= s.len() && trim_start_spec(s) == s.skip(k),
    decreases s.len(),
{
    if s.len() > 0 && is_white_space(s[0]) {
        lemma_trim_start_suffix(s.drop_first());
        let k = choose|k: int|
            0 <= k <= s.drop_first().len() && trim_start_spec(s.drop_first()) == s.drop_first().skip(k);
        assert(s.drop_first().skip(k) =~= s.skip(k + 1));
    } else {
        assert(s.skip(0) =~= s);
    }
}

/// Trimming the end keeps a prefix of the text.
pub proof fn lemma_trim_end_prefix(s: Seq<char>)
    ensures
        exists|k: int| 0 <= k <= s.len() && trim_end_spec(s) == s.take(k),
    decreases s.len(),
{
    if s.len() > 0 && is_white_space(s.last()) {
        lemma_trim_end_prefix(s.drop_last());
        let k = choose|k: int|
            0 <= k <= s.drop_last().len() && trim_end_spec(s.drop_last()) == s.drop_last().take(k);
        assert(s.drop_last().take(k) =~= s.take(k));
    } else {
        assert(s.take(s.len() as int) =~= s);
    }
}

/// Stripping a repeated prefix keeps a suffix of the text.
pub proof fn lemma_strip_prefixes_suffix(s: Seq<char>, p: Seq<char>)
    ensures
        exists|k: int| 0 <= k <= s.len() && strip_prefixes(s, p) == s.skip(k),
    decreases s.len(),
{
    if p.len() > 0 && p.len() <= s.len() && s.take(p.len() as int) == p {
        let rest = s.skip(p.len() as int);
        lemma_strip_prefixes_suffix(rest, p);
        let k = choose|k: int| 0 <= k <= rest.len() && strip_prefixes(rest, p) == rest.skip(k);
        assert(rest.skip(k) =~= s.skip(k + p.len()));
    } else {
        assert(s.skip(0) =~= s);
    }
}

/// Stripping a repeated suffix keeps a prefix of the text.
pub proof fn lemma_strip_suffixes_prefix(s: Seq<char>, p: Seq<char>)
    ensures
        exists|k: int| 0 <= k <= s.len() && strip_suffixes(s, p) == s.take(k),
    decreases s.len(),
{
    if p.len() > 0 && p.len() <= s.len() && s.skip(s.len() - p.len()) == p {
        let rest = s.take(s.len() - p.len());
        lemma_strip_suffixes_prefix(rest, p);
        let k = choose|k: int| 0 <= k <= rest.len() && strip_suffixes(rest, p) == rest.take(k);
        assert(rest.take(k) =~= s.take(k));
    } else {
        assert(s.take(s.len() as int) =~= s);
    }
}

/// Trimming keeps a contiguous part of the text.
pub proof fn lemma_trim_part_of(s: Seq<char>)
    ensures
        is_part_of(trim_spec(s), s),
{
    lemma_trim_start_suffix(s);
    let k = choose|k: int| 0 <= k <= s.len() && trim_start_spec(s) == s.skip(k);
    let t = trim_start_spec(s);
    lemma_trim_end_prefix(t);
    let l = choose|l: int| 0 <= l <= t.len() && trim_end_spec(t) == t.take(l);
    assert(s.subrange(k, k + l) =~= t.take(l));
}

/// Stripping a repeated prefix keeps a contiguous part of the text.
pub proof fn lemma_strip_prefixes_part_of(s: Seq<char>, p: Seq<char>)
    ensures
        is_part_of(strip_prefixes(s, p), s),
{
    lemma_strip_prefixes_suffix(s, p);
    let k = choose|k: int| 0 <= k <= s.len() && strip_prefixes(s, p) == s.skip(k);
    assert(s.subrange(k, s.len() as int) =~= s.skip(k));
}

/// Stripping a repeated suffix keeps a contiguous part of the text.
pub proof fn lemma_strip_suffixes_part_of(s: Seq<char>, p: Seq<char>)
    ensures
        is_part_of(strip_suffixes(s, p), s),
{
    lemma_strip_suffixes_prefix(s, p);
    let k = choose|k: int| 0 <= k <= s.len() && strip_suffixes(s, p) == s.take(k);
    assert(s.subrange(0, k) =~= s.take(k));
}

/// What trimming the start leaves does not begin with white space.
proof fn lemma_trim_start_first(s: Seq<char>)
    ensures
        trim_start_spec(s).len() > 0 ==> !is_white_space(trim_start_spec(s)[0]),
    decreases s.len(),
{
    if s.len() > 0 && is_white_space(s[0]) {
        lemma_trim_start_first(s.drop_first());
    }
}

/// What trimming the end leaves does not end with white space, and keeps
/// the first character of a text that does not begin with white space.
proof fn lemma_trim_end_last(s: Seq<char>)
    ensures
        trim_end_spec(s).len() > 0 ==> !is_white_space(trim_end_spec(s).last()),
        trim_end_spec(s).len() > 0 ==> trim_end_spec(s)[0] == s[0],
        s.len() > 0 && !is_white_space(s[0]) ==> trim_end_spec(s).len() > 0,
    decreases s.len(),
{
    if s.len() > 0 && is_white_space(s.last()) {
        lemma_trim_end_last(s.drop_last());
    }
}

/// Law: trimmed text neither begins nor ends with white space.
pub proof fn lemma_trim_has_no_outer_white_space(s: Seq<char>)
    ensures
        trim_spec(s).len() > 0 ==> !is_white_space(trim_spec(s)[0]) && !is_white_space(
            trim_spec(s).last(),
        ),
{
    lemma_trim_start_first(s);
    lemma_trim_end_last(trim_start_spec(s));
}

/// Stripping slashes leaves no trailing slash, and ignores one more.
pub proof fn lemma_strip_slashes(u: Seq<char>)
    ensures
        strip_suffixes(u, "/"@).len() > 0 ==> strip_suffixes(u, "/"@).last() != '/',
        strip_suffixes(u.push('/'), "/"@) == strip_suffixes(u, "/"@),
    decreases u.len(),
{
    reveal_strlit("/");
    let v = u.push('/');
    assert(v.skip(v.len() - 1) =~= seq!['/']);
    assert(v.take(v.len() - 1) =~= u);
    assert("/"@ =~= seq!['/']);
    assert(strip_suffixes(v, "/"@) == strip_suffixes(v.take(v.len() - 1), "/"@));
    if u.len() > 0 && u.last() == '/' {
        assert(u.skip(u.len() - 1) =~= seq!['/']);
        lemma_strip_slashes(u.drop_last());
        assert(u.drop_last().push('/') =~= u);
        assert(u.take(u.len() - 1) =~= u.drop_last());
    } else if u.len() > 0 {
        assert(u.skip(u.len() - 1) =~= seq![u.last()]);
        assert(u.skip(u.len() - 1) != seq!['/']) by {
            assert(u.skip(u.len() - 1)[0] == u.last());
        }
    }
}

/// Law: trimming twice trims no more than trimming once.
pub proof fn lemma_trim_idempotent(s: Seq<char>)
    ensures
        trim_spec(trim_spec(s)) == trim_spec(s),
{
    let t = trim_spec(s);
    lemma_trim_has_no_outer_white_space(s);
    if t.len() > 0 {
        assert(trim_start_spec(t) == t);
        assert(t.drop_last().len() < t.len());
        assert(trim_end_spec(t) == t);
    } else {
        assert(trim_start_spec(t) == t);
    }
}

} // verus!
