//! Small verified operations on strings: equality, white-space trimming and
//! prefixes.
use vstd::prelude::*;
use vstd::string::*;
use vstd::utf8::*;

verus! {

broadcast use encode_utf8_decode_utf8;

/// Two strings hold the same characters exactly when they have the same UTF-8 bytes.
pub proof fn lemma_bytes_determine_chars(a: &str, b: &str)
    ensures
        (a@ == b@) <==> (a.spec_bytes() == b.spec_bytes()),
{
    if a.spec_bytes() == b.spec_bytes() {
        assert(decode_utf8(encode_utf8(a@)) == a@);
        assert(decode_utf8(encode_utf8(b@)) == b@);
    }
}

/// String equality, decided byte by byte.
pub fn str_eq(a: &str, b: &str) -> (res: bool)
    ensures
        res == (a@ == b@),
{
    proof {
        lemma_bytes_determine_chars(a, b);
    }
    let x = a.as_bytes();
    let y = b.as_bytes();
    if x.len() != y.len() {
        return false;
    }
    let mut i: usize = 0;
    while i < x.len()
        invariant
            x@ == a.spec_bytes(),
            y@ == b.spec_bytes(),
            x@.len() == y@.len(),
            0 <= i <= x@.len(),
            forall|j: int| 0 <= j < i ==> x@[j] == y@[j],
        decreases x@.len() - i,
    {
        if x[i] != y[i] {
            return false;
        }
        i += 1;
    }
    assert(x@ =~= y@);
    true
}

/// The character sequences of a list of strings.
pub open spec fn views(v: Seq<String>) -> Seq<Seq<char>> {
    v.map_values(|s: String| s@)
}

/// Whether `list` holds a string equal to `s`.
pub fn contains_str(list: &Vec<String>, s: &str) -> (found: bool)
    ensures
        found == views(list@).contains(s@),
{
    let mut i: usize = 0;
    while i < list.len()
        invariant
            0 <= i <= list@.len(),
            forall|j: int| 0 <= j < i ==> #[trigger] views(list@)[j] != s@,
        decreases list@.len() - i,
    {
        if str_eq(list[i].as_str(), s) {
            assert(views(list@)[i as int] == s@);
            return true;
        }
        i += 1;
    }
    false
}

/// The characters that Unicode gives the `White_Space` property, which is what
/// `char::is_whitespace` and `str::trim` go by.
pub open spec fn is_white_space(c: char) -> bool {
    let u = c as u32;
    ||| 0x09 <= u <= 0x0d
    ||| u == 0x20
    ||| u == 0x85
    ||| u == 0xa0
    ||| u == 0x1680
    ||| 0x2000 <= u <= 0x200a
    ||| u == 0x2028
    ||| u == 0x2029
    ||| u == 0x202f
    ||| u == 0x205f
    ||| u == 0x3000
}

/// Whether `c` is a Unicode white-space character.
pub fn is_white_space_char(c: char) -> (res: bool)
    ensures
        res == is_white_space(c),
{
    let u = c as u32;
    (0x09 <= u && u <= 0x0d) || u == 0x20 || u == 0x85 || u == 0xa0 || u == 0x1680 || (0x2000
        <= u && u <= 0x200a) || u == 0x2028 || u == 0x2029 || u == 0x202f || u == 0x205f || u
        == 0x3000
}

/// `s` with its leading white space removed.
pub open spec fn trim_start(s: Seq<char>) -> Seq<char>
    decreases s.len(),
{
    if s.len() > 0 && is_white_space(s[0]) {
        trim_start(s.drop_first())
    } else {
        s
    }
}

/// `s` with its trailing white space removed.
pub open spec fn trim_end(s: Seq<char>) -> Seq<char>
    decreases s.len(),
{
    if s.len() > 0 && is_white_space(s.last()) {
        trim_end(s.drop_last())
    } else {
        s
    }
}

/// `s` with white space removed at both ends, as `str::trim` gives it.
pub open spec fn trim(s: Seq<char>) -> Seq<char> {
    trim_end(trim_start(s))
}

/// Whether `s` begins with `prefix`.
pub open spec fn starts_with(s: Seq<char>, prefix: Seq<char>) -> bool {
    prefix.len() <= s.len() && s.subrange(0, prefix.len() as int) == prefix
}

/// The characters of `s`, in order.
pub fn chars_of(s: &str) -> (v: Vec<char>)
    ensures
        v@ == s@,
{
    let mut v: Vec<char> = Vec::new();
    for c in it: s.chars()
        invariant
            it.seq() == s@,
            v@ == s@.take(it.index() as int),
    {
        v.push(c);
    }
    assert(v@ =~= s@);
    v
}

/// The bounds `(a, b)` of `v` with white space trimmed at both ends.
pub fn trim_bounds(v: &Vec<char>) -> (bounds: (usize, usize))
    ensures
        bounds.0 <= bounds.1 <= v@.len(),
        v@.subrange(bounds.0 as int, bounds.1 as int) == trim(v@),
{
    let n = v.len();
    let mut a: usize = 0;
    assert(v@.subrange(0, n as int) =~= v@);
    while a < n && is_white_space_char(v[a])
        invariant
            n == v@.len(),
            0 <= a <= n,
            trim_start(v@) == trim_start(v@.subrange(a as int, n as int)),
        decreases n - a,
    {
        assert(v@.subrange(a as int, n as int).drop_first() =~= v@.subrange(a + 1, n as int));
        a += 1;
    }
    let ghost front = v@.subrange(a as int, n as int);
    assert(trim_start(front) == front);
    let mut b: usize = n;
    while b > a && is_white_space_char(v[b - 1])
        invariant
            n == v@.len(),
            0 <= a <= b <= n,
            front == v@.subrange(a as int, n as int),
            trim_end(front) == trim_end(v@.subrange(a as int, b as int)),
        decreases b,
    {
        assert(v@.subrange(a as int, b as int).drop_last() =~= v@.subrange(a as int, b - 1));
        b -= 1;
    }
    assert(trim_end(v@.subrange(a as int, b as int)) == v@.subrange(a as int, b as int));
    (a, b)
}

/// Whether the characters `v[a..b]` begin with `prefix`.
pub fn range_starts_with(v: &Vec<char>, a: usize, b: usize, prefix: &str) -> (res: bool)
    requires
        a <= b <= v@.len(),
    ensures
        res == starts_with(v@.subrange(a as int, b as int), prefix@),
{
    let p = chars_of(prefix);
    if p.len() > b - a {
        return false;
    }
    let mut j: usize = 0;
    while j < p.len()
        invariant
            a <= b <= v@.len(),
            p@ == prefix@,
            p@.len() <= b - a,
            0 <= j <= p@.len(),
            forall|k: int| 0 <= k < j ==> v@[a + k] == p@[k],
        decreases p@.len() - j,
    {
        if v[a + j] != p[j] {
            assert(v@.subrange(a as int, b as int).subrange(0, p@.len() as int)[j as int] != p@[j as int]);
            return false;
        }
        j += 1;
    }
    assert(v@.subrange(a as int, b as int).subrange(0, p@.len() as int) =~= p@);
    true
}

/// Every character of `s` is white space.
pub open spec fn all_white_space(s: Seq<char>) -> bool {
    forall|i: int| 0 <= i < s.len() ==> is_white_space(#[trigger] s[i])
}

/// Leading white space is dropped by `trim_start`.
pub proof fn lemma_trim_start_skips(w: Seq<char>, x: Seq<char>)
    requires
        all_white_space(w),
    ensures
        trim_start(w + x) == trim_start(x),
    decreases w.len(),
{
    if w.len() == 0 {
        assert(w + x =~= x);
    } else {
        assert((w + x)[0] == w[0]);
        assert((w + x).drop_first() =~= w.drop_first() + x);
        lemma_trim_start_skips(w.drop_first(), x);
    }
}

/// Trailing white space is dropped by `trim_end`.
pub proof fn lemma_trim_end_skips(x: Seq<char>, w: Seq<char>)
    requires
        all_white_space(w),
    ensures
        trim_end(x + w) == trim_end(x),
    decreases w.len(),
{
    if w.len() == 0 {
        assert(x + w =~= x);
    } else {
        assert((x + w).last() == w.last());
        assert((x + w).drop_last() =~= x + w.drop_last());
        lemma_trim_end_skips(x, w.drop_last());
    }
}

/// A text of white space only trims to nothing.
pub proof fn lemma_trim_start_all_white(x: Seq<char>)
    requires
        all_white_space(x),
    ensures
        trim_start(x).len() == 0,
    decreases x.len(),
{
    if x.len() > 0 {
        lemma_trim_start_all_white(x.drop_first());
    }
}

/// A text that trims to nothing at its start is white space only.
pub proof fn lemma_trim_start_empty(x: Seq<char>)
    requires
        trim_start(x).len() == 0,
    ensures
        all_white_space(x),
    decreases x.len(),
{
    if x.len() > 0 {
        lemma_trim_start_empty(x.drop_first());
        assert forall|i: int| 0 <= i < x.len() implies is_white_space(#[trigger] x[i]) by {
            if i > 0 {
                assert(x[i] == x.drop_first()[i - 1]);
            }
        }
    }
}

/// Appending to a text whose start trims to something keeps the appended part.
pub proof fn lemma_trim_start_append(x: Seq<char>, w: Seq<char>)
    requires
        trim_start(x).len() > 0,
    ensures
        trim_start(x + w) == trim_start(x) + w,
    decreases x.len(),
{
    if x.len() > 0 && is_white_space(x[0]) {
        assert((x + w)[0] == x[0]);
        assert((x + w).drop_first() =~= x.drop_first() + w);
        lemma_trim_start_append(x.drop_first(), w);
    } else if x.len() > 0 {
        assert((x + w)[0] == x[0]);
    }
}

/// Trimming ignores white space added at either end.
pub proof fn lemma_trim_surrounded(w1: Seq<char>, s: Seq<char>, w2: Seq<char>)
    requires
        all_white_space(w1),
        all_white_space(w2),
    ensures
        trim(w1 + s + w2) == trim(s),
{
    assert(w1 + s + w2 =~= w1 + (s + w2));
    lemma_trim_start_skips(w1, s + w2);
    if trim_start(s).len() > 0 {
        lemma_trim_start_append(s, w2);
        lemma_trim_end_skips(trim_start(s), w2);
    } else {
        lemma_trim_start_empty(s);
        assert(all_white_space(s + w2)) by {
            assert forall|i: int| 0 <= i < (s + w2).len() implies is_white_space(
                #[trigger] (s + w2)[i],
            ) by {
                if i < s.len() {
                    assert((s + w2)[i] == s[i]);
                } else {
                    assert((s + w2)[i] == w2[i - s.len()]);
                }
            }
        }
        lemma_trim_start_all_white(s + w2);
        assert(trim_start(s + w2) =~= trim_start(s));
    }
}

/// `trim_end` keeps a prefix of its argument, at least up to a character that
/// is not white space.
pub proof fn lemma_trim_end_keeps(x: Seq<char>, k: int)
    requires
        0 < k <= x.len(),
        !is_white_space(x[k - 1]),
    ensures
        k <= trim_end(x).len() <= x.len(),
        trim_end(x) == x.subrange(0, trim_end(x).len() as int),
    decreases x.len(),
{
    if is_white_space(x.last()) {
        assert(x.drop_last()[k - 1] == x[k - 1]);
        lemma_trim_end_keeps(x.drop_last(), k);
        assert(x.drop_last().subrange(0, trim_end(x).len() as int) =~= x.subrange(
            0,
            trim_end(x).len() as int,
        ));
    } else {
        assert(x.subrange(0, x.len() as int) =~= x);
    }
}

/// A text that begins with `p`, whose first and last characters are not white
/// space, still begins with `p` after trimming.
pub proof fn lemma_prefix_survives_trim(p: Seq<char>, t: Seq<char>)
    requires
        p.len() > 0,
        !is_white_space(p[0]),
        !is_white_space(p.last()),
    ensures
        starts_with(trim(p + t), p),
{
    let x = p + t;
    assert(x[0] == p[0]);
    assert(trim_start(x) == x);
    assert(x[p.len() - 1] == p.last());
    lemma_trim_end_keeps(x, p.len() as int);
    assert(trim(x).subrange(0, p.len() as int) =~= p);
}

/// `trim_start` drops exactly a leading run of white space.
pub proof fn lemma_trim_start_drops_white_prefix(x: Seq<char>)
    ensures
        trim_start(x).len() <= x.len(),
        all_white_space(x.subrange(0, x.len() - trim_start(x).len())),
        trim_start(x) == x.subrange(x.len() - trim_start(x).len(), x.len() as int),
    decreases x.len(),
{
    if x.len() > 0 && is_white_space(x[0]) {
        let y = x.drop_first();
        lemma_trim_start_drops_white_prefix(y);
        let k = x.len() - trim_start(x).len();
        assert forall|i: int| 0 <= i < k implies is_white_space(
            #[trigger] x.subrange(0, k)[i],
        ) by {
            if i > 0 {
                assert(x.subrange(0, k)[i] == y.subrange(0, k - 1)[i - 1]);
            }
        }
        assert(y.subrange(k - 1, y.len() as int) =~= x.subrange(k, x.len() as int));
    } else {
        assert(x.subrange(0, 0) =~= Seq::<char>::empty());
        assert(x.subrange(0, x.len() as int) =~= x);
    }
}

/// `trim_end` keeps a prefix of its argument.
pub proof fn lemma_trim_end_is_prefix(x: Seq<char>)
    ensures
        trim_end(x).len() <= x.len(),
        trim_end(x) == x.subrange(0, trim_end(x).len() as int),
    decreases x.len(),
{
    if x.len() > 0 && is_white_space(x.last()) {
        lemma_trim_end_is_prefix(x.drop_last());
        assert(x.drop_last().subrange(0, trim_end(x).len() as int) =~= x.subrange(
            0,
            trim_end(x).len() as int,
        ));
    } else {
        assert(x.subrange(0, x.len() as int) =~= x);
    }
}

} // verus!
