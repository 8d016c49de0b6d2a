//! Character-level text helpers shared by the parsers of this crate.
//!
//! Text is modelled as a `Seq<char>`; a `String` or `&str` is related to it by its view.
use vstd::prelude::*;

verus! {

/// The view of an optional string.
pub open spec fn opt_text(s: Option<String>) -> Option<Seq<char>> {
    match s {
        Some(t) => Some(t@),
        None => None,
    }
}

/// `pat` occurs in `s` starting at index `i`.
pub open spec fn occurs_at(s: Seq<char>, pat: Seq<char>, i: int) -> bool {
    0 <= i && i + pat.len() <= s.len() && s.subrange(i, i + pat.len()) == pat
}

/// Index of the first occurrence of `pat` in `s` at or after `i`, or -1 when there is none.
pub open spec fn find_from(s: Seq<char>, pat: Seq<char>, i: int) -> int
    decreases s.len() - i,
{
    if i < 0 || i + pat.len() > s.len() {
        -1
    } else if occurs_at(s, pat, i) {
        i
    } else if i >= s.len() {
        -1
    } else {
        find_from(s, pat, i + 1)
    }
}

/// `p` is a prefix of `s` (possibly empty, possibly equal).
pub open spec fn is_prefix(p: Seq<char>, s: Seq<char>) -> bool {
    p.len() <= s.len() && s.subrange(0, p.len() as int) == p
}

/// `p` is a suffix of `s`.
pub open spec fn is_suffix(p: Seq<char>, s: Seq<char>) -> bool {
    p.len() <= s.len() && s.subrange(s.len() - p.len(), s.len() as int) == p
}

/// `pat` occurs somewhere in `s`.
pub open spec fn contains_seq(s: Seq<char>, pat: Seq<char>) -> bool {
    exists|i: int| occurs_at(s, pat, i)
}

/// What `find_from` returns: the first occurrence at or after `i`, or none at all.
pub proof fn lemma_find_from(s: Seq<char>, pat: Seq<char>, i: int)
    requires
        0 <= i,
        pat.len() > 0,
    ensures
        find_from(s, pat, i) >= 0 ==> {
            &&& i <= find_from(s, pat, i)
            &&& occurs_at(s, pat, find_from(s, pat, i))
            &&& forall|j: int| i <= j < find_from(s, pat, i) ==> !occurs_at(s, pat, j)
        },
        find_from(s, pat, i) < 0 ==> forall|j: int| i <= j ==> !occurs_at(s, pat, j),
    decreases s.len() - i,
{
    if i + pat.len() > s.len() {
    } else if occurs_at(s, pat, i) {
    } else if i >= s.len() {
    } else {
        lemma_find_from(s, pat, i + 1);
        assert forall|j: int| i <= j < find_from(s, pat, i) implies !occurs_at(s, pat, j) by {
            if j == i {
            }
        }
        assert forall|j: int| i <= j && find_from(s, pat, i) < 0 implies !occurs_at(s, pat, j) by {
            if j == i {
            }
        }
    }
}

/// `find_from` is determined by the occurrences: the first one at or after `i`.
pub proof fn lemma_find_from_first(s: Seq<char>, pat: Seq<char>, i: int, p: int)
    requires
        0 <= i <= p,
        pat.len() > 0,
        occurs_at(s, pat, p),
        forall|j: int| i <= j < p ==> !occurs_at(s, pat, j),
    ensures
        find_from(s, pat, i) == p,
    decreases p - i,
{
    if i < p {
        lemma_find_from_first(s, pat, i + 1, p);
    }
}

/// When no occurrence starts at or after `i`, `find_from` reports none.
pub proof fn lemma_find_from_none(s: Seq<char>, pat: Seq<char>, i: int)
    requires
        0 <= i,
        pat.len() > 0,
        forall|j: int| i <= j ==> !occurs_at(s, pat, j),
    ensures
        find_from(s, pat, i) < 0,
{
    lemma_find_from(s, pat, i);
}

/// An occurrence that ends inside a prefix is an occurrence in the prefix, and back.
pub proof fn lemma_occurs_in_prefix(s: Seq<char>, rest: Seq<char>, pat: Seq<char>, j: int)
    requires
        0 <= j,
        j + pat.len() <= s.len(),
    ensures
        occurs_at(s + rest, pat, j) == occurs_at(s, pat, j),
{
    assert((s + rest).subrange(j, j + pat.len()) =~= s.subrange(j, j + pat.len()));
}

/// Returns the characters of `s` in order.
pub fn chars_of(s: &str) -> (out: Vec<char>)
    ensures
        out@ == s@,
{
    let mut out: Vec<char> = Vec::new();
    for c in it: s.chars()
        invariant
            out@ == it.seq().take(it.index() as int),
            it.seq() == s@,
    {
        out.push(c);
    }
    out
}

/// Collects characters into a `String` (std's `FromIterator<char>` for `String`).
///
/// Trusted: the string built from the characters holds exactly those characters in order,
/// as std documents for `collect::<String>()`.
#[verifier::external_body]
pub(crate) fn string_of(chars: &[char]) -> (s: String)
    ensures
        s@ == chars@,
{
    chars.iter().collect()
}

/// Copies `v[lo..hi]` into a new vector.
pub fn copy_range(v: &Vec<char>, lo: usize, hi: usize) -> (out: Vec<char>)
    requires
        lo <= hi <= v.len(),
    ensures
        out@ == v@.subrange(lo as int, hi as int),
{
    let mut out: Vec<char> = Vec::new();
    let mut i = lo;
    while i < hi
        invariant
            lo <= i <= hi <= v.len(),
            out@ == v@.subrange(lo as int, i as int),
        decreases hi - i,
    {
        out.push(v[i]);
        i += 1;
    }
    out
}

/// The string made of `v[lo..hi]`.
pub fn string_of_range(v: &Vec<char>, lo: usize, hi: usize) -> (s: String)
    requires
        lo <= hi <= v.len(),
    ensures
        s@ == v@.subrange(lo as int, hi as int),
{
    let part = copy_range(v, lo, hi);
    string_of(part.as_slice())
}

/// Appends the characters of `s` to `v`.
pub fn push_str(v: &mut Vec<char>, s: &str)
    ensures
        final(v)@ == old(v)@ + s@,
{
    let cs = chars_of(s);
    let mut i: usize = 0;
    while i < cs.len()
        invariant
            i <= cs.len(),
            cs@ == s@,
            v@ == old(v)@ + cs@.subrange(0, i as int),
        decreases cs.len() - i,
    {
        v.push(cs[i]);
        i += 1;
        assert(cs@.subrange(0, i as int) =~= cs@.subrange(0, i - 1) + seq![cs@[i - 1]]);
    }
    assert(cs@.subrange(0, cs.len() as int) =~= cs@);
}

/// Appends the characters of `w` to `v`.
pub fn push_chars(v: &mut Vec<char>, w: &Vec<char>)
    ensures
        final(v)@ == old(v)@ + w@,
{
    let mut i: usize = 0;
    while i < w.len()
        invariant
            i <= w.len(),
            v@ == old(v)@ + w@.subrange(0, i as int),
        decreases w.len() - i,
    {
        v.push(w[i]);
        i += 1;
        assert(w@.subrange(0, i as int) =~= w@.subrange(0, i - 1) + seq![w@[i - 1]]);
    }
    assert(w@.subrange(0, w.len() as int) =~= w@);
}

/// Whether `pat` occurs in `v` at index `i`.
pub fn matches_at(v: &Vec<char>, pat: &Vec<char>, i: usize) -> (b: bool)
    ensures
        b == occurs_at(v@, pat@, i as int),
{
    if pat.len() > v.len() || i > v.len() - pat.len() {
        return false;
    }
    let mut k: usize = 0;
    while k < pat.len()
        invariant
            k <= pat.len(),
            i + pat.len() <= v.len(),
            forall|m: int| 0 <= m < k ==> v@[i + m] == pat@[m],
        decreases pat.len() - k,
    {
        if v[i + k] != pat[k] {
            assert(v@.subrange(i as int, i + pat.len())[k as int] != pat@[k as int]);
            return false;
        }
        k += 1;
    }
    assert(v@.subrange(i as int, i + pat.len()) =~= pat@);
    true
}

/// First occurrence of `pat` in `v[..end]` at or after `from`.
pub fn find_in(v: &Vec<char>, pat: &Vec<char>, from: usize, end: usize) -> (r: Option<usize>)
    requires
        end <= v.len(),
        pat.len() > 0,
    ensures
        match r {
            Some(p) => p as int == find_from(v@.subrange(0, end as int), pat@, from as int),
            None => find_from(v@.subrange(0, end as int), pat@, from as int) < 0,
        },
{
    let ghost s = v@.subrange(0, end as int);
    let mut i = from;
    while i < end && pat.len() <= end - i
        invariant
            from <= i,
            end <= v.len(),
            pat.len() > 0,
            s == v@.subrange(0, end as int),
            forall|j: int| from <= j < i ==> !occurs_at(s, pat@, j),
        decreases end - i,
    {
        assert(occurs_at(s, pat@, i as int) == occurs_at(v@, pat@, i as int)) by {
            assert(s.subrange(i as int, i + pat.len()) =~= v@.subrange(i as int, i + pat.len()));
        }
        if matches_at(v, pat, i) {
            proof {
                lemma_find_from_first(s, pat@, from as int, i as int);
            }
            return Some(i);
        }
        i += 1;
    }
    proof {
        lemma_find_from_none(s, pat@, from as int);
    }
    None
}

} // verus!

verus! {

/// Whether two character sequences are equal.
pub fn same_chars(a: &Vec<char>, b: &Vec<char>) -> (r: bool)
    ensures
        r == (a@ == b@),
{
    if a.len() != b.len() {
        return false;
    }
    let mut i: usize = 0;
    while i < a.len()
        invariant
            a.len() == b.len(),
            i <= a.len(),
            forall|k: int| 0 <= k < i ==> a@[k] == b@[k],
        decreases a.len() - i,
    {
        if a[i] != b[i] {
            return false;
        }
        i += 1;
    }
    assert(a@ =~= b@);
    true
}

/// Whether two strings hold the same text.
pub fn same_text(a: &str, b: &str) -> (r: bool)
    ensures
        r == (a@ == b@),
{
    let ca = chars_of(a);
    let cb = chars_of(b);
    same_chars(&ca, &cb)
}

/// A new `String` holding the text of `s`.
pub fn owned(s: &str) -> (r: String)
    ensures
        r@ == s@,
{
    String::from_str(s)
}

} // verus!

verus! {

/// `s` without its trailing run of `c`.
pub open spec fn trim_end_char(s: Seq<char>, c: char) -> Seq<char>
    decreases s.len(),
{
    if s.len() > 0 && s.last() == c {
        trim_end_char(s.drop_last(), c)
    } else {
        s
    }
}

/// The text of `s` without its trailing run of `c` (`str::trim_end_matches` with a char).
pub fn trimmed_end(s: &str, c: char) -> (r: String)
    ensures
        r@ == trim_end_char(s@, c),
{
    let v = chars_of(s);
    let mut e = v.len();
    assert(v@.subrange(0, e as int) =~= v@);
    while e > 0 && v[e - 1] == c
        invariant
            e <= v.len(),
            trim_end_char(v@, c) == trim_end_char(v@.subrange(0, e as int), c),
        decreases e,
    {
        assert(v@.subrange(0, e as int).drop_last() =~= v@.subrange(0, e - 1));
        e -= 1;
    }
    assert(trim_end_char(v@.subrange(0, e as int), c) == v@.subrange(0, e as int));
    string_of_range(&v, 0, e)
}

/// Whether `needle` occurs in `hay` (`str::contains` with a non-empty pattern).
pub fn contains_text(hay: &str, needle: &str) -> (r: bool)
    requires
        needle@.len() > 0,
    ensures
        r == contains_seq(hay@, needle@),
{
    let h = chars_of(hay);
    let n = chars_of(needle);
    assert(h@.subrange(0, h.len() as int) =~= h@);
    proof {
        lemma_find_from(h@, n@, 0);
    }
    match find_in(&h, &n, 0, h.len()) {
        Some(_) => true,
        None => {
            assert forall|i: int| !occurs_at(h@, n@, i) by {
                if i < 0 {
                }
            }
            false
        },
    }
}

/// A new `String` holding `a` followed by `b`.
pub fn concat2(a: &str, b: &str) -> (r: String)
    ensures
        r@ == a@ + b@,
{
    let mut r = String::from_str(a);
    r.append(b);
    r
}

} // verus!

verus! {

/// `s[i..]` with every occurrence of the non-empty `pat` replaced by `rep`, scanning from the
/// left and never overlapping (what `str::replace` does).
pub open spec fn replace_from(s: Seq<char>, pat: Seq<char>, rep: Seq<char>, i: int) -> Seq<char>
    decreases s.len() - i,
{
    if i < 0 || i > s.len() || pat.len() == 0 {
        Seq::empty()
    } else {
        let p = find_from(s, pat, i);
        if p < 0 {
            s.subrange(i, s.len() as int)
        } else {
            proof {
                lemma_find_from(s, pat, i);
            }
            s.subrange(i, p) + rep + replace_from(s, pat, rep, p + pat.len())
        }
    }
}

/// `s` with every occurrence of the non-empty `pat` replaced by `rep`.
pub open spec fn replace_all(s: Seq<char>, pat: Seq<char>, rep: Seq<char>) -> Seq<char> {
    replace_from(s, pat, rep, 0)
}

/// `s` with every `c` turned into `r`.
pub open spec fn swap_char(s: Seq<char>, c: char, r: char) -> Seq<char> {
    s.map_values(|x: char| if x == c { r } else { x })
}

/// Replacing a one-character pattern by one character turns each occurrence into it.
pub proof fn lemma_replace_char(s: Seq<char>, c: char, r: char, i: int)
    requires
        0 <= i <= s.len(),
    ensures
        replace_from(s, seq![c], seq![r], i) == swap_char(s.subrange(i, s.len() as int), c, r),
    decreases s.len() - i,
{
    let pat = seq![c];
    lemma_find_from(s, pat, i);
    let p = find_from(s, pat, i);
    assert forall|j: int| i <= j < s.len() && (p < 0 || j < p) implies s[j] != c by {
        if s[j] == c {
            assert(s.subrange(j, j + 1) =~= pat);
            assert(occurs_at(s, pat, j));
        }
    }
    if p < 0 {
        assert(s.subrange(i, s.len() as int) =~= swap_char(s.subrange(i, s.len() as int), c, r));
    } else {
        lemma_replace_char(s, c, r, p + 1);
        assert(s.subrange(p, p + 1) == pat);
        assert(s[p] == c) by {
            assert(s.subrange(p, p + 1)[0] == s[p]);
        }
        assert(s.subrange(i, p) + seq![r] + swap_char(s.subrange(p + 1, s.len() as int), c, r)
            =~= swap_char(s.subrange(i, s.len() as int), c, r));
    }
}

/// Replaces every occurrence of the non-empty `pat` in `s` by `rep`.
pub fn replace_text(s: &Vec<char>, pat: &Vec<char>, rep: &Vec<char>) -> (r: Vec<char>)
    requires
        pat.len() > 0,
    ensures
        r@ == replace_all(s@, pat@, rep@),
{
    let n = s.len();
    assert(s@.subrange(0, n as int) =~= s@);
    let mut out: Vec<char> = Vec::new();
    let mut pos: usize = 0;
    let mut done = false;
    while !done
        invariant
            n == s.len(),
            s@.subrange(0, n as int) == s@,
            pat.len() > 0,
            pos <= n,
            !done ==> out@ + replace_from(s@, pat@, rep@, pos as int) == replace_all(
                s@,
                pat@,
                rep@,
            ),
            done ==> out@ == replace_all(s@, pat@, rep@),
        decreases n - pos + (if done { 0int } else { 1int }),
    {
        proof {
            lemma_find_from(s@, pat@, pos as int);
        }
        match find_in(s, pat, pos, n) {
            None => {
                let tail = copy_range(s, pos, n);
                push_chars(&mut out, &tail);
                done = true;
            },
            Some(p) => {
                let ghost out0 = out@;
                let seg = copy_range(s, pos, p);
                push_chars(&mut out, &seg);
                push_chars(&mut out, rep);
                assert(out@ + replace_from(s@, pat@, rep@, p + pat.len()) =~= out0 + (seg@ + rep@
                    + replace_from(s@, pat@, rep@, p + pat.len())));
                pos = p + pat.len();
            },
        }
    }
    out
}

/// Replaces every occurrence of the non-empty `pat` in `s` by `rep` (`str::replace`).
pub fn replace_str(s: &str, pat: &str, rep: &str) -> (r: String)
    requires
        pat@.len() > 0,
    ensures
        r@ == replace_all(s@, pat@, rep@),
{
    let sv = chars_of(s);
    let pv = chars_of(pat);
    let rv = chars_of(rep);
    let out = replace_text(&sv, &pv, &rv);
    string_of(out.as_slice())
}

/// Whether `s` ends with `suffix`.
pub fn ends_with_text(s: &str, suffix: &str) -> (r: bool)
    ensures
        r == is_suffix(suffix@, s@),
{
    let sv = chars_of(s);
    let xv = chars_of(suffix);
    if xv.len() > sv.len() {
        return false;
    }
    let start = sv.len() - xv.len();
    let tail = copy_range(&sv, start, sv.len());
    same_chars(&tail, &xv)
}

/// A character with the Unicode property White_Space (as `char::is_whitespace` documents):
/// U+0009 to U+000D, U+0020, U+0085, U+00A0, U+1680, U+2000 to U+200A, U+2028, U+2029,
/// U+202F, U+205F and U+3000.
pub open spec fn is_white_space(c: char) -> bool {
    let u = c as u32;
    (0x9 <= u <= 0xd) || u == 0x20 || u == 0x85 || u == 0xa0 || u == 0x1680 || (0x2000 <= u
        <= 0x200a) || u == 0x2028 || u == 0x2029 || u == 0x202f || u == 0x205f || u == 0x3000
}

/// `s` without its leading white space.
pub open spec fn trim_start_white(s: Seq<char>) -> Seq<char>
    decreases s.len(),
{
    if s.len() > 0 && is_white_space(s[0]) {
        trim_start_white(s.drop_first())
    } else {
        s
    }
}

/// `s` without its trailing white space.
pub open spec fn trim_end_white(s: Seq<char>) -> Seq<char>
    decreases s.len(),
{
    if s.len() > 0 && is_white_space(s.last()) {
        trim_end_white(s.drop_last())
    } else {
        s
    }
}

/// `s` without leading and trailing white space.
pub open spec fn trim_whitespace(s: Seq<char>) -> Seq<char> {
    trim_end_white(trim_start_white(s))
}

/// The text of `s` without leading and trailing white space (`str::trim`).
///
/// Trusted: `str::trim` removes leading and trailing characters with the White_Space
/// property, as its documentation says; that is `trim_whitespace`.
#[verifier::external_body]
pub(crate) fn trimmed(s: &str) -> (r: String)
    ensures
        r@ == trim_whitespace(s@),
{
    s.trim().to_string()
}

/// `s` in lower case, as `str::to_lowercase` defines it.
pub uninterp spec fn lowercase(s: Seq<char>) -> Seq<char>;

/// Every character of `s` is ASCII.
pub open spec fn is_ascii_text(s: Seq<char>) -> bool {
    forall|i: int| 0 <= i < s.len() ==> (#[trigger] s[i] as u32) < 128
}

/// An ASCII letter `A`-`Z` in lower case; any other character as it is.
pub open spec fn ascii_lower(c: char) -> char {
    if 'A' <= c && c <= 'Z' {
        ((c as u32) + 32) as char
    } else {
        c
    }
}

/// `s` with its ASCII capital letters in lower case.
pub open spec fn ascii_lowercase(s: Seq<char>) -> Seq<char> {
    s.map_values(|c: char| ascii_lower(c))
}

/// The text of `s` in lower case (`str::to_lowercase`).
///
/// Trusted: the result is a function of the text alone, named `lowercase`; on ASCII text,
/// Unicode's lower-case mapping turns `A`-`Z` into `a`-`z` and leaves every other character.
#[verifier::external_body]
pub(crate) fn lowercased(s: &str) -> (r: String)
    ensures
        r@ == lowercase(s@),
        is_ascii_text(s@) ==> r@ == ascii_lowercase(s@),
{
    s.to_lowercase()
}

/// `s` in upper case, as `str::to_uppercase` defines it.
pub uninterp spec fn uppercase(s: Seq<char>) -> Seq<char>;

/// The text of `s` in upper case (`str::to_uppercase`).
///
/// Trusted: the result is a function of the text alone, named `uppercase`.
#[verifier::external_body]
pub(crate) fn uppercased(s: &str) -> (r: String)
    ensures
        r@ == uppercase(s@),
{
    s.to_uppercase()
}

} // verus!

verus! {

/// Whether `s` starts with `prefix`.
pub fn starts_with_text(s: &str, prefix: &str) -> (r: bool)
    ensures
        r == is_prefix(prefix@, s@),
{
    let sv = chars_of(s);
    let pv = chars_of(prefix);
    if pv.len() > sv.len() {
        return false;
    }
    let head = copy_range(&sv, 0, pv.len());
    same_chars(&head, &pv)
}


/// The decimal digit `d` (0 to 9) as a character.
pub open spec fn digit_char(d: int) -> char {
    if d == 0 {
        '0'
    } else if d == 1 {
        '1'
    } else if d == 2 {
        '2'
    } else if d == 3 {
        '3'
    } else if d == 4 {
        '4'
    } else if d == 5 {
        '5'
    } else if d == 6 {
        '6'
    } else if d == 7 {
        '7'
    } else if d == 8 {
        '8'
    } else {
        '9'
    }
}

/// The decimal numeral of `n`, without leading zeros.
pub open spec fn decimal(n: nat) -> Seq<char>
    decreases n,
{
    if n < 10 {
        seq![digit_char(n as int)]
    } else {
        decimal(n / 10).push(digit_char((n % 10) as int))
    }
}

fn push_decimal(v: &mut Vec<char>, n: usize)
    ensures
        final(v)@ == old(v)@ + decimal(n as nat),
    decreases n,
{
    if n >= 10 {
        push_decimal(v, n / 10);
    }
    let d = n % 10;
    let c = if d == 0 {
        '0'
    } else if d == 1 {
        '1'
    } else if d == 2 {
        '2'
    } else if d == 3 {
        '3'
    } else if d == 4 {
        '4'
    } else if d == 5 {
        '5'
    } else if d == 6 {
        '6'
    } else if d == 7 {
        '7'
    } else if d == 8 {
        '8'
    } else {
        '9'
    };
    let ghost before = v@;
    v.push(c);
    proof {
        if n >= 10 {
            assert(v@ =~= old(v)@ + decimal(n as nat));
        } else {
            assert(v@ =~= old(v)@ + decimal(n as nat));
        }
    }
}

/// The decimal numeral of `n`.
pub fn decimal_text(n: usize) -> (s: String)
    ensures
        s@ == decimal(n as nat),
{
    let mut v: Vec<char> = Vec::new();
    push_decimal(&mut v, n);
    assert(v@ =~= decimal(n as nat));
    string_of(v.as_slice())
}

} // verus!
