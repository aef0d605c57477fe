//! Text as sequences of characters: the searching, trimming and number
//! formatting that configuration, receipts and error messages are made of.
//!
//! Specifications speak of `Seq<char>`, the view of `String` and `str`.
use vstd::prelude::*;
use vstd::utf8::*;

verus! {

// ── What std does with text ──────────────────────────────────────────────

/// The characters with the Unicode property `White_Space`.
pub open spec fn is_space(c: char) -> bool {
    let u = c as u32;
    ||| 0x09 <= u <= 0x0D
    ||| u == 0x20
    ||| u == 0x85
    ||| u == 0xA0
    ||| u == 0x1680
    ||| 0x2000 <= u <= 0x200A
    ||| u == 0x2028
    ||| u == 0x2029
    ||| u == 0x202F
    ||| u == 0x205F
    ||| u == 0x3000
}

/// `char::is_whitespace` tells whether a character has the Unicode property
/// `White_Space`; [`is_space`] lists the characters that have it.
pub assume_specification[ char::is_whitespace ](c: char) -> (b: bool)
    ensures
        b == is_space(c),
;

/// `String::push` appends one character and leaves what was there alone.
pub assume_specification[ String::push ](s: &mut String, c: char)
    ensures
        final(s)@ == old(s)@.push(c),
;

/// `==` on `str` compares the characters.
pub assume_specification[ <str as PartialEq>::eq ](a: &str, b: &str) -> (r: bool)
    ensures
        r == (a@ == b@),
;

/// `c` with an ASCII capital made small.
pub open spec fn ascii_lower(c: char) -> char {
    if 'A' <= c <= 'Z' {
        ((c as u32) + 32) as char
    } else {
        c
    }
}

/// `c` with an ASCII small letter made a capital.
pub open spec fn ascii_upper(c: char) -> char {
    if 'a' <= c <= 'z' {
        ((c as u32) - 32) as char
    } else {
        c
    }
}

/// `char::to_ascii_lowercase` maps `A` to `Z` onto `a` to `z` and leaves every
/// other character unchanged.
pub assume_specification[ char::to_ascii_lowercase ](c: &char) -> (r: char)
    ensures
        r == ascii_lower(*c),
;

/// `char::to_ascii_uppercase` maps `a` to `z` onto `A` to `Z` and leaves every
/// other character unchanged.
pub assume_specification[ char::to_ascii_uppercase ](c: &char) -> (r: char)
    ensures
        r == ascii_upper(*c),
;

/// The Unicode lowercase form of a text.
pub uninterp spec fn lowercase(s: Seq<char>) -> Seq<char>;

/// `str::to_lowercase`. The full mapping is Unicode's and goes by the name
/// [`lowercase`]; on ASCII text it is the ASCII mapping.
#[verifier::external_body]
pub(crate) fn to_lowercase(s: &str) -> (r: String)
    ensures
        r@ == lowercase(s@),
        is_ascii_chars(s@) ==> r@ == s@.map_values(|c: char| ascii_lower(c)),
{
    s.to_lowercase()
}

/// The Unicode uppercase form of a text.
pub uninterp spec fn uppercase(s: Seq<char>) -> Seq<char>;

/// `str::to_uppercase`. The full mapping is Unicode's and goes by the name
/// [`uppercase`]; on ASCII text it is the ASCII mapping.
#[verifier::external_body]
pub(crate) fn to_uppercase(s: &str) -> (r: String)
    ensures
        r@ == uppercase(s@),
        is_ascii_chars(s@) ==> r@ == s@.map_values(|c: char| ascii_upper(c)),
{
    s.to_uppercase()
}

/// A text as `Debug` writes it: between double quotes, with escapes.
pub uninterp spec fn quoted(s: Seq<char>) -> Seq<char>;

/// `str`'s `Debug` formatting. The escapes it makes are not spelled out: the
/// result goes by the name [`quoted`].
#[verifier::external_body]
pub(crate) fn to_quoted(s: &str) -> (r: String)
    ensures
        r@ == quoted(s@),
{
    format!("{s:?}")
}

/// Bytes read as UTF-8, with U+FFFD in place of what is not.
pub uninterp spec fn lossy_text(bytes: Seq<u8>) -> Seq<char>;

/// `String::from_utf8_lossy`. On valid UTF-8 it is the decoding; how many
/// replacement characters stand for an invalid stretch is not spelled out: the
/// result goes by the name [`lossy_text`].
#[verifier::external_body]
pub(crate) fn from_utf8_lossy(bytes: &[u8]) -> (r: String)
    ensures
        r@ == lossy_text(bytes@),
        valid_utf8(bytes@) ==> r@ == decode_utf8(bytes@),
{
    String::from_utf8_lossy(bytes).into_owned()
}

/// Whether an optional string holds an optional text.
pub open spec fn holds(s: Option<String>, t: Option<Seq<char>>) -> bool {
    match s {
        Some(x) => t == Some(x@),
        None => t is None,
    }
}

// ── Between strings and vectors of characters ────────────────────────────

/// The characters of `s`, in order.
pub fn chars_of(s: &str) -> (out: Vec<char>)
    ensures
        out@ == s@,
{
    let mut out: Vec<char> = Vec::new();
    for c in it: s.chars()
        invariant
            out@ == s@.take(it.index()),
            it.seq() == s@,
    {
        assert(s@.take(it.index() + 1) =~= s@.take(it.index()).push(s@[it.index()]));
        out.push(c);
    }
    assert(s@.take(s@.len() as int) =~= s@);
    out
}

/// The string made of the characters of `chars` from `from` up to `to`.
pub fn string_of(chars: &Vec<char>, from: usize, to: usize) -> (out: String)
    requires
        from <= to <= chars@.len(),
    ensures
        out@ == chars@.subrange(from as int, to as int),
{
    let mut out: String = String::new();
    let mut i: usize = from;
    while i < to
        invariant
            from <= i <= to <= chars@.len(),
            out@ == chars@.subrange(from as int, i as int),
        decreases to - i,
    {
        out.push(chars[i]);
        i = i + 1;
    }
    out
}

/// The characters of `chars` from `from` up to `to`.
pub fn slice_of(chars: &Vec<char>, from: usize, to: usize) -> (out: Vec<char>)
    requires
        from <= to <= chars@.len(),
    ensures
        out@ == chars@.subrange(from as int, to as int),
{
    let mut out: Vec<char> = Vec::new();
    let mut i: usize = from;
    while i < to
        invariant
            from <= i <= to <= chars@.len(),
            out@ == chars@.subrange(from as int, i as int),
        decreases to - i,
    {
        out.push(chars[i]);
        i = i + 1;
    }
    out
}

/// Whether two strings hold the same characters.
pub fn same(a: &str, b: &str) -> (r: bool)
    ensures
        r == (a@ == b@),
{
    *a == *b
}

// ── Trimming ─────────────────────────────────────────────────────────────

/// `s` without its leading white space.
pub open spec fn trim_start(s: Seq<char>) -> Seq<char>
    decreases s.len(),
{
    if s.len() > 0 && is_space(s[0]) {
        trim_start(s.skip(1))
    } else {
        s
    }
}

/// `s` without its trailing white space.
pub open spec fn trim_end(s: Seq<char>) -> Seq<char>
    decreases s.len(),
{
    if s.len() > 0 && is_space(s.last()) {
        trim_end(s.drop_last())
    } else {
        s
    }
}

/// `s` without the white space at either end.
pub open spec fn trimmed(s: Seq<char>) -> Seq<char> {
    trim_end(trim_start(s))
}

/// The characters of `chars` from `from` up to `to`, without the white space at
/// either end.
pub fn trim_range(chars: &Vec<char>, from: usize, to: usize) -> (out: String)
    requires
        from <= to <= chars@.len(),
    ensures
        out@ == trimmed(chars@.subrange(from as int, to as int)),
{
    let ghost whole = chars@.subrange(from as int, to as int);
    let mut a: usize = from;
    while a < to && chars[a].is_whitespace()
        invariant
            from <= a <= to <= chars@.len(),
            trim_start(whole) == trim_start(chars@.subrange(a as int, to as int)),
        decreases to - a,
    {
        assert(chars@.subrange(a as int, to as int).skip(1) =~= chars@.subrange(
            a + 1,
            to as int,
        ));
        a = a + 1;
    }
    assert(trim_start(whole) == chars@.subrange(a as int, to as int));
    let mut b: usize = to;
    while a < b && chars[b - 1].is_whitespace()
        invariant
            from <= a <= b <= to <= chars@.len(),
            trim_end(trim_start(whole)) == trim_end(chars@.subrange(a as int, b as int)),
        decreases b,
    {
        assert(chars@.subrange(a as int, b as int).drop_last() =~= chars@.subrange(
            a as int,
            b - 1,
        ));
        b = b - 1;
    }
    assert(trimmed(whole) == chars@.subrange(a as int, b as int));
    string_of(chars, a, b)
}

/// `s` without the white space at either end.
pub fn trim(s: &str) -> (out: String)
    ensures
        out@ == trimmed(s@),
{
    let chars: Vec<char> = chars_of(s);
    let n: usize = chars.len();
    assert(chars@.subrange(0, n as int) =~= s@);
    trim_range(&chars, 0, n)
}

/// What stands between white space is left where the space is trimmed off.
pub proof fn trimming_keeps_what_is_inside(pre: Seq<char>, s: Seq<char>, post: Seq<char>)
    requires
        forall|i: int| 0 <= i < pre.len() ==> is_space(#[trigger] pre[i]),
        forall|i: int| 0 <= i < post.len() ==> is_space(#[trigger] post[i]),
        s.len() > 0,
        !is_space(s[0]),
        !is_space(s.last()),
    ensures
        trimmed(pre + s + post) == s,
    decreases pre.len() + post.len(),
{
    let whole = pre + s + post;
    if pre.len() > 0 {
        let rest = pre.skip(1);
        assert(whole[0] == pre[0]);
        assert(whole.skip(1) =~= rest + s + post);
        assert forall|i: int| 0 <= i < rest.len() implies is_space(#[trigger] rest[i]) by {
            assert(rest[i] == pre[i + 1]);
        }
        trimming_keeps_what_is_inside(rest, s, post);
    } else {
        assert(whole[0] == s[0]);
        assert(trim_start(whole) == whole);
        if post.len() > 0 {
            assert(whole.last() == post.last());
            assert(whole.drop_last() =~= pre + s + post.drop_last());
            trimming_keeps_what_is_inside(pre, s, post.drop_last());
            assert(whole.drop_last()[0] == s[0]);
        } else {
            assert(whole =~= s);
        }
    }
}

// ── Searching ────────────────────────────────────────────────────────────

/// Whether `needle` stands in `hay` at position `i`.
pub open spec fn stands_at(hay: Seq<char>, needle: Seq<char>, i: int) -> bool {
    &&& 0 <= i
    &&& i + needle.len() <= hay.len()
    &&& hay.subrange(i, i + needle.len()) == needle
}

/// The first position from `from` on at which `needle` stands in `hay`.
pub open spec fn find_from(hay: Seq<char>, needle: Seq<char>, from: int) -> Option<int>
    decreases hay.len() + 1 - from,
{
    if from < 0 || from + needle.len() > hay.len() {
        None
    } else if stands_at(hay, needle, from) {
        Some(from)
    } else {
        find_from(hay, needle, from + 1)
    }
}

/// The first position of `needle` in `hay`.
pub open spec fn find(hay: Seq<char>, needle: Seq<char>) -> Option<int> {
    find_from(hay, needle, 0)
}

/// What [`find_from`] finds is an occurrence, the first, and it finds one
/// wherever there is one.
pub proof fn find_from_is_first(hay: Seq<char>, needle: Seq<char>, from: int)
    requires
        0 <= from,
    ensures
        match find_from(hay, needle, from) {
            Some(p) => {
                &&& from <= p
                &&& stands_at(hay, needle, p)
                &&& forall|j: int| from <= j < p ==> !stands_at(hay, needle, j)
            },
            None => forall|j: int| from <= j ==> !stands_at(hay, needle, j),
        },
    decreases hay.len() + 1 - from,
{
    if from + needle.len() <= hay.len() && !stands_at(hay, needle, from) {
        find_from_is_first(hay, needle, from + 1);
    }
}

/// Searching behind the first `k` characters is searching what they leave.
pub proof fn find_from_skip(hay: Seq<char>, needle: Seq<char>, k: int, from: int)
    requires
        0 <= k <= hay.len(),
        0 <= from,
    ensures
        find_from(hay.skip(k), needle, from) == match find_from(hay, needle, k + from) {
            Some(p) => Some(p - k),
            None => None,
        },
    decreases hay.len() + 1 - k - from,
{
    let rest = hay.skip(k);
    if from + needle.len() <= rest.len() {
        assert(rest.subrange(from, from + needle.len()) =~= hay.subrange(
            k + from,
            k + from + needle.len(),
        ));
        if !stands_at(rest, needle, from) {
            find_from_skip(hay, needle, k, from + 1);
        }
    }
}

/// Whether `needle` stands in `hay` at position `i`.
pub fn is_at(hay: &Vec<char>, needle: &Vec<char>, i: usize) -> (r: bool)
    ensures
        r == stands_at(hay@, needle@, i as int),
{
    let n: usize = needle.len();
    if i > hay.len() || n > hay.len() - i {
        return false;
    }
    let mut k: usize = 0;
    while k < n
        invariant
            n == needle@.len(),
            i + n <= hay.len(),
            k <= n,
            forall|j: int| 0 <= j < k ==> hay@[i + j] == needle@[j],
        decreases n - k,
    {
        if hay[i + k] != needle[k] {
            assert(hay@.subrange(i as int, i + n)[k as int] != needle@[k as int]);
            return false;
        }
        k = k + 1;
    }
    assert(hay@.subrange(i as int, i + n) =~= needle@);
    true
}

/// The first position from `from` on at which `needle` stands in `hay`.
pub fn position_from(hay: &Vec<char>, needle: &Vec<char>, from: usize) -> (r: Option<usize>)
    ensures
        match r {
            Some(p) => find_from(hay@, needle@, from as int) == Some(p as int),
            None => find_from(hay@, needle@, from as int) is None,
        },
{
    let n: usize = needle.len();
    let mut i: usize = from;
    while i <= hay.len() && n <= hay.len() - i
        invariant
            n == needle@.len(),
            from <= i,
            find_from(hay@, needle@, from as int) == find_from(hay@, needle@, i as int),
        decreases hay@.len() + 1 - i,
    {
        if is_at(hay, needle, i) {
            return Some(i);
        }
        assert(i < hay.len()) by {
            if i == hay.len() {
                assert(hay@.subrange(i as int, i + n) =~= needle@);
            }
        }
        i = i + 1;
    }
    None
}

// ── What is promised of text ─────────────────────────────────────────────

/// Trimming takes off white space and nothing else, and all of it: what is left
/// stands in the text, with white space on either side only, and has none at its
/// own ends.
pub proof fn trimming_takes_white_space_only(s: Seq<char>) -> (r: (int, int))
    ensures
        0 <= r.0 <= r.1 <= s.len(),
        trimmed(s) == s.subrange(r.0, r.1),
        forall|i: int| 0 <= i < r.0 ==> is_space(#[trigger] s[i]),
        forall|i: int| r.1 <= i < s.len() ==> is_space(#[trigger] s[i]),
        r.0 < r.1 ==> !is_space(s[r.0]) && !is_space(s[r.1 - 1]),
{
    let a = leading(s);
    trim_start_skips(s);
    let rest = s.skip(a);
    trim_end_takes(rest);
    let b = a + kept(rest);
    assert(rest.take(kept(rest)) =~= s.subrange(a, b));
    assert forall|i: int| b <= i < s.len() implies is_space(#[trigger] s[i]) by {
        assert(rest[i - a] == s[i]);
    }
    if a < b {
        assert(rest[0] == s[a]);
        assert(rest[b - a - 1] == s[b - 1]);
    }
    (a, b)
}

/// How many characters of white space a text begins with.
spec fn leading(s: Seq<char>) -> int
    decreases s.len(),
{
    if s.len() > 0 && is_space(s[0]) {
        1 + leading(s.skip(1))
    } else {
        0
    }
}

proof fn trim_start_skips(s: Seq<char>)
    ensures
        0 <= leading(s) <= s.len(),
        trim_start(s) == s.skip(leading(s)),
        forall|i: int| 0 <= i < leading(s) ==> is_space(#[trigger] s[i]),
        leading(s) < s.len() ==> !is_space(s[leading(s)]),
    decreases s.len(),
{
    if s.len() > 0 && is_space(s[0]) {
        let rest = s.skip(1);
        trim_start_skips(rest);
        assert(rest.skip(leading(rest)) =~= s.skip(leading(s)));
        assert forall|i: int| 0 <= i < leading(s) implies is_space(#[trigger] s[i]) by {
            if i > 0 {
                assert(rest[i - 1] == s[i]);
            }
        }
    } else {
        assert(s.skip(0) =~= s);
    }
}

/// How many characters are left where the white space at the end is taken off.
spec fn kept(s: Seq<char>) -> int
    decreases s.len(),
{
    if s.len() > 0 && is_space(s.last()) {
        kept(s.drop_last())
    } else {
        s.len() as int
    }
}

proof fn trim_end_takes(s: Seq<char>)
    ensures
        0 <= kept(s) <= s.len(),
        trim_end(s) == s.take(kept(s)),
        forall|i: int| kept(s) <= i < s.len() ==> is_space(#[trigger] s[i]),
        kept(s) > 0 ==> !is_space(s[kept(s) - 1]),
    decreases s.len(),
{
    if s.len() > 0 && is_space(s.last()) {
        let rest = s.drop_last();
        trim_end_takes(rest);
        assert(rest.take(kept(rest)) =~= s.take(kept(s)));
        assert forall|i: int| kept(s) <= i < s.len() implies is_space(#[trigger] s[i]) by {
            if i < rest.len() {
                assert(rest[i] == s[i]);
            }
        }
    } else {
        assert(s.take(s.len() as int) =~= s);
    }
}

/// A text stands in another where it is met there letter by letter.
pub proof fn standing_is_letter_by_letter(hay: Seq<char>, needle: Seq<char>, i: int)
    ensures
        stands_at(hay, needle, i) <==> 0 <= i && i + needle.len() <= hay.len() && forall|k: int|
            0 <= k < needle.len() ==> hay[i + k] == #[trigger] needle[k],
{
    if 0 <= i && i + needle.len() <= hay.len() {
        let found = hay.subrange(i, i + needle.len());
        if stands_at(hay, needle, i) {
            assert forall|k: int| 0 <= k < needle.len() implies hay[i + k] == #[trigger] needle[k] by {
                assert(found[k] == needle[k]);
            }
        }
        if forall|k: int| 0 <= k < needle.len() ==> hay[i + k] == #[trigger] needle[k] {
            assert(found =~= needle);
        }
    }
}

/// Trimming goes by where the white space is, and not by what else is there: two
/// texts with white space in the same places keep the same places.
pub proof fn texts_alike_are_trimmed_alike(a: Seq<char>, b: Seq<char>) -> (r: (int, int))
    requires
        a.len() == b.len(),
        forall|i: int| 0 <= i < a.len() ==> is_space(#[trigger] a[i]) == is_space(b[i]),
    ensures
        0 <= r.0 <= r.1 <= a.len(),
        trimmed(a) == a.subrange(r.0, r.1),
        trimmed(b) == b.subrange(r.0, r.1),
{
    leads_alike(a, b);
    trim_start_skips(a);
    trim_start_skips(b);
    let n = leading(a);
    let x = a.skip(n);
    let y = b.skip(n);
    assert forall|i: int| 0 <= i < x.len() implies is_space(#[trigger] x[i]) == is_space(y[i]) by {
        assert(x[i] == a[i + n] && y[i] == b[i + n]);
    }
    keeps_alike(x, y);
    trim_end_takes(x);
    trim_end_takes(y);
    assert(x.take(kept(x)) =~= a.subrange(n, n + kept(x)));
    assert(y.take(kept(x)) =~= b.subrange(n, n + kept(x)));
    (n, n + kept(x))
}

proof fn leads_alike(a: Seq<char>, b: Seq<char>)
    requires
        a.len() == b.len(),
        forall|i: int| 0 <= i < a.len() ==> is_space(#[trigger] a[i]) == is_space(b[i]),
    ensures
        leading(a) == leading(b),
    decreases a.len(),
{
    if a.len() > 0 {
        let x = a.skip(1);
        let y = b.skip(1);
        assert(is_space(a[0]) == is_space(b[0]));
        assert forall|i: int| 0 <= i < x.len() implies is_space(#[trigger] x[i]) == is_space(y[i]) by {
            assert(x[i] == a[i + 1] && y[i] == b[i + 1]);
        }
        leads_alike(x, y);
    }
}

proof fn keeps_alike(a: Seq<char>, b: Seq<char>)
    requires
        a.len() == b.len(),
        forall|i: int| 0 <= i < a.len() ==> is_space(#[trigger] a[i]) == is_space(b[i]),
    ensures
        kept(a) == kept(b),
    decreases a.len(),
{
    if a.len() > 0 {
        let x = a.drop_last();
        let y = b.drop_last();
        assert(is_space(a[a.len() - 1]) == is_space(b[a.len() - 1]));
        assert forall|i: int| 0 <= i < x.len() implies is_space(#[trigger] x[i]) == is_space(y[i]) by {
            assert(x[i] == a[i] && y[i] == b[i]);
        }
        keeps_alike(x, y);
    }
}

} // verus!
