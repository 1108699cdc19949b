use vstd::prelude::*;
use vstd::string::*;

verus! {

/// Rust's `char::is_whitespace`: the Unicode `White_Space` property.
pub open spec fn is_white_space(c: char) -> bool {
    let v = c as u32;
    ||| 0x9 <= v <= 0xD
    ||| v == 0x20
    ||| v == 0x85
    ||| v == 0xA0
    ||| v == 0x1680
    ||| 0x2000 <= v <= 0x200A
    ||| v == 0x2028
    ||| v == 0x2029
    ||| v == 0x202F
    ||| v == 0x205F
    ||| v == 0x3000
}

/// `s` with its leading white space removed.
pub open spec fn trim_front(s: Seq<char>) -> Seq<char>
    decreases s.len(),
{
    if s.len() > 0 && is_white_space(s[0]) {
        trim_front(s.drop_first())
    } else {
        s
    }
}

/// `s` with its trailing white space removed.
pub open spec fn trim_back(s: Seq<char>) -> Seq<char>
    decreases s.len(),
{
    if s.len() > 0 && is_white_space(s.last()) {
        trim_back(s.drop_last())
    } else {
        s
    }
}

/// What `str::trim` leaves of `s`.
pub open spec fn trimmed(s: Seq<char>) -> Seq<char> {
    trim_back(trim_front(s))
}

/// Whether every character of `s` is white space.
pub open spec fn all_white_space(s: Seq<char>) -> bool {
    forall|i: int| 0 <= i < s.len() ==> is_white_space(#[trigger] s[i])
}

/// Whether `needle` occurs in `haystack` as a contiguous run.
pub open spec fn contains_chars(haystack: Seq<char>, needle: Seq<char>) -> bool {
    exists|start: int|
        0 <= start && start + needle.len() <= haystack.len() && #[trigger] haystack.subrange(
            start,
            start + needle.len(),
        ) == needle
}

/// Whether `s` begins with `prefix`.
pub open spec fn starts_with(s: Seq<char>, prefix: Seq<char>) -> bool {
    prefix.len() <= s.len() && s.subrange(0, prefix.len() as int) == prefix
}

/// Code-point lexicographic order, which is `str`'s own `Ord`: `a` sorts
/// strictly before `b`.
pub open spec fn chars_less(a: Seq<char>, b: Seq<char>) -> bool
    decreases a.len(),
{
    if a.len() == 0 {
        b.len() > 0
    } else if b.len() == 0 {
        false
    } else if (a[0] as int) < (b[0] as int) {
        true
    } else if a[0] == b[0] {
        chars_less(a.drop_first(), b.drop_first())
    } else {
        false
    }
}

/// The parts separated by `separator`, as `[String]::join` builds them.
pub open spec fn joined(parts: Seq<Seq<char>>, separator: Seq<char>) -> Seq<char>
    decreases parts.len(),
{
    if parts.len() == 0 {
        Seq::empty()
    } else if parts.len() == 1 {
        parts[0]
    } else {
        joined(parts.drop_last(), separator) + separator + parts.last()
    }
}

/// What `str::to_lowercase` returns for these characters.
pub uninterp spec fn lowercase_chars(s: Seq<char>) -> Seq<char>;

/// `str::to_lowercase`: the Unicode lower-case mapping of `text`, which maps
/// each character to one or more characters. The contract names the result
/// and says only that it is empty exactly when `text` is.
#[verifier::external_body]
pub(crate) fn to_lowercase(text: &str) -> (lower: String)
    ensures
        lower@ == lowercase_chars(text@),
        lower@.len() == 0 <==> text@.len() == 0,
{
    text.to_lowercase()
}

/// The characters of `s`, in order.
pub fn chars_of(s: &str) -> (out: Vec<char>)
    ensures
        out@ == s@,
{
    let n = s.unicode_len();
    let mut out: Vec<char> = Vec::new();
    let mut i: usize = 0;
    while i < n
        invariant
            n == s@.len(),
            i <= n,
            out@ == s@.subrange(0, i as int),
        decreases n - i,
    {
        let c = s.get_char(i);
        out.push(c);
        i = i + 1;
    }
    out
}

/// Whether `c` is white space, as `char::is_whitespace` answers.
pub fn char_is_white_space(c: char) -> (white: bool)
    ensures
        white == is_white_space(c),
{
    let v = c as u32;
    (0x9 <= v && v <= 0xD) || v == 0x20 || v == 0x85 || v == 0xA0 || v == 0x1680 || (0x2000 <= v
        && v <= 0x200A) || v == 0x2028 || v == 0x2029 || v == 0x202F || v == 0x205F || v == 0x3000
}

proof fn lemma_trim_front_skips(s: Seq<char>, i: int)
    requires
        0 <= i <= s.len(),
        forall|k: int| 0 <= k < i ==> is_white_space(#[trigger] s[k]),
    ensures
        trim_front(s) == trim_front(s.subrange(i, s.len() as int)),
    decreases i,
{
    if i > 0 {
        assert(s.drop_first() =~= s.subrange(1, s.len() as int));
        lemma_trim_front_skips(s.drop_first(), i - 1);
        assert(s.drop_first().subrange(i - 1, s.drop_first().len() as int) =~= s.subrange(
            i,
            s.len() as int,
        ));
    } else {
        assert(s.subrange(0, s.len() as int) =~= s);
    }
}

proof fn lemma_trim_back_skips(s: Seq<char>, j: int)
    requires
        0 <= j <= s.len(),
        forall|k: int| j <= k < s.len() ==> is_white_space(#[trigger] s[k]),
    ensures
        trim_back(s) == trim_back(s.subrange(0, j)),
    decreases s.len() - j,
{
    if j < s.len() {
        assert(s.drop_last() =~= s.subrange(0, s.len() - 1));
        lemma_trim_back_skips(s.drop_last(), j);
        assert(s.drop_last().subrange(0, j) =~= s.subrange(0, j));
    } else {
        assert(s.subrange(0, j) =~= s);
    }
}

/// `str::trim`: `text` without leading and trailing white space.
pub fn trim(text: &str) -> (out: &str)
    ensures
        out@ == trimmed(text@),
{
    let n = text.unicode_len();
    let mut start: usize = 0;
    while start < n && char_is_white_space(text.get_char(start))
        invariant
            n == text@.len(),
            start <= n,
            forall|k: int| 0 <= k < start ==> is_white_space(#[trigger] text@[k]),
        decreases n - start,
    {
        start = start + 1;
    }
    let mut end: usize = n;
    while end > start && char_is_white_space(text.get_char(end - 1))
        invariant
            n == text@.len(),
            start <= end <= n,
            forall|k: int| end <= k < n ==> is_white_space(#[trigger] text@[k]),
        decreases end - start,
    {
        end = end - 1;
    }
    proof {
        let s = text@;
        lemma_trim_front_skips(s, start as int);
        let rest = s.subrange(start as int, n as int);
        if start < n {
            assert(rest[0] == s[start as int]);
            assert(!is_white_space(rest[0]));
            assert(trim_front(rest) == rest);
        } else {
            assert(rest.len() == 0);
        }
        assert forall|k: int| end - start <= k < rest.len() implies is_white_space(
            #[trigger] rest[k],
        ) by {
            assert(rest[k] == s[start + k]);
        }
        lemma_trim_back_skips(rest, end - start);
        let kept = rest.subrange(0, end - start);
        assert(kept =~= s.subrange(start as int, end as int));
        if end > start {
            assert(kept.last() == s[end - 1]);
        } else {
            assert(kept.len() == 0);
        }
    }
    text.substring_char(start, end)
}

/// Whether every character of `text` is white space.
pub fn is_blank(text: &str) -> (blank: bool)
    ensures
        blank == all_white_space(text@),
{
    let n = text.unicode_len();
    let mut i: usize = 0;
    while i < n
        invariant
            n == text@.len(),
            i <= n,
            forall|k: int| 0 <= k < i ==> is_white_space(#[trigger] text@[k]),
        decreases n - i,
    {
        if !char_is_white_space(text.get_char(i)) {
            return false;
        }
        i = i + 1;
    }
    true
}

/// Whether `needle` occurs in `haystack` as a contiguous run; the empty
/// needle occurs everywhere.
pub fn contains_run(haystack: &Vec<char>, needle: &Vec<char>) -> (found: bool)
    ensures
        found == contains_chars(haystack@, needle@),
{
    let h = haystack.len();
    let n = needle.len();
    if n > h {
        proof {
            assert forall|start: int|
                0 <= start && start + needle@.len() <= haystack@.len() implies !(
                #[trigger] haystack@.subrange(start, start + needle@.len()) == needle@) by {}
        }
        return false;
    }
    let mut start: usize = 0;
    while start <= h - n
        invariant
            h == haystack@.len(),
            n == needle@.len(),
            n <= h,
            start <= h - n + 1,
            forall|s: int|
                0 <= s < start ==> #[trigger] haystack@.subrange(s, s + n as int) != needle@,
        decreases h - start,
    {
        let mut k: usize = 0;
        let mut same = true;
        while k < n
            invariant
                h == haystack@.len(),
                n == needle@.len(),
                start + n <= h,
                k <= n,
                same == (forall|m: int| 0 <= m < k ==> haystack@[start + m] == needle@[m]),
            decreases n - k,
        {
            if haystack[start + k] != needle[k] {
                same = false;
            }
            k = k + 1;
        }
        if same {
            assert(haystack@.subrange(start as int, start + n) =~= needle@);
            return true;
        }
        assert(haystack@.subrange(start as int, start + n) != needle@) by {
            let m = choose|m: int| 0 <= m < n && haystack@[start + m] != needle@[m];
            assert(haystack@.subrange(start as int, start + n)[m] == haystack@[start + m]);
        }
        start = start + 1;
    }
    assert forall|s: int|
        0 <= s && s + needle@.len() <= haystack@.len() implies !(#[trigger] haystack@.subrange(
        s,
        s + needle@.len(),
    ) == needle@) by {
        assert(s < start);
    }
    false
}

/// Code-point lexicographic comparison: whether `a` sorts strictly before `b`.
pub fn less_than(a: &Vec<char>, b: &Vec<char>) -> (less: bool)
    ensures
        less == chars_less(a@, b@),
{
    let mut i: usize = 0;
    assert(a@.subrange(0, a@.len() as int) =~= a@);
    assert(b@.subrange(0, b@.len() as int) =~= b@);
    while i < a.len() && i < b.len() && a[i] == b[i]
        invariant
            i <= a.len(),
            i <= b.len(),
            forall|k: int| 0 <= k < i ==> a@[k] == b@[k],
            chars_less(a@, b@) == chars_less(a@.subrange(i as int, a@.len() as int), b@.subrange(i as int, b@.len() as int)),
        decreases a.len() - i,
    {
        proof {
            let sa = a@.subrange(i as int, a@.len() as int);
            let sb = b@.subrange(i as int, b@.len() as int);
            assert(sa.drop_first() =~= a@.subrange(i + 1, a@.len() as int));
            assert(sb.drop_first() =~= b@.subrange(i + 1, b@.len() as int));
        }
        i = i + 1;
    }
    if i == a.len() {
        i < b.len()
    } else if i == b.len() {
        false
    } else {
        a[i] < b[i]
    }
}

/// `[String]::join`: the parts with `separator` between each pair.
pub fn join(parts: &Vec<String>, separator: &str) -> (out: String)
    ensures
        out@ == joined(parts.deep_view(), separator@),
{
    let mut out = String::new();
    let mut i: usize = 0;
    while i < parts.len()
        invariant
            i <= parts.len(),
            out@ == joined(parts.deep_view().subrange(0, i as int), separator@),
        decreases parts.len() - i,
    {
        proof {
            let next = parts.deep_view().subrange(0, i + 1);
            assert(next.drop_last() =~= parts.deep_view().subrange(0, i as int));
        }
        if i > 0 {
            out.append(separator);
        }
        out.append(parts[i].as_str());
        i = i + 1;
        proof {
            let now = parts.deep_view().subrange(0, i as int);
            if i == 1 {
                assert(now.len() == 1);
                assert(now[0] == parts[0]@);
            }
        }
    }
    assert(parts.deep_view().subrange(0, parts.len() as int) =~= parts.deep_view());
    out
}

/// No text sorts before itself.
pub proof fn lemma_chars_less_irreflexive(a: Seq<char>)
    ensures
        !chars_less(a, a),
    decreases a.len(),
{
    if a.len() > 0 {
        lemma_chars_less_irreflexive(a.drop_first());
    }
}

/// The order is transitive.
pub proof fn lemma_chars_less_transitive(a: Seq<char>, b: Seq<char>, c: Seq<char>)
    requires
        chars_less(a, b),
        chars_less(b, c),
    ensures
        chars_less(a, c),
    decreases a.len(),
{
    if a.len() > 0 && b.len() > 0 && c.len() > 0 {
        if a[0] == b[0] && b[0] == c[0] {
            lemma_chars_less_transitive(a.drop_first(), b.drop_first(), c.drop_first());
        }
    }
}

/// Any two different texts are ordered one way or the other.
pub proof fn lemma_chars_less_total(a: Seq<char>, b: Seq<char>)
    requires
        a != b,
    ensures
        chars_less(a, b) || chars_less(b, a),
    decreases a.len(),
{
    if a.len() > 0 && b.len() > 0 {
        if a[0] == b[0] {
            if a.drop_first() == b.drop_first() {
                assert(a =~= seq![a[0]] + a.drop_first());
                assert(b =~= seq![b[0]] + b.drop_first());
            }
            lemma_chars_less_total(a.drop_first(), b.drop_first());
        }
    } else if a.len() == 0 && b.len() == 0 {
        assert(a =~= b);
    }
}

} // verus!
