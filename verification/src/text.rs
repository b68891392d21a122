use vstd::prelude::*;

verus! {

/// Whether a character has the Unicode `White_Space` property, the set that
/// `char::is_whitespace` and `str::trim` use.
pub open spec fn spec_is_whitespace(c: char) -> bool {
    let v = c as u32;
    ||| 0x09 <= v <= 0x0d
    ||| v == 0x20
    ||| v == 0x85
    ||| v == 0xa0
    ||| v == 0x1680
    ||| 0x2000 <= v <= 0x200a
    ||| v == 0x2028
    ||| v == 0x2029
    ||| v == 0x202f
    ||| v == 0x205f
    ||| v == 0x3000
}

/// Executable form of `spec_is_whitespace`.
pub fn is_whitespace(c: char) -> (res: bool)
    ensures
        res == spec_is_whitespace(c),
{
    let v = c as u32;
    (0x09 <= v && v <= 0x0d) || v == 0x20 || v == 0x85 || v == 0xa0 || v == 0x1680 || (0x2000
        <= v && v <= 0x200a) || v == 0x2028 || v == 0x2029 || v == 0x202f || v == 0x205f || v
        == 0x3000
}

/// Whether two texts hold the same characters.
pub fn text_is(a: &String, b: &str) -> (res: bool)
    ensures
        res == (a@ == b@),
{
    let other = String::from_str(b);
    *a == other
}

/// The text with the given suffix appended.
pub fn joined(a: &str, b: &str) -> (res: String)
    ensures
        res@ == a@ + b@,
{
    let mut out = String::from_str(a);
    out.append(b);
    out
}

/// The view of an optional text.
pub open spec fn opt_view(o: Option<String>) -> Option<Seq<char>> {
    match o {
        Some(s) => Some(s@),
        None => None,
    }
}

/// Whether `trim` removes a character: white space, or dots when `dots` is set.
pub open spec fn strippable(c: char, dots: bool) -> bool {
    if dots {
        c == '.'
    } else {
        spec_is_whitespace(c)
    }
}

/// The characters of a text with leading strippable characters removed.
pub open spec fn strip_leading(s: Seq<char>, dots: bool) -> Seq<char>
    decreases s.len(),
{
    if s.len() > 0 && strippable(s[0], dots) {
        strip_leading(s.drop_first(), dots)
    } else {
        s
    }
}

/// The characters of a text with trailing strippable characters removed.
pub open spec fn strip_trailing(s: Seq<char>, dots: bool) -> Seq<char>
    decreases s.len(),
{
    if s.len() > 0 && strippable(s.last(), dots) {
        strip_trailing(s.drop_last(), dots)
    } else {
        s
    }
}

/// What `str::trim` (white space) or `trim_matches('.')` (dots) leaves of a text.
pub open spec fn spec_trim(s: Seq<char>, dots: bool) -> Seq<char> {
    strip_trailing(strip_leading(s, dots), dots)
}

proof fn lemma_strip_leading(s: Seq<char>, dots: bool, k: int)
    requires
        0 <= k <= s.len(),
        forall|j: int| 0 <= j < k ==> strippable(#[trigger] s[j], dots),
        k == s.len() || !strippable(s[k], dots),
    ensures
        strip_leading(s, dots) == s.subrange(k, s.len() as int),
    decreases k,
{
    if k == 0 {
        assert(s.subrange(0, s.len() as int) =~= s);
    } else {
        assert(strippable(s[0], dots));
        let t = s.drop_first();
        assert forall|j: int| 0 <= j < k - 1 implies strippable(#[trigger] t[j], dots) by {
            assert(t[j] == s[j + 1]);
        }
        lemma_strip_leading(t, dots, k - 1);
        assert(t.subrange(k - 1, t.len() as int) =~= s.subrange(k, s.len() as int));
    }
}

proof fn lemma_strip_trailing(s: Seq<char>, dots: bool, e: int)
    requires
        0 <= e <= s.len(),
        forall|j: int| e <= j < s.len() ==> strippable(#[trigger] s[j], dots),
        e == 0 || !strippable(s[e - 1], dots),
    ensures
        strip_trailing(s, dots) == s.subrange(0, e),
    decreases s.len() - e,
{
    if e == s.len() {
        assert(s.subrange(0, e) =~= s);
        if s.len() > 0 {
            assert(s.last() == s[e - 1]);
        }
    } else {
        assert(strippable(s[s.len() - 1], dots));
        let t = s.drop_last();
        assert forall|j: int| e <= j < t.len() implies strippable(#[trigger] t[j], dots) by {
            assert(t[j] == s[j]);
        }
        if e > 0 {
            assert(t[e - 1] == s[e - 1]);
        }
        lemma_strip_trailing(t, dots, e);
        assert(t.subrange(0, e) =~= s.subrange(0, e));
    }
}

fn is_strippable(c: char, dots: bool) -> (res: bool)
    ensures
        res == strippable(c, dots),
{
    if dots {
        c == '.'
    } else {
        is_whitespace(c)
    }
}

/// Removes leading and trailing white space (`dots` unset, as `str::trim`
/// does) or leading and trailing dots (`dots` set, as `trim_matches('.')` does).
pub fn trim(s: &str, dots: bool) -> (res: String)
    ensures
        res@ == spec_trim(s@, dots),
{
    let n = s.unicode_len();
    let mut start: usize = 0;
    while start < n && is_strippable(s.get_char(start), dots)
        invariant
            n == s@.len(),
            start <= n,
            forall|j: int| 0 <= j < start ==> strippable(#[trigger] s@[j], dots),
        decreases n - start,
    {
        start = start + 1;
    }
    proof {
        lemma_strip_leading(s@, dots, start as int);
    }
    let mut end: usize = n;
    while end > start && is_strippable(s.get_char(end - 1), dots)
        invariant
            n == s@.len(),
            start <= end <= n,
            forall|j: int| end <= j < n ==> strippable(#[trigger] s@[j], dots),
        decreases end - start,
    {
        end = end - 1;
    }
    let ghost t = s@.subrange(start as int, n as int);
    proof {
        let e = (end - start) as int;
        assert forall|j: int| e <= j < t.len() implies strippable(#[trigger] t[j], dots) by {
            assert(t[j] == s@[start + j]);
        }
        if e > 0 {
            assert(t[e - 1] == s@[end - 1]);
        }
        lemma_strip_trailing(t, dots, e);
        assert(t.subrange(0, e) =~= s@.subrange(start as int, end as int));
    }
    String::from_str(s.substring_char(start, end))
}

/// Whether a text holds only white space (or nothing).
pub open spec fn is_blank(s: Seq<char>) -> bool {
    forall|i: int| 0 <= i < s.len() ==> spec_is_whitespace(#[trigger] s[i])
}

/// Trimming keeps a contiguous part of a text, which, where it is not
/// empty, neither begins nor ends with a character that the trim removes.
pub proof fn lemma_trim_shape(s: Seq<char>, dots: bool) -> (bounds: (int, int))
    ensures
        0 <= bounds.0 <= bounds.1 <= s.len(),
        spec_trim(s, dots) == s.subrange(bounds.0, bounds.1),
        spec_trim(s, dots).len() > 0 ==> !strippable(spec_trim(s, dots)[0], dots) && !strippable(
            spec_trim(s, dots).last(),
            dots,
        ),
{
    let k = lemma_leading_shape(s, dots);
    let t = strip_leading(s, dots);
    let e = lemma_trailing_shape(t, dots);
    assert(t.subrange(0, e) =~= s.subrange(k, k + e));
    if e > 0 {
        assert(spec_trim(s, dots)[0] == t[0]);
    }
    (k, k + e)
}

proof fn lemma_leading_shape(s: Seq<char>, dots: bool) -> (k: int)
    ensures
        0 <= k <= s.len(),
        strip_leading(s, dots) == s.subrange(k, s.len() as int),
        k < s.len() ==> !strippable(s[k], dots),
    decreases s.len(),
{
    if s.len() > 0 && strippable(s[0], dots) {
        let t = s.drop_first();
        let j = lemma_leading_shape(t, dots);
        assert(t.subrange(j, t.len() as int) =~= s.subrange(j + 1, s.len() as int));
        if j < t.len() {
            assert(t[j] == s[j + 1]);
        }
        j + 1
    } else {
        assert(s.subrange(0, s.len() as int) =~= s);
        0
    }
}

proof fn lemma_trailing_shape(s: Seq<char>, dots: bool) -> (e: int)
    ensures
        0 <= e <= s.len(),
        strip_trailing(s, dots) == s.subrange(0, e),
        e > 0 ==> !strippable(s[e - 1], dots),
    decreases s.len(),
{
    if s.len() > 0 && strippable(s.last(), dots) {
        let t = s.drop_last();
        let j = lemma_trailing_shape(t, dots);
        assert(t.subrange(0, j) =~= s.subrange(0, j));
        if j > 0 {
            assert(t[j - 1] == s[j - 1]);
        }
        j
    } else {
        assert(s.subrange(0, s.len() as int) =~= s);
        s.len() as int
    }
}

} // verus!
