use vstd::prelude::*;

verus! {

/// The Unicode `White_Space` property, which is what `char::is_whitespace`
/// and `str::trim` go by.
pub open spec fn white_space(c: char) -> bool {
    ||| ('\u{9}' <= c && c <= '\u{d}')
    ||| c == ' '
    ||| c == '\u{85}'
    ||| c == '\u{a0}'
    ||| c == '\u{1680}'
    ||| ('\u{2000}' <= c && c <= '\u{200a}')
    ||| c == '\u{2028}'
    ||| c == '\u{2029}'
    ||| c == '\u{202f}'
    ||| c == '\u{205f}'
    ||| c == '\u{3000}'
}

/// Whether `c` is white space, as `char::is_whitespace` tells.
pub fn is_white_space(c: char) -> (r: bool)
    ensures
        r == white_space(c),
{
    ('\u{9}' <= c && c <= '\u{d}') || c == ' ' || c == '\u{85}' || c == '\u{a0}' || c == '\u{1680}'
        || ('\u{2000}' <= c && c <= '\u{200a}') || c == '\u{2028}' || c == '\u{2029}' || c
        == '\u{202f}' || c == '\u{205f}' || c == '\u{3000}'
}

/// Whether `v@[lo..hi]` equals `word`.
pub fn range_equals(v: &Vec<char>, lo: usize, hi: usize, word: &Vec<char>) -> (r: bool)
    requires
        lo <= hi <= v.len(),
    ensures
        r == (v@.subrange(lo as int, hi as int) == word@),
{
    if hi - lo != word.len() {
        return false;
    }
    let mut k: usize = 0;
    while k < word.len()
        invariant
            lo <= hi <= v.len(),
            hi - lo == word@.len(),
            k <= word@.len(),
            forall|j: int| 0 <= j < k ==> v@[lo + j] == word@[j],
        decreases word@.len() - k,
    {
        if v[lo + k] != word[k] {
            assert(v@.subrange(lo as int, hi as int)[k as int] != word@[k as int]);
            return false;
        }
        k = k + 1;
    }
    assert(v@.subrange(lo as int, hi as int) =~= word@);
    true
}

/// The characters of a string slice, in order.
pub fn chars_of(s: &str) -> (v: Vec<char>)
    ensures
        v@ == s@,
{
    let mut v: Vec<char> = Vec::new();
    for c in it: s.chars()
        invariant
            v@ == it.seq().take(it.index() as int),
    {
        v.push(c);
    }
    v
}

/// What `str::trim_start` leaves: leading white space removed.
pub open spec fn trim_start(s: Seq<char>) -> Seq<char>
    decreases s.len(),
{
    if s.len() > 0 && white_space(s[0]) {
        trim_start(s.drop_first())
    } else {
        s
    }
}

/// What `str::trim_end` leaves: trailing white space removed.
pub open spec fn trim_end(s: Seq<char>) -> Seq<char>
    decreases s.len(),
{
    if s.len() > 0 && white_space(s.last()) {
        trim_end(s.drop_last())
    } else {
        s
    }
}

/// What `str::trim` leaves: leading and trailing white space removed.
pub open spec fn trim(s: Seq<char>) -> Seq<char> {
    trim_end(trim_start(s))
}

pub proof fn lemma_trim_start_skip(s: Seq<char>, k: int)
    requires
        0 <= k <= s.len(),
        forall|j: int| 0 <= j < k ==> white_space(#[trigger] s[j]),
        k < s.len() ==> !white_space(s[k]),
    ensures
        trim_start(s) == s.skip(k),
    decreases k,
{
    if k == 0 {
        assert(s.skip(0) =~= s);
    } else {
        let t = s.drop_first();
        assert forall|j: int| 0 <= j < k - 1 implies white_space(#[trigger] t[j]) by {
            assert(t[j] == s[j + 1]);
        }
        if k - 1 < t.len() {
            assert(t[k - 1] == s[k]);
        }
        lemma_trim_start_skip(t, k - 1);
        assert(t.skip(k - 1) =~= s.skip(k));
    }
}

pub proof fn lemma_trim_end_take(s: Seq<char>, k: int)
    requires
        0 <= k <= s.len(),
        forall|j: int| k <= j < s.len() ==> white_space(#[trigger] s[j]),
        k > 0 ==> !white_space(s[k - 1]),
    ensures
        trim_end(s) == s.take(k),
    decreases s.len() - k,
{
    if k == s.len() {
        assert(s.take(k) =~= s);
    } else {
        let t = s.drop_last();
        assert forall|j: int| k <= j < t.len() implies white_space(#[trigger] t[j]) by {
            assert(t[j] == s[j]);
        }
        if k > 0 {
            assert(t[k - 1] == s[k - 1]);
        }
        lemma_trim_end_take(t, k);
        assert(t.take(k) =~= s.take(k));
    }
}

pub proof fn lemma_trim_start_suffix(s: Seq<char>)
    ensures
        trim_start(s).len() <= s.len(),
        trim_start(s) == s.skip(s.len() - trim_start(s).len()),
    decreases s.len(),
{
    if s.len() > 0 && white_space(s[0]) {
        lemma_trim_start_suffix(s.drop_first());
        assert(s.drop_first().skip(s.len() - 1 - trim_start(s).len()) =~= s.skip(
            s.len() - trim_start(s).len(),
        ));
    } else {
        assert(s.skip(0) =~= s);
    }
}

pub proof fn lemma_trim_end_prefix(s: Seq<char>)
    ensures
        trim_end(s).len() <= s.len(),
        trim_end(s) == s.take(trim_end(s).len() as int),
    decreases s.len(),
{
    if s.len() > 0 && white_space(s.last()) {
        lemma_trim_end_prefix(s.drop_last());
        assert(s.drop_last().take(trim_end(s).len() as int) =~= s.take(trim_end(s).len() as int));
    } else {
        assert(s.take(s.len() as int) =~= s);
    }
}

pub proof fn lemma_trim_end_keeps(s: Seq<char>, i: int)
    requires
        0 <= i < s.len(),
        !white_space(s[i]),
    ensures
        i < trim_end(s).len() <= s.len(),
        trim_end(s) == s.take(trim_end(s).len() as int),
    decreases s.len(),
{
    lemma_trim_end_prefix(s);
    if white_space(s.last()) {
        lemma_trim_end_keeps(s.drop_last(), i);
    }
}

/// Every character of `s` is white space.
pub open spec fn all_white_space(s: Seq<char>) -> bool {
    forall|i: int| 0 <= i < s.len() ==> white_space(#[trigger] s[i])
}

pub proof fn lemma_trim_start_drops_white_prefix(p: Seq<char>, s: Seq<char>)
    requires
        all_white_space(p),
    ensures
        trim_start(p + s) == trim_start(s),
    decreases p.len(),
{
    if p.len() > 0 {
        assert((p + s)[0] == p[0]);
        assert((p + s).drop_first() =~= p.drop_first() + s);
        assert(all_white_space(p.drop_first())) by {
            assert forall|i: int| 0 <= i < p.drop_first().len() implies white_space(
                #[trigger] p.drop_first()[i],
            ) by {
                assert(p.drop_first()[i] == p[i + 1]);
            }
        }
        lemma_trim_start_drops_white_prefix(p.drop_first(), s);
    } else {
        assert(p + s =~= s);
    }
}

pub proof fn lemma_trim_end_drops_white_suffix(s: Seq<char>, q: Seq<char>)
    requires
        all_white_space(q),
    ensures
        trim_end(s + q) == trim_end(s),
    decreases q.len(),
{
    if q.len() > 0 {
        assert((s + q).last() == q.last());
        assert((s + q).drop_last() =~= s + q.drop_last());
        assert(all_white_space(q.drop_last())) by {
            assert forall|i: int| 0 <= i < q.drop_last().len() implies white_space(
                #[trigger] q.drop_last()[i],
            ) by {
                assert(q.drop_last()[i] == q[i]);
            }
        }
        lemma_trim_end_drops_white_suffix(s, q.drop_last());
    } else {
        assert(s + q =~= s);
    }
}

pub proof fn lemma_trim_start_append(s: Seq<char>, q: Seq<char>)
    ensures
        !all_white_space(s) ==> trim_start(s + q) == trim_start(s) + q,
        all_white_space(s) ==> trim_start(s) == Seq::<char>::empty() && trim_start(s + q)
            == trim_start(q),
    decreases s.len(),
{
    if s.len() == 0 {
        assert(s + q =~= q);
    } else {
        assert((s + q)[0] == s[0]);
        let t = s.drop_first();
        assert((s + q).drop_first() =~= t + q);
        lemma_trim_start_append(t, q);
        if white_space(s[0]) {
            if all_white_space(t) {
                assert(all_white_space(s)) by {
                    assert forall|i: int| 0 <= i < s.len() implies white_space(#[trigger] s[i]) by {
                        if i > 0 {
                            assert(s[i] == t[i - 1]);
                        }
                    }
                }
            } else {
                assert(!all_white_space(s)) by {
                    let i = choose|i: int| 0 <= i < t.len() && !white_space(#[trigger] t[i]);
                    assert(s[i + 1] == t[i]);
                }
            }
            if all_white_space(s) {
                assert forall|i: int| 0 <= i < t.len() implies white_space(#[trigger] t[i]) by {
                    assert(t[i] == s[i + 1]);
                }
            }
        } else {
            assert(!all_white_space(s));
        }
    }
}

pub proof fn lemma_trim_surrounded(pre: Seq<char>, s: Seq<char>, post: Seq<char>)
    requires
        all_white_space(pre),
        all_white_space(post),
    ensures
        trim(pre + s + post) == trim(s),
{
    assert(pre + s + post =~= pre + (s + post));
    lemma_trim_start_drops_white_prefix(pre, s + post);
    lemma_trim_start_append(s, post);
    if all_white_space(s) {
        lemma_trim_start_append(post, Seq::<char>::empty());
        assert(post + Seq::<char>::empty() =~= post);
    } else {
        lemma_trim_end_drops_white_suffix(trim_start(s), post);
    }
}

/// Whether `s` begins with `prefix`.
pub open spec fn starts_with(s: Seq<char>, prefix: Seq<char>) -> bool {
    s.len() >= prefix.len() && s.take(prefix.len() as int) == prefix
}

/// The bounds of `trim(v@[lo..hi])` inside `v`.
pub fn trim_range(v: &Vec<char>, lo: usize, hi: usize) -> (r: (usize, usize))
    requires
        lo <= hi <= v.len(),
    ensures
        lo <= r.0 <= r.1 <= hi,
        v@.subrange(r.0 as int, r.1 as int) == trim(v@.subrange(lo as int, hi as int)),
{
    let ghost s = v@.subrange(lo as int, hi as int);
    let mut a = lo;
    while a < hi && is_white_space(v[a])
        invariant
            lo <= a <= hi <= v.len(),
            s == v@.subrange(lo as int, hi as int),
            forall|j: int| lo <= j < a ==> white_space(#[trigger] v@[j]),
        decreases hi - a,
    {
        a = a + 1;
    }
    proof {
        assert forall|j: int| 0 <= j < a - lo implies white_space(#[trigger] s[j]) by {
            assert(s[j] == v@[lo + j]);
        }
        if a < hi {
            assert(s[a - lo] == v@[a as int]);
        }
        lemma_trim_start_skip(s, a - lo);
    }
    let ghost u = s.skip(a - lo);
    assert(u =~= v@.subrange(a as int, hi as int));
    let mut b = hi;
    while b > a && is_white_space(v[b - 1])
        invariant
            lo <= a <= b <= hi <= v.len(),
            u == v@.subrange(a as int, hi as int),
            forall|j: int| b <= j < hi ==> white_space(#[trigger] v@[j]),
        decreases b - a,
    {
        b = b - 1;
    }
    proof {
        assert forall|j: int| b - a <= j < u.len() implies white_space(#[trigger] u[j]) by {
            assert(u[j] == v@[a + j]);
        }
        if b > a {
            assert(u[b - a - 1] == v@[b - 1]);
        }
        lemma_trim_end_take(u, b - a);
        assert(u.take(b - a) =~= v@.subrange(a as int, b as int));
    }
    (a, b)
}

/// `i` is the position of the first `c` in `s`.
pub open spec fn is_first_index(s: Seq<char>, c: char, i: int) -> bool {
    &&& 0 <= i < s.len()
    &&& s[i] == c
    &&& forall|j: int| 0 <= j < i ==> s[j] != c
}

/// The text before the first `c` and the text after it (what `str::split_once`
/// gives), or `None` where `s` holds no `c`.
pub open spec fn split_once(s: Seq<char>, c: char) -> Option<(Seq<char>, Seq<char>)> {
    if exists|i: int| is_first_index(s, c, i) {
        let i = choose|i: int| is_first_index(s, c, i);
        Some((s.take(i), s.skip(i + 1)))
    } else {
        None
    }
}

pub proof fn lemma_first_index_unique(s: Seq<char>, c: char, i: int, k: int)
    requires
        is_first_index(s, c, i),
        is_first_index(s, c, k),
    ensures
        i == k,
{
    if i < k {
        assert(s[i] != c);
    } else if k < i {
        assert(s[k] != c);
    }
}

pub proof fn lemma_split_once_at(s: Seq<char>, c: char, i: int)
    requires
        is_first_index(s, c, i),
    ensures
        split_once(s, c) == Some((s.take(i), s.skip(i + 1))),
{
    let k = choose|k: int| is_first_index(s, c, k);
    lemma_first_index_unique(s, c, i, k);
}

/// Where the first `c` in `v@[lo..hi]` stands, counted in `v`.
pub fn find_char(v: &Vec<char>, lo: usize, hi: usize, c: char) -> (r: Option<usize>)
    requires
        lo <= hi <= v.len(),
    ensures
        r matches Some(i) ==> lo <= i < hi && is_first_index(
            v@.subrange(lo as int, hi as int),
            c,
            i - lo,
        ),
        r is None ==> forall|j: int| lo <= j < hi ==> v@[j] != c,
{
    let mut i = lo;
    while i < hi
        invariant
            lo <= i <= hi <= v.len(),
            forall|j: int| lo <= j < i ==> v@[j] != c,
        decreases hi - i,
    {
        if v[i] == c {
            let ghost s = v@.subrange(lo as int, hi as int);
            assert forall|j: int| 0 <= j < i - lo implies s[j] != c by {
                assert(s[j] == v@[lo + j]);
            }
            return Some(i);
        }
        i = i + 1;
    }
    None
}

/// Calls `FromIterator<&char>` for `String` (`collect`): the string made of
/// the given characters, in order.
#[verifier::external_body]
pub(crate) fn string_from_chars(v: &Vec<char>) -> (s: String)
    ensures
        s@ == v@,
{
    v.iter().collect()
}

/// The upper-case form of a string, as `str::to_uppercase` gives it.
pub uninterp spec fn str_uppercase(s: Seq<char>) -> Seq<char>;

/// Calls `str::to_uppercase`; the result is named `str_uppercase` of the
/// argument's characters (Unicode upper-casing depends on nothing else).
#[verifier::external_body]
fn to_uppercase(s: &str) -> (r: String)
    ensures
        r@ == str_uppercase(s@),
{
    s.to_uppercase()
}

/// One piece of a list: trimmed; dropped where nothing is left, upper-cased
/// otherwise.
pub open spec fn list_item(piece: Seq<char>) -> Seq<Seq<char>> {
    let t = trim(piece);
    if t.len() == 0 {
        seq![]
    } else {
        seq![str_uppercase(t)]
    }
}

/// The items of a list whose pieces are separated by `sep`, each piece going
/// through `list_item`.
pub open spec fn list_items(s: Seq<char>, sep: char) -> Seq<Seq<char>>
    decreases s.len(),
{
    if exists|i: int| is_first_index(s, sep, i) {
        let i = choose|i: int| is_first_index(s, sep, i);
        list_item(s.take(i)) + list_items(s.skip(i + 1), sep)
    } else {
        list_item(s)
    }
}

/// The views of a vector of strings.
pub open spec fn string_views(v: Seq<String>) -> Seq<Seq<char>> {
    v.map_values(|t: String| t@)
}

proof fn lemma_string_views_push(v: Seq<String>, x: String)
    ensures
        string_views(v.push(x)) == string_views(v).push(x@),
{
    assert(string_views(v.push(x)) =~= string_views(v).push(x@));
}

/// Appends `list_item(v@[lo..hi])` to `out`.
fn push_item(line: &str, v: &Vec<char>, lo: usize, hi: usize, out: &mut Vec<String>)
    requires
        v@ == line@,
        lo <= hi <= v.len(),
    ensures
        string_views(final(out)@) == string_views(old(out)@) + list_item(
            v@.subrange(lo as int, hi as int),
        ),
{
    let (a, b) = trim_range(v, lo, hi);
    if a < b {
        let piece = line.substring_char(a, b);
        let up = to_uppercase(piece);
        proof {
            lemma_string_views_push(out@, up);
        }
        out.push(up);
    } else {
        assert(string_views(old(out)@) + seq![] =~= string_views(old(out)@));
    }
}

/// The list items of `line@[lo..hi]` separated by `sep`, where `v` holds the
/// characters of `line`.
pub fn collect_items(line: &str, v: &Vec<char>, lo: usize, hi: usize, sep: char) -> (r: Vec<
    String,
>)
    requires
        v@ == line@,
        lo <= hi <= v.len(),
    ensures
        string_views(r@) == list_items(v@.subrange(lo as int, hi as int), sep),
{
    let mut out: Vec<String> = Vec::new();
    let mut start = lo;
    assert(string_views(out@) =~= seq![]);
    loop
        invariant
            v@ == line@,
            lo <= start <= hi <= v.len(),
            list_items(v@.subrange(lo as int, hi as int), sep) == string_views(out@) + list_items(
                v@.subrange(start as int, hi as int),
                sep,
            ),
        decreases hi - start,
    {
        let ghost s = v@.subrange(start as int, hi as int);
        match find_char(v, start, hi, sep) {
            Some(i) => {
                proof {
                    assert(exists|k: int| is_first_index(s, sep, k));
                    let k = choose|k: int| is_first_index(s, sep, k);
                    lemma_first_index_unique(s, sep, i - start, k);
                    assert(s.take(i - start) =~= v@.subrange(start as int, i as int));
                    assert(s.skip(i - start + 1) =~= v@.subrange(i + 1, hi as int));
                }
                let ghost before = string_views(out@);
                push_item(line, v, start, i, &mut out);
                proof {
                    assert(list_items(v@.subrange(lo as int, hi as int), sep) =~= string_views(out@)
                        + list_items(v@.subrange(i + 1, hi as int), sep));
                }
                start = i + 1;
            },
            None => {
                proof {
                    assert forall|k: int| !is_first_index(s, sep, k) by {
                        if 0 <= k < s.len() {
                            assert(s[k] == v@[start + k]);
                        }
                    }
                }
                push_item(line, v, start, hi, &mut out);
                return out;
            },
        }
    }
}

/// The list items of a text with one item per line: what a ticker file holds.
pub fn tickers_from_text(content: &str) -> (r: Vec<String>)
    ensures
        string_views(r@) == list_items(content@, '\n'),
{
    let v = chars_of(content);
    let r = collect_items(content, &v, 0, v.len(), '\n');
    assert(v@.subrange(0, v@.len() as int) =~= content@);
    r
}

} // verus!
