//! Character and string helpers shared by the configuration model: prefix
//! tests, stage-name normalization, joining, and the case/underscore
//! normalization used when parsing restart-policy strings.

use vstd::prelude::*;
use vstd::string::StrSliceExecFns;

verus! {

/// ASCII lowercasing of a single character; anything outside 'A'..'Z' is kept.
pub open spec fn lower_char(c: char) -> char {
    if 'A' <= c && c <= 'Z' {
        ((c as u8) + 32) as char
    } else {
        c
    }
}

/// Executable ASCII lowercasing, exact against `lower_char`.
pub fn to_lower_char(c: char) -> (r: char)
    ensures
        r == lower_char(c),
{
    if 'A' <= c && c <= 'Z' {
        (((c as u8) + 32) as char)
    } else {
        c
    }
}

/// The sequence `s` starts with the sequence `p`.
pub open spec fn seq_starts_with(s: Seq<char>, p: Seq<char>) -> bool {
    p.len() <= s.len() && s.subrange(0, p.len() as int) == p
}

/// Prefix test over the characters of two string slices.
pub fn str_starts_with(s: &str, p: &str) -> (r: bool)
    ensures
        r == seq_starts_with(s@, p@),
{
    let s_len = s.unicode_len();
    let p_len = p.unicode_len();
    if p_len > s_len {
        assert(!seq_starts_with(s@, p@));
        return false;
    }
    let mut i: usize = 0;
    while i < p_len
        invariant
            i <= p_len,
            p_len <= s_len,
            s_len == s@.len(),
            p_len == p@.len(),
            forall|j: int| 0 <= j < i ==> s@[j] == p@[j],
        decreases p_len - i,
    {
        if s.get_char(i) != p.get_char(i) {
            assert(s@.subrange(0, p@.len() as int)[i as int] != p@[i as int]);
            return false;
        }
        i = i + 1;
    }
    assert(s@.subrange(0, p@.len() as int) =~= p@);
    true
}

/// Character-wise equality of two string slices.
pub fn str_eq(a: &str, b: &str) -> (r: bool)
    ensures
        r == (a@ == b@),
{
    let a_len = a.unicode_len();
    let b_len = b.unicode_len();
    if a_len != b_len {
        return false;
    }
    let mut i: usize = 0;
    while i < a_len
        invariant
            i <= a_len,
            a_len == a@.len(),
            a_len == b@.len(),
            forall|j: int| 0 <= j < i ==> a@[j] == b@[j],
        decreases a_len - i,
    {
        if a.get_char(i) != b.get_char(i) {
            assert(a@[i as int] != b@[i as int]);
            return false;
        }
        i = i + 1;
    }
    assert(a@ =~= b@);
    true
}

/// Relies on `core::iter::Iterator::collect` through `FromIterator<char> for
/// String`: collecting a vector of characters yields the string of exactly
/// those characters, in order.
#[verifier::external_body]
pub fn string_from_chars(v: Vec<char>) -> (r: String)
    ensures
        r@ == v@,
{
    v.into_iter().collect()
}

/// Normalization applied when parsing user-supplied keyword strings:
/// underscores are dropped and the rest is ASCII-lowercased.
pub open spec fn normalize_keyword(s: Seq<char>) -> Seq<char>
    decreases s.len(),
{
    if s.len() == 0 {
        Seq::<char>::empty()
    } else if s[0] == '_' {
        normalize_keyword(s.skip(1))
    } else {
        seq![lower_char(s[0])] + normalize_keyword(s.skip(1))
    }
}

/// Executable keyword normalization, exact against `normalize_keyword`.
pub fn normalize_keyword_chars(s: &str) -> (r: Vec<char>)
    ensures
        r@ == normalize_keyword(s@),
{
    let len = s.unicode_len();
    let mut out: Vec<char> = Vec::new();
    proof {
        assert(s@.skip(0) =~= s@);
        assert(Seq::<char>::empty() + normalize_keyword(s@) =~= normalize_keyword(s@));
    }
    let mut i: usize = 0;
    while i < len
        invariant
            i <= len,
            len == s@.len(),
            out@ + normalize_keyword(s@.skip(i as int)) == normalize_keyword(s@),
        decreases len - i,
    {
        let c = s.get_char(i);
        proof {
            assert(s@.skip(i as int)[0] == s@[i as int]);
            assert(s@.skip(i as int).skip(1) =~= s@.skip(i as int + 1));
        }
        if c != '_' {
            out.push(to_lower_char(c));
        }
        i = i + 1;
    }
    proof {
        assert(s@.skip(len as int) =~= Seq::<char>::empty());
        assert(out@ + Seq::<char>::empty() =~= out@);
    }
    out
}

/// Equality between a character vector and a string slice.
pub fn chars_eq_str(v: &Vec<char>, s: &str) -> (r: bool)
    ensures
        r == (v@ == s@),
{
    let s_len = s.unicode_len();
    if v.len() != s_len {
        return false;
    }
    let mut i: usize = 0;
    while i < s_len
        invariant
            i <= s_len,
            s_len == s@.len(),
            s_len == v@.len(),
            forall|j: int| 0 <= j < i ==> v@[j] == s@[j],
        decreases s_len - i,
    {
        if v[i] != s.get_char(i) {
            assert(v@[i as int] != s@[i as int]);
            return false;
        }
        i = i + 1;
    }
    assert(v@ =~= s@);
    true
}

/// Stage names are normalized at construction: hyphens become underscores,
/// so that names remain valid module names for the embedded languages.
pub open spec fn dash_to_underscore(c: char) -> char {
    if c == '-' {
        '_'
    } else {
        c
    }
}

/// Replaces every hyphen of `s` with an underscore.
pub fn sanitize_stage_name(s: &str) -> (r: String)
    ensures
        r@ == s@.map_values(|c: char| dash_to_underscore(c)),
{
    let len = s.unicode_len();
    let mut out: Vec<char> = Vec::new();
    let mut i: usize = 0;
    while i < len
        invariant
            i <= len,
            len == s@.len(),
            out@ == s@.take(i as int).map_values(|c: char| dash_to_underscore(c)),
        decreases len - i,
    {
        let c = s.get_char(i);
        if c == '-' {
            out.push('_');
        } else {
            out.push(c);
        }
        proof {
            assert(s@.take(i + 1).map_values(|ch: char| dash_to_underscore(ch))
                =~= s@.take(i as int).map_values(|ch: char| dash_to_underscore(ch))
                    .push(dash_to_underscore(s@[i as int])));
        }
        i = i + 1;
    }
    proof {
        assert(s@.take(len as int) =~= s@);
    }
    string_from_chars(out)
}

/// The slash-joined form of a list of names: the names in order, a single
/// '/' between consecutive ones.
pub open spec fn join_slash(parts: Seq<Seq<char>>) -> Seq<char>
    decreases parts.len(),
{
    if parts.len() == 0 {
        Seq::<char>::empty()
    } else if parts.len() == 1 {
        parts[0]
    } else {
        parts[0] + seq!['/'] + join_slash(parts.skip(1))
    }
}

/// Joins a list of strings with '/' separators, exact against `join_slash`.
pub fn join_with_slash(parts: &Vec<String>) -> (r: String)
    ensures
        r@ == join_slash(parts@.map_values(|p: String| p@)),
{
    let ghost views = parts@.map_values(|p: String| p@);
    let mut out: Vec<char> = Vec::new();
    let n = parts.len();
    if n == 0 {
        return string_from_chars(out);
    }
    let mut i: usize = 0;
    while i < n
        invariant
            i <= n,
            n == parts@.len(),
            n > 0,
            views == parts@.map_values(|p: String| p@),
            views.len() == n,
            i == 0 ==> out@ == Seq::<char>::empty(),
            0 < i < n ==> out@ + seq!['/'] + join_slash(views.skip(i as int))
                == join_slash(views),
            i == n ==> out@ == join_slash(views),
        decreases n - i,
    {
        if i > 0 {
            out.push('/');
        }
        let ghost out_start = out@;
        let part = &parts[i];
        let part_len = part.as_str().unicode_len();
        let mut j: usize = 0;
        while j < part_len
            invariant
                j <= part_len,
                part_len == part@.len(),
                out@ == out_start + part@.take(j as int),
            decreases part_len - j,
        {
            out.push(part.as_str().get_char(j));
            proof {
                assert(out_start + part@.take(j + 1)
                    =~= (out_start + part@.take(j as int)).push(part@[j as int]));
            }
            j = j + 1;
        }
        proof {
            assert(part@.take(part_len as int) =~= part@);
            assert(out@ =~= out_start + part@);
            assert(views[i as int] == part@);
            lemma_join_slash_step(views, i as int);
            assert(views.skip(0) =~= views);
            if i + 1 < n {
                assert(out@ + seq!['/'] + join_slash(views.skip(i + 1))
                    =~= out_start + join_slash(views.skip(i as int)));
            } else {
                assert(out@ =~= out_start + join_slash(views.skip(i as int)));
            }
        }
        i = i + 1;
    }
    string_from_chars(out)
}

/// Peeling one name off the front of a slash-join: for a position `i` before
/// the last name, the join of the tail from `i` is that name, a slash, and
/// the join of the tail from `i + 1`; for the last name it is the name alone.
proof fn lemma_join_slash_step(views: Seq<Seq<char>>, i: int)
    requires
        0 <= i < views.len(),
    ensures
        i < views.len() - 1 ==> join_slash(views.skip(i)) == views[i] + seq!['/']
            + join_slash(views.skip(i + 1)),
        i == views.len() - 1 ==> join_slash(views.skip(i)) == views[i],
{
    assert(views.skip(i).len() == views.len() - i);
    assert(views.skip(i)[0] == views[i]);
    if i < views.len() - 1 {
        assert(views.skip(i).skip(1) =~= views.skip(i + 1));
    } else {
        assert(join_slash(views.skip(i)) == views.skip(i)[0]);
    }
}

/// The ASCII whitespace characters trimmed from the ends of a frame-path
/// string.
pub open spec fn is_blank(c: char) -> bool {
    c == ' ' || c == '\t' || c == '\n' || c == '\r'
}

/// Drops leading blanks.
pub open spec fn trim_start_spec(s: Seq<char>) -> Seq<char>
    decreases s.len(),
{
    if s.len() > 0 && is_blank(s[0]) {
        trim_start_spec(s.skip(1))
    } else {
        s
    }
}

/// Drops trailing blanks.
pub open spec fn trim_end_spec(s: Seq<char>) -> Seq<char>
    decreases s.len(),
{
    if s.len() > 0 && is_blank(s.last()) {
        trim_end_spec(s.drop_last())
    } else {
        s
    }
}

/// Drops blanks from both ends.
pub open spec fn trim_spec(s: Seq<char>) -> Seq<char> {
    trim_end_spec(trim_start_spec(s))
}

/// Dropping leading blanks skips to the first non-blank position.
proof fn lemma_trim_start_skip(s: Seq<char>, a: int)
    requires
        0 <= a <= s.len(),
        forall|j: int| 0 <= j < a ==> is_blank(s[j]),
        a < s.len() ==> !is_blank(s[a]),
    ensures
        trim_start_spec(s) == s.skip(a),
    decreases a,
{
    if a == 0 {
        assert(s.skip(0) =~= s);
    } else {
        assert(is_blank(s[0]));
        lemma_trim_start_skip(s.skip(1), a - 1);
        assert(s.skip(1).skip(a - 1) =~= s.skip(a));
    }
}

/// Dropping trailing blanks keeps the prefix up to the last non-blank.
proof fn lemma_trim_end_take(s: Seq<char>, b: int)
    requires
        0 <= b <= s.len(),
        forall|j: int| b <= j < s.len() ==> is_blank(s[j]),
        b > 0 ==> !is_blank(s[b - 1]),
    ensures
        trim_end_spec(s) == s.take(b),
    decreases s.len() - b,
{
    if b == s.len() {
        assert(s.take(b) =~= s);
    } else {
        assert(is_blank(s.last()));
        lemma_trim_end_take(s.drop_last(), b);
        assert(s.drop_last().take(b) =~= s.take(b));
    }
}

/// Trims ASCII blanks from both ends of a string, exact against `trim_spec`.
pub fn trim_blanks(s: &str) -> (r: String)
    ensures
        r@ == trim_spec(s@),
{
    let len = s.unicode_len();
    let mut a: usize = 0;
    while a < len && is_blank_char(s.get_char(a))
        invariant
            a <= len,
            len == s@.len(),
            forall|j: int| 0 <= j < a ==> is_blank(s@[j]),
        decreases len - a,
    {
        a = a + 1;
    }
    let mut b: usize = len;
    while b > a && is_blank_char(s.get_char(b - 1))
        invariant
            a <= b,
            b <= len,
            len == s@.len(),
            forall|j: int| 0 <= j < a ==> is_blank(s@[j]),
            a < len ==> !is_blank(s@[a as int]),
            forall|j: int| b <= j < len ==> is_blank(s@[j]),
        decreases b,
    {
        b = b - 1;
    }
    let out = s.substring_char(a, b).to_owned();
    proof {
        lemma_trim_start_skip(s@, a as int);
        let t = s@.skip(a as int);
        if b > a {
            lemma_trim_end_take(t, b - a);
        } else {
            lemma_trim_end_take(t, 0);
        }
        assert(t.take(b - a) =~= s@.subrange(a as int, b as int));
    }
    out
}

/// Executable blank test.
fn is_blank_char(c: char) -> (r: bool)
    ensures
        r == is_blank(c),
{
    c == ' ' || c == '\t' || c == '\n' || c == '\r'
}

/// First position of `c` at or after `from`, if any.
pub open spec fn find_char_from(s: Seq<char>, c: char, from: int) -> Option<int>
    decreases s.len() - from,
{
    if from < 0 || from >= s.len() {
        None
    } else if s[from] == c {
        Some(from)
    } else {
        find_char_from(s, c, from + 1)
    }
}

/// A position known to be the first occurrence determines `find_char_from`.
pub proof fn lemma_find_char_first(s: Seq<char>, c: char, from: int, p: int)
    requires
        0 <= from <= p < s.len(),
        s[p] == c,
        forall|w: int| from <= w < p ==> s[w] != c,
    ensures
        find_char_from(s, c, from) == Some(p),
    decreases p - from,
{
    if from < p {
        lemma_find_char_first(s, c, from + 1, p);
    }
}

/// Without an occurrence at or after `from`, the search yields nothing.
pub proof fn lemma_find_char_none(s: Seq<char>, c: char, from: int)
    requires
        0 <= from,
        forall|w: int| from <= w < s.len() ==> s[w] != c,
    ensures
        find_char_from(s, c, from) is None,
    decreases s.len() - from,
{
    if from < s.len() {
        lemma_find_char_none(s, c, from + 1);
    }
}

/// The segments of `s` between its slashes: splitting at each '/', keeping
/// empty segments, with the whole string as the single segment when no
/// slash occurs.
pub open spec fn split_slash(s: Seq<char>) -> Seq<Seq<char>>
    decreases s.len(),
{
    match find_char_from(s, '/', 0) {
        None => seq![s],
        Some(p) => if 0 <= p < s.len() {
            seq![s.take(p)] + split_slash(s.skip(p + 1))
        } else {
            seq![s]
        },
    }
}

/// Splits a string at every '/', exact against `split_slash`.
pub fn split_on_slash(s: &str) -> (r: Vec<String>)
    ensures
        r@.map_values(|p: String| p@) == split_slash(s@),
{
    let len = s.unicode_len();
    let mut parts: Vec<String> = Vec::new();
    proof {
        assert(s@.skip(0) =~= s@);
        assert(parts@.map_values(|p: String| p@) + split_slash(s@) =~= split_slash(s@));
    }
    let mut seg_start: usize = 0;
    let mut q: usize = 0;
    while q < len
        invariant
            seg_start <= q,
            q <= len,
            len == s@.len(),
            forall|w: int| seg_start <= w < q ==> s@[w] != '/',
            parts@.map_values(|p: String| p@) + split_slash(s@.skip(seg_start as int))
                =~= split_slash(s@),
        decreases len - q,
    {
        if s.get_char(q) == '/' {
            let segment = s.substring_char(seg_start, q).to_owned();
            parts.push(segment);
            proof {
                let tail = s@.skip(seg_start as int);
                assert forall|w: int| 0 <= w < q - seg_start implies tail[w] != '/' by {
                    assert(tail[w] == s@[w + seg_start]);
                };
                assert(tail[q - seg_start] == '/');
                lemma_find_char_first(tail, '/', 0, q - seg_start);
                assert(tail.take(q - seg_start) =~= s@.subrange(seg_start as int, q as int));
                assert(tail.skip(q - seg_start + 1) =~= s@.skip(q as int + 1));
            }
            seg_start = q + 1;
        }
        q = q + 1;
    }
    let last_segment = s.substring_char(seg_start, len).to_owned();
    parts.push(last_segment);
    proof {
        let tail = s@.skip(seg_start as int);
        assert forall|w: int| 0 <= w < tail.len() implies tail[w] != '/' by {
            assert(tail[w] == s@[w + seg_start]);
        };
        lemma_find_char_none(tail, '/', 0);
        assert(split_slash(tail) =~= seq![tail]);
        assert(tail =~= s@.subrange(seg_start as int, len as int));
        assert(parts@.map_values(|p: String| p@) =~= split_slash(s@));
    }
    parts
}

/// The joined form of a list of strings with an arbitrary separator between
/// consecutive ones.
pub open spec fn join_sep(parts: Seq<Seq<char>>, sep: Seq<char>) -> Seq<char>
    decreases parts.len(),
{
    if parts.len() == 0 {
        Seq::<char>::empty()
    } else if parts.len() == 1 {
        parts[0]
    } else {
        parts[0] + sep + join_sep(parts.skip(1), sep)
    }
}

/// Joins a list of strings with a separator, exact against `join_sep`.
pub fn join_with_sep(parts: &Vec<String>, sep: &str) -> (r: String)
    ensures
        r@ == join_sep(parts@.map_values(|p: String| p@), sep@),
{
    let ghost views = parts@.map_values(|p: String| p@);
    let mut out: String = String::new();
    let n = parts.len();
    if n == 0 {
        return out;
    }
    let mut i: usize = 0;
    while i < n
        invariant
            i <= n,
            n == parts@.len(),
            n > 0,
            views == parts@.map_values(|p: String| p@),
            views.len() == n,
            i == 0 ==> out@ == Seq::<char>::empty(),
            0 < i < n ==> out@ + sep@ + join_sep(views.skip(i as int), sep@) == join_sep(
                views,
                sep@,
            ),
            i == n ==> out@ == join_sep(views, sep@),
        decreases n - i,
    {
        if i > 0 {
            out.append(sep);
        }
        out.append(parts[i].as_str());
        proof {
            lemma_join_sep_step(views, sep@, i as int);
            assert(views.skip(0) =~= views);
            if i + 1 < n {
                assert(out@ + sep@ + join_sep(views.skip(i + 1), sep@) =~= (if i == 0 {
                    Seq::<char>::empty()
                } else {
                    out@.subrange(0, out@.len() - sep@.len() - views[i as int].len() as int)
                        + sep@
                }) + join_sep(views.skip(i as int), sep@));
            }
        }
        i = i + 1;
    }
    out
}

/// Peeling one part off the front of a separator join.
proof fn lemma_join_sep_step(views: Seq<Seq<char>>, sep: Seq<char>, i: int)
    requires
        0 <= i < views.len(),
    ensures
        i < views.len() - 1 ==> join_sep(views.skip(i), sep) == views[i] + sep + join_sep(
            views.skip(i + 1),
            sep,
        ),
        i == views.len() - 1 ==> join_sep(views.skip(i), sep) == views[i],
{
    assert(views.skip(i).len() == views.len() - i);
    assert(views.skip(i)[0] == views[i]);
    if i < views.len() - 1 {
        assert(views.skip(i).skip(1) =~= views.skip(i + 1));
    } else {
        assert(join_sep(views.skip(i), sep) == views.skip(i)[0]);
    }
}

} // verus!
