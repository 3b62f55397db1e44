//! Character-level text helpers: whitespace, trimming, splitting.
use vstd::prelude::*;

verus! {

broadcast use vstd::string::group_string_axioms;

/// Unicode `White_Space`: the characters `char::is_whitespace` and
/// `str::trim` treat as whitespace.
pub open spec fn is_whitespace(c: char) -> bool {
    let u = c as u32;
    ||| 0x09 <= u <= 0x0d
    ||| u == 0x20
    ||| u == 0x85
    ||| u == 0xa0
    ||| u == 0x1680
    ||| 0x2000 <= u <= 0x200a
    ||| u == 0x2028
    ||| u == 0x2029
    ||| u == 0x202f
    ||| u == 0x205f
    ||| u == 0x3000
}

/// `s` without its leading whitespace.
pub open spec fn trim_start(s: Seq<char>) -> Seq<char>
    decreases s.len(),
{
    if s.len() > 0 && is_whitespace(s[0]) {
        trim_start(s.drop_first())
    } else {
        s
    }
}

/// `s` without its trailing whitespace.
pub open spec fn trim_end(s: Seq<char>) -> Seq<char>
    decreases s.len(),
{
    if s.len() > 0 && is_whitespace(s.last()) {
        trim_end(s.drop_last())
    } else {
        s
    }
}

/// `s` without leading and trailing whitespace.
pub open spec fn trim(s: Seq<char>) -> Seq<char> {
    trim_end(trim_start(s))
}

/// Every character of `s` is whitespace (so `s` trims to nothing).
pub open spec fn is_blank(s: Seq<char>) -> bool {
    forall|i: int| 0 <= i < s.len() ==> is_whitespace(#[trigger] s[i])
}

/// The first position at or after `from` that holds `c`, or the length of
/// `s` when there is none.
pub open spec fn index_of_from(s: Seq<char>, c: char, from: int) -> int
    decreases s.len() - from,
{
    if from >= s.len() {
        s.len() as int
    } else if s[from] == c {
        from
    } else {
        index_of_from(s, c, from + 1)
    }
}

/// The first three fields of `s` split at single spaces, the third being the
/// whole rest of the line; `None` when `s` has fewer than two spaces.
pub open spec fn split3_at_spaces(s: Seq<char>) -> Option<(Seq<char>, Seq<char>, Seq<char>)> {
    let i1 = index_of_from(s, ' ', 0);
    let i2 = index_of_from(s, ' ', i1 + 1);
    if i1 >= s.len() || i2 >= s.len() {
        None
    } else {
        Some((s.subrange(0, i1), s.subrange(i1 + 1, i2), s.subrange(i2 + 1, s.len() as int)))
    }
}

/// Whether `c` is Unicode whitespace.
pub fn is_whitespace_char(c: char) -> (r: bool)
    ensures
        r == is_whitespace(c),
{
    let u = c as u32;
    (0x09 <= u && u <= 0x0d) || u == 0x20 || u == 0x85 || u == 0xa0 || u == 0x1680 || (0x2000
        <= u && u <= 0x200a) || u == 0x2028 || u == 0x2029 || u == 0x202f || u == 0x205f || u
        == 0x3000
}

/// Whether every character of `s` is whitespace.
pub fn is_blank_str(s: &str) -> (r: bool)
    ensures
        r == is_blank(s@),
{
    let cs = chars_of(s);
    let n = cs.len();
    for i in 0..n
        invariant
            n == cs@.len(),
            cs@ == s@,
            forall|j: int| 0 <= j < i ==> is_whitespace(#[trigger] cs@[j]),
    {
        if !is_whitespace_char(cs[i]) {
            return false;
        }
    }
    true
}

/// First position at or after `from` holding `c`, or `cs.len()`.
fn find_char_from(cs: &Vec<char>, c: char, from: usize) -> (r: usize)
    requires
        from <= cs@.len(),
    ensures
        r == index_of_from(cs@, c, from as int),
        from <= r <= cs@.len(),
{
    let mut k = from;
    while k < cs.len()
        invariant
            from <= k <= cs@.len(),
            index_of_from(cs@, c, from as int) == index_of_from(cs@, c, k as int),
        decreases cs@.len() - k,
    {
        if cs[k] == c {
            return k;
        }
        k = k + 1;
    }
    k
}

/// Leading and trailing whitespace bounds: `trim(s@) == s@[a..b]`.
fn trim_bounds(cs: &Vec<char>) -> (r: (usize, usize))
    ensures
        r.0 <= r.1 <= cs@.len(),
        trim(cs@) == cs@.subrange(r.0 as int, r.1 as int),
{
    let ghost s = cs@;
    let n = cs.len();
    let mut a: usize = 0;
    proof {
        assert(s.subrange(0, n as int) =~= s);
    }
    while a < n && is_whitespace_char(cs[a])
        invariant
            n == s.len(),
            s == cs@,
            a <= n,
            trim_start(s) == trim_start(s.subrange(a as int, n as int)),
        decreases n - a,
    {
        proof {
            let t = s.subrange(a as int, n as int);
            assert(t.drop_first() =~= s.subrange(a + 1, n as int));
        }
        a = a + 1;
    }
    let ghost t = s.subrange(a as int, n as int);
    assert(trim_start(s) == t);
    let mut b: usize = n;
    while b > a && is_whitespace_char(cs[b - 1])
        invariant
            n == s.len(),
            s == cs@,
            a <= b <= n,
            t == s.subrange(a as int, n as int),
            trim_end(t) == trim_end(s.subrange(a as int, b as int)),
        decreases b - a,
    {
        proof {
            let u = s.subrange(a as int, b as int);
            assert(u.drop_last() =~= s.subrange(a as int, b - 1));
        }
        b = b - 1;
    }
    (a, b)
}

/// `s` with leading and trailing whitespace removed.
pub fn trim_str(s: &str) -> (r: String)
    ensures
        r@ == trim(s@),
{
    let cs = chars_of(s);
    let (a, b) = trim_bounds(&cs);
    s.substring_char(a, b).to_owned()
}

/// The fields of a transcription line, "start_ms end_ms text": the line split
/// at its first two spaces, the text being the whole rest (leading spaces
/// included). `None` when the line has fewer than two spaces.
pub fn split_segment_fields(line: &str) -> (r: Option<(String, String, String)>)
    ensures
        match split3_at_spaces(line@) {
            None => r is None,
            Some((a, b, c)) => r matches Some((x, y, z)) && x@ == a && y@ == b && z@ == c,
        },
{
    let cs = chars_of(line);
    let n = cs.len();
    let i1 = find_char_from(&cs, ' ', 0);
    if i1 >= n {
        return None;
    }
    let i2 = find_char_from(&cs, ' ', i1 + 1);
    if i2 >= n {
        return None;
    }
    let start = line.substring_char(0, i1).to_owned();
    let end = line.substring_char(i1 + 1, i2).to_owned();
    let text = line.substring_char(i2 + 1, n).to_owned();
    Some((start, end, text))
}

/// The fields of a transcription line after trimming it: `None` for a blank
/// line or one with fewer than two spaces once trimmed.
pub fn split_trimmed_segment_fields(line: &str) -> (r: Option<(String, String, String)>)
    ensures
        trim(line@).len() == 0 ==> r is None,
        trim(line@).len() > 0 ==> match split3_at_spaces(trim(line@)) {
            None => r is None,
            Some((a, b, c)) => r matches Some((x, y, z)) && x@ == a && y@ == b && z@ == c,
        },
{
    let trimmed = trim_str(line);
    if trimmed.as_str().unicode_len() == 0 {
        return None;
    }
    split_segment_fields(trimmed.as_str())
}

/// The characters of `s`, in order.
pub fn chars_of(s: &str) -> (r: Vec<char>)
    ensures
        r@ == s@,
{
    let mut out: Vec<char> = Vec::new();
    for c in it: s.chars()
        invariant
            it.seq() == s@,
            out@ == it.seq().take(it.index()),
    {
        out.push(c);
        proof {
            assert(out@ =~= it.seq().take(it.index() + 1));
        }
    }
    proof {
        assert(out@ =~= s@);
    }
    out
}

/// Trimming removes the first character exactly when it is whitespace.
proof fn lemma_trim_start_first(s: Seq<char>)
    ensures
        trim_start(s).len() == 0 <==> is_blank(s),
        trim_start(s).len() > 0 ==> !is_whitespace(trim_start(s)[0]),
    decreases s.len(),
{
    if s.len() > 0 && is_whitespace(s[0]) {
        lemma_trim_start_first(s.drop_first());
        if is_blank(s.drop_first()) {
            assert forall|i: int| 0 <= i < s.len() implies is_whitespace(#[trigger] s[i]) by {
                if i > 0 {
                    assert(s[i] == s.drop_first()[i - 1]);
                }
            }
        }
        if is_blank(s) {
            assert forall|i: int| 0 <= i < s.drop_first().len() implies is_whitespace(
                #[trigger] s.drop_first()[i],
            ) by {
                assert(s.drop_first()[i] == s[i + 1]);
            }
        }
    } else if s.len() > 0 {
        assert(!is_blank(s)) by {
            assert(!is_whitespace(s[0]));
        }
    }
}

/// Trimming the end keeps a first character that is not whitespace.
proof fn lemma_trim_end_keeps_first(s: Seq<char>)
    requires
        s.len() > 0,
        !is_whitespace(s[0]),
    ensures
        trim_end(s).len() > 0,
    decreases s.len(),
{
    if is_whitespace(s.last()) {
        if s.len() > 1 {
            assert(s.drop_last()[0] == s[0]);
            lemma_trim_end_keeps_first(s.drop_last());
        }
    }
}

/// A string trims to nothing exactly when all its characters are whitespace.
pub proof fn lemma_blank_iff_trims_to_empty(s: Seq<char>)
    ensures
        is_blank(s) <==> trim(s).len() == 0,
{
    lemma_trim_start_first(s);
    if trim_start(s).len() > 0 {
        lemma_trim_end_keeps_first(trim_start(s));
    } else {
        assert(trim_end(trim_start(s)) == trim_start(s));
    }
}

/// Among the ASCII characters exactly the space and the five controls tab,
/// line feed, vertical tab, form feed and carriage return are whitespace: no
/// letter, digit or punctuation mark (such as '.') is.
pub proof fn lemma_ascii_whitespace(c: char)
    requires
        (c as u32) < 128,
    ensures
        is_whitespace(c) <==> (c == ' ' || c == '\t' || c == '\n' || c == '\x0b' || c == '\x0c'
            || c == '\r'),
{
}

/// `trim_start(s)` is `s` from its first non-whitespace character on.
proof fn lemma_trim_start_shape(s: Seq<char>) -> (k: int)
    ensures
        0 <= k <= s.len(),
        trim_start(s) == s.subrange(k, s.len() as int),
        forall|i: int| 0 <= i < k ==> is_whitespace(#[trigger] s[i]),
        k < s.len() ==> !is_whitespace(s[k]),
    decreases s.len(),
{
    if s.len() > 0 && is_whitespace(s[0]) {
        let t = s.drop_first();
        let k1 = lemma_trim_start_shape(t);
        assert(t.subrange(k1, t.len() as int) =~= s.subrange(k1 + 1, s.len() as int));
        assert forall|i: int| 0 <= i < k1 + 1 implies is_whitespace(#[trigger] s[i]) by {
            if i > 0 {
                assert(s[i] == t[i - 1]);
            }
        }
        if k1 < t.len() {
            assert(s[k1 + 1] == t[k1]);
        }
        k1 + 1
    } else {
        assert(s.subrange(0, s.len() as int) =~= s);
        0
    }
}

/// `trim_end(t)` is `t` up to and including its last non-whitespace
/// character.
proof fn lemma_trim_end_shape(t: Seq<char>) -> (m: int)
    ensures
        0 <= m <= t.len(),
        trim_end(t) == t.subrange(0, m),
        forall|i: int| m <= i < t.len() ==> is_whitespace(#[trigger] t[i]),
        m > 0 ==> !is_whitespace(t[m - 1]),
    decreases t.len(),
{
    if t.len() > 0 && is_whitespace(t.last()) {
        let u = t.drop_last();
        let m1 = lemma_trim_end_shape(u);
        assert(u.subrange(0, m1) =~= t.subrange(0, m1));
        assert forall|i: int| m1 <= i < t.len() implies is_whitespace(#[trigger] t[i]) by {
            if i < t.len() - 1 {
                assert(t[i] == u[i]);
            }
        }
        if m1 > 0 {
            assert(t[m1 - 1] == u[m1 - 1]);
        }
        m1
    } else {
        assert(t.subrange(0, t.len() as int) =~= t);
        t.len() as int
    }
}

/// Trimming removes whitespace and nothing else: the trimmed text is the
/// part of `s` that starts at the returned position, everything before and
/// after it is whitespace, and (when it is not empty) it neither starts nor
/// ends with whitespace.
pub proof fn lemma_trim_removes_only_whitespace(s: Seq<char>) -> (start: int)
    ensures
        0 <= start,
        start + trim(s).len() <= s.len(),
        trim(s) == s.subrange(start, start + trim(s).len()),
        forall|i: int| 0 <= i < start ==> is_whitespace(#[trigger] s[i]),
        forall|i: int| start + trim(s).len() <= i < s.len() ==> is_whitespace(#[trigger] s[i]),
        trim(s).len() > 0 ==> !is_whitespace(trim(s)[0]) && !is_whitespace(trim(s).last()),
{
    let k = lemma_trim_start_shape(s);
    let t = trim_start(s);
    let m = lemma_trim_end_shape(t);
    assert(t.subrange(0, m) =~= s.subrange(k, k + m));
    assert forall|i: int| k + m <= i < s.len() implies is_whitespace(#[trigger] s[i]) by {
        assert(s[i] == t[i - k]);
    }
    if m > 0 {
        assert(trim(s)[0] == s[k]);
        assert(trim(s).last() == t[m - 1]);
    }
    k
}

/// The first occurrence of `c` at or after `from`.
proof fn lemma_index_of_from(s: Seq<char>, c: char, from: int)
    requires
        0 <= from <= s.len(),
    ensures
        from <= index_of_from(s, c, from) <= s.len(),
        index_of_from(s, c, from) < s.len() ==> s[index_of_from(s, c, from)] == c,
        forall|j: int| from <= j < index_of_from(s, c, from) ==> s[j] != c,
    decreases s.len() - from,
{
    if from < s.len() && s[from] != c {
        lemma_index_of_from(s, c, from + 1);
    }
}

/// A line "a b c" split at its first two spaces: the three fields joined back
/// with single spaces give the whole line, the first two hold no space, and
/// the third is the entire rest of the line, whatever its length. Conversely,
/// any such decomposition of a line is the one the split gives, and a line
/// with fewer than two spaces gives none.
pub proof fn lemma_split3_rejoins(s: Seq<char>, a: Seq<char>, b: Seq<char>, c: Seq<char>)
    ensures
        split3_at_spaces(s) matches Some((x, y, z)) ==> {
            &&& x + seq![' '] + y + seq![' '] + z == s
            &&& !x.contains(' ')
            &&& !y.contains(' ')
        },
        (!a.contains(' ') && !b.contains(' ') && a + seq![' '] + b + seq![' '] + c == s)
            ==> split3_at_spaces(s) == Some((a, b, c)),
        split3_at_spaces(s) is None <==> !exists|i: int, j: int|
            #![trigger s[i], s[j]]
            0 <= i < j < s.len() && s[i] == ' ' && s[j] == ' ',
{
    lemma_index_of_from(s, ' ', 0);
    let i1 = index_of_from(s, ' ', 0);
    if i1 < s.len() {
        lemma_index_of_from(s, ' ', i1 + 1);
    }
    let i2 = index_of_from(s, ' ', i1 + 1);
    if i1 < s.len() && i2 < s.len() {
        let x = s.subrange(0, i1);
        let y = s.subrange(i1 + 1, i2);
        let z = s.subrange(i2 + 1, s.len() as int);
        assert(x + seq![' '] + y + seq![' '] + z =~= s);
        assert(!x.contains(' ')) by {
            if x.contains(' ') {
                let j = choose|j: int| 0 <= j < x.len() && x[j] == ' ';
                assert(s[j] == ' ');
            }
        }
        assert(!y.contains(' ')) by {
            if y.contains(' ') {
                let j = choose|j: int| 0 <= j < y.len() && y[j] == ' ';
                assert(s[i1 + 1 + j] == ' ');
            }
        }
        assert(s[i1] == ' ' && s[i2] == ' ');
    } else {
        assert forall|i: int, j: int| 0 <= i < j < s.len() && #[trigger] s[i] == ' ' implies #[trigger] s[j]
            != ' ' by {
            if s[j] == ' ' {
                assert(i1 <= i);
                assert(i2 <= j);
            }
        }
    }
    let w = a + seq![' '] + b + seq![' '] + c;
    if !a.contains(' ') && !b.contains(' ') && w == s {
        assert(s[a.len() as int] == ' ');
        assert(s[(a.len() + 1 + b.len()) as int] == ' ');
        assert forall|j: int| 0 <= j < a.len() implies s[j] != ' ' by {
            assert(s[j] == a[j]);
        }
        assert forall|j: int| a.len() + 1 <= j < a.len() + 1 + b.len() implies s[j] != ' ' by {
            assert(s[j] == b[j - a.len() - 1]);
        }
        assert(i1 == a.len());
        assert(i2 == a.len() + 1 + b.len());
        assert(s.subrange(0, i1) =~= a);
        assert(s.subrange(i1 + 1, i2) =~= b);
        assert(s.subrange(i2 + 1, s.len() as int) =~= c);
    }
}

} // verus!
