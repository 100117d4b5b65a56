//! Character-level string utilities with their specifications.
//!
//! Strings are specified through their view, the sequence of their
//! characters (`Seq<char>`).

use vstd::prelude::*;

verus! {

/// Unicode `White_Space` property, which `char::is_whitespace` and
/// `str::trim` go by.
pub open spec fn is_white_space(c: char) -> bool {
    let u = c as u32;
    ||| 0x09 <= u <= 0x0d
    ||| u == 0x20
    ||| u == 0x85
    ||| u == 0xa0
    ||| u == 0x1680
    ||| 0x2000 <= u <= 0x200a
    ||| u == 0x2028
    ||| u == 0x2029
    ||| u == 0x202f
    ||| u == 0x205f
    ||| u == 0x3000
}

/// Unicode general category `Cc`, which `char::is_control` goes by.
pub open spec fn is_control(c: char) -> bool {
    let u = c as u32;
    u <= 0x1f || (0x7f <= u <= 0x9f)
}

/// Whether some character of `s` is a control character.
pub open spec fn has_control(s: Seq<char>) -> bool {
    exists|i: int| 0 <= i < s.len() && is_control(#[trigger] s[i])
}

/// `s` without its leading white space.
pub open spec fn trim_start(s: Seq<char>) -> Seq<char>
    decreases s.len(),
{
    if s.len() > 0 && is_white_space(s[0]) {
        trim_start(s.drop_first())
    } else {
        s
    }
}

/// `s` without its trailing white space.
pub open spec fn trim_end(s: Seq<char>) -> Seq<char>
    decreases s.len(),
{
    if s.len() > 0 && is_white_space(s.last()) {
        trim_end(s.drop_last())
    } else {
        s
    }
}

/// `s` without leading and trailing white space (`str::trim`).
pub open spec fn trim(s: Seq<char>) -> Seq<char> {
    trim_start(trim_end(s))
}

/// Whether `s` is empty once trimmed (`s.trim().is_empty()`).
pub open spec fn is_blank(s: Seq<char>) -> bool {
    forall|i: int| 0 <= i < s.len() ==> is_white_space(#[trigger] s[i])
}

/// `char::is_whitespace`.
pub fn is_white_space_char(c: char) -> (b: bool)
    ensures
        b == is_white_space(c),
{
    let u = c as u32;
    (0x09 <= u && u <= 0x0d) || u == 0x20 || u == 0x85 || u == 0xa0 || u == 0x1680 || (0x2000
        <= u && u <= 0x200a) || u == 0x2028 || u == 0x2029 || u == 0x202f || u == 0x205f || u
        == 0x3000
}

/// `char::is_control`.
pub fn is_control_char(c: char) -> (b: bool)
    ensures
        b == is_control(c),
{
    let u = c as u32;
    u <= 0x1f || (0x7f <= u && u <= 0x9f)
}

/// The characters of `s`, collected into a vector.
pub fn chars_of(s: &str) -> (v: Vec<char>)
    ensures
        v@ == s@,
{
    let mut v: Vec<char> = Vec::new();
    for c in it: s.chars()
        invariant
            v@ == it.seq().take(it.index() as int),
    {
        v.push(c);
    }
    v
}

proof fn lemma_trim_start_skip(s: Seq<char>, i: int)
    requires
        0 <= i <= s.len(),
        forall|j: int| 0 <= j < i ==> is_white_space(#[trigger] s[j]),
    ensures
        trim_start(s) == trim_start(s.skip(i)),
    decreases i,
{
    if i > 0 {
        assert(s.skip(i - 1).drop_first() =~= s.skip(i));
        assert(s.skip(i - 1)[0] == s[i - 1]);
        lemma_trim_start_skip(s, i - 1);
    } else {
        assert(s.skip(0) =~= s);
    }
}

proof fn lemma_trim_end_take(s: Seq<char>, i: int)
    requires
        0 <= i <= s.len(),
        forall|j: int| i <= j < s.len() ==> is_white_space(#[trigger] s[j]),
    ensures
        trim_end(s) == trim_end(s.take(i)),
    decreases s.len() - i,
{
    if i < s.len() {
        assert(s.take(i + 1).drop_last() =~= s.take(i));
        lemma_trim_end_take(s, i + 1);
    } else {
        assert(s.take(i) =~= s);
    }
}

/// `str::is_empty` of `str::trim`: whether every character is white space.
pub fn is_blank_str(s: &str) -> (b: bool)
    ensures
        b == is_blank(s@),
{
    let cs = chars_of(s);
    let n = cs.len();
    let mut i: usize = 0;
    while i < n
        invariant
            cs@ == s@,
            n == cs.len(),
            i <= n,
            forall|j: int| 0 <= j < i ==> is_white_space(#[trigger] s@[j]),
        decreases n - i,
    {
        if !is_white_space_char(cs[i]) {
            return false;
        }
        i = i + 1;
    }
    true
}

/// `str::trim`.
pub fn trim_str<'a>(s: &'a str) -> (t: &'a str)
    ensures
        t@ == trim(s@),
{
    let cs = chars_of(s);
    let n = cs.len();
    let mut end: usize = n;
    while end > 0 && is_white_space_char(cs[end - 1])
        invariant
            cs@ == s@,
            n == cs.len(),
            end <= n,
            forall|j: int| end <= j < n ==> is_white_space(#[trigger] s@[j]),
        decreases end,
    {
        end = end - 1;
    }
    proof {
        lemma_trim_end_take(s@, end as int);
        assert(end == 0 || !is_white_space(s@.take(end as int).last()));
    }
    let mut start: usize = 0;
    while start < end && is_white_space_char(cs[start])
        invariant
            cs@ == s@,
            n == cs.len(),
            start <= end <= n,
            forall|j: int| 0 <= j < start ==> is_white_space(#[trigger] s@[j]),
        decreases end - start,
    {
        start = start + 1;
    }
    proof {
        let e = s@.take(end as int);
        assert(trim_end(s@) == e);
        assert forall|j: int| 0 <= j < start implies is_white_space(#[trigger] e[j]) by {
            assert(e[j] == s@[j]);
        }
        lemma_trim_start_skip(e, start as int);
        assert(e.skip(start as int) =~= s@.subrange(start as int, end as int));
    }
    s.substring_char(start, end)
}


/// The pieces of `s` between occurrences of `sep` (`str::split` with a
/// character pattern); there is always at least one piece.
pub open spec fn split_on(s: Seq<char>, sep: char) -> Seq<Seq<char>>
    decreases s.len(),
{
    if s.len() == 0 {
        seq![Seq::<char>::empty()]
    } else {
        let rest = split_on(s.drop_last(), sep);
        if s.last() == sep {
            rest.push(Seq::<char>::empty())
        } else {
            rest.update(rest.len() - 1, rest.last().push(s.last()))
        }
    }
}

/// A line without the carriage return that ended it.
pub open spec fn strip_cr(l: Seq<char>) -> Seq<char> {
    if l.len() > 0 && l.last() == '\r' {
        l.drop_last()
    } else {
        l
    }
}

/// `str::lines`: the pieces between line feeds, each without the carriage
/// return before its line feed; a final line feed ends the last line.
pub open spec fn lines(s: Seq<char>) -> Seq<Seq<char>> {
    let p = split_on(s, '\n');
    let ended = p.drop_last().map_values(|l: Seq<char>| strip_cr(l));
    if p.last().len() == 0 {
        ended
    } else {
        ended.push(p.last())
    }
}

/// Index of the first occurrence of `c` in `s`.
pub open spec fn first_index(s: Seq<char>, c: char) -> Option<int>
    decreases s.len(),
{
    if s.len() == 0 {
        None
    } else {
        match first_index(s.drop_last(), c) {
            Some(i) => Some(i),
            None => if s.last() == c {
                Some(s.len() - 1)
            } else {
                None
            },
        }
    }
}

/// Index of the last occurrence of `c` in `s`.
pub open spec fn last_index(s: Seq<char>, c: char) -> Option<int>
    decreases s.len(),
{
    if s.len() == 0 {
        None
    } else if s.last() == c {
        Some(s.len() - 1)
    } else {
        last_index(s.drop_last(), c)
    }
}

/// `str::split_once` with a character pattern.
pub open spec fn split_once(s: Seq<char>, c: char) -> Option<(Seq<char>, Seq<char>)> {
    match first_index(s, c) {
        Some(i) => Some((s.take(i), s.skip(i + 1))),
        None => None,
    }
}

/// `str::rsplit_once` with a character pattern.
pub open spec fn rsplit_once(s: Seq<char>, c: char) -> Option<(Seq<char>, Seq<char>)> {
    match last_index(s, c) {
        Some(i) => Some((s.take(i), s.skip(i + 1))),
        None => None,
    }
}

/// `str::contains` with a string pattern.
pub open spec fn contains_seq(s: Seq<char>, pat: Seq<char>) -> bool {
    exists|i: int|
        0 <= i && i + pat.len() <= s.len() && #[trigger] s.subrange(i, i + pat.len()) == pat
}

pub proof fn lemma_split_on_len(s: Seq<char>, sep: char)
    ensures
        split_on(s, sep).len() >= 1,
    decreases s.len(),
{
    if s.len() > 0 {
        lemma_split_on_len(s.drop_last(), sep);
    }
}

proof fn lemma_first_index_extend(s: Seq<char>, c: char, k: int)
    requires
        0 <= k <= s.len(),
        first_index(s.take(k), c) is Some,
    ensures
        first_index(s, c) == first_index(s.take(k), c),
        0 <= first_index(s, c)->0 < k,
        s[first_index(s, c)->0] == c,
        forall|j: int| 0 <= j < first_index(s, c)->0 ==> s[j] != c,
    decreases s.len() - k,
{
    if k < s.len() {
        assert(s.take(k + 1).drop_last() =~= s.take(k));
        lemma_first_index_facts(s.take(k), c);
        lemma_first_index_extend(s, c, k + 1);
    } else {
        assert(s.take(k) =~= s);
        lemma_first_index_facts(s, c);
    }
}

proof fn lemma_first_index_facts(s: Seq<char>, c: char)
    ensures
        match first_index(s, c) {
            Some(i) => 0 <= i < s.len() && s[i] == c && forall|j: int| 0 <= j < i ==> s[j] != c,
            None => forall|j: int| 0 <= j < s.len() ==> s[j] != c,
        },
    decreases s.len(),
{
    if s.len() > 0 {
        let d = s.drop_last();
        lemma_first_index_facts(d, c);
        assert forall|j: int| 0 <= j < d.len() implies d[j] == s[j] by {}
    }
}

proof fn lemma_last_index_facts(s: Seq<char>, c: char)
    ensures
        match last_index(s, c) {
            Some(i) => 0 <= i < s.len() && s[i] == c && forall|j: int| i < j < s.len() ==> s[j] != c,
            None => forall|j: int| 0 <= j < s.len() ==> s[j] != c,
        },
    decreases s.len(),
{
    if s.len() > 0 {
        let d = s.drop_last();
        lemma_last_index_facts(d, c);
        assert forall|j: int| 0 <= j < d.len() implies d[j] == s[j] by {}
    }
}

/// `str::split` with a character pattern.
pub fn split_str<'a>(s: &'a str, sep: char) -> (pieces: Vec<&'a str>)
    ensures
        pieces@.map_values(|p: &str| p@) == split_on(s@, sep),
{
    let cs = chars_of(s);
    let n = cs.len();
    let mut pieces: Vec<&'a str> = Vec::new();
    let mut start: usize = 0;
    let mut i: usize = 0;
    proof {
        assert(pieces@.map_values(|p: &str| p@) =~= Seq::<Seq<char>>::empty());
        assert(s@.take(0) =~= Seq::<char>::empty());
        assert(s@.subrange(0, 0) =~= Seq::<char>::empty());
    }
    while i < n
        invariant
            cs@ == s@,
            n == cs.len(),
            start <= i <= n,
            pieces@.map_values(|p: &str| p@).push(s@.subrange(start as int, i as int))
                == split_on(s@.take(i as int), sep),
        decreases n - i,
    {
        let ghost old_pieces = pieces@.map_values(|p: &str| p@);
        let ghost old_start = start;
        proof {
            assert(s@.take(i + 1).drop_last() =~= s@.take(i as int));
            assert(s@.take(i + 1).last() == s@[i as int]);
            lemma_split_on_len(s@.take(i as int), sep);
        }
        if cs[i] == sep {
            let piece = s.substring_char(start, i);
            pieces.push(piece);
            start = i + 1;
            proof {
                assert(pieces@.map_values(|p: &str| p@) =~= old_pieces.push(piece@));
            }
        }
        i = i + 1;
        proof {
            if s@[i - 1] == sep {
                assert(s@.subrange(start as int, i as int) =~= Seq::<char>::empty());
            } else {
                assert(s@.subrange(start as int, i as int) =~= s@.subrange(
                    old_start as int,
                    i - 1,
                ).push(s@[i - 1]));
            }
        }
    }
    let ghost old_pieces = pieces@.map_values(|p: &str| p@);
    let last = s.substring_char(start, n);
    pieces.push(last);
    proof {
        assert(s@.take(n as int) =~= s@);
        assert(pieces@.map_values(|p: &str| p@) =~= old_pieces.push(last@));
    }
    pieces
}


/// `str::split_once` with a character pattern.
pub fn split_once_str<'a>(s: &'a str, c: char) -> (r: Option<(&'a str, &'a str)>)
    ensures
        match r {
            Some((a, b)) => split_once(s@, c) == Some((a@, b@)),
            None => split_once(s@, c) is None,
        },
{
    let cs = chars_of(s);
    let n = cs.len();
    let mut i: usize = 0;
    proof {
        assert(s@.take(0) =~= Seq::<char>::empty());
    }
    while i < n
        invariant
            cs@ == s@,
            n == cs.len(),
            i <= n,
            first_index(s@.take(i as int), c) is None,
        decreases n - i,
    {
        proof {
            assert(s@.take(i + 1).drop_last() =~= s@.take(i as int));
        }
        if cs[i] == c {
            proof {
                lemma_first_index_extend(s@, c, i + 1);
            }
            return Some((s.substring_char(0, i), s.substring_char(i + 1, n)));
        }
        i = i + 1;
    }
    proof {
        assert(s@.take(n as int) =~= s@);
    }
    None
}

/// `str::rsplit_once` with a character pattern.
pub fn rsplit_once_str<'a>(s: &'a str, c: char) -> (r: Option<(&'a str, &'a str)>)
    ensures
        match r {
            Some((a, b)) => rsplit_once(s@, c) == Some((a@, b@)),
            None => rsplit_once(s@, c) is None,
        },
{
    let cs = chars_of(s);
    let n = cs.len();
    let mut i: usize = 0;
    let mut last: Option<usize> = None;
    proof {
        assert(s@.take(0) =~= Seq::<char>::empty());
    }
    while i < n
        invariant
            cs@ == s@,
            n == cs.len(),
            i <= n,
            match last {
                Some(j) => last_index(s@.take(i as int), c) == Some(j as int) && j < i,
                None => last_index(s@.take(i as int), c) is None,
            },
        decreases n - i,
    {
        proof {
            assert(s@.take(i + 1).drop_last() =~= s@.take(i as int));
        }
        if cs[i] == c {
            last = Some(i);
        }
        i = i + 1;
    }
    proof {
        assert(s@.take(n as int) =~= s@);
    }
    match last {
        Some(j) => Some((s.substring_char(0, j), s.substring_char(j + 1, n))),
        None => None,
    }
}

/// The line without the carriage return that ended it.
fn strip_cr_str<'a>(l: &'a str) -> (r: &'a str)
    ensures
        r@ == strip_cr(l@),
{
    let n = l.unicode_len();
    if n > 0 && l.get_char(n - 1) == '\r' {
        l.substring_char(0, n - 1)
    } else {
        proof {
            assert(l@.subrange(0, n as int) =~= l@);
        }
        l.substring_char(0, n)
    }
}

/// `str::lines`.
pub fn lines_str<'a>(s: &'a str) -> (ls: Vec<&'a str>)
    ensures
        ls@.map_values(|l: &str| l@) == lines(s@),
{
    let pieces = split_str(s, '\n');
    let ghost p = split_on(s@, '\n');
    proof {
        lemma_split_on_len(s@, '\n');
        assert(pieces@.len() == p.len());
    }
    let n = pieces.len();
    let mut ls: Vec<&'a str> = Vec::new();
    let mut k: usize = 0;
    while k + 1 < n
        invariant
            pieces@.map_values(|q: &str| q@) == p,
            n == pieces.len(),
            n >= 1,
            k + 1 <= n,
            ls@.map_values(|l: &str| l@) == p.take(k as int).map_values(
                |l: Seq<char>| strip_cr(l),
            ),
        decreases n - k,
    {
        let ghost old_ls = ls@.map_values(|l: &str| l@);
        let line = strip_cr_str(pieces[k]);
        ls.push(line);
        proof {
            assert(pieces@[k as int]@ == p[k as int]);
            assert(ls@.map_values(|l: &str| l@) =~= old_ls.push(line@));
            assert(p.take(k + 1).map_values(|l: Seq<char>| strip_cr(l)) =~= p.take(
                k as int,
            ).map_values(|l: Seq<char>| strip_cr(l)).push(strip_cr(p[k as int])));
        }
        k = k + 1;
    }
    proof {
        assert(p.take(k as int) =~= p.drop_last());
        assert(pieces@[n - 1]@ == p.last());
    }
    let last = pieces[n - 1];
    if last.unicode_len() > 0 {
        let ghost old_ls = ls@.map_values(|l: &str| l@);
        ls.push(last);
        proof {
            assert(ls@.map_values(|l: &str| l@) =~= old_ls.push(last@));
        }
    }
    ls
}

/// Whether `s` holds a control character.
pub fn has_control_str(s: &str) -> (b: bool)
    ensures
        b == has_control(s@),
{
    let cs = chars_of(s);
    let n = cs.len();
    let mut i: usize = 0;
    while i < n
        invariant
            cs@ == s@,
            n == cs.len(),
            i <= n,
            forall|j: int| 0 <= j < i ==> !is_control(#[trigger] s@[j]),
        decreases n - i,
    {
        if is_control_char(cs[i]) {
            assert(is_control(s@[i as int]));
            return true;
        }
        i = i + 1;
    }
    false
}

/// `str::contains` with a string pattern.
pub fn contains_str(s: &str, pat: &str) -> (b: bool)
    ensures
        b == contains_seq(s@, pat@),
{
    let cs = chars_of(s);
    let ps = chars_of(pat);
    let n = cs.len();
    let m = ps.len();
    if m > n {
        return false;
    }
    if m == 0 {
        assert(s@.subrange(0, 0int + pat@.len()) =~= pat@);
        return true;
    }
    let mut i: usize = 0;
    while i <= n - m
        invariant
            cs@ == s@,
            ps@ == pat@,
            n == cs.len(),
            m == ps.len(),
            1 <= m <= n,
            i <= n - m + 1,
            forall|k: int| 0 <= k < i ==> #[trigger] s@.subrange(k, k + m) != pat@,
        decreases n - m + 1 - i,
    {
        let mut j: usize = 0;
        let mut same = true;
        while j < m
            invariant
                cs@ == s@,
                ps@ == pat@,
                n == cs.len(),
                m == ps.len(),
                i + m <= n,
                j <= m,
                same ==> forall|t: int| 0 <= t < j ==> s@[i + t] == pat@[t],
                !same ==> s@.subrange(i as int, i + m) != pat@,
            decreases m - j,
        {
            if cs[i + j] != ps[j] {
                same = false;
                assert(s@.subrange(i as int, i + m)[j as int] != pat@[j as int]);
            }
            j = j + 1;
        }
        if same {
            assert(s@.subrange(i as int, i + pat@.len()) =~= pat@);
            return true;
        }
        i = i + 1;
    }
    proof {
        assert forall|k: int| 0 <= k && k + pat@.len() <= s@.len() implies #[trigger] s@.subrange(
            k,
            k + pat@.len(),
        ) != pat@ by {
            assert(k < i);
        }
    }
    false
}


/// The character sequences of a sequence of strings.
pub open spec fn string_views(v: Seq<String>) -> Seq<Seq<char>> {
    v.map_values(|s: String| s@)
}

/// The character sequences of a sequence of string slices.
pub open spec fn str_views(v: Seq<&str>) -> Seq<Seq<char>> {
    v.map_values(|s: &str| s@)
}

/// `==` on string slices.
pub fn str_eq(a: &str, b: &str) -> (r: bool)
    ensures
        r == (a@ == b@),
{
    let ac = chars_of(a);
    let bc = chars_of(b);
    if ac.len() != bc.len() {
        return false;
    }
    let n = ac.len();
    let mut i: usize = 0;
    while i < n
        invariant
            ac@ == a@,
            bc@ == b@,
            n == ac.len(),
            n == bc.len(),
            i <= n,
            forall|j: int| 0 <= j < i ==> a@[j] == b@[j],
        decreases n - i,
    {
        if ac[i] != bc[i] {
            return false;
        }
        i = i + 1;
    }
    assert(a@ =~= b@);
    true
}

/// A new string holding `a` followed by `b`.
pub fn concat2(a: &str, b: &str) -> (r: String)
    ensures
        r@ == a@ + b@,
{
    let mut r = String::from_str(a);
    r.append(b);
    r
}

/// A new string holding `a`, `b` and `c` in turn.
pub fn concat3(a: &str, b: &str, c: &str) -> (r: String)
    ensures
        r@ == a@ + b@ + c@,
{
    let mut r = String::from_str(a);
    r.append(b);
    r.append(c);
    r
}


/// The first occurrence of `c` is at `i` when `s[i]` is `c` and no earlier
/// character is.
pub proof fn lemma_first_index_at(s: Seq<char>, c: char, i: int)
    requires
        0 <= i < s.len(),
        s[i] == c,
        forall|j: int| 0 <= j < i ==> s[j] != c,
    ensures
        first_index(s, c) == Some(i),
{
    lemma_first_index_facts(s, c);
}

/// What `first_index` says of `s`.
pub proof fn lemma_first_index(s: Seq<char>, c: char)
    ensures
        match first_index(s, c) {
            Some(i) => 0 <= i < s.len() && s[i] == c && forall|j: int| 0 <= j < i ==> s[j] != c,
            None => forall|j: int| 0 <= j < s.len() ==> s[j] != c,
        },
{
    lemma_first_index_facts(s, c);
}

/// Trimming leaves alone a sequence whose ends are not white space.
pub proof fn lemma_trim_untouched(s: Seq<char>)
    requires
        s.len() > 0,
        !is_white_space(s[0]),
        !is_white_space(s.last()),
    ensures
        trim(s) == s,
{
}


/// Lexicographic order of character sequences by code point, which is the
/// order of `String`s (their UTF-8 bytes compare the same way).
pub open spec fn seq_lt(a: Seq<char>, b: Seq<char>) -> bool
    decreases a.len(),
{
    if a.len() == 0 {
        b.len() > 0
    } else if b.len() == 0 {
        false
    } else if a[0] != b[0] {
        (a[0] as u32) < (b[0] as u32)
    } else {
        seq_lt(a.drop_first(), b.drop_first())
    }
}

pub proof fn lemma_seq_lt_irreflexive(a: Seq<char>)
    ensures
        !seq_lt(a, a),
    decreases a.len(),
{
    if a.len() > 0 {
        lemma_seq_lt_irreflexive(a.drop_first());
    }
}

pub proof fn lemma_seq_lt_transitive(a: Seq<char>, b: Seq<char>, c: Seq<char>)
    requires
        seq_lt(a, b),
        seq_lt(b, c),
    ensures
        seq_lt(a, c),
    decreases a.len(),
{
    if a.len() > 0 && b.len() > 0 && c.len() > 0 {
        if a[0] == b[0] && b[0] == c[0] {
            lemma_seq_lt_transitive(a.drop_first(), b.drop_first(), c.drop_first());
        }
    }
}

pub proof fn lemma_seq_lt_total(a: Seq<char>, b: Seq<char>)
    requires
        a != b,
    ensures
        seq_lt(a, b) || seq_lt(b, a),
    decreases a.len(),
{
    if a.len() > 0 && b.len() > 0 && a[0] == b[0] {
        if a.drop_first() == b.drop_first() {
            assert(a =~= seq![a[0]] + a.drop_first());
            assert(b =~= seq![b[0]] + b.drop_first());
        }
        lemma_seq_lt_total(a.drop_first(), b.drop_first());
    } else if a.len() > 0 && b.len() > 0 {
        vstd::utf8::char_u32_cast(a[0], a[0] as u32);
        vstd::utf8::char_u32_cast(b[0], b[0] as u32);
    } else if a.len() == 0 && b.len() == 0 {
        assert(a =~= b);
    }
}

proof fn lemma_seq_lt_skip(a: Seq<char>, b: Seq<char>, i: int)
    requires
        0 <= i <= a.len(),
        i <= b.len(),
        forall|j: int| 0 <= j < i ==> a[j] == b[j],
    ensures
        seq_lt(a, b) == seq_lt(a.skip(i), b.skip(i)),
    decreases i,
{
    if i > 0 {
        assert(a.drop_first().skip(i - 1) =~= a.skip(i));
        assert(b.drop_first().skip(i - 1) =~= b.skip(i));
        lemma_seq_lt_skip(a.drop_first(), b.drop_first(), i - 1);
    } else {
        assert(a.skip(0) =~= a);
        assert(b.skip(0) =~= b);
    }
}

/// `<` on strings.
pub fn str_lt(a: &str, b: &str) -> (r: bool)
    ensures
        r == seq_lt(a@, b@),
{
    let ac = chars_of(a);
    let bc = chars_of(b);
    let n = ac.len();
    let m = bc.len();
    let mut i: usize = 0;
    while i < n && i < m && ac[i] == bc[i]
        invariant
            ac@ == a@,
            bc@ == b@,
            n == ac.len(),
            m == bc.len(),
            i <= n,
            i <= m,
            forall|j: int| 0 <= j < i ==> a@[j] == b@[j],
        decreases n - i,
    {
        i = i + 1;
    }
    proof {
        lemma_seq_lt_skip(a@, b@, i as int);
    }
    if i == n {
        i < m
    } else if i == m {
        false
    } else {
        (ac[i] as u32) < (bc[i] as u32)
    }
}

/// The first line of `ls` that is not blank, trimmed.
pub open spec fn first_non_blank(ls: Seq<Seq<char>>) -> Option<Seq<char>>
    decreases ls.len(),
{
    if ls.len() == 0 {
        None
    } else if trim(ls[0]).len() > 0 {
        Some(trim(ls[0]))
    } else {
        first_non_blank(ls.drop_first())
    }
}

/// `output.lines().map(str::trim).find(|line| !line.is_empty())`.
pub fn first_non_empty_line<'a>(output: &'a str) -> (r: Option<&'a str>)
    ensures
        match r {
            Some(l) => first_non_blank(lines(output@)) == Some(l@),
            None => first_non_blank(lines(output@)) is None,
        },
{
    let ls = lines_str(output);
    let ghost all = lines(output@);
    let n = ls.len();
    let mut i: usize = 0;
    proof {
        assert(all.skip(0) =~= all);
    }
    while i < n
        invariant
            str_views(ls@) == all,
            all == lines(output@),
            n == ls.len(),
            i <= n,
            first_non_blank(all) == first_non_blank(all.skip(i as int)),
        decreases n - i,
    {
        proof {
            assert(all.skip(i as int).drop_first() =~= all.skip(i + 1));
            assert(all.skip(i as int)[0] == ls@[i as int]@);
        }
        let line = trim_str(ls[i]);
        if line.unicode_len() > 0 {
            proof {
                assert(all.len() == n);
                let rest = all.skip(i as int);
                assert(rest.len() > 0);
                assert(trim(rest[0]) == line@);
                assert(first_non_blank(rest) == Some(trim(rest[0])));
            }
            return Some(line);
        }
        i = i + 1;
    }
    None
}


/// The decimal digit character of `d`.
pub open spec fn digit_char(d: int) -> char {
    (48 + d) as char
}

/// The decimal digits of `n`, most significant first.
pub open spec fn decimal_digits(n: nat) -> Seq<char>
    decreases n,
{
    if n < 10 {
        seq![digit_char(n as int)]
    } else {
        decimal_digits(n / 10).push(digit_char((n % 10) as int))
    }
}

/// The decimal text of an integer (`Display` of the integer types).
pub open spec fn decimal_text(n: int) -> Seq<char> {
    if n < 0 {
        "-"@ + decimal_digits((-n) as nat)
    } else {
        decimal_digits(n as nat)
    }
}

pub(crate) fn digit_str(d: u64) -> (r: &'static str)
    requires
        d < 10,
    ensures
        r@ == seq![digit_char(d as int)],
{
    proof {
        reveal_strlit("0");
        reveal_strlit("1");
        reveal_strlit("2");
        reveal_strlit("3");
        reveal_strlit("4");
        reveal_strlit("5");
        reveal_strlit("6");
        reveal_strlit("7");
        reveal_strlit("8");
        reveal_strlit("9");
    }
    match d {
        0 => "0",
        1 => "1",
        2 => "2",
        3 => "3",
        4 => "4",
        5 => "5",
        6 => "6",
        7 => "7",
        8 => "8",
        _ => "9",
    }
}

fn append_decimal(s: &mut String, n: u64)
    ensures
        final(s)@ == old(s)@ + decimal_digits(n as nat),
    decreases n,
{
    if n >= 10 {
        append_decimal(s, n / 10);
    }
    s.append(digit_str(n % 10));
}

/// `i32::to_string`.
pub fn i32_text(n: i32) -> (r: String)
    ensures
        r@ == decimal_text(n as int),
{
    let mut r = String::new();
    if n < 0 {
        r.append("-");
        let magnitude = (0i64 - (n as i64)) as u64;
        append_decimal(&mut r, magnitude);
    } else {
        append_decimal(&mut r, n as u64);
    }
    r
}

/// Whether every element of `s` comes before the next in `seq_lt` order.
pub open spec fn strictly_sorted(s: Seq<Seq<char>>) -> bool {
    forall|i: int, j: int| 0 <= i < j < s.len() ==> seq_lt(#[trigger] s[i], #[trigger] s[j])
}

/// Insert `x` into a strictly sorted vector of strings unless it is there.
pub fn insert_sorted(v: &mut Vec<String>, x: &str)
    requires
        strictly_sorted(string_views(old(v)@)),
    ensures
        strictly_sorted(string_views(final(v)@)),
        forall|w: Seq<char>|
            #![trigger string_views(final(v)@).contains(w)]
            string_views(final(v)@).contains(w) <==> (string_views(old(v)@).contains(w) || w
                == x@),
{
    let ghost old_s = string_views(v@);
    let n = v.len();
    let mut j: usize = 0;
    while j < n && str_lt(v[j].as_str(), x)
        invariant
            n == v@.len(),
            old_s == string_views(v@),
            j <= n,
            forall|k: int| 0 <= k < j ==> seq_lt(#[trigger] old_s[k], x@),
        decreases n - j,
    {
        j = j + 1;
    }
    if j < n && str_eq(v[j].as_str(), x) {
        assert(old_s[j as int] == x@);
        return;
    }
    proof {
        assert forall|k: int| j <= k < n implies seq_lt(x@, #[trigger] old_s[k]) by {
            assert(!seq_lt(old_s[j as int], x@));
            assert(old_s[j as int] != x@);
            lemma_seq_lt_total(old_s[j as int], x@);
            if k > j {
                lemma_seq_lt_transitive(x@, old_s[j as int], old_s[k]);
            }
        }
    }
    v.insert(j, String::from_str(x));
    proof {
        let new_s = string_views(v@);
        assert(new_s =~= old_s.insert(j as int, x@));
        assert forall|a: int, b: int| 0 <= a < b < new_s.len() implies seq_lt(
            #[trigger] new_s[a],
            #[trigger] new_s[b],
        ) by {
            if b < j {
            } else if a < j && b == j {
            } else if a < j && b > j {
                assert(new_s[b] == old_s[b - 1]);
                lemma_seq_lt_transitive(old_s[a], x@, old_s[b - 1]);
            } else if a == j {
                assert(new_s[b] == old_s[b - 1]);
            } else {
                assert(new_s[a] == old_s[a - 1]);
                assert(new_s[b] == old_s[b - 1]);
            }
        }
        assert forall|w: Seq<char>| new_s.contains(w) <==> (old_s.contains(w) || w == x@) by {
            if new_s.contains(w) {
                let k = choose|k: int| 0 <= k < new_s.len() && new_s[k] == w;
                if k < j {
                    assert(old_s[k] == w);
                } else if k > j {
                    assert(old_s[k - 1] == w);
                }
            }
            if old_s.contains(w) {
                let k = choose|k: int| 0 <= k < old_s.len() && old_s[k] == w;
                if k < j {
                    assert(new_s[k] == w);
                } else {
                    assert(new_s[k + 1] == w);
                }
            }
            if w == x@ {
                assert(new_s[j as int] == w);
            }
        }
    }
}

} // verus!
