use vstd::prelude::*;

verus! {

broadcast use vstd::seq_lib::group_seq_properties;

/// Unicode `White_Space` characters: what `char::is_whitespace` accepts.
pub open spec fn is_space(c: char) -> bool {
    let n: u32 = c as u32;
    ||| 9 <= n <= 13
    ||| n == 32
    ||| n == 0x85
    ||| n == 0xA0
    ||| n == 0x1680
    ||| 0x2000 <= n <= 0x200A
    ||| n == 0x2028
    ||| n == 0x2029
    ||| n == 0x202F
    ||| n == 0x205F
    ||| n == 0x3000
}

/// `s` without its leading white space.
pub open spec fn trim_start(s: Seq<char>) -> Seq<char>
    decreases s.len(),
{
    if s.len() > 0 && is_space(s[0]) {
        trim_start(s.drop_first())
    } else {
        s
    }
}

/// `s` without its trailing white space.
pub open spec fn trim_end(s: Seq<char>) -> Seq<char>
    decreases s.len(),
{
    if s.len() > 0 && is_space(s.last()) {
        trim_end(s.drop_last())
    } else {
        s
    }
}

/// `s` without leading and trailing white space, as `str::trim` gives it.
pub open spec fn trimmed(s: Seq<char>) -> Seq<char> {
    trim_end(trim_start(s))
}

/// `p` is a prefix of `s`.
pub open spec fn has_prefix(s: Seq<char>, p: Seq<char>) -> bool {
    p.len() <= s.len() && s.take(p.len() as int) == p
}

/// `p` is a suffix of `s`.
pub open spec fn has_suffix(s: Seq<char>, p: Seq<char>) -> bool {
    p.len() <= s.len() && s.skip(s.len() - p.len()) == p
}

/// `p` occurs in `s` starting at position `i`.
pub open spec fn occurs_at(s: Seq<char>, p: Seq<char>, i: int) -> bool {
    0 <= i && i + p.len() <= s.len() && s.subrange(i, i + p.len()) == p
}

/// `p` occurs somewhere in `s`, as `str::contains` tests it.
pub open spec fn contains_text(s: Seq<char>, p: Seq<char>) -> bool {
    exists|i: int| occurs_at(s, p, i)
}


/// `l` without one trailing carriage return.
pub open spec fn strip_cr(l: Seq<char>) -> Seq<char> {
    if l.len() > 0 && l.last() == '\r' {
        l.drop_last()
    } else {
        l
    }
}

/// The position of the first line feed in `s`, or its length when there is none.
pub open spec fn newline_pos(s: Seq<char>) -> nat
    decreases s.len(),
{
    if s.len() == 0 || s[0] == '\n' {
        0
    } else {
        1 + newline_pos(s.drop_first())
    }
}

/// The lines of `s`, as `str::lines` splits them: at each line feed, a carriage return
/// just before it dropped, and no empty line after a final line feed.
pub open spec fn lines(s: Seq<char>) -> Seq<Seq<char>>
    decreases s.len(),
{
    if s.len() == 0 {
        seq![]
    } else {
        let k = newline_pos(s);
        if k >= s.len() {
            seq![s]
        } else {
            seq![strip_cr(s.take(k as int))] + lines(s.skip(k + 1 as int))
        }
    }
}

/// The views of a vector of strings.
pub open spec fn views(v: Seq<String>) -> Seq<Seq<char>> {
    v.map_values(|l: String| l@)
}

proof fn lemma_newline_pos_at(t: Seq<char>, k: int)
    requires
        0 <= k <= t.len(),
        forall|i: int| 0 <= i < k ==> #[trigger] t[i] != '\n',
        k == t.len() || t[k] == '\n',
    ensures
        newline_pos(t) == k,
    decreases k,
{
    if k > 0 {
        let u = t.drop_first();
        assert forall|i: int| 0 <= i < k - 1 implies #[trigger] u[i] != '\n' by {
            assert(u[i] == t[i + 1]);
        }
        lemma_newline_pos_at(u, k - 1);
    }
}

proof fn lemma_trim_start_at(s: Seq<char>, k: int)
    requires
        0 <= k <= s.len(),
        forall|i: int| 0 <= i < k ==> is_space(#[trigger] s[i]),
        k == s.len() || !is_space(s[k]),
    ensures
        trim_start(s) == s.subrange(k, s.len() as int),
    decreases k,
{
    if k == 0 {
        assert(s.subrange(0, s.len() as int) =~= s);
    } else {
        let t = s.drop_first();
        assert forall|i: int| 0 <= i < k - 1 implies is_space(#[trigger] t[i]) by {
            assert(t[i] == s[i + 1]);
        }
        lemma_trim_start_at(t, k - 1);
        assert(t.subrange(k - 1, t.len() as int) =~= s.subrange(k, s.len() as int));
    }
}

proof fn lemma_trim_end_at(s: Seq<char>, h: int)
    requires
        0 <= h <= s.len(),
        forall|i: int| h <= i < s.len() ==> is_space(#[trigger] s[i]),
        h == 0 || !is_space(s[h - 1]),
    ensures
        trim_end(s) == s.subrange(0, h),
    decreases s.len() - h,
{
    if h == s.len() {
        assert(s.subrange(0, h) =~= s);
    } else {
        let t = s.drop_last();
        assert forall|i: int| h <= i < t.len() implies is_space(#[trigger] t[i]) by {
            assert(t[i] == s[i]);
        }
        lemma_trim_end_at(t, h);
        assert(t.subrange(0, h) =~= s.subrange(0, h));
    }
}

/// The characters of `s`, in order.
pub fn chars_of(s: &str) -> (v: Vec<char>)
    ensures
        v@ == s@,
{
    let mut v: Vec<char> = Vec::new();
    for c in it: s.chars()
        invariant
            v@ == it.seq().take(it.index() as int),
            it.seq() == s@,
    {
        v.push(c);
    }
    v
}

/// Whether `c` is white space (`char::is_whitespace`).
pub fn char_is_space(c: char) -> (b: bool)
    ensures
        b == is_space(c),
{
    let n: u32 = c as u32;
    (9 <= n && n <= 13) || n == 32 || n == 0x85 || n == 0xA0 || n == 0x1680 || (0x2000 <= n && n
        <= 0x200A) || n == 0x2028 || n == 0x2029 || n == 0x202F || n == 0x205F || n == 0x3000
}

/// The bounds of `v` with its white space trimmed off both ends.
pub fn trim_bounds(v: &Vec<char>) -> (r: (usize, usize))
    ensures
        r.0 <= r.1 <= v.len(),
        v@.subrange(r.0 as int, r.1 as int) == trimmed(v@),
{
    let len: usize = v.len();
    let mut lo: usize = 0;
    while lo < len && char_is_space(v[lo])
        invariant
            len == v.len(),
            lo <= len,
            forall|i: int| 0 <= i < lo ==> is_space(#[trigger] v@[i]),
        decreases len - lo,
    {
        lo = lo + 1;
    }
    let mut hi: usize = len;
    while hi > lo && char_is_space(v[hi - 1])
        invariant
            len == v.len(),
            lo <= hi <= len,
            forall|i: int| hi <= i < len ==> is_space(#[trigger] v@[i]),
        decreases hi - lo,
    {
        hi = hi - 1;
    }
    proof {
        lemma_trim_start_at(v@, lo as int);
        let t = v@.subrange(lo as int, len as int);
        let h: int = hi - lo;
        assert forall|i: int| h <= i < t.len() implies is_space(#[trigger] t[i]) by {
            assert(t[i] == v@[i + lo]);
        }
        lemma_trim_end_at(t, h);
        assert(t.subrange(0, h) =~= v@.subrange(lo as int, hi as int));
    }
    (lo, hi)
}

/// `s` with leading and trailing white space removed (`str::trim`).
pub fn trim(s: &str) -> (r: String)
    ensures
        r@ == trimmed(s@),
{
    let v = chars_of(s);
    let (lo, hi): (usize, usize) = trim_bounds(&v);
    s.substring_char(lo, hi).to_string()
}

/// Whether two character sequences are equal.
pub fn same_chars(a: &Vec<char>, b: &Vec<char>) -> (eq: bool)
    ensures
        eq == (a@ == b@),
{
    if a.len() != b.len() {
        return false;
    }
    let mut i: usize = 0;
    while i < a.len()
        invariant
            a.len() == b.len(),
            i <= a.len(),
            forall|j: int| 0 <= j < i ==> a@[j] == b@[j],
        decreases a.len() - i,
    {
        if a[i] != b[i] {
            return false;
        }
        i = i + 1;
    }
    assert(a@ =~= b@);
    true
}

/// Whether `p` occurs in `s` at position `i`.
pub fn occurs_at_exec(s: &Vec<char>, p: &Vec<char>, i: usize) -> (b: bool)
    ensures
        b == occurs_at(s@, p@, i as int),
{
    if i > s.len() || p.len() > s.len() - i {
        return false;
    }
    let mut k: usize = 0;
    while k < p.len()
        invariant
            i + p.len() <= s.len(),
            k <= p.len(),
            forall|j: int| 0 <= j < k ==> s@[i + j] == p@[j],
        decreases p.len() - k,
    {
        if s[i + k] != p[k] {
            assert(s@.subrange(i as int, i + p.len())[k as int] != p@[k as int]);
            return false;
        }
        k = k + 1;
    }
    assert(s@.subrange(i as int, i + p.len()) =~= p@);
    true
}

/// Whether `p` occurs anywhere in `s` (`str::contains`).
pub fn contains_chars(s: &Vec<char>, p: &Vec<char>) -> (b: bool)
    ensures
        b == contains_text(s@, p@),
{
    if p.len() > s.len() {
        return false;
    }
    let last: usize = s.len() - p.len();
    let mut i: usize = 0;
    loop
        invariant
            last + p.len() == s.len(),
            i <= last,
            forall|j: int| 0 <= j < i ==> !occurs_at(s@, p@, j),
        decreases last - i,
    {
        if occurs_at_exec(s, p, i) {
            return true;
        }
        if i == last {
            assert forall|j: int| !occurs_at(s@, p@, j) by {
                if j > last as int {
                    assert(!occurs_at(s@, p@, j));
                }
            }
            return false;
        }
        i = i + 1;
    }
}

/// Whether the text `p` occurs in the text `s`.
pub fn str_contains(s: &str, p: &str) -> (b: bool)
    ensures
        b == contains_text(s@, p@),
{
    contains_chars(&chars_of(s), &chars_of(p))
}

/// Whether `s` starts with `p` (`str::starts_with`).
pub fn str_starts_with(s: &str, p: &str) -> (b: bool)
    ensures
        b == has_prefix(s@, p@),
{
    let sv = chars_of(s);
    let pv = chars_of(p);
    let b = occurs_at_exec(&sv, &pv, 0);
    proof {
        if b {
            assert(sv@.take(pv@.len() as int) =~= sv@.subrange(0, pv@.len() as int));
        } else if has_prefix(s@, p@) {
            assert(sv@.take(pv@.len() as int) =~= sv@.subrange(0, pv@.len() as int));
        }
    }
    b
}

/// Whether `s` ends with `p` (`str::ends_with`).
pub fn str_ends_with(s: &str, p: &str) -> (b: bool)
    ensures
        b == has_suffix(s@, p@),
{
    let sv = chars_of(s);
    let pv = chars_of(p);
    if pv.len() > sv.len() {
        return false;
    }
    let start: usize = sv.len() - pv.len();
    let b = occurs_at_exec(&sv, &pv, start);
    proof {
        assert(sv@.skip(start as int) =~= sv@.subrange(start as int, start + pv@.len()));
    }
    b
}

/// The position of the last occurrence of `p` in `v`, if any (`str::rfind`, counted in characters).
pub fn last_occurrence(v: &Vec<char>, p: &Vec<char>) -> (r: Option<usize>)
    ensures
        match r {
            Some(i) => occurs_at(v@, p@, i as int) && forall|j: int|
                i < j ==> !occurs_at(v@, p@, j),
            None => forall|j: int| !occurs_at(v@, p@, j),
        },
{
    if p.len() > v.len() {
        return None;
    }
    let mut i: usize = v.len() - p.len();
    loop
        invariant
            i + p.len() <= v.len(),
            forall|j: int| i < j ==> !occurs_at(v@, p@, j),
        decreases i,
    {
        if occurs_at_exec(v, p, i) {
            return Some(i);
        }
        if i == 0 {
            return None;
        }
        i = i - 1;
    }
}

proof fn lemma_lines_step(s: Seq<char>, pos: int, k: int)
    requires
        0 <= pos <= k <= s.len(),
        pos < s.len(),
        forall|i: int| pos <= i < k ==> s[i] != '\n',
        k == s.len() || s[k] == '\n',
    ensures
        k == s.len() ==> lines(s.skip(pos)) == seq![s.subrange(pos, k)],
        k < s.len() ==> lines(s.skip(pos)) == seq![strip_cr(s.subrange(pos, k))] + lines(
            s.skip(k + 1),
        ),
{
    let t = s.skip(pos);
    assert forall|i: int| 0 <= i < k - pos implies #[trigger] t[i] != '\n' by {
        assert(t[i] == s[i + pos]);
    }
    lemma_newline_pos_at(t, k - pos);
    if k == s.len() {
        assert(t =~= s.subrange(pos, k));
    } else {
        assert(t.take(k - pos) =~= s.subrange(pos, k));
        assert(t.skip(k - pos + 1) =~= s.skip(k + 1));
    }
}

proof fn lemma_views_push(v: Seq<String>, x: String)
    ensures
        views(v.push(x)) == views(v).push(x@),
{
    assert(views(v.push(x)) =~= views(v).push(x@));
}

proof fn lemma_push_concat(before: Seq<Seq<char>>, x: Seq<char>, tail: Seq<Seq<char>>)
    ensures
        before.push(x) + tail == before + (seq![x] + tail),
{
    assert(before.push(x) + tail =~= before + (seq![x] + tail));
}

proof fn lemma_empty_lines()
    ensures
        lines(Seq::<char>::empty()) == Seq::<Seq<char>>::empty(),
{
}

/// The lines of `text` (`str::lines`).
pub fn lines_of(text: &str) -> (r: Vec<String>)
    ensures
        views(r@) == lines(text@),
{
    let v = chars_of(text);
    let len: usize = v.len();
    let mut out: Vec<String> = Vec::new();
    let mut pos: usize = 0;
    while pos < len
        invariant
            len == v.len(),
            v@ == text@,
            pos <= len,
            views(out@) + lines(v@.skip(pos as int)) == lines(v@),
        decreases len - pos,
    {
        let mut k: usize = pos;
        while k < len && v[k] != '\n'
            invariant
                len == v.len(),
                pos <= k <= len,
                forall|i: int| pos <= i < k ==> v@[i] != '\n',
            decreases len - k,
        {
            k = k + 1;
        }
        proof {
            lemma_lines_step(v@, pos as int, k as int);
        }
        let ghost before = out@;
        if k == len {
            let line = text.substring_char(pos, len).to_string();
            out.push(line);
            proof {
                lemma_views_push(before, line);
                assert(v@.skip(len as int) =~= Seq::<char>::empty());
                lemma_empty_lines();
                lemma_push_concat(views(before), line@, Seq::<Seq<char>>::empty());
                assert(seq![line@] + Seq::<Seq<char>>::empty() =~= seq![line@]);
            }
            pos = len;
        } else {
            let end: usize = if k > pos && v[k - 1] == '\r' {
                k - 1
            } else {
                k
            };
            let line = text.substring_char(pos, end).to_string();
            out.push(line);
            proof {
                assert(strip_cr(v@.subrange(pos as int, k as int)) =~= v@.subrange(
                    pos as int,
                    end as int,
                ));
                lemma_views_push(before, line);
                lemma_push_concat(views(before), line@, lines(v@.skip(k + 1)));
            }
            pos = k + 1;
        }
    }
    proof {
        assert(v@.skip(pos as int) =~= Seq::<char>::empty());
        assert(views(out@) + Seq::<Seq<char>>::empty() =~= views(out@));
    }
    out
}

/// Whether two texts are equal.
pub fn str_eq(a: &str, b: &str) -> (eq: bool)
    ensures
        eq == (a@ == b@),
{
    same_chars(&chars_of(a), &chars_of(b))
}

/// `s` without any number of leading copies of `p` (`str::trim_start_matches`).
pub open spec fn strip_repeated_prefix(s: Seq<char>, p: Seq<char>) -> Seq<char>
    decreases s.len(),
{
    if p.len() > 0 && has_prefix(s, p) {
        strip_repeated_prefix(s.skip(p.len() as int), p)
    } else {
        s
    }
}

/// `s` without leading copies of `c`.
pub open spec fn strip_char_start(s: Seq<char>, c: char) -> Seq<char>
    decreases s.len(),
{
    if s.len() > 0 && s[0] == c {
        strip_char_start(s.drop_first(), c)
    } else {
        s
    }
}

/// `s` without trailing copies of `c`.
pub open spec fn strip_char_end(s: Seq<char>, c: char) -> Seq<char>
    decreases s.len(),
{
    if s.len() > 0 && s.last() == c {
        strip_char_end(s.drop_last(), c)
    } else {
        s
    }
}

/// `s` without leading and trailing copies of `c` (`str::trim_matches` with a character).
pub open spec fn strip_char(s: Seq<char>, c: char) -> Seq<char> {
    strip_char_end(strip_char_start(s, c), c)
}

pub proof fn lemma_strip_char_start_at(s: Seq<char>, c: char, k: int)
    requires
        0 <= k <= s.len(),
        forall|i: int| 0 <= i < k ==> #[trigger] s[i] == c,
        k == s.len() || s[k] != c,
    ensures
        strip_char_start(s, c) == s.subrange(k, s.len() as int),
    decreases k,
{
    if k == 0 {
        assert(s.subrange(0, s.len() as int) =~= s);
    } else {
        let t = s.drop_first();
        assert forall|i: int| 0 <= i < k - 1 implies #[trigger] t[i] == c by {
            assert(t[i] == s[i + 1]);
        }
        lemma_strip_char_start_at(t, c, k - 1);
        assert(t.subrange(k - 1, t.len() as int) =~= s.subrange(k, s.len() as int));
    }
}

proof fn lemma_strip_char_end_at(s: Seq<char>, c: char, h: int)
    requires
        0 <= h <= s.len(),
        forall|i: int| h <= i < s.len() ==> #[trigger] s[i] == c,
        h == 0 || s[h - 1] != c,
    ensures
        strip_char_end(s, c) == s.subrange(0, h),
    decreases s.len() - h,
{
    if h == s.len() {
        assert(s.subrange(0, h) =~= s);
    } else {
        let t = s.drop_last();
        assert forall|i: int| h <= i < t.len() implies #[trigger] t[i] == c by {
            assert(t[i] == s[i]);
        }
        lemma_strip_char_end_at(t, c, h);
        assert(t.subrange(0, h) =~= s.subrange(0, h));
    }
}

/// The bounds of `v` within `v[from..]` without leading and trailing copies of `c`.
pub fn strip_char_bounds(v: &Vec<char>, from: usize, c: char) -> (r: (usize, usize))
    requires
        from <= v.len(),
    ensures
        from <= r.0 <= r.1 <= v.len(),
        v@.subrange(r.0 as int, r.1 as int) == strip_char(v@.skip(from as int), c),
{
    let len: usize = v.len();
    let mut lo: usize = from;
    while lo < len && v[lo] == c
        invariant
            len == v.len(),
            from <= lo <= len,
            forall|i: int| from <= i < lo ==> #[trigger] v@[i] == c,
        decreases len - lo,
    {
        lo = lo + 1;
    }
    let mut hi: usize = len;
    while hi > lo && v[hi - 1] == c
        invariant
            len == v.len(),
            lo <= hi <= len,
            forall|i: int| hi <= i < len ==> #[trigger] v@[i] == c,
        decreases hi - lo,
    {
        hi = hi - 1;
    }
    proof {
        let s = v@.skip(from as int);
        assert forall|i: int| 0 <= i < lo - from implies #[trigger] s[i] == c by {
            assert(s[i] == v@[i + from]);
        }
        lemma_strip_char_start_at(s, c, lo - from);
        let t = s.subrange(lo - from, s.len() as int);
        assert(t =~= v@.subrange(lo as int, len as int));
        let h: int = hi - lo;
        assert forall|i: int| h <= i < t.len() implies #[trigger] t[i] == c by {
            assert(t[i] == v@[i + lo]);
        }
        lemma_strip_char_end_at(t, c, h);
        assert(t.subrange(0, h) =~= v@.subrange(lo as int, hi as int));
    }
    (lo, hi)
}

/// The position in `v` after any number of leading copies of `p`.
pub fn skip_repeated_prefix(v: &Vec<char>, p: &Vec<char>) -> (k: usize)
    ensures
        k <= v.len(),
        v@.skip(k as int) == strip_repeated_prefix(v@, p@),
{
    let mut pos: usize = 0;
    assert(v@.skip(0) =~= v@);
    if p.len() == 0 {
        return 0;
    }
    while occurs_at_exec(v, p, pos)
        invariant
            p.len() > 0,
            pos <= v.len(),
            strip_repeated_prefix(v@.skip(pos as int), p@) == strip_repeated_prefix(v@, p@),
        decreases v.len() - pos,
    {
        proof {
            let t = v@.skip(pos as int);
            assert(t.take(p.len() as int) =~= v@.subrange(pos as int, pos + p.len()));
            assert(t.skip(p.len() as int) =~= v@.skip(pos + p.len()));
        }
        pos = pos + p.len();
    }
    proof {
        let t = v@.skip(pos as int);
        if has_prefix(t, p@) {
            assert(t.take(p.len() as int) =~= v@.subrange(pos as int, pos + p.len()));
        }
    }
    pos
}

} // verus!
