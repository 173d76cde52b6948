use vstd::prelude::*;

use crate::jsoncpp::{
    lemma_text_less_asymmetric, lemma_text_less_irreflexive, lemma_text_less_total,
    lemma_text_less_transitive, text_less, text_less_exec,
};
use crate::text::{chars_of, lemma_strip_char_start_at, strip_char_start};

verus! {

broadcast use vstd::seq_lib::group_seq_properties;

/// An ASCII decimal digit.
pub open spec fn is_digit(c: char) -> bool {
    48 <= (c as u32) <= 57
}

pub open spec fn all_digits(s: Seq<char>) -> bool {
    forall|i: int| 0 <= i < s.len() ==> is_digit(#[trigger] s[i])
}

/// The position of the first dot in `s`, or its length when there is none.
pub open spec fn dot_pos(s: Seq<char>) -> nat
    decreases s.len(),
{
    if s.len() == 0 || s[0] == '.' {
        0
    } else {
        1 + dot_pos(s.drop_first())
    }
}

/// The dot-separated components of a version: `1.9.5` has `1`, `9` and `5`.
pub open spec fn version_parts(s: Seq<char>) -> Seq<Seq<char>>
    decreases s.len(),
{
    let k = dot_pos(s);
    if k >= s.len() {
        seq![s]
    } else {
        seq![s.take(k as int)] + version_parts(s.skip(k + 1 as int))
    }
}

/// How a component compares: a number (all digits) by its digits without leading zeros, any
/// other component by its text.
pub open spec fn part_key(p: Seq<char>) -> (bool, Seq<char>) {
    if all_digits(p) {
        (true, strip_char_start(p, '0'))
    } else {
        (false, p)
    }
}

/// The comparison key of a version: the keys of its components, in order.
pub open spec fn version_key(s: Seq<char>) -> Seq<(bool, Seq<char>)> {
    keys_of_parts(version_parts(s))
}

pub open spec fn keys_of_parts(ps: Seq<Seq<char>>) -> Seq<(bool, Seq<char>)> {
    ps.map_values(|p: Seq<char>| part_key(p))
}

/// Component `a` is older than `b`: numbers by value, numbers before other components, other
/// components by their text.
pub open spec fn part_less(a: (bool, Seq<char>), b: (bool, Seq<char>)) -> bool {
    let (an, ad) = a;
    let (bn, bd) = b;
    if an && bn {
        ad.len() < bd.len() || (ad.len() == bd.len() && text_less(ad, bd))
    } else if an != bn {
        an
    } else {
        text_less(ad, bd)
    }
}

/// Key `a` is older than key `b`: component by component, and a version that is a prefix of
/// another is older than it.
pub open spec fn key_less(a: Seq<(bool, Seq<char>)>, b: Seq<(bool, Seq<char>)>) -> bool
    decreases a.len(),
{
    if a.len() == 0 {
        b.len() > 0
    } else if b.len() == 0 {
        false
    } else if a[0] != b[0] {
        part_less(a[0], b[0])
    } else {
        key_less(a.drop_first(), b.drop_first())
    }
}

/// Version `a` is older than version `b` (`10` is newer than `9`, `25.1` newer than `25`).
pub open spec fn older(a: Seq<char>, b: Seq<char>) -> bool {
    key_less(version_key(a), version_key(b))
}

proof fn lemma_part_asymmetric(a: (bool, Seq<char>), b: (bool, Seq<char>))
    ensures
        !(part_less(a, b) && part_less(b, a)),
{
    let (_, ad) = a;
    let (_, bd) = b;
    lemma_text_less_asymmetric(ad, bd);
}

proof fn lemma_part_transitive(a: (bool, Seq<char>), b: (bool, Seq<char>), c: (bool, Seq<char>))
    requires
        part_less(a, b),
        part_less(b, c),
    ensures
        part_less(a, c),
{
    let (an, ad) = a;
    let (bn, bd) = b;
    let (cn, cd) = c;
    if an == bn && bn == cn {
        if text_less(ad, bd) && text_less(bd, cd) {
            lemma_text_less_transitive(ad, bd, cd);
        }
    }
}

proof fn lemma_part_total(a: (bool, Seq<char>), b: (bool, Seq<char>))
    ensures
        part_less(a, b) || part_less(b, a) || a == b,
{
    let (an, ad) = a;
    let (bn, bd) = b;
    lemma_text_less_total(ad, bd);
}

pub proof fn lemma_key_irreflexive(a: Seq<(bool, Seq<char>)>)
    ensures
        !key_less(a, a),
    decreases a.len(),
{
    if a.len() > 0 {
        lemma_key_irreflexive(a.drop_first());
    }
}

pub proof fn lemma_key_asymmetric(a: Seq<(bool, Seq<char>)>, b: Seq<(bool, Seq<char>)>)
    ensures
        !(key_less(a, b) && key_less(b, a)),
    decreases a.len(),
{
    if a.len() > 0 && b.len() > 0 {
        if a[0] == b[0] {
            lemma_key_asymmetric(a.drop_first(), b.drop_first());
        } else {
            lemma_part_asymmetric(a[0], b[0]);
        }
    }
}

pub proof fn lemma_key_transitive(
    a: Seq<(bool, Seq<char>)>,
    b: Seq<(bool, Seq<char>)>,
    c: Seq<(bool, Seq<char>)>,
)
    requires
        key_less(a, b),
        key_less(b, c),
    ensures
        key_less(a, c),
    decreases a.len(),
{
    if a.len() > 0 && b.len() > 0 && c.len() > 0 {
        if a[0] == b[0] && b[0] == c[0] {
            lemma_key_transitive(a.drop_first(), b.drop_first(), c.drop_first());
        } else if a[0] == b[0] {
        } else if b[0] == c[0] {
        } else {
            lemma_part_transitive(a[0], b[0], c[0]);
            if a[0] == c[0] {
                lemma_part_asymmetric(a[0], b[0]);
            }
        }
    }
}

pub proof fn lemma_key_total(a: Seq<(bool, Seq<char>)>, b: Seq<(bool, Seq<char>)>)
    ensures
        key_less(a, b) || key_less(b, a) || a == b,
    decreases a.len(),
{
    if a.len() > 0 && b.len() > 0 {
        if a[0] == b[0] {
            lemma_key_total(a.drop_first(), b.drop_first());
            if a.drop_first() == b.drop_first() {
                assert(a =~= seq![a[0]] + a.drop_first());
                assert(b =~= seq![b[0]] + b.drop_first());
            }
        } else {
            lemma_part_total(a[0], b[0]);
        }
    } else if a.len() == 0 && b.len() == 0 {
        assert(a =~= b);
    }
}

/// The comparison key of one version component.
pub struct PartKey {
    pub numeric: bool,
    pub digits: Vec<char>,
}

impl View for PartKey {
    type V = (bool, Seq<char>);

    open spec fn view(&self) -> (bool, Seq<char>) {
        (self.numeric, self.digits@)
    }
}

pub open spec fn keys_view(k: Seq<PartKey>) -> Seq<(bool, Seq<char>)> {
    k.map_values(|p: PartKey| p@)
}

fn copy_range(v: &Vec<char>, lo: usize, hi: usize) -> (r: Vec<char>)
    requires
        lo <= hi <= v.len(),
    ensures
        r@ == v@.subrange(lo as int, hi as int),
{
    let mut r: Vec<char> = Vec::new();
    let mut i: usize = lo;
    while i < hi
        invariant
            lo <= i <= hi <= v.len(),
            r@ == v@.subrange(lo as int, i as int),
        decreases hi - i,
    {
        r.push(v[i]);
        i = i + 1;
    }
    r
}

/// The key of the component `v[lo..hi]`.
fn part_key_of(v: &Vec<char>, lo: usize, hi: usize) -> (k: PartKey)
    requires
        lo <= hi <= v.len(),
    ensures
        k@ == part_key(v@.subrange(lo as int, hi as int)),
{
    let ghost p = v@.subrange(lo as int, hi as int);
    let mut i: usize = lo;
    while i < hi && (v[i] as u32) >= 48 && (v[i] as u32) <= 57
        invariant
            lo <= i <= hi <= v.len(),
            forall|j: int| lo <= j < i ==> is_digit(#[trigger] v@[j]),
        decreases hi - i,
    {
        i = i + 1;
    }
    if i < hi {
        assert(!is_digit(p[i - lo]));
        return PartKey { numeric: false, digits: copy_range(v, lo, hi) };
    }
    assert(all_digits(p)) by {
        assert forall|j: int| 0 <= j < p.len() implies is_digit(#[trigger] p[j]) by {
            assert(p[j] == v@[j + lo]);
        }
    }
    let mut z: usize = lo;
    while z < hi && v[z] == '0'
        invariant
            lo <= z <= hi <= v.len(),
            forall|j: int| lo <= j < z ==> #[trigger] v@[j] == '0',
        decreases hi - z,
    {
        z = z + 1;
    }
    proof {
        assert forall|j: int| 0 <= j < z - lo implies #[trigger] p[j] == '0' by {
            assert(p[j] == v@[j + lo]);
        }
        lemma_strip_char_start_at(p, '0', z - lo);
        assert(p.subrange(z - lo, p.len() as int) =~= v@.subrange(z as int, hi as int));
    }
    PartKey { numeric: true, digits: copy_range(v, z, hi) }
}

proof fn lemma_dot_pos_at(t: Seq<char>, k: int)
    requires
        0 <= k <= t.len(),
        forall|i: int| 0 <= i < k ==> #[trigger] t[i] != '.',
        k == t.len() || t[k] == '.',
    ensures
        dot_pos(t) == k,
    decreases k,
{
    if k > 0 {
        let u = t.drop_first();
        assert forall|i: int| 0 <= i < k - 1 implies #[trigger] u[i] != '.' by {
            assert(u[i] == t[i + 1]);
        }
        lemma_dot_pos_at(u, k - 1);
    }
}

proof fn lemma_parts_step(s: Seq<char>, pos: int, k: int)
    requires
        0 <= pos <= k <= s.len(),
        forall|i: int| pos <= i < k ==> s[i] != '.',
        k == s.len() || s[k] == '.',
    ensures
        k == s.len() ==> keys_of_parts(version_parts(s.skip(pos))) == seq![
            part_key(s.subrange(pos, k)),
        ],
        k < s.len() ==> keys_of_parts(version_parts(s.skip(pos))) == seq![
            part_key(s.subrange(pos, k)),
        ] + keys_of_parts(version_parts(s.skip(k + 1))),
{
    let t = s.skip(pos);
    assert forall|i: int| 0 <= i < k - pos implies #[trigger] t[i] != '.' by {
        assert(t[i] == s[i + pos]);
    }
    lemma_dot_pos_at(t, k - pos);
    if k == s.len() {
        assert(t =~= s.subrange(pos, k));
        assert(keys_of_parts(seq![t]) =~= seq![part_key(t)]);
    } else {
        assert(t.take(k - pos) =~= s.subrange(pos, k));
        assert(t.skip(k - pos + 1) =~= s.skip(k + 1));
        let tail = version_parts(s.skip(k + 1));
        assert(keys_of_parts(seq![s.subrange(pos, k)] + tail) =~= seq![
            part_key(s.subrange(pos, k)),
        ] + keys_of_parts(tail));
    }
}

/// The comparison key of version `s`.
pub fn version_key_of(s: &str) -> (k: Vec<PartKey>)
    ensures
        keys_view(k@) == version_key(s@),
{
    let v = chars_of(s);
    let len: usize = v.len();
    let mut out: Vec<PartKey> = Vec::new();
    let mut pos: usize = 0;
    assert(v@.skip(0) =~= v@);
    assert(keys_view(out@) =~= Seq::<(bool, Seq<char>)>::empty());
    loop
        invariant
            len == v.len(),
            v@ == s@,
            pos <= len,
            keys_view(out@) + keys_of_parts(version_parts(v@.skip(pos as int))) == version_key(
                v@,
            ),
        decreases len - pos,
    {
        let mut k: usize = pos;
        while k < len && v[k] != '.'
            invariant
                len == v.len(),
                pos <= k <= len,
                forall|i: int| pos <= i < k ==> v@[i] != '.',
            decreases len - k,
        {
            k = k + 1;
        }
        proof {
            lemma_parts_step(v@, pos as int, k as int);
        }
        let ghost before = out@;
        let key = part_key_of(&v, pos, k);
        out.push(key);
        proof {
            assert(keys_view(out@) =~= keys_view(before) + seq![key@]);
        }
        if k == len {
            return out;
        }
        proof {
            let tail = keys_of_parts(version_parts(v@.skip(k + 1)));
            assert(keys_view(out@) + tail =~= keys_view(before) + (seq![key@] + tail));
        }
        pos = k + 1;
    }
}

fn part_eq(a: &PartKey, b: &PartKey) -> (eq: bool)
    ensures
        eq == (a@ == b@),
{
    a.numeric == b.numeric && crate::text::same_chars(&a.digits, &b.digits)
}

fn part_less_exec(a: &PartKey, b: &PartKey) -> (r: bool)
    ensures
        r == part_less(a@, b@),
{
    if a.numeric && b.numeric {
        a.digits.len() < b.digits.len() || (a.digits.len() == b.digits.len() && text_less_exec(
            &a.digits,
            &b.digits,
        ))
    } else if a.numeric != b.numeric {
        a.numeric
    } else {
        text_less_exec(&a.digits, &b.digits)
    }
}

proof fn lemma_key_less_step(a: Seq<(bool, Seq<char>)>, b: Seq<(bool, Seq<char>)>, i: int)
    requires
        0 <= i < a.len(),
        i < b.len(),
        a[i] == b[i],
    ensures
        key_less(a.skip(i), b.skip(i)) == key_less(a.skip(i + 1), b.skip(i + 1)),
{
    assert(a.skip(i).drop_first() =~= a.skip(i + 1));
    assert(b.skip(i).drop_first() =~= b.skip(i + 1));
}

/// Whether the version with key `a` is older than the one with key `b`.
pub fn key_less_exec(a: &Vec<PartKey>, b: &Vec<PartKey>) -> (r: bool)
    ensures
        r == key_less(keys_view(a@), keys_view(b@)),
{
    let ghost ka = keys_view(a@);
    let ghost kb = keys_view(b@);
    let mut i: usize = 0;
    assert(ka.skip(0) =~= ka);
    assert(kb.skip(0) =~= kb);
    while i < a.len() && i < b.len() && part_eq(&a[i], &b[i])
        invariant
            i <= a.len(),
            i <= b.len(),
            ka == keys_view(a@),
            kb == keys_view(b@),
            key_less(ka.skip(i as int), kb.skip(i as int)) == key_less(ka, kb),
        decreases a.len() - i,
    {
        proof {
            assert(ka[i as int] == a@[i as int]@);
            assert(kb[i as int] == b@[i as int]@);
            lemma_key_less_step(ka, kb, i as int);
        }
        i = i + 1;
    }
    proof {
        if i < a.len() && i < b.len() {
            assert(ka.skip(i as int)[0] == a@[i as int]@);
            assert(kb.skip(i as int)[0] == b@[i as int]@);
        }
    }
    if i == a.len() {
        i < b.len()
    } else if i == b.len() {
        false
    } else {
        part_less_exec(&a[i], &b[i])
    }
}

} // verus!
