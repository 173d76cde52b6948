use vstd::prelude::*;

use crate::version::{
    key_less, key_less_exec, keys_view, lemma_key_asymmetric, lemma_key_irreflexive,
    lemma_key_total, lemma_key_transitive, older, version_key, version_key_of,
};
use crate::text::{
    chars_of, contains_text, has_prefix, last_occurrence, lines, lines_of, occurs_at,
    str_contains, str_starts_with, trim, trimmed, views,
};

verus! {

/// A line of `ldconfig -p` that names a versioned jsoncpp library.
pub struct LdconfigMatch {
    /// The line, trimmed.
    pub line: String,
    /// What follows the line's last `=> `, trimmed: the library's path.
    pub path: Option<String>,
}

impl View for LdconfigMatch {
    type V = (Seq<char>, Option<Seq<char>>);

    open spec fn view(&self) -> (Seq<char>, Option<Seq<char>>) {
        (
            self.line@,
            match self.path {
                Some(p) => Some(p@),
                None => None,
            },
        )
    }
}

pub open spec fn library_prefix() -> Seq<char> {
    "libjsoncpp.so."@
}

/// The position of the last `=> ` in `l`, if any.
pub open spec fn last_arrow(l: Seq<char>) -> Option<int> {
    if exists|i: int| occurs_at(l, "=> "@, i) {
        Some(choose|i: int| occurs_at(l, "=> "@, i) && forall|j: int| i < j ==> !occurs_at(l, "=> "@, j))
    } else {
        None
    }
}

/// What an `ldconfig -p` line says of a jsoncpp library: the trimmed line, and the trimmed text
/// after its last `=> `.
pub open spec fn match_of(l: Seq<char>) -> (Seq<char>, Option<Seq<char>>) {
    (
        trimmed(l),
        match last_arrow(l) {
            Some(i) => Some(trimmed(l.skip(i + "=> "@.len()))),
            None => None,
        },
    )
}

/// The lines among `ls` that name `libjsoncpp.so.`, read by `match_of`, in order.
pub open spec fn matches_in(ls: Seq<Seq<char>>) -> Seq<(Seq<char>, Option<Seq<char>>)>
    decreases ls.len(),
{
    if ls.len() == 0 {
        seq![]
    } else if contains_text(ls.last(), library_prefix()) {
        matches_in(ls.drop_last()).push(match_of(ls.last()))
    } else {
        matches_in(ls.drop_last())
    }
}

/// `a` comes before `b` in the order of `String`'s comparison (by code point; UTF-8 keeps that
/// order byte by byte).
pub open spec fn text_less(a: Seq<char>, b: Seq<char>) -> bool
    decreases a.len(),
{
    if a.len() == 0 {
        b.len() > 0
    } else if b.len() == 0 {
        false
    } else if a[0] != b[0] {
        (a[0] as u32) < (b[0] as u32)
    } else {
        text_less(a.drop_first(), b.drop_first())
    }
}

/// The version `v` is served by the file of `target`: it is `target`, or `target` followed by a
/// dot and more.
pub open spec fn serves(v: Seq<char>, target: Seq<char>) -> bool {
    has_prefix(v, target) && (v.len() == target.len() || v[target.len() as int] == '.')
}

/// The compatibility versions for which a link must be made when `v` is installed, in order.
pub open spec fn link_targets(v: Seq<char>) -> Seq<Seq<char>> {
    (if serves(v, "24"@) {
        seq![]
    } else {
        seq!["24"@]
    }) + (if serves(v, "25"@) {
        seq![]
    } else {
        seq!["25"@]
    }) + (if serves(v, "26"@) {
        seq![]
    } else {
        seq!["26"@]
    })
}

/// Every compatibility version (24, 25, 26) ends up available: either the installed version `v`
/// already is it, or a link is made for it; and no link is made for what `v` already is.
pub proof fn lemma_compat_versions_covered(v: Seq<char>)
    ensures
        forall|t: Seq<char>|
            (t == "24"@ || t == "25"@ || t == "26"@) ==> (serves(v, t) <==> !link_targets(
                v,
            ).contains(t)),
{
    let l = link_targets(v);
    assert forall|t: Seq<char>| (t == "24"@ || t == "25"@ || t == "26"@) implies (serves(v, t)
        <==> !l.contains(t)) by {
        if serves(v, t) {
            if l.contains(t) {
                let k: int = choose|k: int| 0 <= k < l.len() && l[k] == t;
                assert(serves(v, l[k]));
            }
        } else {
            if t == "24"@ {
                assert(l[0] == t);
            } else if t == "25"@ {
                let k = if serves(v, "24"@) { 0int } else { 1int };
                assert(l[k] == t);
            } else {
                let k: int = (if serves(v, "24"@) { 0int } else { 1int }) + (if serves(v, "25"@) { 0int } else { 1int });
                assert(l[k] == t);
            }
        }
    }
}

pub proof fn lemma_text_less_irreflexive(a: Seq<char>)
    ensures
        !text_less(a, a),
    decreases a.len(),
{
    if a.len() > 0 {
        lemma_text_less_irreflexive(a.drop_first());
    }
}

pub proof fn lemma_text_less_asymmetric(a: Seq<char>, b: Seq<char>)
    ensures
        !(text_less(a, b) && text_less(b, a)),
    decreases a.len(),
{
    if a.len() > 0 && b.len() > 0 && a[0] == b[0] {
        lemma_text_less_asymmetric(a.drop_first(), b.drop_first());
    }
}

pub proof fn lemma_text_less_transitive(a: Seq<char>, b: Seq<char>, c: Seq<char>)
    requires
        text_less(a, b),
        text_less(b, c),
    ensures
        text_less(a, c),
    decreases a.len(),
{
    if a.len() > 0 && b.len() > 0 && c.len() > 0 && a[0] == b[0] && b[0] == c[0] {
        lemma_text_less_transitive(a.drop_first(), b.drop_first(), c.drop_first());
    }
}

pub proof fn lemma_text_less_total(a: Seq<char>, b: Seq<char>)
    ensures
        text_less(a, b) || text_less(b, a) || a == b,
    decreases a.len(),
{
    if a.len() > 0 && b.len() > 0 {
        if a[0] == b[0] {
            lemma_text_less_total(a.drop_first(), b.drop_first());
            if a.drop_first() == b.drop_first() {
                assert(a =~= seq![a[0]] + a.drop_first());
                assert(b =~= seq![b[0]] + b.drop_first());
            }
        } else {
            vstd::utf8::char_u32_cast(a[0], a[0] as u32);
            vstd::utf8::char_u32_cast(b[0], b[0] as u32);
        }
    } else if a.len() == 0 && b.len() == 0 {
        assert(a =~= b);
    }
}

proof fn lemma_text_less_step(a: Seq<char>, b: Seq<char>, i: int)
    requires
        0 <= i < a.len(),
        i < b.len(),
        a[i] == b[i],
    ensures
        text_less(a.skip(i), b.skip(i)) == text_less(a.skip(i + 1), b.skip(i + 1)),
{
    assert(a.skip(i).drop_first() =~= a.skip(i + 1));
    assert(b.skip(i).drop_first() =~= b.skip(i + 1));
}

/// Whether `a` comes before `b` as strings compare.
pub fn text_less_exec(a: &Vec<char>, b: &Vec<char>) -> (r: bool)
    ensures
        r == text_less(a@, b@),
{
    let mut i: usize = 0;
    assert(a@.skip(0) =~= a@);
    assert(b@.skip(0) =~= b@);
    while i < a.len() && i < b.len() && a[i] == b[i]
        invariant
            i <= a.len(),
            i <= b.len(),
            text_less(a@.skip(i as int), b@.skip(i as int)) == text_less(a@, b@),
        decreases a.len() - i,
    {
        proof {
            lemma_text_less_step(a@, b@, i as int);
        }
        i = i + 1;
    }
    if i == a.len() {
        i < b.len()
    } else if i == b.len() {
        false
    } else {
        (a[i] as u32) < (b[i] as u32)
    }
}

/// The index of the newest version among `versions`, components compared as numbers (`10` is
/// newer than `9`), and among equal versions the first; none when there are no versions.
pub fn newest_version(versions: &Vec<String>) -> (k: Option<usize>)
    ensures
        match k {
            None => versions.len() == 0,
            Some(k) => k < versions.len() && (forall|j: int|
                0 <= j < versions.len() ==> !older(versions@[k as int]@, #[trigger] versions@[j]@))
                && (forall|j: int| 0 <= j < k ==> older(#[trigger] versions@[j]@, versions@[k as int]@)),
        },
{
    if versions.len() == 0 {
        return None;
    }
    let mut best: usize = 0;
    let mut best_key = version_key_of(versions[0].as_str());
    let mut j: usize = 1;
    proof {
        lemma_key_irreflexive(version_key(versions@[0]@));
    }
    while j < versions.len()
        invariant
            1 <= j <= versions.len(),
            best < j,
            keys_view(best_key@) == version_key(versions@[best as int]@),
            forall|m: int| 0 <= m < j ==> !older(versions@[best as int]@, #[trigger] versions@[m]@),
            forall|m: int| 0 <= m < best ==> older(#[trigger] versions@[m]@, versions@[best as int]@),
        decreases versions.len() - j,
    {
        let cand = version_key_of(versions[j].as_str());
        if key_less_exec(&best_key, &cand) {
            proof {
                let b = version_key(versions@[best as int]@);
                let c = version_key(versions@[j as int]@);
                assert forall|m: int| 0 <= m < j + 1 implies !older(
                    versions@[j as int]@,
                    #[trigger] versions@[m]@,
                ) by {
                    let x = version_key(versions@[m]@);
                    if m == j {
                        lemma_key_irreflexive(c);
                    } else {
                        lemma_key_total(b, x);
                        if key_less(b, x) {
                        } else if x == b {
                            lemma_key_asymmetric(b, c);
                        } else {
                            lemma_key_transitive(x, b, c);
                            lemma_key_asymmetric(x, c);
                        }
                    }
                }
                assert forall|m: int| 0 <= m < j implies older(
                    #[trigger] versions@[m]@,
                    versions@[j as int]@,
                ) by {
                    let x = version_key(versions@[m]@);
                    lemma_key_total(b, x);
                    if x == b {
                    } else if key_less(x, b) {
                        lemma_key_transitive(x, b, c);
                    }
                }
            }
            best = j;
            best_key = cand;
        }
        j = j + 1;
    }
    Some(best)
}

/// The jsoncpp libraries that `ldconfig -p` lists in `output`.
pub fn scan_ldconfig(output: &str) -> (found: Vec<LdconfigMatch>)
    ensures
        found@.map_values(|m: LdconfigMatch| m@) == matches_in(lines(output@)),
{
    let ls = lines_of(output);
    let arrow = chars_of("=> ");
    let mut found: Vec<LdconfigMatch> = Vec::new();
    let mut i: usize = 0;
    assert(views(ls@).take(0) =~= Seq::<Seq<char>>::empty());
    while i < ls.len()
        invariant
            i <= ls.len(),
            views(ls@) == lines(output@),
            arrow@ == "=> "@,
            found@.map_values(|m: LdconfigMatch| m@) == matches_in(views(ls@).take(i as int)),
        decreases ls.len() - i,
    {
        let line = ls[i].as_str();
        let ghost pre = views(ls@).take(i as int);
        let ghost next = views(ls@).take(i + 1);
        assert(next.drop_last() =~= pre);
        assert(next.last() == line@);
        if str_contains(line, "libjsoncpp.so.") {
            let v = chars_of(line);
            let path = match last_occurrence(&v, &arrow) {
                Some(pos) => {
                    proof {
                        assert(occurs_at(line@, "=> "@, pos as int));
                        let c = choose|k: int|
                            occurs_at(line@, "=> "@, k) && forall|j: int|
                                k < j ==> !occurs_at(line@, "=> "@, j);
                        assert(c == pos);
                    }
                    assert(occurs_at(v@, arrow@, pos as int));
                    let alen: usize = arrow.len();
                    let vlen: usize = v.len();
                    assert(pos + alen <= vlen);
                    let rest = line.substring_char(pos + alen, vlen);
                    assert(rest@ =~= line@.skip(pos + arrow@.len()));
                    Some(trim(rest))
                },
                None => None,
            };
            let m = LdconfigMatch { line: trim(line), path };
            let ghost before = found@;
            found.push(m);
            assert(found@.map_values(|m: LdconfigMatch| m@) =~= before.map_values(
                |m: LdconfigMatch| m@,
            ).push(match_of(line@)));
        }
        i = i + 1;
    }
    assert(views(ls@).take(ls.len() as int) =~= views(ls@));
    found
}

/// The version of a library file named `libjsoncpp.so.<version>`.
pub fn jsoncpp_version(file_name: &str) -> (v: Option<String>)
    ensures
        match v {
            Some(s) => has_prefix(file_name@, library_prefix()) && s@ == file_name@.skip(
                library_prefix().len() as int,
            ),
            None => !has_prefix(file_name@, library_prefix()),
        },
{
    if str_starts_with(file_name, "libjsoncpp.so.") {
        let n: usize = chars_of("libjsoncpp.so.").len();
        let len: usize = chars_of(file_name).len();
        let rest = file_name.substring_char(n, len);
        assert(rest@ =~= file_name@.skip(library_prefix().len() as int));
        Some(rest.to_string())
    } else {
        None
    }
}

fn serves_exec(v: &str, target: &str) -> (b: bool)
    ensures
        b == serves(v@, target@),
{
    if !str_starts_with(v, target) {
        return false;
    }
    let vc = chars_of(v);
    let n: usize = chars_of(target).len();
    n == vc.len() || vc[n] == '.'
}

/// The compatibility versions (24, 25, 26) that need a link for the installed version `v`: all
/// but one that `v` already is.
pub fn compat_links(v: &str) -> (t: Vec<String>)
    ensures
        views(t@) == link_targets(v@),
{
    let mut t: Vec<String> = Vec::new();
    if !serves_exec(v, "24") {
        t.push(String::from_str("24"));
    }
    if !serves_exec(v, "25") {
        t.push(String::from_str("25"));
    }
    if !serves_exec(v, "26") {
        t.push(String::from_str("26"));
    }
    assert(views(t@) =~= link_targets(v@));
    t
}

/// The file name of the library of version `v`: `libjsoncpp.so.<v>`.
pub fn library_file(v: &str) -> (s: String)
    ensures
        s@ == library_prefix() + v@,
{
    String::from_str("libjsoncpp.so.").concat(v)
}

/// The line logged for a jsoncpp line of `ldconfig -p`.
pub fn match_line(m: &LdconfigMatch) -> (s: String)
    ensures
        s@ == "ldconfig match: "@ + m.line@,
{
    String::from_str("ldconfig match: ").concat(m.line.as_str())
}

/// The line logged with the library chosen as the links' target.
pub fn using_line(v: &str, dir: &str) -> (s: String)
    ensures
        s@ == "Using libjsoncpp.so."@ + v@ + " from "@ + dir@ + " for symlinks"@,
{
    String::from_str("Using libjsoncpp.so.").concat(v).concat(" from ").concat(dir).concat(
        " for symlinks",
    )
}

/// The line logged before a link is made.
pub fn creating_line(target: &str, v: &str) -> (s: String)
    ensures
        s@ == "Creating compatibility symlink libjsoncpp.so."@ + target@ + " -> libjsoncpp.so."@
            + v@,
{
    String::from_str("Creating compatibility symlink libjsoncpp.so.").concat(target).concat(
        " -> libjsoncpp.so.",
    ).concat(v)
}

/// The line logged when a link was made.
pub fn created_line(target: &str) -> (s: String)
    ensures
        s@ == "Successfully created symlink libjsoncpp.so."@ + target@,
{
    String::from_str("Successfully created symlink libjsoncpp.so.").concat(target)
}

/// The line logged when making a link failed with the exit code written as `code`.
pub fn link_failed_line(target: &str, code: &str) -> (s: String)
    ensures
        s@ == "Failed to create symlink libjsoncpp.so."@ + target@ + " (exit code: "@ + code@
            + ")"@,
{
    String::from_str("Failed to create symlink libjsoncpp.so.").concat(target).concat(
        " (exit code: ",
    ).concat(code).concat(")")
}

/// The line logged when the link command could not be run.
pub fn link_error_line(err: &str) -> (s: String)
    ensures
        s@ == "Error running pkexec for symlink: "@ + err@,
{
    String::from_str("Error running pkexec for symlink: ").concat(err)
}

/// The line logged when the link's file already exists.
pub fn exists_line(target: &str) -> (s: String)
    ensures
        s@ == "Symlink or file libjsoncpp.so."@ + target@ + " already exists."@,
{
    String::from_str("Symlink or file libjsoncpp.so.").concat(target).concat(" already exists.")
}

/// The line logged when the search for jsoncpp begins.
pub fn searching_line() -> (s: &'static str)
    ensures
        s@ == "Searching for libjsoncpp for compatibility symlinks..."@,
{
    "Searching for libjsoncpp for compatibility symlinks..."
}

/// The line logged when `ldconfig` could not be run.
pub fn no_ldconfig_line() -> (s: &'static str)
    ensures
        s@ == "Could not run ldconfig to find libraries."@,
{
    "Could not run ldconfig to find libraries."
}

/// The line logged when no jsoncpp library was found.
pub fn none_found_line() -> (s: &'static str)
    ensures
        s@ == "No libjsoncpp version found via ldconfig."@,
{
    "No libjsoncpp version found via ldconfig."
}

} // verus!
