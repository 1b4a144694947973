//! Installed game versions: their jar locations and their order, newest
//! first by the numbers in their ids.
use vstd::prelude::*;
use crate::config::{minecraft_dir, path_join};
use crate::manifest::{parse_all, parse_numbers};
use crate::text::{chars_of, concat2, keep_non_empty, non_empty_pieces, split, split_chars, Separator};

verus! {

/// A version found in `.minecraft/versions` with its client jar.
#[derive(Debug, Clone)]
pub struct InstalledVersion {
    pub id: String,
    pub jar_path: Vec<String>,
}

impl View for InstalledVersion {
    type V = (Seq<char>, Seq<Seq<char>>);

    open spec fn view(&self) -> (Seq<char>, Seq<Seq<char>>) {
        (self.id@, self.jar_path.deep_view())
    }
}

impl DeepView for InstalledVersion {
    type V = (Seq<char>, Seq<Seq<char>>);

    open spec fn deep_view(&self) -> (Seq<char>, Seq<Seq<char>>) {
        self@
    }
}

/// The client jar of a version: `.minecraft/versions/<id>/<id>.jar`.
pub open spec fn version_jar_spec(id: Seq<char>) -> Seq<Seq<char>> {
    seq![".minecraft"@, "versions"@, id, id + ".jar"@]
}

/// Where the client jar of a version is.
pub fn installed_jar_path(version_id: &str) -> (r: Vec<String>)
    ensures
        r.deep_view() == version_jar_spec(version_id@),
{
    let a = path_join(&minecraft_dir(), "versions");
    let b = path_join(&a, version_id);
    let jar = concat2(version_id, ".jar");
    let r = path_join(&b, jar.as_str());
    assert(r.deep_view() =~= version_jar_spec(version_id@));
    r
}

/// The numbers of a version id: its runs of ASCII digits that fit in `u32`,
/// in order (`1.20.4` gives 1, 20, 4; `23w14a` gives 23, 14).
pub open spec fn version_numbers(id: Seq<char>) -> Seq<u32> {
    parse_all(non_empty_pieces(split(id, Separator::NonDigit)))
}

/// The numbers of a version id.
pub fn version_parts(v: &str) -> (r: Vec<u32>)
    ensures
        r@ == version_numbers(v@),
{
    let chars = chars_of(v);
    let pieces = split_chars(&chars, &Separator::NonDigit);
    let runs = keep_non_empty(pieces);
    parse_numbers(&runs)
}

/// Lexicographic comparison of number lists, as `Vec<u32>`'s `Ord` does:
/// -1, 0 or 1 for less, equal or greater; a proper prefix is less.
pub open spec fn lex_order(a: Seq<u32>, b: Seq<u32>) -> int
    decreases a.len(),
{
    if a.len() == 0 && b.len() == 0 {
        0
    } else if a.len() == 0 {
        -1
    } else if b.len() == 0 {
        1
    } else if a[0] < b[0] {
        -1
    } else if a[0] > b[0] {
        1
    } else {
        lex_order(a.drop_first(), b.drop_first())
    }
}

/// Compares two number lists lexicographically.
pub fn lex_compare(a: &Vec<u32>, b: &Vec<u32>) -> (r: i8)
    ensures
        r as int == lex_order(a@, b@),
        -1 <= r <= 1,
{
    let mut i: usize = 0;
    assert(a@.skip(0) =~= a@);
    assert(b@.skip(0) =~= b@);
    loop
        invariant
            i <= a@.len(),
            i <= b@.len(),
            lex_order(a@, b@) == lex_order(a@.skip(i as int), b@.skip(i as int)),
        decreases a@.len() - i,
    {
        let ghost sa = a@.skip(i as int);
        let ghost sb = b@.skip(i as int);
        if i == a.len() && i == b.len() {
            return 0;
        } else if i == a.len() {
            return -1;
        } else if i == b.len() {
            return 1;
        }
        assert(sa[0] == a@[i as int] && sb[0] == b@[i as int]);
        if a[i] < b[i] {
            return -1;
        } else if a[i] > b[i] {
            return 1;
        }
        assert(sa.drop_first() =~= a@.skip(i + 1));
        assert(sb.drop_first() =~= b@.skip(i + 1));
        i = i + 1;
    }
}

/// Orders two version ids by their numbers.
pub fn compare_versions(a: &str, b: &str) -> (r: std::cmp::Ordering)
    ensures
        r == std::cmp::Ordering::Less <==> lex_order(version_numbers(a@), version_numbers(b@)) == -1,
        r == std::cmp::Ordering::Equal <==> lex_order(version_numbers(a@), version_numbers(b@)) == 0,
        r == std::cmp::Ordering::Greater <==> lex_order(version_numbers(a@), version_numbers(b@)) == 1,
{
    let pa = version_parts(a);
    let pb = version_parts(b);
    let c = lex_compare(&pa, &pb);
    if c < 0 {
        std::cmp::Ordering::Less
    } else if c == 0 {
        std::cmp::Ordering::Equal
    } else {
        std::cmp::Ordering::Greater
    }
}


/// The numbers a version is ordered by.
pub open spec fn install_key(x: InstalledVersion) -> Seq<u32> {
    version_numbers(x.id@)
}

/// Where an item with numbers `k` joins a list ordered newest first: after
/// every item whose numbers are not smaller.
pub open spec fn insert_pos(s: Seq<InstalledVersion>, k: Seq<u32>) -> int
    decreases s.len(),
{
    if s.len() == 0 {
        0
    } else if lex_order(install_key(s[0]), k) < 0 {
        0
    } else {
        1 + insert_pos(s.drop_first(), k)
    }
}

/// The versions ordered newest first by their numbers; versions with equal
/// numbers keep their relative order (a stable sort, item by item).
pub open spec fn sort_newest_first(s: Seq<InstalledVersion>) -> Seq<InstalledVersion>
    decreases s.len(),
{
    if s.len() == 0 {
        s
    } else {
        let t = sort_newest_first(s.drop_last());
        t.insert(insert_pos(t, install_key(s.last())), s.last())
    }
}

proof fn lemma_insert_pos_bounds(s: Seq<InstalledVersion>, k: Seq<u32>)
    ensures
        0 <= insert_pos(s, k) <= s.len(),
    decreases s.len(),
{
    if s.len() > 0 {
        lemma_insert_pos_bounds(s.drop_first(), k);
    }
}

proof fn lemma_sort_len(s: Seq<InstalledVersion>)
    ensures
        sort_newest_first(s).len() == s.len(),
    decreases s.len(),
{
    if s.len() > 0 {
        lemma_sort_len(s.drop_last());
        lemma_insert_pos_bounds(sort_newest_first(s.drop_last()), install_key(s.last()));
    }
}

/// Orders installed versions newest first, as a stable sort by version
/// numbers, descending.
pub fn sort_installed(v: Vec<InstalledVersion>) -> (r: Vec<InstalledVersion>)
    ensures
        r@ == sort_newest_first(v@),
{
    let ghost orig = v@;
    let n = v.len();
    let mut rest = v;
    let mut out: Vec<InstalledVersion> = Vec::new();
    let mut keys: Vec<Vec<u32>> = Vec::new();
    let mut i: usize = 0;
    assert(orig.skip(0) =~= orig);
    assert(orig.take(0) =~= Seq::<InstalledVersion>::empty());
    while i < n
        invariant
            i <= n,
            n == orig.len(),
            rest@ == orig.skip(i as int),
            out@ == sort_newest_first(orig.take(i as int)),
            keys@.len() == out@.len(),
            forall|j: int| 0 <= j < keys@.len() ==> (#[trigger] keys@[j])@ == install_key(out@[j]),
        decreases n - i,
    {
        let ghost out_before = out@;
        assert(rest@[0] == orig[i as int]);
        let x = rest.remove(0);
        assert(rest@ =~= orig.skip(i + 1));
        let k = version_parts(x.id.as_str());
        let mut j: usize = 0;
        let m = out.len();
        assert(out@.skip(0) =~= out@);
        while j < m && lex_compare(&keys[j], &k) >= 0
            invariant
                j <= m,
                m == out@.len(),
                m == keys@.len(),
                out@ == out_before,
                k@ == install_key(x),
                forall|t: int| 0 <= t < keys@.len() ==> (#[trigger] keys@[t])@ == install_key(out@[t]),
                insert_pos(out@, k@) == j + insert_pos(out@.skip(j as int), k@),
            decreases m - j,
        {
            assert(out@.skip(j as int)[0] == out@[j as int]);
            assert(out@.skip(j as int).drop_first() =~= out@.skip(j + 1));
            j = j + 1;
        }
        proof {
            if j < m {
                assert(out@.skip(j as int)[0] == out@[j as int]);
            } else {
                assert(out@.skip(j as int).len() == 0);
            }
        }
        assert(insert_pos(out@, k@) == j);
        let ghost keys_before = keys@;
        out.insert(j, x);
        keys.insert(j, k);
        assert(orig.take(i + 1).drop_last() =~= orig.take(i as int));
        assert(orig.take(i + 1).last() == x);
        assert forall|t: int| 0 <= t < keys@.len() implies (#[trigger] keys@[t])@ == install_key(out@[t]) by {
            if t < j {
                assert(keys@[t] == keys_before[t]);
            } else if t > j {
                assert(keys@[t] == keys_before[t - 1]);
            }
        }
        i = i + 1;
    }
    assert(orig.take(n as int) =~= orig);
    out
}

/// The versions found on disk, given the ids of the version folders that
/// hold their client jar (`<id>/<id>.jar`), newest first.
pub fn installed_versions(ids: Vec<String>) -> (r: Vec<InstalledVersion>)
    ensures
        r@.len() == ids@.len(),
        exists|found: Seq<InstalledVersion>|
            {
                &&& found.len() == ids@.len()
                &&& (forall|j: int| 0 <= j < found.len() ==> (#[trigger] found[j])@ == (ids@[j]@, version_jar_spec(ids@[j]@)))
                &&& r@ == sort_newest_first(found)
            },
{
    let n = ids.len();
    let mut found: Vec<InstalledVersion> = Vec::new();
    for i in 0..n
        invariant
            n == ids@.len(),
            found@.len() == i,
            forall|j: int| 0 <= j < i ==> (#[trigger] found@[j])@ == (ids@[j]@, version_jar_spec(ids@[j]@)),
    {
        let id = ids[i].clone();
        let jar_path = installed_jar_path(id.as_str());
        found.push(InstalledVersion { id, jar_path });
    }
    let ghost fv = found@;
    let r = sort_installed(found);
    proof {
        lemma_sort_len(fv);
    }
    r
}


// ---------------------------------------------------------------------------
// Laws of the version order

/// Every version is equal to itself.
pub proof fn lemma_lex_order_reflexive(a: Seq<u32>)
    ensures
        lex_order(a, a) == 0,
    decreases a.len(),
{
    if a.len() > 0 {
        lemma_lex_order_reflexive(a.drop_first());
    }
}

/// Comparing the other way round gives the opposite answer, and two
/// versions compare equal only when their numbers are the same.
pub proof fn lemma_lex_order_antisymmetric(a: Seq<u32>, b: Seq<u32>)
    ensures
        lex_order(a, b) == -lex_order(b, a),
        -1 <= lex_order(a, b) <= 1,
        lex_order(a, b) == 0 <==> a == b,
    decreases a.len(),
{
    if a.len() > 0 && b.len() > 0 {
        lemma_lex_order_antisymmetric(a.drop_first(), b.drop_first());
        if a[0] == b[0] && a.drop_first() == b.drop_first() {
            assert(a =~= seq![a[0]] + a.drop_first());
            assert(b =~= seq![b[0]] + b.drop_first());
        }
    } else if a.len() == 0 && b.len() == 0 {
        assert(a =~= b);
    }
}

/// The order is transitive, and strictly so when one step is strict.
pub proof fn lemma_lex_order_transitive(a: Seq<u32>, b: Seq<u32>, c: Seq<u32>)
    requires
        lex_order(a, b) <= 0,
        lex_order(b, c) <= 0,
    ensures
        lex_order(a, c) <= 0,
        (lex_order(a, b) < 0 || lex_order(b, c) < 0) ==> lex_order(a, c) < 0,
    decreases a.len(),
{
    if a.len() > 0 && b.len() > 0 && c.len() > 0 {
        if a[0] == b[0] && b[0] == c[0] {
            lemma_lex_order_transitive(a.drop_first(), b.drop_first(), c.drop_first());
        }
    }
}

/// Versions ordered newest first: no version is older than one after it.
pub open spec fn newest_first(s: Seq<InstalledVersion>) -> bool {
    forall|i: int, j: int|
        0 <= i < j < s.len() ==> lex_order(install_key(#[trigger] s[i]), install_key(#[trigger] s[j])) >= 0
}

proof fn lemma_insert_pos_props(t: Seq<InstalledVersion>, k: Seq<u32>)
    ensures
        0 <= insert_pos(t, k) <= t.len(),
        forall|i: int| 0 <= i < insert_pos(t, k) ==> lex_order(install_key(#[trigger] t[i]), k) >= 0,
        insert_pos(t, k) < t.len() ==> lex_order(install_key(t[insert_pos(t, k)]), k) < 0,
    decreases t.len(),
{
    if t.len() > 0 && lex_order(install_key(t[0]), k) >= 0 {
        lemma_insert_pos_props(t.drop_first(), k);
        assert forall|i: int| 0 <= i < insert_pos(t, k) implies lex_order(install_key(#[trigger] t[i]), k) >= 0 by {
            if i > 0 {
                assert(t[i] == t.drop_first()[i - 1]);
            }
        }
    }
}

/// Sorting gives the versions newest first, and the same versions as before.
pub proof fn lemma_sort_newest_first(s: Seq<InstalledVersion>)
    ensures
        newest_first(sort_newest_first(s)),
        sort_newest_first(s).to_multiset() == s.to_multiset(),
        sort_newest_first(s).len() == s.len(),
    decreases s.len(),
{
    broadcast use vstd::seq_lib::to_multiset_insert, vstd::seq_lib::to_multiset_build;

    lemma_sort_len(s);
    if s.len() > 0 {
        let t = sort_newest_first(s.drop_last());
        lemma_sort_newest_first(s.drop_last());
        let x = s.last();
        let k = install_key(x);
        let p = insert_pos(t, k);
        lemma_insert_pos_props(t, k);
        let r = t.insert(p, x);
        assert(r == sort_newest_first(s));
        assert forall|i: int, j: int| 0 <= i < j < r.len() implies lex_order(
            install_key(#[trigger] r[i]),
            install_key(#[trigger] r[j]),
        ) >= 0 by {
            if j < p {
                assert(r[i] == t[i] && r[j] == t[j]);
            } else if j == p {
                assert(r[i] == t[i] && r[j] == x);
            } else if i == p {
                assert(r[i] == x && r[j] == t[j - 1]);
                assert(lex_order(install_key(t[p]), k) < 0);
                if j - 1 > p {
                    assert(lex_order(install_key(t[p]), install_key(t[j - 1])) >= 0);
                    lemma_lex_order_antisymmetric(install_key(t[p]), install_key(t[j - 1]));
                    lemma_lex_order_transitive(install_key(t[j - 1]), install_key(t[p]), k);
                }
                lemma_lex_order_antisymmetric(install_key(t[j - 1]), k);
            } else if i < p {
                assert(r[i] == t[i] && r[j] == t[j - 1]);
            } else {
                assert(r[i] == t[i - 1] && r[j] == t[j - 1]);
            }
        }
        assert(s =~= s.drop_last().push(x));
    }
}

} // verus!
