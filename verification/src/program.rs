//! Stan programs: files whose name has the extension `stan`.
//!
//! The final component and the extension of a path follow the rules that
//! `std::path::Path` documents: trailing separators and `.` components
//! are normalized away, a path that ends in `..` has no file name, and a
//! file name has no extension when it holds no `.` or its only `.` is its
//! first character; otherwise the extension is what follows its last `.`.
use vstd::prelude::*;
use crate::text::chars_of;

verus! {

broadcast use vstd::string::group_string_axioms;

/// `s` without the trailing separators and `.` components of its end.
pub open spec fn trim_tail(s: Seq<char>) -> Seq<char>
    decreases s.len(),
{
    if s.len() > 1 && s.last() == '/' {
        trim_tail(s.drop_last())
    } else if s.len() > 1 && s.last() == '.' && s[s.len() - 2] == '/' {
        trim_tail(s.drop_last())
    } else {
        s
    }
}

/// Position just after the last separator of `s`, or `0`.
pub open spec fn after_last_slash(s: Seq<char>) -> int
    decreases s.len(),
{
    if s.len() == 0 {
        0
    } else if s.last() == '/' {
        s.len() as int
    } else {
        after_last_slash(s.drop_last())
    }
}

/// The final component of the path `s`, if it names a file or directory.
pub open spec fn file_name(s: Seq<char>) -> Option<Seq<char>> {
    let t = trim_tail(s);
    let name = t.skip(after_last_slash(t));
    if name.len() == 0 || name == seq!['.'] || name == seq!['.', '.'] {
        None
    } else {
        Some(name)
    }
}

/// Position of the last `'.'` of `s`, if any.
pub open spec fn last_dot_of(s: Seq<char>) -> Option<int>
    decreases s.len(),
{
    if s.len() == 0 {
        None
    } else if s.last() == '.' {
        Some(s.len() - 1)
    } else {
        last_dot_of(s.drop_last())
    }
}

/// The extension of the file name `name`.
pub open spec fn name_extension(name: Seq<char>) -> Option<Seq<char>> {
    match last_dot_of(name) {
        None => None,
        Some(i) => if i == 0 {
            None
        } else {
            Some(name.skip(i + 1))
        },
    }
}

/// The extension of the path `s`.
pub open spec fn extension(s: Seq<char>) -> Option<Seq<char>> {
    match file_name(s) {
        Some(name) => name_extension(name),
        None => None,
    }
}

/// Whether the path `s` names a Stan program.
pub open spec fn is_stan_path(s: Seq<char>) -> bool {
    extension(s) == Some("stan"@)
}

fn trim_tail_exec(v: &Vec<char>) -> (k: usize)
    ensures
        k <= v@.len(),
        v@.take(k as int) == trim_tail(v@),
{
    let mut k = v.len();
    proof {
        assert(v@.take(k as int) =~= v@);
    }
    while (k > 1 && v[k - 1] == '/') || (k > 1 && v[k - 1] == '.' && v[k - 2] == '/')
        invariant
            k <= v@.len(),
            trim_tail(v@) == trim_tail(v@.take(k as int)),
        decreases k,
    {
        proof {
            assert(v@.take(k as int).drop_last() =~= v@.take(k - 1));
        }
        k = k - 1;
    }
    k
}

fn after_last_slash_exec(v: &Vec<char>, k: usize) -> (j: usize)
    requires
        k <= v@.len(),
    ensures
        j as int == after_last_slash(v@.take(k as int)),
        j <= k,
{
    let mut j = k;
    proof {
        assert(v@.take(k as int) =~= v@.take(j as int));
    }
    while j > 0 && v[j - 1] != '/'
        invariant
            j <= k <= v@.len(),
            after_last_slash(v@.take(k as int)) == after_last_slash(v@.take(j as int)),
        decreases j,
    {
        proof {
            assert(v@.take(j as int).drop_last() =~= v@.take(j - 1));
        }
        j = j - 1;
    }
    j
}

/// Whether the path `path` names a Stan program: its final component has
/// the extension `stan`.
pub fn has_stan_extension(path: &str) -> (b: bool)
    ensures
        b == is_stan_path(path@),
{
    proof {
        reveal_strlit("stan");
    }
    let v = chars_of(path);
    let k = trim_tail_exec(&v);
    let j = after_last_slash_exec(&v, k);
    let ghost t = v@.take(k as int);
    let ghost name = t.skip(j as int);
    assert(name =~= v@.subrange(j as int, k as int));
    if k == j || (k - j == 1 && v[j] == '.') || (k - j == 2 && v[j] == '.' && v[j + 1] == '.') {
        proof {
            if k == j + 1 {
                assert(name =~= seq!['.']);
            }
            if k == j + 2 {
                assert(name =~= seq!['.', '.']);
            }
        }
        return false;
    }
    proof {
        if name == seq!['.'] {
            assert(name[0] == v@[j as int]);
        }
        if name == seq!['.', '.'] {
            assert(name[0] == v@[j as int]);
            assert(name[1] == v@[j + 1]);
        }
    }
    let mut d = k;
    while d > j && v[d - 1] != '.'
        invariant
            j <= d <= k <= v@.len(),
            name == v@.subrange(j as int, k as int),
            last_dot_of(name) == last_dot_of(v@.subrange(j as int, d as int)),
        decreases d,
    {
        proof {
            assert(v@.subrange(j as int, d as int).drop_last() =~= v@.subrange(j as int, d - 1));
        }
        d = d - 1;
    }
    if d == j || d == j + 1 {
        return false;
    }
    let ext_ok = k - d == 4 && v[d] == 's' && v[d + 1] == 't' && v[d + 2] == 'a' && v[d + 3] == 'n';
    proof {
        let i = d - 1 - j;
        assert(last_dot_of(name) == Some(i));
        let e = name.skip(i + 1);
        assert(e =~= v@.subrange(d as int, k as int));
        if ext_ok {
            assert(e =~= "stan"@);
        } else if e == "stan"@ {
            assert(e[0] == v@[d as int]);
            assert(e[1] == v@[d + 1]);
            assert(e[2] == v@[d + 2]);
            assert(e[3] == v@[d + 3]);
        }
    }
    ext_ok
}

proof fn lemma_last_dot_of(s: Seq<char>)
    ensures
        last_dot_of(s) matches Some(i) ==> 0 <= i < s.len() && s[i] == '.',
    decreases s.len(),
{
    if s.len() > 0 && s.last() != '.' {
        lemma_last_dot_of(s.drop_last());
    }
}

proof fn lemma_after_slash(p: Seq<char>, q: Seq<char>)
    requires
        p.len() > 0,
        p.last() == '/',
        forall|k: int| 0 <= k < q.len() ==> q[k] != '/',
    ensures
        after_last_slash(p + q) == p.len(),
    decreases q.len(),
{
    if q.len() == 0 {
        assert(p + q =~= p);
    } else {
        assert((p + q).drop_last() =~= p + q.drop_last());
        lemma_after_slash(p, q.drop_last());
    }
}

proof fn lemma_after_no_slash(q: Seq<char>)
    requires
        forall|k: int| 0 <= k < q.len() ==> q[k] != '/',
    ensures
        after_last_slash(q) == 0,
    decreases q.len(),
{
    if q.len() > 0 {
        lemma_after_no_slash(q.drop_last());
    }
}

proof fn lemma_stan_name(stem: Seq<char>)
    requires
        stem.len() > 0,
    ensures
        name_extension(stem + ".stan"@) == Some("stan"@),
{
    reveal_strlit(".stan");
    reveal_strlit("stan");
    let n = stem + ".stan"@;
    let n4 = stem + seq!['.', 's', 't', 'a'];
    let n3 = stem + seq!['.', 's', 't'];
    let n2 = stem + seq!['.', 's'];
    let n1 = stem + seq!['.'];
    assert(n.drop_last() =~= n4);
    assert(n4.drop_last() =~= n3);
    assert(n3.drop_last() =~= n2);
    assert(n2.drop_last() =~= n1);
    assert(last_dot_of(n1) == Some(stem.len() as int));
    assert(n2.last() == 's');
    assert(last_dot_of(n2) == last_dot_of(n1));
    assert(n3.last() == 't');
    assert(last_dot_of(n3) == last_dot_of(n2));
    assert(n4.last() == 'a');
    assert(last_dot_of(n4) == last_dot_of(n3));
    assert(n.last() == 'n');
    assert(last_dot_of(n) == last_dot_of(n4));
    assert(n.skip(stem.len() as int + 1) =~= "stan"@);
}

/// A file whose name is a non-empty stem without separators followed by
/// `.stan`, alone or in a directory, names a Stan program.
pub proof fn law_stan_file_is_program(dir: Seq<char>, stem: Seq<char>)
    requires
        stem.len() > 0,
        forall|k: int| 0 <= k < stem.len() ==> stem[k] != '/',
    ensures
        is_stan_path(stem + ".stan"@),
        is_stan_path(dir + seq!['/'] + stem + ".stan"@),
{
    reveal_strlit(".stan");
    let n = stem + ".stan"@;
    assert forall|k: int| 0 <= k < n.len() implies n[k] != '/' by {
        if k >= stem.len() {
            assert(n[k] == ".stan"@[k - stem.len()]);
        }
    }
    lemma_stan_name(stem);
    assert(n.last() == 'n');
    assert(trim_tail(n) == n);
    lemma_after_no_slash(n);
    assert(n.skip(0) =~= n);
    assert(n != seq!['.']);
    assert(n != seq!['.', '.']) by {
        assert(n.len() >= 5);
    }
    let p = dir + seq!['/'];
    let s2 = p + n;
    assert(dir + seq!['/'] + stem + ".stan"@ =~= s2);
    assert(s2.last() == 'n');
    assert(trim_tail(s2) == s2);
    lemma_after_slash(p, n);
    assert(s2.skip(p.len() as int) =~= n);
}

/// What names a Stan program ends, once trailing separators and `.`
/// components are set aside, with `.stan` after a non-empty name.
pub proof fn law_program_ends_in_stan(s: Seq<char>)
    requires
        is_stan_path(s),
    ensures
        trim_tail(s).len() >= 6,
        trim_tail(s).skip(trim_tail(s).len() - 5) == ".stan"@,
{
    reveal_strlit(".stan");
    reveal_strlit("stan");
    let t = trim_tail(s);
    let k = after_last_slash(t);
    let name = t.skip(k);
    lemma_after_range(t);
    let i = last_dot_of(name)->Some_0;
    lemma_last_dot_of(name);
    assert(name.skip(i + 1) == "stan"@);
    assert(name.len() == i + 5);
    assert(i >= 1);
    assert(t.skip(t.len() - 5) =~= name.skip(i));
    assert(name.skip(i) =~= seq!['.'] + name.skip(i + 1));
}

proof fn lemma_after_range(s: Seq<char>)
    ensures
        0 <= after_last_slash(s) <= s.len(),
    decreases s.len(),
{
    if s.len() > 0 && s.last() != '/' {
        lemma_after_range(s.drop_last());
    }
}

} // verus!
