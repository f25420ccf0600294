//! The order in which the working tree lists a directory's children.
use vstd::prelude::*;
use crate::archive::{lowercased, to_lowercase};
use crate::text::{bytes_eq, chars_of, lemma_utf8_injective};

verus! {

/// Characters compared one by one by their code points, a proper prefix
/// first: the order of `str`'s `<`.
pub open spec fn chars_lt(a: Seq<char>, b: Seq<char>) -> bool
    decreases a.len(),
{
    if a.len() == 0 {
        b.len() > 0
    } else if b.len() == 0 {
        false
    } else if a[0] != b[0] {
        (a[0] as u32) < (b[0] as u32)
    } else {
        chars_lt(a.drop_first(), b.drop_first())
    }
}

/// What a child is sorted by: directories first, then its lowercased name.
pub open spec fn child_key(name: Seq<char>, is_dir: bool) -> (bool, Seq<char>) {
    (!is_dir, lowercased(name))
}

/// The order of sort keys: `false` before `true`, then by name.
pub open spec fn key_lt(a: (bool, Seq<char>), b: (bool, Seq<char>)) -> bool {
    (!a.0 && b.0) || (a.0 == b.0 && chars_lt(a.1, b.1))
}

/// The key of a listed child.
pub open spec fn key_of(e: (String, bool)) -> (bool, Seq<char>) {
    child_key(e.0@, e.1)
}

/// The children the tree lists: all but a `.git` entry, in their order.
pub open spec fn listed_children(s: Seq<(String, bool)>) -> Seq<(String, bool)>
    decreases s.len(),
{
    if s.len() == 0 {
        seq![]
    } else {
        listed_children(s.drop_last()) + if s.last().0@ == ".git"@ {
            seq![]
        } else {
            seq![s.last()]
        }
    }
}

/// `w` is `listed` reordered by the positions `p` (each once), in key order,
/// children with equal keys keeping their order.
pub open spec fn stably_ordered(w: Seq<(String, bool)>, listed: Seq<(String, bool)>, p: Seq<int>) -> bool {
    &&& p.len() == w.len()
    &&& w.len() == listed.len()
    &&& forall|i: int| 0 <= i < w.len() ==> 0 <= #[trigger] p[i] < listed.len() && w[i] == listed[p[i]]
    &&& forall|i: int, j: int| 0 <= i < j < w.len() ==> p[i] != p[j]
    &&& forall|i: int, j: int|
        0 <= i < j < w.len() ==> key_lt(key_of(#[trigger] w[i]), key_of(#[trigger] w[j])) || (key_of(w[i])
            == key_of(w[j]) && p[i] < p[j])
}

proof fn lemma_chars_lt_irreflexive(a: Seq<char>)
    ensures
        !chars_lt(a, a),
    decreases a.len(),
{
    if a.len() > 0 {
        lemma_chars_lt_irreflexive(a.drop_first());
    }
}

proof fn lemma_chars_lt_transitive(a: Seq<char>, b: Seq<char>, c: Seq<char>)
    requires
        chars_lt(a, b),
        chars_lt(b, c),
    ensures
        chars_lt(a, c),
    decreases a.len(),
{
    if a.len() > 0 && b.len() > 0 && c.len() > 0 && a[0] == b[0] && b[0] == c[0] {
        lemma_chars_lt_transitive(a.drop_first(), b.drop_first(), c.drop_first());
    }
}

proof fn lemma_chars_lt_total(a: Seq<char>, b: Seq<char>)
    ensures
        a == b || chars_lt(a, b) || chars_lt(b, a),
    decreases a.len(),
{
    if a.len() > 0 && b.len() > 0 {
        if a[0] == b[0] {
            lemma_chars_lt_total(a.drop_first(), b.drop_first());
            if a.drop_first() == b.drop_first() {
                assert(a =~= seq![a[0]] + a.drop_first());
                assert(b =~= seq![b[0]] + b.drop_first());
            }
        } else {
            vstd::utf8::char_u32_cast(a[0], a[0] as u32);
            vstd::utf8::char_u32_cast(b[0], b[0] as u32);
        }
    } else if a.len() == 0 && b.len() == 0 {
        assert(a =~= b);
    }
}

proof fn lemma_key_order(a: (bool, Seq<char>), b: (bool, Seq<char>), c: (bool, Seq<char>))
    ensures
        !key_lt(a, a),
        a == b || key_lt(a, b) || key_lt(b, a),
        key_lt(a, b) && key_lt(b, c) ==> key_lt(a, c),
{
    lemma_chars_lt_irreflexive(a.1);
    lemma_chars_lt_total(a.1, b.1);
    if key_lt(a, b) && key_lt(b, c) && a.0 == b.0 && b.0 == c.0 {
        lemma_chars_lt_transitive(a.1, b.1, c.1);
    }
}

/// `chars_lt` on character slices.
fn chars_less(a: &[char], b: &[char]) -> (r: bool)
    ensures
        r == chars_lt(a@, b@),
{
    let mut i: usize = 0;
    assert(a@.skip(0) =~= a@ && b@.skip(0) =~= b@);
    while i < a.len() && i < b.len()
        invariant
            i <= a@.len(),
            i <= b@.len(),
            a@.take(i as int) == b@.take(i as int),
            chars_lt(a@, b@) == chars_lt(a@.skip(i as int), b@.skip(i as int)),
        decreases a@.len() - i,
    {
        if a[i] != b[i] {
            proof {
                assert(a@.skip(i as int)[0] == a@[i as int]);
                assert(b@.skip(i as int)[0] == b@[i as int]);
            }
            return (a[i] as u32) < (b[i] as u32);
        }
        proof {
            assert(a@.skip(i as int).drop_first() =~= a@.skip(i + 1));
            assert(b@.skip(i as int).drop_first() =~= b@.skip(i + 1));
            assert(a@.take(i + 1) =~= a@.take(i as int).push(a@[i as int]));
            assert(b@.take(i + 1) =~= b@.take(i as int).push(b@[i as int]));
        }
        i = i + 1;
    }
    proof {
        assert(a@.skip(i as int).len() == a@.len() - i);
        assert(b@.skip(i as int).len() == b@.len() - i);
    }
    i < b.len()
}

/// Whether a child is the repository's `.git` directory entry.
fn is_git(name: &str) -> (r: bool)
    ensures
        r == (name@ == ".git"@),
{
    let same = bytes_eq(name.as_bytes(), ".git".as_bytes());
    proof {
        if same {
            lemma_utf8_injective(name@, ".git"@);
        }
    }
    same
}

/// Orders one directory's children, given as (name, is directory), the way
/// the working tree lists them: `.git` left out, directories before files,
/// names compared lowercased, children that compare equal kept in the order
/// given.
pub fn order_directory_children(children: &mut Vec<(String, bool)>)
    ensures
        exists|p: Seq<int>| stably_ordered(final(children)@, listed_children(old(children)@), p),
{
    let ghost listed = listed_children(old(children)@);
    let ghost mut seen: Seq<(String, bool)> = Seq::empty();
    let ghost mut p: Seq<int> = Seq::empty();
    let mut out: Vec<(String, bool)> = Vec::new();
    let mut keys: Vec<Vec<char>> = Vec::new();
    let mut k: usize = 0;
    while k < children.len()
        invariant
            k <= children@.len(),
            children@ == old(children)@,
            seen == listed_children(children@.take(k as int)),
            keys@.len() == out@.len(),
            forall|i: int| 0 <= i < out@.len() ==> (#[trigger] keys@[i])@ == lowercased(out@[i].0@),
            stably_ordered(out@, seen, p),
        decreases children@.len() - k,
    {
        proof {
            assert(children@.take(k + 1).drop_last() =~= children@.take(k as int));
        }
        let name = children[k].0.clone();
        let is_dir = children[k].1;
        proof {
            assert(children@.take(k + 1).last() == children@[k as int]);
            assert((name, is_dir) == children@[k as int]);
        }
        if !is_git(name.as_str()) {
            let lower = chars_of(to_lowercase(name.as_str()).as_str());
            let ghost x = (name, is_dir);
            let ghost m = seen.len() as int;
            // The first child that orders after the new one.
            let mut q: usize = 0;
            while q < out.len()
                invariant
                    q <= out@.len(),
                    keys@.len() == out@.len(),
                    forall|i: int| 0 <= i < out@.len() ==> (#[trigger] keys@[i])@ == lowercased(out@[i].0@),
                    lower@ == lowercased(x.0@),
                    x.1 == is_dir,
                    forall|i: int| 0 <= i < q ==> !key_lt(child_key(x.0@, x.1), #[trigger] key_of(out@[i])),
                ensures
                    q <= out@.len(),
                    forall|i: int| 0 <= i < q ==> !key_lt(child_key(x.0@, x.1), #[trigger] key_of(out@[i])),
                    q < out@.len() ==> key_lt(child_key(x.0@, x.1), key_of(out@[q as int])),
                decreases out@.len() - q,
            {
                let later = if is_dir == out[q].1 {
                    chars_less(lower.as_slice(), keys[q].as_slice())
                } else {
                    is_dir && !out[q].1
                };
                assert(later == key_lt(child_key(x.0@, x.1), key_of(out@[q as int])));
                if later {
                    break;
                }
                q = q + 1;
            }
            let ghost w = out@;
            let ghost kw = keys@;
            let ghost old_p = p;
            out.insert(q, (name, is_dir));
            keys.insert(q, lower);
            proof {
                let kx = child_key(x.0@, x.1);
                p = old_p.insert(q as int, m);
                seen = seen.push(x);
                assert(out@ == w.insert(q as int, x));
                assert(keys@ == kw.insert(q as int, lower));
                assert forall|i: int| 0 <= i < out@.len() implies (#[trigger] keys@[i])@ == lowercased(
                    out@[i].0@,
                ) by {
                    if i < q {
                        assert(keys@[i] == kw[i] && out@[i] == w[i]);
                    } else if i == q {
                        assert(keys@[i] == lower && out@[i] == x);
                    } else {
                        assert(keys@[i] == kw[i - 1] && out@[i] == w[i - 1]);
                    }
                }
                // Every child from `q` on orders after the new one.
                assert forall|j: int| q <= j < w.len() implies key_lt(kx, #[trigger] key_of(w[j])) by {
                    if j > q {
                        lemma_key_order(kx, key_of(w[q as int]), key_of(w[j]));
                    }
                }
                assert forall|i: int| 0 <= i < out@.len() implies 0 <= #[trigger] p[i] < seen.len() && out@[i]
                    == seen[p[i]] by {
                    if i < q {
                        assert(p[i] == old_p[i]);
                    } else if i > q {
                        assert(p[i] == old_p[i - 1]);
                    }
                }
                assert forall|i: int, j: int| 0 <= i < j < out@.len() implies p[i] != p[j] by {
                    if i < q && j > q {
                        assert(p[j] == old_p[j - 1]);
                    } else if j > q && i > q {
                        assert(p[j] == old_p[j - 1]);
                        assert(p[i] == old_p[i - 1]);
                    }
                }
                assert forall|i: int, j: int| 0 <= i < j < out@.len() implies key_lt(
                    key_of(#[trigger] out@[i]),
                    key_of(#[trigger] out@[j]),
                ) || (key_of(out@[i]) == key_of(out@[j]) && p[i] < p[j]) by {
                    if j < q {
                        assert(out@[i] == w[i] && out@[j] == w[j]);
                    } else if j == q {
                        assert(out@[i] == w[i]);
                        lemma_key_order(key_of(w[i]), kx, kx);
                    } else if i == q {
                        assert(out@[j] == w[j - 1]);
                    } else if i < q {
                        assert(out@[i] == w[i] && out@[j] == w[j - 1]);
                        assert(p[j] == old_p[j - 1]);
                    } else {
                        assert(out@[i] == w[i - 1] && out@[j] == w[j - 1]);
                        assert(p[j] == old_p[j - 1]);
                        assert(p[i] == old_p[i - 1]);
                    }
                }
            }
        }
        k = k + 1;
    }
    proof {
        assert(children@.take(children@.len() as int) =~= children@);
    }
    *children = out;
}

} // verus!
