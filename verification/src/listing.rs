//! Choosing the story files of a directory and the order they appear in.
//!
//! File names are byte strings. A story file is one whose extension is `md`;
//! stories are placed in descending byte order of their names, so that names
//! that begin with a date put the newest story first.

use vstd::multiset::Multiset;
use vstd::prelude::*;
use vstd::seq_lib::{to_multiset_build, to_multiset_insert};

verus! {

/// Byte-wise lexicographic order: `a` comes no later than `b`. A proper
/// prefix comes before the longer name.
pub open spec fn lex_le(a: Seq<u8>, b: Seq<u8>) -> bool
    decreases a.len(),
{
    if a.len() == 0 {
        true
    } else if b.len() == 0 {
        false
    } else if a[0] != b[0] {
        a[0] < b[0]
    } else {
        lex_le(a.drop_first(), b.drop_first())
    }
}

/// Whether a file name has the extension `md`: it ends in `.md` (the bytes 46,
/// 109, 100) and something stands before that dot.
pub open spec fn is_story_file_name(name: Seq<u8>) -> bool {
    &&& name.len() >= 4
    &&& name[name.len() - 3] == 46u8
    &&& name[name.len() - 2] == 109u8
    &&& name[name.len() - 1] == 100u8
}

/// The bytes of `.md`.
pub open spec fn md_suffix() -> Seq<u8> {
    seq![46u8, 109u8, 100u8]
}

/// A story file name is a non-empty stem followed by `.md`.
pub proof fn lemma_story_file_name_is_md(name: Seq<u8>)
    ensures
        is_story_file_name(name) <==> exists|stem: Seq<u8>|
            stem.len() > 0 && name == #[trigger] stem.add(md_suffix()),
{
    if is_story_file_name(name) {
        let stem = name.take(name.len() - 3);
        assert(name =~= stem.add(md_suffix()));
    }
    if exists|stem: Seq<u8>| stem.len() > 0 && name == #[trigger] stem.add(md_suffix()) {
        let stem = choose|stem: Seq<u8>|
            stem.len() > 0 && name == #[trigger] stem.add(md_suffix());
        assert(name[name.len() - 3] == 46u8);
        assert(name[name.len() - 2] == 109u8);
        assert(name[name.len() - 1] == 100u8);
    }
}

/// The byte strings of a list of names.
pub open spec fn name_views(names: Seq<Vec<u8>>) -> Seq<Seq<u8>> {
    names.map_values(|n: Vec<u8>| n@)
}

/// Each name comes no earlier than the names after it.
pub open spec fn sorted_descending(names: Seq<Seq<u8>>) -> bool {
    forall|i: int, j: int| 0 <= i < j < names.len() ==> lex_le(#[trigger] names[j], #[trigger] names[i])
}

/// The story file names among `names`, in their original order.
pub open spec fn story_file_names(names: Seq<Seq<u8>>) -> Seq<Seq<u8>> {
    names.filter(|n: Seq<u8>| is_story_file_name(n))
}

/// Every name comes no later than itself.
pub proof fn lemma_lex_le_reflexive(a: Seq<u8>)
    ensures
        lex_le(a, a),
    decreases a.len(),
{
    if a.len() > 0 {
        lemma_lex_le_reflexive(a.drop_first());
    }
}

/// Of two names, one comes no later than the other.
pub proof fn lemma_lex_le_total(a: Seq<u8>, b: Seq<u8>)
    ensures
        lex_le(a, b) || lex_le(b, a),
    decreases a.len(),
{
    if a.len() > 0 && b.len() > 0 && a[0] == b[0] {
        lemma_lex_le_total(a.drop_first(), b.drop_first());
    }
}

/// Two names that each come no later than the other are the same name.
pub proof fn lemma_lex_le_antisymmetric(a: Seq<u8>, b: Seq<u8>)
    requires
        lex_le(a, b),
        lex_le(b, a),
    ensures
        a == b,
    decreases a.len(),
{
    if a.len() == 0 {
        assert(b.len() == 0);
        assert(a =~= b);
    } else {
        lemma_lex_le_antisymmetric(a.drop_first(), b.drop_first());
        assert(a =~= seq![a[0]] + a.drop_first());
        assert(b =~= seq![b[0]] + b.drop_first());
    }
}

/// The order is transitive.
pub proof fn lemma_lex_le_transitive(a: Seq<u8>, b: Seq<u8>, c: Seq<u8>)
    requires
        lex_le(a, b),
        lex_le(b, c),
    ensures
        lex_le(a, c),
    decreases a.len(),
{
    if a.len() > 0 && b.len() > 0 && c.len() > 0 && a[0] == b[0] && b[0] == c[0] {
        lemma_lex_le_transitive(a.drop_first(), b.drop_first(), c.drop_first());
    }
}

/// `lex_le` is the ordinary byte order: `a` comes no later than `b` exactly
/// when `a` is a prefix of `b`, or at the first byte where they differ the
/// byte of `a` is the smaller `u8`.
pub proof fn lemma_lex_le_is_byte_order(a: Seq<u8>, b: Seq<u8>)
    ensures
        lex_le(a, b) <==> ((a.len() <= b.len() && a == b.take(a.len() as int)) || exists|i: int|
            0 <= i < a.len() && i < b.len() && a.take(i) == b.take(i) && #[trigger] a[i] < b[i]),
    decreases a.len(),
{
    if a.len() == 0 {
        assert(a =~= b.take(0));
    } else if b.len() == 0 {
    } else if a[0] != b[0] {
        assert(a.take(0) =~= b.take(0));
        if a[0] < b[0] {
            assert(a[0] < b[0]);
        } else {
            assert(a.len() > b.len() || a != b.take(a.len() as int) || a[0] == b.take(a.len() as int)[0]);
            assert forall|i: int| 0 <= i < a.len() && i < b.len() && a.take(i) == b.take(i) implies !(
            #[trigger] a[i] < b[i]) by {
                if i > 0 {
                    assert(a.take(i)[0] == b.take(i)[0]);
                }
            }
            if a.len() <= b.len() && a == b.take(a.len() as int) {
                assert(a[0] == b.take(a.len() as int)[0]);
            }
        }
    } else {
        let a1 = a.drop_first();
        let b1 = b.drop_first();
        lemma_lex_le_is_byte_order(a1, b1);
        if a.len() <= b.len() && a == b.take(a.len() as int) {
            assert(a1 =~= b1.take(a1.len() as int));
        }
        if a1.len() <= b1.len() && a1 == b1.take(a1.len() as int) {
            assert forall|k: int| 0 <= k < a.len() implies a[k] == b.take(a.len() as int)[k] by {
                if k > 0 {
                    assert(a[k] == a1[k - 1]);
                    assert(a1[k - 1] == b1.take(a1.len() as int)[k - 1]);
                }
            }
            assert(a =~= b.take(a.len() as int));
        }
        if exists|i: int| 0 <= i < a.len() && i < b.len() && a.take(i) == b.take(i) && #[trigger] a[i] < b[i] {
            let i = choose|i: int| 0 <= i < a.len() && i < b.len() && a.take(i) == b.take(i) && #[trigger] a[i] < b[i];
            assert(i > 0);
            assert(a1.take(i - 1) =~= a.take(i).drop_first());
            assert(b1.take(i - 1) =~= b.take(i).drop_first());
            assert(a1[i - 1] < b1[i - 1]);
        }
        if exists|i: int| 0 <= i < a1.len() && i < b1.len() && a1.take(i) == b1.take(i) && #[trigger] a1[i] < b1[i] {
            let i = choose|i: int| 0 <= i < a1.len() && i < b1.len() && a1.take(i) == b1.take(i) && #[trigger] a1[i] < b1[i];
            assert(a.take(i + 1) =~= seq![a[0]] + a1.take(i));
            assert(b.take(i + 1) =~= seq![b[0]] + b1.take(i));
            assert(a[i + 1] < b[i + 1]);
        }
    }
}

/// Whether `a` comes no later than `b` in byte order.
pub fn bytes_le(a: &Vec<u8>, b: &Vec<u8>) -> (r: bool)
    ensures
        r == lex_le(a@, b@),
{
    let mut i: usize = 0;
    assert(a@.skip(0) =~= a@);
    assert(b@.skip(0) =~= b@);
    while i < a.len() && i < b.len() && a[i] == b[i]
        invariant
            i <= a@.len(),
            i <= b@.len(),
            lex_le(a@, b@) == lex_le(a@.skip(i as int), b@.skip(i as int)),
        decreases a@.len() - i,
    {
        assert(a@.skip(i as int).drop_first() =~= a@.skip(i + 1));
        assert(b@.skip(i as int).drop_first() =~= b@.skip(i + 1));
        i = i + 1;
    }
    if i == a.len() {
        true
    } else if i == b.len() {
        false
    } else {
        a[i] < b[i]
    }
}

/// Whether a file name has the extension `md`.
pub fn is_story_file(name: &Vec<u8>) -> (r: bool)
    ensures
        r == is_story_file_name(name@),
{
    let n = name.len();
    n >= 4 && name[n - 3] == 46u8 && name[n - 2] == 109u8 && name[n - 1] == 100u8
}


/// Where `name` goes in the descending list `sorted`: every name before the
/// place comes after `name`, every name from the place on comes no later.
fn insertion_point(sorted: &Vec<Vec<u8>>, name: &Vec<u8>) -> (p: usize)
    requires
        sorted_descending(name_views(sorted@)),
    ensures
        p <= sorted@.len(),
        forall|k: int| 0 <= k < p ==> !lex_le(#[trigger] sorted@[k]@, name@),
        forall|k: int| p <= k < sorted@.len() ==> lex_le(#[trigger] sorted@[k]@, name@),
{
    let mut p: usize = 0;
    while p < sorted.len() && !bytes_le(&sorted[p], name)
        invariant
            p <= sorted@.len(),
            forall|k: int| 0 <= k < p ==> !lex_le(#[trigger] sorted@[k]@, name@),
        decreases sorted@.len() - p,
    {
        p = p + 1;
    }
    assert forall|k: int| p <= k < sorted@.len() implies lex_le(#[trigger] sorted@[k]@, name@) by {
        if k > p {
            assert(name_views(sorted@)[k] == sorted@[k]@);
            assert(name_views(sorted@)[p as int] == sorted@[p as int]@);
            lemma_lex_le_transitive(sorted@[k]@, sorted@[p as int]@, name@);
        }
    }
    p
}

/// The story files among `names` (the names of a directory's entries), in
/// descending byte order of their names.
pub fn select_story_files(names: Vec<Vec<u8>>) -> (files: Vec<Vec<u8>>)
    ensures
        name_views(files@).to_multiset() == story_file_names(name_views(names@)).to_multiset(),
        sorted_descending(name_views(files@)),
        forall|k: int| 0 <= k < files@.len() ==> is_story_file_name(#[trigger] files@[k]@),
{
    let ghost pred = |n: Seq<u8>| is_story_file_name(n);
    let ghost all = name_views(names@);
    let mut rest = names;
    let mut out: Vec<Vec<u8>> = Vec::new();
    assert(name_views(out@).to_multiset() =~= Multiset::empty()) by {
        broadcast use vstd::seq_lib::group_to_multiset_ensures;
        assert(name_views(out@) =~= Seq::<Seq<u8>>::empty());
    }
    while rest.len() > 0
        invariant
            sorted_descending(name_views(out@)),
            forall|k: int| 0 <= k < out@.len() ==> is_story_file_name(#[trigger] out@[k]@),
            name_views(out@).to_multiset().add(name_views(rest@).filter(pred).to_multiset())
                == all.filter(pred).to_multiset(),
            pred == (|n: Seq<u8>| is_story_file_name(n)),
            all == name_views(names@),
        decreases rest@.len(),
    {
        let ghost old_rest = rest@;
        let ghost old_out = out@;
        let name = rest.pop().unwrap();
        proof {
            assert(name_views(old_rest) =~= name_views(rest@).push(name@));
            name_views(rest@).lemma_filter_push(name@, pred);
        }
        if is_story_file(&name) {
            let p = insertion_point(&out, &name);
            out.insert(p, name);
            proof {
                assert(name_views(out@) =~= name_views(old_out).insert(p as int, name@));
                to_multiset_insert(name_views(old_out), p as int, name@);
                to_multiset_build(name_views(rest@).filter(pred), name@);
                assert(name_views(out@).to_multiset().add(name_views(rest@).filter(pred).to_multiset())
                    =~= name_views(old_out).to_multiset().add(name_views(old_rest).filter(pred).to_multiset()));
                let v = name_views(out@);
                assert forall|i: int, j: int| 0 <= i < j < v.len() implies lex_le(#[trigger] v[j], #[trigger] v[i]) by {
                    let w = name_views(old_out);
                    if j < p {
                        assert(v[i] == w[i] && v[j] == w[j]);
                    } else if j == p {
                        assert(v[i] == w[i]);
                        assert(!lex_le(old_out[i]@, name@));
                        lemma_lex_le_total(old_out[i]@, name@);
                    } else if i == p {
                        assert(v[j] == w[j - 1]);
                        assert(lex_le(old_out[j - 1]@, name@));
                    } else if i < p {
                        assert(v[i] == w[i] && v[j] == w[j - 1]);
                    } else {
                        assert(v[i] == w[i - 1] && v[j] == w[j - 1]);
                    }
                }
            }
        } else {
            proof {
                assert(name_views(rest@).push(name@).filter(pred) == name_views(rest@).filter(pred));
            }
        }
    }
    proof {
        assert(name_views(rest@).filter(pred) =~= Seq::<Seq<u8>>::empty()) by {
            assert(name_views(rest@) =~= Seq::<Seq<u8>>::empty());
            Seq::<Seq<u8>>::empty().lemma_filter_len(pred);
        }
        assert(name_views(rest@).filter(pred).to_multiset() =~= Multiset::empty()) by {
            broadcast use vstd::seq_lib::group_to_multiset_ensures;
        }
        assert(name_views(out@).to_multiset().add(Multiset::empty()) =~= name_views(out@).to_multiset());
        assert(story_file_names(all) == all.filter(pred));
    }
    out
}


/// How often `x` occurs among the story file names of `names`.
proof fn lemma_story_file_count(names: Seq<Seq<u8>>, x: Seq<u8>)
    ensures
        story_file_names(names).to_multiset().count(x) == if is_story_file_name(x) {
            names.to_multiset().count(x)
        } else {
            0
        },
    decreases names.len(),
{
    broadcast use vstd::seq_lib::group_to_multiset_ensures;
    broadcast use vstd::multiset::group_multiset_axioms;

    let pred = |n: Seq<u8>| is_story_file_name(n);
    if names.len() == 0 {
        names.lemma_filter_len(pred);
        assert(story_file_names(names) =~= Seq::<Seq<u8>>::empty());
    } else {
        let init = names.drop_last();
        let last = names.last();
        lemma_story_file_count(init, x);
        assert(names =~= init.push(last));
        init.lemma_filter_push(last, pred);
    }
}

/// Two descending lists that hold the same names are the same list.
proof fn lemma_sorted_unique(s: Seq<Seq<u8>>, t: Seq<Seq<u8>>)
    requires
        sorted_descending(s),
        sorted_descending(t),
        s.to_multiset() == t.to_multiset(),
    ensures
        s == t,
    decreases s.len(),
{
    broadcast use vstd::seq_lib::group_to_multiset_ensures;
    broadcast use vstd::multiset::group_multiset_axioms;

    vstd::seq_lib::to_multiset_len(s);
    vstd::seq_lib::to_multiset_len(t);
    assert(s.len() == t.len());
    if s.len() > 0 {
        assert(t.to_multiset().count(s[0]) > 0);
        assert(s.to_multiset().count(t[0]) > 0);
        let k = choose|k: int| 0 <= k < t.len() && t[k] == s[0];
        let m = choose|m: int| 0 <= m < s.len() && s[m] == t[0];
        if k > 0 {
            assert(lex_le(t[k], t[0]));
        } else {
            lemma_lex_le_reflexive(t[0]);
        }
        if m > 0 {
            assert(lex_le(s[m], s[0]));
        } else {
            lemma_lex_le_reflexive(s[0]);
        }
        lemma_lex_le_antisymmetric(s[0], t[0]);
        assert(s.remove(0) =~= s.drop_first());
        assert(t.remove(0) =~= t.drop_first());
        assert(s.drop_first().to_multiset() == t.drop_first().to_multiset());
        assert(sorted_descending(s.drop_first())) by {
            assert forall|i: int, j: int| 0 <= i < j < s.drop_first().len() implies lex_le(
                #[trigger] s.drop_first()[j],
                #[trigger] s.drop_first()[i],
            ) by {
                assert(s.drop_first()[j] == s[j + 1] && s.drop_first()[i] == s[i + 1]);
            }
        }
        assert(sorted_descending(t.drop_first())) by {
            assert forall|i: int, j: int| 0 <= i < j < t.drop_first().len() implies lex_le(
                #[trigger] t.drop_first()[j],
                #[trigger] t.drop_first()[i],
            ) by {
                assert(t.drop_first()[j] == t[j + 1] && t.drop_first()[i] == t[i + 1]);
            }
        }
        lemma_sorted_unique(s.drop_first(), t.drop_first());
        assert(s =~= seq![s[0]] + s.drop_first());
        assert(t =~= seq![t[0]] + t.drop_first());
    }
}

/// The story list depends only on which names the directory holds, not on the
/// order in which they were listed: two listings of the same names give the
/// same story files in the same order.
pub proof fn lemma_selection_ignores_listing_order(
    names1: Seq<Seq<u8>>,
    names2: Seq<Seq<u8>>,
    files1: Seq<Seq<u8>>,
    files2: Seq<Seq<u8>>,
)
    requires
        names1.to_multiset() == names2.to_multiset(),
        files1.to_multiset() == story_file_names(names1).to_multiset(),
        sorted_descending(files1),
        files2.to_multiset() == story_file_names(names2).to_multiset(),
        sorted_descending(files2),
    ensures
        files1 == files2,
{
    assert(story_file_names(names1).to_multiset() =~= story_file_names(names2).to_multiset()) by {
        assert forall|x: Seq<u8>| #[trigger] story_file_names(names1).to_multiset().count(x)
            == story_file_names(names2).to_multiset().count(x) by {
            lemma_story_file_count(names1, x);
            lemma_story_file_count(names2, x);
        }
    }
    lemma_sorted_unique(files1, files2);
}

} // verus!
