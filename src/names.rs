use vstd::prelude::*;

verus! {

/// `a` comes before `b`, or equals it, in lexicographic order of code points.
pub open spec fn name_le(a: Seq<char>, b: Seq<char>) -> bool
    decreases a.len(),
{
    if a.len() == 0 {
        true
    } else if b.len() == 0 {
        false
    } else if a[0] != b[0] {
        a[0] < b[0]
    } else {
        name_le(a.drop_first(), b.drop_first())
    }
}

pub proof fn lemma_name_le_transitive(a: Seq<char>, b: Seq<char>, c: Seq<char>)
    requires
        name_le(a, b),
        name_le(b, c),
    ensures
        name_le(a, c),
    decreases a.len(),
{
    if a.len() > 0 && b.len() > 0 && c.len() > 0 && a[0] == b[0] && b[0] == c[0] {
        lemma_name_le_transitive(a.drop_first(), b.drop_first(), c.drop_first());
    }
}

pub proof fn lemma_name_le_total(a: Seq<char>, b: Seq<char>)
    ensures
        name_le(a, b) || name_le(b, a),
    decreases a.len(),
{
    if a.len() > 0 && b.len() > 0 && a[0] == b[0] {
        lemma_name_le_total(a.drop_first(), b.drop_first());
    }
}

/// Compares two names in lexicographic order of code points.
pub fn names_in_order(a: &String, b: &String) -> (r: bool)
    ensures
        r == name_le(a@, b@),
{
    let na = a.as_str().unicode_len();
    let nb = b.as_str().unicode_len();
    let mut i: usize = 0;
    assert(a@.skip(0) =~= a@ && b@.skip(0) =~= b@);
    while i < na && i < nb
        invariant
            na == a@.len(),
            nb == b@.len(),
            i <= na,
            i <= nb,
            name_le(a@, b@) == name_le(a@.skip(i as int), b@.skip(i as int)),
        decreases na - i,
    {
        let ca = a.as_str().get_char(i);
        let cb = b.as_str().get_char(i);
        assert(a@.skip(i as int)[0] == ca && b@.skip(i as int)[0] == cb);
        if ca != cb {
            return ca < cb;
        }
        assert(a@.skip(i as int).drop_first() =~= a@.skip(i + 1));
        assert(b@.skip(i as int).drop_first() =~= b@.skip(i + 1));
        i = i + 1;
    }
    assert(a@.skip(i as int).len() == 0 || b@.skip(i as int).len() == 0);
    i == na
}

} // verus!
