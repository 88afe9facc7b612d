use vstd::prelude::*;

verus! {

/// The order of `String`s: lexicographic by character. It is the order of their UTF-8 bytes,
/// since UTF-8 keeps the order of code points and no encoding is a prefix of another.
pub open spec fn text_lt(a: Seq<char>, b: Seq<char>) -> bool
    decreases a.len(),
{
    if a.len() == 0 {
        b.len() > 0
    } else if b.len() == 0 {
        false
    } else if a[0] != b[0] {
        (a[0] as int) < (b[0] as int)
    } else {
        text_lt(a.drop_first(), b.drop_first())
    }
}

/// No text is before itself.
pub proof fn lemma_text_lt_irreflexive(a: Seq<char>)
    ensures
        !text_lt(a, a),
    decreases a.len(),
{
    if a.len() > 0 {
        lemma_text_lt_irreflexive(a.drop_first());
    }
}

/// Of two texts, one is before the other.
pub proof fn lemma_text_lt_asymmetric(a: Seq<char>, b: Seq<char>)
    requires
        text_lt(a, b),
    ensures
        !text_lt(b, a),
    decreases a.len(),
{
    if a.len() > 0 && b.len() > 0 && a[0] == b[0] {
        lemma_text_lt_asymmetric(a.drop_first(), b.drop_first());
    }
}

/// Two different texts are ordered one way or the other.
pub proof fn lemma_text_lt_total(a: Seq<char>, b: Seq<char>)
    requires
        a != b,
    ensures
        text_lt(a, b) || text_lt(b, a),
    decreases a.len(),
{
    if a.len() == 0 {
        assert(b.len() > 0) by {
            if b.len() == 0 {
                assert(a =~= b);
            }
        }
    } else if b.len() == 0 {
    } else if a[0] != b[0] {
        assert((a[0] as int) != (b[0] as int));
    } else {
        if a.drop_first() == b.drop_first() {
            assert(a =~= seq![a[0]] + a.drop_first());
            assert(b =~= seq![b[0]] + b.drop_first());
        }
        lemma_text_lt_total(a.drop_first(), b.drop_first());
    }
}

/// The order is transitive.
pub proof fn lemma_text_lt_transitive(a: Seq<char>, b: Seq<char>, c: Seq<char>)
    requires
        text_lt(a, b),
        text_lt(b, c),
    ensures
        text_lt(a, c),
    decreases a.len(),
{
    if a.len() > 0 && b.len() > 0 && c.len() > 0 && a[0] == b[0] && b[0] == c[0] {
        lemma_text_lt_transitive(a.drop_first(), b.drop_first(), c.drop_first());
    }
}

/// The keys of an ordered map after inserting `x`: unchanged where `x` is there, else `x` put
/// before the first key that comes after it.
pub open spec fn sorted_insert(s: Seq<Seq<char>>, x: Seq<char>) -> Seq<Seq<char>>
    decreases s.len(),
{
    if s.len() == 0 {
        seq![x]
    } else if s[0] == x {
        s
    } else if text_lt(x, s[0]) {
        seq![x] + s
    } else {
        seq![s[0]] + sorted_insert(s.drop_first(), x)
    }
}

/// The keys after inserting each name of `names` in turn.
pub open spec fn insert_all(s: Seq<Seq<char>>, names: Seq<Seq<char>>) -> Seq<Seq<char>>
    decreases names.len(),
{
    if names.len() == 0 {
        s
    } else {
        sorted_insert(insert_all(s, names.drop_last()), names.last())
    }
}

/// Whether the keys are in strictly increasing order.
pub open spec fn strictly_sorted(s: Seq<Seq<char>>) -> bool {
    forall|i: int, j: int| 0 <= i < j < s.len() ==> text_lt(#[trigger] s[i], #[trigger] s[j])
}

/// Inserting adds `x` and keeps every key.
pub proof fn lemma_sorted_insert_contains(s: Seq<Seq<char>>, x: Seq<char>, y: Seq<char>)
    ensures
        sorted_insert(s, x).contains(y) <==> (s.contains(y) || y == x),
    decreases s.len(),
{
    if s.len() == 0 {
        assert(sorted_insert(s, x)[0] == x);
    } else if s[0] == x {
    } else if text_lt(x, s[0]) {
        let r = seq![x] + s;
        if s.contains(y) {
            let k = choose|k: int| 0 <= k < s.len() && s[k] == y;
            assert(r[k + 1] == y);
        }
        if r.contains(y) {
            let k = choose|k: int| 0 <= k < r.len() && r[k] == y;
            if k > 0 {
                assert(s[k - 1] == y);
            }
        }
        assert(r[0] == x);
    } else {
        let t = s.drop_first();
        lemma_sorted_insert_contains(t, x, y);
        let rest = sorted_insert(t, x);
        let r = seq![s[0]] + rest;
        if s.contains(y) {
            let k = choose|k: int| 0 <= k < s.len() && s[k] == y;
            if k == 0 {
                assert(r[0] == y);
            } else {
                assert(t[k - 1] == y);
                let m = choose|m: int| 0 <= m < rest.len() && rest[m] == y;
                assert(r[m + 1] == y);
            }
        }
        if y == x {
            let m = choose|m: int| 0 <= m < rest.len() && rest[m] == y;
            assert(r[m + 1] == y);
        }
        if r.contains(y) {
            let k = choose|k: int| 0 <= k < r.len() && r[k] == y;
            if k == 0 {
                assert(s[0] == y);
            } else {
                assert(rest[k - 1] == y);
                if t.contains(y) {
                    let m = choose|m: int| 0 <= m < t.len() && t[m] == y;
                    assert(s[m + 1] == y);
                }
            }
        }
    }
}

/// Inserting into strictly increasing keys keeps them strictly increasing.
pub proof fn lemma_sorted_insert_sorted(s: Seq<Seq<char>>, x: Seq<char>)
    requires
        strictly_sorted(s),
    ensures
        strictly_sorted(sorted_insert(s, x)),
    decreases s.len(),
{
    if s.len() == 0 {
    } else if s[0] == x {
    } else if text_lt(x, s[0]) {
        let r = seq![x] + s;
        assert forall|i: int, j: int| 0 <= i < j < r.len() implies text_lt(#[trigger] r[i], #[trigger] r[j]) by {
            if i == 0 {
                if j > 1 {
                    assert(text_lt(s[0], s[j - 1]));
                    lemma_text_lt_transitive(x, s[0], s[j - 1]);
                }
            } else {
                assert(r[i] == s[i - 1] && r[j] == s[j - 1]);
            }
        }
    } else {
        let t = s.drop_first();
        assert(strictly_sorted(t)) by {
            assert forall|i: int, j: int| 0 <= i < j < t.len() implies text_lt(#[trigger] t[i], #[trigger] t[j]) by {
                assert(t[i] == s[i + 1] && t[j] == s[j + 1]);
            }
        }
        lemma_sorted_insert_sorted(t, x);
        let rest = sorted_insert(t, x);
        let r = seq![s[0]] + rest;
        assert forall|i: int, j: int| 0 <= i < j < r.len() implies text_lt(#[trigger] r[i], #[trigger] r[j]) by {
            if i == 0 {
                let y = rest[j - 1];
                assert(rest.contains(y));
                lemma_sorted_insert_contains(t, x, y);
                if y == x {
                    lemma_text_lt_total(s[0], x);
                } else {
                    let m = choose|m: int| 0 <= m < t.len() && t[m] == y;
                    assert(t[m] == s[m + 1]);
                }
            } else {
                assert(r[i] == rest[i - 1] && r[j] == rest[j - 1]);
            }
        }
    }
}

/// Inserting several names keeps every key and adds each name.
pub proof fn lemma_insert_all_contains(s: Seq<Seq<char>>, names: Seq<Seq<char>>, y: Seq<char>)
    ensures
        insert_all(s, names).contains(y) <==> (s.contains(y) || names.contains(y)),
    decreases names.len(),
{
    if names.len() > 0 {
        let init = names.drop_last();
        lemma_insert_all_contains(s, init, y);
        lemma_sorted_insert_contains(insert_all(s, init), names.last(), y);
        if init.contains(y) {
            let k = choose|k: int| 0 <= k < init.len() && init[k] == y;
            assert(names[k] == y);
        }
        if names.contains(y) {
            let k = choose|k: int| 0 <= k < names.len() && names[k] == y;
            if k < names.len() - 1 {
                assert(init[k] == y);
            }
        }
    }
}

/// Inserting several names into strictly increasing keys keeps them strictly increasing.
pub proof fn lemma_insert_all_sorted(s: Seq<Seq<char>>, names: Seq<Seq<char>>)
    requires
        strictly_sorted(s),
    ensures
        strictly_sorted(insert_all(s, names)),
    decreases names.len(),
{
    if names.len() > 0 {
        lemma_insert_all_sorted(s, names.drop_last());
        lemma_sorted_insert_sorted(insert_all(s, names.drop_last()), names.last());
    }
}

/// The texts of a sequence of strings.
pub open spec fn texts(v: Seq<String>) -> Seq<Seq<char>> {
    v.map_values(|s: String| s@)
}

/// Whether `a` comes before `b`, as `text_lt` states.
pub fn text_less(a: &String, b: &String) -> (r: bool)
    ensures
        r == text_lt(a@, b@),
{
    let x = a.as_str();
    let y = b.as_str();
    let xl = x.unicode_len();
    let yl = y.unicode_len();
    let mut i: usize = 0;
    assert(a@.skip(0) =~= a@ && b@.skip(0) =~= b@);
    while i < xl && i < yl
        invariant
            x@ == a@,
            y@ == b@,
            xl == a@.len(),
            yl == b@.len(),
            i <= xl,
            i <= yl,
            text_lt(a@, b@) == text_lt(a@.skip(i as int), b@.skip(i as int)),
        decreases xl - i,
    {
        let c = x.get_char(i);
        let d = y.get_char(i);
        let ghost u = a@.skip(i as int);
        let ghost v = b@.skip(i as int);
        assert(u[0] == c && v[0] == d);
        if c != d {
            return c < d;
        }
        assert(u.drop_first() =~= a@.skip(i + 1));
        assert(v.drop_first() =~= b@.skip(i + 1));
        i = i + 1;
    }
    assert(a@.skip(i as int).len() == xl - i);
    i == xl && i < yl
}

/// Inserts a name into keys held in a vector, as `sorted_insert` states.
pub fn insert_name(keys: &mut Vec<String>, x: String)
    ensures
        texts(final(keys)@) == sorted_insert(texts(old(keys)@), x@),
{
    let ghost s = texts(keys@);
    let len = keys.len();
    let mut i: usize = 0;
    proof {
        assert(s.subrange(0, 0) + s.skip(0) =~= s);
    }
    while i < len
        invariant
            len == keys@.len(),
            s == texts(keys@),
            keys@ == old(keys)@,
            i <= len,
            sorted_insert(s, x@) == s.subrange(0, i as int) + sorted_insert(s.skip(i as int), x@),
        ensures
            i < len ==> (s[i as int] == x@ || text_lt(x@, s[i as int])),
        decreases len - i,
    {
        let here = keys[i].eq(&x);
        if here || text_less(&x, &keys[i]) {
            break;
        }
        proof {
            let t = s.skip(i as int);
            assert(t[0] == s[i as int]);
            assert(t.drop_first() =~= s.skip(i + 1));
            assert(s.subrange(0, i + 1) =~= s.subrange(0, i as int) + seq![t[0]]);
            assert(sorted_insert(t, x@) == seq![t[0]] + sorted_insert(s.skip(i + 1), x@));
            assert(s.subrange(0, i as int) + (seq![t[0]] + sorted_insert(s.skip(i + 1), x@))
                =~= s.subrange(0, i + 1) + sorted_insert(s.skip(i + 1), x@));
        }
        i = i + 1;
    }
    if i < len && keys[i].eq(&x) {
        proof {
            let t = s.skip(i as int);
            assert(t[0] == s[i as int]);
            assert(s.subrange(0, i as int) + t =~= s);
        }
        return;
    }
    proof {
        let t = s.skip(i as int);
        if i < len {
            assert(t[0] == s[i as int]);
        } else {
            assert(t =~= Seq::<Seq<char>>::empty());
        }
    }
    keys.insert(i, x);
    proof {
        assert(texts(keys@) =~= s.subrange(0, i as int) + (seq![x@] + s.skip(i as int)));
    }
}

} // verus!
