//! Scopes: the order among them, and the form in which a list of scopes keys the token cache.
use vstd::prelude::*;
use vstd::utf8::encode_utf8;

verus! {

/// The texts of a list of strings.
pub open spec fn texts(strings: Seq<String>) -> Seq<Seq<char>> {
    strings.map_values(|s: String| s@)
}

/// Whether `a` comes strictly before `b` in the lexicographic order of bytes.
pub open spec fn bytes_before(a: Seq<u8>, b: Seq<u8>) -> bool
    decreases a.len(),
{
    if b.len() == 0 {
        false
    } else if a.len() == 0 {
        true
    } else {
        a[0] < b[0] || (a[0] == b[0] && bytes_before(a.drop_first(), b.drop_first()))
    }
}

/// Whether the scope `a` comes strictly before the scope `b`: strings are ordered by their bytes.
pub open spec fn scope_before(a: Seq<char>, b: Seq<char>) -> bool {
    bytes_before(encode_utf8(a), encode_utf8(b))
}

/// Whether every scope of `key` comes strictly before those that follow it.
pub open spec fn ascending(key: Seq<Seq<char>>) -> bool {
    forall|i: int, j: int|
        0 <= i < j < key.len() ==> scope_before(#[trigger] key[i], #[trigger] key[j])
}

/// Whether two lists hold the same scopes, whatever their order and however often each occurs.
pub open spec fn same_scopes(a: Seq<Seq<char>>, b: Seq<Seq<char>>) -> bool {
    forall|scope: Seq<char>| #[trigger] a.contains(scope) <==> b.contains(scope)
}

/// Whether `key` is the list `scopes`, sorted and with repetitions removed.
pub open spec fn is_canonical(key: Seq<Seq<char>>, scopes: Seq<Seq<char>>) -> bool {
    ascending(key) && same_scopes(key, scopes)
}

/// The list `scopes`, sorted and with repetitions removed.
pub open spec fn canonical(scopes: Seq<Seq<char>>) -> Seq<Seq<char>> {
    choose|key: Seq<Seq<char>>| is_canonical(key, scopes)
}

proof fn lemma_bytes_before_irreflexive(a: Seq<u8>)
    ensures
        !bytes_before(a, a),
    decreases a.len(),
{
    if a.len() > 0 {
        lemma_bytes_before_irreflexive(a.drop_first());
    }
}

proof fn lemma_bytes_before_transitive(a: Seq<u8>, b: Seq<u8>, c: Seq<u8>)
    requires
        bytes_before(a, b),
        bytes_before(b, c),
    ensures
        bytes_before(a, c),
    decreases a.len(),
{
    if a.len() > 0 && a[0] == b[0] && b[0] == c[0] {
        lemma_bytes_before_transitive(a.drop_first(), b.drop_first(), c.drop_first());
    }
}

proof fn lemma_bytes_before_total(a: Seq<u8>, b: Seq<u8>)
    ensures
        bytes_before(a, b) || bytes_before(b, a) || a == b,
    decreases a.len(),
{
    if a.len() > 0 && b.len() > 0 && a[0] == b[0] {
        lemma_bytes_before_total(a.drop_first(), b.drop_first());
        if a.drop_first() == b.drop_first() {
            assert(a =~= seq![a[0]] + a.drop_first());
            assert(b =~= seq![b[0]] + b.drop_first());
        }
    } else if a.len() == 0 && b.len() == 0 {
        assert(a =~= b);
    }
}

/// The order among scopes is a strict total order.
pub proof fn law_scope_order_is_total(a: Seq<char>, b: Seq<char>, c: Seq<char>)
    ensures
        !scope_before(a, a),
        scope_before(a, b) && scope_before(b, c) ==> scope_before(a, c),
        scope_before(a, b) || scope_before(b, a) || a == b,
{
    lemma_bytes_before_irreflexive(encode_utf8(a));
    if scope_before(a, b) && scope_before(b, c) {
        lemma_bytes_before_transitive(encode_utf8(a), encode_utf8(b), encode_utf8(c));
    }
    lemma_bytes_before_total(encode_utf8(a), encode_utf8(b));
    vstd::utf8::encode_utf8_decode_utf8(a);
    vstd::utf8::encode_utf8_decode_utf8(b);
}

/// Where `i` splits an ascending list into scopes before `scope` and scopes after it, the list
/// with `scope` put in at `i` is ascending and holds `scope` besides what it held.
proof fn lemma_insert_keeps_ascending(key: Seq<Seq<char>>, i: int, scope: Seq<char>)
    requires
        ascending(key),
        0 <= i <= key.len(),
        forall|j: int| 0 <= j < i ==> scope_before(#[trigger] key[j], scope),
        i < key.len() ==> scope_before(scope, key[i]),
    ensures
        ascending(key.insert(i, scope)),
        forall|x: Seq<char>| #[trigger]
            key.insert(i, scope).contains(x) <==> key.contains(x) || x == scope,
{
    let next = key.insert(i, scope);
    assert forall|a: int, b: int| 0 <= a < b < next.len() implies scope_before(
        #[trigger] next[a],
        #[trigger] next[b],
    ) by {
        if a == i {
            assert(next[b] == key[b - 1]);
            law_scope_order_is_total(scope, key[i], key[b - 1]);
        } else if b == i {
            assert(next[a] == key[a]);
        } else {
            let a0: int = if a < i { a } else { a - 1 };
            let b0: int = if b < i { b } else { b - 1 };
            assert(next[a] == key[a0] && next[b] == key[b0]);
        }
    }
    assert forall|x: Seq<char>| #[trigger] next.contains(x) <==> key.contains(x) || x == scope by {
        assert(next[i] == scope);
        if key.contains(x) {
            let k = choose|k: int| 0 <= k < key.len() && key[k] == x;
            let k1: int = if k < i { k } else { k + 1 };
            assert(next[k1] == x);
        }
        if next.contains(x) && x != scope {
            let k = choose|k: int| 0 <= k < next.len() && next[k] == x;
            let k0: int = if k < i { k } else { k - 1 };
            assert(key[k0] == x);
        }
    }
}

/// Compares two scopes by their bytes.
fn precedes(a: &String, b: &String) -> (result: bool)
    ensures
        result == scope_before(a@, b@),
{
    let x: &[u8] = a.as_str().as_bytes();
    let y: &[u8] = b.as_str().as_bytes();
    let mut i: usize = 0;
    assert(x@.skip(0) =~= x@ && y@.skip(0) =~= y@);
    while i < x.len() && i < y.len()
        invariant
            x@ == encode_utf8(a@),
            y@ == encode_utf8(b@),
            i <= x@.len(),
            i <= y@.len(),
            scope_before(a@, b@) == bytes_before(x@.skip(i as int), y@.skip(i as int)),
        decreases x@.len() - i,
    {
        assert(x@.skip(i as int)[0] == x@[i as int] && y@.skip(i as int)[0] == y@[i as int]);
        assert(x@.skip(i as int).drop_first() =~= x@.skip(i + 1));
        assert(y@.skip(i as int).drop_first() =~= y@.skip(i + 1));
        if x[i] < y[i] {
            return true;
        }
        if x[i] > y[i] {
            return false;
        }
        i = i + 1;
    }
    i < y.len()
}

/// Puts a scope in its place in an ascending list, unless the list holds it.
fn insert_scope(key: &mut Vec<String>, scope: String)
    requires
        ascending(texts(old(key)@)),
    ensures
        ascending(texts(final(key)@)),
        forall|x: Seq<char>| #[trigger]
            texts(final(key)@).contains(x) <==> texts(old(key)@).contains(x) || x == scope@,
{
    let mut i: usize = 0;
    while i < key.len() && precedes(&key[i], &scope)
        invariant
            key@ == old(key)@,
            i <= key@.len(),
            forall|j: int| 0 <= j < i ==> scope_before(#[trigger] texts(key@)[j], scope@),
        decreases key@.len() - i,
    {
        i = i + 1;
    }
    assert(i < key@.len() ==> texts(key@)[i as int] == key@[i as int]@);
    if i < key.len() && key[i] == scope {
        return;
    }
    proof {
        if i < key@.len() {
            law_scope_order_is_total(key@[i as int]@, scope@, scope@);
        }
        lemma_insert_keeps_ascending(texts(key@), i as int, scope@);
        assert(texts(key@.insert(i as int, scope)) =~= texts(key@).insert(i as int, scope@));
    }
    key.insert(i, scope);
}

proof fn lemma_canonical_prefix(key: Seq<Seq<char>>, other: Seq<Seq<char>>, i: int)
    requires
        ascending(key),
        ascending(other),
        same_scopes(key, other),
        0 <= i < key.len(),
        i < other.len(),
        forall|j: int| 0 <= j < i ==> key[j] == other[j],
    ensures
        !scope_before(key[i], other[i]),
{
    if scope_before(key[i], other[i]) {
        assert(key.contains(key[i]));
        assert(other.contains(key[i]));
        let k = choose|k: int| 0 <= k < other.len() && other[k] == key[i];
        if k < i {
            assert(key[k] == other[k]);
            law_scope_order_is_total(key[k], key[i], key[i]);
        } else if k == i {
            law_scope_order_is_total(key[i], key[i], key[i]);
        } else {
            law_scope_order_is_total(key[i], other[i], key[i]);
        }
    }
}

proof fn lemma_canonical_is_unique_up_to(key: Seq<Seq<char>>, other: Seq<Seq<char>>, n: int)
    requires
        ascending(key),
        ascending(other),
        same_scopes(key, other),
        0 <= n <= key.len(),
        n <= other.len(),
    ensures
        forall|j: int| 0 <= j < n ==> key[j] == other[j],
    decreases n,
{
    if n > 0 {
        lemma_canonical_is_unique_up_to(key, other, n - 1);
        lemma_canonical_prefix(key, other, n - 1);
        lemma_canonical_prefix(other, key, n - 1);
        law_scope_order_is_total(key[n - 1], other[n - 1], other[n - 1]);
    }
}

proof fn lemma_canonical_is_not_longer(key: Seq<Seq<char>>, other: Seq<Seq<char>>)
    requires
        ascending(key),
        same_scopes(key, other),
        forall|j: int| 0 <= j < other.len() && j < key.len() ==> key[j] == other[j],
    ensures
        key.len() <= other.len(),
{
    if other.len() < key.len() {
        let n = other.len() as int;
        assert(key.contains(key[n]));
        assert(other.contains(key[n]));
        let k = choose|k: int| 0 <= k < other.len() && other[k] == key[n];
        assert(key[k] == key[n]);
        law_scope_order_is_total(key[k], key[n], key[n]);
    }
}

/// Two ascending lists of the same scopes are the same list.
pub proof fn law_canonical_is_unique(
    key: Seq<Seq<char>>,
    other: Seq<Seq<char>>,
    scopes: Seq<Seq<char>>,
)
    requires
        is_canonical(key, scopes),
        is_canonical(other, scopes),
    ensures
        key == other,
{
    assert(same_scopes(key, other));
    let n: int = if key.len() <= other.len() { key.len() as int } else { other.len() as int };
    lemma_canonical_is_unique_up_to(key, other, n);
    lemma_canonical_is_not_longer(key, other);
    lemma_canonical_is_not_longer(other, key);
    assert(key =~= other);
}

/// Where to put a scope in an ascending list: the number of scopes before it.
proof fn lemma_insertion_point(key: Seq<Seq<char>>, scope: Seq<char>, n: int) -> (i: int)
    requires
        ascending(key),
        0 <= n <= key.len(),
        forall|j: int| n <= j < key.len() ==> scope_before(scope, #[trigger] key[j]),
        !key.contains(scope),
    ensures
        0 <= i <= key.len(),
        forall|j: int| 0 <= j < i ==> scope_before(#[trigger] key[j], scope),
        i < key.len() ==> scope_before(scope, key[i]),
    decreases n,
{
    if n == 0 {
        0
    } else {
        assert(key.contains(key[n - 1]));
        law_scope_order_is_total(scope, key[n - 1], scope);
        if scope_before(scope, key[n - 1]) {
            lemma_insertion_point(key, scope, n - 1)
        } else {
            assert forall|j: int| 0 <= j < n implies scope_before(#[trigger] key[j], scope) by {
                law_scope_order_is_total(key[j], key[n - 1], scope);
            }
            n
        }
    }
}

proof fn lemma_canonical_exists(scopes: Seq<Seq<char>>) -> (key: Seq<Seq<char>>)
    ensures
        is_canonical(key, scopes),
    decreases scopes.len(),
{
    if scopes.len() == 0 {
        scopes
    } else {
        let scope = scopes.last();
        let rest = scopes.drop_last();
        let key = lemma_canonical_exists(rest);
        assert forall|x: Seq<char>| scopes.contains(x) <==> rest.contains(x) || x == scope by {
            assert(scopes =~= rest.push(scope));
            if rest.contains(x) {
                let k = choose|k: int| 0 <= k < rest.len() && rest[k] == x;
                assert(scopes[k] == x);
            }
            assert(scopes[scopes.len() - 1] == scope);
            if scopes.contains(x) && x != scope {
                let k = choose|k: int| 0 <= k < scopes.len() && scopes[k] == x;
                assert(rest[k] == x);
            }
        }
        if key.contains(scope) {
            key
        } else {
            let i = lemma_insertion_point(key, scope, key.len() as int);
            lemma_insert_keeps_ascending(key, i, scope);
            key.insert(i, scope)
        }
    }
}

/// Every list of scopes has a canonical form: it is ascending and holds the same scopes.
pub proof fn law_canonical_is_sorted_and_complete(scopes: Seq<Seq<char>>)
    ensures
        is_canonical(canonical(scopes), scopes),
{
    let key = lemma_canonical_exists(scopes);
}

/// The canonical form depends neither on the order of the scopes nor on repetitions.
pub proof fn law_canonical_ignores_order_and_repetition(
    a: Seq<Seq<char>>,
    b: Seq<Seq<char>>,
)
    requires
        same_scopes(a, b),
    ensures
        canonical(a) == canonical(b),
{
    law_canonical_is_sorted_and_complete(a);
    law_canonical_is_sorted_and_complete(b);
    law_canonical_is_unique(canonical(a), canonical(b), a);
}

/// Lists with different scopes have different canonical forms.
pub proof fn law_canonical_separates(a: Seq<Seq<char>>, b: Seq<Seq<char>>)
    requires
        canonical(a) == canonical(b),
    ensures
        same_scopes(a, b),
{
    law_canonical_is_sorted_and_complete(a);
    law_canonical_is_sorted_and_complete(b);
    assert forall|x: Seq<char>| #[trigger] a.contains(x) <==> b.contains(x) by {
        assert(canonical(a).contains(x) <==> a.contains(x));
        assert(canonical(b).contains(x) <==> b.contains(x));
    }
}

/// The canonical form of a canonical form is itself.
pub proof fn law_canonical_is_idempotent(scopes: Seq<Seq<char>>)
    ensures
        canonical(canonical(scopes)) == canonical(scopes),
{
    law_canonical_is_sorted_and_complete(scopes);
    law_canonical_ignores_order_and_repetition(canonical(scopes), scopes);
}

/// The scopes from position `n` on are those from `n + 1` on and the one at `n`.
proof fn lemma_one_more_scope(all: Seq<Seq<char>>, n: int)
    requires
        0 <= n < all.len(),
    ensures
        forall|x: Seq<char>| #[trigger]
            all.skip(n).contains(x) <==> all.skip(n + 1).contains(x) || x == all[n],
{
    let longer = all.skip(n);
    let shorter = all.skip(n + 1);
    assert forall|x: Seq<char>| #[trigger]
        longer.contains(x) <==> shorter.contains(x) || x == all[n] by {
        assert(longer[0] == all[n]);
        if shorter.contains(x) {
            let k = choose|k: int| 0 <= k < shorter.len() && shorter[k] == x;
            assert(longer[k + 1] == x);
        }
        if longer.contains(x) && x != all[n] {
            let k = choose|k: int| 0 <= k < longer.len() && longer[k] == x;
            assert(shorter[k - 1] == x);
        }
    }
}

/// Sorts a list of scopes and removes repetitions.
pub fn canonical_scopes(scopes: Vec<String>) -> (key: Vec<String>)
    ensures
        texts(key@) == canonical(texts(scopes@)),
{
    let ghost all = texts(scopes@);
    let mut rest = scopes;
    let mut key: Vec<String> = Vec::new();
    assert(all.skip(rest@.len() as int) =~= texts(key@));
    loop
        invariant
            texts(rest@) == all.take(rest@.len() as int),
            rest@.len() <= all.len(),
            is_canonical(texts(key@), all.skip(rest@.len() as int)),
        ensures
            is_canonical(texts(key@), all),
        decreases rest@.len(),
    {
        let ghost before = rest@;
        match rest.pop() {
            None => {
                assert(all.skip(0) =~= all);
                break;
            },
            Some(scope) => {
                let ghost n = rest@.len() as int;
                proof {
                    assert(texts(before)[n] == scope@);
                    assert(texts(rest@) =~= all.take(n)) by {
                        assert forall|j: int| 0 <= j < n implies texts(rest@)[j] == all[j] by {
                            assert(texts(before)[j] == all.take(n + 1)[j]);
                        }
                    }
                    assert(all[n] == scope@) by {
                        assert(all.take(n + 1)[n] == all[n]);
                    }
                    lemma_one_more_scope(all, n);
                }
                insert_scope(&mut key, scope);
            },
        }
    }
    proof {
        law_canonical_is_sorted_and_complete(all);
        law_canonical_is_unique(texts(key@), canonical(all), all);
    }
    key
}

/// The texts of a list of strings are those of its strings, position by position.
pub proof fn law_texts_are_those_of_the_strings(strings: Seq<String>, i: int)
    ensures
        texts(strings).len() == strings.len(),
        0 <= i < strings.len() ==> texts(strings)[i] == strings[i]@,
{
}

proof fn lemma_bytes_differ_first_at(a: Seq<u8>, b: Seq<u8>, d: int)
    requires
        0 <= d <= a.len(),
        d < b.len(),
        a.take(d) == b.take(d),
        d == a.len() || a[d] < b[d],
    ensures
        bytes_before(a, b),
    decreases d,
{
    if d > 0 {
        assert(a[0] == a.take(d)[0] && b[0] == b.take(d)[0]);
        assert(a.drop_first().take(d - 1) =~= a.take(d).drop_first());
        assert(b.drop_first().take(d - 1) =~= b.take(d).drop_first());
        lemma_bytes_differ_first_at(a.drop_first(), b.drop_first(), d - 1);
    }
}

proof fn lemma_bytes_first_difference(a: Seq<u8>, b: Seq<u8>) -> (d: int)
    requires
        bytes_before(a, b),
    ensures
        0 <= d <= a.len(),
        d < b.len(),
        a.take(d) == b.take(d),
        d == a.len() || a[d] < b[d],
    decreases a.len(),
{
    if a.len() == 0 || a[0] < b[0] {
        assert(a.take(0) =~= b.take(0));
        0
    } else {
        let d = lemma_bytes_first_difference(a.drop_first(), b.drop_first());
        assert forall|i: int| 0 <= i < d + 1 implies a[i] == b[i] by {
            if i > 0 {
                assert(a.drop_first().take(d)[i - 1] == a[i]);
                assert(b.drop_first().take(d)[i - 1] == b[i]);
            }
        }
        assert(a.take(d + 1) =~= b.take(d + 1));
        d + 1
    }
}

/// One scope comes before another exactly where their UTF-8 bytes agree up to some position, and
/// there the first has ended or has the smaller byte.
pub proof fn law_scopes_are_ordered_by_their_first_difference(a: Seq<char>, b: Seq<char>)
    ensures
        scope_before(a, b) <==> exists|d: int|
            0 <= d <= encode_utf8(a).len() && d < encode_utf8(b).len()
                && #[trigger] encode_utf8(a).take(d) == encode_utf8(b).take(d) && (d
                == encode_utf8(a).len() || encode_utf8(a)[d] < encode_utf8(b)[d]),
{
    let x = encode_utf8(a);
    let y = encode_utf8(b);
    if scope_before(a, b) {
        let d = lemma_bytes_first_difference(x, y);
        assert(x.take(d) == y.take(d));
    }
    if exists|d: int|
        0 <= d <= x.len() && d < y.len() && #[trigger] x.take(d) == y.take(d) && (d == x.len()
            || x[d] < y[d]) {
        let d = choose|d: int|
            0 <= d <= x.len() && d < y.len() && #[trigger] x.take(d) == y.take(d) && (d == x.len()
                || x[d] < y[d]);
        lemma_bytes_differ_first_at(x, y, d);
    }
}

/// The canonical form of a list holds a scope exactly where the list does, and holds each before
/// those that come after it, so that none occurs twice.
pub proof fn law_canonical_holds_each_scope_once_in_order(scopes: Seq<Seq<char>>)
    ensures
        forall|scope: Seq<char>| #[trigger]
            canonical(scopes).contains(scope) <==> scopes.contains(scope),
        forall|i: int, j: int|
            0 <= i < j < canonical(scopes).len() ==> scope_before(
                #[trigger] canonical(scopes)[i],
                #[trigger] canonical(scopes)[j],
            ) && canonical(scopes)[i] != canonical(scopes)[j],
{
    let key = canonical(scopes);
    law_canonical_is_sorted_and_complete(scopes);
    assert forall|i: int, j: int| 0 <= i < j < key.len() implies scope_before(
        #[trigger] key[i],
        #[trigger] key[j],
    ) && key[i] != key[j] by {
        law_scope_order_is_total(key[i], key[j], key[j]);
    }
}

/// The sorted list holds a scope exactly where the given one does, and each scope of it comes
/// before those that follow.
pub proof fn law_sorted_scopes_are_the_given_ones(scopes: Vec<String>, key: Vec<String>)
    requires
        call_ensures(canonical_scopes, (scopes,), key),
    ensures
        forall|scope: Seq<char>| #[trigger]
            texts(key@).contains(scope) <==> texts(scopes@).contains(scope),
        forall|i: int, j: int|
            0 <= i < j < key@.len() ==> scope_before(
                (#[trigger] key@[i])@,
                (#[trigger] key@[j])@,
            ) && key@[i]@ != key@[j]@,
{
    let given = texts(scopes@);
    let sorted = texts(key@);
    law_canonical_holds_each_scope_once_in_order(given);
    assert(sorted == canonical(given));
    assert forall|i: int, j: int| 0 <= i < j < key@.len() implies scope_before(
        (#[trigger] key@[i])@,
        (#[trigger] key@[j])@,
    ) && key@[i]@ != key@[j]@ by {
        assert(sorted[i] == key@[i]@ && sorted[j] == key@[j]@);
    }
}

/// Two lists are sorted into the same list exactly where every scope of each is one of the other.
pub proof fn law_same_scopes_are_sorted_alike(
    a: Vec<String>,
    b: Vec<String>,
    key: Vec<String>,
    other: Vec<String>,
)
    requires
        call_ensures(canonical_scopes, (a,), key),
        call_ensures(canonical_scopes, (b,), other),
    ensures
        (forall|scope: Seq<char>| #[trigger]
            texts(a@).contains(scope) <==> texts(b@).contains(scope)) <==> (key@.len()
            == other@.len() && forall|i: int|
            0 <= i < key@.len() ==> (#[trigger] key@[i])@ == other@[i]@),
{
    if forall|scope: Seq<char>| #[trigger] texts(a@).contains(scope) <==> texts(b@).contains(scope) {
        assert(same_scopes(texts(a@), texts(b@)));
        law_canonical_ignores_order_and_repetition(texts(a@), texts(b@));
        assert(texts(key@) == texts(other@));
        assert(texts(key@).len() == key@.len() && texts(other@).len() == other@.len());
        assert forall|i: int| 0 <= i < key@.len() implies (#[trigger] key@[i])@ == other@[i]@ by {
            assert(texts(key@)[i] == texts(other@)[i]);
        }
    }
    if key@.len() == other@.len() && forall|i: int|
        0 <= i < key@.len() ==> (#[trigger] key@[i])@ == other@[i]@ {
        assert(texts(key@) =~= texts(other@));
        law_canonical_separates(texts(a@), texts(b@));
        assert forall|scope: Seq<char>| #[trigger]
            texts(a@).contains(scope) <==> texts(b@).contains(scope) by {
            assert(same_scopes(texts(a@), texts(b@)));
        }
    }
}

/// Any list of scopes can be sorted.
pub proof fn law_every_list_of_scopes_is_sorted(scopes: Vec<String>)
    ensures
        call_requires(canonical_scopes, (scopes,)),
{
}

} // verus!
