//! Names in order: lists of distinct texts, sorted character by character.
use crate::text;
use vstd::prelude::*;

verus! {

/// The texts that the strings of `v` hold.
pub open spec fn texts(v: Seq<String>) -> Seq<Seq<char>> {
    v.map_values(|s: String| s@)
}

/// Whether `a` comes before `b`: by the first character in which they differ,
/// or because `b` goes on where `a` ends.
pub open spec fn before(a: Seq<char>, b: Seq<char>) -> bool
    decreases a.len(),
{
    if b.len() == 0 {
        false
    } else if a.len() == 0 {
        true
    } else if a[0] != b[0] {
        a[0] < b[0]
    } else {
        before(a.skip(1), b.skip(1))
    }
}

/// Of two different texts one comes before the other, and only one.
pub proof fn before_is_total(a: Seq<char>, b: Seq<char>)
    ensures
        before(a, b) ==> !before(b, a) && a != b,
        a != b ==> before(a, b) || before(b, a),
        !before(a, a),
    decreases a.len(),
{
    if a.len() > 0 && b.len() > 0 && a[0] == b[0] {
        before_is_total(a.skip(1), b.skip(1));
        if a.skip(1) == b.skip(1) {
            assert(a =~= seq![a[0]] + a.skip(1));
            assert(b =~= seq![b[0]] + b.skip(1));
        }
    }
    if a.len() > 0 {
        before_is_total(a.skip(1), a.skip(1));
    }
    if a.len() == 0 && b.len() == 0 {
        assert(a =~= b);
    }
}

/// What comes before something comes before all that comes after that.
pub proof fn before_is_transitive(a: Seq<char>, b: Seq<char>, c: Seq<char>)
    requires
        before(a, b),
        before(b, c),
    ensures
        before(a, c),
    decreases a.len(),
{
    if a.len() > 0 && a[0] == b[0] && b[0] == c[0] {
        before_is_transitive(a.skip(1), b.skip(1), c.skip(1));
    }
}

/// Whether the names stand in order, each once.
pub open spec fn in_order(names: Seq<Seq<char>>) -> bool {
    forall|i: int, j: int| 0 <= i < j < names.len() ==> before(#[trigger] names[i], #[trigger] names[j])
}

/// `names` with `n` put in its place, unless it is there already.
pub open spec fn insert_name(names: Seq<Seq<char>>, n: Seq<char>) -> Seq<Seq<char>>
    decreases names.len(),
{
    if names.len() == 0 {
        seq![n]
    } else if names[0] == n {
        names
    } else if before(n, names[0]) {
        seq![n] + names
    } else {
        seq![names[0]] + insert_name(names.skip(1), n)
    }
}

/// Putting a name in keeps the order, keeps what was there, and adds nothing
/// else.
pub proof fn insert_name_keeps_order(names: Seq<Seq<char>>, n: Seq<char>)
    requires
        in_order(names),
    ensures
        in_order(insert_name(names, n)),
        forall|x: Seq<char>|
            #[trigger] insert_name(names, n).contains(x) <==> (x == n || names.contains(x)),
    decreases names.len(),
{
    let out = insert_name(names, n);
    if names.len() == 0 {
        assert(out[0] == n);
    } else if names[0] == n {
        assert(names.contains(n));
    } else if before(n, names[0]) {
        assert forall|i: int, j: int| 0 <= i < j < out.len() implies before(
            #[trigger] out[i],
            #[trigger] out[j],
        ) by {
            if i == 0 && j > 1 {
                before_is_transitive(n, names[0], names[j - 1]);
            }
        }
        assert forall|x: Seq<char>| #[trigger] out.contains(x) <==> (x == n || names.contains(x)) by {
            if names.contains(x) {
                let k = choose|k: int| 0 <= k < names.len() && names[k] == x;
                assert(out[k + 1] == x);
            }
            assert(out[0] == n);
        }
    } else {
        let rest = names.skip(1);
        before_is_total(n, names[0]);
        insert_name_keeps_order(rest, n);
        let tail = insert_name(rest, n);
        assert forall|i: int, j: int| 0 <= i < j < out.len() implies before(
            #[trigger] out[i],
            #[trigger] out[j],
        ) by {
            if i == 0 {
                assert(tail.contains(tail[j - 1]));
                if tail[j - 1] != n {
                    let k = choose|k: int| 0 <= k < rest.len() && rest[k] == tail[j - 1];
                    assert(names[k + 1] == tail[j - 1]);
                }
            }
        }
        assert forall|x: Seq<char>| #[trigger] out.contains(x) <==> (x == n || names.contains(x)) by {
            if out.contains(x) {
                let k = choose|k: int| 0 <= k < out.len() && out[k] == x;
                if k > 0 {
                    assert(tail[k - 1] == x);
                    assert(tail.contains(x));
                    if x != n {
                        let m = choose|m: int| 0 <= m < rest.len() && rest[m] == x;
                        assert(names[m + 1] == x);
                    }
                }
            }
            if names.contains(x) {
                let k = choose|k: int| 0 <= k < names.len() && names[k] == x;
                if k == 0 {
                    assert(out[0] == x);
                } else {
                    assert(rest[k - 1] == x);
                    assert(tail.contains(x));
                    let m = choose|m: int| 0 <= m < tail.len() && tail[m] == x;
                    assert(out[m + 1] == x);
                }
            }
            if x == n {
                assert(tail.contains(x));
                let m = choose|m: int| 0 <= m < tail.len() && tail[m] == x;
                assert(out[m + 1] == x);
            }
        }
    }
}

/// Where the names before position `k` all come before `n`, `n` belongs at `k`.
proof fn insert_name_at(names: Seq<Seq<char>>, n: Seq<char>, k: int)
    requires
        0 <= k <= names.len(),
        forall|j: int| 0 <= j < k ==> before(#[trigger] names[j], n),
        k < names.len() ==> !before(names[k], n),
    ensures
        insert_name(names, n) == if k < names.len() && names[k] == n {
            names
        } else {
            names.insert(k, n)
        },
    decreases names.len(),
{
    if names.len() == 0 {
        assert(names.insert(0, n) =~= seq![n]);
    } else if k == 0 {
        before_is_total(names[0], n);
        assert(names.insert(0, n) =~= seq![n] + names);
    } else {
        before_is_total(names[0], n);
        let rest = names.skip(1);
        assert forall|j: int| 0 <= j < k - 1 implies before(#[trigger] rest[j], n) by {
            assert(rest[j] == names[j + 1]);
        }
        insert_name_at(rest, n, k - 1);
        assert(names.insert(k, n) =~= seq![names[0]] + rest.insert(k - 1, n));
        assert(names =~= seq![names[0]] + rest);
    }
}

/// Whether `a` comes before `b`.
fn comes_before(a: &str, b: &str) -> (r: bool)
    ensures
        r == before(a@, b@),
{
    let x: Vec<char> = text::chars_of(a);
    let y: Vec<char> = text::chars_of(b);
    let mut i: usize = 0;
    assert(a@.skip(0) =~= a@);
    assert(b@.skip(0) =~= b@);
    while i < x.len() && i < y.len() && x[i] == y[i]
        invariant
            i <= x@.len(),
            i <= y@.len(),
            x@ == a@,
            y@ == b@,
            before(a@, b@) == before(a@.skip(i as int), b@.skip(i as int)),
        decreases x@.len() - i,
    {
        assert(a@.skip(i as int).skip(1) =~= a@.skip(i + 1));
        assert(b@.skip(i as int).skip(1) =~= b@.skip(i + 1));
        i = i + 1;
    }
    if i == y.len() {
        false
    } else if i == x.len() {
        true
    } else {
        x[i] < y[i]
    }
}

/// Puts `n` in its place among `names`, unless it is there already.
pub fn add_name(names: &mut Vec<String>, n: String)
    ensures
        texts(final(names)@) == insert_name(texts(old(names)@), n@),
{
    let ghost all = texts(names@);
    let mut k: usize = 0;
    while k < names.len() && comes_before(names[k].as_str(), n.as_str())
        invariant
            k <= names@.len(),
            all == texts(names@),
            forall|j: int| 0 <= j < k ==> before(#[trigger] all[j], n@),
        decreases names@.len() - k,
    {
        k = k + 1;
    }
    proof {
        insert_name_at(all, n@, k as int);
    }
    if k < names.len() && text::same(names[k].as_str(), n.as_str()) {
        return ;
    }
    let ghost inserted = n@;
    let ghost was = names@;
    names.insert(k, n);
    assert(texts(names@) =~= texts(was).insert(k as int, inserted));
}

/// The order is that of the first difference: by the first character in which two
/// texts differ, whatever follows it; and a text comes before all that go on
/// where it ends.
pub proof fn the_first_difference_decides(
    same: Seq<char>,
    a: char,
    b: char,
    x: Seq<char>,
    y: Seq<char>,
)
    ensures
        a < b ==> before(same + seq![a] + x, same + seq![b] + y),
        a > b ==> !before(same + seq![a] + x, same + seq![b] + y),
        before(same, same + seq![a] + x),
        !before(same + seq![a] + x, same),
    decreases same.len(),
{
    let l = same + seq![a] + x;
    let r = same + seq![b] + y;
    if same.len() > 0 {
        let rest = same.skip(1);
        the_first_difference_decides(rest, a, b, x, y);
        assert(l.skip(1) =~= rest + seq![a] + x);
        assert(r.skip(1) =~= rest + seq![b] + y);
    } else {
        assert(l[0] == a && r[0] == b);
    }
}

} // verus!
