//! Byte-wise ordering of names and a stable sort by name.

use vstd::prelude::*;
use vstd::string::StringSliceAdditionalSpecFns;
use vstd::utf8::encode_utf8;

verus! {

/// Whether `a` comes strictly before `b` in byte-wise lexicographic order
/// (the order of `str`'s comparison).
pub open spec fn bytes_lt(a: Seq<u8>, b: Seq<u8>) -> bool
    decreases a.len(),
{
    if a.len() == 0 {
        b.len() > 0
    } else if b.len() == 0 {
        false
    } else if a[0] < b[0] {
        true
    } else if a[0] > b[0] {
        false
    } else {
        bytes_lt(a.drop_first(), b.drop_first())
    }
}

/// No sequence comes before itself, and of two sequences at most one comes
/// before the other.
pub proof fn lemma_bytes_lt_asymmetric(a: Seq<u8>, b: Seq<u8>)
    ensures
        !(bytes_lt(a, b) && bytes_lt(b, a)),
        !bytes_lt(a, a),
    decreases a.len(),
{
    if a.len() > 0 && b.len() > 0 {
        lemma_bytes_lt_asymmetric(a.drop_first(), b.drop_first());
    }
    if a.len() > 0 {
        lemma_bytes_lt_asymmetric(a.drop_first(), a.drop_first());
    }
}

/// The order is transitive.
pub proof fn lemma_bytes_lt_transitive(a: Seq<u8>, b: Seq<u8>, c: Seq<u8>)
    requires
        bytes_lt(a, b),
        bytes_lt(b, c),
    ensures
        bytes_lt(a, c),
    decreases a.len(),
{
    if a.len() > 0 && b.len() > 0 && c.len() > 0 && a[0] == b[0] && b[0] == c[0] {
        lemma_bytes_lt_transitive(a.drop_first(), b.drop_first(), c.drop_first());
    }
}

/// The order is total: of two different sequences, one comes first.
pub proof fn lemma_bytes_lt_total(a: Seq<u8>, b: Seq<u8>)
    requires
        a != b,
    ensures
        bytes_lt(a, b) || bytes_lt(b, a),
    decreases a.len(),
{
    if a.len() == 0 && b.len() == 0 {
        assert(a =~= b);
    }
    if a.len() > 0 && b.len() > 0 && a[0] == b[0] {
        if a.drop_first() == b.drop_first() {
            assert(a.drop_first().len() == b.drop_first().len());
            assert(a.len() == b.len());
            assert forall|i: int| 0 <= i < a.len() implies a[i] == b[i] by {
                if i > 0 {
                    assert(a[i] == a.drop_first()[i - 1]);
                    assert(b[i] == b.drop_first()[i - 1]);
                }
            }
            assert(a =~= b);
        }
        lemma_bytes_lt_total(a.drop_first(), b.drop_first());
    }
}

/// Whether the bytes of `a` come strictly before those of `b`.
pub fn str_lt(a: &str, b: &str) -> (r: bool)
    ensures
        r == bytes_lt(a.spec_bytes(), b.spec_bytes()),
{
    let x = a.as_bytes();
    let y = b.as_bytes();
    let mut i: usize = 0;
    assert(x@.skip(0) =~= x@);
    assert(y@.skip(0) =~= y@);
    while i < x.len() && i < y.len()
        invariant
            x@ == a.spec_bytes(),
            y@ == b.spec_bytes(),
            i <= x.len(),
            i <= y.len(),
            bytes_lt(x@, y@) == bytes_lt(x@.skip(i as int), y@.skip(i as int)),
        decreases x.len() - i,
    {
        if x[i] < y[i] {
            return true;
        }
        if x[i] > y[i] {
            return false;
        }
        assert(x@.skip(i as int).drop_first() =~= x@.skip(i + 1));
        assert(y@.skip(i as int).drop_first() =~= y@.skip(i + 1));
        i = i + 1;
    }
    i < y.len()
}

/// A value that has a name to be sorted by.
pub trait Named {
    /// The bytes of the name.
    spec fn name_bytes(&self) -> Seq<u8>;

    /// The name.
    fn name_str(&self) -> (r: &str)
        ensures
            r.spec_bytes() == self.name_bytes();
}

/// Whether `r` is `s` sorted by name, equal names keeping their order:
/// position `i` of `r` holds element `p[i]` of `s`.
pub open spec fn is_stable_sort<T: Named>(s: Seq<T>, r: Seq<T>, p: Seq<int>) -> bool {
    &&& r.len() == s.len()
    &&& p.len() == s.len()
    &&& forall|i: int| 0 <= i < p.len() ==> 0 <= #[trigger] p[i] < s.len()
    &&& forall|i: int, j: int| 0 <= i < j < p.len() ==> p[i] != p[j]
    &&& forall|i: int| 0 <= i < r.len() ==> #[trigger] r[i] == s[p[i]]
    &&& forall|i: int, j: int|
        0 <= i < j < r.len() ==> !bytes_lt(r[j].name_bytes(), r[i].name_bytes())
    &&& forall|i: int, j: int|
        0 <= i < j < r.len() && r[i].name_bytes() == r[j].name_bytes() ==> p[i] < p[j]
}

/// Sorts `items` by name; items with equal names keep their order.
pub fn stable_sort_by_name<T: Named>(items: Vec<T>) -> (r: Vec<T>)
    ensures
        exists|p: Seq<int>| is_stable_sort(items@, r@, p),
{
    let ghost s = items@;
    let n = items.len();
    let mut rest = items;
    let mut out: Vec<T> = Vec::new();
    let ghost mut p: Seq<int> = Seq::empty();
    let mut k: usize = 0;
    while k < n
        invariant
            n == s.len(),
            k <= n,
            rest@ == s.skip(k as int),
            out@.len() == k,
            p.len() == k,
            forall|i: int| 0 <= i < p.len() ==> 0 <= #[trigger] p[i] < k,
            forall|i: int, j: int| 0 <= i < j < p.len() ==> p[i] != p[j],
            forall|i: int| 0 <= i < out@.len() ==> #[trigger] out@[i] == s[p[i]],
            forall|i: int, j: int|
                0 <= i < j < out@.len() ==> !bytes_lt(out@[j].name_bytes(), out@[i].name_bytes()),
            forall|i: int, j: int|
                0 <= i < j < out@.len() && out@[i].name_bytes() == out@[j].name_bytes() ==> p[i]
                    < p[j],
        decreases n - k,
    {
        let x = rest.remove(0);
        assert(rest@ =~= s.skip(k + 1));
        assert(x == s[k as int]);
        let mut pos: usize = 0;
        while pos < out.len() && !str_lt(x.name_str(), out[pos].name_str())
            invariant
                pos <= out@.len(),
                forall|i: int| 0 <= i < pos ==> !bytes_lt(x.name_bytes(), #[trigger] out@[i].name_bytes()),
            decreases out@.len() - pos,
        {
            pos = pos + 1;
        }
        let ghost old_out = out@;
        let ghost old_p = p;
        out.insert(pos, x);
        proof {
            p = old_p.insert(pos as int, k as int);
            assert forall|i: int, j: int|
                0 <= i < j < out@.len() implies !bytes_lt(out@[j].name_bytes(), out@[i].name_bytes()) by {
                if i < pos && j == pos {
                    lemma_bytes_lt_asymmetric(x.name_bytes(), old_out[i].name_bytes());
                    if x.name_bytes() != old_out[i].name_bytes() {
                        lemma_bytes_lt_total(x.name_bytes(), old_out[i].name_bytes());
                    }
                } else if i == pos && j > pos {
                    let y = old_out[j - 1];
                    let z = old_out[pos as int];
                    lemma_bytes_lt_asymmetric(z.name_bytes(), x.name_bytes());
                    if bytes_lt(y.name_bytes(), x.name_bytes()) {
                        if j - 1 == pos {
                        } else {
                            lemma_bytes_lt_transitive(y.name_bytes(), x.name_bytes(), z.name_bytes());
                        }
                    }
                }
            }
            assert forall|i: int, j: int|
                0 <= i < j < out@.len() && out@[i].name_bytes() == out@[j].name_bytes() implies p[i]
                < p[j] by {
                if i == pos && j > pos {
                    let z = old_out[pos as int];
                    let y = old_out[j - 1];
                    lemma_bytes_lt_asymmetric(x.name_bytes(), x.name_bytes());
                    if j - 1 > pos {
                        assert(!bytes_lt(y.name_bytes(), z.name_bytes()));
                    }
                }
            }
        }
        k = k + 1;
    }
    assert(is_stable_sort(s, out@, p));
    out
}

/// A name and the position it had in its list.
struct NameAt {
    name: String,
    at: usize,
}

impl Named for NameAt {
    closed spec fn name_bytes(&self) -> Seq<u8> {
        encode_utf8(self.name@)
    }

    fn name_str(&self) -> (r: &str) {
        self.name.as_str()
    }
}

/// The positions of `names` in the order of the names' bytes (the order of
/// `str`'s comparison), equal names keeping their order: the order in
/// which a stable sort by name would put the items that carry them.
fn order_by_name_ascending(names: &[String]) -> (r: Vec<usize>)
    ensures
        r@.len() == names@.len(),
        forall|i: int| 0 <= i < r@.len() ==> #[trigger] r@[i] < names@.len(),
        forall|i: int, j: int| 0 <= i < j < r@.len() ==> r@[i] != r@[j],
        forall|i: int, j: int|
            0 <= i < j < r@.len() ==> !bytes_lt(
                encode_utf8(names@[#[trigger] r@[j] as int]@),
                encode_utf8(names@[#[trigger] r@[i] as int]@),
            ),
        forall|i: int, j: int|
            0 <= i < j < r@.len() && names@[#[trigger] r@[i] as int]@ == names@[#[trigger] r@[
                j
            ] as int]@ ==> r@[i] < r@[j],
{
    let mut items: Vec<NameAt> = Vec::new();
    let mut k: usize = 0;
    while k < names.len()
        invariant
            k <= names@.len(),
            items@.len() == k,
            forall|i: int|
                0 <= i < k ==> (#[trigger] items@[i]).at == i && items@[i].name@ == names@[i]@,
        decreases names@.len() - k,
    {
        items.push(NameAt { name: names[k].clone(), at: k });
        k = k + 1;
    }
    let ghost s = items@;
    let sorted = stable_sort_by_name(items);
    let ghost p = choose|p: Seq<int>| is_stable_sort(s, sorted@, p);
    let mut r: Vec<usize> = Vec::new();
    let mut j: usize = 0;
    while j < sorted.len()
        invariant
            j <= sorted@.len(),
            is_stable_sort(s, sorted@, p),
            s.len() == names@.len(),
            forall|i: int| 0 <= i < s.len() ==> (#[trigger] s[i]).at == i && s[i].name@ == names@[i]@,
            r@.len() == j,
            forall|i: int| 0 <= i < j ==> #[trigger] r@[i] == p[i],
        decreases sorted@.len() - j,
    {
        r.push(sorted[j].at);
        proof {
            assert(sorted@[j as int] == s[p[j as int]]);
        }
        j = j + 1;
    }
    proof {
        assert forall|i: int| 0 <= i < r@.len() implies sorted@[i].name@ == names@[
            #[trigger] r@[i] as int
        ]@ by {
            assert(sorted@[i] == s[p[i]]);
        }
        assert forall|i: int, j: int|
            0 <= i < j < r@.len() && names@[#[trigger] r@[i] as int]@ == names@[#[trigger] r@[
                j
            ] as int]@ implies r@[i] < r@[j] by {
            assert(sorted@[i] == s[p[i]]);
            assert(sorted@[j] == s[p[j]]);
        }
        assert forall|i: int, j: int|
            0 <= i < j < r@.len() implies !bytes_lt(
            encode_utf8(names@[#[trigger] r@[j] as int]@),
            encode_utf8(names@[#[trigger] r@[i] as int]@),
        ) by {
            assert(sorted@[i] == s[p[i]]);
            assert(sorted@[j] == s[p[j]]);
        }
    }
    r
}

/// The positions of `names` by name: in the order of the names' bytes
/// (the order of `str`'s comparison) when `asc`, in the reverse order
/// otherwise. Equal names come in the order of their positions when
/// `asc`, in the reverse order otherwise.
pub fn order_by_name(names: &[String], asc: bool) -> (r: Vec<usize>)
    ensures
        r@.len() == names@.len(),
        forall|i: int| 0 <= i < r@.len() ==> #[trigger] r@[i] < names@.len(),
        forall|i: int, j: int| 0 <= i < j < r@.len() ==> r@[i] != r@[j],
        forall|i: int, j: int|
            0 <= i < j < r@.len() ==> if asc {
                !bytes_lt(
                    encode_utf8(names@[#[trigger] r@[j] as int]@),
                    encode_utf8(names@[#[trigger] r@[i] as int]@),
                )
            } else {
                !bytes_lt(encode_utf8(names@[r@[i] as int]@), encode_utf8(names@[r@[j] as int]@))
            },
        forall|i: int, j: int|
            0 <= i < j < r@.len() && names@[#[trigger] r@[i] as int]@ == names@[#[trigger] r@[
                j
            ] as int]@ ==> if asc {
                r@[i] < r@[j]
            } else {
                r@[i] > r@[j]
            },
{
    let up = order_by_name_ascending(names);
    if asc {
        return up;
    }
    let n = up.len();
    let mut r: Vec<usize> = Vec::new();
    let mut k: usize = 0;
    while k < n
        invariant
            n == up@.len(),
            k <= n,
            r@.len() == k,
            forall|i: int| 0 <= i < k ==> #[trigger] r@[i] == up@[n - 1 - i],
        decreases n - k,
    {
        r.push(up[n - 1 - k]);
        k = k + 1;
    }
    proof {
        assert forall|i: int, j: int| 0 <= i < j < r@.len() implies r@[i] != r@[j] by {
            assert(r@[i] == up@[n - 1 - i] && r@[j] == up@[n - 1 - j]);
        }
        assert forall|i: int, j: int| 0 <= i < j < r@.len() implies !bytes_lt(
            encode_utf8(names@[r@[i] as int]@),
            encode_utf8(names@[r@[j] as int]@),
        ) by {
            assert(r@[i] == up@[n - 1 - i] && r@[j] == up@[n - 1 - j]);
        }
        assert forall|i: int, j: int|
            0 <= i < j < r@.len() && names@[#[trigger] r@[i] as int]@ == names@[#[trigger] r@[
                j
            ] as int]@ implies r@[i] > r@[j] by {
            assert(r@[i] == up@[n - 1 - i] && r@[j] == up@[n - 1 - j]);
        }
    }
    r
}

/// Whether key `a` goes before key `b`: smaller first when `asc`, larger
/// first otherwise.
pub open spec fn key_before(a: u64, b: u64, asc: bool) -> bool {
    if asc {
        a < b
    } else {
        a > b
    }
}

/// Whether key `a` goes before key `b` (see `key_before`).
fn goes_before(a: u64, b: u64, asc: bool) -> (r: bool)
    ensures
        r == key_before(a, b, asc),
{
    if asc {
        a < b
    } else {
        a > b
    }
}

/// The positions of `keys` by key: ascending when `asc`, descending
/// otherwise; equal keys in the order of their positions.
pub fn order_by_key(keys: &[u64], asc: bool) -> (r: Vec<usize>)
    ensures
        r@.len() == keys@.len(),
        forall|i: int| 0 <= i < r@.len() ==> #[trigger] r@[i] < keys@.len(),
        forall|i: int, j: int| 0 <= i < j < r@.len() ==> r@[i] != r@[j],
        forall|i: int, j: int|
            0 <= i < j < r@.len() ==> !key_before(
                keys@[#[trigger] r@[j] as int],
                keys@[#[trigger] r@[i] as int],
                asc,
            ),
        forall|i: int, j: int|
            0 <= i < j < r@.len() && keys@[#[trigger] r@[i] as int] == keys@[#[trigger] r@[
                j
            ] as int] ==> r@[i] < r@[j],
{
    let n = keys.len();
    let mut out: Vec<usize> = Vec::new();
    let mut k: usize = 0;
    while k < n
        invariant
            n == keys@.len(),
            k <= n,
            out@.len() == k,
            forall|i: int| 0 <= i < out@.len() ==> #[trigger] out@[i] < k,
            forall|i: int, j: int| 0 <= i < j < out@.len() ==> out@[i] != out@[j],
            forall|i: int, j: int|
                0 <= i < j < out@.len() ==> !key_before(
                    keys@[#[trigger] out@[j] as int],
                    keys@[#[trigger] out@[i] as int],
                    asc,
                ),
            forall|i: int, j: int|
                0 <= i < j < out@.len() && keys@[#[trigger] out@[i] as int] == keys@[
                    #[trigger] out@[j] as int] ==> out@[i] < out@[j],
        decreases n - k,
    {
        let key = keys[k];
        let mut pos: usize = 0;
        while pos < out.len() && !goes_before(key, keys[out[pos]], asc)
            invariant
                n == keys@.len(),
                k < n,
                key == keys@[k as int],
                pos <= out@.len(),
                forall|i: int| 0 <= i < out@.len() ==> #[trigger] out@[i] < k,
                forall|i: int|
                    0 <= i < pos ==> !key_before(key, keys@[#[trigger] out@[i] as int], asc),
            decreases out@.len() - pos,
        {
            pos = pos + 1;
        }
        let ghost old_out = out@;
        out.insert(pos, k);
        proof {
            assert forall|i: int, j: int|
                0 <= i < j < out@.len() implies !key_before(
                keys@[#[trigger] out@[j] as int],
                keys@[#[trigger] out@[i] as int],
                asc,
            ) by {
                if i < pos && j == pos {
                    assert(out@[i] == old_out[i]);
                } else if i == pos && j > pos {
                    assert(out@[j] == old_out[j - 1]);
                    if j - 1 > pos {
                        assert(!key_before(
                            keys@[old_out[j - 1] as int],
                            keys@[old_out[pos as int] as int],
                            asc,
                        ));
                    }
                } else if i < pos && j > pos {
                    assert(out@[i] == old_out[i] && out@[j] == old_out[j - 1]);
                } else if i > pos {
                    assert(out@[i] == old_out[i - 1] && out@[j] == old_out[j - 1]);
                } else {
                    assert(out@[i] == old_out[i] && out@[j] == old_out[j]);
                }
            }
            assert forall|i: int, j: int|
                0 <= i < j < out@.len() && keys@[#[trigger] out@[i] as int] == keys@[
                    #[trigger] out@[j] as int] implies out@[i] < out@[j] by {
                if i < pos && j == pos {
                    assert(out@[i] == old_out[i]);
                } else if i == pos && j > pos {
                    assert(out@[j] == old_out[j - 1]);
                    if j - 1 > pos {
                        assert(!key_before(
                            keys@[old_out[j - 1] as int],
                            keys@[old_out[pos as int] as int],
                            asc,
                        ));
                    }
                } else if i < pos && j > pos {
                    assert(out@[i] == old_out[i] && out@[j] == old_out[j - 1]);
                } else if i > pos {
                    assert(out@[i] == old_out[i - 1] && out@[j] == old_out[j - 1]);
                } else {
                    assert(out@[i] == old_out[i] && out@[j] == old_out[j]);
                }
            }
            assert forall|i: int, j: int| 0 <= i < j < out@.len() implies out@[i] != out@[j] by {
                if i < pos && j == pos {
                    assert(out@[i] == old_out[i]);
                } else if i == pos && j > pos {
                    assert(out@[j] == old_out[j - 1]);
                } else if i < pos && j > pos {
                    assert(out@[i] == old_out[i] && out@[j] == old_out[j - 1]);
                } else if i > pos {
                    assert(out@[i] == old_out[i - 1] && out@[j] == old_out[j - 1]);
                } else {
                    assert(out@[i] == old_out[i] && out@[j] == old_out[j]);
                }
            }
        }
        k = k + 1;
    }
    out
}

} // verus!
