//! The order of strings (by code point, as `str` compares them) and the order of the
//! light list: by name, then by identity.
use crate::lights::{Device, DeviceModel};
use vstd::prelude::*;

verus! {

/// `a` comes strictly before `b`: at the first position where they differ `a` has
/// the smaller character, or `a` is a proper prefix of `b`.
pub open spec fn text_less(a: Seq<char>, b: Seq<char>) -> bool
    decreases a.len(),
{
    if a.len() == 0 {
        b.len() > 0
    } else if b.len() == 0 {
        false
    } else if a[0] != b[0] {
        a[0] < b[0]
    } else {
        text_less(a.drop_first(), b.drop_first())
    }
}

pub proof fn lemma_text_less_irreflexive(a: Seq<char>)
    ensures
        !text_less(a, a),
    decreases a.len(),
{
    if a.len() > 0 {
        lemma_text_less_irreflexive(a.drop_first());
    }
}

pub proof fn lemma_text_less_total(a: Seq<char>, b: Seq<char>)
    ensures
        a == b || text_less(a, b) || text_less(b, a),
        !(text_less(a, b) && text_less(b, a)),
    decreases a.len(),
{
    if a.len() > 0 && b.len() > 0 {
        if a[0] == b[0] {
            lemma_text_less_total(a.drop_first(), b.drop_first());
            if a.drop_first() == b.drop_first() {
                assert(a =~= seq![a[0]] + a.drop_first());
                assert(b =~= seq![b[0]] + b.drop_first());
            }
        }
    } else if a.len() == 0 && b.len() == 0 {
        assert(a =~= b);
    }
}

pub proof fn lemma_text_less_transitive(a: Seq<char>, b: Seq<char>, c: Seq<char>)
    requires
        text_less(a, b),
        text_less(b, c),
    ensures
        text_less(a, c),
    decreases a.len(),
{
    if a.len() > 0 && b.len() > 0 && c.len() > 0 {
        if a[0] == b[0] && b[0] == c[0] {
            lemma_text_less_transitive(a.drop_first(), b.drop_first(), c.drop_first());
        }
    }
}

/// Whether `a` comes strictly before `b`.
pub fn text_before(a: &str, b: &str) -> (r: bool)
    ensures
        r == text_less(a@, b@),
{
    let x = crate::chars::chars_of(a);
    let y = crate::chars::chars_of(b);
    let mut i: usize = 0;
    assert(a@.skip(0) =~= a@);
    assert(b@.skip(0) =~= b@);
    while i < x.len() && i < y.len() && x[i] == y[i]
        invariant
            x@ == a@,
            y@ == b@,
            i <= x@.len(),
            i <= y@.len(),
            text_less(a@, b@) == text_less(a@.skip(i as int), b@.skip(i as int)),
        decreases x@.len() - i,
    {
        proof {
            let s = a@.skip(i as int);
            let t = b@.skip(i as int);
            assert(s.drop_first() =~= a@.skip(i + 1));
            assert(t.drop_first() =~= b@.skip(i + 1));
        }
        i = i + 1;
    }
    if i == x.len() {
        i < y.len()
    } else if i == y.len() {
        false
    } else {
        x[i] < y[i]
    }
}

/// The position of a light in the list: by name, then by identity.
pub open spec fn device_less(a: DeviceModel, b: DeviceModel) -> bool {
    text_less(a.name, b.name) || (a.name == b.name && text_less(a.id, b.id))
}

/// Two lights share name and identity, so neither goes before the other.
pub open spec fn same_place(a: DeviceModel, b: DeviceModel) -> bool {
    a.name == b.name && a.id == b.id
}

pub proof fn lemma_device_less_facts(a: DeviceModel, b: DeviceModel, c: DeviceModel)
    ensures
        !device_less(a, a),
        same_place(a, b) || device_less(a, b) || device_less(b, a),
        !(device_less(a, b) && device_less(b, a)),
        device_less(a, b) && device_less(b, c) ==> device_less(a, c),
        device_less(a, b) ==> !same_place(a, b),
        !device_less(a, b) && !device_less(b, a) ==> same_place(a, b),
        device_less(a, b) && same_place(b, c) ==> device_less(a, c),
        same_place(a, b) && device_less(b, c) ==> device_less(a, c),
{
    lemma_text_less_irreflexive(a.name);
    lemma_text_less_irreflexive(a.id);
    lemma_text_less_total(a.name, b.name);
    lemma_text_less_total(a.id, b.id);
    if text_less(a.name, b.name) && text_less(b.name, c.name) {
        lemma_text_less_transitive(a.name, b.name, c.name);
    }
    if text_less(a.id, b.id) && text_less(b.id, c.id) {
        lemma_text_less_transitive(a.id, b.id, c.id);
    }
}

/// The list is in order: no light goes before an earlier one.
pub open spec fn in_order(s: Seq<DeviceModel>) -> bool {
    forall|i: int, j: int| 0 <= i < j < s.len() ==> !device_less(#[trigger] s[j], #[trigger] s[i])
}

/// The lights of `s` that sit at the place `k`, in their order in `s`.
pub open spec fn at_place(s: Seq<DeviceModel>, k: DeviceModel) -> Seq<DeviceModel>
    decreases s.len(),
{
    if s.len() == 0 {
        Seq::empty()
    } else if same_place(s.last(), k) {
        at_place(s.drop_last(), k).push(s.last())
    } else {
        at_place(s.drop_last(), k)
    }
}

pub proof fn lemma_at_place_concat(a: Seq<DeviceModel>, b: Seq<DeviceModel>, k: DeviceModel)
    ensures
        at_place(a + b, k) == at_place(a, k) + at_place(b, k),
    decreases b.len(),
{
    if b.len() == 0 {
        assert(a + b =~= a);
        assert(at_place(a, k) + at_place(b, k) =~= at_place(a, k));
    } else {
        lemma_at_place_concat(a, b.drop_last(), k);
        assert((a + b).drop_last() =~= a + b.drop_last());
        assert((a + b).last() == b.last());
        if same_place(b.last(), k) {
            assert(at_place(a, k) + at_place(b, k) =~= (at_place(a, k) + at_place(
                b.drop_last(),
                k,
            )).push(b.last()));
        }
    }
}

pub proof fn lemma_at_place_none(s: Seq<DeviceModel>, k: DeviceModel)
    requires
        forall|i: int| 0 <= i < s.len() ==> !same_place(#[trigger] s[i], k),
    ensures
        at_place(s, k) == Seq::<DeviceModel>::empty(),
    decreases s.len(),
{
    if s.len() > 0 {
        assert(!same_place(s[s.len() - 1], k));
        assert forall|i: int| 0 <= i < s.len() - 1 implies !same_place(
            #[trigger] s.drop_last()[i],
            k,
        ) by {
            assert(s.drop_last()[i] == s[i]);
        }
        lemma_at_place_none(s.drop_last(), k);
    }
}

/// `r` holds the lights of `s` in order, and the lights that share a place keep their
/// order from `s`: exactly what a stable sort by name, then identity, gives.
pub open spec fn stable_order_of(r: Seq<DeviceModel>, s: Seq<DeviceModel>) -> bool {
    &&& in_order(r)
    &&& forall|k: DeviceModel| #[trigger] at_place(r, k) == at_place(s, k)
}

/// Sorts the lights by name, then identity, keeping the order of lights at the same
/// place.
pub fn sort_devices(devices: Vec<Device>) -> (r: Vec<Device>)
    ensures
        r@.len() == devices@.len(),
        crate::lights::devices_view(r@).to_multiset() == crate::lights::devices_view(
            devices@,
        ).to_multiset(),
        stable_order_of(crate::lights::devices_view(r@), crate::lights::devices_view(devices@)),
{
    let ghost input = crate::lights::devices_view(devices@);
    let n = devices.len();
    let mut result: Vec<Device> = Vec::new();
    let mut rest = devices;
    let mut i: usize = 0;
    assert(input.skip(0) =~= input);
    assert(input.take(0) =~= Seq::<DeviceModel>::empty());
    assert(crate::lights::devices_view(result@) =~= input.take(0));
    while rest.len() > 0
        invariant
            rest@.len() + i == n,
            result@.len() == i,
            crate::lights::devices_view(result@).to_multiset() == input.take(i as int).to_multiset(),
            input.len() == n,
            crate::lights::devices_view(rest@) == input.skip(i as int),
            stable_order_of(crate::lights::devices_view(result@), input.take(i as int)),
        decreases rest@.len(),
    {
        let ghost old_rest = rest@;
        let d = rest.remove(0);
        let ghost dv = d@;
        proof {
            assert(crate::lights::devices_view(old_rest)[0] == dv);
            assert(input.skip(i as int)[0] == dv);
            assert(input[i as int] == dv);
            assert(rest@ =~= old_rest.skip(1));
            assert(crate::lights::devices_view(rest@) =~= crate::lights::devices_view(old_rest).skip(1));
            assert(input.skip(i as int).skip(1) =~= input.skip(i + 1));
        }
        let ghost before = crate::lights::devices_view(result@);
        // The first position whose light goes after `d`.
        let mut p: usize = 0;
        while p < result.len() && !(text_before(d.name.as_str(), result[p].name.as_str()) || (
        crate::chars::same_text(d.name.as_str(), result[p].name.as_str()) && text_before(
            d.id.as_str(),
            result[p].id.as_str(),
        )))
            invariant
                p <= result@.len(),
                dv == d@,
                before == crate::lights::devices_view(result@),
                forall|j: int| 0 <= j < p ==> !device_less(dv, #[trigger] before[j]),
            decreases result@.len() - p,
        {
            assert(before[p as int] == result@[p as int]@);
            p = p + 1;
        }
        proof {
            if p < result@.len() {
                assert(device_less(dv, before[p as int]));
            }
        }
        result.insert(p, d);
        proof {
            let after = crate::lights::devices_view(result@);
            assert(after =~= before.take(p as int) + seq![dv] + before.skip(p as int));
            assert(after =~= before.insert(p as int, dv));
            vstd::seq_lib::to_multiset_insert(before, p as int, dv);
            assert(input.take(i + 1) =~= input.take(i as int).push(dv));
            vstd::seq_lib::to_multiset_build(input.take(i as int), dv);
            // Everything from `p` on goes after `d`, since `before` is in order.
            assert forall|j: int| p <= j < before.len() implies device_less(
                dv,
                #[trigger] before[j],
            ) by {
                lemma_device_less_facts(dv, before[p as int], before[j]);
                lemma_device_less_facts(before[p as int], before[j], dv);
                if j > p {
                    assert(!device_less(before[j], before[p as int]));
                    lemma_device_less_facts(before[j], before[p as int], dv);
                }
            }
            assert forall|a: int, b: int| 0 <= a < b < after.len() implies !device_less(
                #[trigger] after[b],
                #[trigger] after[a],
            ) by {
                if a < p && b == p {
                    lemma_device_less_facts(before[a], dv, dv);
                } else if a == p && b > p {
                    lemma_device_less_facts(dv, before[b - 1], dv);
                } else if a < p && b > p {
                    assert(!device_less(before[b - 1], before[a]));
                } else if b < p {
                    assert(!device_less(before[b], before[a]));
                } else {
                    assert(!device_less(before[b - 1], before[a - 1]));
                }
            }
            let b1 = before.take(p as int);
            let b2 = before.skip(p as int);
            let one = seq![dv];
            assert(input.take(i + 1) =~= input.take(i as int) + one);
            assert(before =~= b1 + b2);
            assert(after =~= (b1 + one) + b2);
            assert(one.drop_last() =~= Seq::<DeviceModel>::empty());
            assert forall|k: DeviceModel| #[trigger] at_place(after, k) == at_place(
                input.take(i + 1),
                k,
            ) by {
                lemma_at_place_concat(input.take(i as int), one, k);
                lemma_at_place_concat(b1 + one, b2, k);
                lemma_at_place_concat(b1, one, k);
                lemma_at_place_concat(b1, b2, k);
                assert(at_place(input.take(i as int), k) == at_place(before, k));
                assert(at_place(one.drop_last(), k) =~= Seq::<DeviceModel>::empty());
                assert(one.last() == dv);
                if same_place(dv, k) {
                    assert forall|j: int| 0 <= j < b2.len() implies !same_place(
                        #[trigger] b2[j],
                        k,
                    ) by {
                        assert(b2[j] == before[p + j]);
                        lemma_device_less_facts(dv, before[p + j], dv);
                    }
                    lemma_at_place_none(b2, k);
                    assert(at_place(one, k) =~= one);
                    assert(at_place(b1, k) + at_place(b2, k) + at_place(one, k) =~= at_place(b1, k)
                        + at_place(one, k) + at_place(b2, k));
                } else {
                    assert(at_place(one, k) =~= Seq::<DeviceModel>::empty());
                    assert(at_place(b1, k) + at_place(b2, k) + at_place(one, k) =~= at_place(b1, k)
                        + at_place(one, k) + at_place(b2, k));
                }
            }
        }
        i = i + 1;
    }
    assert(input.take(n as int) =~= input);
    result
}

} // verus!

verus! {

/// Each string comes strictly before every later one: sorted, without repeats.
pub open spec fn strictly_ordered(s: Seq<Seq<char>>) -> bool {
    forall|i: int, j: int| 0 <= i < j < s.len() ==> text_less(#[trigger] s[i], #[trigger] s[j])
}

/// The strings of `ids` sorted and without repeats, as `sort` then `dedup` leave them.
pub fn sorted_unique(ids: Vec<String>) -> (r: Vec<String>)
    ensures
        strictly_ordered(crate::lights::strings_view(r@)),
        forall|x: Seq<char>|
            crate::lights::strings_view(r@).contains(x) <==> crate::lights::strings_view(
                ids@,
            ).contains(x),
{
    let ghost input = crate::lights::strings_view(ids@);
    let mut r: Vec<String> = Vec::new();
    let mut k: usize = 0;
    while k < ids.len()
        invariant
            input == crate::lights::strings_view(ids@),
            k <= ids@.len(),
            strictly_ordered(crate::lights::strings_view(r@)),
            forall|x: Seq<char>|
                crate::lights::strings_view(r@).contains(x) <==> input.take(k as int).contains(x),
        decreases ids@.len() - k,
    {
        let id = &ids[k];
        let ghost before = crate::lights::strings_view(r@);
        let mut p: usize = 0;
        while p < r.len() && text_before(r[p].as_str(), id.as_str())
            invariant
                p <= r@.len(),
                before == crate::lights::strings_view(r@),
                forall|j: int| 0 <= j < p ==> text_less(#[trigger] before[j], id@),
            decreases r@.len() - p,
        {
            assert(before[p as int] == r@[p as int]@);
            p = p + 1;
        }
        assert(input.take(k + 1) =~= input.take(k as int).push(id@));
        if p < r.len() && crate::chars::same_text(r[p].as_str(), id.as_str()) {
            assert(before[p as int] == id@);
            assert forall|x: Seq<char>| before.contains(x) <==> input.take(k + 1).contains(x) by {
                if x == id@ {
                    assert(before[p as int] == x);
                }
            }
        } else {
            proof {
                if p < r@.len() {
                    assert(before[p as int] == r@[p as int]@);
                    lemma_text_less_total(before[p as int], id@);
                }
                assert forall|j: int| p <= j < before.len() implies text_less(
                    id@,
                    #[trigger] before[j],
                ) by {
                    lemma_text_less_total(before[p as int], id@);
                    if j > p {
                        lemma_text_less_transitive(id@, before[p as int], before[j]);
                    }
                }
            }
            r.insert(p, id.clone());
            proof {
                let after = crate::lights::strings_view(r@);
                assert(after =~= before.insert(p as int, id@));
                assert forall|a: int, b: int| 0 <= a < b < after.len() implies text_less(
                    #[trigger] after[a],
                    #[trigger] after[b],
                ) by {
                    if a < p && b > p {
                        assert(text_less(before[a], id@));
                        assert(text_less(id@, before[b - 1]));
                        lemma_text_less_transitive(before[a], id@, before[b - 1]);
                    } else if a < p && b == p {
                    } else if a == p {
                        assert(after[b] == before[b - 1]);
                    } else if b < p {
                        assert(text_less(before[a], before[b]));
                    } else {
                        assert(text_less(before[a - 1], before[b - 1]));
                    }
                }
                assert forall|x: Seq<char>| after.contains(x) <==> input.take(k + 1).contains(x) by {
                    if after.contains(x) {
                        let j = choose|j: int| 0 <= j < after.len() && after[j] == x;
                        if j < p {
                            assert(before[j] == x);
                        } else if j > p {
                            assert(before[j - 1] == x);
                        }
                    }
                    if before.contains(x) {
                        let j = choose|j: int| 0 <= j < before.len() && before[j] == x;
                        if j < p {
                            assert(after[j] == x);
                        } else {
                            assert(after[j + 1] == x);
                        }
                    }
                    if x == id@ {
                        assert(after[p as int] == x);
                    }
                    let t1 = input.take(k + 1);
                    let t0 = input.take(k as int);
                    if t1.contains(x) {
                        let j = choose|j: int| 0 <= j < t1.len() && t1[j] == x;
                        if j < k {
                            assert(t0[j] == x);
                        }
                    }
                    if t0.contains(x) {
                        let j = choose|j: int| 0 <= j < t0.len() && t0[j] == x;
                        assert(t1[j] == x);
                    }
                    assert(t1[k as int] == id@);
                }
            }
        }
        k = k + 1;
    }
    assert(input.take(ids@.len() as int) =~= input);
    r
}

} // verus!

verus! {

pub proof fn lemma_at_place_member(s: Seq<DeviceModel>, k: DeviceModel, x: DeviceModel)
    requires
        at_place(s, k).contains(x),
    ensures
        s.contains(x),
    decreases s.len(),
{
    if s.len() > 0 {
        let p = at_place(s.drop_last(), k);
        if same_place(s.last(), k) && x == s.last() {
            assert(s[s.len() - 1] == x);
        } else {
            if same_place(s.last(), k) {
                let j = choose|j: int| 0 <= j < at_place(s, k).len() && at_place(s, k)[j] == x;
                assert(p[j] == x);
            }
            lemma_at_place_member(s.drop_last(), k, x);
            let j = choose|j: int| 0 <= j < s.drop_last().len() && s.drop_last()[j] == x;
            assert(s[j] == x);
        }
    }
}

pub proof fn lemma_at_place_has(s: Seq<DeviceModel>, x: DeviceModel)
    requires
        s.contains(x),
    ensures
        at_place(s, x).contains(x),
    decreases s.len(),
{
    let j = choose|j: int| 0 <= j < s.len() && s[j] == x;
    if j == s.len() - 1 {
        assert(at_place(s, x).last() == x);
        assert(at_place(s, x)[at_place(s, x).len() - 1] == x);
    } else {
        assert(s.drop_last()[j] == x);
        lemma_at_place_has(s.drop_last(), x);
        let p = at_place(s.drop_last(), x);
        let i = choose|i: int| 0 <= i < p.len() && p[i] == x;
        if same_place(s.last(), x) {
            assert(at_place(s, x)[i] == x);
        }
    }
}

/// A list in stable order of another holds exactly the same lights.
pub proof fn lemma_stable_order_members(r: Seq<DeviceModel>, s: Seq<DeviceModel>, x: DeviceModel)
    requires
        stable_order_of(r, s),
    ensures
        r.contains(x) <==> s.contains(x),
{
    if s.contains(x) {
        lemma_at_place_has(s, x);
        assert(at_place(r, x) == at_place(s, x));
        lemma_at_place_member(r, x, x);
    }
    if r.contains(x) {
        lemma_at_place_has(r, x);
        assert(at_place(r, x) == at_place(s, x));
        lemma_at_place_member(s, x, x);
    }
}

} // verus!
