//! Properties that span several operations of the library.
use crate::chars::{first_index, is_first, lemma_first_unique};
use crate::i18n::substitute;
use crate::i18n::Language;
use crate::i18n::{render_causes, render_view, text_spec, Locale, MessageView};
use crate::lights::{age_of, due_ids, online_ids, DeviceView, Patch};
use crate::tray::{device_node, MenuView};
use crate::lights::{
    autostart_change, is_first_id, lookup_spec, merged, missed, plain, position_of, reached,
    recorded, recorded_all, requested, unfound, DeviceModel, LightState, Settings,
};
use crate::order::{lemma_stable_order_members, stable_order_of};
use vstd::prelude::*;

verus! {

/// Finding a light again updates its entry instead of adding one: the list then holds
/// the found light and every light with another identity, and it grows only when the
/// identity was unknown.
pub proof fn rediscovery_updates_in_place(old: Seq<DeviceModel>, d: DeviceModel, r: Seq<DeviceModel>)
    requires
        stable_order_of(r, merged(old, d)),
        r.len() == merged(old, d).len(),
    ensures
        r.contains(d),
        forall|x: DeviceModel| old.contains(x) && x.id != d.id ==> r.contains(x),
        position_of(old, d.id) is Some ==> r.len() == old.len(),
        position_of(old, d.id) is None ==> r.len() == old.len() + 1,
{
    let m = merged(old, d);
    if position_of(old, d.id) is Some {
        let i = position_of(old, d.id)->0;
        let k = choose|k: int| crate::lights::is_first_id(old, d.id, k);
        assert(i == k);
        assert(m[i] == d);
    } else {
        assert(m[old.len() as int] == d);
    }
    lemma_stable_order_members(r, m, d);
    assert forall|x: DeviceModel| old.contains(x) && x.id != d.id implies r.contains(x) by {
        let j = choose|j: int| 0 <= j < old.len() && old[j] == x;
        assert(m[j] == x);
        lemma_stable_order_members(r, m, x);
    }
}

/// No two lights share an identity.
pub open spec fn distinct_ids(s: Seq<DeviceModel>) -> bool {
    forall|i: int, j: int| 0 <= i < j < s.len() ==> (#[trigger] s[i]).id != (#[trigger] s[j]).id
}

pub proof fn lemma_first_id_exists(s: Seq<DeviceModel>, id: Seq<char>, i: int)
    requires
        0 <= i < s.len(),
        s[i].id == id,
    ensures
        position_of(s, id) is Some,
    decreases i,
{
    if exists|j: int| 0 <= j < i && s[j].id == id {
        let j = choose|j: int| 0 <= j < i && s[j].id == id;
        lemma_first_id_exists(s, id, j);
    } else {
        assert(is_first_id(s, id, i));
    }
}

pub proof fn lemma_same_multiset_member(a: Seq<DeviceModel>, b: Seq<DeviceModel>, x: DeviceModel)
    requires
        a.to_multiset() == b.to_multiset(),
        a.contains(x),
    ensures
        b.contains(x),
{
    vstd::seq_lib::to_multiset_contains(a, x);
    vstd::seq_lib::to_multiset_contains(b, x);
}

/// When the saved lights have distinct identities, finding a light keeps them
/// distinct: the found identity occurs once, holding the found light; every other
/// light stays; the list grows by one exactly when the identity was new.
pub proof fn rediscovery_keeps_identities_distinct(
    old: Seq<DeviceModel>,
    d: DeviceModel,
    r: Seq<DeviceModel>,
)
    requires
        distinct_ids(old),
        r.to_multiset() == merged(old, d).to_multiset(),
        r.len() == merged(old, d).len(),
    ensures
        distinct_ids(r),
        exists|i: int| 0 <= i < r.len() && r[i] == d,
        forall|i: int| 0 <= i < r.len() && (#[trigger] r[i]).id == d.id ==> r[i] == d,
        forall|x: DeviceModel| old.contains(x) && x.id != d.id ==> r.contains(x),
        r.len() == old.len() + if position_of(old, d.id) is Some {
            0int
        } else {
            1int
        },
{
    let m = merged(old, d);
    let t: int = match position_of(old, d.id) {
        Some(p) => p,
        None => old.len() as int,
    };
    if position_of(old, d.id) is Some {
        let p = position_of(old, d.id)->0;
        let k = choose|k: int| is_first_id(old, d.id, k);
        assert(p == k);
        assert forall|a: int| 0 <= a < m.len() implies (#[trigger] m[a]).id == old[a].id by {}
    } else {
        assert forall|a: int| 0 <= a < old.len() implies (#[trigger] old[a]).id != d.id by {
            if old[a].id == d.id {
                lemma_first_id_exists(old, d.id, a);
            }
        }
    }
    assert(0 <= t < m.len() && m[t] == d);
    assert(distinct_ids(m));
    assert forall|a: int| 0 <= a < m.len() && (#[trigger] m[a]).id == d.id implies a == t by {
        if a != t {
            if a < t {
                assert(m[a].id != m[t].id);
            } else {
                assert(m[t].id != m[a].id);
            }
        }
    }
    assert(m.no_duplicates()) by {
        assert forall|a: int, b: int| 0 <= a < m.len() && 0 <= b < m.len() && a != b implies m[a]
            != m[b] by {
            if a < b {
                assert(m[a].id != m[b].id);
            } else {
                assert(m[b].id != m[a].id);
            }
        }
    }
    m.lemma_multiset_has_no_duplicates();
    r.lemma_multiset_has_no_duplicates_conv();
    assert forall|i: int, j: int| 0 <= i < j < r.len() implies (#[trigger] r[i]).id
        != (#[trigger] r[j]).id by {
        if r[i].id == r[j].id {
            assert(r[i] != r[j]);
            assert(r.contains(r[i]));
            assert(r.contains(r[j]));
            lemma_same_multiset_member(r, m, r[i]);
            lemma_same_multiset_member(r, m, r[j]);
            let a = choose|a: int| 0 <= a < m.len() && m[a] == r[i];
            let b = choose|b: int| 0 <= b < m.len() && m[b] == r[j];
            if a < b {
                assert(m[a].id != m[b].id);
            } else {
                assert(m[b].id != m[a].id);
            }
        }
    }
    assert(m.contains(d));
    lemma_same_multiset_member(m, r, d);
    assert forall|i: int| 0 <= i < r.len() && (#[trigger] r[i]).id == d.id implies r[i] == d by {
        assert(r.contains(r[i]));
        lemma_same_multiset_member(r, m, r[i]);
        let a = choose|a: int| 0 <= a < m.len() && m[a] == r[i];
        assert(m[a].id == d.id);
    }
    assert forall|x: DeviceModel| old.contains(x) && x.id != d.id implies r.contains(x) by {
        let j = choose|j: int| 0 <= j < old.len() && old[j] == x;
        assert(m[j] == x);
        lemma_same_multiset_member(m, r, x);
    }
}

/// Putting a removed light back at its position gives the list it was taken from.
pub proof fn remove_then_restore(s: Seq<DeviceModel>, i: int)
    requires
        0 <= i < s.len(),
    ensures
        s.remove(i).insert(i, s[i]) == s,
{
    assert(s.remove(i).insert(i, s[i]) =~= s);
}

/// A parameter's value goes into the text as it is: braces in the value are not
/// substituted again, and substitution goes on after the token.
pub proof fn parameter_value_is_literal(
    before: Seq<char>,
    key: Seq<char>,
    rest: Seq<char>,
    params: Map<Seq<char>, Seq<char>>,
)
    requires
        !before.contains('{'),
        !key.contains('}'),
        params.contains_key(key),
    ensures
        substitute(before + seq!['{'] + key + seq!['}'] + rest, params) == before + params[key]
            + substitute(rest, params),
{
    let t = before + seq!['{'] + key + seq!['}'] + rest;
    let s = before.len() as int;
    assert forall|j: int| 0 <= j < s implies t[j] != '{' by {
        assert(t[j] == before[j]);
    }
    assert(is_first(t, '{', s));
    lemma_first_unique(t, '{', s);
    let r = t.skip(s);
    let e: int = key.len() as int + 1;
    assert forall|j: int| 0 <= j < e implies r[j] != '}' by {
        if j > 0 {
            assert(r[j] == key[j - 1]);
        }
    }
    assert(r[e] == '}');
    assert(is_first(r, '}', e));
    lemma_first_unique(r, '}', e);
    assert(r.subrange(1, e) =~= key);
    assert(r.skip(e + 1) =~= rest);
    assert(t.take(s) =~= before);
}

/// A request that only changes the language leaves every other setting alone and
/// does not touch autostart; asking for the autostart value already set does not
/// configure it either.
pub proof fn settings_requests_are_isolated(old: Settings, language: Language, autostart: bool)
    ensures
        requested(old, None, None, Some(language)) == (Settings { language, ..old }),
        autostart_change(old, None) is None,
        autostart_change(old, Some(old.autostart)) is None,
        autostart != old.autostart ==> autostart_change(old, Some(autostart)) == Some(autostart),
{
}

/// A result for a known light is recorded on that light alone: a state read back
/// replaces its state and clears its error; an error marks it and keeps its last
/// confirmed state.
pub proof fn result_recorded_on_light(
    s: Seq<DeviceModel>,
    id: Seq<char>,
    result: Result<LightState, MessageView>,
)
    requires
        position_of(s, id) is Some,
    ensures
        ({
            let i = position_of(s, id)->0;
            let t = recorded(s, id, result);
            &&& t.len() == s.len()
            &&& t[i].id == id
            &&& result matches Ok(st) ==> t[i].state == Some(st) && t[i].error is None
            &&& result matches Err(e) ==> t[i].state == s[i].state && t[i].error == Some(e)
            &&& forall|j: int| 0 <= j < s.len() && j != i ==> t[j] == s[j]
        }),
{
    let k = choose|k: int| is_first_id(s, id, k);
    assert(position_of(s, id)->0 == k);
}

/// Each light of a change is reported once: among the lights reached or among those
/// missed.
pub proof fn every_result_reported(rs: Seq<(Seq<char>, Result<LightState, MessageView>)>)
    ensures
        reached(rs).len() + missed(rs).len() == rs.len(),
    decreases rs.len(),
{
    if rs.len() > 0 {
        every_result_reported(rs.drop_last());
    }
}

/// A change planned for lights that are all unknown reaches none of them, fails for
/// each with the unknown-light error, in the order of the plan, and changes no light.
pub proof fn unknown_lights_fail(
    s: Seq<DeviceModel>,
    p: Seq<(Seq<char>, Result<DeviceModel, MessageView>)>,
)
    requires
        forall|i: int|
            0 <= i < p.len() ==> (#[trigger] p[i]).1 == lookup_spec(s, p[i].0) && position_of(
                s,
                p[i].0,
            ) is None,
    ensures
        reached(unfound(p)).len() == 0,
        missed(unfound(p)) == p.map_values(
            |x: (Seq<char>, Result<DeviceModel, MessageView>)| (x.0, plain("error.unknown_light"@)),
        ),
        recorded_all(s, unfound(p)) == s,
    decreases p.len(),
{
    if p.len() > 0 {
        let q = p.drop_last();
        assert forall|i: int| 0 <= i < q.len() implies (#[trigger] q[i]).1 == lookup_spec(
            s,
            q[i].0,
        ) && position_of(s, q[i].0) is None by {
            assert(q[i] == p[i]);
        }
        unknown_lights_fail(s, q);
        let last = p[p.len() - 1];
        assert(last.1 == lookup_spec(s, last.0));
        assert(unfound(p) == unfound(q).push((last.0, Err(plain("error.unknown_light"@)))));
        assert(p.map_values(
            |x: (Seq<char>, Result<DeviceModel, MessageView>)| (x.0, plain("error.unknown_light"@)),
        ) =~= q.map_values(
            |x: (Seq<char>, Result<DeviceModel, MessageView>)| (x.0, plain("error.unknown_light"@)),
        ).push((last.0, plain("error.unknown_light"@))));
        assert(unfound(p).drop_last() =~= unfound(q));
    } else {
        assert(p.map_values(
            |x: (Seq<char>, Result<DeviceModel, MessageView>)| (x.0, plain("error.unknown_light"@)),
        ) =~= Seq::empty());
    }
}

/// A valid patch sets each field it names to the patch's value and keeps every field
/// it leaves out.
pub proof fn patch_sets_exactly_its_fields(p: Patch, s: LightState)
    ensures
        p.on matches Some(v) ==> p.applied(s).on == v,
        p.on is None ==> p.applied(s).on == s.on,
        p.brightness matches Some(v) ==> p.applied(s).brightness == v,
        p.brightness is None ==> p.applied(s).brightness == s.brightness,
        p.temperature matches Some(v) ==> p.applied(s).temperature == v,
        p.temperature is None ==> p.applied(s).temperature == s.temperature,
{
}

/// The lights that answered last time are exactly those with no error and a known
/// state: a light in error is never among them.
pub proof fn answered_lights_have_no_error(s: Seq<DeviceModel>)
    ensures
        forall|x: Seq<char>|
            online_ids(s).contains(x) <==> exists|i: int|
                0 <= i < s.len() && (#[trigger] s[i]).id == x && s[i].error is None
                    && s[i].state is Some,
    decreases s.len(),
{
    if s.len() > 0 {
        let q = s.drop_last();
        answered_lights_have_no_error(q);
        assert forall|x: Seq<char>|
            online_ids(s).contains(x) <==> exists|i: int|
                0 <= i < s.len() && (#[trigger] s[i]).id == x && s[i].error is None
                    && s[i].state is Some by {
            if online_ids(s).contains(x) {
                if online_ids(q).contains(x) {
                    let i = choose|i: int|
                        0 <= i < q.len() && (#[trigger] q[i]).id == x && q[i].error is None
                            && q[i].state is Some;
                    assert(s[i] == q[i]);
                } else {
                    let k = choose|k: int| 0 <= k < online_ids(s).len() && online_ids(s)[k] == x;
                    assert(s.last().error is None && s.last().state is Some);
                    assert(online_ids(s) == online_ids(q).push(s.last().id));
                    assert(k == online_ids(q).len());
                    assert(s[s.len() - 1] == s.last());
                }
            }
            if exists|i: int|
                0 <= i < s.len() && (#[trigger] s[i]).id == x && s[i].error is None
                    && s[i].state is Some {
                let i = choose|i: int|
                    0 <= i < s.len() && (#[trigger] s[i]).id == x && s[i].error is None
                        && s[i].state is Some;
                if i < q.len() {
                    assert(q[i] == s[i]);
                    assert(online_ids(q).contains(x));
                    let k = choose|k: int| 0 <= k < online_ids(q).len() && online_ids(q)[k] == x;
                    if s.last().error is None && s.last().state is Some {
                        assert(online_ids(s)[k] == x);
                    } else {
                        assert(online_ids(s) == online_ids(q));
                    }
                } else {
                    assert(s[i] == s.last());
                    assert(online_ids(s) == online_ids(q).push(s.last().id));
                    assert(online_ids(s)[online_ids(q).len() as int] == x);
                }
            }
        }
    }
}

/// Without forcing, a refresh reads a light unless it is in error and was tried less
/// than 30 seconds ago; forced, it reads every light.
pub proof fn refresh_backs_off_lights_in_error(
    s: Seq<DeviceModel>,
    force: bool,
    attempts: Seq<(String, u64)>,
)
    ensures
        forall|x: Seq<char>|
            due_ids(s, force, attempts).contains(x) <==> exists|i: int|
                0 <= i < s.len() && (#[trigger] s[i]).id == x && (force || s[i].error is None
                    || age_of(attempts, x) is None || age_of(attempts, x)->0 >= 30000),
    decreases s.len(),
{
    if s.len() > 0 {
        let q = s.drop_last();
        refresh_backs_off_lights_in_error(q, force, attempts);
        let last = s.last();
        let due_last = force || last.error is None || age_of(attempts, last.id) is None
            || age_of(attempts, last.id)->0 >= 30000;
        if due_last {
            assert(due_ids(s, force, attempts) == due_ids(q, force, attempts).push(last.id));
        } else {
            assert(due_ids(s, force, attempts) == due_ids(q, force, attempts));
        }
        assert forall|x: Seq<char>|
            due_ids(s, force, attempts).contains(x) <==> exists|i: int|
                0 <= i < s.len() && (#[trigger] s[i]).id == x && (force || s[i].error is None
                    || age_of(attempts, x) is None || age_of(attempts, x)->0 >= 30000) by {
            let d = due_ids(s, force, attempts);
            let dq = due_ids(q, force, attempts);
            if d.contains(x) {
                let k = choose|k: int| 0 <= k < d.len() && d[k] == x;
                if k < dq.len() {
                    assert(dq[k] == x);
                    assert(dq.contains(x));
                    let i = choose|i: int|
                        0 <= i < q.len() && (#[trigger] q[i]).id == x && (force || q[i].error
                            is None || age_of(attempts, x) is None || age_of(attempts, x)->0
                            >= 30000);
                    assert(s[i] == q[i]);
                } else {
                    assert(s[s.len() - 1] == last);
                }
            }
            if exists|i: int|
                0 <= i < s.len() && (#[trigger] s[i]).id == x && (force || s[i].error is None
                    || age_of(attempts, x) is None || age_of(attempts, x)->0 >= 30000) {
                let i = choose|i: int|
                    0 <= i < s.len() && (#[trigger] s[i]).id == x && (force || s[i].error
                        is None || age_of(attempts, x) is None || age_of(attempts, x)->0
                        >= 30000);
                if i < q.len() {
                    assert(q[i] == s[i]);
                    assert(dq.contains(x));
                    let k = choose|k: int| 0 <= k < dq.len() && dq[k] == x;
                    assert(d[k] == x);
                } else {
                    assert(s[i] == last);
                    assert(d[dq.len() as int] == x);
                }
            }
        }
    }
}

/// The title of a light that answered shows its name and whether it is switched on,
/// whatever its brightness.
pub proof fn light_title_follows_power(d: DeviceView, locale: Locale)
    requires
        d.error is None,
        d.state is Some,
    ensures
        d.state->0.on == 1 ==> (device_node(d, locale) matches MenuView::Submenu { title, .. }
            && title == d.device.name@ + " \u{b7} "@ + text_spec(locale, "on"@)),
        d.state->0.on != 1 ==> (device_node(d, locale) matches MenuView::Submenu { title, .. }
            && title == d.device.name@ + " \u{b7} "@ + text_spec(locale, "off"@)),
{
}

/// The title of a light that did not answer (an error, or no state known) shows its
/// name and that it is offline.
pub proof fn offline_light_title(d: DeviceView, locale: Locale)
    requires
        d.error is Some || d.state is None,
    ensures
        device_node(d, locale) matches MenuView::Submenu { title, .. } && title == d.device.name@
            + " \u{b7} "@ + text_spec(locale, "offline"@),
{
}

proof fn lemma_causes_prefix(cs: Seq<MessageView>, c: MessageView, locale: Locale, n: nat)
    requires
        n <= cs.len(),
    ensures
        render_causes(cs.push(c), locale, n) == render_causes(cs, locale, n),
    decreases n,
{
    if n > 1 {
        lemma_causes_prefix(cs, c, locale, (n - 1) as nat);
        assert(cs.push(c)[n - 1] == cs[n - 1]);
    } else if n == 1 {
        assert(cs.push(c)[0] == cs[0]);
    }
}

/// Adding a cause appends its text to the message's text: after `: ` when it is the
/// first cause, after `; ` otherwise.
pub proof fn causes_are_separated(m: MessageView, c: MessageView, locale: Locale)
    ensures
        m.causes.len() == 0 ==> render_view(MessageView { causes: m.causes.push(c), ..m }, locale)
            == render_view(m, locale) + ": "@ + render_view(c, locale),
        m.causes.len() > 0 ==> render_view(MessageView { causes: m.causes.push(c), ..m }, locale)
            == render_view(m, locale) + "; "@ + render_view(c, locale),
{
    let n = MessageView { causes: m.causes.push(c), ..m };
    let head = crate::i18n::substitute(text_spec(locale, m.key), m.params);
    let len = m.causes.len();
    if len == 0 {
        assert(m.causes.push(c)[0] == c);
        assert(render_causes(n.causes, locale, 1) == render_view(c, locale));
        assert(render_view(m, locale) =~= head);
        assert(render_view(n, locale) =~= head + ": "@ + render_view(c, locale));
    } else {
        lemma_causes_prefix(m.causes, c, locale, len);
        assert(n.causes[len as int] == c);
        assert(render_causes(n.causes, locale, len + 1) == render_causes(n.causes, locale, len)
            + "; "@ + render_view(c, locale));
        assert(render_view(n, locale) =~= head + ": "@ + render_causes(m.causes, locale, len)
            + "; "@ + render_view(c, locale));
    }
}

} // verus!
