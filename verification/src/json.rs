//! Reading the members of a JSON object, and the key/value lists that both
//! translation catalogs and message parameters are made of.
use vstd::prelude::*;

verus! {

/// The members of the JSON object that `text` holds, in ascending key order, each
/// member's value given when it is a JSON string; `None` when `text` is not a JSON
/// object. This is what `serde_json` computes, and it depends on `text` alone.
pub uninterp spec fn json_object_members(text: Seq<char>) -> Option<Seq<(Seq<char>, Option<Seq<char>>)>>;

pub open spec fn member_view(m: (String, Option<String>)) -> (Seq<char>, Option<Seq<char>>) {
    (
        m.0@,
        match m.1 {
            Some(s) => Some(s@),
            None => None,
        },
    )
}

pub open spec fn members_view(v: Seq<(String, Option<String>)>) -> Seq<(Seq<char>, Option<Seq<char>>)> {
    v.map_values(|m: (String, Option<String>)| member_view(m))
}

/// What an object's parsed members, if any, mean.
pub open spec fn parsed_view(r: Option<Vec<(String, Option<String>)>>) -> Option<
    Seq<(Seq<char>, Option<Seq<char>>)>,
> {
    match r {
        Some(v) => Some(members_view(v@)),
        None => None,
    }
}

/// Parses `text` with `serde_json::from_str` into an ordered map from keys to JSON
/// values and hands out each member as its key and, for a string value, the string.
/// Claimed: the result is `json_object_members(text)`, a function of the text alone.
/// Left unsaid: which texts `serde_json` accepts, and how it decodes them.
#[verifier::external_body]
pub fn object_members(text: &str) -> (r: Option<Vec<(String, Option<String>)>>)
    ensures
        json_object_members(text@) == parsed_view(r),
{
    match serde_json::from_str::<std::collections::BTreeMap<String, serde_json::Value>>(text) {
        Ok(map) => Some(
            map.into_iter().map(|(k, v)| match v {
                serde_json::Value::String(s) => (k, Some(s)),
                _ => (k, None),
            }).collect(),
        ),
        Err(_) => None,
    }
}

/// The value that `key` has in a JSON object's members, if the member is a string.
pub open spec fn member_str(members: Seq<(Seq<char>, Option<Seq<char>>)>, key: Seq<char>) -> Option<Seq<char>>
    decreases members.len(),
{
    if members.len() == 0 {
        None
    } else if members.last().0 == key {
        members.last().1
    } else {
        member_str(members.drop_last(), key)
    }
}

pub fn find_member_str(members: &Vec<(String, Option<String>)>, key: &str) -> (r: Option<String>)
    ensures
        match r {
            Some(s) => member_str(members_view(members@), key@) == Some(s@),
            None => member_str(members_view(members@), key@) is None,
        },
{
    let mut i = members.len();
    assert(members@.take(i as int) =~= members@);
    while i > 0
        invariant
            i <= members@.len(),
            member_str(members_view(members@), key@) == member_str(
                members_view(members@.take(i as int)),
                key@,
            ),
        decreases i,
    {
        let ghost t = members_view(members@.take(i as int));
        assert(t.drop_last() =~= members_view(members@.take(i - 1)));
        assert(t.last() == member_view(members@[i - 1]));
        if crate::chars::same_text(members[i - 1].0.as_str(), key) {
            return match &members[i - 1].1 {
                Some(s) => Some(s.clone()),
                None => None,
            };
        }
        i = i - 1;
    }
    None
}

/// The map that a list of key/value pairs builds when the pairs are inserted in order:
/// a later pair replaces an earlier one with the same key.
pub open spec fn pairs_map(ps: Seq<(Seq<char>, Seq<char>)>) -> Map<Seq<char>, Seq<char>>
    decreases ps.len(),
{
    if ps.len() == 0 {
        Map::empty()
    } else {
        pairs_map(ps.drop_last()).insert(ps.last().0, ps.last().1)
    }
}

pub open spec fn pair_view(p: (String, String)) -> (Seq<char>, Seq<char>) {
    (p.0@, p.1@)
}

pub open spec fn pairs_view(v: Seq<(String, String)>) -> Seq<(Seq<char>, Seq<char>)> {
    v.map_values(|p: (String, String)| pair_view(p))
}

/// The value that the pairs give `key`: that of the last pair with that key.
pub fn lookup(pairs: &Vec<(String, String)>, key: &str) -> (r: Option<String>)
    ensures
        match r {
            Some(s) => pairs_map(pairs_view(pairs@)).contains_key(key@) && pairs_map(
                pairs_view(pairs@),
            )[key@] == s@,
            None => !pairs_map(pairs_view(pairs@)).contains_key(key@),
        },
{
    let mut i = pairs.len();
    while i > 0
        invariant
            i <= pairs@.len(),
            forall|j: int|
                i <= j < pairs@.len() ==> (#[trigger] pairs@[j]).0@ != key@,
        decreases i,
    {
        if crate::chars::same_text(pairs[i - 1].0.as_str(), key) {
            proof {
                lemma_pairs_map_last(pairs_view(pairs@), key@, i - 1);
            }
            return Some(pairs[i - 1].1.clone());
        }
        i = i - 1;
    }
    proof {
        lemma_pairs_map_absent(pairs_view(pairs@), key@);
    }
    None
}

pub proof fn lemma_pairs_map_last(ps: Seq<(Seq<char>, Seq<char>)>, key: Seq<char>, j: int)
    requires
        0 <= j < ps.len(),
        ps[j].0 == key,
        forall|k: int| j < k < ps.len() ==> (#[trigger] ps[k]).0 != key,
    ensures
        pairs_map(ps).contains_key(key),
        pairs_map(ps)[key] == ps[j].1,
    decreases ps.len(),
{
    if j < ps.len() - 1 {
        let p = ps.drop_last();
        assert(ps[ps.len() - 1].0 != key);
        assert forall|k: int| j < k < p.len() implies (#[trigger] p[k]).0 != key by {
            assert(p[k] == ps[k]);
        }
        lemma_pairs_map_last(p, key, j);
    }
}

pub proof fn lemma_pairs_map_absent(ps: Seq<(Seq<char>, Seq<char>)>, key: Seq<char>)
    requires
        forall|k: int| 0 <= k < ps.len() ==> (#[trigger] ps[k]).0 != key,
    ensures
        !pairs_map(ps).contains_key(key),
    decreases ps.len(),
{
    if ps.len() > 0 {
        let p = ps.drop_last();
        assert(ps[ps.len() - 1].0 != key);
        assert forall|k: int| 0 <= k < p.len() implies (#[trigger] p[k]).0 != key by {
            assert(p[k] == ps[k]);
        }
        lemma_pairs_map_absent(p, key);
    }
}

} // verus!
