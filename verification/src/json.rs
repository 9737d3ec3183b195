//! A plain JSON document model.
//!
//! The normalizer works on this tree; numbers are held as integers, which is
//! what the schema fields the normalizer reads can carry. Contracts speak of
//! the mathematical form [`JsonV`], in which strings are character sequences.

use vstd::prelude::*;

verus! {

/// A JSON value. Object member order is preserved.
#[derive(Debug)]
pub enum JsonValue {
    Null,
    Bool(bool),
    Int(i64),
    Str(String),
    Array(Vec<JsonValue>),
    Object(Vec<(String, JsonValue)>),
}

/// The mathematical form of a JSON value: strings are character sequences.
pub ghost enum JsonV {
    Null,
    Bool(bool),
    Int(int),
    Str(Seq<char>),
    Arr(Seq<JsonV>),
    Obj(Seq<(Seq<char>, JsonV)>),
}

/// The mathematical form of `v`.
pub open spec fn jview(v: JsonValue) -> JsonV
    decreases v,
{
    match v {
        JsonValue::Null => JsonV::Null,
        JsonValue::Bool(b) => JsonV::Bool(b),
        JsonValue::Int(n) => JsonV::Int(n as int),
        JsonValue::Str(s) => JsonV::Str(s@),
        JsonValue::Array(items) => JsonV::Arr(jview_list(items@)),
        JsonValue::Object(pairs) => JsonV::Obj(jview_pairs(pairs@)),
    }
}

/// The mathematical form of a list of JSON values.
pub open spec fn jview_list(items: Seq<JsonValue>) -> Seq<JsonV>
    decreases items,
{
    if items.len() == 0 {
        Seq::empty()
    } else {
        seq![jview(items[0])] + jview_list(items.drop_first())
    }
}

/// The mathematical form of the members of a JSON object.
pub open spec fn jview_pairs(pairs: Seq<(String, JsonValue)>) -> Seq<(Seq<char>, JsonV)>
    decreases pairs,
{
    if pairs.len() == 0 {
        Seq::empty()
    } else {
        seq![(pairs[0].0@, jview(pairs[0].1))] + jview_pairs(pairs.drop_first())
    }
}

/// `jview_list` maps the list pointwise.
pub proof fn lemma_jview_list_index(items: Seq<JsonValue>)
    ensures
        jview_list(items).len() == items.len(),
        forall|i: int|
            0 <= i < items.len() ==> #[trigger] jview_list(items)[i] == jview(items[i]),
    decreases items,
{
    if items.len() > 0 {
        lemma_jview_list_index(items.drop_first());
    }
}

/// `jview_pairs` maps the member list pointwise.
pub proof fn lemma_jview_pairs_index(pairs: Seq<(String, JsonValue)>)
    ensures
        jview_pairs(pairs).len() == pairs.len(),
        forall|i: int|
            0 <= i < pairs.len() ==> #[trigger] jview_pairs(pairs)[i] == (
            pairs[i].0@,
            jview(pairs[i].1),
            ),
    decreases pairs,
{
    if pairs.len() > 0 {
        lemma_jview_pairs_index(pairs.drop_first());
    }
}

/// Nesting depth of a JSON value; containers are deeper than everything they
/// hold. Serves as a termination measure for recursion over looked-up
/// subvalues.
pub open spec fn jheight(v: JsonV) -> nat
    decreases v,
{
    match v {
        JsonV::Arr(items) => 1 + jheight_list(items),
        JsonV::Obj(pairs) => 1 + jheight_pairs(pairs),
        _ => 0,
    }
}

/// Greatest nesting depth among the elements of a list.
pub open spec fn jheight_list(items: Seq<JsonV>) -> nat
    decreases items,
{
    if items.len() == 0 {
        0
    } else if jheight(items[0]) > jheight_list(items.drop_first()) {
        jheight(items[0])
    } else {
        jheight_list(items.drop_first())
    }
}

/// Greatest nesting depth among the member values of an object.
pub open spec fn jheight_pairs(pairs: Seq<(Seq<char>, JsonV)>) -> nat
    decreases pairs,
{
    if pairs.len() == 0 {
        0
    } else if jheight(pairs[0].1) > jheight_pairs(pairs.drop_first()) {
        jheight(pairs[0].1)
    } else {
        jheight_pairs(pairs.drop_first())
    }
}

/// Every element of a list is at most as deep as the list.
pub proof fn lemma_jheight_list_elem(items: Seq<JsonV>)
    ensures
        forall|i: int| 0 <= i < items.len() ==> #[trigger] jheight(items[i]) <= jheight_list(items),
    decreases items,
{
    if items.len() > 0 {
        lemma_jheight_list_elem(items.drop_first());
        assert forall|i: int| 0 <= i < items.len() implies #[trigger] jheight(items[i])
            <= jheight_list(items) by {
            if i > 0 {
                assert(items.drop_first()[i - 1] == items[i]);
                assert(jheight(items.drop_first()[i - 1]) <= jheight_list(items.drop_first()));
            }
        }
    }
}

/// Every member value of an object is at most as deep as the member list.
pub proof fn lemma_jheight_pairs_value(pairs: Seq<(Seq<char>, JsonV)>)
    ensures
        forall|i: int|
            0 <= i < pairs.len() ==> #[trigger] jheight(pairs[i].1) <= jheight_pairs(pairs),
    decreases pairs,
{
    if pairs.len() > 0 {
        lemma_jheight_pairs_value(pairs.drop_first());
        assert forall|i: int| 0 <= i < pairs.len() implies #[trigger] jheight(pairs[i].1)
            <= jheight_pairs(pairs) by {
            if i > 0 {
                assert(pairs.drop_first()[i - 1] == pairs[i]);
                assert(jheight(pairs.drop_first()[i - 1].1) <= jheight_pairs(pairs.drop_first()));
            }
        }
    }
}

/// The first member of an object with the given name, if any.
pub open spec fn jlookup(pairs: Seq<(Seq<char>, JsonV)>, key: Seq<char>) -> Option<JsonV>
    decreases pairs,
{
    if pairs.len() == 0 {
        None
    } else if pairs[0].0 == key {
        Some(pairs[0].1)
    } else {
        jlookup(pairs.drop_first(), key)
    }
}

/// The object has a member with the given name.
pub open spec fn jhas(pairs: Seq<(Seq<char>, JsonV)>, key: Seq<char>) -> bool {
    jlookup(pairs, key) is Some
}

/// Characterizes `jlookup` by the position of the first match.
pub proof fn lemma_jlookup_at(pairs: Seq<(Seq<char>, JsonV)>, key: Seq<char>, i: int)
    requires
        0 <= i < pairs.len(),
        forall|k: int| 0 <= k < i ==> (#[trigger] pairs[k].0) != key,
        pairs[i].0 == key,
    ensures
        jlookup(pairs, key) == Some(pairs[i].1),
    decreases pairs,
{
    if i > 0 {
        lemma_jlookup_at(pairs.drop_first(), key, i - 1);
    }
}

/// When no member has the given name, `jlookup` finds nothing.
pub proof fn lemma_jlookup_none(pairs: Seq<(Seq<char>, JsonV)>, key: Seq<char>)
    requires
        forall|k: int| 0 <= k < pairs.len() ==> (#[trigger] pairs[k].0) != key,
    ensures
        jlookup(pairs, key) is None,
    decreases pairs,
{
    if pairs.len() > 0 {
        lemma_jlookup_none(pairs.drop_first(), key);
    }
}

/// A looked-up member value sits strictly below the object.
pub proof fn lemma_jlookup_height(pairs: Seq<(Seq<char>, JsonV)>, key: Seq<char>)
    requires
        jlookup(pairs, key) is Some,
    ensures
        jheight(jlookup(pairs, key)->Some_0) < jheight(JsonV::Obj(pairs)),
    decreases pairs,
{
    if pairs.len() > 0 {
        if pairs[0].0 == key {
            lemma_jheight_pairs_value(pairs);
            assert(pairs[0] == pairs[0int]);
        } else {
            lemma_jlookup_height(pairs.drop_first(), key);
            lemma_jheight_pairs_drop(pairs);
        }
    }
}

/// Dropping the first member cannot increase the depth of an object.
pub proof fn lemma_jheight_pairs_drop(pairs: Seq<(Seq<char>, JsonV)>)
    requires
        pairs.len() > 0,
    ensures
        jheight_pairs(pairs.drop_first()) <= jheight_pairs(pairs),
{
}

/// Finds the first member of `pairs` with name `key`.
pub fn obj_get<'a>(pairs: &'a Vec<(String, JsonValue)>, key: &str) -> (r: Option<&'a JsonValue>)
    ensures
        match r {
            Some(v) => jlookup(jview_pairs(pairs@), key@) == Some(jview(*v)),
            None => jlookup(jview_pairs(pairs@), key@) is None,
        },
{
    proof {
        lemma_jview_pairs_index(pairs@);
    }
    let ghost gp = jview_pairs(pairs@);
    let mut i: usize = 0;
    while i < pairs.len()
        invariant
            gp == jview_pairs(pairs@),
            gp.len() == pairs@.len(),
            forall|k: int|
                0 <= k < pairs@.len() ==> #[trigger] gp[k] == (pairs@[k].0@, jview(pairs@[k].1)),
            i <= pairs.len(),
            forall|k: int| 0 <= k < i ==> (#[trigger] gp[k].0) != key@,
        decreases pairs.len() - i,
    {
        if crate::strings::str_eq(pairs[i].0.as_str(), key) {
            proof {
                lemma_jlookup_at(gp, key@, i as int);
            }
            return Some(&pairs[i].1);
        }
        i = i + 1;
    }
    proof {
        lemma_jlookup_none(gp, key@);
    }
    None
}


/// `jview_list` distributes over concatenation.
pub proof fn lemma_jview_list_concat(a: Seq<JsonValue>, b: Seq<JsonValue>)
    ensures
        jview_list(a + b) == jview_list(a) + jview_list(b),
    decreases a,
{
    if a.len() == 0 {
        assert(a + b =~= b);
        assert(jview_list(a) + jview_list(b) =~= jview_list(b));
    } else {
        lemma_jview_list_concat(a.drop_first(), b);
        assert((a + b).drop_first() =~= a.drop_first() + b);
        assert(jview_list(a + b) =~= jview_list(a) + jview_list(b));
    }
}

/// `jview_pairs` distributes over concatenation.
pub proof fn lemma_jview_pairs_concat(a: Seq<(String, JsonValue)>, b: Seq<(String, JsonValue)>)
    ensures
        jview_pairs(a + b) == jview_pairs(a) + jview_pairs(b),
    decreases a,
{
    if a.len() == 0 {
        assert(a + b =~= b);
        assert(jview_pairs(a) + jview_pairs(b) =~= jview_pairs(b));
    } else {
        lemma_jview_pairs_concat(a.drop_first(), b);
        assert((a + b).drop_first() =~= a.drop_first() + b);
        assert(jview_pairs(a + b) =~= jview_pairs(a) + jview_pairs(b));
    }
}

impl Clone for JsonValue {
    /// The copy has the same mathematical form as the original.
    #[verifier::loop_isolation(false)]
    fn clone(&self) -> (r: Self)
        ensures
            jview(r) == jview(*self),
        decreases jheight(jview(*self)),
    {
        match self {
            JsonValue::Null => JsonValue::Null,
            JsonValue::Bool(b) => JsonValue::Bool(*b),
            JsonValue::Int(n) => JsonValue::Int(*n),
            JsonValue::Str(s) => JsonValue::Str(s.clone()),
            JsonValue::Array(items) => {
                let mut out: Vec<JsonValue> = Vec::new();
                let mut i: usize = 0;
                while i < items.len()
                    invariant
                        i <= items.len(),
                        out@.len() == i,
                        forall|k: int|
                            0 <= k < i ==> jview(#[trigger] out@[k]) == jview(items@[k]),
                    decreases items.len() - i,
                {
                    proof {
                        lemma_jview_list_index(items@);
                        lemma_jheight_list_elem(jview_list(items@));
                        assert(jview_list(items@)[i as int] == jview(items@[i as int]));
                        assert(jheight(jview_list(items@)[i as int]) <= jheight_list(
                            jview_list(items@),
                        ));
                        assert(*self == JsonValue::Array(*items));
                        assert(jheight(jview(*self)) == 1 + jheight_list(jview_list(items@)));
                    }
                    let c = items[i].clone();
                    out.push(c);
                    i = i + 1;
                }
                proof {
                    lemma_jview_list_index(out@);
                    lemma_jview_list_index(items@);
                    assert(jview_list(out@) =~= jview_list(items@));
                }
                JsonValue::Array(out)
            },
            JsonValue::Object(pairs) => {
                let mut out: Vec<(String, JsonValue)> = Vec::new();
                let mut i: usize = 0;
                while i < pairs.len()
                    invariant
                        i <= pairs.len(),
                        out@.len() == i,
                        forall|k: int|
                            0 <= k < i ==> (#[trigger] out@[k]).0@ == pairs@[k].0@ && jview(
                                out@[k].1,
                            ) == jview(pairs@[k].1),
                    decreases pairs.len() - i,
                {
                    proof {
                        lemma_jview_pairs_index(pairs@);
                        lemma_jheight_pairs_value(jview_pairs(pairs@));
                        assert(jview_pairs(pairs@)[i as int] == (
                            pairs@[i as int].0@,
                            jview(pairs@[i as int].1),
                        ));
                        assert(jheight(jview_pairs(pairs@)[i as int].1) <= jheight_pairs(
                            jview_pairs(pairs@),
                        ));
                        assert(*self == JsonValue::Object(*pairs));
                        assert(jheight(jview(*self)) == 1 + jheight_pairs(jview_pairs(pairs@)));
                    }
                    let key = pairs[i].0.clone();
                    let val = pairs[i].1.clone();
                    out.push((key, val));
                    i = i + 1;
                }
                proof {
                    lemma_jview_pairs_index(out@);
                    lemma_jview_pairs_index(pairs@);
                    assert(jview_pairs(out@) =~= jview_pairs(pairs@));
                }
                JsonValue::Object(out)
            },
        }
    }
}

} // verus!
