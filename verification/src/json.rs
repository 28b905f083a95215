//! The canonical JSON shape the converters produce: null, text, ordered
//! arrays, and objects with an ordered key list.

use vstd::prelude::*;

verus! {

broadcast use vstd::std_specs::vec::axiom_vec_index_decreases;

/// A JSON value restricted to what the canonical shape uses: strings,
/// nulls, arrays, and objects whose keys stay in insertion order.
#[derive(Debug)]
pub enum Json {
    Null,
    Text(String),
    Array(Vec<Json>),
    Object(Vec<(String, Json)>),
}

/// The mathematical model of a JSON value.
#[verifier::ext_equal]
pub enum JsonV {
    Null,
    Text(Seq<char>),
    Array(Seq<JsonV>),
    Object(Seq<(Seq<char>, JsonV)>),
}

/// The model of a JSON value: texts become character sequences, arrays
/// and objects become sequences of models.
pub open spec fn json_view(j: Json) -> JsonV
    decreases j,
{
    match j {
        Json::Null => JsonV::Null,
        Json::Text(s) => JsonV::Text(s@),
        Json::Array(items) => JsonV::Array(
            Seq::new(
                items@.len(),
                |i: int|
                    if 0 <= i < items@.len() {
                        json_view(items@[i])
                    } else {
                        JsonV::Null
                    },
            ),
        ),
        Json::Object(fields) => JsonV::Object(
            Seq::new(
                fields@.len(),
                |i: int|
                    if 0 <= i < fields@.len() {
                        (fields@[i].0@, json_view(fields@[i].1))
                    } else {
                        (Seq::empty(), JsonV::Null)
                    },
            ),
        ),
    }
}

impl View for Json {
    type V = JsonV;

    open spec fn view(&self) -> JsonV {
        json_view(*self)
    }
}

impl Json {
    /// A deep copy.
    pub fn deep_clone(&self) -> (r: Json)
        ensures
            r@ == self@,
        decreases self,
    {
        match self {
            Json::Null => Json::Null,
            Json::Text(s) => Json::Text(s.clone()),
            Json::Array(items) => {
                let mut out: Vec<Json> = Vec::new();
                let n = items.len();
                let mut i: usize = 0;
                while i < n
                    invariant
                        i <= n,
                        n == items@.len(),
                        *self == Json::Array(*items),
                        out@.len() == i,
                        forall|k: int| 0 <= k < i ==> out@[k]@ == json_view(items@[k]),
                    decreases n - i,
                {
                    proof {
                        assert(decreases_to!(*self => (*self)->Array_0));
                        assert(decreases_to!((*self)->Array_0 => items@));
                        assert(decreases_to!(items@ => items@[i as int]));
                    }
                    let c = items[i].deep_clone();
                    out.push(c);
                    i = i + 1;
                }
                proof {
                    assert(json_view(Json::Array(out))->Array_0 =~= json_view(*self)->Array_0);
                    assert(json_view(Json::Array(out)) =~= json_view(*self));
                }
                Json::Array(out)
            },
            Json::Object(fields) => {
                let mut out: Vec<(String, Json)> = Vec::new();
                let n = fields.len();
                let mut i: usize = 0;
                while i < n
                    invariant
                        i <= n,
                        n == fields@.len(),
                        *self == Json::Object(*fields),
                        out@.len() == i,
                        forall|k: int|
                            0 <= k < i ==> out@[k].0@ == fields@[k].0@ && out@[k].1@ == json_view(
                                fields@[k].1,
                            ),
                    decreases n - i,
                {
                    proof {
                        assert(decreases_to!(*self => (*self)->Object_0));
                        assert(decreases_to!((*self)->Object_0 => fields@));
                        assert(decreases_to!(fields@ => fields@[i as int]));
                        assert(decreases_to!(fields@[i as int] => fields@[i as int].1));
                    }
                    let key = fields[i].0.clone();
                    let val = fields[i].1.deep_clone();
                    out.push((key, val));
                    i = i + 1;
                }
                proof {
                    assert(json_view(Json::Object(out))->Object_0 =~= json_view(*self)->Object_0);
                    assert(json_view(Json::Object(out)) =~= json_view(*self));
                }
                Json::Object(out)
            },
        }
    }
}

/// Deep structural equality of two JSON values: true exactly when their
/// models coincide.
pub fn json_eq(a: &Json, b: &Json) -> (r: bool)
    ensures
        r <==> a@ == b@,
    decreases a,
{
    match (a, b) {
        (Json::Null, Json::Null) => {
            proof {
                assert(a@ == b@);
            }
            return true;
        },
        (Json::Text(x), Json::Text(y)) => {
            let same = *x == *y;
            proof {
                assert(a@ == JsonV::Text(x@));
                assert(b@ == JsonV::Text(y@));
            }
            return same;
        },
        (Json::Array(xs), Json::Array(ys)) => {
            if xs.len() != ys.len() {
                proof {
                    assert(a@ != b@) by {
                        if a@ == b@ {
                            assert(json_view(*a)->Array_0.len() == json_view(*b)->Array_0.len());
                        }
                    }
                }
                return false;
            }
            let n = xs.len();
            let mut i: usize = 0;
            while i < n
                invariant
                    i <= n,
                    n == xs@.len() == ys@.len(),
                    a == Json::Array(*xs) && b == Json::Array(*ys),
                    forall|k: int| 0 <= k < i ==> json_view(xs@[k]) == json_view(ys@[k]),
                decreases n - i,
            {
                proof {
                    assert(decreases_to!(*a => (*a)->Array_0));
                    assert(decreases_to!((*a)->Array_0 => xs@));
                    assert(decreases_to!(xs@ => xs@[i as int]));
                }
                if !json_eq(&xs[i], &ys[i]) {
                    proof {
                        assert(json_view(*a)->Array_0[i as int] != json_view(
                            *b,
                        )->Array_0[i as int]);
                    }
                    return false;
                }
                i = i + 1;
            }
            proof {
                assert(json_view(*a)->Array_0 =~= json_view(*b)->Array_0);
                assert(json_view(*a) =~= json_view(*b));
                assert(a@ == b@);
            }
            return true;
        },
        (Json::Object(xs), Json::Object(ys)) => {
            if xs.len() != ys.len() {
                proof {
                    assert(a@ != b@) by {
                        if a@ == b@ {
                            assert(json_view(*a)->Object_0.len() == json_view(*b)->Object_0.len());
                        }
                    }
                }
                return false;
            }
            let n = xs.len();
            let mut i: usize = 0;
            while i < n
                invariant
                    i <= n,
                    n == xs@.len() == ys@.len(),
                    a == Json::Object(*xs) && b == Json::Object(*ys),
                    forall|k: int|
                        0 <= k < i ==> xs@[k].0@ == ys@[k].0@ && json_view(xs@[k].1) == json_view(
                            ys@[k].1,
                        ),
                decreases n - i,
            {
                proof {
                    assert(decreases_to!(*a => (*a)->Object_0));
                    assert(decreases_to!((*a)->Object_0 => xs@));
                    assert(decreases_to!(xs@ => xs@[i as int]));
                    assert(decreases_to!(xs@[i as int] => xs@[i as int].1));
                }
                let keys_match = xs[i].0 == ys[i].0;
                if !keys_match {
                    proof {
                        assert(json_view(*a)->Object_0[i as int].0 != json_view(
                            *b,
                        )->Object_0[i as int].0);
                    }
                    return false;
                }
                if !json_eq(&xs[i].1, &ys[i].1) {
                    proof {
                        assert(json_view(*a)->Object_0[i as int].1 != json_view(
                            *b,
                        )->Object_0[i as int].1);
                    }
                    return false;
                }
                i = i + 1;
            }
            proof {
                assert(json_view(*a)->Object_0 =~= json_view(*b)->Object_0);
                assert(json_view(*a) =~= json_view(*b));
                assert(a@ == b@);
            }
            return true;
        },
        _ => {
            proof {
                assert(a@ != b@);
            }
            return false;
        },
    }
}

} // verus!
