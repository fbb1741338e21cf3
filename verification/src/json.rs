//! A plain JSON tree, the value language of the wire protocol.
//!
//! Envelopes, tool schemas and tool arguments are all trees of
//! [`JsonValue`]. The mathematical model of a tree is [`JsonRep`], built
//! from `int`, `Seq` and nothing else; every contract about protocol data
//! speaks of that model.

use vstd::prelude::*;

verus! {

/// The mathematical model of a JSON tree.
#[verifier::ext_equal]
pub enum JsonRep {
    Null,
    Bool(bool),
    Int(int),
    Str(Seq<char>),
    Arr(Seq<JsonRep>),
    Obj(Seq<(Seq<char>, JsonRep)>),
}

/// An executable JSON tree. Objects keep their members in order, as a
/// sequence of `(name, value)` pairs; a later member with the same name
/// overrides an earlier one, as [`JsonValue::obj_get`] states.
pub enum JsonValue {
    Null,
    Bool(bool),
    Int(i64),
    Str(String),
    Arr(Vec<JsonValue>),
    Obj(Vec<(String, JsonValue)>),
}

/// The models of the elements of a JSON array.
pub open spec fn arr_view(s: Seq<JsonValue>) -> Seq<JsonRep>
    decreases s,
{
    if s.len() == 0 {
        Seq::empty()
    } else {
        arr_view(s.drop_last()).push(s.last()@)
    }
}

/// The models of the members of a JSON object.
pub open spec fn obj_view(s: Seq<(String, JsonValue)>) -> Seq<(Seq<char>, JsonRep)>
    decreases s,
{
    if s.len() == 0 {
        Seq::empty()
    } else {
        obj_view(s.drop_last()).push((s.last().0@, s.last().1@))
    }
}

impl View for JsonValue {
    type V = JsonRep;

    open spec fn view(&self) -> JsonRep
        decreases self,
    {
        match self {
            JsonValue::Null => JsonRep::Null,
            JsonValue::Bool(b) => JsonRep::Bool(*b),
            JsonValue::Int(i) => JsonRep::Int(*i as int),
            JsonValue::Str(s) => JsonRep::Str(s@),
            JsonValue::Arr(items) => JsonRep::Arr(arr_view(items@)),
            JsonValue::Obj(fields) => JsonRep::Obj(obj_view(fields@)),
        }
    }
}

/// `arr_view` keeps the length of the sequence.
pub proof fn lemma_arr_view_len(s: Seq<JsonValue>)
    ensures
        arr_view(s).len() == s.len(),
    decreases s.len(),
{
    if s.len() > 0 {
        lemma_arr_view_len(s.drop_last());
        assert(arr_view(s) == arr_view(s.drop_last()).push(s.last()@));
    }
}

/// `arr_view` maps the sequence pointwise.
pub proof fn lemma_arr_view_index(s: Seq<JsonValue>, i: int)
    requires
        0 <= i < s.len(),
    ensures
        arr_view(s).len() == s.len(),
        arr_view(s)[i] == s[i]@,
    decreases s.len(),
{
    lemma_arr_view_len(s);
    assert(arr_view(s) == arr_view(s.drop_last()).push(s.last()@));
    if i < s.len() - 1 {
        lemma_arr_view_index(s.drop_last(), i);
        assert(s.drop_last()[i] == s[i]);
    } else {
        assert(s.last() == s[i]);
    }
}

/// `obj_view` keeps the length of the sequence.
pub proof fn lemma_obj_view_len(s: Seq<(String, JsonValue)>)
    ensures
        obj_view(s).len() == s.len(),
    decreases s.len(),
{
    if s.len() > 0 {
        lemma_obj_view_len(s.drop_last());
        assert(obj_view(s) == obj_view(s.drop_last()).push((s.last().0@, s.last().1@)));
    }
}

/// `obj_view` maps the sequence pointwise.
pub proof fn lemma_obj_view_index(s: Seq<(String, JsonValue)>, i: int)
    requires
        0 <= i < s.len(),
    ensures
        obj_view(s).len() == s.len(),
        obj_view(s)[i] == (s[i].0@, s[i].1@),
    decreases s.len(),
{
    lemma_obj_view_len(s);
    assert(obj_view(s) == obj_view(s.drop_last()).push((s.last().0@, s.last().1@)));
    if i < s.len() - 1 {
        lemma_obj_view_index(s.drop_last(), i);
        assert(s.drop_last()[i] == s[i]);
    } else {
        assert(s.last() == s[i]);
    }
}

/// Looks a member up by name, later members overriding earlier ones,
/// as a JSON parser that keeps the last duplicate would see the object.
pub open spec fn obj_rep_get(fields: Seq<(Seq<char>, JsonRep)>, key: Seq<char>) -> Option<JsonRep>
    decreases fields.len(),
{
    if fields.len() == 0 {
        None
    } else if fields.last().0 == key {
        Some(fields.last().1)
    } else {
        obj_rep_get(fields.drop_last(), key)
    }
}

/// The member lookup of a whole tree: `None` unless the tree is an object
/// with a member of that name.
pub open spec fn rep_get(v: JsonRep, key: Seq<char>) -> Option<JsonRep> {
    match v {
        JsonRep::Obj(fields) => obj_rep_get(fields, key),
        _ => None,
    }
}

impl JsonValue {
    /// The empty JSON object, `{}`.
    pub fn empty_obj() -> (r: JsonValue)
        ensures
            r@ == JsonRep::Obj(Seq::<(Seq<char>, JsonRep)>::empty()),
    {
        JsonValue::Obj(Vec::new())
    }

    /// Member lookup on an object, later members overriding earlier ones.
    pub fn obj_get<'a>(&'a self, key: &str) -> (r: Option<&'a JsonValue>)
        ensures
            match r {
                Some(v) => rep_get(self@, key@) == Some(v@),
                None => rep_get(self@, key@) is None,
            },
    {
        match self {
            JsonValue::Obj(fields) => {
                let key_string = String::from_str(key);
                let ghost frep = obj_view(fields@);
                proof {
                    lemma_obj_view_len(fields@);
                    assert(frep.take(fields@.len() as int) =~= frep);
                }
                let mut i: usize = fields.len();
                while i > 0
                    invariant
                        i <= fields.len(),
                        *self == JsonValue::Obj(*fields),
                        frep == obj_view(fields@),
                        frep.len() == fields@.len(),
                        key_string@ == key@,
                        obj_rep_get(frep, key@) == obj_rep_get(frep.take(i as int), key@),
                    decreases i,
                {
                    i = i - 1;
                    let pair = &fields[i];
                    proof {
                        lemma_obj_view_index(fields@, i as int);
                        assert(frep.take(i as int + 1).last() == frep[i as int]);
                        assert(frep.take(i as int + 1).drop_last() =~= frep.take(i as int));
                    }
                    if pair.0 == key_string {
                        return Some(&pair.1);
                    }
                }
                proof {
                    assert(frep.take(0) =~= Seq::<(Seq<char>, JsonRep)>::empty());
                }
                None
            },
            _ => None,
        }
    }

    /// The string inside a `Str` tree, `None` for every other shape.
    pub fn as_str<'a>(&'a self) -> (r: Option<&'a String>)
        ensures
            match r {
                Some(s) => self@ == JsonRep::Str(s@),
                None => !(self@ is Str),
            },
    {
        match self {
            JsonValue::Str(s) => Some(s),
            _ => None,
        }
    }

    /// The integer inside an `Int` tree, `None` for every other shape.
    pub fn as_i64(&self) -> (r: Option<i64>)
        ensures
            match r {
                Some(i) => self@ == JsonRep::Int(i as int),
                None => !(self@ is Int),
            },
    {
        match self {
            JsonValue::Int(i) => Some(*i),
            _ => None,
        }
    }

    /// The boolean inside a `Bool` tree, `None` for every other shape.
    pub fn as_bool(&self) -> (r: Option<bool>)
        ensures
            match r {
                Some(b) => self@ == JsonRep::Bool(b),
                None => !(self@ is Bool),
            },
    {
        match self {
            JsonValue::Bool(b) => Some(*b),
            _ => None,
        }
    }

    /// A structurally equal copy of the tree.
    pub fn deep_copy(&self) -> (r: JsonValue)
        ensures
            r@ == self@,
        decreases self,
    {
        match self {
            JsonValue::Null => JsonValue::Null,
            JsonValue::Bool(b) => JsonValue::Bool(*b),
            JsonValue::Int(i) => JsonValue::Int(*i),
            JsonValue::Str(s) => JsonValue::Str(s.clone()),
            JsonValue::Arr(items) => {
                let mut out: Vec<JsonValue> = Vec::new();
                let mut i: usize = 0;
                while i < items.len()
                    invariant
                        i <= items.len(),
                        *self == JsonValue::Arr(*items),
                        out@.len() == i as int,
                        forall|j: int| 0 <= j < i as int ==> out@[j]@ == #[trigger] items@[j]@,
                    decreases items@.len() - i,
                {
                    proof {
                        assert(decreases_to!(self => self->Arr_0));
                        assert(decreases_to!(self->Arr_0 => self->Arr_0@));
                        assert(decreases_to!(self->Arr_0@ => self->Arr_0@[i as int]));
                        assert(items@ == self->Arr_0@);
                    }
                    let copied = items[i].deep_copy();
                    out.push(copied);
                    i = i + 1;
                }
                proof {
                    lemma_arr_view_len(out@);
                    lemma_arr_view_len(items@);
                    assert forall|j: int| 0 <= j < out@.len()
                        implies #[trigger] arr_view(out@)[j] == arr_view(items@)[j] by {
                        lemma_arr_view_index(out@, j);
                        lemma_arr_view_index(items@, j);
                    }
                    assert(arr_view(out@) =~= arr_view(items@));
                }
                JsonValue::Arr(out)
            },
            JsonValue::Obj(fields) => {
                let mut out: Vec<(String, JsonValue)> = Vec::new();
                let mut i: usize = 0;
                while i < fields.len()
                    invariant
                        i <= fields.len(),
                        *self == JsonValue::Obj(*fields),
                        out@.len() == i as int,
                        forall|j: int| 0 <= j < i as int ==> out@[j].0@ == #[trigger] fields@[j].0@
                            && out@[j].1@ == fields@[j].1@,
                    decreases fields@.len() - i,
                {
                    proof {
                        assert(decreases_to!(self => self->Obj_0));
                        assert(decreases_to!(self->Obj_0 => self->Obj_0@));
                        assert(decreases_to!(self->Obj_0@ => self->Obj_0@[i as int]));
                        assert(decreases_to!(self->Obj_0@[i as int] => self->Obj_0@[i as int].1));
                        assert(fields@ == self->Obj_0@);
                    }
                    let pair = &fields[i];
                    let copied = pair.1.deep_copy();
                    out.push((pair.0.clone(), copied));
                    i = i + 1;
                }
                proof {
                    lemma_obj_view_len(out@);
                    lemma_obj_view_len(fields@);
                    assert forall|j: int| 0 <= j < out@.len()
                        implies #[trigger] obj_view(out@)[j] == obj_view(fields@)[j] by {
                        lemma_obj_view_index(out@, j);
                        lemma_obj_view_index(fields@, j);
                    }
                    assert(obj_view(out@) =~= obj_view(fields@));
                }
                JsonValue::Obj(out)
            },
        }
    }
}

impl Clone for JsonValue {
    /// Cloning a tree preserves its model exactly.
    fn clone(&self) -> (r: Self)
        ensures
            r@ == self@,
    {
        self.deep_copy()
    }
}

} // verus!
