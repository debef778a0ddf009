//! Header fields: a mapping from names to values that remembers the order in
//! which its names first came in.

use crate::search::{first_where, lemma_first_where, lemma_first_where_unique};
use crate::text::same_text;
use vstd::prelude::*;

verus! {

/// A header field as plain text: its name and its value.
pub type Field = (Seq<char>, Seq<char>);

/// No name occurs in two fields.
pub open spec fn names_distinct(fields: Seq<Field>) -> bool {
    forall|i: int, j: int| 0 <= i < j < fields.len() ==> fields[i].0 != fields[j].0
}

/// The position of the first field named `name`, or `fields.len()` where
/// there is none.
pub open spec fn position_of(fields: Seq<Field>, name: Seq<char>) -> int {
    first_where(fields, is_named(name))
}

/// Being a field with the name `name`.
pub open spec fn is_named(name: Seq<char>) -> spec_fn(Field) -> bool {
    |field: Field| field.0 == name
}

/// `fields` after `name` is set to `value`: a field of that name keeps its
/// place and takes the new value, a new name goes to the end.
pub open spec fn put(fields: Seq<Field>, name: Seq<char>, value: Seq<char>) -> Seq<Field> {
    let at = position_of(fields, name);
    if 0 <= at < fields.len() {
        fields.update(at, (name, value))
    } else {
        fields.push((name, value))
    }
}

/// `fields` without the first field named `name`.
pub open spec fn without(fields: Seq<Field>, name: Seq<char>) -> Seq<Field> {
    let at = position_of(fields, name);
    if 0 <= at < fields.len() {
        fields.remove(at)
    } else {
        fields
    }
}

/// The mapping that `fields` stand for: each name with the value of its last
/// field.
pub open spec fn as_map(fields: Seq<Field>) -> Map<Seq<char>, Seq<char>>
    decreases fields.len(),
{
    if fields.len() == 0 {
        Map::empty()
    } else {
        as_map(fields.drop_last()).insert(fields.last().0, fields.last().1)
    }
}

/// `position_of` lies within `0..=fields.len()`, no field before it has the
/// name, and where it lies inside `fields` it points at a field of that name.
pub proof fn lemma_position_of(fields: Seq<Field>, name: Seq<char>)
    ensures
        0 <= position_of(fields, name) <= fields.len(),
        forall|j: int| 0 <= j < position_of(fields, name) ==> fields[j].0 != name,
        position_of(fields, name) < fields.len() ==> fields[position_of(fields, name)].0 == name,
{
    lemma_first_where(fields, is_named(name));
}

/// A position that has no field of the name before it and is either the end
/// of `fields` or a field of that name is the one that `position_of` names.
pub proof fn lemma_position_of_unique(fields: Seq<Field>, name: Seq<char>, at: int)
    requires
        0 <= at <= fields.len(),
        forall|j: int| 0 <= j < at ==> fields[j].0 != name,
        at < fields.len() ==> fields[at].0 == name,
    ensures
        position_of(fields, name) == at,
{
    lemma_first_where_unique(fields, is_named(name), at);
}

/// The mapping holds exactly the names that occur in `fields`.
pub proof fn lemma_as_map_names(fields: Seq<Field>, name: Seq<char>)
    ensures
        as_map(fields).contains_key(name) <==> position_of(fields, name) < fields.len(),
    decreases fields.len(),
{
    if fields.len() > 0 {
        let front = fields.drop_last();
        lemma_as_map_names(front, name);
        lemma_position_of(front, name);
        assert forall|j: int| 0 <= j < position_of(front, name) implies fields[j].0 != name by {
            assert(fields[j] == front[j]);
        }
        if position_of(front, name) < front.len() {
            lemma_position_of_unique(fields, name, position_of(front, name));
        } else if fields.last().0 == name {
            lemma_position_of_unique(fields, name, fields.len() - 1);
        } else {
            lemma_position_of_unique(fields, name, fields.len() as int);
        }
    }
}

/// Where the names are distinct, each name maps to the value of its field.
pub proof fn lemma_as_map_value(fields: Seq<Field>, at: int)
    requires
        names_distinct(fields),
        0 <= at < fields.len(),
    ensures
        as_map(fields).contains_key(fields[at].0),
        as_map(fields)[fields[at].0] == fields[at].1,
    decreases fields.len(),
{
    let front = fields.drop_last();
    if at < fields.len() - 1 {
        lemma_as_map_value(front, at);
    }
}

/// Setting a name on the fields sets it in the mapping, and keeps the names
/// distinct.
pub proof fn lemma_put(fields: Seq<Field>, name: Seq<char>, value: Seq<char>)
    requires
        names_distinct(fields),
    ensures
        names_distinct(put(fields, name, value)),
        as_map(put(fields, name, value)) == as_map(fields).insert(name, value),
{
    lemma_position_of(fields, name);
    let at = position_of(fields, name);
    let after = put(fields, name, value);
    if at < fields.len() {
        assert forall|key: Seq<char>| #[trigger]
            as_map(after).contains_key(key) <==> as_map(fields).insert(name, value).contains_key(
                key,
            ) by {
            lemma_as_map_names(after, key);
            lemma_as_map_names(fields, key);
            lemma_position_of(fields, key);
            if position_of(fields, key) < fields.len() {
                lemma_position_of_unique(after, key, position_of(fields, key));
            } else {
                lemma_position_of_unique(after, key, after.len() as int);
            }
        }
        assert forall|key: Seq<char>| #[trigger]
            as_map(after).contains_key(key) implies as_map(after)[key] == as_map(fields).insert(
                name,
                value,
            )[key] by {
            lemma_as_map_names(after, key);
            lemma_position_of(after, key);
            let here = position_of(after, key);
            lemma_as_map_value(after, here);
            if here != at {
                lemma_as_map_value(fields, here);
            }
        }
    } else {
        assert(after.drop_last() =~= fields);
    }
}

/// Taking a name out of fields with distinct names takes it out of the
/// mapping, leaves no field of that name, and keeps the names distinct.
pub proof fn lemma_without(fields: Seq<Field>, name: Seq<char>)
    requires
        names_distinct(fields),
    ensures
        names_distinct(without(fields, name)),
        position_of(without(fields, name), name) == without(fields, name).len(),
        as_map(without(fields, name)) == as_map(fields).remove(name),
{
    lemma_position_of(fields, name);
    lemma_as_map_names(fields, name);
    let at = position_of(fields, name);
    let after = without(fields, name);
    if at < fields.len() {
        lemma_position_of_unique(after, name, after.len() as int);
        assert forall|key: Seq<char>| #[trigger]
            as_map(after).contains_key(key) <==> as_map(fields).remove(name).contains_key(key) by {
            lemma_as_map_names(after, key);
            lemma_as_map_names(fields, key);
            lemma_position_of(fields, key);
            let here = position_of(fields, key);
            if key != name {
                if here < at {
                    lemma_position_of_unique(after, key, here);
                } else if here < fields.len() {
                    lemma_position_of_unique(after, key, here - 1);
                } else {
                    lemma_position_of_unique(after, key, after.len() as int);
                }
            }
        }
        assert forall|key: Seq<char>| #[trigger]
            as_map(after).contains_key(key) implies as_map(after)[key] == as_map(fields).remove(
                name,
            )[key] by {
            lemma_as_map_names(after, key);
            lemma_position_of(after, key);
            let here = position_of(after, key);
            lemma_as_map_value(after, here);
            lemma_as_map_value(fields, if here < at {
                here
            } else {
                here + 1
            });
        }
    }
}

/// Where the names are distinct, the mapping has one key for each field.
pub proof fn lemma_as_map_len(fields: Seq<Field>)
    requires
        names_distinct(fields),
    ensures
        as_map(fields).dom().finite(),
        as_map(fields).dom().len() == fields.len(),
    decreases fields.len(),
{
    if fields.len() > 0 {
        let front = fields.drop_last();
        lemma_as_map_len(front);
        lemma_as_map_names(front, fields.last().0);
        lemma_position_of(front, fields.last().0);
    }
}

/// Header fields with distinct names, in the order in which the names first
/// came in.
#[derive(Debug)]
pub struct Headers {
    fields: Vec<(String, String)>,
}

impl View for Headers {
    type V = Map<Seq<char>, Seq<char>>;

    /// The mapping from names to values.
    open spec fn view(&self) -> Map<Seq<char>, Seq<char>> {
        as_map(self.fields())
    }
}

/// The plain text of stored fields.
spec fn plain(stored: Seq<(String, String)>) -> Seq<Field> {
    stored.map_values(|field: (String, String)| (field.0@, field.1@))
}

impl Headers {
    /// No name is stored twice.
    #[verifier::type_invariant]
    spec fn names_are_distinct(&self) -> bool {
        names_distinct(plain(self.fields@))
    }

    /// The fields in order. Their names are distinct.
    pub closed spec fn fields(&self) -> Seq<Field> {
        if names_distinct(plain(self.fields@)) {
            plain(self.fields@)
        } else {
            Seq::empty()
        }
    }

    /// The names in `fields()` are distinct, and the mapping has one key for
    /// each of them.
    pub proof fn lemma_fields(self)
        ensures
            names_distinct(self.fields()),
            self@.dom().finite(),
            self@.dom().len() == self.fields().len(),
    {
        lemma_as_map_len(self.fields());
    }

    /// No fields.
    pub fn new() -> (headers: Headers)
        ensures
            headers.fields() == Seq::<Field>::empty(),
            headers@ == Map::<Seq<char>, Seq<char>>::empty(),
    {
        let headers = Headers { fields: Vec::new() };
        headers
    }

    /// The number of fields.
    pub fn len(&self) -> (n: usize)
        ensures
            n == self.fields().len(),
            n == self@.dom().len(),
    {
        proof {
            use_type_invariant(self);
            lemma_as_map_len(self.fields());
        }
        self.fields.len()
    }

    /// Whether there is no field.
    pub fn is_empty(&self) -> (empty: bool)
        ensures
            empty == (self.fields().len() == 0),
    {
        proof {
            use_type_invariant(self);
        }
        self.fields.len() == 0
    }

    /// Where the field named `name` is stored, or the number of fields where
    /// there is none.
    fn position(stored: &Vec<(String, String)>, name: &str) -> (at: usize)
        ensures
            at == position_of(plain(stored@), name@),
            at <= stored@.len(),
    {
        let mut at: usize = 0;
        while at < stored.len()
            invariant
                at <= stored@.len(),
                forall|j: int| 0 <= j < at ==> plain(stored@)[j].0 != name@,
            decreases stored@.len() - at,
        {
            if same_text(stored[at].0.as_str(), name) {
                proof {
                    lemma_position_of_unique(plain(stored@), name@, at as int);
                }
                return at;
            }
            at += 1;
        }
        proof {
            lemma_position_of_unique(plain(stored@), name@, at as int);
        }
        at
    }

    /// Sets the field `name` to `value` and returns the value that it had
    /// before. A name that was there keeps its place; a new one goes last.
    pub fn insert(&mut self, name: String, value: String) -> (replaced: Option<String>)
        ensures
            final(self).fields() == put(old(self).fields(), name@, value@),
            final(self)@ == old(self)@.insert(name@, value@),
            match replaced {
                Some(before) => old(self)@.contains_key(name@) && before@ == old(self)@[name@],
                None => !old(self)@.contains_key(name@),
            },
    {
        proof {
            use_type_invariant(&*self);
            lemma_put(self.fields(), name@, value@);
            lemma_as_map_names(self.fields(), name@);
            lemma_position_of(self.fields(), name@);
        }
        let mut stored: Vec<(String, String)> = Vec::new();
        std::mem::swap(&mut stored, &mut self.fields);
        let ghost before = plain(stored@);
        let at = Self::position(&stored, name.as_str());
        let replaced = if at < stored.len() {
            proof {
                lemma_as_map_value(before, at as int);
            }
            let (_, previous) = stored.remove(at);
            stored.insert(at, (name, value));
            Some(previous)
        } else {
            stored.push((name, value));
            None
        };
        assert(plain(stored@) =~= put(before, name@, value@));
        self.fields = stored;
        replaced
    }

    /// Takes out the field named `name` and returns the value that it had.
    pub fn remove(&mut self, name: &str) -> (removed: Option<String>)
        ensures
            final(self).fields() == without(old(self).fields(), name@),
            final(self)@ == old(self)@.remove(name@),
            match removed {
                Some(before) => old(self)@.contains_key(name@) && before@ == old(self)@[name@],
                None => !old(self)@.contains_key(name@),
            },
    {
        proof {
            use_type_invariant(&*self);
            lemma_without(self.fields(), name@);
            lemma_position_of(self.fields(), name@);
        }
        let mut stored: Vec<(String, String)> = Vec::new();
        std::mem::swap(&mut stored, &mut self.fields);
        let ghost before = plain(stored@);
        let at = Self::position(&stored, name);
        let removed = if at < stored.len() {
            proof {
                lemma_as_map_value(before, at as int);
            }
            let (_, previous) = stored.remove(at);
            Some(previous)
        } else {
            None
        };
        assert(plain(stored@) =~= without(before, name@));
        self.fields = stored;
        removed
    }

    /// The value of the field named `name`.
    pub fn get(&self, name: &str) -> (value: Option<&String>)
        ensures
            match value {
                Some(found) => self@.contains_key(name@) && found@ == self@[name@],
                None => !self@.contains_key(name@),
            },
    {
        proof {
            use_type_invariant(self);
            lemma_as_map_names(self.fields(), name@);
        }
        let at = Self::position(&self.fields, name);
        if at < self.fields.len() {
            proof {
                lemma_position_of(self.fields(), name@);
                lemma_as_map_value(self.fields(), at as int);
            }
            Some(&self.fields[at].1)
        } else {
            None
        }
    }

    /// Whether there is a field named `name`.
    pub fn contains_key(&self, name: &str) -> (found: bool)
        ensures
            found == self@.contains_key(name@),
    {
        self.get(name).is_some()
    }

    /// The name and the value of the field at position `at`, if there is one.
    pub fn get_index(&self, at: usize) -> (field: Option<(&str, &str)>)
        ensures
            match field {
                Some((name, value)) => at < self.fields().len() && (name@, value@)
                    == self.fields()[at as int],
                None => at >= self.fields().len(),
            },
    {
        proof {
            use_type_invariant(self);
        }
        if at < self.fields.len() {
            Some((self.fields[at].0.as_str(), self.fields[at].1.as_str()))
        } else {
            None
        }
    }

    /// Whether every field of `self` is in `other` with the same value.
    fn within(&self, other: &Headers) -> (all: bool)
        ensures
            all == self@.submap_of(other@),
    {
        proof {
            use_type_invariant(self);
        }
        let mut at: usize = 0;
        while at < self.fields.len()
            invariant
                at <= self.fields@.len(),
                self.fields() == plain(self.fields@),
                names_distinct(self.fields()),
                forall|j: int|
                    0 <= j < at ==> other@.contains_key(#[trigger] self.fields()[j].0)
                        && other@[self.fields()[j].0] == self.fields()[j].1,
            decreases self.fields@.len() - at,
        {
            proof {
                lemma_as_map_value(self.fields(), at as int);
            }
            match other.get(self.fields[at].0.as_str()) {
                Some(value) => {
                    if !same_text(value.as_str(), self.fields[at].1.as_str()) {
                        return false;
                    }
                },
                None => {
                    return false;
                },
            }
            at += 1;
        }
        proof {
            assert forall|name: Seq<char>| #[trigger]
                self@.contains_key(name) implies other@.contains_key(name) && self@[name]
                == other@[name] by {
                lemma_as_map_names(self.fields(), name);
                lemma_position_of(self.fields(), name);
                lemma_as_map_value(self.fields(), position_of(self.fields(), name));
            }
        }
        true
    }
}

impl Clone for Headers {
    /// The same fields in the same order.
    fn clone(&self) -> (copy: Headers)
        ensures
            copy.fields() == self.fields(),
            copy@ == self@,
    {
        proof {
            use_type_invariant(self);
        }
        let mut stored: Vec<(String, String)> = Vec::new();
        let mut at: usize = 0;
        while at < self.fields.len()
            invariant
                at <= self.fields@.len(),
                stored@.len() == at,
                plain(stored@) == plain(self.fields@).take(at as int),
            decreases self.fields@.len() - at,
        {
            let ghost before = stored@;
            let name = self.fields[at].0.clone();
            let value = self.fields[at].1.clone();
            stored.push((name, value));
            assert forall|j: int| 0 <= j <= at implies plain(stored@)[j] == plain(
                self.fields@,
            )[j] by {
                if j < at {
                    assert(plain(before)[j] == plain(self.fields@).take(at as int)[j]);
                }
            }
            at += 1;
        }
        assert(plain(stored@) =~= plain(self.fields@));
        Headers { fields: stored }
    }
}

impl PartialEq for Headers {
    /// Whether the two hold the same names with the same values, in whatever
    /// order.
    fn eq(&self, other: &Headers) -> (same: bool) {
        let same = self.within(other) && other.within(self);
        proof {
            if same {
                assert(self@.dom() =~= other@.dom());
                assert(self@ =~= other@);
            }
        }
        same
    }
}

impl vstd::std_specs::cmp::PartialEqSpecImpl for Headers {
    open spec fn obeys_eq_spec() -> bool {
        true
    }

    open spec fn eq_spec(&self, other: &Headers) -> bool {
        self@ == other@
    }
}

} // verus!
