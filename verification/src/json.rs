//! JSON values as trees.

use vstd::prelude::*;

use crate::text::comes_before;
#[allow(unused_imports)]
use crate::text::{lemma_text_before_is_transitive, lemma_texts_are_ordered, text_before};

verus! {

/// A JSON tree.
///
/// An object keeps its members in the order of the text, with every repetition of a name; the
/// value that it stands for ([`Json::into_value`]) has each name once. A number with a fraction or
/// an exponent is kept as the bits of its double.
#[derive(Debug, PartialEq)]
pub enum Json {
    Null,
    Bool(bool),
    PosInt(u64),
    NegInt(i64),
    Float(u64),
    Text(String),
    Array(Vec<Json>),
    Object(Vec<(String, Json)>),
}

/// What a [`Json`] stands for: an integer by its value, a text by its characters.
pub enum JsonView {
    Null,
    Bool(bool),
    Int(int),
    Float(u64),
    Text(Seq<char>),
    Array(Seq<JsonView>),
    Object(Seq<(Seq<char>, JsonView)>),
}

impl View for Json {
    type V = JsonView;

    open spec fn view(&self) -> JsonView
        decreases self,
    {
        match self {
            Json::Null => JsonView::Null,
            Json::Bool(b) => JsonView::Bool(*b),
            Json::PosInt(n) => JsonView::Int(*n as int),
            Json::NegInt(n) => JsonView::Int(*n as int),
            Json::Float(bits) => JsonView::Float(*bits),
            Json::Text(text) => JsonView::Text(text@),
            Json::Array(items) => JsonView::Array(
                Seq::new(
                    items@.len(),
                    |i: int|
                        if 0 <= i < items@.len() {
                            items@[i].view()
                        } else {
                            arbitrary()
                        },
                ),
            ),
            Json::Object(members) => JsonView::Object(
                Seq::new(
                    members@.len(),
                    |i: int|
                        if 0 <= i < members@.len() {
                            (members@[i].0@, members@[i].1.view())
                        } else {
                            arbitrary()
                        },
                ),
            ),
        }
    }
}

/// What the members of an object stand for.
pub open spec fn members_view(members: Seq<(String, Json)>) -> Seq<(Seq<char>, JsonView)> {
    members.map_values(|member: (String, Json)| (member.0@, member.1@))
}

/// An object stands for what its members stand for.
pub(crate) proof fn lemma_object_view(members: Vec<(String, Json)>)
    ensures
        Json::Object(members)@ == JsonView::Object(members_view(members@)),
{
    let whole = Json::Object(members)@->Object_0;
    reveal_with_fuel(<Json as View>::view, 2);
    assert forall|i: int| 0 <= i < members@.len() implies whole[i] == members_view(members@)[i] by {
        assert(whole[i] == (members@[i].0@, members@[i].1.view()));
    }
    assert(whole =~= members_view(members@));
}

/// An array stands for what its items stand for.
pub(crate) proof fn lemma_array_view(items: Vec<Json>)
    ensures
        Json::Array(items)@ == JsonView::Array(items@.map_values(|item: Json| item@)),
{
    let whole = Json::Array(items)@->Array_0;
    let mapped = items@.map_values(|item: Json| item@);
    reveal_with_fuel(<Json as View>::view, 2);
    assert forall|i: int| 0 <= i < items@.len() implies whole[i] == mapped[i] by {
        assert(whole[i] == items@[i].view());
    }
    assert(whole =~= mapped);
}

/// Whether the bits are those of a double that is a number: infinities and what is no number have
/// all the bits of the exponent set.
pub open spec fn is_number(bits: u64) -> bool {
    bits / 0x10_0000_0000_0000 % 0x800 != 0x7ff
}

/// Members in the order of their names, once `name` has the value `value` among them. A member
/// that had the name before gives way.
pub open spec fn put(
    members: Seq<(Seq<char>, JsonView)>,
    name: Seq<char>,
    value: JsonView,
) -> Seq<(Seq<char>, JsonView)>
    decreases members.len(),
{
    if members.len() == 0 {
        seq![(name, value)]
    } else if members.last().0 == name {
        members.drop_last().push((name, value))
    } else if text_before(members.last().0, name) {
        members.push((name, value))
    } else {
        put(members.drop_last(), name, value).push(members.last())
    }
}

/// The value that a tree stands for. An object has each name once, with the last of its values,
/// and the names in order, here and in everything inside; a double that is no number is `null`.
pub open spec fn value_of(tree: JsonView) -> JsonView
    decreases tree,
{
    match tree {
        JsonView::Float(bits) => if is_number(bits) {
            tree
        } else {
            JsonView::Null
        },
        JsonView::Array(items) => JsonView::Array(
            Seq::new(
                items.len(),
                |i: int|
                    if 0 <= i < items.len() {
                        value_of(items[i])
                    } else {
                        arbitrary()
                    },
            ),
        ),
        JsonView::Object(members) => JsonView::Object(members_value(members)),
        _ => tree,
    }
}

/// What the members of an object stand for: members in the order of their names, each name once,
/// with the last of its values.
pub open spec fn members_value(members: Seq<(Seq<char>, JsonView)>) -> Seq<(Seq<char>, JsonView)>
    decreases members,
{
    if members.len() == 0 {
        members
    } else {
        put(
            members_value(members.drop_last()),
            members[members.len() - 1].0,
            value_of(members[members.len() - 1].1),
        )
    }
}

/// Whether names stand in order, each once.
pub open spec fn in_order(members: Seq<(Seq<char>, JsonView)>) -> bool {
    forall|i: int, j: int|
        0 <= i < j < members.len() ==> text_before(
            (#[trigger] members[i]).0,
            (#[trigger] members[j]).0,
        )
}

/// Whether a tree is a value: every object in it has each name once and the names in order, and
/// every double in it is a number.
pub open spec fn is_value(tree: JsonView) -> bool
    decreases tree,
{
    match tree {
        JsonView::Float(bits) => is_number(bits),
        JsonView::Array(items) => forall|i: int|
            0 <= i < items.len() ==> is_value(#[trigger] items[i]),
        JsonView::Object(members) => {
            &&& in_order(members)
            &&& forall|i: int| 0 <= i < members.len() ==> is_value((#[trigger] members[i]).1)
        },
        _ => true,
    }
}

/// The value of the last member called `name`.
pub open spec fn last_named(members: Seq<(Seq<char>, JsonView)>, name: Seq<char>) -> Option<
    JsonView,
>
    decreases members.len(),
{
    if members.len() == 0 {
        None
    } else if members.last().0 == name {
        Some(members.last().1)
    } else {
        last_named(members.drop_last(), name)
    }
}

/// What the search for a member by its name finds in an object.
pub enum Lookup {
    /// No member has the name.
    Absent,
    /// One member has the name, with this value.
    Single(JsonView),
    /// More than one member has the name.
    Repeated,
}

/// The search for the member called `name` among `members`.
pub open spec fn lookup(members: Seq<(Seq<char>, JsonView)>, name: Seq<char>) -> Lookup
    decreases members.len(),
{
    if members.len() == 0 {
        Lookup::Absent
    } else if members.last().0 != name {
        lookup(members.drop_last(), name)
    } else if lookup(members.drop_last(), name) is Absent {
        Lookup::Single(members.last().1)
    } else {
        Lookup::Repeated
    }
}

/// Gives the member called `name` a value, among members in the order of their names.
fn put_member(members: &mut Vec<(String, Json)>, name: String, value: Json)
    ensures
        members_view(final(members)@) == put(members_view(old(members)@), name@, value@),
{
    let ghost all = members_view(members@);
    let mut i = members.len();
    assert(all.take(i as int) =~= all);
    assert(put(all, name@, value@) =~= put(all.take(i as int), name@, value@) + all.skip(i as int));
    while i > 0 && comes_before(name.as_str(), members[i - 1].0.as_str())
        invariant
            i <= members@.len(),
            all == members_view(members@),
            put(all, name@, value@) == put(all.take(i as int), name@, value@) + all.skip(i as int),
        decreases i,
    {
        proof {
            lemma_texts_are_ordered(name@, all[i - 1].0);
        }
        assert(all.take(i as int).drop_last() =~= all.take(i - 1));
        assert(put(all.take(i as int), name@, value@) + all.skip(i as int) =~= put(
            all.take(i - 1),
            name@,
            value@,
        ) + all.skip(i - 1));
        i = i - 1;
    }
    let ghost member = (name@, value@);
    if i > 0 && members[i - 1].0 == name {
        let _ = members.remove(i - 1);
        members.insert(i - 1, (name, value));
        assert(members_view(members@) =~= all.take(i as int).drop_last().push(member) + all.skip(
            i as int,
        ));
    } else {
        proof {
            if i > 0 {
                lemma_texts_are_ordered(all[i - 1].0, name@);
            }
        }
        members.insert(i, (name, value));
        assert(members_view(members@) =~= all.take(i as int).push(member) + all.skip(i as int));
    }
}

impl Json {
    /// The value that this tree stands for.
    pub fn into_value(self) -> (value: Json)
        ensures
            value@ == value_of(self@),
        decreases self,
    {
        let ghost whole = self;
        match self {
            Json::Float(bits) => if bits / 0x10_0000_0000_0000 % 0x800 != 0x7ff {
                Json::Float(bits)
            } else {
                Json::Null
            },
            Json::Array(items) => {
                let mut values: Vec<Json> = Vec::new();
                for item in it: items.into_iter()
                    invariant
                        whole == self,
                        whole == Json::Array(items),
                        it.seq() == items@,
                        values@.len() == it.index(),
                        forall|i: int|
                            0 <= i < it.index() ==> (#[trigger] values@[i])@ == value_of(
                                items@[i]@,
                            ),
                {
                    assert(decreases_to!(whole => whole->Array_0));
                    assert(decreases_to!(items => items@));
                    assert(decreases_to!(items@ => items@[it.index() as int]));
                    values.push(item.into_value());
                }
                proof {
                    lemma_array_view(items);
                    lemma_array_view(values);
                    assert(Json::Array(values)@->Array_0 =~= value_of(whole@)->Array_0);
                }
                Json::Array(values)
            },
            Json::Object(members) => {
                let ghost trees = members_view(members@);
                let mut values: Vec<(String, Json)> = Vec::new();
                assert(members_view(values@) =~= members_value(trees.take(0)));
                for member in it: members.into_iter()
                    invariant
                        whole == self,
                        whole == Json::Object(members),
                        it.seq() == members@,
                        trees == members_view(members@),
                        members_view(values@) == members_value(trees.take(it.index() as int)),
                {
                    assert(decreases_to!(whole => whole->Object_0));
                    assert(decreases_to!(members => members@));
                    assert(decreases_to!(members@ => members@[it.index() as int]));
                    assert(decreases_to!(member => member.1));
                    let (name, tree) = member;
                    let ghost seen = trees.take(it.index() + 1);
                    assert(seen.drop_last() =~= trees.take(it.index() as int));
                    put_member(&mut values, name, tree.into_value());
                }
                proof {
                    lemma_object_view(members);
                    lemma_object_view(values);
                    assert(trees.take(trees.len() as int) =~= trees);
                }
                Json::Object(values)
            },
            tree => tree,
        }
    }
}

/// Where the member with a name stands in an object.
pub(crate) enum Position {
    Absent,
    At(usize),
    Repeated,
}

impl Position {
    /// Whether this is where the member called `name` stands among `members`.
    pub(crate) open spec fn locates(self, members: Seq<(String, Json)>, name: Seq<char>) -> bool {
        match self {
            Position::Absent => lookup(members_view(members), name) is Absent,
            Position::At(i) => {
                &&& i < members.len()
                &&& lookup(members_view(members), name) == Lookup::Single(members[i as int].1@)
            },
            Position::Repeated => lookup(members_view(members), name) is Repeated,
        }
    }
}

/// Searches an object for the member called `name`.
pub(crate) fn find_member(members: &Vec<(String, Json)>, name: &str) -> (position: Position)
    ensures
        position.locates(members@, name@),
{
    let wanted = name.to_owned();
    let mut position = Position::Absent;
    let mut i: usize = 0;
    assert(members@.take(0) =~= Seq::empty());
    while i < members.len()
        invariant
            i <= members@.len(),
            wanted@ == name@,
            position.locates(members@.take(i as int), name@),
        decreases members@.len() - i,
    {
        let ghost before = members@.take(i as int);
        let ghost after = members@.take(i + 1);
        assert(members_view(after).drop_last() =~= members_view(before));
        if members[i].0 == wanted {
            position = match position {
                Position::Absent => Position::At(i),
                _ => Position::Repeated,
            };
        }
        i = i + 1;
    }
    assert(members@.take(i as int) =~= members@);
    position
}

/// Members in order stay in order, and each member is the new one or was there before.
proof fn lemma_put_keeps_order(
    members: Seq<(Seq<char>, JsonView)>,
    name: Seq<char>,
    value: JsonView,
)
    requires
        in_order(members),
    ensures
        in_order(put(members, name, value)),
        forall|i: int|
            0 <= i < put(members, name, value).len() ==> {
                ||| #[trigger] put(members, name, value)[i] == (name, value)
                ||| members.contains(put(members, name, value)[i])
            },
    decreases members.len(),
{
    let after = put(members, name, value);
    if members.len() > 0 {
        let before = members.drop_last();
        let last = members.last();
        assert(forall|i: int| 0 <= i < before.len() ==> before[i] == members[i]);
        assert(last == members[members.len() - 1]);
        assert(members.contains(last));
        lemma_texts_are_ordered(last.0, name);
        if last.0 == name {
        } else if text_before(last.0, name) {
            assert forall|i: int| 0 <= i < members.len() implies text_before(
                (#[trigger] members[i]).0,
                name,
            ) by {
                if i < members.len() - 1 {
                    lemma_text_before_is_transitive(members[i].0, last.0, name);
                }
            }
        } else {
            let smaller = put(before, name, value);
            lemma_texts_are_ordered(name, last.0);
            lemma_put_keeps_order(before, name, value);
            assert(forall|i: int| 0 <= i < smaller.len() ==> smaller[i] == after[i]);
            assert forall|i: int| 0 <= i < smaller.len() implies {
                &&& text_before((#[trigger] after[i]).0, last.0)
                &&& after[i] == (name, value) || members.contains(after[i])
            } by {
                assert(smaller[i] == (name, value) || before.contains(smaller[i]));
                if before.contains(smaller[i]) {
                    let k = before.index_of(smaller[i]);
                    assert(members[k] == smaller[i]);
                }
            }
        }
    }
}

/// What the members of an object stand for is in order, and made of values.
proof fn lemma_members_value(members: Seq<(Seq<char>, JsonView)>)
    ensures
        in_order(members_value(members)),
        forall|i: int|
            0 <= i < members_value(members).len() ==> is_value(
                (#[trigger] members_value(members)[i]).1,
            ),
    decreases members,
{
    if members.len() > 0 {
        let before = members_value(members.drop_last());
        let last = members[members.len() - 1];
        let value = value_of(last.1);
        lemma_members_value(members.drop_last());
        law_value_is_a_value(last.1);
        lemma_put_keeps_order(before, last.0, value);
        assert forall|i: int| 0 <= i < members_value(members).len() implies is_value(
            (#[trigger] members_value(members)[i]).1,
        ) by {
            let member = put(before, last.0, value)[i];
            if member != (last.0, value) {
                assert(before.contains(member));
                assert(is_value(before[before.index_of(member)].1));
            }
        }
    }
}

/// What a tree stands for is a value.
pub proof fn law_value_is_a_value(tree: JsonView)
    ensures
        is_value(value_of(tree)),
    decreases tree,
{
    match tree {
        JsonView::Array(items) => {
            let values = value_of(tree)->Array_0;
            assert forall|i: int| 0 <= i < values.len() implies is_value(#[trigger] values[i]) by {
                law_value_is_a_value(items[i]);
                assert(values[i] == value_of(items[i]));
            }
        },
        JsonView::Object(members) => {
            lemma_members_value(members);
        },
        _ => {},
    }
}

/// Members in order that are made of values stand for themselves.
proof fn lemma_members_are_kept(members: Seq<(Seq<char>, JsonView)>)
    requires
        in_order(members),
        forall|i: int| 0 <= i < members.len() ==> is_value((#[trigger] members[i]).1),
    ensures
        members_value(members) == members,
    decreases members,
{
    if members.len() > 0 {
        let before = members.drop_last();
        let last = members[members.len() - 1];
        assert(forall|i: int| 0 <= i < before.len() ==> before[i] == members[i]);
        lemma_members_are_kept(before);
        law_values_are_kept(last.1);
        if before.len() > 0 {
            let previous = members[members.len() - 2];
            assert(before.last() == previous);
            assert(text_before(previous.0, last.0));
            lemma_texts_are_ordered(previous.0, last.0);
        }
        assert(members_value(members) =~= members);
    }
}

/// A value stands for itself.
pub proof fn law_values_are_kept(tree: JsonView)
    requires
        is_value(tree),
    ensures
        value_of(tree) == tree,
    decreases tree,
{
    match tree {
        JsonView::Array(items) => {
            let values = value_of(tree)->Array_0;
            assert forall|i: int| 0 <= i < items.len() implies values[i] == items[i] by {
                law_values_are_kept(items[i]);
                assert(values[i] == value_of(items[i]));
            }
            assert(values =~= items);
        },
        JsonView::Object(members) => {
            lemma_members_are_kept(members);
        },
        _ => {},
    }
}

/// A member that is put among others has its value, and the others keep theirs.
proof fn lemma_put_is_found(
    members: Seq<(Seq<char>, JsonView)>,
    name: Seq<char>,
    value: JsonView,
    wanted: Seq<char>,
)
    ensures
        last_named(put(members, name, value), wanted) == if wanted == name {
            Some(value)
        } else {
            last_named(members, wanted)
        },
    decreases members.len(),
{
    let after = put(members, name, value);
    if members.len() == 0 {
        assert(after.drop_last() =~= members);
    } else {
        let before = members.drop_last();
        if members.last().0 == name {
            assert(after.drop_last() =~= before);
        } else if text_before(members.last().0, name) {
            assert(after.drop_last() =~= members);
        } else {
            assert(after.drop_last() =~= put(before, name, value));
            lemma_put_is_found(before, name, value, wanted);
        }
    }
}

/// Of members with the same name the last counts: an object stands for one that has the same
/// names, each with what the last member of that name stands for.
pub proof fn law_last_of_repeated_names_counts(
    members: Seq<(Seq<char>, JsonView)>,
    name: Seq<char>,
)
    ensures
        last_named(members_value(members), name) == match last_named(members, name) {
            Some(tree) => Some(value_of(tree)),
            None => None,
        },
    decreases members.len(),
{
    if members.len() > 0 {
        let before = members.drop_last();
        law_last_of_repeated_names_counts(before, name);
        lemma_put_is_found(
            members_value(before),
            members.last().0,
            value_of(members.last().1),
            name,
        );
    }
}

/// What plain trees stand for.
pub proof fn law_plain_trees_are_viewed(b: bool, n: u64, m: i64, bits: u64, text: String)
    ensures
        Json::Null@ == JsonView::Null,
        Json::Bool(b)@ == JsonView::Bool(b),
        Json::PosInt(n)@ == JsonView::Int(n as int),
        Json::NegInt(m)@ == JsonView::Int(m as int),
        Json::Float(bits)@ == JsonView::Float(bits),
        Json::Text(text)@ == JsonView::Text(text@),
{
}

/// An array is viewed item by item.
pub proof fn law_arrays_are_viewed(items: Vec<Json>)
    ensures
        Json::Array(items)@ matches JsonView::Array(trees) && {
            &&& trees.len() == items@.len()
            &&& forall|i: int| 0 <= i < items@.len() ==> #[trigger] trees[i] == items@[i]@
        },
{
    lemma_array_view(items);
}

/// An object is viewed member by member.
pub proof fn law_objects_are_viewed(members: Vec<(String, Json)>)
    ensures
        Json::Object(members)@ matches JsonView::Object(trees) && {
            &&& trees.len() == members@.len()
            &&& forall|i: int|
                0 <= i < members@.len() ==> #[trigger] trees[i] == (
                    members@[i].0@,
                    members@[i].1@,
                )
        },
{
    lemma_object_view(members);
}

/// A plain tree stands for itself, but a double whose exponent has all its bits set for `null`.
pub proof fn law_plain_trees_are_kept(b: bool, n: int, bits: u64, text: Seq<char>)
    ensures
        value_of(JsonView::Null) == JsonView::Null,
        value_of(JsonView::Bool(b)) == JsonView::Bool(b),
        value_of(JsonView::Int(n)) == JsonView::Int(n),
        value_of(JsonView::Text(text)) == JsonView::Text(text),
        bits & 0x7ff0_0000_0000_0000 != 0x7ff0_0000_0000_0000 ==> value_of(JsonView::Float(bits))
            == JsonView::Float(bits),
        bits & 0x7ff0_0000_0000_0000 == 0x7ff0_0000_0000_0000 ==> value_of(JsonView::Float(bits))
            == JsonView::Null,
{
    assert(bits & 0x7ff0_0000_0000_0000 == 0x7ff0_0000_0000_0000 <==> bits / 0x10_0000_0000_0000
        % 0x800 == 0x7ff) by (bit_vector);
}

/// An array stands for an array of the same length: each item for what it stands for, in its place.
pub proof fn law_arrays_keep_their_items(items: Seq<JsonView>)
    ensures
        value_of(JsonView::Array(items)) matches JsonView::Array(values) && {
            &&& values.len() == items.len()
            &&& forall|i: int| 0 <= i < items.len() ==> #[trigger] values[i] == value_of(items[i])
        },
{
    let values = value_of(JsonView::Array(items))->Array_0;
    assert forall|i: int| 0 <= i < items.len() implies #[trigger] values[i] == value_of(
        items[i],
    ) by {}
}

/// The last member of a name, where there is one.
proof fn lemma_last_named_is_there(members: Seq<(Seq<char>, JsonView)>, name: Seq<char>) -> (k: int)
    requires
        last_named(members, name) is Some,
    ensures
        0 <= k < members.len(),
        members[k].0 == name,
        last_named(members, name) == Some(members[k].1),
        forall|l: int| k < l < members.len() ==> (#[trigger] members[l]).0 != name,
    decreases members.len(),
{
    if members.last().0 == name {
        members.len() - 1
    } else {
        let before = members.drop_last();
        let k = lemma_last_named_is_there(before, name);
        assert forall|l: int| k < l < members.len() implies (#[trigger] members[l]).0 != name by {
            if l < members.len() - 1 {
                assert(before[l] == members[l]);
            }
        }
        k
    }
}

/// A name that a member has is found.
proof fn lemma_last_named_is_found(members: Seq<(Seq<char>, JsonView)>, k: int)
    requires
        0 <= k < members.len(),
    ensures
        last_named(members, members[k].0) is Some,
    decreases members.len(),
{
    if members.last().0 != members[k].0 {
        assert(members.drop_last()[k] == members[k]);
        lemma_last_named_is_found(members.drop_last(), k);
    }
}

/// The names in what an object stands for are in order, each once.
pub proof fn law_names_stand_in_order(members: Seq<(Seq<char>, JsonView)>, i: int, j: int)
    ensures
        value_of(JsonView::Object(members)) is Object,
        ({
            let values = value_of(JsonView::Object(members))->Object_0;
            0 <= i < j < values.len() ==> text_before(values[i].0, values[j].0)
        }),
{
    lemma_members_value(members);
}

/// A member behind which no other has its name is in what the object stands for, with what it
/// stands for.
pub proof fn law_last_of_each_name_is_kept(
    members: Seq<(Seq<char>, JsonView)>,
    k: int,
) -> (i: int)
    requires
        0 <= k < members.len(),
        forall|l: int| k < l < members.len() ==> (#[trigger] members[l]).0 != members[k].0,
    ensures
        0 <= i < value_of(JsonView::Object(members))->Object_0.len(),
        value_of(JsonView::Object(members))->Object_0[i] == (
            members[k].0,
            value_of(members[k].1),
        ),
{
    let name = members[k].0;
    lemma_last_named_is_found(members, k);
    let last = lemma_last_named_is_there(members, name);
    law_last_of_repeated_names_counts(members, name);
    assert(k == last);
    lemma_last_named_is_there(members_value(members), name)
}

/// What an object stands for has no names but those of the object.
pub proof fn law_no_name_is_made_up(members: Seq<(Seq<char>, JsonView)>, i: int) -> (k: int)
    requires
        0 <= i < value_of(JsonView::Object(members))->Object_0.len(),
    ensures
        0 <= k < members.len(),
        members[k].0 == value_of(JsonView::Object(members))->Object_0[i].0,
{
    let name = members_value(members)[i].0;
    lemma_last_named_is_found(members_value(members), i);
    law_last_of_repeated_names_counts(members, name);
    lemma_last_named_is_there(members, name)
}

/// Only values stand for themselves.
pub proof fn law_only_values_are_kept(tree: JsonView)
    requires
        value_of(tree) == tree,
    ensures
        is_value(tree),
{
    law_value_is_a_value(tree);
}

/// A search finds no member where none has the name.
pub proof fn law_absent_members_are_not_found(
    members: Seq<(Seq<char>, JsonView)>,
    name: Seq<char>,
)
    ensures
        lookup(members, name) is Absent <==> forall|i: int|
            0 <= i < members.len() ==> (#[trigger] members[i]).0 != name,
    decreases members.len(),
{
    if members.len() > 0 {
        let before = members.drop_last();
        law_absent_members_are_not_found(before, name);
        assert(forall|i: int| 0 <= i < before.len() ==> before[i] == members[i]);
        assert(members.last() == members[members.len() - 1]);
        if forall|i: int| 0 <= i < before.len() ==> (#[trigger] before[i]).0 != name {
            assert forall|i: int| 0 <= i < before.len() implies (#[trigger] members[i]).0
                != name by {
                assert(before[i].0 != name);
            }
        }
    }
}

/// A search finds the one member that has the name.
pub proof fn law_single_members_are_found(members: Seq<(Seq<char>, JsonView)>, i: int)
    requires
        0 <= i < members.len(),
    ensures
        lookup(members, members[i].0) == Lookup::Single(members[i].1) || lookup(
            members,
            members[i].0,
        ) is Repeated,
        lookup(members, members[i].0) is Repeated <==> exists|j: int|
            0 <= j < members.len() && j != i && (#[trigger] members[j]).0 == members[i].0,
    decreases members.len(),
{
    let name = members[i].0;
    let before = members.drop_last();
    let last = members.len() - 1;
    assert(forall|j: int| 0 <= j < before.len() ==> before[j] == members[j]);
    assert(members.last() == members[last]);
    law_absent_members_are_not_found(before, name);
    if i == last {
        if lookup(before, name) is Absent {
            assert forall|j: int| 0 <= j < members.len() && j != i implies (#[trigger] members[j]).0
                != name by {
                assert(before[j].0 != name);
            }
        } else {
            let j = choose|j: int| 0 <= j < before.len() && (#[trigger] before[j]).0 == name;
            assert(members[j].0 == name);
        }
    } else {
        assert(before[i].0 == name);
        law_single_members_are_found(before, i);
        if members[last].0 != name {
            if lookup(before, name) is Repeated {
                let j = choose|j: int|
                    0 <= j < before.len() && j != i && (#[trigger] before[j]).0 == name;
                assert(members[j].0 == name);
            } else {
                assert forall|j: int| 0 <= j < members.len() && j != i implies (
                #[trigger] members[j]).0 != name by {
                    if j < last {
                        assert(before[j].0 != name);
                    }
                }
            }
        }
    }
}

} // verus!
