//! JSON values: what the proxy reads from and writes into status answers and
//! chat components.
use vstd::prelude::*;

verus! {

/// A JSON value. Of several entries of an object with one name, the last one
/// counts.
#[derive(Debug, PartialEq)]
pub enum Json {
    Null,
    Bool(bool),
    Unsigned(u64),
    Signed(i64),
    /// A number that is no 64-bit integer, carried as it was read.
    Real(serde_json::Number),
    Text(String),
    Array(Vec<Json>),
    Object(Vec<(String, Json)>),
}

/// The mathematical content of a JSON value.
#[verifier::ext_equal]
pub enum JsonTree {
    Null,
    Bool(bool),
    Integer(int),
    Real(serde_json::Number),
    Text(Seq<char>),
    Array(Seq<JsonTree>),
    Object(Map<Seq<char>, JsonTree>),
}

/// A number of serde_json: a 64-bit integer or a finite float.
#[verifier::external_type_specification]
#[verifier::external_body]
pub struct ExNumber(serde_json::Number);

/// The integer that a number of serde_json holds, if it is one.
pub uninterp spec fn number_integer(number: serde_json::Number) -> Option<i128>;

/// What a number of serde_json holds.
pub open spec fn number_tree(number: serde_json::Number) -> JsonTree {
    match number_integer(number) {
        Some(n) => JsonTree::Integer(n as int),
        None => JsonTree::Real(number),
    }
}

/// `Number::as_i128`: the integer that a number holds, which is a `u64` or a
/// negative `i64`, and nothing for a float.
#[verifier::external_body]
pub(crate) fn number_as_integer(number: &serde_json::Number) -> (integer: Option<i128>)
    ensures
        integer == number_integer(*number),
        integer matches Some(n) ==> i64::MIN <= n <= u64::MAX,
{
    number.as_i128()
}

impl Json {
    /// What this value holds.
    pub open spec fn tree(self) -> JsonTree
        decreases self,
    {
        match self {
            Json::Null => JsonTree::Null,
            Json::Bool(b) => JsonTree::Bool(b),
            Json::Unsigned(n) => JsonTree::Integer(n as int),
            Json::Signed(n) => JsonTree::Integer(n as int),
            Json::Real(n) => number_tree(n),
            Json::Text(s) => JsonTree::Text(s@),
            Json::Array(items) => JsonTree::Array(items_tree(items@)),
            Json::Object(entries) => JsonTree::Object(entries_tree(entries@)),
        }
    }
}

/// The contents of an array's items.
pub open spec fn items_tree(items: Seq<Json>) -> Seq<JsonTree>
    decreases items,
{
    if items.len() == 0 {
        Seq::empty()
    } else {
        items_tree(items.drop_last()).push(items.last().tree())
    }
}

/// The contents of an object's entries: later ones replace earlier ones.
pub open spec fn entries_tree(entries: Seq<(String, Json)>) -> Map<Seq<char>, JsonTree>
    decreases entries,
{
    if entries.len() == 0 {
        Map::empty()
    } else {
        entries_tree(entries.drop_last()).insert(entries.last().0@, entries.last().1.tree())
    }
}

impl View for Json {
    type V = JsonTree;

    open spec fn view(&self) -> JsonTree {
        self.tree()
    }
}

proof fn lemma_entries_push(entries: Seq<(String, Json)>, entry: (String, Json))
    ensures
        entries_tree(entries.push(entry)) == entries_tree(entries).insert(entry.0@, entry.1@),
{
    assert(entries.push(entry).drop_last() =~= entries);
}

/// The last entry with a name is the one that counts.
proof fn lemma_entries_last(entries: Seq<(String, Json)>, name: Seq<char>, at: int)
    requires
        -1 <= at < entries.len(),
        at >= 0 ==> entries[at].0@ == name,
        forall|i: int| at < i < entries.len() ==> (#[trigger] entries[i]).0@ != name,
    ensures
        entries_tree(entries).contains_key(name) <==> at >= 0,
        at >= 0 ==> entries_tree(entries)[name] == entries[at].1@,
    decreases entries.len(),
{
    if entries.len() > 0 && at < entries.len() - 1 {
        lemma_entries_last(entries.drop_last(), name, at);
    }
}

/// Taking the last entry with a name out leaves all other members as they are.
proof fn lemma_entries_remove(entries: Seq<(String, Json)>, at: int, other: Seq<char>)
    requires
        0 <= at < entries.len(),
        other != entries[at].0@,
    ensures
        entries_tree(entries.remove(at)).contains_key(other) == entries_tree(entries).contains_key(
            other,
        ),
        entries_tree(entries).contains_key(other) ==> entries_tree(entries.remove(at))[other]
            == entries_tree(entries)[other],
    decreases entries.len(),
{
    if at == entries.len() - 1 {
        assert(entries.remove(at) =~= entries.drop_last());
    } else {
        lemma_entries_remove(entries.drop_last(), at, other);
        assert(entries.remove(at).drop_last() =~= entries.drop_last().remove(at));
        assert(entries.remove(at).last() == entries.last());
    }
}

/// Objects have finitely many members.
pub proof fn lemma_entries_finite(entries: Seq<(String, Json)>)
    ensures
        entries_tree(entries).dom().finite(),
    decreases entries.len(),
{
    if entries.len() > 0 {
        lemma_entries_finite(entries.drop_last());
    }
}

/// The contents of an array, item by item.
pub proof fn lemma_items_tree(items: Seq<Json>)
    ensures
        items_tree(items).len() == items.len(),
        forall|i: int| 0 <= i < items.len() ==> #[trigger] items_tree(items)[i] == items[i]@,
    decreases items.len(),
{
    if items.len() > 0 {
        lemma_items_tree(items.drop_last());
    }
}

/// Sets a member of an object under construction.
pub fn set_member(entries: &mut Vec<(String, Json)>, name: &str, value: Json)
    ensures
        entries_tree(final(entries)@) == entries_tree(old(entries)@).insert(name@, value@),
{
    proof {
        assert forall|key: String| key@ == name@ implies entries_tree(
            entries@.push((key, value)),
        ) == entries_tree(entries@).insert(name@, value@) by {
            lemma_entries_push(entries@, (key, value));
        }
    }
    entries.push((name.to_owned(), value));
}

/// Finds the entry that holds a member.
fn find_entry(entries: &Vec<(String, Json)>, name: &str) -> (at: Option<usize>)
    ensures
        match at {
            Some(i) => i < entries@.len() && entries@[i as int].0@ == name@ && entries_tree(
                entries@,
            ).contains_key(name@) && entries_tree(entries@)[name@] == entries@[i as int].1@,
            None => !entries_tree(entries@).contains_key(name@),
        },
{
    let key: String = name.to_owned();
    let mut i: usize = entries.len();
    while i > 0
        invariant
            i <= entries@.len(),
            key@ == name@,
            forall|j: int| i <= j < entries@.len() ==> (#[trigger] entries@[j]).0@ != name@,
        decreases i,
    {
        i -= 1;
        if entries[i].0 == key {
            proof {
                lemma_entries_last(entries@, name@, i as int);
            }
            return Some(i);
        }
    }
    proof {
        lemma_entries_last(entries@, name@, -1);
    }
    None
}

/// A member of a value: of an object the one with that name, of anything else
/// none.
pub open spec fn member(tree: JsonTree, name: Seq<char>) -> Option<JsonTree> {
    match tree {
        JsonTree::Object(members) => if members.contains_key(name) {
            Some(members[name])
        } else {
            None
        },
        _ => None,
    }
}

/// Whether a value can take a member: it is an object, or nothing yet.
pub open spec fn takes_members(tree: JsonTree) -> bool {
    tree is Object || tree is Null
}

/// A value with one member set.
pub open spec fn with_member(tree: JsonTree, name: Seq<char>, value: JsonTree) -> JsonTree {
    match tree {
        JsonTree::Object(members) => JsonTree::Object(members.insert(name, value)),
        _ => JsonTree::Object(Map::empty().insert(name, value)),
    }
}

impl Json {
    /// The member with that name, if this is an object that has it.
    pub fn get(&self, name: &str) -> (found: Option<&Json>)
        ensures
            match found {
                Some(value) => member(self@, name@) == Some(value@),
                None => member(self@, name@) is None,
            },
    {
        match self {
            Json::Object(entries) => match find_entry(entries, name) {
                Some(i) => Some(&entries[i].1),
                None => None,
            },
            _ => None,
        }
    }

    /// The number this is, if it is one that a `u64` holds.
    pub fn as_u64(&self) -> (number: Option<u64>)
        ensures
            number == (match self@ {
                JsonTree::Integer(n) => if 0 <= n <= u64::MAX {
                    Some(n as u64)
                } else {
                    None
                },
                _ => None,
            }),
    {
        match self {
            Json::Unsigned(n) => Some(*n),
            Json::Signed(n) => if *n >= 0 {
                Some(*n as u64)
            } else {
                None
            },
            Json::Real(n) => match number_as_integer(n) {
                Some(i) => if i >= 0 {
                    Some(i as u64)
                } else {
                    None
                },
                None => None,
            },
            _ => None,
        }
    }

    /// Whether members can be set on this value.
    pub fn can_take_members(&self) -> (can: bool)
        ensures
            can == takes_members(self@),
    {
        match self {
            Json::Object(_) => true,
            Json::Null => true,
            _ => false,
        }
    }

    /// This value with one member set.
    pub fn with(self, name: &str, value: Json) -> (changed: Json)
        requires
            takes_members(self@),
        ensures
            changed@ == with_member(self@, name@, value@),
    {
        let mut entries: Vec<(String, Json)> = match self {
            Json::Object(entries) => entries,
            _ => Vec::new(),
        };
        set_member(&mut entries, name, value);
        Json::Object(entries)
    }

    /// This value with a member set inside one of its members, if it has that
    /// one.
    pub fn with_inner(self, outer: &str, name: &str, value: Json) -> (changed: Json)
        requires
            member(self@, outer@) matches Some(inner) ==> takes_members(inner),
        ensures
            changed@ == (match member(self@, outer@) {
                Some(inner) => with_member(self@, outer@, with_member(inner, name@, value@)),
                None => self@,
            }),
    {
        match self {
            Json::Object(entries) => {
                let mut entries: Vec<(String, Json)> = entries;
                match find_entry(&entries, outer) {
                    Some(i) => {
                        let ghost before = entries@;
                        let entry = entries.remove(i);
                        let inner: Json = entry.1.with(name, value);
                        let ghost left = entries@;
                        set_member(&mut entries, outer, inner);
                        proof {
                            assert(left == before.remove(i as int));
                            let a = entries_tree(left).insert(outer@, inner@);
                            let b = entries_tree(before).insert(outer@, inner@);
                            assert forall|key: Seq<char>|
                                #![trigger a.dom().contains(key)]
                                #![trigger b.dom().contains(key)]
                                a.dom().contains(key) == b.dom().contains(key) && (a.dom().contains(
                                    key,
                                ) ==> a[key] == b[key]) by {
                                if key != outer@ {
                                    lemma_entries_remove(before, i as int, key);
                                }
                            }
                            assert(a =~= b);
                        }
                        Json::Object(entries)
                    },
                    None => Json::Object(entries),
                }
            },
            other => other,
        }
    }
}

/// A member that was set is found, and every other member is as it was.
pub proof fn law_set_member_is_found(
    tree: JsonTree,
    name: Seq<char>,
    value: JsonTree,
    other: Seq<char>,
)
    requires
        takes_members(tree),
    ensures
        with_member(tree, name, value) is Object,
        member(with_member(tree, name, value), name) == Some(value),
        other != name ==> member(with_member(tree, name, value), other) == member(tree, other),
{
}

/// Only objects have members, and each of theirs is found; only objects and
/// nothing take members.
pub proof fn law_objects_have_members(
    tree: JsonTree,
    members: Map<Seq<char>, JsonTree>,
    name: Seq<char>,
)
    ensures
        !(tree is Object) ==> member(tree, name) is None,
        members.contains_key(name) ==> member(JsonTree::Object(members), name) == Some(
            members[name],
        ),
        !members.contains_key(name) ==> member(JsonTree::Object(members), name) is None,
        takes_members(tree) <==> tree is Object || tree is Null,
{
}

/// Of several entries with one name the last one counts, and an entry with
/// another name does not matter.
pub proof fn law_last_entry_counts(entries: Vec<(String, Json)>, at: int, name: Seq<char>)
    requires
        0 <= at < entries@.len(),
        entries@[at].0@ == name,
        forall|i: int| at < i < entries@.len() ==> (#[trigger] entries@[i]).0@ != name,
    ensures
        member(Json::Object(entries)@, name) == Some(entries@[at].1@),
{
    lemma_entries_last(entries@, name, at);
}

/// An entry that is put into an object under construction is its member, and all
/// others stay.
pub proof fn law_entry_is_a_member(
    entries: &mut Vec<(String, Json)>,
    name: &str,
    value: Json,
    other: Seq<char>,
)
    requires
        call_ensures(set_member, (entries, name, value), ()),
    ensures
        member(Json::Object(*final(entries))@, name@) == Some(value@),
        other != name@ ==> member(Json::Object(*final(entries))@, other) == member(
            Json::Object(*old(entries))@,
            other,
        ),
{
}

/// A number is read off a value exactly if it is an integer that fits.
pub proof fn law_integers_are_read(json: Json, number: Option<u64>)
    requires
        call_ensures(Json::as_u64, (&json,), number),
    ensures
        json matches Json::Unsigned(n) ==> number == Some(n),
        json matches Json::Signed(n) ==> (n >= 0 ==> number == Some(n as u64)) && (n < 0
            ==> number is None),
        json is Null || json is Bool || json is Text || json is Array || json is Object
            ==> number is None,
{
}

/// A member that is looked up in a value is the one it has.
pub proof fn law_get_finds_the_member(json: &Json, name: &str, found: Option<&Json>)
    requires
        call_ensures(Json::get, (json, name), found),
    ensures
        match found {
            Some(value) => member(json@, name@) == Some(value@),
            None => member(json@, name@) is None,
        },
        !(json is Object) ==> found is None,
{
}

/// A value holds what it is made of: every literal, every item in its place and
/// no member that no entry names.
pub proof fn law_values_hold_their_content(
    flag: bool,
    unsigned: u64,
    signed: i64,
    text: String,
    items: Vec<Json>,
    i: int,
    entries: Vec<(String, Json)>,
    name: Seq<char>,
)
    ensures
        Json::Null@ is Null,
        Json::Bool(flag)@ == JsonTree::Bool(flag),
        Json::Unsigned(unsigned)@ == JsonTree::Integer(unsigned as int),
        Json::Signed(signed)@ == JsonTree::Integer(signed as int),
        Json::Text(text)@ == JsonTree::Text(text@),
        Json::Array(items)@ matches JsonTree::Array(trees) && trees.len() == items@.len() && (0 <= i
            < items@.len() ==> trees[i] == items@[i]@),
        Json::Object(entries)@ is Object,
        (forall|k: int| 0 <= k < entries@.len() ==> (#[trigger] entries@[k]).0@ != name) ==> member(
            Json::Object(entries)@,
            name,
        ) is None,
{
    lemma_items_tree(items@);
    if forall|k: int| 0 <= k < entries@.len() ==> (#[trigger] entries@[k]).0@ != name {
        lemma_entries_last(entries@, name, -1);
    }
}

} // verus!
