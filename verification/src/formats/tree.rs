//! A JSON document as a tree of plain values.

use vstd::prelude::*;

verus! {

/// A JSON value. Numbers are kept as integers; a number that is no integer
/// is only known to be one.
#[derive(Debug)]
pub enum Json {
    Null,
    Bool(bool),
    /// An integer that is not negative.
    Unsigned(u64),
    /// A negative integer.
    Signed(i64),
    /// A number that is no integer in the range of the two variants above.
    Fraction,
    Text(String),
    List(Vec<Json>),
    /// The members of an object, each name once.
    Object(Vec<(String, Json)>),
}

/// Why bytes are no field list.
#[derive(Debug)]
pub enum EnvelopeError {
    /// The bytes are no JSON document.
    Syntax(serde_json::Error),
    /// The document is JSON, but does not have the shape of a field list.
    Shape,
}

/// A JSON value as mathematics sees it.
pub enum JsonView {
    Null,
    Bool(bool),
    Unsigned(u64),
    Signed(i64),
    Fraction,
    Text(Seq<char>),
    List(Seq<JsonView>),
    Object(Seq<(Seq<char>, JsonView)>),
}

/// The tree of plain values `j` as mathematics sees it.
pub open spec fn tree_of(j: Json) -> JsonView
    decreases j,
{
    match j {
        Json::Null => JsonView::Null,
        Json::Bool(b) => JsonView::Bool(b),
        Json::Unsigned(n) => JsonView::Unsigned(n),
        Json::Signed(n) => JsonView::Signed(n),
        Json::Fraction => JsonView::Fraction,
        Json::Text(s) => JsonView::Text(s@),
        Json::List(items) => JsonView::List(
            Seq::new(
                items@.len(),
                |i: int|
                    if 0 <= i < items@.len() {
                        tree_of(items@[i])
                    } else {
                        JsonView::Null
                    },
            ),
        ),
        Json::Object(members) => JsonView::Object(
            Seq::new(
                members@.len(),
                |i: int|
                    if 0 <= i < members@.len() {
                        (members@[i].0@, tree_of(members@[i].1))
                    } else {
                        (Seq::empty(), JsonView::Null)
                    },
            ),
        ),
    }
}

impl View for Json {
    type V = JsonView;

    open spec fn view(&self) -> JsonView {
        tree_of(*self)
    }
}

/// The first of `members` that is called `name`.
pub open spec fn member(members: Seq<(Seq<char>, JsonView)>, name: Seq<char>) -> Option<JsonView>
    decreases members.len(),
{
    if members.len() == 0 {
        None
    } else if members[0].0 == name {
        Some(members[0].1)
    } else {
        member(members.drop_first(), name)
    }
}

impl JsonView {
    /// The member called `name`, if this is an object that has one.
    pub open spec fn get(self, name: Seq<char>) -> Option<JsonView> {
        match self {
            JsonView::Object(members) => member(members, name),
            _ => None,
        }
    }

    /// The text, if this is one.
    pub open spec fn as_text(self) -> Option<Seq<char>> {
        match self {
            JsonView::Text(s) => Some(s),
            _ => None,
        }
    }

    /// The integer, if this is one.
    pub open spec fn as_integer(self) -> Option<int> {
        match self {
            JsonView::Unsigned(n) => Some(n as int),
            JsonView::Signed(n) => Some(n as int),
            _ => None,
        }
    }

    /// The counter, if this is an integer that is not negative and fits the
    /// machine word.
    pub open spec fn as_count(self) -> Option<usize> {
        match self {
            JsonView::Unsigned(n) => if n <= usize::MAX {
                Some(n as usize)
            } else {
                None
            },
            _ => None,
        }
    }

    /// The items, if this is a list.
    pub open spec fn as_list(self) -> Option<Seq<JsonView>> {
        match self {
            JsonView::List(items) => Some(items),
            _ => None,
        }
    }

    /// The text of the member called `name`, if there is such a member and
    /// it is a text.
    pub open spec fn text_at(self, name: Seq<char>) -> Option<Seq<char>> {
        match self.get(name) {
            Some(v) => v.as_text(),
            None => None,
        }
    }

    /// The counter of the member called `name`, if there is such a member
    /// and it is a counter.
    pub open spec fn count_at(self, name: Seq<char>) -> Option<usize> {
        match self.get(name) {
            Some(v) => v.as_count(),
            None => None,
        }
    }
}

/// What the view of a list or an object is made of.
pub proof fn lemma_view_parts(j: Json)
    ensures
        j matches Json::List(items) ==> {
            &&& j@ matches JsonView::List(views)
            &&& views.len() == items@.len()
            &&& forall|i: int| 0 <= i < items@.len() ==> (#[trigger] views[i]) == items@[i]@
        },
        j matches Json::Object(members) ==> {
            &&& j@ matches JsonView::Object(views)
            &&& views.len() == members@.len()
            &&& forall|i: int|
                0 <= i < members@.len() ==> (#[trigger] views[i]) == (
                    members@[i].0@,
                    members@[i].1@,
                )
        },
{
    reveal_with_fuel(tree_of, 2);
}

impl Json {
    /// The member called `name`, if this is an object that has one.
    pub fn get(&self, name: &str) -> (r: Option<&Json>)
        ensures
            match r {
                Some(j) => self@.get(name@) == Some(j@),
                None => self@.get(name@) is None,
            },
    {
        match self {
            Json::Object(members) => {
                let ghost all = self@->Object_0;
                let wanted = name.to_owned();
                let mut i: usize = 0;
                proof {
                    lemma_view_parts(*self);
                    assert(all.skip(0) =~= all);
                }
                while i < members.len()
                    invariant
                        i <= members@.len(),
                        wanted@ == name@,
                        self@ == JsonView::Object(all),
                        all.len() == members@.len(),
                        forall|k: int|
                            0 <= k < members@.len() ==> (#[trigger] all[k]) == (
                                members@[k].0@,
                                members@[k].1@,
                            ),
                        member(all, name@) == member(all.skip(i as int), name@),
                    decreases members.len() - i,
                {
                    proof {
                        assert(all.skip(i as int)[0] == all[i as int]);
                        assert(all.skip(i as int).drop_first() =~= all.skip(i + 1));
                    }
                    if members[i].0 == wanted {
                        return Some(&members[i].1);
                    }
                    i += 1;
                }
                None
            },
            _ => None,
        }
    }

    /// The text, if this is one.
    pub fn text(&self) -> (r: Option<&String>)
        ensures
            match r {
                Some(s) => self@.as_text() == Some(s@),
                None => self@.as_text() is None,
            },
    {
        match self {
            Json::Text(s) => Some(s),
            _ => None,
        }
    }

    /// The integer, if this is one.
    pub fn integer(&self) -> (r: Option<i128>)
        ensures
            match r {
                Some(n) => self@.as_integer() == Some(n as int),
                None => self@.as_integer() is None,
            },
    {
        match self {
            Json::Unsigned(n) => Some(*n as i128),
            Json::Signed(n) => Some(*n as i128),
            _ => None,
        }
    }

    /// The counter, if this is one.
    pub fn count(&self) -> (r: Option<usize>)
        ensures
            r == self@.as_count(),
    {
        match self {
            Json::Unsigned(n) => if *n <= usize::MAX as u64 {
                Some(*n as usize)
            } else {
                None
            },
            _ => None,
        }
    }

    /// The items, if this is a list.
    pub fn items(&self) -> (r: Option<&Vec<Json>>)
        ensures
            match r {
                Some(items) => {
                    &&& self@.as_list() is Some
                    &&& self@.as_list()->0.len() == items@.len()
                    &&& forall|i: int|
                        0 <= i < items@.len() ==> (#[trigger] self@.as_list()->0[i]) == items@[i]@
                },
                None => self@.as_list() is None,
            },
    {
        proof {
            lemma_view_parts(*self);
        }
        match self {
            Json::List(items) => Some(items),
            _ => None,
        }
    }

    /// The text of the member called `name`.
    pub fn text_at(&self, name: &str) -> (r: Option<String>)
        ensures
            match r {
                Some(s) => self@.text_at(name@) == Some(s@),
                None => self@.text_at(name@) is None,
            },
    {
        match self.get(name) {
            Some(j) => match j.text() {
                Some(s) => Some(s.clone()),
                None => None,
            },
            None => None,
        }
    }

    /// The counter of the member called `name`.
    pub fn count_at(&self, name: &str) -> (r: Option<usize>)
        ensures
            r == self@.count_at(name@),
    {
        match self.get(name) {
            Some(j) => j.count(),
            None => None,
        }
    }
}

} // verus!
