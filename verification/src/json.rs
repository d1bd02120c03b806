//! JSON documents, as the handlers answer with them.
use vstd::prelude::*;

verus! {

/// A JSON document.
#[derive(Debug)]
pub enum Json {
    Null,
    Bool(bool),
    Integer(i64),
    Text(String),
    Array(Vec<Json>),
    /// The members, in the order in which they were put in.
    Object(Vec<(String, Json)>),
}

/// A JSON document as a value.
#[verifier::ext_equal]
pub enum Document {
    Null,
    Bool(bool),
    Integer(int),
    Text(Seq<char>),
    Array(Seq<Document>),
    Object(Seq<(Seq<char>, Document)>),
}

impl Json {
    /// The document as a value.
    pub open spec fn document(self) -> Document
        decreases self,
    {
        match self {
            Json::Null => Document::Null,
            Json::Bool(b) => Document::Bool(b),
            Json::Integer(n) => Document::Integer(n as int),
            Json::Text(s) => Document::Text(s@),
            Json::Array(items) => Document::Array(
                Seq::new(
                    items@.len(),
                    |i: int|
                        if 0 <= i < items@.len() {
                            items@[i].document()
                        } else {
                            Document::Null
                        },
                ),
            ),
            Json::Object(members) => Document::Object(
                Seq::new(
                    members@.len(),
                    |i: int|
                        if 0 <= i < members@.len() {
                            (members@[i].0@, members@[i].1.document())
                        } else {
                            (Seq::empty(), Document::Null)
                        },
                ),
            ),
        }
    }

    /// A text.
    pub fn text(s: &str) -> (json: Json)
        ensures
            json@ == Document::Text(s@),
    {
        Json::Text(s.to_owned())
    }

    /// An array of one item.
    pub fn array_of_one(item: Json) -> (json: Json)
        ensures
            json@ == Document::Array(seq![item@]),
    {
        let mut items: Vec<Json> = Vec::new();
        items.push(item);
        let json = Json::Array(items);
        assert(json@->Array_0 =~= seq![item@]);
        json
    }
}

impl View for Json {
    type V = Document;

    open spec fn view(&self) -> Document {
        self.document()
    }
}

/// An object without members.
pub open spec fn no_members() -> Seq<(Seq<char>, Document)> {
    Seq::empty()
}

/// The first of `members` with this name.
pub open spec fn member(members: Seq<(Seq<char>, Document)>, name: Seq<char>) -> Option<Document>
    decreases members.len(),
{
    if members.len() == 0 {
        None
    } else if members[0].0 == name {
        Some(members[0].1)
    } else {
        member(members.skip(1), name)
    }
}

/// What an object holds under a name; nothing where the document is no object.
pub open spec fn member_of(document: Document, name: Seq<char>) -> Option<Document> {
    match document {
        Document::Object(members) => member(members, name),
        _ => None,
    }
}

/// What stands at `i` is the first of its name where no member before it has that name.
pub proof fn lemma_member_at(members: Seq<(Seq<char>, Document)>, name: Seq<char>, i: int)
    requires
        0 <= i < members.len(),
        members[i].0 == name,
        forall|j: int| 0 <= j < i ==> (#[trigger] members[j]).0 != name,
    ensures
        member(members, name) == Some(members[i].1),
    decreases i,
{
    if i > 0 {
        assert(members[0].0 != name);
        assert forall|j: int| 0 <= j < i - 1 implies (#[trigger] members.skip(1)[j]).0 != name by {
            assert(members.skip(1)[j] == members[j + 1]);
        }
        lemma_member_at(members.skip(1), name, i - 1);
    }
}

/// Nothing is found under a name that no member has.
pub proof fn lemma_member_missing(members: Seq<(Seq<char>, Document)>, name: Seq<char>)
    requires
        forall|j: int| 0 <= j < members.len() ==> (#[trigger] members[j]).0 != name,
    ensures
        member(members, name) is None,
    decreases members.len(),
{
    if members.len() > 0 {
        assert(members[0].0 != name);
        assert forall|j: int| 0 <= j < members.len() - 1 implies (#[trigger] members.skip(1)[j]).0
            != name by {
            assert(members.skip(1)[j] == members[j + 1]);
        }
        lemma_member_missing(members.skip(1), name);
    }
}

/// The members of an object that is being written.
pub struct Members {
    members: Vec<(String, Json)>,
}

impl View for Members {
    type V = Seq<(Seq<char>, Document)>;

    closed spec fn view(&self) -> Seq<(Seq<char>, Document)> {
        self.members@.map_values(|m: (String, Json)| (m.0@, m.1@))
    }
}

impl Members {
    /// No member yet.
    pub fn new() -> (r: Members)
        ensures
            r@ == no_members(),
    {
        let r = Members { members: Vec::new() };
        assert(r@ =~= no_members());
        r
    }

    /// One member more, behind the others.
    pub fn with(self, name: &str, value: Json) -> (r: Members)
        ensures
            r@ == self@.push((name@, value@)),
    {
        let mut members = self.members;
        members.push((name.to_owned(), value));
        let r = Members { members };
        assert(r@ =~= self@.push((name@, value@)));
        r
    }

    /// The object with these members.
    pub fn object(self) -> (r: Json)
        ensures
            r@ == Document::Object(self@),
    {
        let r = Json::Object(self.members);
        assert(r@->Object_0 =~= self@);
        r
    }
}

/// A document is taken as it is, in each of its kinds.
pub proof fn law_document_is_taken_whole(
    b: bool,
    n: i64,
    s: String,
    items: Vec<Json>,
    members: Vec<(String, Json)>,
    i: int,
)
    ensures
        Json::Null@ == Document::Null,
        Json::Bool(b)@ == Document::Bool(b),
        Json::Integer(n)@ == Document::Integer(n as int),
        Json::Text(s)@ == Document::Text(s@),
        Json::Array(items)@ matches Document::Array(d) && d.len() == items@.len() && (0 <= i
            < items@.len() ==> d[i] == items@[i]@),
        Json::Object(members)@ matches Document::Object(d) && d.len() == members@.len() && (0 <= i
            < members@.len() ==> d[i] == (members@[i].0@, members@[i].1@)),
{
}

} // verus!
