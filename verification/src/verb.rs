//! The HTTP methods that a handler can be declared for.

use vstd::prelude::*;

verus! {

/// The HTTP method that a handler answers.
#[derive(Clone, Copy, Debug, PartialEq, Eq, Hash, Structural)]
pub enum Verb {
    Get,
    Post,
    Put,
    Delete,
    Patch,
}

/// The upper-case letter for a lower-case ASCII letter; any other character
/// is left as it is.
pub open spec fn ascii_upper(c: char) -> char {
    if 'a' <= c <= 'z' {
        ((c as u8) - 32) as char
    } else {
        c
    }
}

impl Verb {
    /// The marker that selects this method on a declaration: the method's
    /// name in lower case.
    pub open spec fn marker(self) -> Seq<char> {
        match self {
            Verb::Get => "get"@,
            Verb::Post => "post"@,
            Verb::Put => "put"@,
            Verb::Delete => "delete"@,
            Verb::Patch => "patch"@,
        }
    }

    /// The method's name as it is stored and listed: in upper case.
    pub open spec fn label(self) -> Seq<char> {
        match self {
            Verb::Get => "GET"@,
            Verb::Post => "POST"@,
            Verb::Put => "PUT"@,
            Verb::Delete => "DELETE"@,
            Verb::Patch => "PATCH"@,
        }
    }

    /// The method that a marker name selects. Only the five lower-case names
    /// are markers; the comparison is exact.
    pub open spec fn recognized(name: Seq<char>) -> Option<Verb> {
        if name == Verb::Get.marker() {
            Some(Verb::Get)
        } else if name == Verb::Post.marker() {
            Some(Verb::Post)
        } else if name == Verb::Put.marker() {
            Some(Verb::Put)
        } else if name == Verb::Delete.marker() {
            Some(Verb::Delete)
        } else if name == Verb::Patch.marker() {
            Some(Verb::Patch)
        } else {
            None
        }
    }

    /// The stored name of the method.
    pub fn as_str(self) -> (s: &'static str)
        ensures
            s@ == self.label(),
    {
        match self {
            Verb::Get => "GET",
            Verb::Post => "POST",
            Verb::Put => "PUT",
            Verb::Delete => "DELETE",
            Verb::Patch => "PATCH",
        }
    }

    /// Reads a marker name: `Some` method for one of the five markers, `None`
    /// for every other name.
    pub fn from_marker(name: &str) -> (v: Option<Verb>)
        ensures
            v == Verb::recognized(name@),
    {
        let name = name.to_owned();
        if name == "get".to_owned() {
            Some(Verb::Get)
        } else if name == "post".to_owned() {
            Some(Verb::Post)
        } else if name == "put".to_owned() {
            Some(Verb::Put)
        } else if name == "delete".to_owned() {
            Some(Verb::Delete)
        } else if name == "patch".to_owned() {
            Some(Verb::Patch)
        } else {
            None
        }
    }

    /// Every method is selected by its own marker and by no other.
    pub proof fn lemma_marker_selects(self)
        ensures
            Verb::recognized(self.marker()) == Some(self),
    {
        reveal_strlit("get");
        reveal_strlit("post");
        reveal_strlit("put");
        reveal_strlit("delete");
        reveal_strlit("patch");
        assert("get"@.len() == 3 && "post"@.len() == 4 && "put"@.len() == 3);
        assert("delete"@.len() == 6 && "patch"@.len() == 5);
        assert("get"@[0] == 'g' && "put"@[0] == 'p');
    }

    /// The stored name is the marker with every letter in upper case.
    pub proof fn lemma_label_is_upper_case(self)
        ensures
            self.label() == self.marker().map_values(|c: char| ascii_upper(c)),
    {
        reveal_strlit("get");
        reveal_strlit("post");
        reveal_strlit("put");
        reveal_strlit("delete");
        reveal_strlit("patch");
        reveal_strlit("GET");
        reveal_strlit("POST");
        reveal_strlit("PUT");
        reveal_strlit("DELETE");
        reveal_strlit("PATCH");
        assert(self.label() =~= self.marker().map_values(|c: char| ascii_upper(c)));
    }
}

} // verus!
