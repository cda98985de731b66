//! The surroundings of an operation and the answer that it gives.

use vstd::prelude::*;

use crate::expiration::BlockInfo;

verus! {

/// Where and when an operation runs.
#[derive(Clone, Copy, Debug, PartialEq, Eq, Structural)]
pub struct Env {
    pub block: BlockInfo,
}

/// Who asks for an operation. The address is taken as given.
#[derive(Clone, Debug, PartialEq)]
pub struct MessageInfo {
    pub sender: String,
}

/// A tag on the answer of an operation.
#[derive(Clone, Debug, PartialEq)]
pub struct Attribute {
    pub key: String,
    pub value: String,
}

/// The answer of a mutating operation: tags for whoever indexes the
/// operations, and the actions that are to be run.
#[derive(Clone, Debug, PartialEq)]
pub struct Response<T> {
    pub messages: Vec<T>,
    pub attributes: Vec<Attribute>,
}

impl View for Attribute {
    type V = (Seq<char>, Seq<char>);

    open spec fn view(&self) -> (Seq<char>, Seq<char>) {
        (self.key@, self.value@)
    }
}

impl<T> Response<T> {
    /// The tags, in the order in which they were added.
    pub open spec fn tags(self) -> Seq<(Seq<char>, Seq<char>)> {
        self.attributes@.map_values(|a: Attribute| a@)
    }

    /// An answer without tags and actions.
    pub fn new() -> (r: Response<T>)
        ensures
            r.tags() == Seq::<(Seq<char>, Seq<char>)>::empty(),
            r.messages@ == Seq::<T>::empty(),
    {
        let r = Response { messages: Vec::new(), attributes: Vec::new() };
        assert(r.tags() =~= Seq::<(Seq<char>, Seq<char>)>::empty());
        r
    }

    /// Adds a tag behind the others.
    pub fn add_attribute(self, key: &str, value: &str) -> (r: Response<T>)
        ensures
            r.tags() == self.tags().push((key@, value@)),
            r.messages == self.messages,
    {
        let mut r = self;
        r.attributes.push(Attribute { key: key.to_string(), value: value.to_string() });
        assert(r.tags() =~= self.tags().push((key@, value@)));
        r
    }

    /// Adds actions behind the others.
    pub fn add_messages(self, msgs: Vec<T>) -> (r: Response<T>)
        ensures
            r.tags() == self.tags(),
            r.messages@ == self.messages@ + msgs@,
    {
        let mut r = self;
        let mut msgs = msgs;
        r.messages.append(&mut msgs);
        r
    }
}

/// Whether `to` holds a clone of each action of `from`, in the same order.
pub open spec fn cloned_all<T: Clone>(from: Seq<T>, to: Seq<T>) -> bool {
    &&& from.len() == to.len()
    &&& forall|i: int| 0 <= i < from.len() ==> cloned(#[trigger] from[i], to[i])
}

} // verus!
