//! Method identity: how a call names its method on the wire, and how a
//! server resolves what it received to the index of a declared method.
use vstd::prelude::*;

use crate::error::{RPCError, RPCErrorKind};

verus! {

/// Identifies a method by both a name and an index. Indices are given in
/// the order in which the methods are declared, starting at 0.
#[derive(Debug)]
pub struct MethodId {
    pub name: &'static str,
    pub num: u32,
}

/// Identifies a method by either a name or an index, whichever of the two
/// a server transport could recover from the wire.
#[derive(Debug)]
pub enum PartialMethodId {
    Name(String),
    Num(u32),
}

/// The position of the first entry of `names` equal to `name`, if any.
pub open spec fn name_position(names: Seq<Seq<char>>, name: Seq<char>) -> Option<int> {
    if exists|i: int|
        0 <= i < names.len() && names[i] == name && (forall|j: int|
            0 <= j < i ==> names[j] != name) {
        Some(
            choose|i: int|
                0 <= i < names.len() && names[i] == name && (forall|j: int|
                    0 <= j < i ==> names[j] != name),
        )
    } else {
        None
    }
}

/// A name found at `i`, and at no earlier position, has position `i`.
pub proof fn lemma_name_found(names: Seq<Seq<char>>, name: Seq<char>, i: int)
    requires
        0 <= i < names.len(),
        names[i] == name,
        forall|j: int| 0 <= j < i ==> names[j] != name,
    ensures
        name_position(names, name) == Some(i),
{
    let c = choose|k: int|
        0 <= k < names.len() && names[k] == name && (forall|j: int| 0 <= j < k ==> names[j] != name);
    assert(c == i) by {
        if c < i {
            assert(names[c] != name);
        } else if c > i {
            assert(names[i] != name);
        }
    }
}

/// Scans from `i` for the first position of `name`, given that none comes
/// before `i`.
proof fn lemma_first_from(names: Seq<Seq<char>>, name: Seq<char>, i: int)
    requires
        0 <= i <= names.len(),
        forall|j: int| 0 <= j < i ==> names[j] != name,
    ensures
        name_position(names, name) is None <==> (forall|j: int|
            0 <= j < names.len() ==> names[j] != name),
    decreases names.len() - i,
{
    if i < names.len() {
        if names[i] == name {
            lemma_name_found(names, name, i);
        } else {
            lemma_first_from(names, name, i + 1);
        }
    } else {
        if exists|k: int|
            0 <= k < names.len() && names[k] == name && (forall|j: int|
                0 <= j < k ==> names[j] != name) {
            let k = choose|k: int|
                0 <= k < names.len() && names[k] == name && (forall|j: int|
                    0 <= j < k ==> names[j] != name);
            assert(names[k] != name);
        }
    }
}

/// A name has no position exactly when no entry equals it.
pub proof fn lemma_name_absent(names: Seq<Seq<char>>, name: Seq<char>)
    ensures
        name_position(names, name) is None <==> (forall|j: int|
            0 <= j < names.len() ==> names[j] != name),
{
    lemma_first_from(names, name, 0);
}

/// A found position holds the name, and no earlier entry does.
pub proof fn lemma_name_position(names: Seq<Seq<char>>, name: Seq<char>)
    ensures
        name_position(names, name) matches Some(i) ==> 0 <= i < names.len() && names[i] == name
            && forall|j: int| 0 <= j < i ==> names[j] != name,
{
}

/// The dispatch index that a table of declared method names gives to an
/// identifier, if it gives one: an index is taken as it is when a method
/// has it; a name is looked up.
pub open spec fn dispatch_index(names: Seq<Seq<char>>, id: PartialMethodId) -> Option<int> {
    match id {
        PartialMethodId::Num(n) => if n < names.len() {
            Some(n as int)
        } else {
            None
        },
        PartialMethodId::Name(s) => name_position(names, s@),
    }
}

/// The fixed table of a server's declared methods: the name of the method
/// of each index, built once when the server is set up.
pub struct MethodTable {
    names: Vec<String>,
}

impl MethodTable {
    /// Names of the declared methods, by index.
    pub closed spec fn spec_names(&self) -> Seq<Seq<char>> {
        self.names@.map_values(|s: String| s@)
    }

    /// Every index of the table fits a method index.
    pub closed spec fn wf(&self) -> bool {
        self.names@.len() <= u32::MAX
    }

    /// Table of the methods named in `names`, the method of index `i` being
    /// `names[i]`.
    pub fn new(names: Vec<String>) -> (r: Self)
        requires
            names@.len() <= u32::MAX,
        ensures
            r.wf(),
            r.spec_names() == names@.map_values(|s: String| s@),
    {
        MethodTable { names }
    }

    /// Number of declared methods.
    pub fn len(&self) -> (r: usize)
        ensures
            r == self.spec_names().len(),
    {
        self.names.len()
    }

    /// Resolves an identifier received from the wire to the index of a
    /// declared method. An identifier that names no declared method is an
    /// `UnknownMethod` error for the serving side.
    pub fn resolve(&self, id: &PartialMethodId) -> (r: Result<u32, RPCError>)
        requires
            self.wf(),
        ensures
            dispatch_index(self.spec_names(), *id) matches Some(i) ==> r == Ok::<u32, RPCError>(
                i as u32,
            ),
            dispatch_index(self.spec_names(), *id) is None ==> (r matches Err(e) && e.spec_kind()
                == RPCErrorKind::UnknownMethod),
    {
        let ghost names = self.spec_names();
        match id {
            PartialMethodId::Num(n) => {
                if (*n as usize) < self.names.len() {
                    Ok(*n)
                } else {
                    Err(RPCError::new(RPCErrorKind::UnknownMethod, "Unknown rpc method index"))
                }
            },
            PartialMethodId::Name(s) => {
                let mut i: usize = 0;
                while i < self.names.len()
                    invariant
                        self.wf(),
                        names == self.spec_names(),
                        *id == PartialMethodId::Name(*s),
                        i <= names.len(),
                        forall|j: int| 0 <= j < i ==> names[j] != s@,
                    decreases names.len() - i,
                {
                    if self.names[i] == *s {
                        proof {
                            lemma_name_found(names, s@, i as int);
                        }
                        return Ok(i as u32);
                    }
                    i = i + 1;
                }
                let mut msg = String::from_str("Unknown rpc method ");
                msg.append(s.as_str());
                Err(RPCError::new(RPCErrorKind::UnknownMethod, msg.as_str()))
            },
        }
    }
}

} // verus!
