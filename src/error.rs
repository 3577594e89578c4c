//! Errors of the RPC core: a kind, a message and a chain of causes that
//! can be carried across the wire as plain text.
use vstd::prelude::*;

verus! {

/// Text placed between an error's message and the rendering of its cause.
pub const CAUSE_SEPARATOR: &'static str = " caused by:\n ";

/// Spec value of [`CAUSE_SEPARATOR`].
pub open spec fn cause_separator() -> Seq<char> {
    CAUSE_SEPARATOR@
}

/// How a chain of messages (outermost first) is rendered as text: each
/// message followed by the separator and the rendering of the rest.
pub open spec fn render_chain(c: Seq<Seq<char>>) -> Seq<char>
    decreases c.len(),
{
    if c.len() == 0 {
        Seq::empty()
    } else if c.len() == 1 {
        c[0]
    } else {
        c[0] + cause_separator() + render_chain(c.drop_first())
    }
}

/// Rendering a chain of at least two messages peels off the first one.
pub proof fn lemma_render_cons(head: Seq<char>, rest: Seq<Seq<char>>)
    requires
        rest.len() > 0,
    ensures
        render_chain(seq![head] + rest) == head + cause_separator() + render_chain(rest),
{
    let c = seq![head] + rest;
    assert(c.drop_first() =~= rest);
    assert(c[0] == head);
}

/// Types of [`RPCError`].
#[derive(Debug, Clone, Copy, PartialEq, Eq, Structural)]
pub enum RPCErrorKind {
    /// Error caused by serialization or deserialization failure.
    SerializationError,
    /// RPC server was asked to handle an unknown method.
    UnknownMethod,
    /// Error in the underlying channel. Raised only by transports.
    TransportError,
    /// The peer closed the channel while data was still expected.
    TransportEOF,
    /// An internal invariant of the RPC machinery was violated.
    IllegalState,
    /// Other error.
    Other,
}

/// Serializable projection of an arbitrary error: its description and the
/// chain of its causes. The concrete type and backtrace are not kept.
#[derive(Debug)]
pub struct GenericSerializableError {
    description: String,
    cause: Option<Box<GenericSerializableError>>,
}

impl GenericSerializableError {
    /// The description of this error.
    pub closed spec fn spec_description(&self) -> Seq<char> {
        self.description@
    }

    /// The direct cause of this error, if any.
    pub closed spec fn spec_cause(&self) -> Option<GenericSerializableError> {
        match self.cause {
            Some(b) => Some(*b),
            None => None,
        }
    }

    /// Descriptions of this error and of every error in its cause chain,
    /// outermost first.
    pub closed spec fn spec_chain(&self) -> Seq<Seq<char>>
        decreases self,
    {
        match self.cause {
            Some(b) => seq![self.description@] + b.spec_chain(),
            None => seq![self.description@],
        }
    }

    /// The chain starts with the description and continues with the cause's chain.
    pub proof fn lemma_chain_shape(&self)
        ensures
            self.spec_chain().len() > 0,
            self.spec_chain()[0] == self.spec_description(),
            self.spec_cause() is None ==> self.spec_chain() == seq![self.spec_description()],
            self.spec_cause() matches Some(c) ==> self.spec_chain() == seq![
                self.spec_description(),
            ] + c.spec_chain(),
    {
    }

    /// New error from a description and an optional cause.
    pub fn new(description: String, cause: Option<GenericSerializableError>) -> (r: Self)
        ensures
            r.spec_description() == description@,
            r.spec_cause() == cause,
    {
        let cause = match cause {
            Some(c) => Some(Box::new(c)),
            None => None,
        };
        GenericSerializableError { description, cause }
    }

    /// New error from the messages of an error and of each of its sources,
    /// outermost first, as obtained by walking `source()` of a `dyn Error`.
    pub fn from_dyn(chain: &Vec<String>) -> (r: Self)
        requires
            chain@.len() > 0,
        ensures
            r.spec_chain() == chain@.map_values(|s: String| s@),
    {
        let n = chain.len();
        let mut i: usize = n - 1;
        let mut acc = GenericSerializableError { description: chain[i].clone(), cause: None };
        assert(acc.spec_chain() =~= chain@.subrange(i as int, n as int).map_values(|s: String| s@));
        while i > 0
            invariant
                0 <= i < n,
                n == chain@.len(),
                acc.spec_chain() == chain@.subrange(i as int, n as int).map_values(|s: String| s@),
            decreases i,
        {
            i = i - 1;
            let prev = acc;
            acc = GenericSerializableError { description: chain[i].clone(), cause: Some(Box::new(prev)) };
            assert(acc.spec_chain() =~= chain@.subrange(i as int, n as int).map_values(|s: String| s@));
        }
        assert(chain@.subrange(0, n as int) =~= chain@);
        acc
    }

    /// The description of this error.
    pub fn description(&self) -> (r: &String)
        ensures
            r@ == self.spec_description(),
    {
        &self.description
    }

    /// The direct cause of this error, if any.
    pub fn source(&self) -> (r: Option<&GenericSerializableError>)
        ensures
            r matches Some(c) ==> self.spec_cause() == Some(*c),
            r is None ==> self.spec_cause() is None,
    {
        match &self.cause {
            Some(b) => Some(&**b),
            None => None,
        }
    }

    /// Renders the error as text: the description, then for each cause the
    /// separator and that cause's description.
    pub fn to_display_string(&self) -> (r: String)
        ensures
            r@ == render_chain(self.spec_chain()),
    {
        let mut out = String::new();
        let mut cur: &GenericSerializableError = self;
        loop
            invariant
                render_chain(self.spec_chain()) == out@ + render_chain(cur.spec_chain()),
            decreases cur.spec_chain().len(),
        {
            match &cur.cause {
                Some(b) => {
                    proof {
                        (**b).lemma_chain_shape();
                        lemma_render_cons(cur.description@, b.spec_chain());
                    }
                    out.append(cur.description.as_str());
                    out.append(CAUSE_SEPARATOR);
                    cur = &**b;
                },
                None => {
                    out.append(cur.description.as_str());
                    return out;
                },
            }
        }
    }
}

/// RPC error: a kind, a message and an optional cause. This is the only
/// error type of the transport and protocol layer.
#[derive(Debug)]
pub struct RPCError {
    pub kind: RPCErrorKind,
    msg: String,
    cause: Option<Box<GenericSerializableError>>,
}

impl RPCError {
    /// The error's kind.
    pub closed spec fn spec_kind(&self) -> RPCErrorKind {
        self.kind
    }

    /// The error's message.
    pub closed spec fn spec_message(&self) -> Seq<char> {
        self.msg@
    }

    /// The error's cause, if any.
    pub closed spec fn spec_cause(&self) -> Option<GenericSerializableError> {
        match self.cause {
            Some(b) => Some(*b),
            None => None,
        }
    }

    /// The message followed by the descriptions of the whole cause chain.
    pub open spec fn spec_chain(&self) -> Seq<Seq<char>> {
        match self.spec_cause() {
            Some(c) => seq![self.spec_message()] + c.spec_chain(),
            None => seq![self.spec_message()],
        }
    }

    /// New error without a cause.
    pub fn new(kind: RPCErrorKind, msg: &str) -> (r: Self)
        ensures
            r.spec_kind() == kind,
            r.spec_message() == msg@,
            r.spec_cause() is None,
    {
        RPCError { kind, msg: msg.to_owned(), cause: None }
    }

    /// New error with a cause.
    pub fn with_cause(kind: RPCErrorKind, msg: &str, cause: GenericSerializableError) -> (r: Self)
        ensures
            r.spec_kind() == kind,
            r.spec_message() == msg@,
            r.spec_cause() == Some(cause),
    {
        RPCError { kind, msg: msg.to_owned(), cause: Some(Box::new(cause)) }
    }

    /// The kind of the error.
    pub fn kind(&self) -> (r: RPCErrorKind)
        ensures
            r == self.spec_kind(),
    {
        self.kind
    }

    /// The error's message.
    pub fn message(&self) -> (r: &String)
        ensures
            r@ == self.spec_message(),
    {
        &self.msg
    }

    /// Get the cause of the error (if any).
    pub fn cause(&self) -> (r: Option<&GenericSerializableError>)
        ensures
            r matches Some(c) ==> self.spec_cause() == Some(*c),
            r is None ==> self.spec_cause() is None,
    {
        match &self.cause {
            None => None,
            Some(e) => Some(&**e),
        }
    }

    /// Renders the error as text: the message, then for each cause the
    /// separator and that cause's description.
    pub fn to_display_string(&self) -> (r: String)
        ensures
            r@ == render_chain(self.spec_chain()),
    {
        let mut out = self.msg.clone();
        match &self.cause {
            Some(b) => {
                proof {
                    (**b).lemma_chain_shape();
                    lemma_render_cons(self.msg@, b.spec_chain());
                }
                let rest = b.to_display_string();
                out.append(CAUSE_SEPARATOR);
                out.append(rest.as_str());
            },
            None => {},
        }
        out
    }
}

/// What a decoder reported when a value could not be read from its input.
#[derive(Debug)]
pub enum DecodeFailure {
    /// The input ended before the value was complete.
    Eof,
    /// The input is not an encoding of the expected value; the decoder's
    /// description of the fault.
    Invalid(String),
}

/// What a byte channel reported when a read, write or flush failed.
#[derive(Debug)]
pub enum ChannelFault {
    /// The peer closed the channel while more bytes were expected.
    Eof,
    /// Any other fault of the channel; its description.
    Failed(String),
}

/// The error for a fault of the byte channel: a closed peer is an end of
/// stream, anything else a transport error that keeps the description.
pub fn channel_error(fault: ChannelFault) -> (r: RPCError)
    ensures
        fault is Eof ==> r.spec_kind() == RPCErrorKind::TransportEOF && r.spec_message()
            == "EOF on the underlying channel"@ && r.spec_cause() is None,
        fault matches ChannelFault::Failed(d) ==> (r.spec_kind() == RPCErrorKind::TransportError
            && r.spec_message() == "underlying channel failed"@ && (r.spec_cause() matches Some(c)
            && c.spec_chain() == seq![d@])),
{
    match fault {
        ChannelFault::Eof => RPCError::new(RPCErrorKind::TransportEOF, "EOF on the underlying channel"),
        ChannelFault::Failed(d) => {
            let cause = GenericSerializableError::new(d, None);
            proof {
                cause.lemma_chain_shape();
            }
            RPCError::with_cause(RPCErrorKind::TransportError, "underlying channel failed", cause)
        },
    }
}

} // verus!
