//! The error type shared by serialization and deserialization.
use vstd::prelude::*;
use vstd::string::StringExecFns;

verus! {

#[verifier::external_type_specification]
#[verifier::external_body]
pub struct ExThrow(neon::result::Throw);

/// Every way a conversion can fail.
#[derive(Debug)]
pub enum Error {
    /// A string is longer than the host allows.
    StringTooLong { len: usize },
    /// A boolean was requested from a value that cannot be coerced to one.
    UnableToCoerce { to_type: &'static str },
    /// A char was requested from an empty string.
    EmptyString,
    /// A char was requested from a string of more than one character.
    StringTooLongForChar { len: usize },
    /// A unit value was requested from something other than `null` or `undefined`.
    ExpectingNull,
    /// An enum was requested from a value that names no single variant.
    InvalidKeyType { key: String },
    /// An array was read past its end.
    ArrayIndexOutOfBounds { index: u32, length: u32 },
    /// The host runtime threw an exception.
    Js { throw: neon::result::Throw },
    /// A number cannot be converted to or from the requested numeric type.
    CastError,
    /// A message from the serde framework or a derived implementation.
    Serde { msg: String },
    /// The requested shape has no JavaScript representation.
    NotImplemented { name: &'static str },
}

/// Relies on neon's `Display` for `Throw`, which writes the fixed text
/// "JavaScript Error".
#[verifier::external_body]
fn throw_text(t: &neon::result::Throw) -> (r: String)
    ensures
        r@ == "JavaScript Error"@,
{
    t.to_string()
}

/// Relies on `String::push`: appends one character.
#[verifier::external_body]
pub(crate) fn push_char(s: &mut String, c: char)
    ensures
        final(s)@ == old(s)@.push(c),
{
    s.push(c)
}

/// The character of a decimal digit.
pub open spec fn digit_char(d: nat) -> char {
    if d == 0 {
        '0'
    } else if d == 1 {
        '1'
    } else if d == 2 {
        '2'
    } else if d == 3 {
        '3'
    } else if d == 4 {
        '4'
    } else if d == 5 {
        '5'
    } else if d == 6 {
        '6'
    } else if d == 7 {
        '7'
    } else if d == 8 {
        '8'
    } else {
        '9'
    }
}

/// The decimal digits of a number, most significant first.
pub open spec fn decimal(n: nat) -> Seq<char>
    decreases n,
{
    if n < 10 {
        seq![digit_char(n)]
    } else {
        decimal(n / 10).push(digit_char(n % 10))
    }
}

fn digit(d: u64) -> (c: char)
    requires
        d < 10,
    ensures
        c == digit_char(d as nat),
{
    if d == 0 {
        '0'
    } else if d == 1 {
        '1'
    } else if d == 2 {
        '2'
    } else if d == 3 {
        '3'
    } else if d == 4 {
        '4'
    } else if d == 5 {
        '5'
    } else if d == 6 {
        '6'
    } else if d == 7 {
        '7'
    } else if d == 8 {
        '8'
    } else {
        '9'
    }
}

/// Appends the decimal digits of `n`.
pub(crate) fn push_decimal(s: &mut String, n: u64)
    ensures
        final(s)@ == old(s)@ + decimal(n as nat),
    decreases n,
{
    if n >= 10 {
        push_decimal(s, n / 10);
    }
    push_char(s, digit(n % 10));
    assert(s@ =~= old(s)@ + decimal(n as nat));
}

pub type Result<T> = core::result::Result<T, Error>;

impl Error {
    /// The error carrying a framework message.
    pub fn custom(msg: String) -> (r: Error)
        ensures
            r matches Error::Serde { msg: m } && m@ == msg@,
    {
        Error::Serde { msg }
    }

    /// The one-line description of the error.
    pub open spec fn message_spec(&self) -> Seq<char> {
        match self {
            Error::StringTooLong { len } => "String too long for NodeJS, len: "@ + decimal(
                *len as nat,
            ),
            Error::UnableToCoerce { to_type } => "Unable to coerce value to type: "@ + to_type@,
            Error::EmptyString => "Attempted to deserialize from an empty string"@,
            Error::StringTooLongForChar { len } => "String too long to be a char expected len: 1, got "@
                + decimal(*len as nat),
            Error::ExpectingNull => "Found unexpected non-null type when deserializing"@,
            Error::InvalidKeyType { key } => "Error when deserializing enum, found key: '"@ + key@
                + "'"@,
            Error::ArrayIndexOutOfBounds { index, length } => "ArrayIndexOutOfBounds: attempted access to ("@
                + decimal(*index as nat) + ") when size: ("@ + decimal(*length as nat) + ")"@,
            Error::Js { .. } => "JS exception: "@ + "JavaScript Error"@,
            Error::CastError => "Unable to convert something to f64"@,
            Error::Serde { msg } => "Error occurred while (de)serializing: "@ + msg@,
            Error::NotImplemented { name } => "Deserialization not implemented for "@ + name@,
        }
    }

    /// The one-line description of the error, as the host shows it.
    pub fn message(&self) -> (r: String)
        ensures
            r@ == self.message_spec(),
    {
        let mut s = String::new();
        match self {
            Error::StringTooLong { len } => {
                s.append("String too long for NodeJS, len: ");
                push_decimal(&mut s, *len as u64);
            },
            Error::UnableToCoerce { to_type } => {
                s.append("Unable to coerce value to type: ");
                s.append(to_type);
            },
            Error::EmptyString => {
                s.append("Attempted to deserialize from an empty string");
            },
            Error::StringTooLongForChar { len } => {
                s.append("String too long to be a char expected len: 1, got ");
                push_decimal(&mut s, *len as u64);
            },
            Error::ExpectingNull => {
                s.append("Found unexpected non-null type when deserializing");
            },
            Error::InvalidKeyType { key } => {
                s.append("Error when deserializing enum, found key: '");
                s.append(key.as_str());
                s.append("'");
            },
            Error::ArrayIndexOutOfBounds { index, length } => {
                s.append("ArrayIndexOutOfBounds: attempted access to (");
                push_decimal(&mut s, *index as u64);
                s.append(") when size: (");
                push_decimal(&mut s, *length as u64);
                s.append(")");
            },
            Error::Js { throw } => {
                s.append("JS exception: ");
                let t = throw_text(throw);
                s.append(t.as_str());
            },
            Error::CastError => {
                s.append("Unable to convert something to f64");
            },
            Error::Serde { msg } => {
                s.append("Error occurred while (de)serializing: ");
                s.append(msg.as_str());
            },
            Error::NotImplemented { name } => {
                s.append("Deserialization not implemented for ");
                s.append(name);
            },
        }
        assert(s@ =~= self.message_spec());
        s
    }
}

impl From<neon::result::Throw> for Error {
    /// An exception thrown by the host becomes the error that carries it.
    fn from(throw: neon::result::Throw) -> (r: Error) {
        Error::Js { throw }
    }
}

impl vstd::std_specs::convert::FromSpecImpl<neon::result::Throw> for Error {
    open spec fn obeys_from_spec() -> bool {
        true
    }

    open spec fn from_spec(throw: neon::result::Throw) -> Error {
        Error::Js { throw }
    }
}

} // verus!
