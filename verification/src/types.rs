//! The plain values of a lock request: timestamps, keys, the request context.

use vstd::prelude::*;

use crate::bytes::copy_bytes;

verus! {

/// A timestamp of the timestamp oracle.
#[derive(Clone, Copy, Debug, PartialEq, Eq, Structural)]
pub struct TimeStamp(pub u64);

impl TimeStamp {
    /// The timestamp with the given number.
    pub fn new(ts: u64) -> (r: TimeStamp)
        ensures
            r == TimeStamp(ts),
    {
        TimeStamp(ts)
    }

    /// The timestamp before all others.
    pub fn zero() -> (r: TimeStamp)
        ensures
            r == TimeStamp(0),
    {
        TimeStamp(0)
    }

    /// The timestamp's number.
    pub fn into_inner(self) -> (r: u64)
        ensures
            r == self.0,
    {
        self.0
    }
}

/// Why the encoded form of a key could not be decoded.
#[derive(Debug, PartialEq, Eq)]
pub struct KeyError {
    pub reason: String,
}

impl DeepView for KeyError {
    type V = Seq<char>;

    open spec fn deep_view(&self) -> Seq<char> {
        self.reason@
    }
}

impl Clone for KeyError {
    fn clone(&self) -> (copy: Self)
        ensures
            copy.deep_view() == self.deep_view(),
    {
        KeyError { reason: self.reason.clone() }
    }
}

/// A key in the encoded form in which the storage engine keeps it, together with the raw key that
/// the engine's codec decodes it to. Decoding fails on bytes that no raw key encodes to.
#[derive(Debug, PartialEq, Eq)]
pub struct Key {
    encoded: Vec<u8>,
    raw: Result<Vec<u8>, KeyError>,
}

/// What a [`Key`] holds.
pub struct KeyView {
    pub encoded: Seq<u8>,
    pub raw: Result<Seq<u8>, Seq<char>>,
}

impl DeepView for Key {
    type V = KeyView;

    closed spec fn deep_view(&self) -> KeyView {
        KeyView { encoded: self.encoded@, raw: raw_view(self.raw) }
    }
}

/// The raw key, or the reason why there is none.
pub open spec fn raw_view(raw: Result<Vec<u8>, KeyError>) -> Result<Seq<u8>, Seq<char>> {
    match raw {
        Ok(bytes) => Ok(bytes@),
        Err(error) => Err(error.deep_view()),
    }
}

impl Key {
    /// The key with the given encoded form, which decodes as the second argument says.
    pub fn new(encoded: Vec<u8>, raw: Result<Vec<u8>, KeyError>) -> (key: Key)
        ensures
            key.deep_view() == (KeyView { encoded: encoded@, raw: raw_view(raw) }),
            raw matches Ok(bytes) ==> key.deep_view().raw == Ok::<_, Seq<char>>(bytes@),
            raw matches Err(error) ==> key.deep_view().raw == Err::<Seq<u8>, _>(error.reason@),
    {
        Key { encoded, raw }
    }

    /// The encoded form of the key.
    pub fn as_encoded(&self) -> (encoded: &Vec<u8>)
        ensures
            encoded@ == self.deep_view().encoded,
    {
        &self.encoded
    }

    /// The raw key.
    pub fn to_raw(&self) -> (raw: Result<Vec<u8>, KeyError>)
        ensures
            raw_view(raw) == self.deep_view().raw,
            raw matches Ok(bytes) ==> self.deep_view().raw == Ok::<_, Seq<char>>(bytes@),
            raw matches Err(error) ==> self.deep_view().raw == Err::<Seq<u8>, _>(error.reason@),
    {
        match &self.raw {
            Ok(bytes) => Ok(copy_bytes(bytes)),
            Err(error) => Err(error.clone()),
        }
    }
}

impl Clone for Key {
    fn clone(&self) -> (copy: Self)
        ensures
            copy.deep_view() == self.deep_view(),
    {
        Key { encoded: copy_bytes(&self.encoded), raw: self.to_raw() }
    }
}

/// The context of a request (region, peer, term and the like), in its encoded form. It is carried
/// along and handed back.
#[derive(Debug, PartialEq, Eq)]
pub struct Context {
    pub encoded: Vec<u8>,
}

impl DeepView for Context {
    type V = Seq<u8>;

    open spec fn deep_view(&self) -> Seq<u8> {
        self.encoded@
    }
}

impl Default for Context {
    fn default() -> (context: Self)
        ensures
            context.deep_view() == Seq::<u8>::empty(),
    {
        Context { encoded: Vec::new() }
    }
}

impl Clone for Context {
    fn clone(&self) -> (copy: Self)
        ensures
            copy.deep_view() == self.deep_view(),
    {
        Context { encoded: copy_bytes(&self.encoded) }
    }
}

/// What the engine does besides the request itself.
#[derive(Clone, Copy, Debug, PartialEq, Eq, Structural)]
pub enum ExtraOp {
    Noop,
    /// Read the value that each key had before.
    ReadOldValue,
}

/// How long a request waits for a lock to be released.
#[derive(Clone, Copy, Debug, PartialEq, Eq, Structural)]
pub enum WaitTimeout {
    /// As long as the server is configured to wait.
    Default,
    Millis(u64),
}

} // verus!
