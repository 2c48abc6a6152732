//! Typed errors for the Wire reader.
//!
//! The load-bearing one is [`WireError::EncryptedPayloadUnrecoverable`]: Wire
//! encrypts message content client-side (Proteus) and that key is not held in
//! the Chromium OS Safe Storage, so a request for the plaintext of an encrypted
//! payload fails with a typed error rather than fabricating bytes.

use vstd::prelude::*;

verus! {

/// An error interpreting a Wire desktop IndexedDB store.
#[non_exhaustive]
#[derive(Debug)]
pub enum WireError {
    /// The underlying IndexedDB/LevelDB store could not be read.
    Read {
        /// The directory that failed to read.
        path: String,
        /// The underlying reader's error, verbatim.
        detail: String,
    },
    /// A Wire profile base directory did not contain the expected IndexedDB store.
    StoreNotFound {
        /// The profile base directory searched.
        base: String,
        /// The store path that was expected, relative to the base.
        relative: String,
    },
    /// The caller asked for the plaintext of a client-side-encrypted payload.
    EncryptedPayloadUnrecoverable,
    /// The record value could not be decoded from its Blink/V8 blob upstream.
    UndecodedValue(String),
}

/// The abstract content of a [`WireError`].
pub enum WireErrorView {
    /// See [`WireError::Read`].
    Read { path: Seq<char>, detail: Seq<char> },
    /// See [`WireError::StoreNotFound`].
    StoreNotFound { base: Seq<char>, relative: Seq<char> },
    /// See [`WireError::EncryptedPayloadUnrecoverable`].
    EncryptedPayloadUnrecoverable,
    /// See [`WireError::UndecodedValue`].
    UndecodedValue(Seq<char>),
}

impl View for WireError {
    type V = WireErrorView;

    open spec fn view(&self) -> WireErrorView {
        match self {
            WireError::Read { path, detail } => WireErrorView::Read { path: path@, detail: detail@ },
            WireError::StoreNotFound { base, relative } => WireErrorView::StoreNotFound {
                base: base@,
                relative: relative@,
            },
            WireError::EncryptedPayloadUnrecoverable => WireErrorView::EncryptedPayloadUnrecoverable,
            WireError::UndecodedValue(e) => WireErrorView::UndecodedValue(e@),
        }
    }
}

/// The human-readable message for an error.
pub open spec fn error_message(e: WireErrorView) -> Seq<char> {
    match e {
        WireErrorView::Read { path, detail } =>
            "failed to read Wire IndexedDB store at "@ + path + ": "@ + detail,
        WireErrorView::StoreNotFound { base, relative } =>
            "Wire profile at "@ + base + " has no IndexedDB store at the expected path "@ + relative,
        WireErrorView::EncryptedPayloadUnrecoverable =>
            "message payload is client-side (Proteus) encrypted; Wire's message key is NOT held in the Chromium OS Safe Storage, so the plaintext is unrecoverable from this artifact"@,
        WireErrorView::UndecodedValue(e) =>
            "record value could not be decoded from its Blink/V8 blob: "@ + e,
    }
}

impl WireError {
    /// The human-readable message for this error (its `Display` text).
    pub fn message(&self) -> (text: String)
        ensures
            text@ == error_message(self@),
    {
        match self {
            WireError::Read { path, detail } => {
                let mut out = String::from_str("failed to read Wire IndexedDB store at ");
                out.append(path.as_str());
                out.append(": ");
                out.append(detail.as_str());
                out
            },
            WireError::StoreNotFound { base, relative } => {
                let mut out = String::from_str("Wire profile at ");
                out.append(base.as_str());
                out.append(" has no IndexedDB store at the expected path ");
                out.append(relative.as_str());
                out
            },
            WireError::EncryptedPayloadUnrecoverable => String::from_str(
                "message payload is client-side (Proteus) encrypted; Wire's message key is NOT held in the Chromium OS Safe Storage, so the plaintext is unrecoverable from this artifact",
            ),
            WireError::UndecodedValue(e) => {
                let mut out = String::from_str("record value could not be decoded from its Blink/V8 blob: ");
                out.append(e.as_str());
                out
            },
        }
    }
}

} // verus!
