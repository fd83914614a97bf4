//! The canonical text of a value, over which signatures are made.

use vstd::prelude::*;
use crate::b64e::{Base64, Encodable, base64_text};
use crate::text::{int_text, i64_text, u64_text};

verus! {

/// The separator between the fields of a digest.
pub open spec fn separator() -> Seq<char> {
    seq![':']
}

/// A value with a canonical text.
pub trait Digestible: Sized {
    /// The canonical text of the value. A record leaves its own signature out.
    spec fn digest_text(&self) -> Seq<char>;

    /// The canonical text with nothing left out. A record gives its fields with its
    /// signature among them; another value gives its canonical text.
    spec fn digest_with_sig_text(&self) -> Seq<char>;

    /// The canonical text of the value.
    fn digest(&self) -> (r: String)
        ensures
            r@ == self.digest_text(),
    ;

    /// The canonical text with nothing left out.
    fn digest_with_sig(&self) -> (r: String)
        ensures
            r@ == self.digest_with_sig_text(),
    ;
}

impl Digestible for i64 {
    open spec fn digest_text(&self) -> Seq<char> {
        int_text(*self as int)
    }

    open spec fn digest_with_sig_text(&self) -> Seq<char> {
        int_text(*self as int)
    }

    fn digest(&self) -> (r: String) {
        i64_text(*self)
    }

    fn digest_with_sig(&self) -> (r: String) {
        i64_text(*self)
    }
}

impl Digestible for u64 {
    open spec fn digest_text(&self) -> Seq<char> {
        int_text(*self as int)
    }

    open spec fn digest_with_sig_text(&self) -> Seq<char> {
        int_text(*self as int)
    }

    fn digest(&self) -> (r: String) {
        u64_text(*self)
    }

    fn digest_with_sig(&self) -> (r: String) {
        u64_text(*self)
    }
}

impl Digestible for u8 {
    open spec fn digest_text(&self) -> Seq<char> {
        int_text(*self as int)
    }

    open spec fn digest_with_sig_text(&self) -> Seq<char> {
        int_text(*self as int)
    }

    fn digest(&self) -> (r: String) {
        u64_text(*self as u64)
    }

    fn digest_with_sig(&self) -> (r: String) {
        u64_text(*self as u64)
    }
}

impl Digestible for String {
    open spec fn digest_text(&self) -> Seq<char> {
        self@
    }

    open spec fn digest_with_sig_text(&self) -> Seq<char> {
        self@
    }

    fn digest(&self) -> (r: String) {
        self.clone()
    }

    fn digest_with_sig(&self) -> (r: String) {
        self.clone()
    }
}

impl<T: Encodable> Digestible for Base64<T> {
    open spec fn digest_text(&self) -> Seq<char> {
        base64_text(self.0.bytes())
    }

    open spec fn digest_with_sig_text(&self) -> Seq<char> {
        base64_text(self.0.bytes())
    }

    fn digest(&self) -> (r: String) {
        self.to_string()
    }

    fn digest_with_sig(&self) -> (r: String) {
        self.to_string()
    }
}

} // verus!
