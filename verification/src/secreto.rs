//! Text and bytes that do not outlive their use.
use vstd::prelude::*;

use crate::primitivas::{borrar_bytes, borrar_texto};

verus! {

/// A text that is wiped from memory when it is dropped.
pub struct Secreto {
    texto: String,
}

impl View for Secreto {
    type V = Seq<char>;

    closed spec fn view(&self) -> Seq<char> {
        self.texto@
    }
}

impl Secreto {
    /// Takes charge of a text.
    pub fn new(texto: String) -> (s: Secreto)
        ensures
            s@ == texto@,
    {
        Secreto { texto }
    }

    /// The text, for as long as it is needed.
    pub fn as_str(&self) -> (s: &str)
        ensures
            s@ == self@,
    {
        self.texto.as_str()
    }
}

impl Clone for Secreto {
    /// Another copy, which wipes itself as well.
    fn clone(&self) -> (s: Secreto)
        ensures
            s@ == self@,
    {
        Secreto { texto: self.texto.clone() }
    }
}

impl Drop for Secreto {
    fn drop(&mut self)
        opens_invariants none
        no_unwind
    {
        borrar_texto(&mut self.texto);
    }
}

/// Bytes that are wiped from memory when they are dropped.
pub struct BytesSecretos {
    bytes: Vec<u8>,
}

impl View for BytesSecretos {
    type V = Seq<u8>;

    closed spec fn view(&self) -> Seq<u8> {
        self.bytes@
    }
}

impl BytesSecretos {
    /// Takes charge of some bytes.
    pub fn new(bytes: Vec<u8>) -> (s: BytesSecretos)
        ensures
            s@ == bytes@,
    {
        BytesSecretos { bytes }
    }

    /// The bytes, for as long as they are needed.
    pub fn as_slice(&self) -> (s: &[u8])
        ensures
            s@ == self@,
    {
        self.bytes.as_slice()
    }
}

impl Drop for BytesSecretos {
    fn drop(&mut self)
        opens_invariants none
        no_unwind
    {
        borrar_bytes(&mut self.bytes);
    }
}

} // verus!
