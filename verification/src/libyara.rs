//! The native engine's records, as they are captured from its memory.
//!
//! Each type here mirrors one record of the engine. Where the engine's record
//! holds a pointer, the captured record owns what the pointer leads to: a
//! pointer into an array or a string is the memory from the pointee onwards,
//! a pointer to the head of a linked list is the list's nodes in link order.
//! A null pointer is captured as empty memory. Nothing here points back into
//! the engine, so a captured record outlives the callback that delivered it.

use vstd::prelude::*;

verus! {

/// Type tag of the record that ends a metadata array.
pub const META_TYPE_NULL: i32 = 0;

/// Type tag of integer metadata.
pub const META_TYPE_INTEGER: i32 = 1;

/// Type tag of string metadata.
pub const META_TYPE_STRING: i32 = 2;

/// Type tag of boolean metadata.
pub const META_TYPE_BOOLEAN: i32 = 3;

/// Flag bit of the record that ends an array of strings.
pub const STRING_GFLAGS_NULL: i32 = 0x1000;

/// Message kind of the scan callback for a rule that matched.
pub const CALLBACK_MSG_RULE_MATCHING: i32 = 1;

/// Status by which the scan callback asks the engine to go on.
pub const CALLBACK_CONTINUE: i32 = 0;

/// One occurrence of a string in the scanned data.
#[derive(Clone, Debug)]
pub struct YR_MATCH {
    /// Where the occurrence starts.
    pub offset: i64,
    /// How long the occurrence is.
    pub match_length: i32,
    /// The matched bytes that the engine kept.
    pub data: Vec<u8>,
}

/// The occurrences of one string that one scanning thread found.
#[derive(Clone, Debug)]
pub struct YR_MATCHES {
    /// The nodes of the linked list, from head to tail.
    pub nodes: Vec<YR_MATCH>,
}

/// One entry of a rule's metadata, or the record that ends the array.
#[derive(Clone, Debug)]
pub struct YR_META {
    /// The type tag, one of the `META_TYPE_` constants.
    pub type_: i32,
    /// The value of an integer, or of a boolean as zero or nonzero.
    pub integer: i64,
    /// The entry's name, a C string.
    pub identifier: Vec<u8>,
    /// The value of a string entry, a C string.
    pub string: Vec<u8>,
}

/// The namespace that a rule was registered under.
#[derive(Clone, Debug)]
pub struct YR_NAMESPACE {
    /// The namespace's name, a C string.
    pub name: Vec<u8>,
}

/// One named string of a rule, or the record that ends the array.
#[derive(Clone, Debug)]
pub struct YR_STRING {
    /// Flag bits; `STRING_GFLAGS_NULL` marks the end of the array.
    pub g_flags: i32,
    /// The string's name with its `$`, a C string.
    pub identifier: Vec<u8>,
    /// The pattern itself.
    pub string: Vec<u8>,
    /// One list of occurrences for each scanning thread, by thread index.
    pub matches: Vec<YR_MATCHES>,
}

/// A compiled rule as the scan callback receives it.
#[derive(Clone, Debug)]
pub struct YR_RULE {
    /// The rule's name, a C string.
    pub identifier: Vec<u8>,
    /// The rule's tags, each a C string, one after the other, ended by an
    /// empty one.
    pub tags: Vec<u8>,
    /// The rule's metadata, ended by a record of type `META_TYPE_NULL`.
    pub metas: Vec<YR_META>,
    /// The rule's strings, ended by a record flagged `STRING_GFLAGS_NULL`.
    pub strings: Vec<YR_STRING>,
    /// The rule's namespace.
    pub ns: YR_NAMESPACE,
}

impl YR_MATCHES {
    /// The list from its first node on.
    pub fn get_head(&self) -> (head: &[YR_MATCH])
        ensures
            head@ == self.nodes@,
    {
        self.nodes.as_slice()
    }

    /// The list from its last node on.
    pub fn get_tail(&self) -> (tail: &[YR_MATCH])
        ensures
            self.nodes@.len() == 0 ==> tail@ == self.nodes@,
            self.nodes@.len() > 0 ==> tail@ == self.nodes@.skip(self.nodes@.len() - 1),
    {
        let all = self.nodes.as_slice();
        let n = all.len();
        if n == 0 {
            all
        } else {
            vstd::slice::slice_subrange(all, n - 1, n)
        }
    }
}

impl YR_META {
    pub fn get_identifier(&self) -> (identifier: &[u8])
        ensures
            identifier@ == self.identifier@,
    {
        self.identifier.as_slice()
    }

    pub fn get_string(&self) -> (string: &[u8])
        ensures
            string@ == self.string@,
    {
        self.string.as_slice()
    }
}

impl YR_NAMESPACE {
    pub fn get_name(&self) -> (name: &[u8])
        ensures
            name@ == self.name@,
    {
        self.name.as_slice()
    }
}

impl YR_RULE {
    pub fn get_identifier(&self) -> (identifier: &[u8])
        ensures
            identifier@ == self.identifier@,
    {
        self.identifier.as_slice()
    }

    pub fn get_tags(&self) -> (tags: &[u8])
        ensures
            tags@ == self.tags@,
    {
        self.tags.as_slice()
    }

    pub fn get_metas(&self) -> (metas: &[YR_META])
        ensures
            metas@ == self.metas@,
    {
        self.metas.as_slice()
    }

    pub fn get_strings(&self) -> (strings: &[YR_STRING])
        ensures
            strings@ == self.strings@,
    {
        self.strings.as_slice()
    }

    pub fn get_ns(&self) -> (ns: &YR_NAMESPACE)
        ensures
            *ns == self.ns,
    {
        &self.ns
    }
}

impl YR_STRING {
    pub fn get_identifier(&self) -> (identifier: &[u8])
        ensures
            identifier@ == self.identifier@,
    {
        self.identifier.as_slice()
    }

    pub fn get_string(&self) -> (string: &[u8])
        ensures
            string@ == self.string@,
    {
        self.string.as_slice()
    }
}

} // verus!
