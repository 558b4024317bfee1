//! The metadata of a rule.

use vstd::prelude::*;
use vstd::slice::*;

use crate::libyara::{
    YR_META, YR_RULE, META_TYPE_BOOLEAN, META_TYPE_INTEGER, META_TYPE_NULL, META_TYPE_STRING,
};
use crate::sentinel::{lemma_live_shape, lemma_live_step, live, live_len, none_stops};
use crate::text::{holds_text, is_text, text_of, to_text};

verus! {

/// One entry of a rule's metadata.
#[derive(Clone, Debug, Eq, PartialEq)]
pub struct Metadata {
    pub identifier: String,
    pub value: MetadataValue,
}

/// The value of a metadata entry.
#[derive(Clone, Debug, Eq, PartialEq)]
pub enum MetadataValue {
    Integer(i64),
    String(String),
    Boolean(bool),
}

/// What the type tag of a captured metadata record says.
#[derive(Clone, Copy, Debug, Eq, PartialEq)]
pub enum MetaType {
    /// The record ends the array and holds no value.
    Null,
    Integer,
    String,
    Boolean,
}

/// A `MetadataValue` with its text as a sequence of characters.
pub enum MetadataValueView {
    Integer(i64),
    String(Seq<char>),
    Boolean(bool),
}

/// A `Metadata` with its texts as sequences of characters.
pub struct MetadataView {
    pub identifier: Seq<char>,
    pub value: MetadataValueView,
}

impl View for MetadataValue {
    type V = MetadataValueView;

    open spec fn view(&self) -> MetadataValueView {
        match self {
            MetadataValue::Integer(i) => MetadataValueView::Integer(*i),
            MetadataValue::String(s) => MetadataValueView::String(s@),
            MetadataValue::Boolean(b) => MetadataValueView::Boolean(*b),
        }
    }
}

impl View for Metadata {
    type V = MetadataView;

    open spec fn view(&self) -> MetadataView {
        MetadataView { identifier: self.identifier@, value: self.value@ }
    }
}

/// The views of a sequence of metadata entries.
pub open spec fn metadata_views(entries: Seq<Metadata>) -> Seq<MetadataView> {
    entries.map_values(|m: Metadata| m@)
}

impl MetaType {
    /// The meaning of a type tag, or the tag itself where it has none.
    pub open spec fn of_code(code: i32) -> Result<MetaType, i32> {
        if code == META_TYPE_NULL {
            Ok(MetaType::Null)
        } else if code == META_TYPE_INTEGER {
            Ok(MetaType::Integer)
        } else if code == META_TYPE_STRING {
            Ok(MetaType::String)
        } else if code == META_TYPE_BOOLEAN {
            Ok(MetaType::Boolean)
        } else {
            Err(code)
        }
    }

    /// Reads a type tag.
    pub fn from_code(code: i32) -> (r: Result<MetaType, i32>)
        ensures
            r == Self::of_code(code),
    {
        if code == META_TYPE_NULL {
            Ok(MetaType::Null)
        } else if code == META_TYPE_INTEGER {
            Ok(MetaType::Integer)
        } else if code == META_TYPE_STRING {
            Ok(MetaType::String)
        } else if code == META_TYPE_BOOLEAN {
            Ok(MetaType::Boolean)
        } else {
            Err(code)
        }
    }
}

/// Recognises the record that ends a metadata array.
pub open spec fn meta_stop() -> spec_fn(YR_META) -> bool {
    |m: YR_META| m.type_ == META_TYPE_NULL
}

/// A captured record holds a metadata entry that can be projected: its tag
/// names a type of value, its name is text, and so is its value where that is
/// a string.
pub open spec fn meta_ok(m: YR_META) -> bool {
    &&& MetaType::of_code(m.type_) is Ok
    &&& m.type_ != META_TYPE_NULL
    &&& is_text(m.identifier@)
    &&& m.type_ == META_TYPE_STRING ==> is_text(m.string@)
}

/// Every record of `metas` can be projected.
pub open spec fn metas_ok(metas: Seq<YR_META>) -> bool {
    forall|i: int| 0 <= i < metas.len() ==> meta_ok(#[trigger] metas[i])
}

/// What a captured metadata record is projected to. A boolean is stored as an
/// integer and is true where that is not zero.
pub open spec fn meta_view(m: YR_META) -> MetadataView {
    MetadataView {
        identifier: text_of(m.identifier@),
        value: if m.type_ == META_TYPE_BOOLEAN {
            MetadataValueView::Boolean(m.integer != 0)
        } else if m.type_ == META_TYPE_INTEGER {
            MetadataValueView::Integer(m.integer)
        } else {
            MetadataValueView::String(text_of(m.string@))
        },
    }
}

/// What captured metadata records are projected to, one by one.
pub open spec fn meta_views(metas: Seq<YR_META>) -> Seq<MetadataView> {
    metas.map_values(|m: YR_META| meta_view(m))
}

/// What a captured array of metadata is projected to: its live records, one
/// by one.
pub open spec fn meta_list_view(metas: Seq<YR_META>) -> Seq<MetadataView> {
    meta_views(live(metas, meta_stop()))
}

/// The record that ends the array is no value: every projected entry comes
/// from a record whose type is not `META_TYPE_NULL`, and the entries are as
/// many as the records before the end.
pub proof fn lemma_null_never_surfaces(metas: Seq<YR_META>, i: int)
    requires
        0 <= i < meta_list_view(metas).len(),
    ensures
        meta_list_view(metas).len() == live_len(metas, meta_stop()),
        i < metas.len(),
        metas[i].type_ != META_TYPE_NULL,
        meta_list_view(metas)[i] == meta_view(metas[i]),
{
    lemma_live_shape(metas, meta_stop());
    assert(!meta_stop()(live(metas, meta_stop())[i]));
}

/// Whether a captured record ends its metadata array.
pub fn ends_metas(meta: &YR_META) -> (end: bool)
    ensures
        end == meta_stop()(*meta),
{
    meta.type_ == META_TYPE_NULL
}

/// Whether a captured record holds a metadata entry that can be projected.
pub fn meta_holds_entry(meta: &YR_META) -> (ok: bool)
    ensures
        ok == meta_ok(*meta),
{
    match MetaType::from_code(meta.type_) {
        Ok(MetaType::Null) => false,
        Ok(MetaType::String) => holds_text(meta.get_identifier()) && holds_text(meta.get_string()),
        Ok(_) => holds_text(meta.get_identifier()),
        Err(_) => false,
    }
}

/// Whether every live record of a captured metadata array can be projected.
pub fn metas_hold_entries(metas: &[YR_META]) -> (ok: bool)
    ensures
        ok == metas_ok(live(metas@, meta_stop())),
{
    let mut i: usize = 0;
    proof {
        lemma_live_shape(metas@, meta_stop());
    }
    while i < metas.len() && !ends_metas(&metas[i])
        invariant
            i <= live_len(metas@, meta_stop()) <= metas@.len(),
            live(metas@, meta_stop()).len() == live_len(metas@, meta_stop()),
            none_stops(live(metas@, meta_stop()), meta_stop()),
            live_len(metas@, meta_stop()) < metas@.len() ==> meta_stop()(
                metas@[live_len(metas@, meta_stop()) as int],
            ),
            forall|j: int| 0 <= j < i ==> meta_ok(#[trigger] live(metas@, meta_stop())[j]),
        decreases metas@.len() - i,
    {
        assert(i < live_len(metas@, meta_stop()));
        assert(live(metas@, meta_stop())[i as int] == metas@[i as int]);
        if !meta_holds_entry(&metas[i]) {
            return false;
        }
        i = i + 1;
    }
    proof {
        if i < live_len(metas@, meta_stop()) {
            assert(live(metas@, meta_stop())[i as int] == metas@[i as int]);
            assert(!meta_stop()(live(metas@, meta_stop())[i as int]));
        }
    }
    true
}

/// Walks a captured metadata array up to its end marker.
pub struct MetadataIterator<'a> {
    head: &'a [YR_META],
}

impl<'a> View for MetadataIterator<'a> {
    type V = Seq<YR_META>;

    /// The array from the iterator's position onwards.
    closed spec fn view(&self) -> Seq<YR_META> {
        self.head@
    }
}

impl<'a> MetadataIterator<'a> {
    /// An iterator at the first metadata record of `rule`.
    pub fn from(rule: &'a YR_RULE) -> (it: MetadataIterator<'a>)
        ensures
            it@ == rule.metas@,
    {
        MetadataIterator { head: rule.get_metas() }
    }

    /// The entry at the iterator's position, unless the array ends there.
    pub fn next(&mut self) -> (item: Option<Metadata>)
        requires
            old(self)@.len() > 0 ==> meta_stop()(old(self)@[0]) || meta_ok(old(self)@[0]),
        ensures
            live_len(old(self)@, meta_stop()) == 0 ==> item is None && final(self)@ == old(self)@,
            live_len(old(self)@, meta_stop()) > 0 ==> {
                &&& item matches Some(entry)
                &&& entry@ == meta_view(old(self)@[0])
                &&& final(self)@ == old(self)@.skip(1)
            },
    {
        if self.head.len() > 0 {
            let meta = &self.head[0];
            match MetaType::from_code(meta.type_) {
                Ok(MetaType::Null) => {},
                _ => {
                    self.head = slice_subrange(self.head, 1, self.head.len());
                    return Some(Metadata::from(meta));
                },
            }
        }
        None
    }

    /// All entries from the iterator's position up to the end of the array.
    pub fn collect(self) -> (entries: Vec<Metadata>)
        requires
            metas_ok(live(self@, meta_stop())),
        ensures
            metadata_views(entries@) == meta_list_view(self@),
    {
        let mut it = self;
        let mut entries: Vec<Metadata> = Vec::new();
        let ghost all = live(self@, meta_stop());
        proof {
            lemma_live_shape(self@, meta_stop());
        }
        loop
            invariant
                entries@.len() <= all.len(),
                live(it@, meta_stop()) == all.skip(entries@.len() as int),
                metas_ok(all),
                metadata_views(entries@) == meta_views(all.take(entries@.len() as int)),
            ensures
                metadata_views(entries@) == meta_views(all),
            decreases all.len() - entries@.len(),
        {
            let ghost before = entries@;
            let ghost here = it@;
            proof {
                lemma_live_shape(here, meta_stop());
                if live_len(here, meta_stop()) > 0 {
                    assert(live(here, meta_stop())[0] == here[0]);
                    assert(all.skip(before.len() as int)[0] == all[before.len() as int]);
                }
            }
            match it.next() {
                Some(entry) => {
                    entries.push(entry);
                    proof {
                        let done = before.len() as int;
                        lemma_live_step(here, meta_stop());
                        assert(live(it@, meta_stop()) =~= live(here, meta_stop()).skip(1));
                        assert(all.skip(done).skip(1) =~= all.skip(done + 1));
                        assert forall|i: int| 0 <= i < done + 1 implies metadata_views(entries@)[i]
                            == meta_views(all.take(done + 1))[i] by {
                            if i < done {
                                assert(metadata_views(before)[i] == meta_views(all.take(done))[i]);
                            }
                        }
                        assert(metadata_views(entries@) =~= meta_views(all.take(done + 1)));
                    }
                },
                None => {
                    assert(all.take(entries@.len() as int) =~= all);
                    break ;
                },
            }
        }
        entries
    }
}

impl Metadata {
    /// An owned copy of a captured metadata entry.
    pub fn from(meta: &YR_META) -> (r: Metadata)
        requires
            meta_ok(*meta),
        ensures
            r@ == meta_view(*meta),
    {
        let identifier = to_text(meta.get_identifier());
        let value = match MetaType::from_code(meta.type_) {
            Ok(MetaType::Boolean) => MetadataValue::Boolean(meta.integer != 0),
            Ok(MetaType::Integer) => MetadataValue::Integer(meta.integer),
            _ => MetadataValue::String(to_text(meta.get_string())),
        };
        Metadata { identifier, value }
    }
}

} // verus!
