//! The tags of a rule.

use vstd::prelude::*;
use vstd::slice::*;
use vstd::utf8::*;

use crate::errors::texts;
use crate::libyara::YR_RULE;
use crate::sentinel::lemma_live_shape;
use crate::text::{
    c_str, c_str_len, holds_text, is_text, lemma_c_str_of_terminated, nul, nul_free, strlen,
    text_of, to_text,
};

verus! {

/// The memory that follows the C string at the start of `buf` and its
/// terminator.
pub open spec fn after_c_str(buf: Seq<u8>) -> Seq<u8> {
    if c_str_len(buf) < buf.len() {
        buf.skip(c_str_len(buf) as int + 1)
    } else {
        Seq::empty()
    }
}

/// The tags that `buf` holds: C strings one after the other, up to the first
/// empty one.
pub open spec fn tag_list(buf: Seq<u8>) -> Seq<Seq<u8>>
    decreases buf.len(),
{
    if buf.len() == 0 || buf[0] == 0 {
        Seq::empty()
    } else {
        seq![c_str(buf)] + tag_list(after_c_str(buf))
    }
}

/// Every tag of `buf` is text.
pub open spec fn tags_ok(buf: Seq<u8>) -> bool {
    forall|i: int| 0 <= i < tag_list(buf).len() ==> valid_utf8(#[trigger] tag_list(buf)[i])
}

/// The texts of tags.
pub open spec fn tag_texts(tags: Seq<Seq<u8>>) -> Seq<Seq<char>> {
    tags.map_values(|t: Seq<u8>| decode_utf8(t))
}

/// How the engine lays tags out: each followed by a NUL, and one more NUL
/// after the last.
pub open spec fn tags_layout(tags: Seq<Seq<u8>>) -> Seq<u8>
    decreases tags.len(),
{
    if tags.len() == 0 {
        seq![0u8]
    } else {
        tags[0] + seq![0u8] + tags_layout(tags.skip(1))
    }
}

/// Reading back what was laid out: tags that are neither empty nor hold a
/// NUL are read from their layout as they were, whatever follows it.
pub proof fn lemma_tag_list_of_layout(tags: Seq<Seq<u8>>, rest: Seq<u8>)
    requires
        forall|i: int| 0 <= i < tags.len() ==> (#[trigger] tags[i]).len() > 0 && nul_free(tags[i]),
    ensures
        tag_list(tags_layout(tags) + rest) == tags,
    decreases tags.len(),
{
    let buf = tags_layout(tags) + rest;
    if tags.len() == 0 {
        assert(buf[0] == 0);
    } else {
        let first = tags[0];
        let tail = tags.skip(1);
        let beyond = tags_layout(tail) + rest;
        assert(buf =~= first + seq![0u8] + beyond);
        lemma_c_str_of_terminated(first, beyond);
        lemma_live_shape(buf, nul());
        assert(buf[0] == first[0]);
        assert(!nul()(first[0]));
        assert(after_c_str(buf) =~= beyond);
        assert forall|i: int| 0 <= i < tail.len() implies (#[trigger] tail[i]).len() > 0
            && nul_free(tail[i]) by {
            assert(tail[i] == tags[i + 1]);
        }
        lemma_tag_list_of_layout(tail, rest);
        assert(tag_list(buf) =~= tags);
    }
}

/// The tags of `buf` are text exactly where the first one is and those after
/// it are.
pub proof fn lemma_tags_ok_step(buf: Seq<u8>)
    requires
        buf.len() > 0,
        buf[0] != 0,
    ensures
        tags_ok(buf) <==> is_text(buf) && tags_ok(after_c_str(buf)),
{
    let rest = tag_list(after_c_str(buf));
    assert(tag_list(buf) =~= seq![c_str(buf)] + rest);
    if tags_ok(buf) {
        assert(tag_list(buf)[0] == c_str(buf));
        assert forall|i: int| 0 <= i < rest.len() implies valid_utf8(#[trigger] rest[i]) by {
            assert(rest[i] == tag_list(buf)[i + 1]);
        }
    }
    if is_text(buf) && tags_ok(after_c_str(buf)) {
        assert forall|i: int| 0 <= i < tag_list(buf).len() implies valid_utf8(
            #[trigger] tag_list(buf)[i],
        ) by {
            if i > 0 {
                assert(tag_list(buf)[i] == rest[i - 1]);
            }
        }
    }
}

/// Whether every tag in `tags` is text.
pub fn tags_hold_text(tags: &[u8]) -> (ok: bool)
    ensures
        ok == tags_ok(tags@),
{
    let mut head = tags;
    while head.len() > 0 && head[0] != 0
        invariant
            tags_ok(tags@) == tags_ok(head@),
        decreases head@.len(),
    {
        proof {
            lemma_tags_ok_step(head@);
        }
        if !holds_text(head) {
            return false;
        }
        let end = head.len();
        let n = strlen(head);
        if n < end {
            head = slice_subrange(head, n + 1, end);
        } else {
            head = slice_subrange(head, end, end);
        }
    }
    assert(tag_list(head@).len() == 0);
    true
}

/// Walks the captured tags of a rule.
pub struct TagIterator<'a> {
    head: &'a [u8],
}

impl<'a> View for TagIterator<'a> {
    type V = Seq<u8>;

    /// The tag memory from the iterator's position onwards.
    closed spec fn view(&self) -> Seq<u8> {
        self.head@
    }
}

impl<'a> TagIterator<'a> {
    /// An iterator at the first tag of `rule`.
    pub fn from(rule: &'a YR_RULE) -> (it: TagIterator<'a>)
        ensures
            it@ == rule.tags@,
    {
        TagIterator { head: rule.get_tags() }
    }

    /// The tag at the iterator's position, unless the tags end there.
    pub fn next(&mut self) -> (item: Option<String>)
        requires
            old(self)@.len() > 0 && old(self)@[0] != 0 ==> is_text(old(self)@),
        ensures
            old(self)@.len() == 0 || old(self)@[0] == 0 ==> item is None && final(self)@ == old(self)@,
            old(self)@.len() > 0 && old(self)@[0] != 0 ==> {
                &&& item matches Some(tag)
                &&& tag@ == text_of(old(self)@)
                &&& final(self)@ == after_c_str(old(self)@)
            },
    {
        if self.head.len() > 0 && self.head[0] != 0 {
            let tag = to_text(self.head);
            let end = self.head.len();
            let n = strlen(self.head);
            if n < end {
                self.head = slice_subrange(self.head, n + 1, end);
            } else {
                self.head = slice_subrange(self.head, end, end);
            }
            assert(self.head@ =~= after_c_str(old(self)@));
            Some(tag)
        } else {
            None
        }
    }

    /// All tags from the iterator's position on.
    pub fn collect(self) -> (tags: Vec<String>)
        requires
            tags_ok(self@),
        ensures
            texts(tags@) == tag_texts(tag_list(self@)),
    {
        let mut it = self;
        let mut tags: Vec<String> = Vec::new();
        let ghost all = tag_list(self@);
        loop
            invariant
                tags@.len() <= all.len(),
                tag_list(it@) == all.skip(tags@.len() as int),
                forall|i: int| 0 <= i < all.len() ==> valid_utf8(#[trigger] all[i]),
                texts(tags@) == tag_texts(all.take(tags@.len() as int)),
            ensures
                texts(tags@) == tag_texts(all),
            decreases all.len() - tags@.len(),
        {
            let ghost before = tags@;
            let ghost here = it@;
            proof {
                if here.len() > 0 && here[0] != 0 {
                    assert(tag_list(here) =~= seq![c_str(here)] + tag_list(after_c_str(here)));
                    assert(all.skip(before.len() as int)[0] == all[before.len() as int]);
                } else {
                    assert(tag_list(here).len() == 0);
                }
            }
            match it.next() {
                Some(tag) => {
                    tags.push(tag);
                    proof {
                        let done = before.len() as int;
                        assert(tag_list(it@) =~= tag_list(here).skip(1));
                        assert(all.skip(done).skip(1) =~= all.skip(done + 1));
                        assert forall|i: int| 0 <= i < done + 1 implies texts(tags@)[i]
                            == tag_texts(all.take(done + 1))[i] by {
                            if i < done {
                                assert(texts(before)[i] == tag_texts(all.take(done))[i]);
                            }
                        }
                        assert(texts(tags@) =~= tag_texts(all.take(done + 1)));
                    }
                },
                None => {
                    assert(all.take(tags@.len() as int) =~= all);
                    break ;
                },
            }
        }
        tags
    }
}

} // verus!
