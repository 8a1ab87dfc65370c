//! The texts of a document by collection: a small map that keeps the order
//! in which the collections were first given a text.

use crate::data::Collection;
use vstd::prelude::*;

verus! {

/// One text of a document: the collection it belongs to and the text itself.
#[derive(Debug, Clone)]
pub struct TextVariant {
    pub collection: Collection,
    pub text: String,
}

/// What a list of text variants holds: collections and their texts, in the
/// order in which the collections were first given a text.
pub type VariantSeq = Seq<(Collection, Seq<char>)>;

/// No collection has two texts.
pub open spec fn distinct_collections(entries: VariantSeq) -> bool {
    forall|i: int, j: int| 0 <= i < j < entries.len() ==> entries[i].0 != entries[j].0
}

/// Whether the collection has a text.
pub open spec fn has_variant(entries: VariantSeq, collection: Collection) -> bool {
    exists|i: int| 0 <= i < entries.len() && #[trigger] entries[i].0 == collection
}

/// The place of the first text of the collection, or the number of texts
/// where it has none.
pub open spec fn variant_position(entries: VariantSeq, collection: Collection) -> int
    decreases entries.len(),
{
    if entries.len() == 0 {
        0
    } else if entries[0].0 == collection {
        0
    } else {
        1 + variant_position(entries.drop_first(), collection)
    }
}

/// The text of the collection, where it has one.
pub open spec fn variant_text(entries: VariantSeq, collection: Collection) -> Seq<char> {
    entries[variant_position(entries, collection)].1
}

/// The variants after the collection was given this text: a text that the
/// collection had is replaced where it stood, a first text goes to the end.
pub open spec fn upsert_variant(
    entries: VariantSeq,
    collection: Collection,
    text: Seq<char>,
) -> VariantSeq {
    if has_variant(entries, collection) {
        entries.update(variant_position(entries, collection), (collection, text))
    } else {
        entries.push((collection, text))
    }
}

/// The position of a collection lies within the variants exactly when the
/// collection has a text, and then it is the first place that holds it.
pub proof fn lemma_variant_position(entries: VariantSeq, collection: Collection)
    ensures
        0 <= variant_position(entries, collection) <= entries.len(),
        has_variant(entries, collection) <==> variant_position(entries, collection)
            < entries.len(),
        has_variant(entries, collection) ==> entries[variant_position(
            entries,
            collection,
        )].0 == collection,
        forall|k: int|
            0 <= k < variant_position(entries, collection) ==> entries[k].0 != collection,
    decreases entries.len(),
{
    if entries.len() > 0 && entries[0].0 != collection {
        let rest = entries.drop_first();
        lemma_variant_position(rest, collection);
        assert forall|k: int| 0 < k < entries.len() implies entries[k] == rest[k - 1] by {}
    }
}

/// Giving a collection a text leaves the texts of all other collections as
/// they were, and keeps the variants free of doubles.
pub proof fn lemma_upsert_variant(
    entries: VariantSeq,
    collection: Collection,
    text: Seq<char>,
    other: Collection,
)
    requires
        distinct_collections(entries),
    ensures
        distinct_collections(upsert_variant(entries, collection, text)),
        has_variant(upsert_variant(entries, collection, text), collection),
        variant_text(upsert_variant(entries, collection, text), collection) == text,
        other != collection ==> (has_variant(upsert_variant(entries, collection, text), other)
            <==> has_variant(entries, other)),
        other != collection && has_variant(entries, other) ==> variant_text(
            upsert_variant(entries, collection, text),
            other,
        ) == variant_text(entries, other),
{
    let after = upsert_variant(entries, collection, text);
    let p = variant_position(entries, collection);
    lemma_variant_position(entries, collection);
    lemma_variant_position(after, collection);
    lemma_variant_position(entries, other);
    lemma_variant_position(after, other);
    assert(after[p].0 == collection);
    if other != collection && has_variant(entries, other) {
        let q = variant_position(entries, other);
        assert(after[q] == entries[q]);
    }
}

/// The texts of a document, at most one for each collection, in the order in
/// which the collections were first given a text.
#[derive(Debug)]
pub struct TextVariants {
    entries: Vec<TextVariant>,
}

/// What a list of entries holds.
spec fn entries_view(entries: Seq<TextVariant>) -> VariantSeq {
    Seq::new(entries.len(), |i: int| (entries[i].collection, entries[i].text@))
}

impl View for TextVariants {
    type V = VariantSeq;

    closed spec fn view(&self) -> VariantSeq {
        entries_view(self.entries@)
    }
}

impl Clone for TextVariants {
    fn clone(&self) -> (copy: TextVariants)
        ensures
            copy@ == self@,
    {
        proof {
            use_type_invariant(self);
        }
        let mut entries: Vec<TextVariant> = Vec::new();
        let mut index: usize = 0;
        while index < self.entries.len()
            invariant
                index <= self.entries@.len(),
                entries@.len() == index,
                forall|k: int|
                    0 <= k < index ==> entries@[k].collection == self.entries@[k].collection
                        && entries@[k].text@ == self.entries@[k].text@,
            decreases self.entries@.len() - index,
        {
            entries.push(
                TextVariant {
                    collection: self.entries[index].collection,
                    text: self.entries[index].text.clone(),
                },
            );
            index += 1;
        }
        assert(entries_view(entries@) =~= self@);
        TextVariants { entries }
    }
}

impl TextVariants {
    #[verifier::type_invariant]
    spec fn inv(self) -> bool {
        distinct_collections(self@)
    }

    /// No texts.
    pub fn new() -> (variants: TextVariants)
        ensures
            variants@ == VariantSeq::empty(),
    {
        let entries: Vec<TextVariant> = Vec::new();
        TextVariants { entries }
    }

    /// The number of collections that have a text.
    pub fn len(&self) -> (len: usize)
        ensures
            len == self@.len(),
            distinct_collections(self@),
    {
        proof {
            use_type_invariant(self);
        }
        self.entries.len()
    }

    /// The collection at a place.
    pub fn collection_at(&self, index: usize) -> (collection: Collection)
        requires
            index < self@.len(),
        ensures
            collection == self@[index as int].0,
    {
        self.entries[index].collection
    }

    /// The text at a place.
    pub fn text_at(&self, index: usize) -> (text: &String)
        requires
            index < self@.len(),
        ensures
            text@ == self@[index as int].1,
    {
        &self.entries[index].text
    }

    /// The place of the collection's text, or the number of texts where it
    /// has none.
    pub fn position(&self, collection: Collection) -> (index: usize)
        ensures
            index == variant_position(self@, collection),
            index <= self@.len(),
            index < self@.len() <==> has_variant(self@, collection),
            distinct_collections(self@),
    {
        proof {
            use_type_invariant(self);
            lemma_variant_position(self@, collection);
        }
        let mut index: usize = 0;
        while index < self.entries.len()
            invariant
                index <= self.entries@.len(),
                self@.len() == self.entries@.len(),
                forall|k: int| 0 <= k < index ==> self@[k].0 != collection,
            ensures
                index <= self.entries@.len(),
                forall|k: int| 0 <= k < index ==> self@[k].0 != collection,
                index < self.entries@.len() ==> self@[index as int].0 == collection,
            decreases self.entries@.len() - index,
        {
            if self.entries[index].collection == collection {
                break;
            }
            index += 1;
        }
        index
    }

    /// The text of the collection, if it has one.
    pub fn get(&self, collection: Collection) -> (text: Option<&String>)
        ensures
            text is Some <==> has_variant(self@, collection),
            text is Some ==> text->Some_0@ == variant_text(self@, collection),
    {
        let index = self.position(collection);
        if index < self.entries.len() {
            Some(&self.entries[index].text)
        } else {
            None
        }
    }

    /// Gives the collection this text, in place of the one it had.
    pub fn insert(&mut self, collection: Collection, text: String)
        ensures
            final(self)@ == upsert_variant(old(self)@, collection, text@),
            distinct_collections(final(self)@),
    {
        let index = self.position(collection);
        proof {
            lemma_upsert_variant(self@, collection, text@, collection);
        }
        let ghost before = self@;
        let mut taken = TextVariants::new();
        core::mem::swap(self, &mut taken);
        let TextVariants { mut entries } = taken;
        proof {
            lemma_variant_position(before, collection);
        }
        if index < entries.len() {
            entries[index].text = text;
            assert(entries_view(entries@) =~= before.update(index as int, (collection, text@)));
        } else {
            entries.push(TextVariant { collection, text });
            assert(entries_view(entries@) =~= before.push((collection, text@)));
        }
        *self = TextVariants { entries };
    }
}

} // verus!
