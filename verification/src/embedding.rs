//! The embedding stage: the progress of a job and the worker that turns the
//! fragments of a document into embedded documents.

use crate::data::{
    embedded_view, fragments_view, metadata_of, Document, DocumentView, EmbeddedDocument,
    EmbeddedDocumentView, EmbeddedMetadata, Fragment, FragmentView,
};
use crate::error::AppError;
use crate::progress_tracker::ProgressTracker;
use crate::state::{counted_one, distinct_jobs, has_job, ProgressMap};
use vstd::prelude::*;

verus! {

/// Number of components of an embedding.
pub const EMBEDDING_SIZE: u64 = 384;

/// Number of documents that may wait for the worker at one time.
pub const QUEUE_CAPACITY: usize = 100;

/// The progress of an embedding job: how many documents it has, and how
/// many of them the worker is done with.
#[derive(Debug, Clone, Copy)]
pub struct EmbeddingProgress {
    total_documents: usize,
    processed_documents: usize,
}

impl EmbeddingProgress {
    #[verifier::type_invariant]
    spec fn inv(self) -> bool {
        self.processed_documents <= self.total_documents
    }
}

impl ProgressTracker for EmbeddingProgress {
    closed spec fn total(&self) -> nat {
        self.total_documents as nat
    }

    closed spec fn processed(&self) -> nat {
        self.processed_documents as nat
    }

    fn new(total_documents: usize) -> (tracker: EmbeddingProgress) {
        EmbeddingProgress { total_documents, processed_documents: 0 }
    }

    fn increment_processed(&mut self) {
        proof {
            use_type_invariant(&*self);
        }
        if self.processed_documents < self.total_documents {
            self.processed_documents = self.processed_documents + 1;
        }
    }

    fn progress_status(&self) -> (status: (usize, usize)) {
        proof {
            use_type_invariant(self);
        }
        (self.processed_documents, self.total_documents)
    }
}

/// The embedded documents of a document's fragments: each fragment with its
/// vector and its metadata, in the fragments' order.
pub open spec fn embedded_fragments(
    document: DocumentView,
    fragments: Seq<FragmentView>,
    vectors: Seq<Option<Vec<u32>>>,
) -> Seq<EmbeddedDocumentView> {
    Seq::new(
        fragments.len(),
        |i: int|
            EmbeddedDocumentView {
                text_embeddings: vectors[i]->Some_0@,
                metadata: metadata_of(document, fragments[i].text, fragments[i].collection),
            },
    )
}

/// Whether the fragment at a place was not embedded: its vector is missing.
pub open spec fn lacks_vector(vectors: Seq<Option<Vec<u32>>>, index: int) -> bool {
    index >= vectors.len() || vectors[index] is None
}

/// The place of the first of `count` fragments that was not embedded, or
/// `count` where all were.
pub open spec fn first_failure(vectors: Seq<Option<Vec<u32>>>, count: int) -> int
    decreases count,
{
    if count <= 0 {
        0
    } else {
        let before = first_failure(vectors, count - 1);
        if before < count - 1 {
            before
        } else if lacks_vector(vectors, count - 1) {
            count - 1
        } else {
            count
        }
    }
}

/// The first failure lies among the fragments, no fragment before it lacks
/// its vector, and it lacks its own.
pub proof fn lemma_first_failure(vectors: Seq<Option<Vec<u32>>>, count: int)
    requires
        0 <= count,
    ensures
        0 <= first_failure(vectors, count) <= count,
        forall|k: int| 0 <= k < first_failure(vectors, count) ==> !lacks_vector(vectors, k),
        first_failure(vectors, count) < count ==> lacks_vector(
            vectors,
            first_failure(vectors, count),
        ),
    decreases count,
{
    if count > 0 {
        lemma_first_failure(vectors, count - 1);
    }
}

/// The worker of one job. It takes the documents of the job one after the
/// other, in the order in which they were handed in, and is alone in calling
/// the embedding model.
#[derive(Debug, Clone, Copy)]
pub struct Model {
    id: u128,
}

impl Model {
    /// The job that the worker reports to.
    pub closed spec fn job(self) -> u128 {
        self.id
    }

    /// The worker of a job.
    pub fn spawn(id: u128) -> (model: Model)
        ensures
            model.job() == id,
    {
        Model { id }
    }

    /// The job that the worker reports to.
    pub fn id(&self) -> (id: u128)
        ensures
            id == self.job(),
    {
        self.id
    }

    /// Joins the fragments of a document with their vectors, one vector for
    /// each fragment in the fragments' order. Where a fragment has no
    /// vector, the document is given up and the first such fragment is
    /// reported.
    pub fn encode(
        &self,
        document: &Document,
        fragments: &Vec<Fragment>,
        vectors: Vec<Option<Vec<u32>>>,
    ) -> (result: Result<Vec<EmbeddedDocument>, AppError>)
        ensures
            first_failure(vectors@, fragments@.len() as int) < fragments@.len() ==> result == Err::<
                Vec<EmbeddedDocument>,
                AppError,
            >(
                AppError::Embedding {
                    fragment: first_failure(vectors@, fragments@.len() as int) as usize,
                },
            ),
            first_failure(vectors@, fragments@.len() as int) == fragments@.len() ==> result is Ok
                && embedded_view(result->Ok_0@) == embedded_fragments(
                document@,
                fragments_view(fragments@),
                vectors@,
            ),
    {
        let count = fragments.len();
        let given = vectors.len();
        let mut documents: Vec<EmbeddedDocument> = Vec::new();
        let mut index: usize = 0;
        let ghost wanted = embedded_fragments(document@, fragments_view(fragments@), vectors@);
        for vector in it: vectors
            invariant
                it.seq() == vectors@,
                given == vectors@.len(),
                index == it.index(),
                count == fragments@.len(),
                wanted == embedded_fragments(document@, fragments_view(fragments@), vectors@),
                documents@.len() <= index,
                documents@.len() <= count,
                documents@.len() == first_failure(vectors@, documents@.len() as int),
                documents@.len() < index && documents@.len() < count ==> lacks_vector(
                    vectors@,
                    documents@.len() as int,
                ),
                forall|k: int|
                    0 <= k < documents@.len() ==> (#[trigger] documents@[k])@ == wanted[k],
        {
            if index < count && documents.len() == index {
                match vector {
                    Some(components) => {
                        let fragment = &fragments[index];
                        match EmbeddedMetadata::from_document(
                            document,
                            fragment.text.clone(),
                            fragment.collection,
                        ) {
                            Ok(metadata) => {
                                assert(fragments_view(fragments@)[index as int]
                                    == fragments@[index as int]@);
                                documents.push(
                                    EmbeddedDocument { text_embeddings: components, metadata },
                                );
                            },
                            Err(_) => {},
                        }
                    },
                    None => {},
                }
            }
            index += 1;
        }
        proof {
            lemma_first_failure(vectors@, count as int);
            lemma_first_failure(vectors@, documents@.len() as int);
            lemma_first_failure_extends(vectors@, documents@.len() as int, count as int);
        }
        if documents.len() < count {
            Err(AppError::Embedding { fragment: documents.len() })
        } else {
            Ok(documents)
        }
    }
}

impl Model {
    /// The place of the fragment to embed next, given the vectors of the
    /// fragments before it: the first fragment that has none yet, as long
    /// as the last fragment that was tried has its vector. Behind a fragment
    /// that could not be embedded no other is tried.
    pub fn next_fragment(
        &self,
        fragments: &Vec<Fragment>,
        vectors: &Vec<Option<Vec<u32>>>,
    ) -> (next: Option<usize>)
        ensures
            next == if vectors@.len() < fragments@.len() && (vectors@.len() == 0
                || vectors@.last() is Some) {
                Some(vectors@.len() as usize)
            } else {
                None::<usize>
            },
    {
        let tried = vectors.len();
        if tried >= fragments.len() {
            None
        } else if tried == 0 {
            Some(tried)
        } else {
            match &vectors[tried - 1] {
                Some(_) => Some(tried),
                None => None,
            }
        }
    }

    /// Whether a document counts as done for its job: it does where it was
    /// embedded, and not where its encoding ended in a failure.
    pub fn is_counted(outcome: &Result<Vec<EmbeddedDocument>, AppError>) -> (counted: bool)
        ensures
            counted == (outcome is Ok),
    {
        match outcome {
            Ok(_) => true,
            Err(_) => false,
        }
    }

    /// Reports to the worker's job what became of a document, once the
    /// worker has answered for it. A document that counts is counted as
    /// done; one that does not changes nothing. Where a document counts and
    /// the job has no record, the worker cannot go on: the job is reported
    /// and nothing is counted.
    pub fn document_done<T: ProgressTracker>(
        &self,
        counted: bool,
        progress: &mut ProgressMap<T>,
    ) -> (result: Result<(), AppError>)
        ensures
            distinct_jobs(final(progress)@),
            !counted ==> result is Ok && final(progress)@ == old(progress)@,
            counted && has_job(old(progress)@, self.job()) ==> result is Ok && counted_one(
                old(progress)@,
                final(progress)@,
                self.job(),
            ),
            counted && !has_job(old(progress)@, self.job()) ==> result == Err::<(), AppError>(
                AppError::MissingProgress { job: self.job() },
            ) && final(progress)@ == old(progress)@,
    {
        if counted {
            progress.increment(self.id)
        } else {
            proof {
                use_type_invariant(&*progress);
            }
            Ok(())
        }
    }
}

/// Where the fragment behind the first `fewer` lacks its vector and none of
/// those does, it is the first failure among any more fragments; where no
/// fragment lacks its vector, there is no failure.
pub proof fn lemma_first_failure_extends(vectors: Seq<Option<Vec<u32>>>, fewer: int, more: int)
    requires
        0 <= fewer <= more,
        first_failure(vectors, fewer) == fewer,
        fewer < more ==> lacks_vector(vectors, fewer),
    ensures
        first_failure(vectors, more) == fewer,
    decreases more - fewer,
{
    if fewer < more {
        lemma_first_failure_extends(vectors, fewer, more - 1);
    }
}

} // verus!
