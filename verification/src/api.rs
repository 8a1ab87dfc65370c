//! What the service decides for its callers: the state it reports, the
//! settings of an upload, and the course of an ingestion.

use crate::data::Collection;
use crate::embedding::EmbeddingProgress;
pub use crate::error::AppError;
use crate::progress_tracker::ProgressTracker;
use crate::qdrant::contains_collection;
use crate::state::{
    choose_collections, choose_text, collections_or, port_or, text_or, AppConfig, AppState,
};
use vstd::prelude::*;

verus! {

/// The progress of every job: the job, the number of its documents that are
/// done, and the number of its documents.
#[derive(Debug, Clone)]
pub struct StateResponse {
    pub progress_data: Vec<(u128, usize, usize)>,
}

/// The progress of every job at this moment, in the order in which the jobs
/// began. Of no job more documents are done than it has.
pub fn get_state(state: &AppState<EmbeddingProgress>) -> (response: StateResponse)
    ensures
        response.progress_data@.len() == state.progress_map@.len(),
        forall|i: int|
            0 <= i < state.progress_map@.len() ==> {
                &&& (#[trigger] response.progress_data@[i]).0 == state.progress_map@[i].0
                &&& response.progress_data@[i].1 == state.progress_map@[i].1.processed()
                &&& response.progress_data@[i].2 == state.progress_map@[i].1.total()
                &&& response.progress_data@[i].1 <= response.progress_data@[i].2
            },
{
    StateResponse { progress_data: state.get_all_progress().snapshot() }
}

/// What a caller sends to start an upload. Only the address is mandatory.
#[derive(Debug, Clone)]
pub struct UploadParams {
    pub url: String,
    pub ollama_model: Option<String>,
    pub ollama_host: Option<String>,
    pub ollama_port: Option<u16>,
    pub filter_collections: Option<Vec<Collection>>,
    pub base_collection: Option<String>,
}

impl Default for UploadParams {
    fn default() -> (params: UploadParams)
        ensures
            params.url@.len() == 0,
            params.ollama_model is None,
            params.ollama_host is None,
            params.ollama_port is None,
            params.filter_collections is None,
            params.base_collection is None,
    {
        UploadParams {
            url: String::new(),
            ollama_model: None,
            ollama_host: None,
            ollama_port: None,
            filter_collections: None,
            base_collection: None,
        }
    }
}

/// The settings of an upload, each as the caller sent it or as the
/// application has it.
#[derive(Debug, Clone)]
pub struct UploadJob {
    pub url: String,
    pub ollama_model: String,
    pub ollama_host: String,
    pub ollama_port: u16,
    pub filter_collections: Vec<Collection>,
    pub base_collection: String,
    /// Whether each document gets a summary before it is embedded.
    pub make_summary: bool,
}

/// Decides on an upload. Without an address nothing is started. Else each
/// setting that the caller left out takes the application's value, and a
/// summary is made exactly when the `Summary` collection is written to.
pub fn upload(config: &AppConfig, upload_params: Option<UploadParams>) -> (result: Result<
    UploadJob,
    AppError,
>)
    ensures
        match upload_params {
            None => result == Err::<UploadJob, AppError>(AppError::EmptyUrl),
            Some(params) => if params.url@.len() == 0 {
                result == Err::<UploadJob, AppError>(AppError::EmptyUrl)
            } else {
                &&& result is Ok
                &&& result->Ok_0.url@ == params.url@
                &&& result->Ok_0.ollama_model@ == text_or(
                    params.ollama_model,
                    config.ollama_model@,
                )
                &&& result->Ok_0.ollama_host@ == text_or(params.ollama_host, config.ollama_host@)
                &&& result->Ok_0.ollama_port == port_or(params.ollama_port, config.ollama_port)
                &&& result->Ok_0.filter_collections@ == collections_or(
                    params.filter_collections,
                    config.filter_collections@,
                )
                &&& result->Ok_0.base_collection@ == text_or(
                    params.base_collection,
                    config.base_collection@,
                )
                &&& result->Ok_0.make_summary == result->Ok_0.filter_collections@.contains(
                    Collection::Summary,
                )
            },
        },
{
    let params = match upload_params {
        Some(params) => params,
        None => {
            return Err(AppError::EmptyUrl);
        },
    };
    if params.url.as_str().is_empty() {
        return Err(AppError::EmptyUrl);
    }
    let ollama_port = match params.ollama_port {
        Some(port) => port,
        None => config.ollama_port,
    };
    let filter_collections = choose_collections(
        params.filter_collections,
        &config.filter_collections,
    );
    let make_summary = contains_collection(&filter_collections, Collection::Summary);
    Ok(
        UploadJob {
            url: params.url,
            ollama_model: choose_text(params.ollama_model, config.ollama_model.as_str()),
            ollama_host: choose_text(params.ollama_host, config.ollama_host.as_str()),
            ollama_port,
            filter_collections,
            base_collection: choose_text(params.base_collection, config.base_collection.as_str()),
            make_summary,
        },
    )
}

/// What an ingestion does next with the document it is at.
#[derive(Debug, Clone, Copy, PartialEq, Eq, Structural)]
pub enum Stage {
    /// Ask the generator for a summary of the document.
    Summarize,
    /// Hand the document to the embedding worker.
    Encode,
    /// Write the embedded document to the store.
    Store,
    /// Nothing: every document was gone through.
    Done,
}

/// The course of an ingestion: the documents are gone through one after the
/// other, and a failure at one of them never stops the others.
#[derive(Debug, Clone, Copy)]
pub struct Ingestion {
    make_summary: bool,
    total: usize,
    current: usize,
    stage: Stage,
    stored: usize,
    skipped: usize,
}

/// What an ingestion holds.
pub struct IngestionView {
    /// Whether each document gets a summary.
    pub make_summary: bool,
    /// The number of documents.
    pub total: nat,
    /// The place of the document that the ingestion is at.
    pub current: nat,
    /// What is done next.
    pub stage: Stage,
    /// The number of documents that were written to the store.
    pub stored: nat,
    /// The number of documents that were given up.
    pub skipped: nat,
}

/// The stage at which a document begins.
pub open spec fn first_stage(make_summary: bool) -> Stage {
    if make_summary {
        Stage::Summarize
    } else {
        Stage::Encode
    }
}

impl IngestionView {
    /// The ingestion is at a document while one is left, its counts add up
    /// to the documents it is through with, and it asks for a summary only
    /// where summaries are made.
    pub open spec fn wf(self) -> bool {
        &&& self.current <= self.total
        &&& self.stored + self.skipped == self.current
        &&& self.stage == Stage::Done <==> self.current == self.total
        &&& self.stage == Stage::Summarize ==> self.make_summary
    }

    /// The ingestion at the next document, with the one it was at counted as
    /// written or as given up.
    pub open spec fn advanced(self, written: bool) -> IngestionView {
        IngestionView {
            current: self.current + 1,
            stage: if self.current + 1 == self.total {
                Stage::Done
            } else {
                first_stage(self.make_summary)
            },
            stored: if written {
                self.stored + 1
            } else {
                self.stored
            },
            skipped: if written {
                self.skipped
            } else {
                self.skipped + 1
            },
            ..self
        }
    }

    /// The ingestion after the step it asked for has ended. A summary that
    /// failed is done without. A document that could not be embedded or
    /// written is given up, and the ingestion goes on with the next.
    pub open spec fn after(self, succeeded: bool) -> IngestionView {
        match self.stage {
            Stage::Summarize => IngestionView { stage: Stage::Encode, ..self },
            Stage::Encode => if succeeded {
                IngestionView { stage: Stage::Store, ..self }
            } else {
                self.advanced(false)
            },
            Stage::Store => self.advanced(succeeded),
            Stage::Done => self,
        }
    }

    /// The number of steps that are left at most: three for each document
    /// that is left, less those that the document at hand is through with.
    pub open spec fn steps_left(self) -> nat {
        let whole = (self.total - self.current) * 3;
        match self.stage {
            Stage::Summarize => whole as nat,
            Stage::Encode => (whole - 1) as nat,
            Stage::Store => (whole - 2) as nat,
            Stage::Done => 0,
        }
    }
}

impl View for Ingestion {
    type V = IngestionView;

    closed spec fn view(&self) -> IngestionView {
        IngestionView {
            make_summary: self.make_summary,
            total: self.total as nat,
            current: self.current as nat,
            stage: self.stage,
            stored: self.stored as nat,
            skipped: self.skipped as nat,
        }
    }
}

impl Ingestion {
    #[verifier::type_invariant]
    spec fn inv(self) -> bool {
        self@.wf()
    }

    /// The ingestion of some documents, at the first of them.
    pub fn start(total: usize, make_summary: bool) -> (ingestion: Ingestion)
        ensures
            ingestion@.wf(),
            ingestion@ == (IngestionView {
                make_summary,
                total: total as nat,
                current: 0,
                stage: if total == 0 {
                    Stage::Done
                } else {
                    first_stage(make_summary)
                },
                stored: 0,
                skipped: 0,
            }),
    {
        let stage = if total == 0 {
            Stage::Done
        } else if make_summary {
            Stage::Summarize
        } else {
            Stage::Encode
        };
        Ingestion { make_summary, total, current: 0, stage, stored: 0, skipped: 0 }
    }

    /// What is done next.
    pub fn stage(&self) -> (stage: Stage)
        ensures
            stage == self@.stage,
            self@.wf(),
    {
        proof {
            use_type_invariant(self);
        }
        self.stage
    }

    /// The place of the document that the ingestion is at.
    pub fn current(&self) -> (current: usize)
        ensures
            current == self@.current,
            current <= self@.total,
    {
        proof {
            use_type_invariant(self);
        }
        self.current
    }

    /// The numbers of documents that were written and that were given up.
    pub fn counts(&self) -> (counts: (usize, usize))
        ensures
            counts.0 == self@.stored,
            counts.1 == self@.skipped,
            counts.0 + counts.1 == self@.current,
    {
        proof {
            use_type_invariant(self);
        }
        (self.stored, self.skipped)
    }

    /// Takes the outcome of the step that the ingestion asked for, and says
    /// what is done next.
    pub fn step(&mut self, succeeded: bool) -> (next: Stage)
        ensures
            final(self)@.wf(),
            final(self)@ == old(self)@.after(succeeded),
            next == final(self)@.stage,
            old(self)@.stage != Stage::Done ==> final(self)@.steps_left() < old(
                self,
            )@.steps_left(),
    {
        proof {
            use_type_invariant(&*self);
        }
        let now = *self;
        let next = match now.stage {
            Stage::Summarize => Ingestion { stage: Stage::Encode, ..now },
            Stage::Encode => {
                if succeeded {
                    Ingestion { stage: Stage::Store, ..now }
                } else {
                    now.advance(false)
                }
            },
            Stage::Store => now.advance(succeeded),
            Stage::Done => now,
        };
        *self = next;
        next.stage
    }

    /// The ingestion at the next document.
    fn advance(self, written: bool) -> (next: Ingestion)
        requires
            self@.current < self@.total,
        ensures
            next@ == self@.advanced(written),
            next@.wf(),
    {
        proof {
            use_type_invariant(&self);
        }
        let current = self.current + 1;
        let stage = if current == self.total {
            Stage::Done
        } else if self.make_summary {
            Stage::Summarize
        } else {
            Stage::Encode
        };
        if written {
            Ingestion { current, stage, stored: self.stored + 1, ..self }
        } else {
            Ingestion { current, stage, skipped: self.skipped + 1, ..self }
        }
    }
}

/// An ingestion comes to its end: each step that is not the last brings it
/// nearer, and none is left once every document was gone through.
pub proof fn lemma_ingestion_ends(ingestion: IngestionView, succeeded: bool)
    requires
        ingestion.wf(),
    ensures
        ingestion.after(succeeded).wf(),
        ingestion.stage != Stage::Done ==> ingestion.after(succeeded).steps_left()
            < ingestion.steps_left(),
        ingestion.steps_left() == 0 <==> ingestion.stage == Stage::Done,
        ingestion.after(succeeded).current >= ingestion.current,
{
}

} // verus!
