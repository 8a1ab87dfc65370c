//! The settings of the application and the progress of its jobs.

use crate::data::Collection;
use crate::error::AppError;
use crate::progress_tracker::{next_processed, ProgressTracker};
use vstd::prelude::*;

verus! {

/// What a progress map holds: jobs and their records, in the order in which
/// the jobs were entered.
pub type JobSeq<T> = Seq<(u128, T)>;

/// No job has two records.
pub open spec fn distinct_jobs<T>(entries: JobSeq<T>) -> bool {
    forall|i: int, j: int| 0 <= i < j < entries.len() ==> entries[i].0 != entries[j].0
}

/// Whether the job has a record.
pub open spec fn has_job<T>(entries: JobSeq<T>, job: u128) -> bool {
    exists|i: int| 0 <= i < entries.len() && #[trigger] entries[i].0 == job
}

/// The place of the job's record, or the number of records where it has
/// none.
pub open spec fn job_position<T>(entries: JobSeq<T>, job: u128) -> int
    decreases entries.len(),
{
    if entries.len() == 0 {
        0
    } else if entries[0].0 == job {
        0
    } else {
        1 + job_position(entries.drop_first(), job)
    }
}

/// The records after the job was given this one: it takes the place of the
/// record that the job had, or goes to the end.
pub open spec fn with_job<T>(entries: JobSeq<T>, job: u128, progress: T) -> JobSeq<T> {
    if has_job(entries, job) {
        entries.update(job_position(entries, job), (job, progress))
    } else {
        entries.push((job, progress))
    }
}

/// The position of a job lies within the records exactly when the job has
/// one, and then it is the first place that holds the job.
pub proof fn lemma_job_position<T>(entries: JobSeq<T>, job: u128)
    ensures
        0 <= job_position(entries, job) <= entries.len(),
        has_job(entries, job) <==> job_position(entries, job) < entries.len(),
        has_job(entries, job) ==> entries[job_position(entries, job)].0 == job,
        forall|k: int| 0 <= k < job_position(entries, job) ==> entries[k].0 != job,
    decreases entries.len(),
{
    if entries.len() > 0 && entries[0].0 != job {
        let rest = entries.drop_first();
        lemma_job_position(rest, job);
        assert forall|k: int| 0 < k < entries.len() implies entries[k] == rest[k - 1] by {}
    }
}

/// Whether the records `after` are the records `before` with one more item
/// of the job counted as done: the same jobs in the same places, every other
/// record as it was, and the job's record one step on.
pub open spec fn counted_one<T: ProgressTracker>(
    before: JobSeq<T>,
    after: JobSeq<T>,
    job: u128,
) -> bool {
    let place = job_position(before, job);
    &&& after.len() == before.len()
    &&& forall|i: int| 0 <= i < before.len() ==> (#[trigger] after[i]).0 == before[i].0
    &&& forall|i: int| 0 <= i < before.len() && i != place ==> #[trigger] after[i] == before[i]
    &&& after[place].1.total() == before[place].1.total()
    &&& after[place].1.processed() == next_processed(
        before[place].1.processed(),
        before[place].1.total(),
    )
}

/// Replacing a record where its job stands, or entering a job that has no
/// record, leaves no job with two records.
pub proof fn lemma_with_job_is_distinct<T>(entries: JobSeq<T>, job: u128, progress: T)
    requires
        distinct_jobs(entries),
    ensures
        distinct_jobs(with_job(entries, job, progress)),
        has_job(with_job(entries, job, progress), job),
{
    lemma_job_position(entries, job);
    let after = with_job(entries, job, progress);
    let p = job_position(entries, job);
    assert(after[p].0 == job);
}

/// One job and its record.
#[derive(Debug)]
pub struct JobProgress<T> {
    pub job: u128,
    pub progress: T,
}

/// The progress records of the jobs, one for each job, in the order in which
/// the jobs were entered. A record stays until the process ends.
#[derive(Debug)]
pub struct ProgressMap<T> {
    jobs: Vec<JobProgress<T>>,
}

/// What a list of jobs holds.
spec fn jobs_view<T>(jobs: Seq<JobProgress<T>>) -> JobSeq<T> {
    Seq::new(jobs.len(), |i: int| (jobs[i].job, jobs[i].progress))
}

impl<T> View for ProgressMap<T> {
    type V = JobSeq<T>;

    closed spec fn view(&self) -> JobSeq<T> {
        jobs_view(self.jobs@)
    }
}

impl<T> ProgressMap<T> {
    /// No job has two records.
    #[verifier::type_invariant]
    pub open spec fn inv(self) -> bool {
        distinct_jobs(self@)
    }
}

impl<T: ProgressTracker> ProgressMap<T> {
    /// No records.
    pub fn new() -> (map: ProgressMap<T>)
        ensures
            map@ == JobSeq::<T>::empty(),
    {
        let jobs: Vec<JobProgress<T>> = Vec::new();
        ProgressMap { jobs }
    }

    /// The number of jobs.
    pub fn len(&self) -> (len: usize)
        ensures
            len == self@.len(),
            distinct_jobs(self@),
    {
        proof {
            use_type_invariant(self);
        }
        self.jobs.len()
    }

    /// The job at a place.
    pub fn job_at(&self, index: usize) -> (job: u128)
        requires
            index < self@.len(),
        ensures
            job == self@[index as int].0,
    {
        self.jobs[index].job
    }

    /// The record at a place.
    pub fn progress_at(&self, index: usize) -> (progress: &T)
        requires
            index < self@.len(),
        ensures
            *progress == self@[index as int].1,
    {
        &self.jobs[index].progress
    }

    /// The place of the job's record, or the number of records where it has
    /// none.
    pub fn position(&self, job: u128) -> (index: usize)
        ensures
            index == job_position(self@, job),
            index <= self@.len(),
            index < self@.len() <==> has_job(self@, job),
            distinct_jobs(self@),
    {
        proof {
            use_type_invariant(self);
            lemma_job_position(self@, job);
        }
        let mut index: usize = 0;
        while index < self.jobs.len()
            invariant
                index <= self.jobs@.len(),
                self@.len() == self.jobs@.len(),
                forall|k: int| 0 <= k < index ==> self@[k].0 != job,
            ensures
                index <= self.jobs@.len(),
                forall|k: int| 0 <= k < index ==> self@[k].0 != job,
                index < self.jobs@.len() ==> self@[index as int].0 == job,
            decreases self.jobs@.len() - index,
        {
            if self.jobs[index].job == job {
                break;
            }
            index += 1;
        }
        index
    }

    /// The record of the job, if it has one.
    pub fn get(&self, job: u128) -> (progress: Option<&T>)
        ensures
            progress is Some <==> has_job(self@, job),
            progress is Some ==> *progress->Some_0 == self@[job_position(self@, job)].1,
    {
        let index = self.position(job);
        if index < self.jobs.len() {
            Some(&self.jobs[index].progress)
        } else {
            None
        }
    }

    /// Gives the job this record, in place of the one it had.
    pub fn insert(&mut self, job: u128, progress: T)
        ensures
            final(self)@ == with_job(old(self)@, job, progress),
            distinct_jobs(final(self)@),
    {
        let index = self.position(job);
        let ghost before = self@;
        proof {
            lemma_with_job_is_distinct(before, job, progress);
            lemma_job_position(before, job);
        }
        let mut taken = ProgressMap::new();
        core::mem::swap(self, &mut taken);
        let ProgressMap { mut jobs } = taken;
        if index < jobs.len() {
            jobs.remove(index);
            jobs.insert(index, JobProgress { job, progress });
            assert(jobs_view(jobs@) =~= before.update(index as int, (job, progress)));
        } else {
            jobs.push(JobProgress { job, progress });
            assert(jobs_view(jobs@) =~= before.push((job, progress)));
        }
        *self = ProgressMap { jobs };
    }

    /// Counts one more item of the job as done. All other records stay as
    /// they are. Where the job has no record, nothing changes and the job is
    /// reported: its worker cannot go on.
    pub fn increment(&mut self, job: u128) -> (result: Result<(), AppError>)
        ensures
            distinct_jobs(final(self)@),
            has_job(old(self)@, job) ==> result is Ok && counted_one(
                old(self)@,
                final(self)@,
                job,
            ),
            !has_job(old(self)@, job) ==> result == Err::<(), AppError>(
                AppError::MissingProgress { job },
            ) && final(self)@ == old(self)@,
    {
        let index = self.position(job);
        if index >= self.jobs.len() {
            return Err(AppError::MissingProgress { job });
        }
        let ghost before = self@;
        proof {
            lemma_job_position(before, job);
        }
        let mut taken = ProgressMap::new();
        core::mem::swap(self, &mut taken);
        let ProgressMap { mut jobs } = taken;
        let mut entry = jobs.remove(index);
        entry.progress.increment_processed();
        let ghost counted = entry.progress;
        jobs.insert(index, entry);
        assert(jobs_view(jobs@) =~= before.update(index as int, (job, counted)));
        *self = ProgressMap { jobs };
        Ok(())
    }

    /// The state of every job: the job, the number of its items that are
    /// done, and the number of its items, in the order of the jobs.
    pub fn snapshot(&self) -> (states: Vec<(u128, usize, usize)>)
        ensures
            states@.len() == self@.len(),
            forall|i: int|
                0 <= i < self@.len() ==> {
                    &&& (#[trigger] states@[i]).0 == self@[i].0
                    &&& states@[i].1 == self@[i].1.processed()
                    &&& states@[i].2 == self@[i].1.total()
                    &&& states@[i].1 <= states@[i].2
                },
    {
        let mut states: Vec<(u128, usize, usize)> = Vec::new();
        let mut index: usize = 0;
        while index < self.jobs.len()
            invariant
                index <= self.jobs@.len(),
                self@.len() == self.jobs@.len(),
                states@.len() == index,
                forall|i: int|
                    0 <= i < index ==> {
                        &&& (#[trigger] states@[i]).0 == self@[i].0
                        &&& states@[i].1 == self@[i].1.processed()
                        &&& states@[i].2 == self@[i].1.total()
                        &&& states@[i].1 <= states@[i].2
                    },
            decreases self.jobs@.len() - index,
        {
            let status = self.jobs[index].progress.progress_status();
            states.push((self.jobs[index].job, status.0, status.1));
            index += 1;
        }
        states
    }
}

/// The settings that the application runs with.
#[derive(Debug, Clone)]
pub struct AppConfig {
    /// The address that the server listens on.
    pub address: String,
    /// The base name of the stored collections.
    pub base_collection: String,
    /// The collections that are written to and searched.
    pub filter_collections: Vec<Collection>,
    /// The model that generates text.
    pub ollama_model: String,
    /// The host of the text generator.
    pub ollama_host: String,
    /// The port of the text generator.
    pub ollama_port: u16,
    /// The address of the vector store.
    pub qdrant_address: String,
}

/// The settings that a caller chose; the others take their defaults.
#[derive(Debug, Clone)]
pub struct AppConfigInput {
    pub address: Option<String>,
    pub base_collection: Option<String>,
    pub filter_collections: Option<Vec<Collection>>,
    pub ollama_model: Option<String>,
    pub ollama_host: Option<String>,
    pub ollama_port: Option<u16>,
    pub qdrant_address: Option<String>,
}

impl Default for AppConfigInput {
    fn default() -> (input: AppConfigInput)
        ensures
            input.address is None,
            input.base_collection is None,
            input.filter_collections is None,
            input.ollama_model is None,
            input.ollama_host is None,
            input.ollama_port is None,
            input.qdrant_address is None,
    {
        AppConfigInput {
            address: None,
            base_collection: None,
            filter_collections: None,
            ollama_model: None,
            ollama_host: None,
            ollama_port: None,
            qdrant_address: None,
        }
    }
}

/// The text that was chosen, or the default.
pub open spec fn text_or(chosen: Option<String>, default: Seq<char>) -> Seq<char> {
    match chosen {
        Some(text) => text@,
        None => default,
    }
}

/// The collections that were chosen, or the default.
pub open spec fn collections_or(chosen: Option<Vec<Collection>>, default: Seq<Collection>) -> Seq<
    Collection,
> {
    match chosen {
        Some(collections) => collections@,
        None => default,
    }
}

/// The port that was chosen, or the default.
pub open spec fn port_or(chosen: Option<u16>, default: u16) -> u16 {
    match chosen {
        Some(port) => port,
        None => default,
    }
}

/// The text that was chosen, or the default.
pub fn choose_text(chosen: Option<String>, default: &str) -> (text: String)
    ensures
        text@ == text_or(chosen, default@),
{
    match chosen {
        Some(text) => text,
        None => String::from_str(default),
    }
}

/// The collections that were chosen, or the default.
pub fn choose_collections(
    chosen: Option<Vec<Collection>>,
    default: &Vec<Collection>,
) -> (collections: Vec<Collection>)
    ensures
        collections@ == collections_or(chosen, default@),
{
    match chosen {
        Some(collections) => collections,
        None => {
            let mut collections: Vec<Collection> = Vec::new();
            let mut index: usize = 0;
            while index < default.len()
                invariant
                    index <= default@.len(),
                    collections@ == default@.take(index as int),
                decreases default@.len() - index,
            {
                collections.push(default[index]);
                assert(default@.take(index + 1) =~= default@.take(index as int).push(
                    default@[index as int],
                ));
                index += 1;
            }
            collections
        },
    }
}

/// The state of the application: its settings and the progress of its jobs.
#[derive(Debug)]
pub struct AppState<T: ProgressTracker> {
    pub progress_map: ProgressMap<T>,
    pub app_config: AppConfig,
}

impl<T: ProgressTracker> AppState<T> {
    /// The state at the start: no job, and each setting as it was chosen or
    /// at its default.
    pub fn new(app_config_input: AppConfigInput) -> (state: AppState<T>)
        ensures
            state.progress_map@ == JobSeq::<T>::empty(),
            state.app_config.address@ == text_or(app_config_input.address, "127.0.0.1:3000"@),
            state.app_config.base_collection@ == text_or(
                app_config_input.base_collection,
                "rura_collection"@,
            ),
            state.app_config.filter_collections@ == collections_or(
                app_config_input.filter_collections,
                seq![Collection::Basic],
            ),
            state.app_config.ollama_model@ == text_or(
                app_config_input.ollama_model,
                "openhermes2.5-mistral:7b-q6_K"@,
            ),
            state.app_config.ollama_host@ == text_or(app_config_input.ollama_host, "localhost"@),
            state.app_config.ollama_port == port_or(app_config_input.ollama_port, 11434),
            state.app_config.qdrant_address@ == text_or(
                app_config_input.qdrant_address,
                "http://localhost:6334"@,
            ),
    {
        let mut basic: Vec<Collection> = Vec::new();
        basic.push(Collection::Basic);
        let ollama_port = match app_config_input.ollama_port {
            Some(port) => port,
            None => 11434,
        };
        AppState {
            progress_map: ProgressMap::new(),
            app_config: AppConfig {
                address: choose_text(app_config_input.address, "127.0.0.1:3000"),
                base_collection: choose_text(app_config_input.base_collection, "rura_collection"),
                filter_collections: choose_collections(
                    app_config_input.filter_collections,
                    &basic,
                ),
                ollama_model: choose_text(
                    app_config_input.ollama_model,
                    "openhermes2.5-mistral:7b-q6_K",
                ),
                ollama_host: choose_text(app_config_input.ollama_host, "localhost"),
                ollama_port,
                qdrant_address: choose_text(
                    app_config_input.qdrant_address,
                    "http://localhost:6334",
                ),
            },
        }
    }

    /// The progress of all jobs.
    pub fn get_all_progress(&self) -> (progress: &ProgressMap<T>)
        ensures
            progress@ == self.progress_map@,
    {
        &self.progress_map
    }
}

} // verus!
