//! The run of one audit.
//!
//! A run picks the first registered collector whose lockfile name occurs in the
//! path of the dependency file, has it read the file, and then takes the
//! registries' answers in whatever order they arrive. Each answer becomes the
//! record of its dependency, the policy is applied to it, and it joins the
//! report. Asking the registries is the caller's part: the run says which
//! requests to make and is told what came back.

use vstd::prelude::*;
use vstd::string::StringExecFns;
use crate::collector::{FileCollector, ParseError, ParseErrorView, Request, RequestView};
use crate::dependency::{texts, views, RetrievedDependency, RetrievedDependencyView};
use crate::policy::{lemma_applied_is_well_formed, validate, Policy, PolicyView};
use crate::retriever::npm::{Response, ResponseView};
use crate::text::{contains, occurs_in};

verus! {

/// Why an audit stops before any retrieval.
#[derive(Debug, PartialEq, Eq)]
pub enum CheckError {
    /// The dependency file could not be read; the reader's message.
    DependencyFile(String),
    /// No registered collector recognises the path of the dependency file.
    UnsupportedLockfile,
    /// The dependency file is not a lockfile that its collector can read.
    Parse(ParseError),
}

pub enum CheckErrorView {
    DependencyFile(Seq<char>),
    UnsupportedLockfile,
    Parse(ParseErrorView),
}

impl View for CheckError {
    type V = CheckErrorView;

    open spec fn view(&self) -> CheckErrorView {
        match self {
            CheckError::DependencyFile(message) => CheckErrorView::DependencyFile(message@),
            CheckError::UnsupportedLockfile => CheckErrorView::UnsupportedLockfile,
            CheckError::Parse(error) => CheckErrorView::Parse(error@),
        }
    }
}

impl CheckErrorView {
    /// The error in words.
    pub open spec fn message(self) -> Seq<char> {
        match self {
            CheckErrorView::DependencyFile(message) => "Error reading dependency file: "@ + message,
            CheckErrorView::UnsupportedLockfile => "No collector found for dependency file"@,
            CheckErrorView::Parse(error) => "Error parsing dependency file: "@ + error.message(),
        }
    }
}

impl CheckError {
    /// The error in words.
    pub fn message(&self) -> (r: String)
        ensures
            r@ == self@.message(),
    {
        match self {
            CheckError::DependencyFile(message) => {
                let mut text = "Error reading dependency file: ".to_owned();
                text.append(message.as_str());
                text
            },
            CheckError::UnsupportedLockfile => "No collector found for dependency file".to_owned(),
            CheckError::Parse(error) => {
                let mut text = "Error parsing dependency file: ".to_owned();
                text.append(error.message().as_str());
                text
            },
        }
    }
}

/// A lockfile name fits a path if it occurs in it: a lockfile may lie in any
/// directory.
pub open spec fn recognizes(filename: Seq<char>, path: Seq<char>) -> bool {
    occurs_in(path, filename)
}

/// `at` is the first of `filenames` that fits `path`.
pub open spec fn is_selected(filenames: Seq<Seq<char>>, path: Seq<char>, at: int) -> bool {
    &&& 0 <= at < filenames.len()
    &&& recognizes(filenames[at], path)
    &&& forall|j: int| 0 <= j < at ==> !recognizes(#[trigger] filenames[j], path)
}

/// The position of the lockfile name that is selected for `path`: the first
/// that fits it.
pub open spec fn selected(filenames: Seq<Seq<char>>, path: Seq<char>) -> Option<int> {
    if exists|at: int| is_selected(filenames, path, at) {
        Some(choose|at: int| is_selected(filenames, path, at))
    } else {
        None
    }
}

/// The lockfile name of each collector, in their order.
pub open spec fn filenames_of<C: FileCollector>(collectors: Seq<C>) -> Seq<Seq<char>> {
    collectors.map_values(|collector: C| collector.dependency_filename())
}

/// At most one lockfile name is the first that fits a path.
pub proof fn lemma_selection_is_unique(filenames: Seq<Seq<char>>, path: Seq<char>, a: int, b: int)
    requires
        is_selected(filenames, path, a),
        is_selected(filenames, path, b),
    ensures
        a == b,
{
    if a < b {
        assert(!recognizes(filenames[a], path));
    } else if b < a {
        assert(!recognizes(filenames[b], path));
    }
}

/// Selection is determined by the path: where exactly one registered lockfile
/// name fits it, that one is selected, wherever it stands among the others.
pub proof fn lemma_single_match_is_selected(filenames: Seq<Seq<char>>, path: Seq<char>, at: int)
    requires
        0 <= at < filenames.len(),
        recognizes(filenames[at], path),
        forall|j: int| 0 <= j < filenames.len() && j != at ==> !recognizes(#[trigger] filenames[j], path),
    ensures
        selected(filenames, path) == Some(at),
{
    assert(is_selected(filenames, path, at));
    lemma_selection_is_unique(filenames, path, at, selected(filenames, path).unwrap());
}

/// Where several lockfile names fit a path, the first of them is selected.
pub proof fn lemma_first_match_is_selected(filenames: Seq<Seq<char>>, path: Seq<char>, at: int)
    requires
        0 <= at < filenames.len(),
        recognizes(filenames[at], path),
    ensures
        selected(filenames, path) is Some,
        selected(filenames, path).unwrap() <= at,
        is_selected(filenames, path, selected(filenames, path).unwrap()),
    decreases at,
{
    if exists|j: int| 0 <= j < at && recognizes(#[trigger] filenames[j], path) {
        let j = choose|j: int| 0 <= j < at && recognizes(#[trigger] filenames[j], path);
        lemma_first_match_is_selected(filenames, path, j);
    } else {
        assert(is_selected(filenames, path, at));
        lemma_selection_is_unique(filenames, path, at, selected(filenames, path).unwrap());
    }
}

/// Where no registered lockfile name fits a path, none is selected.
pub proof fn lemma_no_match_selects_none(filenames: Seq<Seq<char>>, path: Seq<char>)
    requires
        forall|j: int| 0 <= j < filenames.len() ==> !recognizes(#[trigger] filenames[j], path),
    ensures
        selected(filenames, path) is None,
{
}

/// Selects, among the lockfile names of the registered collectors, the one
/// for the dependency file at `dependency_file`.
pub fn select(filenames: &Vec<String>, dependency_file: &str) -> (r: Option<usize>)
    ensures
        r is Some == selected(texts(filenames@), dependency_file@) is Some,
        r is Some ==> r.unwrap() == selected(texts(filenames@), dependency_file@).unwrap(),
{
    let ghost names = texts(filenames@);
    let mut i: usize = 0;
    while i < filenames.len()
        invariant
            i <= filenames.len(),
            names == texts(filenames@),
            forall|j: int| 0 <= j < i ==> !recognizes(#[trigger] names[j], dependency_file@),
        decreases filenames.len() - i,
    {
        if contains(dependency_file, filenames[i].as_str()) {
            proof {
                assert(is_selected(names, dependency_file@, i as int));
                lemma_selection_is_unique(
                    names,
                    dependency_file@,
                    i as int,
                    selected(names, dependency_file@).unwrap(),
                );
            }
            return Some(i);
        }
        i += 1;
    }
    assert forall|at: int| !is_selected(names, dependency_file@, at) by {
        if 0 <= at < names.len() {
            assert(!recognizes(names[at], dependency_file@));
        }
    }
    None
}

/// The lockfile name of each collector, in their order.
pub fn filenames<C: FileCollector>(collectors: &Vec<C>) -> (r: Vec<String>)
    ensures
        texts(r@) == filenames_of(collectors@),
{
    let mut names: Vec<String> = Vec::new();
    let mut i: usize = 0;
    while i < collectors.len()
        invariant
            i <= collectors.len(),
            names@.len() == i,
            forall|j: int| 0 <= j < i ==> (#[trigger] names@[j])@ == collectors@[j].dependency_filename(),
        decreases collectors.len() - i,
    {
        names.push(collectors[i].get_dependency_filename());
        i += 1;
    }
    assert(texts(names@) =~= filenames_of(collectors@));
    names
}

/// What a run starts from: the position of the collector that reads the
/// dependency file, and the requests that the file calls for.
pub struct Plan {
    pub collector: int,
    pub requests: Seq<RequestView>,
}

/// How a run starts. Without a collector for the path it stops as unsupported;
/// with a content that the collector cannot read it stops on the parse error.
pub open spec fn planned<C: FileCollector>(
    collectors: Seq<C>,
    path: Seq<char>,
    content: Seq<char>,
) -> Result<Plan, CheckErrorView> {
    match selected(filenames_of(collectors), path) {
        None => Err(CheckErrorView::UnsupportedLockfile),
        Some(at) => match collectors[at].declared(content) {
            Err(error) => Err(CheckErrorView::Parse(error)),
            Ok(requests) => Ok(Plan { collector: at, requests: requests }),
        },
    }
}

/// The answer to one request of a run.
#[derive(Debug, PartialEq, Eq)]
pub struct Arrival {
    /// The position of the request among those of the run.
    pub index: usize,
    pub response: Response,
}

pub struct ArrivalView {
    pub index: int,
    pub response: ResponseView,
}

impl View for Arrival {
    type V = ArrivalView;

    open spec fn view(&self) -> ArrivalView {
        ArrivalView { index: self.index as int, response: self.response@ }
    }
}

/// How far a run has come: which requests were answered, in the order of the
/// answers, and the record that each answer gave.
pub struct Progress {
    pub answered: Seq<int>,
    pub records: Seq<RetrievedDependencyView>,
}

impl Progress {
    /// Nothing has arrived.
    pub open spec fn none() -> Progress {
        Progress { answered: Seq::empty(), records: Seq::empty() }
    }

    /// An answer counts if it is for a request of the run that has had none.
    pub open spec fn accepts(self, requests: Seq<RequestView>, index: int) -> bool {
        0 <= index < requests.len() && !self.answered.contains(index)
    }

    /// The progress after one more answer. An answer that counts adds the record
    /// of its dependency, with the policy applied; any other changes nothing.
    pub open spec fn step<C: FileCollector>(
        self,
        collector: C,
        requests: Seq<RequestView>,
        policy: PolicyView,
        arrival: ArrivalView,
    ) -> Progress {
        if self.accepts(requests, arrival.index) {
            Progress {
                answered: self.answered.push(arrival.index),
                records: self.records.push(
                    policy.applied(
                        collector.record_of(requests[arrival.index].dependency, arrival.response),
                    ),
                ),
            }
        } else {
            self
        }
    }

    /// Each answered request is a request of the run and was answered once, and
    /// each record is the validated record of the dependency of its request.
    pub open spec fn wf(self, requests: Seq<RequestView>) -> bool {
        &&& self.records.len() == self.answered.len()
        &&& self.answered.no_duplicates()
        &&& forall|k: int|
            0 <= k < self.answered.len() ==> 0 <= #[trigger] self.answered[k] < requests.len()
        &&& forall|k: int|
            0 <= k < self.records.len() ==> {
                &&& (#[trigger] self.records[k]).validated
                &&& self.records[k].wf()
                &&& self.records[k].is_about(
                    requests[self.answered[k]].dependency.name,
                    requests[self.answered[k]].dependency.version,
                )
            }
    }

    /// Every request has been answered.
    pub open spec fn is_complete(self, requests: Seq<RequestView>) -> bool {
        self.answered.len() == requests.len()
    }
}

/// The progress of a run after the answers `arrivals`, taken in their order.
pub open spec fn drained<C: FileCollector>(
    collector: C,
    requests: Seq<RequestView>,
    policy: PolicyView,
    arrivals: Seq<ArrivalView>,
) -> Progress
    decreases arrivals.len(),
{
    if arrivals.len() == 0 {
        Progress::none()
    } else {
        drained(collector, requests, policy, arrivals.drop_last()).step(
            collector,
            requests,
            policy,
            arrivals.last(),
        )
    }
}

/// One more answer keeps the progress of a run well formed.
pub proof fn lemma_step_keeps_wf<C: FileCollector>(
    progress: Progress,
    collector: C,
    requests: Seq<RequestView>,
    policy: PolicyView,
    arrival: ArrivalView,
)
    requires
        progress.wf(requests),
    ensures
        progress.step(collector, requests, policy, arrival).wf(requests),
{
    if progress.accepts(requests, arrival.index) {
        let dependency = requests[arrival.index].dependency;
        let fresh = collector.record_of(dependency, arrival.response);
        collector.lemma_record_of_is_retrieved(dependency, arrival.response);
        lemma_applied_is_well_formed(policy, fresh);
        let after = progress.step(collector, requests, policy, arrival);
        assert forall|k: int| 0 <= k < after.records.len() implies {
            &&& (#[trigger] after.records[k]).validated
            &&& after.records[k].wf()
            &&& after.records[k].is_about(
                requests[after.answered[k]].dependency.name,
                requests[after.answered[k]].dependency.version,
            )
        } by {
            if k < progress.records.len() {
                assert(after.records[k] == progress.records[k]);
                assert(after.answered[k] == progress.answered[k]);
            }
        }
    }
}

/// Whatever arrives, the progress of a run is well formed.
pub proof fn lemma_drained_is_wf<C: FileCollector>(
    collector: C,
    requests: Seq<RequestView>,
    policy: PolicyView,
    arrivals: Seq<ArrivalView>,
)
    ensures
        drained(collector, requests, policy, arrivals).wf(requests),
    decreases arrivals.len(),
{
    if arrivals.len() > 0 {
        lemma_drained_is_wf(collector, requests, policy, arrivals.drop_last());
        lemma_step_keeps_wf(
            drained(collector, requests, policy, arrivals.drop_last()),
            collector,
            requests,
            policy,
            arrivals.last(),
        );
    }
}

/// A run never holds more records than it has requests, and once it holds as
/// many, every request has its record.
pub proof fn lemma_complete_accounts_for_all(progress: Progress, requests: Seq<RequestView>)
    requires
        progress.wf(requests),
    ensures
        progress.records.len() <= requests.len(),
        progress.is_complete(requests) ==> forall|i: int|
            0 <= i < requests.len() ==> progress.answered.contains(i),
{
    let answered = progress.answered.to_set();
    let all = vstd::set_lib::set_int_range(0, requests.len() as int);
    progress.answered.unique_seq_to_set();
    vstd::set_lib::lemma_int_range(0, requests.len() as int);
    assert(answered.subset_of(all)) by {
        assert forall|i: int| answered.contains(i) implies all.contains(i) by {
            let k = choose|k: int| 0 <= k < progress.answered.len() && progress.answered[k] == i;
            assert(0 <= progress.answered[k] < requests.len());
        }
    }
    vstd::set_lib::lemma_len_subset(answered, all);
    if progress.is_complete(requests) {
        vstd::set_lib::lemma_subset_equality(answered, all);
        assert forall|i: int| 0 <= i < requests.len() implies progress.answered.contains(i) by {
            assert(all.contains(i));
            assert(answered.contains(i));
        }
    }
}

/// Each answer is for a request of the run, and no two are for the same one.
pub open spec fn answers_distinct_requests(
    requests: Seq<RequestView>,
    arrivals: Seq<ArrivalView>,
) -> bool {
    &&& forall|k: int| 0 <= k < arrivals.len() ==> 0 <= (#[trigger] arrivals[k]).index < requests.len()
    &&& forall|j: int, k: int|
        0 <= j < k < arrivals.len() ==> (#[trigger] arrivals[j]).index != (#[trigger] arrivals[k]).index
}

/// The record that one answer gives: that of the dependency of its request,
/// with the policy applied.
pub open spec fn record_for<C: FileCollector>(
    collector: C,
    requests: Seq<RequestView>,
    policy: PolicyView,
    arrival: ArrivalView,
) -> RetrievedDependencyView {
    policy.applied(collector.record_of(requests[arrival.index].dependency, arrival.response))
}

/// Where each answer is for another request of the run, every answer counts:
/// the report holds the record of each answer, in the order of the answers.
pub proof fn lemma_distinct_answers_all_count<C: FileCollector>(
    collector: C,
    requests: Seq<RequestView>,
    policy: PolicyView,
    arrivals: Seq<ArrivalView>,
)
    requires
        answers_distinct_requests(requests, arrivals),
    ensures
        drained(collector, requests, policy, arrivals).answered == arrivals.map_values(
            |arrival: ArrivalView| arrival.index,
        ),
        drained(collector, requests, policy, arrivals).records == arrivals.map_values(
            |arrival: ArrivalView| record_for(collector, requests, policy, arrival),
        ),
    decreases arrivals.len(),
{
    let report = drained(collector, requests, policy, arrivals);
    let indices = arrivals.map_values(|arrival: ArrivalView| arrival.index);
    let records = arrivals.map_values(
        |arrival: ArrivalView| record_for(collector, requests, policy, arrival),
    );
    if arrivals.len() == 0 {
        assert(report.answered =~= indices);
        assert(report.records =~= records);
    } else {
        let earlier = arrivals.drop_last();
        let last = arrivals.last();
        assert(answers_distinct_requests(requests, earlier)) by {
            assert forall|k: int| 0 <= k < earlier.len() implies 0 <= (#[trigger] earlier[k]).index
                < requests.len() by {
                assert(earlier[k] == arrivals[k]);
            }
            assert forall|j: int, k: int| 0 <= j < k < earlier.len() implies (#[trigger] earlier[j]).index
                != (#[trigger] earlier[k]).index by {
                assert(earlier[j] == arrivals[j]);
                assert(earlier[k] == arrivals[k]);
            }
        }
        lemma_distinct_answers_all_count(collector, requests, policy, earlier);
        let before = drained(collector, requests, policy, earlier);
        assert(!before.answered.contains(last.index)) by {
            if before.answered.contains(last.index) {
                let j = choose|j: int| 0 <= j < before.answered.len() && before.answered[j] == last.index;
                assert(before.answered[j] == earlier[j].index);
                assert(earlier[j] == arrivals[j]);
                assert(arrivals[j].index != arrivals[arrivals.len() - 1].index);
            }
        }
        assert(before.accepts(requests, last.index));
        assert(report.answered =~= indices) by {
            assert forall|k: int| 0 <= k < indices.len() implies report.answered[k] == indices[k] by {
                if k < earlier.len() {
                    assert(earlier[k] == arrivals[k]);
                }
            }
        }
        assert(report.records =~= records) by {
            assert forall|k: int| 0 <= k < records.len() implies report.records[k] == records[k] by {
                if k < earlier.len() {
                    assert(earlier[k] == arrivals[k]);
                }
            }
        }
    }
}

/// The answer at position `k` is the one for request `i`, and the report holds
/// its record at that position: the validated record of the dependency of the
/// request.
pub open spec fn accounts_for<C: FileCollector>(
    collector: C,
    requests: Seq<RequestView>,
    policy: PolicyView,
    arrivals: Seq<ArrivalView>,
    i: int,
    k: int,
) -> bool {
    let report = drained(collector, requests, policy, arrivals);
    &&& 0 <= k < arrivals.len()
    &&& k < report.records.len()
    &&& arrivals[k].index == i
    &&& report.records[k] == record_for(collector, requests, policy, arrivals[k])
    &&& report.records[k].validated
    &&& report.records[k].is_about(requests[i].dependency.name, requests[i].dependency.version)
}

/// The report holds the record of request `i`.
pub open spec fn is_accounted_for<C: FileCollector>(
    collector: C,
    requests: Seq<RequestView>,
    policy: PolicyView,
    arrivals: Seq<ArrivalView>,
    i: int,
) -> bool {
    exists|k: int| accounts_for(collector, requests, policy, arrivals, i, k)
}

/// Every dependency is accounted for: where each request of a run is answered
/// exactly once, in whatever order, the report holds exactly one record for
/// each request, and that record is about the dependency of the request.
pub proof fn lemma_every_dependency_is_accounted_for<C: FileCollector>(
    collector: C,
    requests: Seq<RequestView>,
    policy: PolicyView,
    arrivals: Seq<ArrivalView>,
)
    requires
        answers_distinct_requests(requests, arrivals),
        arrivals.len() == requests.len(),
    ensures
        drained(collector, requests, policy, arrivals).records.len() == requests.len(),
        forall|i: int|
            0 <= i < requests.len() ==> is_accounted_for(collector, requests, policy, arrivals, i),
{
    let report = drained(collector, requests, policy, arrivals);
    lemma_distinct_answers_all_count(collector, requests, policy, arrivals);
    lemma_drained_is_wf(collector, requests, policy, arrivals);
    lemma_complete_accounts_for_all(report, requests);
    assert forall|i: int| 0 <= i < requests.len() implies is_accounted_for(
        collector,
        requests,
        policy,
        arrivals,
        i,
    ) by {
        assert(report.answered.contains(i));
        let k = choose|k: int| 0 <= k < report.answered.len() && report.answered[k] == i;
        assert(arrivals[k].index == i);
        assert(report.records[k].validated);
        assert(accounts_for(collector, requests, policy, arrivals, i, k));
    }
}

/// A run in progress: the collector that read the dependency file, the
/// requests that the file calls for, and the records of the answers so far.
pub struct Check<'a, C: FileCollector> {
    collector: &'a C,
    policy: &'a Policy,
    requests: Vec<Request>,
    done: Vec<bool>,
    answered: Vec<usize>,
    records: Vec<RetrievedDependency>,
}

impl<'a, C: FileCollector> Check<'a, C> {
    /// The collector that read the dependency file.
    pub closed spec fn collector(&self) -> C {
        *self.collector
    }

    /// The policy of the run.
    pub closed spec fn policy(&self) -> PolicyView {
        self.policy@
    }

    /// The requests of the run, in the collector's order.
    pub closed spec fn requests(&self) -> Seq<RequestView> {
        views(self.requests@)
    }

    /// How far the run has come.
    pub closed spec fn progress(&self) -> Progress {
        Progress {
            answered: self.answered@.map_values(|index: usize| index as int),
            records: views(self.records@),
        }
    }

    /// The run's books agree: its progress is well formed, and a request is
    /// marked done exactly if it was answered.
    pub closed spec fn wf(&self) -> bool {
        &&& self.progress().wf(self.requests())
        &&& self.done@.len() == self.requests@.len()
        &&& forall|i: int|
            0 <= i < self.done@.len() ==> #[trigger] self.done@[i] == self.progress().answered.contains(i)
    }

    /// A well-formed run has a well-formed progress.
    pub proof fn lemma_progress_is_wf(&self)
        requires
            self.wf(),
        ensures
            self.progress().wf(self.requests()),
    {
    }

    /// Starts a run: selects the collector for `dependency_file` among
    /// `collectors` and has it read `dependency_file_content`.
    pub fn start(
        collectors: &'a Vec<C>,
        policy: &'a Policy,
        dependency_file: &str,
        dependency_file_content: &str,
    ) -> (r: Result<Check<'a, C>, CheckError>)
        ensures
            match planned(collectors@, dependency_file@, dependency_file_content@) {
                Err(error) => r is Err && r->Err_0@ == error,
                Ok(plan) => {
                    &&& r is Ok
                    &&& r->Ok_0.wf()
                    &&& r->Ok_0.collector() == collectors@[plan.collector]
                    &&& r->Ok_0.policy() == policy@
                    &&& r->Ok_0.requests() == plan.requests
                    &&& r->Ok_0.progress() == Progress::none()
                },
            },
    {
        let names = filenames(collectors);
        let at = match select(&names, dependency_file) {
            Some(at) => at,
            None => {
                return Err(CheckError::UnsupportedLockfile);
            },
        };
        let collector = &collectors[at];
        let requests = match collector.get_dependencies(dependency_file_content) {
            Ok(requests) => requests,
            Err(error) => {
                return Err(CheckError::Parse(error));
            },
        };
        let mut done: Vec<bool> = Vec::new();
        let mut i: usize = 0;
        while i < requests.len()
            invariant
                i <= requests.len(),
                done@.len() == i,
                forall|k: int| 0 <= k < i ==> !(#[trigger] done@[k]),
            decreases requests.len() - i,
        {
            done.push(false);
            i += 1;
        }
        let check = Check {
            collector,
            policy,
            requests,
            done,
            answered: Vec::new(),
            records: Vec::new(),
        };
        assert(check.progress().answered =~= Progress::none().answered);
        assert(check.progress().records =~= Progress::none().records);
        Ok(check)
    }

    /// The requests to make, in the collector's order. The position of a
    /// request is the index of its answer.
    pub fn requests_to_make(&self) -> (r: &Vec<Request>)
        ensures
            views(r@) == self.requests(),
    {
        &self.requests
    }

    /// The number of answers that count so far.
    pub fn answered(&self) -> (r: usize)
        ensures
            r == self.progress().answered.len(),
    {
        self.answered.len()
    }

    /// Whether every request has been answered.
    pub fn is_complete(&self) -> (r: bool)
        ensures
            r == self.progress().is_complete(self.requests()),
    {
        self.answered.len() == self.requests.len()
    }

    /// Takes one answer. It counts if it is for a request of the run that has
    /// had none: then the record of its dependency, with the policy applied,
    /// joins the records. Any other answer changes nothing.
    pub fn deliver(&mut self, arrival: &Arrival) -> (accepted: bool)
        requires
            old(self).wf(),
        ensures
            final(self).wf(),
            final(self).collector() == old(self).collector(),
            final(self).policy() == old(self).policy(),
            final(self).requests() == old(self).requests(),
            accepted == old(self).progress().accepts(old(self).requests(), arrival@.index),
            final(self).progress() == old(self).progress().step(
                old(self).collector(),
                old(self).requests(),
                old(self).policy(),
                arrival@,
            ),
    {
        let index = arrival.index;
        if index >= self.requests.len() {
            return false;
        }
        if self.done[index] {
            return false;
        }
        let mut record = self.collector.retrieve(&self.requests[index], &arrival.response);
        validate(&mut record, self.policy);
        proof {
            lemma_step_keeps_wf(
                self.progress(),
                self.collector(),
                self.requests(),
                self.policy(),
                arrival@,
            );
        }
        self.done.set(index, true);
        self.answered.push(index);
        self.records.push(record);
        proof {
            let before = old(self).progress();
            let after = before.step(
                old(self).collector(),
                old(self).requests(),
                old(self).policy(),
                arrival@,
            );
            assert(self.progress().answered =~= after.answered);
            assert(self.progress().records =~= after.records);
            assert forall|i: int| 0 <= i < self.done@.len() implies #[trigger] self.done@[i]
                == self.progress().answered.contains(i) by {
                if i == index {
                    assert(after.answered[after.answered.len() - 1] == index);
                } else if before.answered.contains(i) {
                    let k = choose|k: int| 0 <= k < before.answered.len() && before.answered[k] == i;
                    assert(after.answered[k] == i);
                } else if after.answered.contains(i) {
                    let k = choose|k: int| 0 <= k < after.answered.len() && after.answered[k] == i;
                    assert(before.answered[k] == i);
                }
            }
        }
        true
    }

    /// Ends the run: the records of the answers that counted, in the order in
    /// which they arrived.
    pub fn finish(self) -> (r: Vec<RetrievedDependency>)
        ensures
            views(r@) == self.progress().records,
    {
        self.records
    }
}

/// Audits a dependency file whose registries have answered: selects the
/// collector, has it read the file, and takes the answers in their order. The
/// report holds one validated record for each answer that counts: the first
/// for each request of the file.
pub fn run<C: FileCollector>(
    collectors: &Vec<C>,
    policy: &Policy,
    dependency_file: &str,
    dependency_file_content: &str,
    arrivals: &Vec<Arrival>,
) -> (r: Result<Vec<RetrievedDependency>, CheckError>)
    ensures
        match planned(collectors@, dependency_file@, dependency_file_content@) {
            Err(error) => r is Err && r->Err_0@ == error,
            Ok(plan) => r is Ok && views(r->Ok_0@) == drained(
                collectors@[plan.collector],
                plan.requests,
                policy@,
                views(arrivals@),
            ).records,
        },
{
    let mut check = match Check::start(collectors, policy, dependency_file, dependency_file_content) {
        Ok(check) => check,
        Err(error) => {
            return Err(error);
        },
    };
    let ghost plan = planned(collectors@, dependency_file@, dependency_file_content@)->Ok_0;
    let ghost collector = collectors@[plan.collector];
    let mut i: usize = 0;
    assert(views(arrivals@).take(0) =~= Seq::empty());
    while i < arrivals.len()
        invariant
            i <= arrivals.len(),
            check.wf(),
            check.collector() == collector,
            check.policy() == policy@,
            check.requests() == plan.requests,
            check.progress() == drained(
                collector,
                plan.requests,
                policy@,
                views(arrivals@).take(i as int),
            ),
        decreases arrivals.len() - i,
    {
        check.deliver(&arrivals[i]);
        proof {
            let next = views(arrivals@).take(i + 1);
            assert(next.drop_last() =~= views(arrivals@).take(i as int));
            assert(next.last() == arrivals@[i as int]@);
        }
        i += 1;
    }
    assert(views(arrivals@).take(i as int) =~= views(arrivals@));
    Ok(check.finish())
}

} // verus!
