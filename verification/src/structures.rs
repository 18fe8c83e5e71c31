//! The configuration model: builds, their steps, and the rules a
//! configuration has to meet before anything is run.

use crate::decimal::{decimal, decimal_string};
use crate::status::{display_status, is_status, status_display};
use vstd::prelude::*;
use vstd::string::*;

verus! {

/// The number of the place a build is published to.
pub type PlaceId = u64;

/// One command: the program, then its arguments.
pub type Step = Vec<String>;

/// What can go wrong with a configuration or with a publication.
#[derive(Debug, PartialEq, Eq)]
pub enum RoppError {
    EmptyStep,
    NoBuilds,
    PublishError(u16),
    RequestError(String),
    StepsUnspecifiedForBuild(String),
}

/// A `RoppError` with its texts as sequences of characters.
pub enum RoppErrorView {
    EmptyStep,
    NoBuilds,
    PublishError(u16),
    RequestError(Seq<char>),
    StepsUnspecifiedForBuild(Seq<char>),
}

impl View for RoppError {
    type V = RoppErrorView;

    open spec fn view(&self) -> RoppErrorView {
        match *self {
            RoppError::EmptyStep => RoppErrorView::EmptyStep,
            RoppError::NoBuilds => RoppErrorView::NoBuilds,
            RoppError::PublishError(status) => RoppErrorView::PublishError(status),
            RoppError::RequestError(reason) => RoppErrorView::RequestError(reason@),
            RoppError::StepsUnspecifiedForBuild(build) => RoppErrorView::StepsUnspecifiedForBuild(
                build@,
            ),
        }
    }
}

/// How a status is written in a message: as `reqwest` displays it, or, for
/// a number that is no status, as the number alone.
pub open spec fn status_text(status: u16) -> Seq<char> {
    if is_status(status) {
        status_display(status)
    } else {
        decimal(status as nat)
    }
}

/// The message that tells of a failed publication, around the text of the
/// status that came back.
pub open spec fn publish_error_text(status_text: Seq<char>) -> Seq<char> {
    "Error while publishing, status code: "@ + status_text
        + "\nThis usually means you don't have access to the place."@
}

/// The message of an error.
pub open spec fn message_text(error: RoppErrorView) -> Seq<char> {
    match error {
        RoppErrorView::EmptyStep => "Step can't be empty"@,
        RoppErrorView::NoBuilds => "No builds listed in configuration."@,
        RoppErrorView::PublishError(status) => publish_error_text(status_text(status)),
        RoppErrorView::RequestError(reason) => "Request Error: "@ + reason,
        RoppErrorView::StepsUnspecifiedForBuild(build) => "No steps listed for "@ + build,
    }
}

/// Writes the message that tells of a failed publication, around the text
/// of the status that came back.
pub fn publish_error_message(status_text: &str) -> (message: String)
    ensures
        message@ == publish_error_text(status_text@),
{
    let mut message = String::from_str("Error while publishing, status code: ");
    message.append(status_text);
    message.append("\nThis usually means you don't have access to the place.");
    message
}

impl RoppError {
    /// The message of this error, for the operator to read.
    pub fn message(&self) -> (message: String)
        ensures
            message@ == message_text(self@),
    {
        match self {
            RoppError::EmptyStep => String::from_str("Step can't be empty"),
            RoppError::NoBuilds => String::from_str("No builds listed in configuration."),
            RoppError::PublishError(status) => {
                let text = match display_status(*status) {
                    Some(text) => text,
                    None => decimal_string(*status as u64),
                };
                publish_error_message(text.as_str())
            },
            RoppError::RequestError(reason) => {
                let mut message = String::from_str("Request Error: ");
                message.append(reason.as_str());
                message
            },
            RoppError::StepsUnspecifiedForBuild(build) => {
                let mut message = String::from_str("No steps listed for ");
                message.append(build.as_str());
                message
            },
        }
    }
}

impl Clone for RoppError {
    fn clone(&self) -> (copy: RoppError)
        ensures
            copy@ == self@,
    {
        match self {
            RoppError::EmptyStep => RoppError::EmptyStep,
            RoppError::NoBuilds => RoppError::NoBuilds,
            RoppError::PublishError(status) => RoppError::PublishError(*status),
            RoppError::RequestError(reason) => RoppError::RequestError(reason.clone()),
            RoppError::StepsUnspecifiedForBuild(build) => RoppError::StepsUnspecifiedForBuild(
                build.clone(),
            ),
        }
    }
}

/// The view of a result that carries no value.
pub open spec fn outcome(result: Result<(), RoppError>) -> Result<(), RoppErrorView> {
    match result {
        Ok(()) => Ok(()),
        Err(error) => Err(error@),
    }
}

/// The steps of one phase, an absent list counting as empty.
pub open spec fn phase_steps(phase: Option<Vec<Step>>) -> Seq<Step> {
    match phase {
        Some(list) => list@,
        None => Seq::empty(),
    }
}

/// Whether a list of steps holds a step without a program.
pub open spec fn holds_empty_step(steps: Seq<Step>) -> bool {
    exists|i: int| 0 <= i < steps.len() && (#[trigger] steps[i])@.len() == 0
}

/// The steps of a build: those to run before the upload and those to run
/// after it. An absent list means that the phase has no steps.
#[derive(Debug, PartialEq, Eq)]
pub struct Steps {
    pub pre: Option<Vec<Step>>,
    pub post: Option<Vec<Step>>,
}

impl Default for Steps {
    fn default() -> (steps: Steps)
        ensures
            steps.pre is None,
            steps.post is None,
    {
        Steps { pre: None, post: None }
    }
}

/// Whether a list of steps holds a step without a program.
fn list_has_empty_step(list: &Vec<Step>) -> (found: bool)
    ensures
        found == holds_empty_step(list@),
{
    let mut i: usize = 0;
    while i < list.len()
        invariant
            i <= list.len(),
            forall|j: int| 0 <= j < i ==> (#[trigger] list@[j])@.len() > 0,
        decreases list.len() - i,
    {
        if list[i].len() == 0 {
            return true;
        }
        i += 1;
    }
    false
}

impl Steps {
    /// The steps of both phases, `pre` before `post`.
    pub open spec fn all_steps(&self) -> Seq<Step> {
        phase_steps(self.pre) + phase_steps(self.post)
    }

    /// Whether one of the steps, in either phase, has no program.
    pub open spec fn has_empty_step(&self) -> bool {
        holds_empty_step(self.all_steps())
    }

    /// A step without a program is a fault wherever it stands: among the
    /// steps to run before the upload, or among those to run after it.
    pub proof fn lemma_empty_step_in_phase(&self)
        ensures
            self.has_empty_step() <==> holds_empty_step(phase_steps(self.pre)) || holds_empty_step(
                phase_steps(self.post),
            ),
    {
        let pre = phase_steps(self.pre);
        let post = phase_steps(self.post);
        let all = self.all_steps();
        if holds_empty_step(pre) {
            let i = choose|i: int| 0 <= i < pre.len() && (#[trigger] pre[i])@.len() == 0;
            assert(all[i] == pre[i]);
        }
        if holds_empty_step(post) {
            let i = choose|i: int| 0 <= i < post.len() && (#[trigger] post[i])@.len() == 0;
            assert(all[pre.len() + i] == post[i]);
        }
        if holds_empty_step(all) {
            let i = choose|i: int| 0 <= i < all.len() && (#[trigger] all[i])@.len() == 0;
            if i < pre.len() {
                assert(pre[i] == all[i]);
            } else {
                assert(post[i - pre.len()] == all[i]);
            }
        }
    }

    /// Whether one of the steps, in either phase, has no program.
    pub fn contains_empty_step(&self) -> (found: bool)
        ensures
            found == self.has_empty_step(),
    {
        let in_pre = match &self.pre {
            Some(list) => list_has_empty_step(list),
            None => false,
        };
        let in_post = match &self.post {
            Some(list) => list_has_empty_step(list),
            None => false,
        };
        proof {
            self.lemma_empty_step_in_phase();
        }
        in_pre || in_post
    }
}

/// A configuration: the place of each build, and the steps of each build.
///
/// Builds are kept in the order in which they were first listed, and that
/// order decides which fault `validate` reports. No name occurs twice among
/// the builds, nor among the entries that give steps.
pub struct Config {
    builds: Vec<(String, PlaceId)>,
    steps: Vec<(String, Steps)>,
}

/// Whether no two entries of a list carry the same name.
pub open spec fn distinct_names<T>(names: Seq<(Seq<char>, T)>) -> bool {
    forall|i: int, j: int| 0 <= i < j < names.len() ==> names[i].0 != names[j].0
}

/// Whether a list has an entry under `name`.
pub open spec fn lists_name<T>(list: Seq<(Seq<char>, T)>, name: Seq<char>) -> bool {
    exists|i: int| 0 <= i < list.len() && (#[trigger] list[i]).0 == name
}

/// The mapping that a list of named entries stands for.
pub open spec fn mapping<T>(list: Seq<(Seq<char>, T)>) -> Map<Seq<char>, T> {
    Map::new(
        |name: Seq<char>| lists_name(list, name),
        |name: Seq<char>|
            list[choose|i: int| 0 <= i < list.len() && (#[trigger] list[i]).0 == name].1,
    )
}

/// In a list without a repeated name, the mapping gives each entry's value
/// under its name.
pub proof fn lemma_mapping_entry<T>(list: Seq<(Seq<char>, T)>, i: int)
    requires
        distinct_names(list),
        0 <= i < list.len(),
    ensures
        mapping(list).dom().contains(list[i].0),
        mapping(list)[list[i].0] == list[i].1,
{
    let name = list[i].0;
    let k = choose|k: int| 0 <= k < list.len() && (#[trigger] list[k]).0 == name;
    if k < i {
        assert(list[k].0 != list[i].0);
    } else if i < k {
        assert(list[i].0 != list[k].0);
    }
}

/// A list after `value` was put under `name`: in the place of the entry that
/// had the name, or else at the end.
pub open spec fn put<T>(list: Seq<(Seq<char>, T)>, name: Seq<char>, value: T) -> Seq<
    (Seq<char>, T),
> {
    if lists_name(list, name) {
        list.update(
            choose|i: int| 0 <= i < list.len() && (#[trigger] list[i]).0 == name,
            (name, value),
        )
    } else {
        list.push((name, value))
    }
}

/// Putting a value under a name keeps the names distinct, and changes the
/// mapping as an insertion does.
pub proof fn lemma_put<T>(list: Seq<(Seq<char>, T)>, name: Seq<char>, value: T)
    requires
        distinct_names(list),
    ensures
        distinct_names(put(list, name, value)),
        mapping(put(list, name, value)) == mapping(list).insert(name, value),
{
    let after = put(list, name, value);
    if lists_name(list, name) {
        let k = choose|i: int| 0 <= i < list.len() && (#[trigger] list[i]).0 == name;
        assert(after[k] == (name, value));
        assert forall|i: int| 0 <= i < list.len() implies (#[trigger] after[i]).0 == list[i].0 by {}
    } else {
        assert(after[list.len() as int] == (name, value));
        assert forall|i: int| 0 <= i < list.len() implies (#[trigger] after[i]) == list[i] by {}
    }
    assert(distinct_names(after));
    assert forall|n: Seq<char>| lists_name(after, n) <==> (n == name || lists_name(list, n)) by {
        if lists_name(after, n) {
            let i = choose|i: int| 0 <= i < after.len() && (#[trigger] after[i]).0 == n;
            if n != name {
                assert(list[i].0 == n);
            }
        }
        if n == name {
            if lists_name(list, name) {
                let k = choose|i: int| 0 <= i < list.len() && (#[trigger] list[i]).0 == name;
                assert(after[k].0 == name);
            } else {
                assert(after[list.len() as int].0 == name);
            }
        } else if lists_name(list, n) {
            let i = choose|i: int| 0 <= i < list.len() && (#[trigger] list[i]).0 == n;
            assert(after[i].0 == n);
        }
    }
    let target = mapping(list).insert(name, value);
    assert forall|n: Seq<char>| mapping(after).dom().contains(n) implies #[trigger] mapping(
        after,
    )[n] == target[n] by {
        let i = choose|i: int| 0 <= i < after.len() && (#[trigger] after[i]).0 == n;
        lemma_mapping_entry(after, i);
        if n != name {
            assert(list[i] == after[i]);
            lemma_mapping_entry(list, i);
        } else {
            if lists_name(list, name) {
                let k = choose|i: int| 0 <= i < list.len() && (#[trigger] list[i]).0 == name;
                lemma_mapping_entry(after, k);
            } else {
                lemma_mapping_entry(after, list.len() as int);
            }
        }
    }
    assert(mapping(after) =~= target);
}

/// The position of the entry under `name`, if the list has one.
fn position<T>(list: &Vec<(String, T)>, name: &String) -> (found: Option<usize>)
    ensures
        match found {
            Some(i) => i < list@.len() && list@[i as int].0@ == name@,
            None => forall|i: int| 0 <= i < list@.len() ==> (#[trigger] list@[i]).0@ != name@,
        },
{
    let mut i: usize = 0;
    while i < list.len()
        invariant
            i <= list@.len(),
            forall|j: int| 0 <= j < i ==> (#[trigger] list@[j]).0@ != name@,
        decreases list@.len() - i,
    {
        if list[i].0 == *name {
            return Some(i);
        }
        i += 1;
    }
    None
}

impl Config {
    /// No name occurs twice, neither among the builds nor among the steps.
    #[verifier::type_invariant]
    pub closed spec fn wf(&self) -> bool {
        &&& distinct_names(self.build_list())
        &&& distinct_names(self.steps_list())
    }

    /// The builds in the order in which they were first listed, each with
    /// its place.
    pub closed spec fn build_list(&self) -> Seq<(Seq<char>, PlaceId)> {
        Seq::new(self.builds@.len(), |i: int| (self.builds@[i].0@, self.builds@[i].1))
    }

    /// The entries that give steps, in the order in which they were first
    /// listed.
    pub closed spec fn steps_list(&self) -> Seq<(Seq<char>, Steps)> {
        Seq::new(self.steps@.len(), |i: int| (self.steps@[i].0@, self.steps@[i].1))
    }

    /// The place of each build.
    pub open spec fn builds(&self) -> Map<Seq<char>, PlaceId> {
        mapping(self.build_list())
    }

    /// The steps listed under each name.
    pub open spec fn steps(&self) -> Map<Seq<char>, Steps> {
        mapping(self.steps_list())
    }

    /// What is wrong with the build at position `i`, if anything: it has no
    /// steps listed, or one of its steps has no program.
    pub open spec fn build_fault(&self, i: int) -> Option<RoppErrorView> {
        let name = self.build_list()[i].0;
        if !self.steps().dom().contains(name) {
            Some(RoppErrorView::StepsUnspecifiedForBuild(name))
        } else if self.steps()[name].has_empty_step() {
            Some(RoppErrorView::EmptyStep)
        } else {
            None
        }
    }

    /// Whether the build at position `i` is the first with a fault.
    pub open spec fn first_faulty(&self, i: int) -> bool {
        &&& 0 <= i < self.build_list().len()
        &&& self.build_fault(i) is Some
        &&& forall|j: int| 0 <= j < i ==> self.build_fault(j) is None
    }

    /// What validation finds: that there are no builds at all, or else the
    /// fault of the first faulty build, or else nothing.
    pub open spec fn validation(&self) -> Result<(), RoppErrorView> {
        if self.build_list().len() == 0 {
            Err(RoppErrorView::NoBuilds)
        } else if exists|i: int| self.first_faulty(i) {
            Err(self.build_fault(choose|i: int| self.first_faulty(i))->0)
        } else {
            Ok(())
        }
    }

    /// A configuration without builds and without steps.
    pub fn new() -> (config: Config)
        ensures
            config.wf(),
            config.build_list() == Seq::<(Seq<char>, PlaceId)>::empty(),
            config.steps_list() == Seq::<(Seq<char>, Steps)>::empty(),
    {
        let config = Config { builds: Vec::new(), steps: Vec::new() };
        assert(config.build_list() =~= Seq::<(Seq<char>, PlaceId)>::empty());
        assert(config.steps_list() =~= Seq::<(Seq<char>, Steps)>::empty());
        config
    }

    /// Lists a build with its place. A build that is listed already keeps
    /// its position and takes the new place.
    pub fn insert_build(&mut self, name: String, place_id: PlaceId)
        ensures
            final(self).wf(),
            final(self).build_list() == put(old(self).build_list(), name@, place_id),
            final(self).builds() == old(self).builds().insert(name@, place_id),
            final(self).steps_list() == old(self).steps_list(),
    {
        proof {
            use_type_invariant(&*self);
            lemma_put(self.build_list(), name@, place_id);
        }
        let ghost before = self.build_list();
        let ghost steps_before = self.steps_list();
        let mut list = Vec::new();
        std::mem::swap(&mut self.builds, &mut list);
        match position(&list, &name) {
            Some(i) => {
                proof {
                    let k = choose|k: int|
                        0 <= k < before.len() && (#[trigger] before[k]).0 == name@;
                    assert(before[i as int].0 == name@);
                    if k < i {
                        assert(before[k].0 != before[i as int].0);
                    } else if i < k {
                        assert(before[i as int].0 != before[k].0);
                    }
                }
                list.set(i, (name, place_id));
            },
            None => {
                proof {
                    if lists_name(before, name@) {
                        let k = choose|k: int|
                            0 <= k < before.len() && (#[trigger] before[k]).0 == name@;
                        assert(list@[k].0@ == name@);
                    }
                }
                list.push((name, place_id));
            },
        }
        proof {
            let after = Seq::new(list@.len(), |i: int| (list@[i].0@, list@[i].1));
            assert(after =~= put(before, name@, place_id));
        }
        self.builds = list;
        assert(self.build_list() =~= put(before, name@, place_id));
        assert(self.steps_list() =~= steps_before);
    }

    /// Lists the steps of a build. A name that has steps already keeps its
    /// position and takes the new steps.
    pub fn insert_steps(&mut self, name: String, steps: Steps)
        ensures
            final(self).wf(),
            final(self).steps_list() == put(old(self).steps_list(), name@, steps),
            final(self).steps() == old(self).steps().insert(name@, steps),
            final(self).build_list() == old(self).build_list(),
    {
        proof {
            use_type_invariant(&*self);
            lemma_put(self.steps_list(), name@, steps);
        }
        let ghost before = self.steps_list();
        let ghost builds_before = self.build_list();
        let mut list = Vec::new();
        std::mem::swap(&mut self.steps, &mut list);
        match position(&list, &name) {
            Some(i) => {
                proof {
                    let k = choose|k: int|
                        0 <= k < before.len() && (#[trigger] before[k]).0 == name@;
                    assert(before[i as int].0 == name@);
                    if k < i {
                        assert(before[k].0 != before[i as int].0);
                    } else if i < k {
                        assert(before[i as int].0 != before[k].0);
                    }
                }
                list.set(i, (name, steps));
            },
            None => {
                proof {
                    if lists_name(before, name@) {
                        let k = choose|k: int|
                            0 <= k < before.len() && (#[trigger] before[k]).0 == name@;
                        assert(list@[k].0@ == name@);
                    }
                }
                list.push((name, steps));
            },
        }
        proof {
            let after = Seq::new(list@.len(), |i: int| (list@[i].0@, list@[i].1));
            assert(after =~= put(before, name@, steps));
        }
        self.steps = list;
        assert(self.steps_list() =~= put(before, name@, steps));
        assert(self.build_list() =~= builds_before);
    }

    /// Checks the configuration: there is a build, every build has steps,
    /// and no step of a build is empty. Builds are checked in the order in
    /// which they are listed, and the first fault found is reported.
    pub fn validate(&self) -> (result: Result<(), RoppError>)
        ensures
            outcome(result) == self.validation(),
    {
        proof {
            use_type_invariant(self);
        }
        if self.builds.len() == 0 {
            return Err(RoppError::NoBuilds);
        }
        let mut i: usize = 0;
        while i < self.builds.len()
            invariant
                i <= self.builds@.len(),
                self.builds@.len() == self.build_list().len(),
                self.wf(),
                forall|j: int| 0 <= j < i ==> self.build_fault(j) is None,
            decreases self.builds@.len() - i,
        {
            let ghost name = self.build_list()[i as int].0;
            assert(name == self.builds@[i as int].0@);
            match position(&self.steps, &self.builds[i].0) {
                Some(j) => {
                    proof {
                        assert(self.steps_list()[j as int].0 == name);
                        lemma_mapping_entry(self.steps_list(), j as int);
                    }
                    if self.steps[j].1.contains_empty_step() {
                        proof {
                            self.lemma_first_faulty(i as int);
                        }
                        return Err(RoppError::EmptyStep);
                    }
                },
                None => {
                    proof {
                        if lists_name(self.steps_list(), name) {
                            let k = choose|k: int|
                                0 <= k < self.steps_list().len() && (
                                #[trigger] self.steps_list()[k]).0 == name;
                            assert(self.steps@[k].0@ == name);
                        }
                        self.lemma_first_faulty(i as int);
                    }
                    return Err(RoppError::StepsUnspecifiedForBuild(self.builds[i].0.clone()));
                },
            }
            i += 1;
        }
        proof {
            if exists|k: int| self.first_faulty(k) {
                let k = choose|k: int| self.first_faulty(k);
                assert(self.build_fault(k) is None);
            }
        }
        Ok(())
    }

    /// The first faulty build decides what validation finds.
    pub proof fn lemma_first_faulty(&self, i: int)
        requires
            self.first_faulty(i),
        ensures
            self.validation() == Result::<(), RoppErrorView>::Err(self.build_fault(i)->0),
    {
        let k = choose|k: int| self.first_faulty(k);
        if k < i {
            assert(self.build_fault(k) is None);
        } else if i < k {
            assert(self.build_fault(i) is None);
        }
    }

    /// Among the builds up to a faulty one, one is the first with a fault.
    pub proof fn lemma_least_fault(&self, i: int) -> (k: int)
        requires
            0 <= i < self.build_list().len(),
            self.build_fault(i) is Some,
        ensures
            self.first_faulty(k),
            k <= i,
        decreases i,
    {
        if forall|j: int| 0 <= j < i ==> self.build_fault(j) is None {
            i
        } else {
            let j = choose|j: int| 0 <= j < i && self.build_fault(j) is Some;
            self.lemma_least_fault(j)
        }
    }

    /// Without a build, validation finds `NoBuilds`, whatever steps are
    /// listed.
    pub proof fn lemma_no_builds(&self)
        requires
            self.builds().dom() =~= Set::<Seq<char>>::empty(),
        ensures
            self.validation() == Result::<(), RoppErrorView>::Err(RoppErrorView::NoBuilds),
    {
        if self.build_list().len() > 0 {
            assert(lists_name(self.build_list(), self.build_list()[0].0));
            assert(self.builds().dom().contains(self.build_list()[0].0));
        }
    }

    /// A build that is listed but has no steps makes validation fail. The
    /// failure names that build where no build listed before it has a fault;
    /// else it is the fault of an earlier build.
    pub proof fn lemma_steps_unspecified(&self, i: int)
        requires
            0 <= i < self.build_list().len(),
            !self.steps().dom().contains(self.build_list()[i].0),
        ensures
            self.validation() is Err,
            self.validation() != Result::<(), RoppErrorView>::Err(RoppErrorView::NoBuilds),
            (forall|j: int| 0 <= j < i ==> self.build_fault(j) is None) ==> self.validation()
                == Result::<(), RoppErrorView>::Err(
                RoppErrorView::StepsUnspecifiedForBuild(self.build_list()[i].0),
            ),
            (exists|j: int| 0 <= j < i && self.build_fault(j) is Some) ==> exists|j: int|
                0 <= j < i && self.validation() == Result::<(), RoppErrorView>::Err(
                    self.build_fault(j)->0,
                ),
    {
        let k = self.lemma_least_fault(i);
        self.lemma_first_faulty(k);
        if forall|j: int| 0 <= j < i ==> self.build_fault(j) is None {
            assert(k == i);
        } else {
            assert(k < i);
        }
    }

    /// A step without a program, in a build that has steps, makes validation
    /// fail. The failure is `EmptyStep` where every build listed before that
    /// one has steps; else it may name an earlier build that has none.
    pub proof fn lemma_empty_step(&self, i: int)
        requires
            0 <= i < self.build_list().len(),
            self.steps().dom().contains(self.build_list()[i].0),
            self.steps()[self.build_list()[i].0].has_empty_step(),
        ensures
            self.validation() is Err,
            self.validation() != Result::<(), RoppErrorView>::Err(RoppErrorView::NoBuilds),
            (forall|j: int| 0 <= j < i ==> self.steps().dom().contains(self.build_list()[j].0))
                ==> self.validation() == Result::<(), RoppErrorView>::Err(
                RoppErrorView::EmptyStep,
            ),
            self.validation() == Result::<(), RoppErrorView>::Err(RoppErrorView::EmptyStep)
                || exists|j: int|
                0 <= j < i && !self.steps().dom().contains(self.build_list()[j].0)
                    && self.validation() == Result::<(), RoppErrorView>::Err(
                    RoppErrorView::StepsUnspecifiedForBuild(self.build_list()[j].0),
                ),
    {
        let k = self.lemma_least_fault(i);
        self.lemma_first_faulty(k);
    }

    /// Validation succeeds exactly where there is a build, and every build
    /// has steps of which none is empty.
    pub proof fn lemma_valid(&self)
        ensures
            self.validation() is Ok <==> self.build_list().len() > 0 && forall|i: int|
                0 <= i < self.build_list().len() ==> {
                    &&& self.steps().dom().contains(#[trigger] self.build_list()[i].0)
                    &&& !self.steps()[self.build_list()[i].0].has_empty_step()
                },
    {
        if self.build_list().len() > 0 {
            if exists|i: int| self.first_faulty(i) {
                let k = choose|i: int| self.first_faulty(i);
                assert(self.build_fault(k) is Some);
            } else {
                assert forall|i: int| 0 <= i < self.build_list().len() implies {
                    &&& self.steps().dom().contains(#[trigger] self.build_list()[i].0)
                    &&& !self.steps()[self.build_list()[i].0].has_empty_step()
                } by {
                    if self.build_fault(i) is Some {
                        let k = self.lemma_least_fault(i);
                    }
                }
            }
        }
    }

    /// The place of a build, where the build is listed.
    pub fn place_of(&self, build: &str) -> (place: Option<PlaceId>)
        ensures
            place is Some <==> self.builds().dom().contains(build@),
            place matches Some(place_id) ==> place_id == self.builds()[build@],
    {
        proof {
            use_type_invariant(self);
        }
        let name = String::from_str(build);
        match position(&self.builds, &name) {
            Some(i) => {
                proof {
                    assert(self.build_list()[i as int].0 == build@);
                    lemma_mapping_entry(self.build_list(), i as int);
                }
                Some(self.builds[i].1)
            },
            None => {
                proof {
                    if lists_name(self.build_list(), build@) {
                        let k = choose|k: int|
                            0 <= k < self.build_list().len() && (
                            #[trigger] self.build_list()[k]).0 == build@;
                        assert(self.builds@[k].0@ == build@);
                    }
                }
                None
            },
        }
    }

    /// The steps listed under a name, where there are any.
    pub fn steps_of(&self, build: &str) -> (steps: Option<&Steps>)
        ensures
            steps is Some <==> self.steps().dom().contains(build@),
            steps matches Some(listed) ==> *listed == self.steps()[build@],
    {
        proof {
            use_type_invariant(self);
        }
        let name = String::from_str(build);
        match position(&self.steps, &name) {
            Some(j) => {
                proof {
                    assert(self.steps_list()[j as int].0 == build@);
                    lemma_mapping_entry(self.steps_list(), j as int);
                }
                Some(&self.steps[j].1)
            },
            None => {
                proof {
                    if lists_name(self.steps_list(), build@) {
                        let k = choose|k: int|
                            0 <= k < self.steps_list().len() && (
                            #[trigger] self.steps_list()[k]).0 == build@;
                        assert(self.steps@[k].0@ == build@);
                    }
                }
                None
            },
        }
    }

    /// The place and the steps of a build: given exactly for a name that is
    /// listed among the builds and has steps.
    pub fn build_info(&self, build: &str) -> (info: Option<(PlaceId, &Steps)>)
        ensures
            info is Some <==> self.builds().dom().contains(build@) && self.steps().dom().contains(
                build@,
            ),
            info matches Some((place_id, steps)) ==> place_id == self.builds()[build@] && *steps
                == self.steps()[build@],
    {
        if let Some(place_id) = self.place_of(build) {
            if let Some(steps) = self.steps_of(build) {
                return Some((place_id, steps));
            }
        }
        None
    }

    /// The names of the builds, in the order in which they are listed.
    pub fn build_names(&self) -> (names: Vec<String>)
        ensures
            names@.len() == self.build_list().len(),
            forall|i: int| 0 <= i < names@.len() ==> (#[trigger] names@[i])@ == self.build_list()[i].0,
    {
        let mut names: Vec<String> = Vec::new();
        let mut i: usize = 0;
        while i < self.builds.len()
            invariant
                i <= self.builds@.len(),
                names@.len() == i,
                forall|j: int| 0 <= j < i ==> (#[trigger] names@[j])@ == self.builds@[j].0@,
            decreases self.builds@.len() - i,
        {
            names.push(self.builds[i].0.clone());
            i += 1;
        }
        names
    }

    /// The names under which steps are listed, in the order in which they
    /// are listed.
    pub fn steps_names(&self) -> (names: Vec<String>)
        ensures
            names@.len() == self.steps_list().len(),
            forall|i: int| 0 <= i < names@.len() ==> (#[trigger] names@[i])@ == self.steps_list()[i].0,
    {
        let mut names: Vec<String> = Vec::new();
        let mut i: usize = 0;
        while i < self.steps.len()
            invariant
                i <= self.steps@.len(),
                names@.len() == i,
                forall|j: int| 0 <= j < i ==> (#[trigger] names@[j])@ == self.steps@[j].0@,
            decreases self.steps@.len() - i,
        {
            names.push(self.steps[i].0.clone());
            i += 1;
        }
        names
    }
}

} // verus!
