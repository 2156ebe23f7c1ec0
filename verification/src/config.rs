//! The store of versions that are accepted for each task.
//!
//! One task, `gitversion`, is special: each of its accepted states is a pair
//! of a setup version and an execute version. Every other task is known by
//! its name alone and has a flat list of accepted versions. The names of
//! those tasks are lowercased once, when the store is loaded.

use vstd::prelude::*;
use crate::text::{lowercase, lowercase_of, str_eq};

verus! {

/// One accepted state of the special task.
#[derive(Debug, Clone)]
pub struct GitVersionState {
    pub setup_version: String,
    pub execute_version: String,
}

/// The mathematical value of a `GitVersionState`.
pub struct GitVersionModel {
    pub setup_version: Seq<char>,
    pub execute_version: Seq<char>,
}

impl View for GitVersionState {
    type V = GitVersionModel;

    open spec fn view(&self) -> GitVersionModel {
        GitVersionModel {
            setup_version: self.setup_version@,
            execute_version: self.execute_version@,
        }
    }
}

/// A task: the special one, or any other by its name.
#[derive(Debug, Clone)]
pub enum SupportedTask {
    Gitversion,
    Default(String),
}

/// The mathematical value of a `SupportedTask`.
pub enum TaskModel {
    Gitversion,
    Default(Seq<char>),
}

impl View for SupportedTask {
    type V = TaskModel;

    open spec fn view(&self) -> TaskModel {
        match self {
            SupportedTask::Gitversion => TaskModel::Gitversion,
            SupportedTask::Default(name) => TaskModel::Default(name@),
        }
    }
}

/// One accepted state of a task.
#[derive(Debug, Clone)]
pub enum TaskValidState {
    Gitversion(GitVersionState),
    Default(String),
}

/// The mathematical value of a `TaskValidState`.
pub enum ValidStateModel {
    Gitversion(GitVersionModel),
    Default(Seq<char>),
}

impl View for TaskValidState {
    type V = ValidStateModel;

    open spec fn view(&self) -> ValidStateModel {
        match self {
            TaskValidState::Gitversion(state) => ValidStateModel::Gitversion(state@),
            TaskValidState::Default(version) => ValidStateModel::Default(version@),
        }
    }
}

/// The accepted versions of one task that is known by its name.
#[derive(Debug, Clone)]
pub struct TaskVersions {
    pub name: String,
    pub versions: Vec<String>,
}

/// The mathematical value of a `TaskVersions`.
pub struct TaskVersionsModel {
    pub name: Seq<char>,
    pub versions: Seq<Seq<char>>,
}

impl View for TaskVersions {
    type V = TaskVersionsModel;

    open spec fn view(&self) -> TaskVersionsModel {
        TaskVersionsModel { name: self.name@, versions: texts(self.versions@) }
    }
}

/// The accepted states of all tasks. `other_tasks` is a mapping from task
/// name to versions, kept as a list in the order of the document; where a
/// name stands twice, the later entry is the one that counts.
#[derive(Debug, Clone)]
pub struct TaskStates {
    pub gitversion: Vec<GitVersionState>,
    pub other_tasks: Vec<TaskVersions>,
}

/// The mathematical value of `TaskStates`, and of a `Config`.
pub struct TaskStatesModel {
    pub gitversion: Seq<GitVersionModel>,
    pub other_tasks: Seq<TaskVersionsModel>,
}

impl View for TaskStates {
    type V = TaskStatesModel;

    open spec fn view(&self) -> TaskStatesModel {
        TaskStatesModel {
            gitversion: pairs(self.gitversion@),
            other_tasks: entries(self.other_tasks@),
        }
    }
}

/// The configuration: the store of accepted task states.
#[derive(Debug)]
pub struct Config {
    pub task_states: TaskStates,
}

impl View for Config {
    type V = TaskStatesModel;

    open spec fn view(&self) -> TaskStatesModel {
        self.task_states@
    }
}

/// The strings of a list, each as its sequence of characters.
pub open spec fn texts(v: Seq<String>) -> Seq<Seq<char>> {
    Seq::new(v.len(), |i: int| v[i]@)
}

/// The states of a list, each as its model.
pub open spec fn pairs(v: Seq<GitVersionState>) -> Seq<GitVersionModel> {
    Seq::new(v.len(), |i: int| v[i]@)
}

/// The entries of a list, each as its model.
pub open spec fn entries(v: Seq<TaskVersions>) -> Seq<TaskVersionsModel> {
    Seq::new(v.len(), |i: int| v[i]@)
}

/// The states of a list, each as its model.
pub open spec fn states(v: Seq<TaskValidState>) -> Seq<ValidStateModel> {
    Seq::new(v.len(), |i: int| v[i]@)
}

/// The tasks of a list, each as its model.
pub open spec fn tasks(v: Seq<SupportedTask>) -> Seq<TaskModel> {
    Seq::new(v.len(), |i: int| v[i]@)
}

/// The name of the special task.
pub open spec fn special_task_name() -> Seq<char> {
    "gitversion"@
}

/// Some entry of `list` has the name `name`.
pub open spec fn has_task(list: Seq<TaskVersionsModel>, name: Seq<char>) -> bool {
    exists|i: int| 0 <= i < list.len() && (#[trigger] list[i]).name == name
}

/// Entry `i` of `list` has the name `name`, and no later entry has it.
pub open spec fn is_last_named(list: Seq<TaskVersionsModel>, name: Seq<char>, i: int) -> bool {
    &&& 0 <= i < list.len()
    &&& list[i].name == name
    &&& forall|j: int| i < j < list.len() ==> (#[trigger] list[j]).name != name
}

/// No two entries of `list` share a name.
pub open spec fn distinct_names(list: Seq<TaskVersionsModel>) -> bool {
    forall|i: int, j: int|
        0 <= i < j < list.len() ==> (#[trigger] list[i]).name != (#[trigger] list[j]).name
}

/// The versions listed for `name`: those of the last entry with that name,
/// `None` where no entry has it.
pub open spec fn versions_of(list: Seq<TaskVersionsModel>, name: Seq<char>) -> Option<
    Seq<Seq<char>>,
> {
    if has_task(list, name) {
        Some(list[choose|i: int| is_last_named(list, name, i)].versions)
    } else {
        None
    }
}

/// The entries with each name replaced by its lowercase form.
pub open spec fn lowered(list: Seq<TaskVersionsModel>) -> Seq<TaskVersionsModel> {
    Seq::new(
        list.len(),
        |i: int| TaskVersionsModel { name: lowercase_of(list[i].name), versions: list[i].versions },
    )
}

/// The entries without those whose name comes again later in the list, in
/// their order.
pub open spec fn keep_last(list: Seq<TaskVersionsModel>) -> Seq<TaskVersionsModel>
    decreases list.len(),
{
    if list.len() == 0 {
        Seq::empty()
    } else if has_task(list.drop_first(), list.first().name) {
        keep_last(list.drop_first())
    } else {
        seq![list.first()] + keep_last(list.drop_first())
    }
}

impl TaskStatesModel {
    /// The store as it is after loading: names lowercased, and of two
    /// entries that then share a name only the later one.
    pub open spec fn normalized(self) -> TaskStatesModel {
        TaskStatesModel {
            gitversion: self.gitversion,
            other_tasks: keep_last(lowered(self.other_tasks)),
        }
    }

    /// The accepted states of a task; none for a name that is not listed.
    pub open spec fn valid_states(self, task: TaskModel) -> Seq<ValidStateModel> {
        match task {
            TaskModel::Gitversion => Seq::new(
                self.gitversion.len(),
                |i: int| ValidStateModel::Gitversion(self.gitversion[i]),
            ),
            TaskModel::Default(name) => match versions_of(self.other_tasks, name) {
                Some(versions) => Seq::new(
                    versions.len(),
                    |i: int| ValidStateModel::Default(versions[i]),
                ),
                None => Seq::empty(),
            },
        }
    }

    /// All tasks: the special one first, then one for each entry, in order.
    pub open spec fn all_tasks(self) -> Seq<TaskModel> {
        Seq::new(
            self.other_tasks.len() + 1,
            |i: int|
                if i == 0 {
                    TaskModel::Gitversion
                } else {
                    TaskModel::Default(self.other_tasks[i - 1].name)
                },
        )
    }

    /// `version` is the setup or the execute version of some state of the
    /// special task, character for character.
    pub open spec fn accepts_special(self, version: Seq<char>) -> bool {
        exists|i: int|
            0 <= i < self.gitversion.len() && ((#[trigger] self.gitversion[i]).setup_version
                == version || self.gitversion[i].execute_version == version)
    }

    /// `version` stands, character for character, in the list of the task
    /// with exactly the name `task`.
    pub open spec fn accepts_named(self, task: Seq<char>, version: Seq<char>) -> bool {
        match versions_of(self.other_tasks, task) {
            Some(versions) => versions.contains(version),
            None => false,
        }
    }

    /// Whether `version` is accepted for the task called `task`, where
    /// `folded` is the lowercase form of `task`: a name that folds to the
    /// special task's name asks the special task; any other is looked up as
    /// it was given.
    pub open spec fn accepts_given(
        self,
        folded: Seq<char>,
        task: Seq<char>,
        version: Seq<char>,
    ) -> bool {
        if folded == special_task_name() {
            self.accepts_special(version)
        } else {
            self.accepts_named(task, version)
        }
    }

    /// Whether `version` is accepted for the task called `task`.
    pub open spec fn accepts(self, task: Seq<char>, version: Seq<char>) -> bool {
        self.accepts_given(lowercase_of(task), task, version)
    }
}

/// A copy of a list of strings.
pub fn clone_texts(v: &Vec<String>) -> (r: Vec<String>)
    ensures
        r@ == v@,
{
    let mut out: Vec<String> = Vec::new();
    let mut i: usize = 0;
    while i < v.len()
        invariant
            i <= v.len(),
            out@ == v@.subrange(0, i as int),
        decreases v.len() - i,
    {
        out.push(v[i].clone());
        assert(out@ =~= v@.subrange(0, i + 1));
        i = i + 1;
    }
    assert(v@.subrange(0, v.len() as int) =~= v@);
    out
}

/// Whether `text` is one of the strings of `v`.
pub fn contains_text(v: &Vec<String>, text: &str) -> (r: bool)
    ensures
        r == texts(v@).contains(text@),
{
    let mut i: usize = 0;
    while i < v.len()
        invariant
            i <= v.len(),
            forall|j: int| 0 <= j < i ==> v@[j]@ != text@,
        decreases v.len() - i,
    {
        if str_eq(v[i].as_str(), text) {
            assert(texts(v@)[i as int] == text@);
            return true;
        }
        i = i + 1;
    }
    false
}

/// The index of the last entry from index `from` on that is named `name`.
pub fn find_task_from(list: &Vec<TaskVersions>, name: &str, from: usize) -> (r: Option<usize>)
    ensures
        match r {
            Some(i) => from <= i && is_last_named(entries(list@), name@, i as int),
            None => forall|j: int| from <= j < list.len() ==> list@[j].name@ != name@,
        },
{
    let mut found: Option<usize> = None;
    let mut i: usize = from;
    while i < list.len()
        invariant
            from <= i,
            match found {
                Some(p) => from <= p < i && p < list.len() && list@[p as int].name@ == name@
                    && forall|j: int| p < j < i && j < list.len() ==> list@[j].name@ != name@,
                None => forall|j: int| from <= j < i && j < list.len() ==> list@[j].name@ != name@,
            },
        decreases list.len() - i,
    {
        if str_eq(list[i].name.as_str(), name) {
            found = Some(i);
        }
        i = i + 1;
    }
    found
}

/// The entries with each name replaced by its lowercase form.
pub fn lowercase_names(list: &Vec<TaskVersions>) -> (r: Vec<TaskVersions>)
    ensures
        entries(r@) == lowered(entries(list@)),
{
    let mut out: Vec<TaskVersions> = Vec::new();
    let mut i: usize = 0;
    while i < list.len()
        invariant
            i <= list.len(),
            out.len() == i,
            forall|j: int|
                0 <= j < i ==> (#[trigger] out@[j])@ == lowered(entries(list@))[j],
        decreases list.len() - i,
    {
        let name = lowercase(list[i].name.as_str());
        let versions = clone_texts(&list[i].versions);
        out.push(TaskVersions { name, versions });
        i = i + 1;
    }
    assert(entries(out@) =~= lowered(entries(list@)));
    out
}

/// Drops every entry whose name comes again later in the list.
pub fn merge_duplicates(list: &Vec<TaskVersions>) -> (r: Vec<TaskVersions>)
    ensures
        entries(r@) == keep_last(entries(list@)),
{
    let ghost all = entries(list@);
    let mut out: Vec<TaskVersions> = Vec::new();
    let mut i: usize = 0;
    proof {
        assert(all.subrange(0, all.len() as int) =~= all);
        assert(entries(out@) + keep_last(all) =~= keep_last(all));
    }
    while i < list.len()
        invariant
            i <= list.len(),
            all == entries(list@),
            entries(out@) + keep_last(all.subrange(i as int, all.len() as int)) == keep_last(all),
        decreases list.len() - i,
    {
        let ghost rest = all.subrange(i as int, all.len() as int);
        let ghost tail = all.subrange(i + 1, all.len() as int);
        let ghost before = entries(out@);
        let later = find_task_from(list, list[i].name.as_str(), i + 1);
        proof {
            assert(rest.drop_first() =~= tail);
            assert(rest.first() == all[i as int]);
            if later.is_some() {
                let p = later.unwrap() as int;
                assert(tail[p - i - 1].name == rest.first().name);
                assert(has_task(tail, rest.first().name));
            } else {
                assert forall|j: int| 0 <= j < tail.len() implies (#[trigger] tail[j]).name
                    != rest.first().name by {
                    assert(tail[j] == all[j + i + 1]);
                }
                assert(!has_task(tail, rest.first().name));
            }
        }
        if later.is_none() {
            let name = list[i].name.clone();
            let versions = clone_texts(&list[i].versions);
            out.push(TaskVersions { name, versions });
            proof {
                assert(entries(out@) =~= before + seq![rest.first()]);
                assert(entries(out@) + keep_last(tail) =~= before + keep_last(rest));
            }
        }
        i = i + 1;
    }
    assert(entries(out@) + keep_last(all.subrange(all.len() as int, all.len() as int)) =~= entries(
        out@,
    ));
    out
}

impl Config {
    /// Makes the store from task states as they were read: every name is
    /// lowercased, and where two names then collide the later entry stays.
    pub fn load(raw: TaskStates) -> (config: Config)
        ensures
            config@ == raw@.normalized(),
            distinct_names(config@.other_tasks),
    {
        let mut config = Config { task_states: raw };
        config.normalize_task_names();
        config
    }

    /// Lowercases the names of the tasks; of two entries that then share a
    /// name only the later one stays. The special task is left as it is.
    pub fn normalize_task_names(&mut self)
        ensures
            final(self)@ == old(self)@.normalized(),
            distinct_names(final(self)@.other_tasks),
    {
        let folded = lowercase_names(&self.task_states.other_tasks);
        let merged = merge_duplicates(&folded);
        proof {
            lemma_keep_last_distinct(entries(folded@));
        }
        self.task_states.other_tasks = merged;
    }

    /// The accepted states of `task`, in their order. A name that is not
    /// listed has none.
    pub fn get_valid_states(&self, task: &SupportedTask) -> (r: Vec<TaskValidState>)
        ensures
            states(r@) == self@.valid_states(task@),
            task@ matches TaskModel::Default(name) && !has_task(self@.other_tasks, name)
                ==> r@.len() == 0,
    {
        let mut out: Vec<TaskValidState> = Vec::new();
        match task {
            SupportedTask::Gitversion => {
                let list = &self.task_states.gitversion;
                let mut i: usize = 0;
                while i < list.len()
                    invariant
                        i <= list.len(),
                        out.len() == i,
                        forall|j: int|
                            0 <= j < i ==> (#[trigger] out@[j])@ == ValidStateModel::Gitversion(
                                list@[j]@,
                            ),
                    decreases list.len() - i,
                {
                    let state = GitVersionState {
                        setup_version: list[i].setup_version.clone(),
                        execute_version: list[i].execute_version.clone(),
                    };
                    out.push(TaskValidState::Gitversion(state));
                    i = i + 1;
                }
                assert(states(out@) =~= self@.valid_states(task@));
            },
            SupportedTask::Default(name) => {
                match find_task_from(&self.task_states.other_tasks, name.as_str(), 0) {
                    Some(p) => {
                        proof {
                            lemma_last_named_unique(self@.other_tasks, name@, p as int);
                        }
                        let list = &self.task_states.other_tasks[p].versions;
                        let mut i: usize = 0;
                        while i < list.len()
                            invariant
                                i <= list.len(),
                                out.len() == i,
                                forall|j: int|
                                    0 <= j < i ==> (#[trigger] out@[j])@
                                        == ValidStateModel::Default(list@[j]@),
                            decreases list.len() - i,
                        {
                            out.push(TaskValidState::Default(list[i].clone()));
                            i = i + 1;
                        }
                        assert(states(out@) =~= self@.valid_states(task@));
                    },
                    None => {
                        assert(states(out@) =~= self@.valid_states(task@));
                    },
                }
            },
        }
        out
    }

    /// All tasks of the store: the special task, then one task for each
    /// entry of `other_tasks`, in order.
    pub fn get_all_tasks(&self) -> (r: Vec<SupportedTask>)
        ensures
            tasks(r@) == self@.all_tasks(),
            r@.len() == 1 + self@.other_tasks.len(),
            r@[0] == SupportedTask::Gitversion,
            forall|i: int| 1 <= i < r@.len() ==> (#[trigger] r@[i]) != SupportedTask::Gitversion,
    {
        let list = &self.task_states.other_tasks;
        let mut out: Vec<SupportedTask> = Vec::new();
        out.push(SupportedTask::Gitversion);
        let mut i: usize = 0;
        while i < list.len()
            invariant
                i <= list.len(),
                out.len() == i + 1,
                out@[0] == SupportedTask::Gitversion,
                forall|j: int|
                    1 <= j <= i ==> (#[trigger] out@[j])@ == TaskModel::Default(list@[j - 1].name@),
            decreases list.len() - i,
        {
            out.push(SupportedTask::Default(list[i].name.clone()));
            i = i + 1;
        }
        assert(tasks(out@) =~= self@.all_tasks());
        out
    }

    /// Whether `version` is accepted for the task called `task`, given the
    /// lowercase form of `task` in `folded`.
    pub fn is_valid_version_given(&self, folded: &str, task: &str, version: &str) -> (r: bool)
        ensures
            r == self@.accepts_given(folded@, task@, version@),
    {
        if str_eq(folded, "gitversion") {
            let list = &self.task_states.gitversion;
            let mut i: usize = 0;
            while i < list.len()
                invariant
                    i <= list.len(),
                    *list == self.task_states.gitversion,
                    folded@ == special_task_name(),
                    forall|j: int|
                        0 <= j < i ==> list@[j].setup_version@ != version@
                            && list@[j].execute_version@ != version@,
                decreases list.len() - i,
            {
                if str_eq(version, list[i].setup_version.as_str()) || str_eq(
                    version,
                    list[i].execute_version.as_str(),
                ) {
                    assert(self@.gitversion[i as int] == list@[i as int]@);
                    return true;
                }
                i = i + 1;
            }
            false
        } else {
            match find_task_from(&self.task_states.other_tasks, task, 0) {
                Some(p) => {
                    proof {
                        lemma_last_named_unique(self@.other_tasks, task@, p as int);
                    }
                    contains_text(&self.task_states.other_tasks[p].versions, version)
                },
                None => false,
            }
        }
    }

    /// Whether `version` is accepted for the task called `task`. A name
    /// that is `gitversion` in any mix of cases asks the special task;
    /// any other name is looked up exactly as given. Versions are compared
    /// character for character.
    pub fn is_valid_version(&self, task: &str, version: &str) -> (r: bool)
        ensures
            r == self@.accepts(task@, version@),
    {
        let folded = lowercase(task);
        self.is_valid_version_given(folded.as_str(), task, version)
    }
}

/// The last entry with a name is the one that `versions_of` reads.
pub proof fn lemma_last_named_unique(list: Seq<TaskVersionsModel>, name: Seq<char>, p: int)
    requires
        is_last_named(list, name, p),
    ensures
        has_task(list, name),
        versions_of(list, name) == Some(list[p].versions),
{
    let q = choose|i: int| is_last_named(list, name, i);
    assert(is_last_named(list, name, q));
    if p < q {
        assert(list[q].name == name);
    } else if q < p {
        assert(list[p].name == name);
    }
}

/// A name is in a list if it is the first entry's or in the rest.
pub proof fn lemma_has_task_split(list: Seq<TaskVersionsModel>, name: Seq<char>)
    requires
        list.len() > 0,
    ensures
        has_task(list, name) <==> (list.first().name == name || has_task(
            list.drop_first(),
            name,
        )),
{
    let rest = list.drop_first();
    if has_task(list, name) {
        let i = choose|i: int| 0 <= i < list.len() && (#[trigger] list[i]).name == name;
        if i > 0 {
            assert(rest[i - 1] == list[i]);
        }
    }
    if list.first().name == name {
        assert(list[0].name == name);
    }
    if has_task(rest, name) {
        let i = choose|i: int| 0 <= i < rest.len() && (#[trigger] rest[i]).name == name;
        assert(list[i + 1] == rest[i]);
    }
}

/// Where a name is in a list, some entry is the last with that name.
pub proof fn lemma_last_named_exists(list: Seq<TaskVersionsModel>, name: Seq<char>)
    requires
        has_task(list, name),
    ensures
        exists|p: int| is_last_named(list, name, p),
    decreases list.len(),
{
    let n = list.len() as int;
    if list.last().name == name {
        assert(is_last_named(list, name, n - 1));
    } else {
        let front = list.drop_last();
        let i = choose|i: int| 0 <= i < list.len() && (#[trigger] list[i]).name == name;
        assert(front[i] == list[i]);
        lemma_last_named_exists(front, name);
        let p = choose|p: int| is_last_named(front, name, p);
        assert(list[p] == front[p]);
        assert forall|j: int| p < j < n implies (#[trigger] list[j]).name != name by {
            if j < n - 1 {
                assert(front[j] == list[j]);
            }
        }
        assert(is_last_named(list, name, p));
    }
}

/// Dropping the earlier of two entries with one name neither adds a name
/// nor loses one.
pub proof fn lemma_keep_last_names(list: Seq<TaskVersionsModel>, name: Seq<char>)
    ensures
        has_task(keep_last(list), name) <==> has_task(list, name),
    decreases list.len(),
{
    if list.len() > 0 {
        let head = list.first();
        let rest = list.drop_first();
        lemma_keep_last_names(rest, name);
        lemma_has_task_split(list, name);
        if !has_task(rest, head.name) {
            let out = seq![head] + keep_last(rest);
            assert(out.first() == head);
            assert(out.drop_first() =~= keep_last(rest));
            lemma_has_task_split(out, name);
        }
    }
}

/// After the earlier of two entries with one name is dropped, no name
/// stands twice.
pub proof fn lemma_keep_last_distinct(list: Seq<TaskVersionsModel>)
    ensures
        distinct_names(keep_last(list)),
    decreases list.len(),
{
    if list.len() > 0 {
        let head = list.first();
        let rest = list.drop_first();
        lemma_keep_last_distinct(rest);
        if !has_task(rest, head.name) {
            let kept = keep_last(rest);
            let out = seq![head] + kept;
            lemma_keep_last_names(rest, head.name);
            assert forall|i: int, j: int| 0 <= i < j < out.len() implies (#[trigger] out[i]).name
                != (#[trigger] out[j]).name by {
                assert(out[j] == kept[j - 1]);
                if i == 0 {
                    assert(out[0] == head);
                } else {
                    assert(out[i] == kept[i - 1]);
                }
            }
        }
    }
}

/// Dropping the earlier of two entries with one name leaves every lookup
/// as it was: the later entry is the one that counted.
pub proof fn lemma_keep_last_versions(list: Seq<TaskVersionsModel>, name: Seq<char>)
    ensures
        versions_of(keep_last(list), name) == versions_of(list, name),
    decreases list.len(),
{
    lemma_keep_last_names(list, name);
    if has_task(list, name) {
        let head = list.first();
        let rest = list.drop_first();
        let kept = keep_last(rest);
        lemma_keep_last_versions(rest, name);
        lemma_keep_last_names(rest, name);
        lemma_keep_last_names(rest, head.name);
        lemma_has_task_split(list, name);
        if has_task(rest, name) {
            lemma_last_named_exists(rest, name);
            let p = choose|p: int| is_last_named(rest, name, p);
            lemma_last_named_unique(rest, name, p);
            assert(list[p + 1] == rest[p]);
            assert forall|j: int| p + 1 < j < list.len() implies (#[trigger] list[j]).name
                != name by {
                assert(list[j] == rest[j - 1]);
            }
            lemma_last_named_unique(list, name, p + 1);
            if !has_task(rest, head.name) {
                let out = seq![head] + kept;
                lemma_last_named_exists(kept, name);
                let q = choose|q: int| is_last_named(kept, name, q);
                lemma_last_named_unique(kept, name, q);
                assert(out[q + 1] == kept[q]);
                assert forall|j: int| q + 1 < j < out.len() implies (#[trigger] out[j]).name
                    != name by {
                    assert(out[j] == kept[j - 1]);
                }
                lemma_last_named_unique(out, name, q + 1);
            }
        } else {
            let out = seq![head] + kept;
            assert forall|j: int| 0 < j < list.len() implies (#[trigger] list[j]).name != name by {
                assert(list[j] == rest[j - 1]);
            }
            lemma_last_named_unique(list, name, 0);
            assert(out[0] == head);
            assert forall|j: int| 0 < j < out.len() implies (#[trigger] out[j]).name != name by {
                assert(out[j] == kept[j - 1]);
            }
            lemma_last_named_unique(out, name, 0);
        }
    }
}

/// After loading, no two tasks of the store share a name.
pub proof fn normalized_names_are_distinct(store: TaskStatesModel)
    ensures
        distinct_names(store.normalized().other_tasks),
{
    lemma_keep_last_distinct(lowered(store.other_tasks));
}

/// After loading, a name is in the store exactly when it is the lowercase
/// form of a name that was read, and its versions are those of the last
/// entry that was read under a name with that lowercase form.
pub proof fn normalized_keeps_later_entry(store: TaskStatesModel, name: Seq<char>)
    ensures
        has_task(store.normalized().other_tasks, name) <==> exists|i: int|
            0 <= i < store.other_tasks.len() && lowercase_of(
                (#[trigger] store.other_tasks[i]).name,
            ) == name,
        versions_of(store.normalized().other_tasks, name) == versions_of(
            lowered(store.other_tasks),
            name,
        ),
{
    let low = lowered(store.other_tasks);
    lemma_keep_last_names(low, name);
    lemma_keep_last_versions(low, name);
    if has_task(low, name) {
        let i = choose|i: int| 0 <= i < low.len() && (#[trigger] low[i]).name == name;
        assert(lowercase_of(store.other_tasks[i].name) == name);
    }
    if exists|i: int|
        0 <= i < store.other_tasks.len() && lowercase_of((#[trigger] store.other_tasks[i]).name)
            == name {
        let i = choose|i: int|
            0 <= i < store.other_tasks.len() && lowercase_of(
                (#[trigger] store.other_tasks[i]).name,
            ) == name;
        assert(low[i].name == name);
    }
}

/// Loading keeps the states of the special task as they were read.
pub proof fn normalized_keeps_special_states(store: TaskStatesModel)
    ensures
        store.normalized().gitversion == store.gitversion,
        store.normalized().valid_states(TaskModel::Gitversion) == store.valid_states(
            TaskModel::Gitversion,
        ),
{
}

/// A task whose name is not in the store has no valid states.
pub proof fn unknown_task_has_no_states(store: TaskStatesModel, name: Seq<char>)
    ensures
        !has_task(store.other_tasks, name) ==> store.valid_states(TaskModel::Default(name)).len()
            == 0,
{
}

/// For a name that is `gitversion` up to case, a version is accepted
/// exactly when it is, character for character, the setup or the execute
/// version of some state of the special task.
pub proof fn special_task_accepts_exact_versions(
    store: TaskStatesModel,
    task: Seq<char>,
    version: Seq<char>,
)
    ensures
        lowercase_of(task) == special_task_name() ==> (store.accepts(task, version) <==> exists|
            i: int,
        |
            0 <= i < store.gitversion.len() && ((#[trigger] store.gitversion[i]).setup_version
                == version || store.gitversion[i].execute_version == version)),
{
}

/// The tasks of a store are one more than its named tasks, and the special
/// task stands among them exactly once, at the front.
pub proof fn all_tasks_hold_special_task_once(store: TaskStatesModel)
    ensures
        store.all_tasks().len() == 1 + store.other_tasks.len(),
        store.all_tasks()[0] == TaskModel::Gitversion,
        forall|i: int|
            1 <= i < store.all_tasks().len() ==> (#[trigger] store.all_tasks()[i])
                != TaskModel::Gitversion,
{
}

} // verus!
