//! Core task model: priority, status, and the nested task tree.
use vstd::prelude::*;
use crate::date::{Date, opt_day};
use crate::text::{chars_of, contains_str, has_substring, lowercase, string_of, to_lowercase};

verus! {

#[derive(Clone, Copy, PartialEq, Eq, Debug, Hash, Structural)]
pub enum Priority {
    Low,
    Medium,
    High,
}

/// The priority after `p` in the cycle Low → Medium → High → Low.
pub open spec fn priority_next(p: Priority) -> Priority {
    match p {
        Priority::Low => Priority::Medium,
        Priority::Medium => Priority::High,
        Priority::High => Priority::Low,
    }
}

/// The priority before `p` in that cycle.
pub open spec fn priority_prev(p: Priority) -> Priority {
    match p {
        Priority::High => Priority::Medium,
        Priority::Medium => Priority::Low,
        Priority::Low => Priority::High,
    }
}

impl Priority {
    pub fn cycle(&self) -> (r: Self)
        ensures
            r == priority_next(*self),
    {
        match self {
            Priority::Low => Priority::Medium,
            Priority::Medium => Priority::High,
            Priority::High => Priority::Low,
        }
    }

    pub fn cycle_back(&self) -> (r: Self)
        ensures
            r == priority_prev(*self),
    {
        match self {
            Priority::High => Priority::Medium,
            Priority::Medium => Priority::Low,
            Priority::Low => Priority::High,
        }
    }

    pub fn as_str(&self) -> (r: &'static str)
        ensures
            r@ == match *self {
                Priority::Low => "LOW"@,
                Priority::Medium => "MED"@,
                Priority::High => "HIGH"@,
            },
    {
        match self {
            Priority::Low => "LOW",
            Priority::Medium => "MED",
            Priority::High => "HIGH",
        }
    }
}

#[derive(Clone, Copy, PartialEq, Eq, Debug, Hash, Structural)]
pub enum Status {
    Todo,
    Doing,
    Done,
    Blocked,
}

/// The status after `s` in the cycle Todo → Doing → Done → Blocked → Todo.
pub open spec fn status_next(s: Status) -> Status {
    match s {
        Status::Todo => Status::Doing,
        Status::Doing => Status::Done,
        Status::Done => Status::Blocked,
        Status::Blocked => Status::Todo,
    }
}

/// The status before `s` in that cycle.
pub open spec fn status_prev(s: Status) -> Status {
    match s {
        Status::Blocked => Status::Done,
        Status::Done => Status::Doing,
        Status::Doing => Status::Todo,
        Status::Todo => Status::Blocked,
    }
}

impl Status {
    pub fn cycle(&self) -> (r: Self)
        ensures
            r == status_next(*self),
    {
        match self {
            Status::Todo => Status::Doing,
            Status::Doing => Status::Done,
            Status::Done => Status::Blocked,
            Status::Blocked => Status::Todo,
        }
    }

    pub fn cycle_back(&self) -> (r: Self)
        ensures
            r == status_prev(*self),
    {
        match self {
            Status::Blocked => Status::Done,
            Status::Done => Status::Doing,
            Status::Doing => Status::Todo,
            Status::Todo => Status::Blocked,
        }
    }

    pub fn as_str(&self) -> (r: &'static str)
        ensures
            r@ == match *self {
                Status::Todo => "TODO"@,
                Status::Doing => "DOING"@,
                Status::Done => "DONE"@,
                Status::Blocked => "BLOCK"@,
            },
    {
        match self {
            Status::Todo => "TODO",
            Status::Doing => "DOING",
            Status::Done => "DONE",
            Status::Blocked => "BLOCK",
        }
    }

    pub fn symbol(&self) -> (r: &'static str)
        ensures
            r@ == match *self {
                Status::Todo => "☐"@,
                Status::Doing => "◐"@,
                Status::Done => "✔"@,
                Status::Blocked => "✖"@,
            },
    {
        match self {
            Status::Todo => "☐",
            Status::Doing => "◐",
            Status::Done => "✔",
            Status::Blocked => "✖",
        }
    }
}

#[derive(Debug)]
pub struct Task {
    pub id: u64,
    pub title: String,
    pub desc: String,
    pub priority: Priority,
    pub status: Status,
    pub due: Option<Date>,
    pub tags: Vec<String>,
    pub children: Vec<Task>,
}

/// The mathematical value of a task and its subtree.
pub struct TaskView {
    pub id: u64,
    pub title: Seq<char>,
    pub desc: Seq<char>,
    pub priority: Priority,
    pub status: Status,
    pub due: Option<int>,
    pub tags: Seq<Seq<char>>,
    pub children: Seq<TaskView>,
}

/// The texts of a list of strings.
pub open spec fn strings_view(v: Seq<String>) -> Seq<Seq<char>> {
    Seq::new(v.len(), |i: int| v[i]@)
}

pub open spec fn task_view(t: Task) -> TaskView
    decreases t,
{
    TaskView {
        id: t.id,
        title: t.title@,
        desc: t.desc@,
        priority: t.priority,
        status: t.status,
        due: opt_day(t.due),
        tags: strings_view(t.tags@),
        children: Seq::new(
            t.children@.len(),
            |i: int|
                if 0 <= i < t.children@.len() {
                    task_view(t.children@[i])
                } else {
                    arbitrary()
                },
        ),
    }
}

impl View for Task {
    type V = TaskView;

    open spec fn view(&self) -> TaskView {
        task_view(*self)
    }
}

/// The values of a list of tasks.
pub open spec fn forest_view(s: Seq<Task>) -> Seq<TaskView> {
    Seq::new(s.len(), |i: int| s[i]@)
}

pub proof fn lemma_children_view(t: Task)
    ensures
        forest_view(t.children@) == t@.children,
{
    assert(forest_view(t.children@) =~= t@.children);
}

/// Whether `query` occurs in the lower-cased `hay` (an empty query always does).
pub open spec fn contains_insensitive_spec(hay: Seq<char>, query: Seq<char>) -> bool {
    query.len() == 0 || has_substring(lowercase(hay), query)
}

/// Whether the task's own title, description or one of its tags holds `query`
/// (which the caller has lower-cased) when lower-cased.
pub open spec fn task_matches(t: TaskView, query: Seq<char>) -> bool {
    ||| query.len() == 0
    ||| contains_insensitive_spec(t.title, query)
    ||| contains_insensitive_spec(t.desc, query)
    ||| exists|i: int| 0 <= i < t.tags.len() && contains_insensitive_spec(#[trigger] t.tags[i], query)
}

/// Whether the task or some task below it matches `query`.
pub open spec fn tree_has_match(t: TaskView, query: Seq<char>) -> bool
    decreases t,
{
    task_matches(t, query) || forest_has_match(t.children, query)
}

/// Whether some task in the list, or below one of them, matches `query`.
pub open spec fn forest_has_match(s: Seq<TaskView>, query: Seq<char>) -> bool
    decreases s,
{
    if s.len() == 0 {
        false
    } else {
        forest_has_match(s.drop_last(), query) || tree_has_match(s.last(), query)
    }
}

/// A list has a match when one of its trees does.
pub proof fn lemma_forest_match_elem(s: Seq<TaskView>, i: int, q: Seq<char>)
    requires
        0 <= i < s.len(),
        tree_has_match(s[i], q),
    ensures
        forest_has_match(s, q),
    decreases s.len(),
{
    if i < s.len() - 1 {
        lemma_forest_match_elem(s.drop_last(), i, q);
    }
}

impl Task {
    pub fn new(id: u64, title: &str) -> (t: Self)
        ensures
            t@ == (TaskView {
                id,
                title: title@,
                desc: Seq::empty(),
                priority: Priority::Medium,
                status: Status::Todo,
                due: None,
                tags: Seq::empty(),
                children: Seq::empty(),
            }),
    {
        let t = Task {
            id,
            title: title.to_owned(),
            desc: String::new(),
            priority: Priority::Medium,
            status: Status::Todo,
            due: None,
            tags: Vec::new(),
            children: Vec::new(),
        };
        assert(t@.tags =~= Seq::<Seq<char>>::empty());
        assert(t@.children =~= Seq::<TaskView>::empty());
        t
    }

    /// A copy of the task and its whole subtree.
    pub fn deep_copy(&self) -> (r: Task)
        ensures
            r@ == self@,
        decreases self,
    {
        let mut tags: Vec<String> = Vec::new();
        let mut i: usize = 0;
        while i < self.tags.len()
            invariant
                i <= self.tags@.len(),
                tags@.len() == i,
                strings_view(tags@) == strings_view(self.tags@).take(i as int),
            decreases self.tags@.len() - i,
        {
            let ghost before = tags@;
            let t = self.tags[i].clone();
            assert(t@ == self.tags@[i as int]@);
            tags.push(t);
            assert(tags@ == before.push(t));
            assert(strings_view(tags@)[i as int] == strings_view(self.tags@)[i as int]);
            i += 1;
            assert(strings_view(tags@) =~= strings_view(self.tags@).take(i as int));
        }
        assert(strings_view(self.tags@).take(i as int) =~= strings_view(self.tags@));
        let mut children: Vec<Task> = Vec::new();
        let mut j: usize = 0;
        while j < self.children.len()
            invariant
                j <= self.children@.len(),
                children@.len() == j,
                forest_view(children@) == forest_view(self.children@).take(j as int),
            decreases self.children@.len() - j,
        {
            assert(decreases_to!(self => self.children));
            let c = self.children[j].deep_copy();
            let ghost before = children@;
            children.push(c);
            assert(children@ == before.push(c));
            assert(forest_view(children@)[j as int] == forest_view(self.children@)[j as int]);
            assert(forall|k: int| 0 <= k < j ==> forest_view(children@)[k] == forest_view(before)[k]);
            j += 1;
            assert(forest_view(children@) =~= forest_view(self.children@).take(j as int));
        }
        assert(forest_view(self.children@).take(j as int) =~= forest_view(self.children@));
        let r = Task {
            id: self.id,
            title: self.title.clone(),
            desc: self.desc.clone(),
            priority: self.priority,
            status: self.status,
            due: self.due,
            tags,
            children,
        };
        proof {
            lemma_children_view(r);
            lemma_children_view(*self);
        }
        r
    }

    /// Whether the title, the description or a tag holds `query_lower` once lower-cased.
    pub fn matches_search(&self, query_lower: &str) -> (r: bool)
        ensures
            r == task_matches(self@, query_lower@),
    {
        if query_lower.is_empty() {
            return true;
        }
        if contains_insensitive(self.title.as_str(), query_lower) {
            return true;
        }
        if contains_insensitive(self.desc.as_str(), query_lower) {
            return true;
        }
        let mut i: usize = 0;
        while i < self.tags.len()
            invariant
                i <= self.tags@.len(),
                query_lower@.len() > 0,
                forall|k: int|
                    0 <= k < i ==> !contains_insensitive_spec(
                        #[trigger] strings_view(self.tags@)[k],
                        query_lower@,
                    ),
            decreases self.tags@.len() - i,
        {
            if contains_insensitive(self.tags[i].as_str(), query_lower) {
                assert(contains_insensitive_spec(self@.tags[i as int], query_lower@));
                return true;
            }
            i += 1;
        }
        false
    }

    pub fn has_matching_descendant(&self, query_lower: &str) -> (r: bool)
        ensures
            r == tree_has_match(self@, query_lower@),
        decreases self,
    {
        if self.matches_search(query_lower) {
            return true;
        }
        let mut i: usize = 0;
        while i < self.children.len()
            invariant
                i <= self.children@.len(),
                !forest_has_match(self@.children.take(i as int), query_lower@),
            decreases self.children@.len() - i,
        {
            proof {
                lemma_children_view(*self);
                assert(self@.children.take(i + 1).drop_last() =~= self@.children.take(i as int));
            }
            assert(decreases_to!(self => self.children));
            if self.children[i].has_matching_descendant(query_lower) {
                proof {
                    lemma_forest_match_elem(self@.children, i as int, query_lower@);
                }
                return true;
            }
            i += 1;
        }
        proof {
            assert(self@.children.take(i as int) =~= self@.children);
        }
        false
    }
}

/// `haystack.to_lowercase().contains(needle_lower)`, true for an empty needle.
pub fn contains_insensitive(haystack: &str, needle_lower: &str) -> (r: bool)
    ensures
        r == contains_insensitive_spec(haystack@, needle_lower@),
{
    if needle_lower.is_empty() {
        return true;
    }
    let low = to_lowercase(haystack);
    contains_str(low.as_str(), needle_lower)
}

} // verus!
