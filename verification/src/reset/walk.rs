//! Measuring and removing what is below a path.
//!
//! One walk serves both, so that a measurement forecasts a removal exactly. A
//! link is an entry like a file: it is counted and unlinked, and never
//! followed.

use vstd::prelude::*;

use super::{ResetError, ensure_single_component, ensure_within, is_single, is_within};
use crate::ordered::{in_order, lemma_in_order, ordered_texts};
use crate::paths::{join_path, joined};
use crate::split::texts;

verus! {

/// What one measurement or removal covers.
#[derive(Clone, Copy, Debug, PartialEq, Eq, Structural)]
pub struct Footprint {
    pub entries: u64,
    pub bytes: u64,
}

pub open spec fn saturating(left: u64, right: u64) -> u64 {
    if left + right > u64::MAX {
        u64::MAX
    } else {
        (left + right) as u64
    }
}

pub open spec fn both(left: Footprint, right: Footprint) -> Footprint {
    Footprint {
        entries: saturating(left.entries, right.entries),
        bytes: saturating(left.bytes, right.bytes),
    }
}

impl Footprint {
    /// Nothing.
    pub fn none() -> (footprint: Footprint)
        ensures
            footprint == (Footprint { entries: 0, bytes: 0 }),
    {
        Footprint { entries: 0, bytes: 0 }
    }

    /// Both together.
    pub fn plus(self, other: Footprint) -> (total: Footprint)
        ensures
            total == both(self, other),
    {
        Footprint {
            entries: self.entries.saturating_add(other.entries),
            bytes: self.bytes.saturating_add(other.bytes),
        }
    }
}

/// What the file system answers.
pub enum WalkEvent {
    /// There is nothing at the path.
    Missing,
    /// A file or a link of this size.
    File { bytes: u64 },
    Directory,
    /// The names in a directory.
    Children(Vec<String>),
    Removed,
    /// What was asked for failed, for this reason.
    Failed(String),
}

/// What to ask of the file system next, or how the walk ended.
pub enum WalkStep {
    /// Look at a path, without following a link.
    Inspect(String),
    List(String),
    RemoveFile(String),
    RemoveDirectory(String),
    Finish(Footprint),
    Fail(ResetError),
    Ignore,
}

/// A directory that the walk is in.
struct Frame {
    path: String,
    children: Vec<String>,
    next: usize,
}

enum Stage {
    Inspecting(String),
    Listing(String),
    RemovingFile { path: String, bytes: u64 },
    RemovingDirectory(String),
    Done,
}

/// A walk below a path.
pub struct Walk {
    root: String,
    removes: bool,
    /// The walk is through the root itself, which stays.
    keeps: bool,
    frames: Vec<Frame>,
    stage: Stage,
    total: Footprint,
}

// The walk in the abstract

/// What the file system answers.
pub ghost enum Answer {
    Missing,
    File { bytes: u64 },
    Directory,
    Children(Seq<Seq<char>>),
    Removed,
    Failed(Seq<char>),
}

pub open spec fn answer_of(event: WalkEvent) -> Answer {
    match event {
        WalkEvent::Missing => Answer::Missing,
        WalkEvent::File { bytes } => Answer::File { bytes },
        WalkEvent::Directory => Answer::Directory,
        WalkEvent::Children(names) => Answer::Children(texts(names@)),
        WalkEvent::Removed => Answer::Removed,
        WalkEvent::Failed(reason) => Answer::Failed(reason@),
    }
}

/// What is asked next, or how the walk ended.
pub ghost enum Ask {
    Inspect(Seq<char>),
    List(Seq<char>),
    RemoveFile(Seq<char>),
    RemoveDirectory(Seq<char>),
    Finish(Footprint),
    Outside(Seq<char>),
    Failure { path: Seq<char>, reason: Seq<char> },
    Ignore,
}

pub open spec fn asks(step: WalkStep, ask: Ask) -> bool {
    match (step, ask) {
        (WalkStep::Inspect(path), Ask::Inspect(expected)) => path@ == expected,
        (WalkStep::List(path), Ask::List(expected)) => path@ == expected,
        (WalkStep::RemoveFile(path), Ask::RemoveFile(expected)) => path@ == expected,
        (WalkStep::RemoveDirectory(path), Ask::RemoveDirectory(expected)) => path@ == expected,
        (WalkStep::Finish(total), Ask::Finish(expected)) => total == expected,
        (WalkStep::Fail(ResetError::OutsideRoot(path)), Ask::Outside(expected)) => path@
            == expected,
        (
            WalkStep::Fail(ResetError::Filesystem { path, reason }),
            Ask::Failure { path: expected, reason: cause },
        ) => path@ == expected && reason@ == cause,
        (WalkStep::Ignore, Ask::Ignore) => true,
        _ => false,
    }
}

pub ghost struct FrameView {
    pub path: Seq<char>,
    pub children: Seq<Seq<char>>,
    pub next: int,
}

pub ghost enum StageView {
    Inspecting(Seq<char>),
    Listing(Seq<char>),
    RemovingFile { path: Seq<char>, bytes: u64 },
    RemovingDirectory(Seq<char>),
    Done,
}

pub ghost struct WalkView {
    pub root: Seq<char>,
    pub removes: bool,
    /// The walk is through the root itself, which stays.
    pub keeps: bool,
    /// The directories that the walk is in, the innermost last.
    pub frames: Seq<FrameView>,
    pub stage: StageView,
    pub total: Footprint,
}

/// Goes to a path, if it is inside the root.
pub open spec fn visiting(walk: WalkView, path: Seq<char>) -> (WalkView, Ask) {
    if is_within(walk.root, path) {
        (WalkView { stage: StageView::Inspecting(path), ..walk }, Ask::Inspect(path))
    } else {
        (WalkView { stage: StageView::Done, ..walk }, Ask::Outside(path))
    }
}

/// The walk out of its innermost directory.
pub open spec fn leaving(walk: WalkView) -> WalkView {
    WalkView {
        frames: if walk.frames.len() == 0 {
            walk.frames
        } else {
            walk.frames.drop_last()
        },
        ..walk
    }
}

/// The walk is at the root that it keeps.
pub open spec fn at_kept_root(walk: WalkView) -> bool {
    walk.keeps && walk.frames.len() == 0
}

/// Goes on after an entry: to the next one of the innermost directory, or out
/// of it.
pub open spec fn advancing(walk: WalkView) -> (WalkView, Ask)
    decreases walk.frames.len(),
{
    if walk.frames.len() == 0 {
        (WalkView { stage: StageView::Done, ..walk }, Ask::Finish(walk.total))
    } else {
        let frame = walk.frames.last();
        if 0 <= frame.next < frame.children.len() {
            let entered = WalkView {
                frames: walk.frames.drop_last().push(FrameView { next: frame.next + 1, ..frame }),
                ..walk
            };
            visiting(entered, joined(frame.path, frame.children[frame.next]))
        } else if walk.removes && !at_kept_root(leaving(walk)) {
            (
                WalkView { stage: StageView::RemovingDirectory(frame.path), ..walk },
                Ask::RemoveDirectory(frame.path),
            )
        } else {
            advancing(leaving(walk))
        }
    }
}

/// The first of `names` that is not a single component, if there is one.
pub open spec fn first_odd_name(names: Seq<Seq<char>>, from: int) -> Option<int>
    decreases names.len() - from,
{
    if from >= names.len() {
        None
    } else if !is_single(names[from]) {
        Some(from)
    } else {
        first_odd_name(names, from + 1)
    }
}

/// The walk with one more entry counted.
pub open spec fn counting(walk: WalkView, bytes: u64) -> WalkView {
    WalkView { total: both(walk.total, Footprint { entries: 1, bytes }), ..walk }
}

/// The walk in a directory, whose entries it takes in lexicographic order. The
/// directory itself is counted, unless it is the root that stays.
pub open spec fn entering(walk: WalkView, path: Seq<char>, names: Seq<Seq<char>>) -> WalkView {
    let entered = if at_kept_root(walk) {
        walk
    } else {
        counting(walk, 0)
    };
    WalkView {
        frames: walk.frames.push(FrameView { path, children: in_order(names), next: 0 }),
        ..entered
    }
}

pub open spec fn failing(walk: WalkView, path: Seq<char>, reason: Seq<char>) -> (WalkView, Ask) {
    (WalkView { stage: StageView::Done, ..walk }, Ask::Failure { path, reason })
}

/// The rule of a walk.
pub open spec fn walking(walk: WalkView, answer: Answer) -> (WalkView, Ask) {
    match (walk.stage, answer) {
        (StageView::Inspecting(_), Answer::Missing) => advancing(walk),
        (StageView::Inspecting(path), Answer::File { bytes }) => if at_kept_root(walk) {
            (WalkView { stage: StageView::Listing(path), ..walk }, Ask::List(path))
        } else if walk.removes {
            (
                WalkView { stage: StageView::RemovingFile { path, bytes }, ..walk },
                Ask::RemoveFile(path),
            )
        } else {
            advancing(counting(walk, bytes))
        },
        (StageView::Inspecting(path), Answer::Directory) => (
            WalkView { stage: StageView::Listing(path), ..walk },
            Ask::List(path),
        ),
        (StageView::Listing(path), Answer::Children(names)) => match first_odd_name(names, 0) {
            Some(at) => (
                WalkView { stage: StageView::Done, ..walk },
                Ask::Outside(joined(path, names[at])),
            ),
            None => advancing(entering(walk, path, names)),
        },
        (StageView::RemovingFile { bytes, .. }, Answer::Removed) => advancing(
            counting(walk, bytes),
        ),
        (StageView::RemovingDirectory(_), Answer::Removed) => advancing(leaving(walk)),
        (StageView::Inspecting(path), Answer::Failed(reason)) => failing(walk, path, reason),
        (StageView::Listing(path), Answer::Failed(reason)) => failing(walk, path, reason),
        (StageView::RemovingFile { path, .. }, Answer::Failed(reason)) => failing(
            walk,
            path,
            reason,
        ),
        (StageView::RemovingDirectory(path), Answer::Failed(reason)) => failing(walk, path, reason),
        _ => (walk, Ask::Ignore),
    }
}

/// The start of a walk.
pub open spec fn starting(root: Seq<char>, target: Seq<char>, removes: bool) -> (WalkView, Ask) {
    visiting(
        WalkView {
            root,
            removes,
            keeps: false,
            frames: seq![],
            stage: StageView::Done,
            total: Footprint { entries: 0, bytes: 0 },
        },
        target,
    )
}

/// The start of a walk that empties its root.
pub open spec fn emptying(root: Seq<char>) -> (WalkView, Ask) {
    (
        WalkView {
            root,
            removes: true,
            keeps: true,
            frames: seq![],
            stage: StageView::Inspecting(root),
            total: Footprint { entries: 0, bytes: 0 },
        },
        Ask::Inspect(root),
    )
}

// The walk itself

spec fn frame_view(frame: Frame) -> FrameView {
    FrameView {
        path: frame.path@,
        children: texts(frame.children@),
        next: frame.next as int,
    }
}

spec fn frame_views(frames: Seq<Frame>) -> Seq<FrameView> {
    Seq::new(frames.len(), |i: int| frame_view(frames[i]))
}

spec fn stage_view(stage: Stage) -> StageView {
    match stage {
        Stage::Inspecting(path) => StageView::Inspecting(path@),
        Stage::Listing(path) => StageView::Listing(path@),
        Stage::RemovingFile { path, bytes } => StageView::RemovingFile { path: path@, bytes },
        Stage::RemovingDirectory(path) => StageView::RemovingDirectory(path@),
        Stage::Done => StageView::Done,
    }
}

impl View for Walk {
    type V = WalkView;

    closed spec fn view(&self) -> WalkView {
        WalkView {
            root: self.root@,
            removes: self.removes,
            keeps: self.keeps,
            frames: frame_views(self.frames@),
            stage: stage_view(self.stage),
            total: self.total,
        }
    }
}

impl Walk {
    /// Starts to measure what is at `target` and below it.
    pub fn measure(root: &str, target: &str) -> (started: (Walk, WalkStep))
        ensures
            started.0@ == starting(root@, target@, false).0,
            asks(started.1, starting(root@, target@, false).1),
    {
        Walk::start(root, target, false)
    }

    /// Starts to remove what is at `target` and below it.
    pub fn remove(root: &str, target: &str) -> (started: (Walk, WalkStep))
        ensures
            started.0@ == starting(root@, target@, true).0,
            asks(started.1, starting(root@, target@, true).1),
    {
        Walk::start(root, target, true)
    }

    /// Starts to remove everything below `root`, which stays.
    pub fn empty(root: &str) -> (started: (Walk, WalkStep))
        ensures
            started.0@ == emptying(root@).0,
            asks(started.1, emptying(root@).1),
    {
        let walk = Walk {
            root: root.to_owned(),
            removes: true,
            keeps: true,
            frames: Vec::new(),
            stage: Stage::Inspecting(root.to_owned()),
            total: Footprint::none(),
        };
        assert(walk@.frames =~= seq![]);
        (walk, WalkStep::Inspect(root.to_owned()))
    }

    fn start(root: &str, target: &str, removes: bool) -> (started: (Walk, WalkStep))
        ensures
            started.0@ == starting(root@, target@, removes).0,
            asks(started.1, starting(root@, target@, removes).1),
    {
        let mut walk = Walk {
            root: root.to_owned(),
            removes,
            keeps: false,
            frames: Vec::new(),
            stage: Stage::Done,
            total: Footprint::none(),
        };
        assert(walk@.frames =~= seq![]);
        let step = walk.visit(target.to_owned());
        (walk, step)
    }

    fn visit(&mut self, path: String) -> (step: WalkStep)
        ensures
            final(self)@ == visiting(old(self)@, path@).0,
            asks(step, visiting(old(self)@, path@).1),
    {
        match ensure_within(self.root.as_str(), path.as_str()) {
            Ok(_) => {
                let copy = path.clone();
                self.stage = Stage::Inspecting(path);
                WalkStep::Inspect(copy)
            },
            Err(error) => {
                self.stage = Stage::Done;
                WalkStep::Fail(error)
            },
        }
    }

    fn advance(&mut self) -> (step: WalkStep)
        ensures
            final(self)@ == advancing(old(self)@).0,
            asks(step, advancing(old(self)@).1),
        decreases old(self)@.frames.len(),
    {
        let ghost before = self@;
        let count = self.frames.len();
        if count == 0 {
            self.stage = Stage::Done;
            return WalkStep::Finish(self.total);
        }
        assert(before.frames.last() == frame_view(self.frames@[count - 1]));
        let frame = &self.frames[count - 1];
        let path = frame.path.clone();
        let next: usize = frame.next;
        if next < frame.children.len() {
            let child = join_path(frame.path.as_str(), frame.children[next].as_str());
            assert(texts(frame.children@)[next as int] == frame.children@[next as int]@);
            match self.frames.pop() {
                Some(top) => {
                    self.frames.push(Frame { next: next + 1, ..top });
                },
                None => {},
            }
            assert(self@.frames =~= before.frames.drop_last().push(
                FrameView { next: next + 1, ..before.frames.last() },
            ));
            self.visit(child)
        } else if self.removes && !(self.keeps && count == 1) {
            let copy = path.clone();
            self.stage = Stage::RemovingDirectory(path);
            WalkStep::RemoveDirectory(copy)
        } else {
            let _ = self.frames.pop();
            assert(self@.frames =~= before.frames.drop_last());
            self.advance()
        }
    }

    fn count(&mut self, bytes: u64)
        ensures
            final(self)@ == counting(old(self)@, bytes),
    {
        self.total = self.total.plus(Footprint { entries: 1, bytes });
    }

    fn fail(&mut self, path: String, reason: String) -> (step: WalkStep)
        ensures
            final(self)@ == failing(old(self)@, path@, reason@).0,
            asks(step, failing(old(self)@, path@, reason@).1),
    {
        self.stage = Stage::Done;
        WalkStep::Fail(ResetError::Filesystem { path, reason })
    }

    /// Goes on with what the file system answered.
    pub fn step(&mut self, event: WalkEvent) -> (step: WalkStep)
        ensures
            final(self)@ == walking(old(self)@, answer_of(event)).0,
            asks(step, walking(old(self)@, answer_of(event)).1),
    {
        let ghost before = self@;
        let (inspecting, listing, file, directory) = match &self.stage {
            Stage::Inspecting(path) => (Some(path.clone()), None, None, None),
            Stage::Listing(path) => (None, Some(path.clone()), None, None),
            Stage::RemovingFile { path, bytes } => (None, None, Some((path.clone(), *bytes)), None),
            Stage::RemovingDirectory(path) => (None, None, None, Some(path.clone())),
            Stage::Done => return WalkStep::Ignore,
        };
        if let Some(path) = inspecting {
            return match event {
                WalkEvent::Missing => self.advance(),
                WalkEvent::File { bytes } => {
                    if self.keeps && self.frames.len() == 0 {
                        let copy = path.clone();
                        self.stage = Stage::Listing(path);
                        WalkStep::List(copy)
                    } else if self.removes {
                        let copy = path.clone();
                        self.stage = Stage::RemovingFile { path, bytes };
                        WalkStep::RemoveFile(copy)
                    } else {
                        self.count(bytes);
                        self.advance()
                    }
                },
                WalkEvent::Directory => {
                    let copy = path.clone();
                    self.stage = Stage::Listing(path);
                    WalkStep::List(copy)
                },
                WalkEvent::Failed(reason) => self.fail(path, reason),
                _ => WalkStep::Ignore,
            };
        }
        if let Some(path) = listing {
            return match event {
                WalkEvent::Children(names) => self.enter(path, names),
                WalkEvent::Failed(reason) => self.fail(path, reason),
                _ => WalkStep::Ignore,
            };
        }
        if let Some((path, bytes)) = file {
            return match event {
                WalkEvent::Removed => {
                    self.count(bytes);
                    self.advance()
                },
                WalkEvent::Failed(reason) => self.fail(path, reason),
                _ => WalkStep::Ignore,
            };
        }
        match (directory, event) {
            (Some(_), WalkEvent::Removed) => {
                let _ = self.frames.pop();
                assert(self@.frames =~= leaving(before).frames);
                self.advance()
            },
            (Some(path), WalkEvent::Failed(reason)) => self.fail(path, reason),
            _ => WalkStep::Ignore,
        }
    }

    fn enter(&mut self, path: String, names: Vec<String>) -> (step: WalkStep)
        requires
            old(self)@.stage == StageView::Listing(path@),
        ensures
            final(self)@ == walking(old(self)@, Answer::Children(texts(names@))).0,
            asks(step, walking(old(self)@, Answer::Children(texts(names@))).1),
    {
        let ghost before = self@;
        let mut index: usize = 0;
        while index < names.len()
            invariant
                index <= names@.len(),
                first_odd_name(texts(names@), 0) == first_odd_name(texts(names@), index as int),
                self@ == before,
                before == old(self)@,
                before.stage == StageView::Listing(path@),
            decreases names@.len() - index,
        {
            let child = join_path(path.as_str(), names[index].as_str());
            assert(texts(names@)[index as int] == names@[index as int]@);
            match ensure_single_component(names[index].as_str(), child.as_str()) {
                Ok(_) => {},
                Err(error) => {
                    self.stage = Stage::Done;
                    return WalkStep::Fail(error);
                },
            }
            index = index + 1;
        }
        if !(self.keeps && self.frames.len() == 0) {
            self.count(0);
        }
        let ghost counted = self@;
        let children = ordered_texts(&names);
        proof {
            lemma_in_order(texts(children@), texts(names@));
        }
        self.frames.push(Frame { path, children, next: 0 });
        assert(self@.frames =~= counted.frames.push(
            FrameView { path: path@, children: texts(children@), next: 0 },
        ));
        self.advance()
    }
}

// Laws

/// Every path that a walk is at is inside its root; one that empties its root
/// also looks at the root itself.
pub open spec fn stays_within(walk: WalkView) -> bool {
    &&& frames_within(walk)
    &&& match walk.stage {
        StageView::Inspecting(path) => is_within(walk.root, path) || (at_kept_root(walk) && path
            == walk.root),
        StageView::Listing(path) => is_within(walk.root, path) || (at_kept_root(walk) && path
            == walk.root),
        StageView::RemovingFile { path, .. } => is_within(walk.root, path),
        StageView::RemovingDirectory(path) => is_within(walk.root, path),
        StageView::Done => true,
    }
}

/// The directories that the walk is in are inside its root, but for the one
/// that it keeps.
pub open spec fn frames_within(walk: WalkView) -> bool {
    forall|i: int|
        0 <= i < walk.frames.len() ==> is_within(walk.root, (#[trigger] walk.frames[i]).path) || (
        walk.keeps && i == 0)
}

/// The path that is asked about is inside the root of the walk. What is only
/// looked at may be a root that stays.
pub open spec fn asks_within(walk: WalkView, ask: Ask) -> bool {
    match ask {
        Ask::Inspect(path) => is_within(walk.root, path) || (walk.keeps && path == walk.root),
        Ask::List(path) => is_within(walk.root, path) || (walk.keeps && path == walk.root),
        Ask::RemoveFile(path) => is_within(walk.root, path),
        Ask::RemoveDirectory(path) => is_within(walk.root, path),
        _ => true,
    }
}

proof fn lemma_advancing_stays(walk: WalkView)
    requires
        frames_within(walk),
    ensures
        advancing(walk).0.root == walk.root,
        advancing(walk).0.keeps == walk.keeps,
        stays_within(advancing(walk).0),
        asks_within(advancing(walk).0, advancing(walk).1),
    decreases walk.frames.len(),
{
    if walk.frames.len() > 0 {
        let frame = walk.frames.last();
        if 0 <= frame.next < frame.children.len() {
        } else if walk.removes && !at_kept_root(leaving(walk)) {
        } else {
            lemma_advancing_stays(leaving(walk));
        }
    }
}

/// The state of a walk after `answers`, and what it asks.
pub open spec fn walked(start: (WalkView, Ask), answers: Seq<Answer>) -> (WalkView, Ask)
    decreases answers.len(),
{
    if answers.len() == 0 {
        start
    } else {
        walking(walked(start, answers.drop_last()).0, answers.last())
    }
}

proof fn lemma_walk_stays(start: (WalkView, Ask), answers: Seq<Answer>)
    requires
        stays_within(start.0),
        asks_within(start.0, start.1),
    ensures
        walked(start, answers).0.root == start.0.root,
        walked(start, answers).0.keeps == start.0.keeps,
        stays_within(walked(start, answers).0),
        asks_within(walked(start, answers).0, walked(start, answers).1),
    decreases answers.len(),
{
    if answers.len() > 0 {
        let before = answers.drop_last();
        lemma_walk_stays(start, before);
        let walk = walked(start, before).0;
        match (walk.stage, answers.last()) {
            (StageView::Inspecting(_), Answer::Missing) => lemma_advancing_stays(walk),
            (StageView::Inspecting(_), Answer::File { bytes }) => lemma_advancing_stays(
                counting(walk, bytes),
            ),
            (StageView::Listing(path), Answer::Children(names)) => lemma_advancing_stays(
                entering(walk, path, names),
            ),
            (StageView::RemovingFile { bytes, .. }, Answer::Removed) => lemma_advancing_stays(
                counting(walk, bytes),
            ),
            (StageView::RemovingDirectory(_), Answer::Removed) => lemma_advancing_stays(
                leaving(walk),
            ),
            _ => {},
        }
    }
}

/// Whatever the file system answers, a walk looks at, lists and removes only
/// what is strictly inside its root.
pub proof fn law_walks_stay_within(
    root: Seq<char>,
    target: Seq<char>,
    removes: bool,
    answers: Seq<Answer>,
)
    ensures
        ({
            let (walk, ask) = walked(starting(root, target, removes), answers);
            &&& walk.root == root && !walk.keeps
            &&& stays_within(walk)
            &&& asks_within(walk, ask)
        }),
{
    lemma_walk_stays(starting(root, target, removes), answers);
}

/// Whatever the file system answers, a walk that empties its root never removes
/// the root, nor anything that is not strictly inside it.
pub proof fn law_emptied_roots_stay(root: Seq<char>, answers: Seq<Answer>)
    ensures
        ({
            let (walk, ask) = walked(emptying(root), answers);
            &&& walk.root == root
            &&& stays_within(walk)
            &&& asks_within(walk, ask)
            &&& ask matches Ask::RemoveFile(path) ==> is_within(root, path)
            &&& ask matches Ask::RemoveDirectory(path) ==> is_within(root, path)
        }),
{
    lemma_walk_stays(emptying(root), answers);
}

/// A path that is not strictly inside the root is refused, and nothing is asked
/// of the file system, whatever it says.
pub proof fn law_outside_is_refused(
    root: Seq<char>,
    target: Seq<char>,
    removes: bool,
    answers: Seq<Answer>,
)
    requires
        !is_within(root, target),
    ensures
        starting(root, target, removes).1 == Ask::Outside(target),
        walked(starting(root, target, removes), answers).0.stage is Done,
        answers.len() > 0 ==> walked(starting(root, target, removes), answers).1 == Ask::Ignore,
    decreases answers.len(),
{
    if answers.len() > 0 {
        law_outside_is_refused(root, target, removes, answers.drop_last());
    }
}

/// A measuring walk never asks for a removal.
pub proof fn law_measurements_change_nothing(
    root: Seq<char>,
    target: Seq<char>,
    answers: Seq<Answer>,
)
    ensures
        !walked(starting(root, target, false), answers).0.removes,
        !walked(starting(root, target, false), answers).0.keeps,
        !(walked(starting(root, target, false), answers).1 is RemoveFile),
        !(walked(starting(root, target, false), answers).1 is RemoveDirectory),
        !(walked(starting(root, target, false), answers).0.stage is RemovingFile),
        !(walked(starting(root, target, false), answers).0.stage is RemovingDirectory),
    decreases answers.len(),
{
    if answers.len() > 0 {
        law_measurements_change_nothing(root, target, answers.drop_last());
        let walk = walked(starting(root, target, false), answers.drop_last()).0;
        match (walk.stage, answers.last()) {
            (StageView::Inspecting(_), Answer::Missing) => lemma_measuring_advance(walk),
            (StageView::Inspecting(_), Answer::File { bytes }) => lemma_measuring_advance(
                counting(walk, bytes),
            ),
            (StageView::Listing(path), Answer::Children(names)) => lemma_measuring_advance(
                entering(walk, path, names),
            ),
            _ => {},
        }
    }
}

proof fn lemma_measuring_advance(walk: WalkView)
    requires
        !walk.removes,
        !walk.keeps,
    ensures
        !advancing(walk).0.removes,
        !advancing(walk).0.keeps,
        !(advancing(walk).1 is RemoveFile),
        !(advancing(walk).1 is RemoveDirectory),
        !(advancing(walk).0.stage is RemovingFile),
        !(advancing(walk).0.stage is RemovingDirectory),
    decreases walk.frames.len(),
{
    if walk.frames.len() > 0 {
        let frame = walk.frames.last();
        if !(0 <= frame.next < frame.children.len()) {
            lemma_measuring_advance(leaving(walk));
        }
    }
}

/// A walk on which every removal that it asks for succeeds, up to the next
/// question about what is there.
pub open spec fn settled(walk: WalkView, ask: Ask) -> (WalkView, Ask)
    decreases walk.frames.len(), (if walk.stage is RemovingFile {
        1int
    } else {
        0
    }),
{
    match walk.stage {
        StageView::RemovingFile { bytes, .. } => {
            let next = advancing(counting(walk, bytes));
            if next.0.stage is RemovingFile || next.0.frames.len() > walk.frames.len() {
                next
            } else {
                settled(next.0, next.1)
            }
        },
        StageView::RemovingDirectory(_) => if walk.frames.len() == 0 {
            (walk, ask)
        } else {
            let next = advancing(leaving(walk));
            if next.0.frames.len() >= walk.frames.len() {
                next
            } else {
                settled(next.0, next.1)
            }
        },
        _ => (walk, ask),
    }
}

proof fn lemma_advancing_shrinks(walk: WalkView)
    ensures
        advancing(walk).0.frames.len() <= walk.frames.len(),
        !(advancing(walk).0.stage is RemovingFile),
        advancing(walk).0.stage is RemovingDirectory ==> advancing(walk).0.frames.len() > 0,
    decreases walk.frames.len(),
{
    if walk.frames.len() > 0 {
        let frame = walk.frames.last();
        if 0 <= frame.next < frame.children.len() || (walk.removes && !at_kept_root(leaving(walk))) {
        } else {
            lemma_advancing_shrinks(leaving(walk));
        }
    }
}

/// The same walk, for removal.
pub open spec fn as_removal(walk: WalkView) -> WalkView {
    WalkView { removes: true, ..walk }
}

proof fn lemma_removal_advance_settles(walk: WalkView)
    requires
        !walk.removes,
        !walk.keeps,
    ensures
        ({
            let removing = advancing(as_removal(walk));
            let measuring = advancing(walk);
            settled(removing.0, removing.1) == (as_removal(measuring.0), measuring.1)
        }),
    decreases walk.frames.len(),
{
    let removing = advancing(as_removal(walk));
    if walk.frames.len() > 0 {
        let frame = walk.frames.last();
        if 0 <= frame.next < frame.children.len() {
        } else {
            let outer = leaving(walk);
            lemma_removal_advance_settles(outer);
            let next = advancing(leaving(removing.0));
            lemma_advancing_shrinks(
                leaving(removing.0),
            );
            lemma_advancing_ignores_stage(
                as_removal(outer),
                leaving(removing.0),
            );
            assert(settled(removing.0, removing.1) == settled(next.0, next.1));
        }
    }
}

/// Where a walk goes on to does not depend on the entry that it leaves.
pub proof fn lemma_advancing_ignores_stage(walk: WalkView, other: WalkView)
    requires
        other == (WalkView { stage: other.stage, ..walk }),
    ensures
        advancing(walk) == advancing(other),
    decreases walk.frames.len(),
{
    if walk.frames.len() > 0 {
        let frame = walk.frames.last();
        if 0 <= frame.next < frame.children.len() || (walk.removes && !at_kept_root(leaving(walk))) {
        } else {
            lemma_advancing_ignores_stage(
                leaving(walk),
                leaving(other),
            );
        }
    }
}

/// The state of a removing walk after `answers` to what it asks about the
/// entries, when every removal in between succeeds.
pub open spec fn removed_along(root: Seq<char>, target: Seq<char>, answers: Seq<Answer>) -> (
    WalkView,
    Ask,
)
    decreases answers.len(),
{
    if answers.len() == 0 {
        starting(root, target, true)
    } else {
        let next = walking(
            removed_along(root, target, answers.drop_last()).0,
            answers.last(),
        );
        settled(next.0, next.1)
    }
}

/// None of the answers is about a removal.
pub open spec fn about_entries(answers: Seq<Answer>) -> bool {
    forall|i: int| 0 <= i < answers.len() ==> !(#[trigger] answers[i] is Removed)
}

/// A measurement forecasts a removal: on the same entries, when every removal
/// succeeds, both walks ask about the same paths and end with the same
/// footprint.
pub proof fn law_measurements_forecast_removals(
    root: Seq<char>,
    target: Seq<char>,
    answers: Seq<Answer>,
)
    requires
        about_entries(answers),
    ensures
        removed_along(root, target, answers).1 == walked(starting(root, target, false), answers).1,
        removed_along(root, target, answers).0 == as_removal(
            walked(starting(root, target, false), answers).0,
        ),
    decreases answers.len(),
{
    if answers.len() > 0 {
        let before = answers.drop_last();
        assert forall|i: int| 0 <= i < before.len() implies !(#[trigger] before[i] is Removed) by {
            assert(before[i] == answers[i]);
        }
        law_measurements_forecast_removals(root, target, before);
        law_measurements_change_nothing(root, target, before);
        let measuring = walked(starting(root, target, false), before).0;
        let removing = removed_along(root, target, before).0;
        let answer = answers.last();
        assert(answers[answers.len() - 1] == answer);
        match (measuring.stage, answer) {
            (StageView::Inspecting(_), Answer::Missing) => {
                lemma_removal_advance_settles(measuring);
            },
            (StageView::Inspecting(path), Answer::File { bytes }) => {
                let counted = counting(measuring, bytes);
                lemma_removal_advance_settles(counted);
                let deleting = WalkView {
                    stage: StageView::RemovingFile { path, bytes },
                    ..removing
                };
                lemma_advancing_shrinks(counting(deleting, bytes));
                lemma_advancing_ignores_stage(as_removal(counted), counting(deleting, bytes));
            },
            (StageView::Listing(path), Answer::Children(names)) => {
                lemma_removal_advance_settles(entering(measuring, path, names));
            },
            _ => {},
        }
    }
}

// Walks, told by what the file system answered

/// The answer can come of what was asked.
pub open spec fn walk_fits(ask: Ask, answer: Answer) -> bool {
    match ask {
        Ask::Inspect(_) => answer is Missing || answer is File || answer is Directory
            || answer is Failed,
        Ask::List(_) => answer is Children || answer is Failed,
        Ask::RemoveFile(_) | Ask::RemoveDirectory(_) => answer is Removed || answer is Failed,
        _ => false,
    }
}

/// Every one of `answers` came of what was asked before it.
pub open spec fn walk_told(start: (WalkView, Ask), answers: Seq<Answer>) -> bool
    decreases answers.len(),
{
    answers.len() == 0 || {
        &&& walk_told(start, answers.drop_last())
        &&& walk_fits(walked(start, answers.drop_last()).1, answers.last())
    }
}

spec fn walk_waits(walk: WalkView, ask: Ask) -> bool {
    match walk.stage {
        StageView::Inspecting(path) => ask == Ask::Inspect(path),
        StageView::Listing(path) => ask == Ask::List(path),
        StageView::RemovingFile { path, .. } => ask == Ask::RemoveFile(path),
        StageView::RemovingDirectory(path) => ask == Ask::RemoveDirectory(path),
        StageView::Done => ask is Finish || ask is Outside || ask is Failure,
    }
}

proof fn lemma_advancing_waits(walk: WalkView)
    ensures
        walk_waits(advancing(walk).0, advancing(walk).1),
        !(advancing(walk).1 is Failure),
        !(advancing(walk).1 is List),
        !(advancing(walk).1 is RemoveFile),
        advancing(walk).1 is RemoveDirectory ==> walk.removes,
    decreases walk.frames.len(),
{
    if walk.frames.len() > 0 {
        lemma_advancing_waits(leaving(walk));
    }
}

proof fn lemma_walk_told(start: (WalkView, Ask), answers: Seq<Answer>)
    requires
        walk_waits(start.0, start.1),
        walk_told(start, answers),
    ensures
        walk_waits(walked(start, answers).0, walked(start, answers).1),
    decreases answers.len(),
{
    if answers.len() > 0 {
        let before = answers.drop_last();
        lemma_walk_told(start, before);
        let walk = walked(start, before).0;
        lemma_advancing_steps(walk, answers.last());
    }
}

proof fn lemma_advancing_steps(walk: WalkView, answer: Answer)
    ensures
        walk_waits(advancing(walk).0, advancing(walk).1),
        walk_waits(advancing(leaving(walk)).0, advancing(leaving(walk)).1),
        walk.stage matches StageView::RemovingFile { bytes, .. } ==> walk_waits(
            advancing(counting(walk, bytes)).0,
            advancing(counting(walk, bytes)).1,
        ),
        answer matches Answer::File { bytes } ==> walk_waits(
            advancing(counting(walk, bytes)).0,
            advancing(counting(walk, bytes)).1,
        ),
        walk.stage matches StageView::Listing(path) ==> (answer matches Answer::Children(names)
            ==> walk_waits(
            advancing(entering(walk, path, names)).0,
            advancing(entering(walk, path, names)).1,
        )),
{
    lemma_advancing_waits(walk);
    lemma_advancing_waits(leaving(walk));
    if let StageView::RemovingFile { bytes, .. } = walk.stage {
        lemma_advancing_waits(counting(walk, bytes));
    }
    if let Answer::File { bytes } = answer {
        lemma_advancing_waits(counting(walk, bytes));
    }
    if let StageView::Listing(path) = walk.stage {
        if let Answer::Children(names) = answer {
            lemma_advancing_waits(entering(walk, path, names));
        }
    }
}

/// A walk fails exactly where the file system did, at the path that it asked
/// about and for the reason that it was given. A directory is listed and a
/// file removed only right after it was seen to be one, and nothing is passed
/// over.
pub proof fn law_walks_fail_where_the_file_system_did(
    root: Seq<char>,
    target: Seq<char>,
    removes: bool,
    answers: Seq<Answer>,
)
    requires
        answers.len() > 0,
        walk_told(starting(root, target, removes), answers),
    ensures
        ({
            let start = starting(root, target, removes);
            let asked = walked(start, answers.drop_last()).1;
            let next = walked(start, answers).1;
            let last = answers.last();
            &&& next is Failure <==> last is Failed
            &&& next matches Ask::Failure { path, reason } ==> last == Answer::Failed(reason) && (
            asked == Ask::Inspect(path) || asked == Ask::List(path) || asked == Ask::RemoveFile(
                path,
            ) || asked == Ask::RemoveDirectory(path))
            &&& next is List <==> last is Directory
            &&& next matches Ask::List(path) ==> asked == Ask::Inspect(path)
            &&& next is RemoveFile ==> last is File
            &&& next matches Ask::RemoveFile(path) ==> asked == Ask::Inspect(path)
            &&& next != Ask::Ignore
        }),
{
    let start = starting(root, target, removes);
    let before = answers.drop_last();
    lemma_walk_told(start, before);
    lemma_walk_told(start, answers);
    let walk = walked(start, before).0;
    let last = answers.last();
    lemma_keeps_nothing(root, target, removes, before);
    lemma_advancing_waits(walk);
    lemma_advancing_waits(leaving(walk));
    match (walk.stage, last) {
        (StageView::RemovingFile { bytes, .. }, _) => lemma_advancing_waits(counting(walk, bytes)),
        (_, Answer::File { bytes }) => lemma_advancing_waits(counting(walk, bytes)),
        (StageView::Listing(path), Answer::Children(names)) => lemma_advancing_waits(
            entering(walk, path, names),
        ),
        _ => {},
    }
}

proof fn lemma_advancing_keeps(walk: WalkView)
    ensures
        advancing(walk).0.keeps == walk.keeps,
    decreases walk.frames.len(),
{
    if walk.frames.len() > 0 {
        lemma_advancing_keeps(leaving(walk));
    }
}

proof fn lemma_keeps_nothing(
    root: Seq<char>,
    target: Seq<char>,
    removes: bool,
    answers: Seq<Answer>,
)
    ensures
        !walked(starting(root, target, removes), answers).0.keeps,
    decreases answers.len(),
{
    if answers.len() > 0 {
        let before = answers.drop_last();
        lemma_keeps_nothing(root, target, removes, before);
        let walk = walked(starting(root, target, removes), before).0;
        let last = answers.last();
        lemma_advancing_keeps(walk);
        lemma_advancing_keeps(leaving(walk));
        match (walk.stage, last) {
            (StageView::RemovingFile { bytes, .. }, _) => lemma_advancing_keeps(
                counting(walk, bytes),
            ),
            (_, Answer::File { bytes }) => lemma_advancing_keeps(counting(walk, bytes)),
            (StageView::Listing(path), Answer::Children(names)) => lemma_advancing_keeps(
                entering(walk, path, names),
            ),
            _ => {},
        }
    }
}

} // verus!
