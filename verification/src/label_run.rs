//! One request for labels: the labels are rendered one after the other, each is
//! printed where printing is on, and the picture of the last one is the answer.
use vstd::prelude::*;

use crate::err;
use crate::err::{CustomError, ErrorView, other_error};

verus! {

/// What a request waits for.
#[derive(PartialEq, Eq, Structural, Clone, Copy)]
pub enum Awaiting {
    /// The picture of a label.
    Capture,
    /// The end of a print.
    Print,
    /// Nothing: the request is answered.
    Nothing,
}

/// The state of a request.
pub struct LabelRun {
    /// The number of labels.
    pub total: usize,
    /// The number of labels that are finished.
    pub done: usize,
    /// Each label is printed.
    pub print: bool,
    /// The picture of the label rendered last.
    pub last: Option<Vec<u8>>,
    pub awaiting: Awaiting,
}

/// What is to be done next.
#[derive(Debug)]
pub enum Action {
    /// Render the label with this index.
    Capture(usize),
    /// Print the picture of the label rendered last.
    Print,
    /// Answer with this picture.
    Answer(Vec<u8>),
    /// Answer with this error.
    Fail(CustomError),
}

pub struct RunView {
    pub total: int,
    pub done: int,
    pub print: bool,
    pub last: Option<Seq<u8>>,
    pub awaiting: Awaiting,
}

pub enum ActionView {
    Capture(int),
    Print,
    Answer(Seq<u8>),
    Fail(ErrorView),
}

impl View for LabelRun {
    type V = RunView;

    open spec fn view(&self) -> RunView {
        RunView {
            total: self.total as int,
            done: self.done as int,
            print: self.print,
            last: match self.last {
                Some(image) => Some(image@),
                None => None,
            },
            awaiting: self.awaiting,
        }
    }
}

impl View for Action {
    type V = ActionView;

    open spec fn view(&self) -> ActionView {
        match *self {
            Action::Capture(i) => ActionView::Capture(i as int),
            Action::Print => ActionView::Print,
            Action::Answer(image) => ActionView::Answer(image@),
            Action::Fail(e) => ActionView::Fail(e@),
        }
    }
}

impl RunView {
    /// A request that waits for something has labels left, and holds the picture that
    /// it prints.
    pub open spec fn is_valid(self) -> bool {
        &&& 0 <= self.done <= self.total
        &&& self.awaiting != Awaiting::Nothing ==> self.done < self.total
        &&& self.awaiting == Awaiting::Print ==> self.print && self.last is Some
    }
}

/// The request with nothing left to wait for.
pub open spec fn ended(v: RunView) -> RunView {
    RunView { last: None, awaiting: Awaiting::Nothing, ..v }
}

/// A request of `total` labels at its start.
pub open spec fn started(total: int, print: bool) -> (RunView, ActionView) {
    let v = RunView { total, done: 0, print, last: None, awaiting: Awaiting::Capture };
    if total == 0 {
        (
            ended(v),
            ActionView::Fail(ErrorView::OtherLibraryError("no label data provided"@)),
        )
    } else {
        (v, ActionView::Capture(0))
    }
}

/// The request once the label that it waits for is finished.
pub open spec fn advanced(v: RunView, image: Seq<u8>) -> (RunView, ActionView) {
    let next = RunView { done: v.done + 1, ..v };
    if v.done + 1 < v.total {
        (
            RunView { last: Some(image), awaiting: Awaiting::Capture, ..next },
            ActionView::Capture(v.done + 1),
        )
    } else {
        (ended(next), ActionView::Answer(image))
    }
}

/// The request once the label that it waits for is rendered, or could not be.
pub open spec fn after_capture(v: RunView, r: Result<Seq<u8>, ErrorView>) -> (RunView, ActionView) {
    match r {
        Err(e) => (ended(v), ActionView::Fail(e)),
        Ok(image) => if v.print {
            (RunView { last: Some(image), awaiting: Awaiting::Print, ..v }, ActionView::Print)
        } else {
            advanced(v, image)
        },
    }
}

/// The request once the label that it waits for is printed, or could not be.
pub open spec fn after_print(v: RunView, r: Result<(), ErrorView>) -> (RunView, ActionView) {
    match r {
        Err(e) => (ended(v), ActionView::Fail(e)),
        Ok(()) => advanced(v, v.last->0),
    }
}

/// What the outcome of rendering a label holds.
pub open spec fn captured(r: Result<Vec<u8>, CustomError>) -> Result<Seq<u8>, ErrorView> {
    match r {
        Ok(image) => Ok(image@),
        Err(e) => Err(e@),
    }
}

impl LabelRun {
    /// Starts a request of `total` labels.
    pub fn start(total: usize, print: bool) -> (r: (LabelRun, Action))
        ensures
            (r.0@, r.1@) == started(total as int, print),
            r.0@.is_valid(),
    {
        if total == 0 {
            (
                LabelRun { total, done: 0, print, last: None, awaiting: Awaiting::Nothing },
                Action::Fail(other_error("no label data provided")),
            )
        } else {
            (
                LabelRun { total, done: 0, print, last: None, awaiting: Awaiting::Capture },
                Action::Capture(0),
            )
        }
    }

    fn end(&mut self)
        ensures
            final(self)@ == ended(old(self)@),
    {
        self.last = None;
        self.awaiting = Awaiting::Nothing;
    }

    fn advance(&mut self, image: Vec<u8>) -> (r: Action)
        requires
            old(self)@.done < old(self)@.total,
        ensures
            (final(self)@, r@) == advanced(old(self)@, image@),
    {
        self.done = self.done + 1;
        if self.done < self.total {
            self.last = Some(image);
            self.awaiting = Awaiting::Capture;
            Action::Capture(self.done)
        } else {
            self.end();
            Action::Answer(image)
        }
    }

    /// Takes the picture of the label, or the error in its place.
    pub fn take_capture(&mut self, image: Result<Vec<u8>, CustomError>) -> (r: Action)
        requires
            old(self)@.is_valid(),
            old(self).awaiting == Awaiting::Capture,
        ensures
            (final(self)@, r@) == after_capture(old(self)@, captured(image)),
            final(self)@.is_valid(),
    {
        match image {
            Err(e) => {
                self.end();
                Action::Fail(e)
            },
            Ok(image) => {
                if self.print {
                    self.last = Some(image);
                    self.awaiting = Awaiting::Print;
                    Action::Print
                } else {
                    self.advance(image)
                }
            },
        }
    }

    /// Takes the end of a print, or the error in its place.
    pub fn take_print(&mut self, outcome: Result<(), CustomError>) -> (r: Action)
        requires
            old(self)@.is_valid(),
            old(self).awaiting == Awaiting::Print,
        ensures
            (final(self)@, r@) == after_print(old(self)@, err::done(outcome)),
            final(self)@.is_valid(),
    {
        match outcome {
            Err(e) => {
                self.end();
                Action::Fail(e)
            },
            Ok(()) => {
                let image = match self.last.take() {
                    Some(image) => image,
                    None => Vec::new(),
                };
                self.advance(image)
            },
        }
    }
}

// ---------------------------------------------------------------------------
// A whole request
// ---------------------------------------------------------------------------

/// The answer to a request that waits for the picture of a label, where the labels
/// are rendered and printed with the given outcomes.
pub open spec fn answer(
    v: RunView,
    captures: Seq<Result<Seq<u8>, ErrorView>>,
    prints: Seq<Result<(), ErrorView>>,
) -> Result<Seq<u8>, ErrorView>
    decreases v.total - v.done,
{
    if !(v.is_valid() && v.awaiting == Awaiting::Capture) {
        Err(ErrorView::OtherLibraryError("no label data provided"@))
    } else {
        let (v1, a1) = after_capture(v, captures[v.done]);
        let (v2, a2) = if a1 is Print {
            after_print(v1, prints[v.done])
        } else {
            (v1, a1)
        };
        match a2 {
            ActionView::Fail(e) => Err(e),
            ActionView::Answer(image) => Ok(image),
            _ => answer(v2, captures, prints),
        }
    }
}

/// Everything that is done for the label `i` succeeds.
pub open spec fn succeeds(
    captures: Seq<Result<Seq<u8>, ErrorView>>,
    prints: Seq<Result<(), ErrorView>>,
    print: bool,
    i: int,
) -> bool {
    captures[i] is Ok && (print ==> prints[i] is Ok)
}

proof fn answer_from(
    v: RunView,
    captures: Seq<Result<Seq<u8>, ErrorView>>,
    prints: Seq<Result<(), ErrorView>>,
    stop: int,
)
    requires
        v.is_valid(),
        v.awaiting == Awaiting::Capture,
        v.done <= stop <= v.total,
        forall|i: int| v.done <= i < stop ==> succeeds(captures, prints, v.print, i),
        stop < v.total ==> !succeeds(captures, prints, v.print, stop),
    ensures
        stop == v.total ==> answer(v, captures, prints) == captures[v.total - 1],
        stop < v.total ==> answer(v, captures, prints) == (match captures[stop] {
            Err(e) => Err::<Seq<u8>, ErrorView>(e),
            Ok(_) => Err::<Seq<u8>, ErrorView>(prints[stop]->Err_0),
        }),
    decreases v.total - v.done,
{
    reveal_with_fuel(answer, 2);
    assert(v.done < stop ==> succeeds(captures, prints, v.print, v.done));
    if v.done < stop {
        let (v1, a1) = after_capture(v, captures[v.done]);
        let (v2, a2) = if a1 is Print {
            after_print(v1, prints[v.done])
        } else {
            (v1, a1)
        };
        if v.done + 1 < v.total {
            answer_from(v2, captures, prints, stop);
        }
    }
}

/// Where everything succeeds, a request is answered with the picture of its last
/// label.
pub proof fn last_picture_is_the_answer(
    captures: Seq<Result<Seq<u8>, ErrorView>>,
    prints: Seq<Result<(), ErrorView>>,
    print: bool,
)
    requires
        captures.len() > 0,
        forall|i: int| 0 <= i < captures.len() ==> succeeds(captures, prints, print, i),
    ensures
        answer(started(captures.len() as int, print).0, captures, prints)
            == captures[captures.len() - 1],
{
    answer_from(
        started(captures.len() as int, print).0,
        captures,
        prints,
        captures.len() as int,
    );
}

/// A request is answered with the first error that comes up: of rendering a label,
/// or else of printing it. Labels after it play no part.
pub proof fn first_error_is_the_answer(
    captures: Seq<Result<Seq<u8>, ErrorView>>,
    prints: Seq<Result<(), ErrorView>>,
    print: bool,
    stop: int,
)
    requires
        0 <= stop < captures.len(),
        forall|i: int| 0 <= i < stop ==> succeeds(captures, prints, print, i),
        !succeeds(captures, prints, print, stop),
    ensures
        answer(started(captures.len() as int, print).0, captures, prints) == (match captures[stop] {
            Err(e) => Err::<Seq<u8>, ErrorView>(e),
            Ok(_) => Err::<Seq<u8>, ErrorView>(prints[stop]->Err_0),
        }),
{
    answer_from(started(captures.len() as int, print).0, captures, prints, stop);
}

/// The labels of a request are rendered in their order, from the first to the last, and a
/// request without labels fails.
pub proof fn labels_are_rendered_in_order(
    v: RunView,
    total: int,
    print: bool,
    image: Result<Seq<u8>, ErrorView>,
    printed: Result<(), ErrorView>,
    i: int,
)
    requires
        v.is_valid(),
        total >= 0,
    ensures
        total > 0 ==> started(total, print).1 == ActionView::Capture(0) && started(
            total,
            print,
        ).0.done == 0 && started(total, print).0.total == total && started(total, print).0.print
            == print && started(total, print).0.awaiting == Awaiting::Capture,
        total == 0 ==> started(total, print).1 == ActionView::Fail(
            ErrorView::OtherLibraryError("no label data provided"@),
        ),
        v.awaiting == Awaiting::Capture && after_capture(v, image).1 == ActionView::Capture(i)
            ==> i == v.done + 1 && i < v.total && after_capture(v, image).0.done == i,
        v.awaiting == Awaiting::Print && after_print(v, printed).1 == ActionView::Capture(i) ==> i
            == v.done + 1 && i < v.total && after_print(v, printed).0.done == i,
        after_capture(v, image).0.total == v.total && after_capture(v, image).0.print == v.print,
        after_print(v, printed).0.total == v.total && after_print(v, printed).0.print == v.print,
{
}

/// Each label is printed once it is rendered, where printing is on, and with the picture that
/// was just rendered; where printing is off, none is printed. The picture of the last label
/// is the answer.
pub proof fn labels_are_printed_as_rendered(v: RunView, image: Seq<u8>, error: ErrorView)
    requires
        v.is_valid(),
        v.awaiting == Awaiting::Capture,
    ensures
        v.print ==> {
            let (next, action) = after_capture(v, Ok(image));
            let (last, answer) = after_print(next, Ok(()));
            &&& action is Print
            &&& next.last == Some(image)
            &&& next.done == v.done
            &&& next.awaiting == Awaiting::Print
            &&& v.done + 1 == v.total ==> answer == ActionView::Answer(image)
            &&& v.done + 1 < v.total ==> answer == ActionView::Capture(v.done + 1)
            &&& after_print(next, Err(error)).1 == ActionView::Fail(error)
        },
        !v.print ==> {
            let (next, action) = after_capture(v, Ok(image));
            &&& v.done + 1 == v.total ==> action == ActionView::Answer(image)
            &&& v.done + 1 < v.total ==> action == ActionView::Capture(v.done + 1)
        },
        after_capture(v, Err(error)).1 == ActionView::Fail(error),
        after_capture(v, Err(error)).0.awaiting == Awaiting::Nothing,
{
}

/// A request and what is to be done say what their fields hold.
pub proof fn fields_say_what_they_hold(
    run: LabelRun,
    image: Vec<u8>,
    e: CustomError,
    i: usize,
)
    ensures
        run@.total == run.total,
        run@.done == run.done,
        run@.print == run.print,
        run@.awaiting == run.awaiting,
        run.last matches Some(last) ==> run@.last == Some(last@),
        run.last is None ==> run@.last is None,
        Action::Capture(i)@ == ActionView::Capture(i as int),
        Action::Print@ == ActionView::Print,
        Action::Answer(image)@ == ActionView::Answer(image@),
        Action::Fail(e)@ == ActionView::Fail(e@),
        captured(Ok(image)) == Ok::<Seq<u8>, ErrorView>(image@),
        captured(Err(e)) == Err::<Seq<u8>, ErrorView>(e@),
{
}

} // verus!
