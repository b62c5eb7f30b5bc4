//! Guiding a client to the origin of its grid. The client reports where it
//! stands after each order; the server infers its heading from the first step
//! that succeeds, walks it to an axis, turns it toward the origin and walks it
//! home, going round whatever blocks the way.

use vstd::prelude::*;
use crate::errors::{BError, BErrorView};
use crate::messages::{ClientMessage, ClientMessageView, ServerMessage};
use crate::state_machine::{outcome_view, BState, BStateView, PRes, PResView};

verus! {

/// A grid position, `(x, y)`.
pub type Position = (i32, i32);

/// The direction in which a client faces. North is the direction of growing
/// `x`, east the direction of growing `y`: `x` counts northward and `y`
/// eastward.
#[derive(Clone, Copy, Debug, PartialEq, Eq, Structural)]
pub enum Orient {
    North,
    South,
    East,
    West,
}

impl Orient {
    /// The heading after a quarter turn to the left.
    pub open spec fn turned_left(self) -> Orient {
        match self {
            Orient::North => Orient::West,
            Orient::South => Orient::East,
            Orient::East => Orient::North,
            Orient::West => Orient::South,
        }
    }

    /// The heading after a quarter turn to the right: three turns to the left.
    pub open spec fn turned_right(self) -> Orient {
        self.turned_left().turned_left().turned_left()
    }

    /// The heading after a half turn.
    pub open spec fn reversed(self) -> Orient {
        self.turned_left().turned_left()
    }

    /// What one step in this heading adds to a position.
    pub open spec fn delta(self) -> (int, int) {
        match self {
            Orient::North => (1, 0),
            Orient::South => (-1, 0),
            Orient::East => (0, 1),
            Orient::West => (0, -1),
        }
    }

    /// The cell that one step in this heading reaches from `at`.
    pub open spec fn ahead(self, at: (int, int)) -> (int, int) {
        (at.0 + self.delta().0, at.1 + self.delta().1)
    }

    /// A step in this heading from `(x, y)` leads toward the origin: it brings
    /// the one coordinate that it changes closer to zero.
    pub open spec fn leads_home(self, x: int, y: int) -> bool {
        ||| x > 0 && self == Orient::South
        ||| x < 0 && self == Orient::North
        ||| y > 0 && self == Orient::West
        ||| y < 0 && self == Orient::East
    }

    /// The heading after a quarter turn to the left.
    pub fn left(&self) -> (turned: Orient)
        ensures
            turned == self.turned_left(),
    {
        match self {
            Orient::North => Orient::West,
            Orient::South => Orient::East,
            Orient::East => Orient::North,
            Orient::West => Orient::South,
        }
    }

    /// The heading after a quarter turn to the right.
    pub fn right(&self) -> (turned: Orient)
        ensures
            turned == self.turned_right(),
            turned == self.turned_left().turned_left().turned_left(),
    {
        self.left().left().left()
    }

    /// Tells whether a step in this heading from `(x, y)` leads toward the
    /// origin.
    pub fn is_valid_for(&self, x: i32, y: i32) -> (valid: bool)
        ensures
            valid == self.leads_home(x as int, y as int),
    {
        (x > 0 && *self == Orient::South) || (x < 0 && *self == Orient::North) || (y > 0 && *self
            == Orient::West) || (y < 0 && *self == Orient::East)
    }

    /// The cell that one step in this heading reaches from `at`.
    pub fn move_in(&self, at: Position) -> (to: Position)
        requires
            in_grid(self.ahead((at.0 as int, at.1 as int))),
        ensures
            (to.0 as int, to.1 as int) == self.ahead((at.0 as int, at.1 as int)),
    {
        match self {
            Orient::North => (at.0 + 1, at.1),
            Orient::South => (at.0 - 1, at.1),
            Orient::East => (at.0, at.1 + 1),
            Orient::West => (at.0, at.1 - 1),
        }
    }
}

/// Both coordinates of `at` can be held in an `i32`.
pub open spec fn in_grid(at: (int, int)) -> bool {
    i32::MIN <= at.0 <= i32::MAX && i32::MIN <= at.1 <= i32::MAX
}

/// The distance from `(x, y)` to the origin, counted in steps.
pub open spec fn steps_home(x: int, y: int) -> int {
    (if x < 0 {
        -x
    } else {
        x
    }) + (if y < 0 {
        -y
    } else {
        y
    })
}

/// `to` lies one step from `from`, along one axis.
pub open spec fn unit_step(from: Position, to: Position) -> bool {
    let dx = to.0 - from.0;
    let dy = to.1 - from.1;
    (dx == 0 && (dy == 1 || dy == -1)) || (dy == 0 && (dx == 1 || dx == -1))
}

/// The heading in which a client faces that has just stepped from `from` to
/// `to`.
pub open spec fn heading_of_step(from: Position, to: Position) -> Orient {
    if to.0 - from.0 == 1 {
        Orient::North
    } else if to.0 - from.0 == -1 {
        Orient::South
    } else if to.1 - from.1 == 1 {
        Orient::East
    } else {
        Orient::West
    }
}

/// One order that changes where a client stands or faces.
#[derive(Clone, Copy, Debug, PartialEq, Eq, Structural)]
pub enum Action {
    TurnLeft,
    TurnRight,
    Advance,
}

impl Action {
    /// The message that gives this order.
    pub open spec fn order(self) -> ServerMessage {
        match self {
            Action::TurnLeft => ServerMessage::Left,
            Action::TurnRight => ServerMessage::Right,
            Action::Advance => ServerMessage::Move,
        }
    }

    /// The message that gives this order.
    pub fn message(&self) -> (order: ServerMessage)
        ensures
            order == self.order(),
    {
        match self {
            Action::TurnLeft => ServerMessage::Left,
            Action::TurnRight => ServerMessage::Right,
            Action::Advance => ServerMessage::Move,
        }
    }
}

/// How far the search for the origin has come.
///
/// The first five states are the stages of the search. `Deferred` holds one
/// order that is still to be given before the state in it takes over again; a
/// manoeuvre of several orders is a chain of them.
#[derive(Debug, PartialEq, Eq)]
pub enum PathState {
    /// Nothing is known yet: the next report tells where the client stands.
    FindingPosition,
    /// One step was ordered from the position held here; the next report
    /// shows in which heading it went, if it went.
    FindingOrientation(Position),
    /// The client walks toward the nearer axis. Holds the last position
    /// reported and the heading.
    FindPath(Position, Orient),
    /// The client stands on an axis and turns until it faces the origin.
    SetupAxis(Position, Orient),
    /// The client walks along an axis toward the origin.
    FollowAxis(Position, Orient),
    /// An order that is still to be given, and the state to go on with.
    Deferred(Action, Box<PathState>),
}

/// The orders taken on a straight way when a cell blocks it, after the first
/// turn to the left: one lane aside, two cells on, back onto the way and one
/// more step.
pub open spec fn detour() -> Seq<Action> {
    seq![
        Action::Advance,
        Action::TurnRight,
        Action::Advance,
        Action::Advance,
        Action::TurnRight,
        Action::Advance,
        Action::TurnLeft,
        Action::Advance,
    ]
}

/// The longest chain of deferred orders that the search ever builds.
pub open spec fn max_pending() -> nat {
    8
}

impl PathState {
    /// This state is one of the stages of the search, not a deferred order.
    pub open spec fn is_stage(self) -> bool {
        !(self is Deferred)
    }

    /// The orders that are still to be given before a stage takes over, first
    /// one first.
    pub open spec fn pending(self) -> Seq<Action>
        decreases self,
    {
        match self {
            PathState::Deferred(action, rest) => seq![action] + rest.pending(),
            _ => Seq::empty(),
        }
    }

    /// The stage that takes over once every pending order is given.
    pub open spec fn stage(self) -> PathState
        decreases self,
    {
        match self {
            PathState::Deferred(_, rest) => rest.stage(),
            _ => self,
        }
    }

    /// The state that gives the order `action` and then goes on with `self`.
    pub open spec fn behind(self, action: Action) -> PathState {
        PathState::Deferred(action, Box::new(self))
    }

    /// The state that gives the orders of `queue`, first one first, and then
    /// goes on with `self`.
    pub open spec fn after(self, queue: Seq<Action>) -> PathState
        decreases queue.len(),
    {
        if queue.len() == 0 {
            self
        } else {
            self.after(queue.drop_first()).behind(queue.first())
        }
    }

    /// The reports that this state can take: after the first step, a report
    /// either repeats the position or lies one step from it; and the cell two
    /// steps past a blocked one on an axis can be written down.
    pub open spec fn admits(self, x: i32, y: i32) -> bool {
        match self {
            PathState::FindingOrientation(prev) => prev == (x, y) || unit_step(prev, (x, y)),
            PathState::FollowAxis(prev, heading) => prev == (x, y) && !(x == 0 && y == 0)
                ==> in_grid(heading.ahead(heading.ahead((x as int, y as int)))),
            _ => true,
        }
    }

    /// The order given on the report `(x, y)`, and the state that follows; no
    /// state follows once the client stands on the origin and is asked for the
    /// secret.
    ///
    /// - Nothing known: a step is ordered and the position kept.
    /// - After that step: a report of the same position means that the step
    ///   was blocked; the client is turned right and the search begins again.
    ///   Otherwise the step shows the heading. On the origin the secret is
    ///   asked for. On an axis the client is turned left and aligned. Off the
    ///   axes it walks on if the heading leads home; if not, it is turned
    ///   left at once, and a second turn and a step are deferred, after which
    ///   it walks in the reverse heading.
    /// - Walking toward an axis: on an axis the client is turned left and
    ///   aligned. A report of the same position means that the way is blocked:
    ///   the client is turned to the other heading that leads home, to the
    ///   left if that one does, to the right if not, and a step in it is
    ///   deferred. Otherwise the next step is ordered.
    /// - Aligning on an axis: on the origin the secret is asked for. A
    ///   heading that leads home is walked in; any other is turned left once
    ///   more.
    /// - Walking along an axis: on the origin the secret is asked for. A
    ///   report of the same position means that the way is blocked: the
    ///   client is turned left, the [`detour`] is deferred, and the walk goes
    ///   on from two cells past where it stands. Otherwise the next step is
    ///   ordered.
    /// - A deferred order is given whatever is reported, and the rest follows.
    pub open spec fn next(self, x: i32, y: i32) -> (Option<PathState>, ServerMessage) {
        match self {
            PathState::FindingPosition => (
                Some(PathState::FindingOrientation((x, y))),
                ServerMessage::Move,
            ),
            PathState::FindingOrientation(prev) => {
                let heading = heading_of_step(prev, (x, y));
                if prev == (x, y) {
                    (Some(PathState::FindingPosition), ServerMessage::Right)
                } else if x == 0 && y == 0 {
                    (None, ServerMessage::PickUp)
                } else if x == 0 || y == 0 {
                    (
                        Some(PathState::SetupAxis((x, y), heading.turned_left())),
                        ServerMessage::Left,
                    )
                } else if heading.leads_home(x as int, y as int) {
                    (Some(PathState::FindPath((x, y), heading)), ServerMessage::Move)
                } else {
                    (
                        Some(
                            PathState::FindPath((x, y), heading.reversed()).after(
                                seq![Action::TurnLeft, Action::Advance],
                            ),
                        ),
                        ServerMessage::Left,
                    )
                }
            },
            PathState::FindPath(prev, heading) => {
                if x == 0 || y == 0 {
                    (
                        Some(PathState::SetupAxis((x, y), heading.turned_left())),
                        ServerMessage::Left,
                    )
                } else if prev == (x, y) {
                    if heading.turned_left().leads_home(x as int, y as int) {
                        (
                            Some(
                                PathState::FindPath((x, y), heading.turned_left()).after(
                                    seq![Action::Advance],
                                ),
                            ),
                            ServerMessage::Left,
                        )
                    } else {
                        (
                            Some(
                                PathState::FindPath((x, y), heading.turned_right()).after(
                                    seq![Action::Advance],
                                ),
                            ),
                            ServerMessage::Right,
                        )
                    }
                } else {
                    (Some(PathState::FindPath((x, y), heading)), ServerMessage::Move)
                }
            },
            PathState::SetupAxis(_, heading) => {
                if x == 0 && y == 0 {
                    (None, ServerMessage::PickUp)
                } else if heading.leads_home(x as int, y as int) {
                    (Some(PathState::FollowAxis((x, y), heading)), ServerMessage::Move)
                } else {
                    (
                        Some(PathState::SetupAxis((x, y), heading.turned_left())),
                        ServerMessage::Left,
                    )
                }
            },
            PathState::FollowAxis(prev, heading) => {
                if x == 0 && y == 0 {
                    (None, ServerMessage::PickUp)
                } else if prev == (x, y) {
                    let rejoin = heading.ahead(heading.ahead((x as int, y as int)));
                    (
                        Some(
                            PathState::FollowAxis(
                                (rejoin.0 as i32, rejoin.1 as i32),
                                heading,
                            ).after(detour()),
                        ),
                        ServerMessage::Left,
                    )
                } else {
                    (Some(PathState::FollowAxis((x, y), heading)), ServerMessage::Move)
                }
            },
            PathState::Deferred(action, rest) => (Some(*rest), action.order()),
        }
    }

    /// Tells whether this state can take the report `(x, y)`.
    pub fn admits_position(&self, x: i32, y: i32) -> (ok: bool)
        ensures
            ok == self.admits(x, y),
    {
        match self {
            PathState::FindingOrientation(prev) => {
                let dx: i64 = x as i64 - prev.0 as i64;
                let dy: i64 = y as i64 - prev.1 as i64;
                (dx == 0 && dy == 0) || (dx == 0 && (dy == 1 || dy == -1)) || (dy == 0 && (dx == 1
                    || dx == -1))
            },
            PathState::FollowAxis(prev, heading) => {
                if prev.0 == x && prev.1 == y && !(x == 0 && y == 0) {
                    match heading {
                        Orient::North => x <= i32::MAX - 2,
                        Orient::South => x >= i32::MIN + 2,
                        Orient::East => y <= i32::MAX - 2,
                        Orient::West => y >= i32::MIN + 2,
                    }
                } else {
                    true
                }
            },
            _ => true,
        }
    }

    /// Takes a client's reply to the last order and decides on the next one.
    ///
    /// Only a position report is a reply to an order; every other message is
    /// refused as unexpected. On a report the state moves on as [`Self::next`]
    /// says: the session goes on in the state that follows with the order
    /// sent, or turns to picking up the secret.
    ///
    /// The state that follows never holds more than eight deferred orders in
    /// front of its stage: a stage defers eight at most, and a deferred order
    /// leaves the rest of its chain.
    pub fn handle_message(self, message: ClientMessage) -> (r: Result<(BState, PRes), BError>)
        requires
            message matches ClientMessage::NoProblemo { x, y } ==> self.admits(x, y),
        ensures
            outcome_view(r) == navigated(self, message@),
            message is NoProblemo ==> r is Ok,
            r matches Ok((following, reply)) ==> {
                &&& reply is SendMessage
                &&& following is Extract || following is FindPath
                &&& following matches BState::FindPath(search) ==> {
                    &&& search.stage().is_stage()
                    &&& self.is_stage() ==> search.pending().len() <= max_pending()
                    &&& !self.is_stage() ==> search.pending() == self.pending().drop_first()
                }
            },
    {
        let (x, y): (i32, i32) = match message {
            ClientMessage::NoProblemo { x, y } => (x, y),
            _ => {
                return Err(BError::UnexpectedResponse);
            },
        };
        proof {
            lemma_pending_bounded(self, x, y);
        }
        match self {
            PathState::FindingPosition => {
                let next_state = PathState::FindingOrientation((x, y));
                Ok((wp(next_state), wm(ServerMessage::Move)))
            },
            PathState::FindingOrientation(prev) => {
                if prev.0 == x && prev.1 == y {
                    Ok((wp(PathState::FindingPosition), wm(ServerMessage::Right)))
                } else {
                    let orient: Orient = if x > prev.0 {
                        Orient::North
                    } else if x < prev.0 {
                        Orient::South
                    } else if y > prev.1 {
                        Orient::East
                    } else {
                        Orient::West
                    };
                    if x == 0 && y == 0 {
                        Ok((BState::Extract, wm(ServerMessage::PickUp)))
                    } else if x == 0 || y == 0 {
                        let next_state = PathState::SetupAxis((x, y), orient.left());
                        Ok((wp(next_state), wm(ServerMessage::Left)))
                    } else if orient.is_valid_for(x, y) {
                        let next_state = PathState::FindPath((x, y), orient);
                        Ok((wp(next_state), wm(ServerMessage::Move)))
                    } else {
                        let next_state = PathState::FindPath((x, y), orient.left().left());
                        proof {
                            lemma_after_two(next_state, Action::TurnLeft, Action::Advance);
                        }
                        let wrapper = do_l(do_m(next_state));
                        Ok((wp(wrapper), wm(ServerMessage::Left)))
                    }
                }
            },
            PathState::FindPath(prev, orient) => {
                if x == 0 || y == 0 {
                    let next_state = PathState::SetupAxis((x, y), orient.left());
                    Ok((wp(next_state), wm(ServerMessage::Left)))
                } else if prev.0 == x && prev.1 == y {
                    if orient.left().is_valid_for(x, y) {
                        let resume = PathState::FindPath((x, y), orient.left());
                        proof {
                            lemma_after_one(resume, Action::Advance);
                        }
                        Ok((wp(do_m(resume)), wm(ServerMessage::Left)))
                    } else {
                        let resume = PathState::FindPath((x, y), orient.right());
                        proof {
                            lemma_after_one(resume, Action::Advance);
                        }
                        Ok((wp(do_m(resume)), wm(ServerMessage::Right)))
                    }
                } else {
                    let next_state = PathState::FindPath((x, y), orient);
                    Ok((wp(next_state), wm(ServerMessage::Move)))
                }
            },
            PathState::SetupAxis(_, orient) => {
                if x == 0 && y == 0 {
                    Ok((BState::Extract, wm(ServerMessage::PickUp)))
                } else if orient.is_valid_for(x, y) {
                    let next_state = PathState::FollowAxis((x, y), orient);
                    Ok((wp(next_state), wm(ServerMessage::Move)))
                } else {
                    let next_state = PathState::SetupAxis((x, y), orient.left());
                    Ok((wp(next_state), wm(ServerMessage::Left)))
                }
            },
            PathState::FollowAxis(prev, orient) => {
                if x == 0 && y == 0 {
                    Ok((BState::Extract, wm(ServerMessage::PickUp)))
                } else if prev.0 == x && prev.1 == y {
                    let coord: Position = orient.move_in(orient.move_in((x, y)));
                    let resume = PathState::FollowAxis(coord, orient);
                    proof {
                        lemma_after_detour(resume);
                    }
                    let next_state = do_m(
                        do_r(do_m(do_m(do_r(do_m(do_l(do_m(resume))))))),
                    );
                    Ok((wp(next_state), wm(ServerMessage::Left)))
                } else {
                    let next_state = PathState::FollowAxis((x, y), orient);
                    Ok((wp(next_state), wm(ServerMessage::Move)))
                }
            },
            PathState::Deferred(action, next_state) => {
                Ok((wp(*next_state), wm(action.message())))
            },
        }
    }
}

/// What a state of the search makes of a client's message: the state of the
/// session that follows and what is sent, or the refusal of a message that is
/// no position report.
pub open spec fn navigated(state: PathState, message: ClientMessageView) -> Result<
    (BStateView, PResView),
    BErrorView,
> {
    match message {
        ClientMessageView::NoProblemo { x, y } => {
            let (following, order) = state.next(x, y);
            Ok(
                (
                    match following {
                        Some(next_state) => BStateView::FindPath(next_state),
                        None => BStateView::Extract,
                    },
                    PResView::SendMessage(order),
                ),
            )
        },
        _ => Err(BErrorView::UnexpectedResponse),
    }
}

/// A chain of one order.
pub proof fn lemma_after_one(resume: PathState, first: Action)
    ensures
        resume.after(seq![first]) == resume.behind(first),
{
    reveal_with_fuel(PathState::after, 2);
}

/// A chain of two orders.
pub proof fn lemma_after_two(resume: PathState, first: Action, second: Action)
    ensures
        resume.after(seq![first, second]) == resume.behind(second).behind(first),
{
    assert(seq![first, second].drop_first() =~= seq![second]);
    lemma_after_one(resume, second);
}

/// Putting an order in front of a chain.
pub proof fn lemma_after_cons(resume: PathState, first: Action, queue: Seq<Action>)
    ensures
        resume.after(seq![first] + queue) == resume.after(queue).behind(first),
{
    assert((seq![first] + queue).drop_first() =~= queue);
}

/// The chain that goes round a blocked cell, order by order from the last.
pub proof fn lemma_after_detour(resume: PathState)
    ensures
        resume.after(detour()) == resume.behind(Action::Advance).behind(Action::TurnLeft).behind(
            Action::Advance,
        ).behind(Action::TurnRight).behind(Action::Advance).behind(Action::Advance).behind(
            Action::TurnRight,
        ).behind(Action::Advance),
{
    let a = Action::Advance;
    let l = Action::TurnLeft;
    let r = Action::TurnRight;
    lemma_after_one(resume, a);
    lemma_after_cons(resume, l, seq![a]);
    assert(seq![l] + seq![a] =~= seq![l, a]);
    lemma_after_cons(resume, a, seq![l, a]);
    assert(seq![a] + seq![l, a] =~= seq![a, l, a]);
    lemma_after_cons(resume, r, seq![a, l, a]);
    assert(seq![r] + seq![a, l, a] =~= seq![r, a, l, a]);
    lemma_after_cons(resume, a, seq![r, a, l, a]);
    assert(seq![a] + seq![r, a, l, a] =~= seq![a, r, a, l, a]);
    lemma_after_cons(resume, a, seq![a, r, a, l, a]);
    assert(seq![a] + seq![a, r, a, l, a] =~= seq![a, a, r, a, l, a]);
    lemma_after_cons(resume, r, seq![a, a, r, a, l, a]);
    assert(seq![r] + seq![a, a, r, a, l, a] =~= seq![r, a, a, r, a, l, a]);
    lemma_after_cons(resume, a, seq![r, a, a, r, a, l, a]);
    assert(seq![a] + seq![r, a, a, r, a, l, a] =~= detour());
}

/// Turning: four quarter turns to the left bring a heading back to itself, a
/// turn to the right is three turns to the left, and a turn to the right
/// undoes a turn to the left, as a turn to the left undoes one to the right.
pub proof fn lemma_heading_algebra(heading: Orient)
    ensures
        heading.turned_left().turned_left().turned_left().turned_left() == heading,
        heading.turned_right() == heading.turned_left().turned_left().turned_left(),
        heading.turned_left().turned_right() == heading,
        heading.turned_right().turned_left() == heading,
{
}

/// A turn is a quarter turn of the step: a turn to the left takes the step
/// north to the step west, and so round the compass; a turn to the right takes
/// it the other way round.
pub proof fn lemma_turns_rotate(heading: Orient)
    ensures
        heading.turned_left().delta() == (heading.delta().1, -heading.delta().0),
        heading.turned_right().delta() == (-heading.delta().1, heading.delta().0),
        heading.reversed().delta() == (-heading.delta().0, -heading.delta().1),
{
}

/// A heading leads home from a position exactly when a step in it brings the
/// position closer to the origin; a step in any other heading leads away.
pub proof fn lemma_leads_home_is_closer(heading: Orient, x: int, y: int)
    ensures
        heading.leads_home(x, y) <==> steps_home(heading.ahead((x, y)).0, heading.ahead((x, y)).1)
            < steps_home(x, y),
        heading.leads_home(x, y) ==> steps_home(heading.ahead((x, y)).0, heading.ahead((x, y)).1)
            == steps_home(x, y) - 1,
        !heading.leads_home(x, y) ==> steps_home(heading.ahead((x, y)).0, heading.ahead((x, y)).1)
            == steps_home(x, y) + 1,
{
}

/// The heading read off a step is the one in which the step was taken.
pub proof fn lemma_heading_of_step(from: Position, to: Position)
    requires
        unit_step(from, to),
    ensures
        heading_of_step(from, to).ahead((from.0 as int, from.1 as int)) == (
            to.0 as int,
            to.1 as int,
        ),
{
}

/// Off the axes two headings lead home, and they are a quarter turn apart: of
/// a heading that leads home, either the one to its left or the one to its
/// right leads home too, never both; and of a heading that leads away, the
/// reverse leads home.
pub proof fn lemma_headings_off_axis(heading: Orient, x: int, y: int)
    requires
        x != 0,
        y != 0,
    ensures
        heading.leads_home(x, y) ==> (heading.turned_left().leads_home(x, y)
            != heading.turned_right().leads_home(x, y)),
        !heading.leads_home(x, y) ==> heading.reversed().leads_home(x, y),
{
}

/// On an axis and away from the origin one heading leads home, so at most
/// three turns to the left find it.
pub proof fn lemma_headings_on_axis(heading: Orient, x: int, y: int)
    requires
        (x == 0) != (y == 0),
    ensures
        heading.leads_home(x, y) || heading.turned_left().leads_home(x, y)
            || heading.reversed().leads_home(x, y) || heading.turned_right().leads_home(x, y),
        heading.leads_home(x, y) ==> !heading.turned_left().leads_home(x, y)
            && !heading.reversed().leads_home(x, y) && !heading.turned_right().leads_home(x, y),
{
}

/// The secret is asked for on the origin and nowhere else.
pub proof fn lemma_pick_up_on_origin(state: PathState, x: i32, y: i32)
    ensures
        state.next(x, y).0 is None ==> x == 0 && y == 0 && state.next(x, y).1
            == ServerMessage::PickUp,
        state.next(x, y).1 == ServerMessage::PickUp ==> state.next(x, y).0 is None,
{
}

/// A chain of orders in front of a stage holds these orders and that stage.
pub proof fn lemma_after_pending(resume: PathState, queue: Seq<Action>)
    requires
        resume.is_stage(),
    ensures
        resume.after(queue).pending() == queue,
        resume.after(queue).stage() == resume,
    decreases queue.len(),
{
    if queue.len() > 0 {
        lemma_after_pending(resume, queue.drop_first());
    }
}

/// A state is the chain of its pending orders in front of its stage.
pub proof fn lemma_pending_then_stage(state: PathState)
    ensures
        state.stage().is_stage(),
        state.stage().after(state.pending()) == state,
    decreases state,
{
    match state {
        PathState::Deferred(action, rest) => {
            lemma_pending_then_stage(*rest);
            lemma_after_cons(rest.stage(), action, rest.pending());
        },
        _ => {},
    }
}

/// Deferred orders are given one by one and never pile up: a state with
/// pending orders gives the first of them, whatever is reported, and goes on
/// with the rest; a stage leaves at most eight orders pending.
pub proof fn lemma_pending_bounded(state: PathState, x: i32, y: i32)
    ensures
        state.next(x, y).0 matches Some(following) ==> {
            &&& !state.is_stage() ==> {
                &&& state.next(x, y).1 == state.pending().first().order()
                &&& following.pending() == state.pending().drop_first()
                &&& following.stage() == state.stage()
            }
            &&& state.is_stage() ==> following.pending().len() <= max_pending()
            &&& following.stage().is_stage()
        },
{
    match state {
        PathState::FindingPosition => {},
        PathState::FindingOrientation(prev) => {
            let heading = heading_of_step(prev, (x, y));
            lemma_after_pending(
                PathState::FindPath((x, y), heading.reversed()),
                seq![Action::TurnLeft, Action::Advance],
            );
        },
        PathState::FindPath(prev, heading) => {
            lemma_after_pending(
                PathState::FindPath((x, y), heading.turned_left()),
                seq![Action::Advance],
            );
            lemma_after_pending(
                PathState::FindPath((x, y), heading.turned_right()),
                seq![Action::Advance],
            );
        },
        PathState::SetupAxis(_, _) => {},
        PathState::FollowAxis(prev, heading) => {
            let rejoin = heading.ahead(heading.ahead((x as int, y as int)));
            lemma_after_pending(
                PathState::FollowAxis((rejoin.0 as i32, rejoin.1 as i32), heading),
                detour(),
            );
        },
        PathState::Deferred(_, _) => {},
    }
    if state.next(x, y).0 is Some {
        lemma_pending_then_stage(state.next(x, y).0->0);
    }
}

/// Puts a step forward in front of `state`.
pub fn do_m(state: PathState) -> (deferred: PathState)
    ensures
        deferred == state.behind(Action::Advance),
{
    PathState::Deferred(Action::Advance, Box::new(state))
}

/// Puts a turn to the left in front of `state`.
pub fn do_l(state: PathState) -> (deferred: PathState)
    ensures
        deferred == state.behind(Action::TurnLeft),
{
    PathState::Deferred(Action::TurnLeft, Box::new(state))
}

/// Puts a turn to the right in front of `state`.
pub fn do_r(state: PathState) -> (deferred: PathState)
    ensures
        deferred == state.behind(Action::TurnRight),
{
    PathState::Deferred(Action::TurnRight, Box::new(state))
}

/// The session state in which the search goes on from `state`.
pub fn wp(state: PathState) -> (session: BState)
    ensures
        session == BState::FindPath(state),
{
    BState::FindPath(state)
}

/// The sending of one message.
pub fn wm(msg: ServerMessage) -> (reply: PRes)
    ensures
        reply == PRes::SendMessage(msg),
{
    PRes::SendMessage(msg)
}

} // verus!
