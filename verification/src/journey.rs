//! Why the search ends. A client is modelled as a robot that stands on a cell
//! of the grid and faces one of the four headings; some cells are blocked. The
//! robot obeys each order, reports where it stands, and the search answers
//! with the next order. On a grid whose blocked cells leave room to pass, this
//! brings the robot to the origin within a number of rounds that grows with
//! its distance from there and with nothing else.

use vstd::prelude::*;
use crate::messages::ServerMessage;
use crate::path::{
    in_grid, lemma_after_detour, lemma_after_one, lemma_after_two, steps_home, Action, Orient,
    PathState,
};

verus! {

/// A client as the search sees it through its reports: a place on the grid
/// and a heading.
pub struct Robot {
    pub x: int,
    pub y: int,
    pub heading: Orient,
}

impl Robot {
    /// The cell on which the robot stands.
    pub open spec fn at(self) -> (int, int) {
        (self.x, self.y)
    }

    /// The cell in front of the robot.
    pub open spec fn faces(self) -> (int, int) {
        self.heading.ahead(self.at())
    }

    /// The robot after a quarter turn to the left.
    pub open spec fn turned_left(self) -> Robot {
        Robot { heading: self.heading.turned_left(), ..self }
    }

    /// The robot after a quarter turn to the right.
    pub open spec fn turned_right(self) -> Robot {
        Robot { heading: self.heading.turned_right(), ..self }
    }

    /// The robot after it tried a step forward: it has moved to the cell in
    /// front of it, unless that cell is blocked.
    pub open spec fn advanced(self, blocked: Set<(int, int)>) -> Robot {
        if blocked.contains(self.faces()) {
            self
        } else {
            Robot { x: self.faces().0, y: self.faces().1, ..self }
        }
    }

    /// The robot after it has obeyed `order`. Only a turn or a step changes
    /// it.
    pub open spec fn obeys(self, order: ServerMessage, blocked: Set<(int, int)>) -> Robot {
        match order {
            ServerMessage::Left => self.turned_left(),
            ServerMessage::Right => self.turned_right(),
            ServerMessage::Move => self.advanced(blocked),
            _ => self,
        }
    }

    /// The distance from the robot to the origin, counted in steps.
    pub open spec fn distance(self) -> int {
        steps_home(self.x, self.y)
    }

    /// The robot stands no further than `reach` from either axis.
    pub open spec fn within(self, reach: int) -> bool {
        -reach <= self.x <= reach && -reach <= self.y <= reach
    }

    /// One of the four cells round the robot is free.
    pub open spec fn can_set_out(self, blocked: Set<(int, int)>) -> bool {
        ||| !blocked.contains(self.faces())
        ||| !blocked.contains(self.turned_left().faces())
        ||| !blocked.contains(self.turned_left().turned_left().faces())
        ||| !blocked.contains(self.turned_right().faces())
    }
}

/// The search reaches the request for the secret within `rounds` rounds. In a
/// round the robot reports where it stands, the search gives its order and the
/// robot obeys. The search is never handed a report that it cannot take.
pub open spec fn arrives_within(
    state: PathState,
    robot: Robot,
    blocked: Set<(int, int)>,
    rounds: nat,
) -> bool
    decreases rounds,
{
    let (following, order) = state.next(robot.x as i32, robot.y as i32);
    &&& in_grid(robot.at())
    &&& state.admits(robot.x as i32, robot.y as i32)
    &&& match following {
        None => robot.at() == (0int, 0int),
        Some(next_state) => rounds > 0 && arrives_within(
            next_state,
            robot.obeys(order, blocked),
            blocked,
            (rounds - 1) as nat,
        ),
    }
}

/// The heading that brings `x` closer to zero.
pub open spec fn home_along_x(x: int) -> Orient {
    if x > 0 {
        Orient::South
    } else {
        Orient::North
    }
}

/// The heading that brings `y` closer to zero.
pub open spec fn home_along_y(y: int) -> Orient {
    if y > 0 {
        Orient::West
    } else {
        Orient::East
    }
}

/// The cell `(x, y)` lies off both axes and both cells next to it that lie
/// closer to the origin are blocked.
pub open spec fn pinched(blocked: Set<(int, int)>, x: int, y: int) -> bool {
    &&& x != 0
    &&& y != 0
    &&& blocked.contains(home_along_x(x).ahead((x, y)))
    &&& blocked.contains(home_along_y(y).ahead((x, y)))
}

/// The cell `(x, y)` lies on one axis, away from the origin, and can be gone
/// round on the way home: the three cells of the lane to the left of that way
/// that lie beside the cell before it, beside it and beside the cell after it
/// are free, and so is the cell after it, which is not the origin.
pub open spec fn roomy(blocked: Set<(int, int)>, x: int, y: int) -> bool {
    let home = if y == 0 {
        home_along_x(x)
    } else {
        home_along_y(y)
    };
    let beside = home.turned_left().ahead((x, y));
    let after = home.ahead((x, y));
    &&& (x == 0) != (y == 0)
    &&& !blocked.contains(beside)
    &&& !blocked.contains(home.ahead(beside))
    &&& !blocked.contains(home.reversed().ahead(beside))
    &&& !blocked.contains(after)
    &&& after != (0int, 0int)
}

/// The blocked cells leave room to pass, as far as `reach` from the axes: the
/// origin is free; off the axes no cell is pinched; and a blocked cell on an
/// axis can be gone round.
pub open spec fn passable(blocked: Set<(int, int)>, reach: int) -> bool {
    &&& !blocked.contains((0int, 0int))
    &&& forall|x: int, y: int|
        -reach <= x <= reach && -reach <= y <= reach ==> !#[trigger] pinched(blocked, x, y)
    &&& forall|x: int, y: int|
        -reach <= x <= reach && -reach <= y <= reach && (x == 0) != (y == 0) && blocked.contains(
            (x, y),
        ) ==> #[trigger] roomy(blocked, x, y)
}

/// The turns to the right after which the robot faces a free cell.
pub open spec fn probes(robot: Robot, blocked: Set<(int, int)>) -> int {
    if !blocked.contains(robot.faces()) {
        0
    } else if !blocked.contains(robot.turned_right().faces()) {
        1
    } else if !blocked.contains(robot.turned_right().turned_right().faces()) {
        2
    } else {
        3
    }
}

/// The turns to the left after which `heading` leads home from `(x, y)`.
pub open spec fn turns(heading: Orient, x: int, y: int) -> int {
    if heading.leads_home(x, y) {
        0
    } else if heading.turned_left().leads_home(x, y) {
        1
    } else if heading.reversed().leads_home(x, y) {
        2
    } else {
        3
    }
}

/// The position `prev` as a cell of the grid.
pub open spec fn cell(prev: (i32, i32)) -> (int, int) {
    (prev.0 as int, prev.1 as int)
}

/// Where a robot stands that tried a step in `heading` from `from`.
pub open spec fn stepped(from: (int, int), heading: Orient, blocked: Set<(int, int)>) -> (
    int,
    int,
) {
    if blocked.contains(heading.ahead(from)) {
        from
    } else {
        heading.ahead(from)
    }
}

/// The state of the search fits the robot: what the search holds about the
/// robot is true of it, and what it is about to do will work out.
pub open spec fn on_course(
    state: PathState,
    robot: Robot,
    blocked: Set<(int, int)>,
    reach: int,
) -> bool
    decreases state,
{
    &&& robot.within(reach)
    &&& !blocked.contains(robot.at())
    &&& match state {
        PathState::FindingPosition => robot.within(reach - 1) && robot.can_set_out(blocked),
        PathState::FindingOrientation(prev) => {
            &&& -reach < prev.0 < reach
            &&& -reach < prev.1 < reach
            &&& !blocked.contains(cell(prev))
            &&& robot.at() == stepped(cell(prev), robot.heading, blocked)
            &&& robot.at() == cell(prev) ==> robot.can_set_out(blocked)
        },
        PathState::FindPath(prev, heading) => {
            &&& -reach <= prev.0 <= reach
            &&& -reach <= prev.1 <= reach
            &&& prev.0 != 0
            &&& prev.1 != 0
            &&& robot.heading == heading
            &&& heading.leads_home(prev.0 as int, prev.1 as int)
            &&& robot.at() == stepped(cell(prev), heading, blocked)
        },
        PathState::SetupAxis(_, heading) => {
            &&& robot.heading == heading
            &&& (robot.x == 0 || robot.y == 0)
        },
        PathState::FollowAxis(prev, heading) => {
            &&& -reach <= prev.0 <= reach
            &&& -reach <= prev.1 <= reach
            &&& (prev.0 == 0) != (prev.1 == 0)
            &&& robot.heading == heading
            &&& heading.leads_home(prev.0 as int, prev.1 as int)
            &&& robot.at() == stepped(cell(prev), heading, blocked)
        },
        PathState::Deferred(action, rest) => on_course(
            *rest,
            robot.obeys(action.order(), blocked),
            blocked,
            reach,
        ),
    }
}

/// The rounds that a step of distance may cost.
pub open spec fn rounds_per_step() -> int {
    8
}

/// A number that falls with every round of a search that is on course: the
/// distance of the robot, weighted, and what the state has left to do at this
/// distance.
pub open spec fn effort(state: PathState, robot: Robot, blocked: Set<(int, int)>) -> int
    decreases state,
{
    let far = rounds_per_step() * robot.distance();
    match state {
        PathState::FindingPosition => far + 14 + 2 * probes(robot, blocked),
        PathState::FindingOrientation(prev) => if robot.at() == cell(prev) {
            far + 15 + 2 * probes(robot.turned_right(), blocked)
        } else {
            far + 5
        },
        PathState::FindPath(prev, _) => if robot.at() == cell(prev) {
            far + 4
        } else {
            far + 5
        },
        PathState::SetupAxis(_, heading) => far + 1 + turns(heading, robot.x, robot.y),
        PathState::FollowAxis(prev, _) => if robot.at() == cell(prev) {
            far
        } else {
            far + 1
        },
        PathState::Deferred(action, rest) => 1 + effort(
            *rest,
            robot.obeys(action.order(), blocked),
            blocked,
        ),
    }
}

/// What a round makes of a search that is on course: the report can be taken,
/// and either the secret is asked for, on the origin, or the search is on
/// course again with less effort left.
pub open spec fn round_gains(
    state: PathState,
    robot: Robot,
    blocked: Set<(int, int)>,
    reach: int,
) -> bool {
    let (following, order) = state.next(robot.x as i32, robot.y as i32);
    &&& in_grid(robot.at())
    &&& state.admits(robot.x as i32, robot.y as i32)
    &&& effort(state, robot, blocked) >= 0
    &&& match following {
        None => robot.at() == (0int, 0int),
        Some(next_state) => {
            &&& on_course(next_state, robot.obeys(order, blocked), blocked, reach)
            &&& effort(next_state, robot.obeys(order, blocked), blocked) < effort(
                state,
                robot,
                blocked,
            )
        },
    }
}

/// A deferred order is on course if the rest is once the order is obeyed, and
/// costs one round more.
proof fn lemma_deferred(
    rest: PathState,
    action: Action,
    robot: Robot,
    blocked: Set<(int, int)>,
    reach: int,
)
    ensures
        on_course(rest.behind(action), robot, blocked, reach) <==> {
            &&& robot.within(reach)
            &&& !blocked.contains(robot.at())
            &&& on_course(rest, robot.obeys(action.order(), blocked), blocked, reach)
        },
        effort(rest.behind(action), robot, blocked) == 1 + effort(
            rest,
            robot.obeys(action.order(), blocked),
            blocked,
        ),
{
}

proof fn lemma_round_finding_position(robot: Robot, blocked: Set<(int, int)>, reach: int)
    requires
        reach < i32::MAX,
        passable(blocked, reach),
        on_course(PathState::FindingPosition, robot, blocked, reach),
    ensures
        round_gains(PathState::FindingPosition, robot, blocked, reach),
{
}

proof fn lemma_round_finding_orientation(
    prev: (i32, i32),
    robot: Robot,
    blocked: Set<(int, int)>,
    reach: int,
)
    requires
        reach < i32::MAX,
        passable(blocked, reach),
        on_course(PathState::FindingOrientation(prev), robot, blocked, reach),
    ensures
        round_gains(PathState::FindingOrientation(prev), robot, blocked, reach),
{
    let x = robot.x as i32;
    let y = robot.y as i32;
    if robot.at() != cell(prev) && !(x == 0 || y == 0) && !robot.heading.leads_home(
        x as int,
        y as int,
    ) {
        // Turned left now, once more and a step back: the robot walks in the
        // reverse heading from where it stood before.
        let resume = PathState::FindPath((x, y), robot.heading.reversed());
        let turned = robot.turned_left();
        let about = turned.turned_left();
        lemma_after_two(resume, Action::TurnLeft, Action::Advance);
        lemma_deferred(resume.behind(Action::Advance), Action::TurnLeft, turned, blocked, reach);
        lemma_deferred(resume, Action::Advance, about, blocked, reach);
    }
}

proof fn lemma_round_find_path(
    prev: (i32, i32),
    heading: Orient,
    robot: Robot,
    blocked: Set<(int, int)>,
    reach: int,
)
    requires
        reach < i32::MAX,
        passable(blocked, reach),
        on_course(PathState::FindPath(prev, heading), robot, blocked, reach),
    ensures
        round_gains(PathState::FindPath(prev, heading), robot, blocked, reach),
{
    let x = robot.x as i32;
    let y = robot.y as i32;
    if robot.at() == cell(prev) {
        // Blocked: one of the two ways home is free.
        assert(!pinched(blocked, robot.x, robot.y));
        let to_left = PathState::FindPath((x, y), heading.turned_left());
        let to_right = PathState::FindPath((x, y), heading.turned_right());
        lemma_after_one(to_left, Action::Advance);
        lemma_after_one(to_right, Action::Advance);
        lemma_deferred(to_left, Action::Advance, robot.turned_left(), blocked, reach);
        lemma_deferred(to_right, Action::Advance, robot.turned_right(), blocked, reach);
    }
}

proof fn lemma_round_setup_axis(
    prev: (i32, i32),
    heading: Orient,
    robot: Robot,
    blocked: Set<(int, int)>,
    reach: int,
)
    requires
        reach < i32::MAX,
        passable(blocked, reach),
        on_course(PathState::SetupAxis(prev, heading), robot, blocked, reach),
    ensures
        round_gains(PathState::SetupAxis(prev, heading), robot, blocked, reach),
{
}

proof fn lemma_round_follow_axis(
    prev: (i32, i32),
    heading: Orient,
    robot: Robot,
    blocked: Set<(int, int)>,
    reach: int,
)
    requires
        reach < i32::MAX,
        passable(blocked, reach),
        on_course(PathState::FollowAxis(prev, heading), robot, blocked, reach),
    ensures
        round_gains(PathState::FollowAxis(prev, heading), robot, blocked, reach),
{
    if robot.at() == cell(prev) && robot.at() != (0int, 0int) {
        lemma_round_detour(prev, heading, robot, blocked, reach);
    }
}

/// The round in which a robot on an axis finds its way blocked: the detour
/// brings it back onto the axis two cells on, closer to the origin.
proof fn lemma_round_detour(
    prev: (i32, i32),
    heading: Orient,
    robot: Robot,
    blocked: Set<(int, int)>,
    reach: int,
)
    requires
        reach < i32::MAX,
        passable(blocked, reach),
        on_course(PathState::FollowAxis(prev, heading), robot, blocked, reach),
        robot.at() == cell(prev),
        robot.at() != (0int, 0int),
    ensures
        round_gains(PathState::FollowAxis(prev, heading), robot, blocked, reach),
{
    let a = Action::Advance;
    let l = Action::TurnLeft;
    let r = Action::TurnRight;
    let stone = heading.ahead(robot.at());
    assert(roomy(blocked, stone.0, stone.1));
    let rejoin = heading.ahead(stone);
    let resume = PathState::FollowAxis((rejoin.0 as i32, rejoin.1 as i32), heading);
    lemma_after_detour(resume);
    // The states of the detour, from the last order to the first.
    let s1 = resume.behind(a);
    let s2 = s1.behind(l);
    let s3 = s2.behind(a);
    let s4 = s3.behind(r);
    let s5 = s4.behind(a);
    let s6 = s5.behind(a);
    let s7 = s6.behind(r);
    // The robot on its way round, from the first turn to the last step.
    let r0 = robot.turned_left();
    let r1 = r0.advanced(blocked);
    let r2 = r1.turned_right();
    let r3 = r2.advanced(blocked);
    let r4 = r3.advanced(blocked);
    let r5 = r4.turned_right();
    let r6 = r5.advanced(blocked);
    let r7 = r6.turned_left();
    let r8 = r7.advanced(blocked);
    assert(on_course(resume, r8, blocked, reach));
    lemma_deferred(resume, a, r7, blocked, reach);
    lemma_deferred(s1, l, r6, blocked, reach);
    lemma_deferred(s2, a, r5, blocked, reach);
    lemma_deferred(s3, r, r4, blocked, reach);
    lemma_deferred(s4, a, r3, blocked, reach);
    lemma_deferred(s5, a, r2, blocked, reach);
    lemma_deferred(s6, r, r1, blocked, reach);
    lemma_deferred(s7, a, r0, blocked, reach);
}

/// A round of a search that is on course gains on the origin.
pub proof fn lemma_round_gains(
    state: PathState,
    robot: Robot,
    blocked: Set<(int, int)>,
    reach: int,
)
    requires
        reach < i32::MAX,
        passable(blocked, reach),
        on_course(state, robot, blocked, reach),
    ensures
        round_gains(state, robot, blocked, reach),
    decreases state,
{
    match state {
        PathState::FindingPosition => lemma_round_finding_position(robot, blocked, reach),
        PathState::FindingOrientation(prev) => lemma_round_finding_orientation(
            prev,
            robot,
            blocked,
            reach,
        ),
        PathState::FindPath(prev, heading) => lemma_round_find_path(
            prev,
            heading,
            robot,
            blocked,
            reach,
        ),
        PathState::SetupAxis(prev, heading) => lemma_round_setup_axis(
            prev,
            heading,
            robot,
            blocked,
            reach,
        ),
        PathState::FollowAxis(prev, heading) => lemma_round_follow_axis(
            prev,
            heading,
            robot,
            blocked,
            reach,
        ),
        PathState::Deferred(action, rest) => {
            lemma_effort_not_negative(*rest, robot.obeys(action.order(), blocked), blocked, reach);
        },
    }
}

/// The effort left to a search that is on course is never negative.
pub proof fn lemma_effort_not_negative(
    state: PathState,
    robot: Robot,
    blocked: Set<(int, int)>,
    reach: int,
)
    requires
        on_course(state, robot, blocked, reach),
    ensures
        effort(state, robot, blocked) >= 0,
    decreases state,
{
    match state {
        PathState::Deferred(action, rest) => {
            lemma_effort_not_negative(*rest, robot.obeys(action.order(), blocked), blocked, reach);
        },
        _ => {},
    }
}

/// A search that is on course arrives within as many rounds as it has effort
/// left.
pub proof fn lemma_on_course_arrives(
    state: PathState,
    robot: Robot,
    blocked: Set<(int, int)>,
    reach: int,
    rounds: nat,
)
    requires
        reach < i32::MAX,
        passable(blocked, reach),
        on_course(state, robot, blocked, reach),
        effort(state, robot, blocked) <= rounds,
    ensures
        arrives_within(state, robot, blocked, rounds),
    decreases rounds,
{
    lemma_round_gains(state, robot, blocked, reach);
    let (following, order) = state.next(robot.x as i32, robot.y as i32);
    match following {
        None => {},
        Some(next_state) => {
            lemma_effort_not_negative(next_state, robot.obeys(order, blocked), blocked, reach);
            lemma_on_course_arrives(
                next_state,
                robot.obeys(order, blocked),
                blocked,
                reach,
                (rounds - 1) as nat,
            );
        },
    }
}

/// The search ends. Let a robot stand on a free cell with a free cell next to
/// it, closer than `reach` to both axes, on a grid that is passable as far as
/// `reach`. Then the search, begun when nothing is known, asks for the secret
/// within eight rounds for each step that the robot is away from the origin
/// and twenty more, and it does so with the robot on the origin. No report on
/// the way is one that the search cannot take.
pub proof fn lemma_search_arrives(robot: Robot, blocked: Set<(int, int)>, reach: int)
    requires
        reach < i32::MAX,
        robot.within(reach - 1),
        !blocked.contains(robot.at()),
        robot.can_set_out(blocked),
        passable(blocked, reach),
    ensures
        arrives_within(
            PathState::FindingPosition,
            robot,
            blocked,
            (8 * robot.distance() + 20) as nat,
        ),
{
    lemma_on_course_arrives(
        PathState::FindingPosition,
        robot,
        blocked,
        reach,
        (8 * robot.distance() + 20) as nat,
    );
}

} // verus!
