use crate::text::{quoted_error, text_is};
use vstd::prelude::*;
use vstd::string::StringExecFns;

verus! {

/// Step interpolation only uses horizontal and vertical lines to connect two
/// points. We have a choice of where to put the "corner" of the step.
#[derive(Copy, Clone, Debug, PartialEq, Eq, Structural)]
#[non_exhaustive]
pub enum Step {
    /// Moves across the horizontal plane first then the vertical.
    Horizontal,
    /// Moves midway across the horizontal plane first, then all of the
    /// vertical, then the rest of the horizontal.
    HorizontalMiddle,
    /// Moves across the vertical plane first then the horizontal.
    Vertical,
    /// Similar to [Step::HorizontalMiddle] but moves midway across the vertical
    /// plane first, then all of the horizontal, then the rest of the vertical.
    VerticalMiddle,
}

/// Line interpolation. This is used to determine how to draw the line between points.
#[derive(Copy, Clone, Debug, PartialEq, Eq, Structural)]
#[non_exhaustive]
pub enum Interpolation {
    /// Linear interpolation draws a straight line between points.
    Linear,
    /// Step interpolation only uses horizontal and vertical lines to connect two points.
    Step(Step),
    /// Cubic monotone interpolation smooths the line between points. Avoids
    /// spurious oscillations (Steffen, 1990).
    Monotone,
}

/// One move of a step from one point to the next.
#[derive(Copy, Clone, Debug, PartialEq, Eq, Structural)]
pub enum StepMove {
    /// Along the X axis, all the way to the next point.
    Across,
    /// Along the X axis, to midway between the two points.
    AcrossMidway,
    /// Along the Y axis, all the way to the next point.
    Rise,
    /// Along the Y axis, to midway between the two points.
    RiseMidway,
}

/// The moves of each step kind, in order.
pub open spec fn step_move_plan(step: Step) -> Seq<StepMove> {
    match step {
        Step::Horizontal => seq![StepMove::Across, StepMove::Rise],
        Step::HorizontalMiddle => seq![StepMove::AcrossMidway, StepMove::Rise, StepMove::Across],
        Step::Vertical => seq![StepMove::Rise, StepMove::Across],
        Step::VerticalMiddle => seq![StepMove::RiseMidway, StepMove::Across, StepMove::Rise],
    }
}

/// The SVG command of a move: the X axis runs along SVG's horizontal ("H")
/// when X is horizontal, and along its vertical ("V") otherwise; the Y axis
/// takes the other.
pub open spec fn step_move_letter(m: StepMove, x_is_horizontal: bool) -> char {
    let across = match m {
        StepMove::Across | StepMove::AcrossMidway => true,
        _ => false,
    };
    if across == x_is_horizontal {
        'H'
    } else {
        'V'
    }
}

/// The SVG command of a move follows the orientation: a move along X is "H"
/// exactly when X is horizontal, a move along Y is "V" exactly when X is
/// horizontal, and turning the chart swaps the command of every move.
pub proof fn lemma_step_move_letter_follows_orientation(m: StepMove, x_is_horizontal: bool)
    ensures
        step_move_letter(m, false) != step_move_letter(m, true),
        step_move_letter(m, x_is_horizontal) == 'H' || step_move_letter(m, x_is_horizontal) == 'V',
        (m is Across || m is AcrossMidway) ==> ((step_move_letter(m, x_is_horizontal) == 'H')
            == x_is_horizontal),
        (m is Rise || m is RiseMidway) ==> ((step_move_letter(m, x_is_horizontal) == 'V')
            == x_is_horizontal),
{
}

/// Each step kind moves all the way along both axes, ending at the point: its
/// last move is a full move, and the middle kinds split one axis in two
/// around a full move along the other.
pub proof fn lemma_step_moves_reach_the_point(step: Step)
    ensures
        step_move_plan(step).last() is Across || step_move_plan(step).last() is Rise,
        step_move_plan(step).contains(StepMove::Across),
        step_move_plan(step).contains(StepMove::Rise),
        (step is Horizontal || step is HorizontalMiddle) == (step_move_plan(step)[0] is Across
            || step_move_plan(step)[0] is AcrossMidway),
        (step is HorizontalMiddle || step is VerticalMiddle) == (step_move_plan(step).len() == 3),
        step_move_plan(step)[0] is AcrossMidway ==> step_move_plan(step)[1] is Rise
            && step_move_plan(step)[2] is Across,
        step_move_plan(step)[0] is RiseMidway ==> step_move_plan(step)[1] is Across
            && step_move_plan(step)[2] is Rise,
        step_move_plan(step).len() == 2 ==> (step_move_plan(step)[0] is Across
            == step_move_plan(step)[1] is Rise) && step_move_plan(step)[0] != step_move_plan(
            step,
        )[1],
        forall|i: int|
            1 <= i < step_move_plan(step).len() ==> !(#[trigger] step_move_plan(step)[i] is AcrossMidway)
                && !(step_move_plan(step)[i] is RiseMidway),
{
    let plan = step_move_plan(step);
    match step {
        Step::Horizontal => {
            assert(plan[0] == StepMove::Across);
            assert(plan[1] == StepMove::Rise);
        },
        Step::HorizontalMiddle => {
            assert(plan[2] == StepMove::Across);
            assert(plan[1] == StepMove::Rise);
        },
        Step::Vertical => {
            assert(plan[0] == StepMove::Rise);
            assert(plan[1] == StepMove::Across);
        },
        Step::VerticalMiddle => {
            assert(plan[1] == StepMove::Across);
            assert(plan[2] == StepMove::Rise);
        },
    }
}

impl Step {
    /// The moves of this step kind, in order.
    pub fn moves(self) -> (r: Vec<StepMove>)
        ensures
            r@ == step_move_plan(self),
    {
        let r = match self {
            Step::Horizontal => vec![StepMove::Across, StepMove::Rise],
            Step::HorizontalMiddle => vec![StepMove::AcrossMidway, StepMove::Rise, StepMove::Across],
            Step::Vertical => vec![StepMove::Rise, StepMove::Across],
            Step::VerticalMiddle => vec![StepMove::RiseMidway, StepMove::Across, StepMove::Rise],
        };
        assert(r@ =~= step_move_plan(self));
        r
    }
}

impl StepMove {
    /// The SVG path command of this move.
    pub fn letter(self, x_is_horizontal: bool) -> (r: char)
        ensures
            r == step_move_letter(self, x_is_horizontal),
    {
        let across = match self {
            StepMove::Across | StepMove::AcrossMidway => true,
            _ => false,
        };
        if across == x_is_horizontal {
            'H'
        } else {
            'V'
        }
    }
}

impl Default for Step {
    fn default() -> (r: Self)
        ensures
            r == Step::Horizontal,
    {
        Step::Horizontal
    }
}

impl Default for Interpolation {
    fn default() -> (r: Self)
        ensures
            r == Interpolation::Monotone,
    {
        Interpolation::Monotone
    }
}

impl From<Step> for Interpolation {
    fn from(step: Step) -> (r: Self) {
        Interpolation::Step(step)
    }
}

impl vstd::std_specs::convert::FromSpecImpl<Step> for Interpolation {
    open spec fn obeys_from_spec() -> bool {
        true
    }

    open spec fn from_spec(v: Step) -> Self {
        Interpolation::Step(v)
    }
}

/// The name of an interpolation, as written and as parsed.
pub open spec fn interpolation_name(i: Interpolation) -> Seq<char> {
    match i {
        Interpolation::Linear => "linear"@,
        Interpolation::Step(Step::Horizontal) => "step-horizontal"@,
        Interpolation::Step(Step::HorizontalMiddle) => "step-horizontal-middle"@,
        Interpolation::Step(Step::Vertical) => "step-vertical"@,
        Interpolation::Step(Step::VerticalMiddle) => "step-vertical-middle"@,
        Interpolation::Monotone => "monotone"@,
    }
}

/// The interpolation a name parses to, if any.
pub open spec fn interpolation_for_name(s: Seq<char>) -> Option<Interpolation> {
    if s == "linear"@ {
        Some(Interpolation::Linear)
    } else if s == "step-horizontal"@ {
        Some(Interpolation::Step(Step::Horizontal))
    } else if s == "step-horizontal-middle"@ {
        Some(Interpolation::Step(Step::HorizontalMiddle))
    } else if s == "step-vertical"@ {
        Some(Interpolation::Step(Step::Vertical))
    } else if s == "step-vertical-middle"@ {
        Some(Interpolation::Step(Step::VerticalMiddle))
    } else if s == "monotone"@ {
        Some(Interpolation::Monotone)
    } else {
        None
    }
}

/// The error message for text that names no interpolation.
pub open spec fn unknown_interpolation_message(s: Seq<char>) -> Seq<char> {
    "unknown line interpolation: "@ + seq!['`'] + s + seq!['`']
}

proof fn lemma_interpolation_names()
    ensures
        "linear"@ == seq!['l', 'i', 'n', 'e', 'a', 'r'],
        "monotone"@ == seq!['m', 'o', 'n', 'o', 't', 'o', 'n', 'e'],
        "step-horizontal"@.len() == 15,
        "step-horizontal-middle"@.len() == 22,
        "step-vertical"@.len() == 13,
        "step-vertical-middle"@.len() == 20,
        "step-horizontal"@[5] == 'h',
        "step-horizontal-middle"@[5] == 'h',
        "step-vertical"@[5] == 'v',
        "step-vertical-middle"@[5] == 'v',
{
    reveal_strlit("linear");
    reveal_strlit("monotone");
    reveal_strlit("step-horizontal");
    reveal_strlit("step-horizontal-middle");
    reveal_strlit("step-vertical");
    reveal_strlit("step-vertical-middle");
}

/// Different interpolations have different names.
pub proof fn lemma_interpolation_names_distinct(a: Interpolation, b: Interpolation)
    requires
        a != b,
    ensures
        interpolation_name(a) != interpolation_name(b),
{
    lemma_interpolation_names();
    if interpolation_name(a) == interpolation_name(b) {
        let n = interpolation_name(a);
        assert(n.len() == interpolation_name(b).len());
        if a is Linear || a is Monotone || b is Linear || b is Monotone {
            assert(n[0] == interpolation_name(a)[0]);
        } else {
            assert(n[5] == interpolation_name(b)[5]);
        }
    }
}

impl Interpolation {
    /// Parses an interpolation from its name.
    pub fn from_str(s: &str) -> (r: Result<Self, String>)
        ensures
            r matches Ok(i) ==> interpolation_for_name(s@) == Some(i),
            r matches Err(e) ==> interpolation_for_name(s@) is None
                && e@ == unknown_interpolation_message(s@),
    {
        if text_is(s, "linear") {
            Ok(Interpolation::Linear)
        } else if text_is(s, "step-horizontal") {
            Ok(Interpolation::Step(Step::Horizontal))
        } else if text_is(s, "step-horizontal-middle") {
            Ok(Interpolation::Step(Step::HorizontalMiddle))
        } else if text_is(s, "step-vertical") {
            Ok(Interpolation::Step(Step::Vertical))
        } else if text_is(s, "step-vertical-middle") {
            Ok(Interpolation::Step(Step::VerticalMiddle))
        } else if text_is(s, "monotone") {
            Ok(Interpolation::Monotone)
        } else {
            proof {
                reveal_strlit("unknown line interpolation: ");
            }
            Err(quoted_error("unknown line interpolation: ", s))
        }
    }

    /// The name of the interpolation (what `Display` writes).
    pub fn to_string(&self) -> (r: String)
        ensures
            r@ == interpolation_name(*self),
    {
        match self {
            Interpolation::Linear => String::from_str("linear"),
            Interpolation::Step(Step::Horizontal) => String::from_str("step-horizontal"),
            Interpolation::Step(Step::HorizontalMiddle) => String::from_str(
                "step-horizontal-middle",
            ),
            Interpolation::Step(Step::Vertical) => String::from_str("step-vertical"),
            Interpolation::Step(Step::VerticalMiddle) => String::from_str("step-vertical-middle"),
            Interpolation::Monotone => String::from_str("monotone"),
        }
    }
}

impl std::str::FromStr for Interpolation {
    type Err = String;

    fn from_str(s: &str) -> (r: Result<Self, Self::Err>)
        ensures
            r matches Ok(i) ==> interpolation_for_name(s@) == Some(i),
            r matches Err(e) ==> interpolation_for_name(s@) is None
                && e@ == unknown_interpolation_message(s@),
    {
        Interpolation::from_str(s)
    }
}

/// Parsing the written name of an interpolation gives it back.
pub proof fn lemma_interpolation_name_round_trip(i: Interpolation)
    ensures
        interpolation_for_name(interpolation_name(i)) == Some(i),
{
    lemma_interpolation_names();
    let n = interpolation_name(i);
    assert forall|j: Interpolation| j != i implies interpolation_name(j) != n by {
        lemma_interpolation_names_distinct(i, j);
    }
    assert(n == interpolation_name(Interpolation::Linear) ==> i == Interpolation::Linear);
    assert(n == interpolation_name(Interpolation::Step(Step::Horizontal)) ==> i
        == Interpolation::Step(Step::Horizontal));
    assert(n == interpolation_name(Interpolation::Step(Step::HorizontalMiddle)) ==> i
        == Interpolation::Step(Step::HorizontalMiddle));
    assert(n == interpolation_name(Interpolation::Step(Step::Vertical)) ==> i
        == Interpolation::Step(Step::Vertical));
    assert(n == interpolation_name(Interpolation::Step(Step::VerticalMiddle)) ==> i
        == Interpolation::Step(Step::VerticalMiddle));
}

/// What an interpolation draws for one point of a line.
#[derive(Copy, Clone, Debug, PartialEq, Eq, Structural)]
pub enum PathCommand {
    /// The point is missing: nothing is drawn and the line breaks.
    Skip,
    /// Start a new piece of line at the point ("M").
    Move,
    /// A straight line to the point ("L").
    Line,
    /// Horizontal and vertical moves to the point, shaped by the step kind.
    Step,
    /// A smooth cubic curve to the point ("S"), using its neighbours.
    Smooth,
}

/// Whether point `i` has a missing coordinate, counting points outside the
/// line as missing.
pub open spec fn missing_at(missing: Seq<bool>, i: int) -> bool {
    i < 0 || i >= missing.len() || missing[i]
}

/// The command an interpolation draws for point `i`: missing points are
/// skipped, a point without a present point before it starts a new piece,
/// and otherwise the line continues in the interpolation's own way (monotone
/// falls back to a straight line at the last point of a piece).
pub open spec fn command_at(interpolation: Interpolation, missing: Seq<bool>, i: int) -> PathCommand {
    if missing_at(missing, i) {
        PathCommand::Skip
    } else if missing_at(missing, i - 1) {
        PathCommand::Move
    } else {
        match interpolation {
            Interpolation::Linear => PathCommand::Line,
            Interpolation::Step(_) => PathCommand::Step,
            Interpolation::Monotone => if missing_at(missing, i + 1) {
                PathCommand::Line
            } else {
                PathCommand::Smooth
            },
        }
    }
}

/// Between two present points every interpolation draws a segment in its own
/// way: a straight line for linear, the step's moves for every step kind, and
/// a smooth curve for monotone unless the point ends a piece. A missing point
/// draws nothing, and a present point after a missing one (or first) starts a
/// new piece.
pub proof fn lemma_segment_commands(interpolation: Interpolation, missing: Seq<bool>, i: int)
    requires
        0 <= i < missing.len(),
    ensures
        missing[i] ==> command_at(interpolation, missing, i) == PathCommand::Skip,
        !missing[i] && (i == 0 || missing[i - 1]) ==> command_at(interpolation, missing, i)
            == PathCommand::Move,
        !missing[i] && i > 0 && !missing[i - 1] ==> match interpolation {
            Interpolation::Linear => command_at(interpolation, missing, i) == PathCommand::Line,
            Interpolation::Step(_) => command_at(interpolation, missing, i) == PathCommand::Step,
            Interpolation::Monotone => command_at(interpolation, missing, i) == if i + 1
                < missing.len() && !missing[i + 1] {
                PathCommand::Smooth
            } else {
                PathCommand::Line
            },
        },
{
}

/// Every step kind plans the same commands for the same points: only the
/// moves inside a step differ.
pub proof fn lemma_step_kinds_plan_alike(a: Step, b: Step, missing: Seq<bool>, i: int)
    ensures
        command_at(Interpolation::Step(a), missing, i) == command_at(
            Interpolation::Step(b),
            missing,
            i,
        ),
        command_at(Interpolation::Step(a), missing, i) == PathCommand::Step || command_at(
            Interpolation::Step(a),
            missing,
            i,
        ) == command_at(Interpolation::Linear, missing, i),
{
}

impl Interpolation {
    /// Plans the SVG path of a line: for each point (flagged when one of its
    /// coordinates is missing), which command draws it.
    pub fn path_commands(self, missing: &Vec<bool>) -> (r: Vec<PathCommand>)
        ensures
            r@.len() == missing@.len(),
            forall|i: int| 0 <= i < r@.len() ==> #[trigger] r@[i] == command_at(self, missing@, i),
    {
        let n = missing.len();
        let mut commands: Vec<PathCommand> = Vec::new();
        let mut need_move = true;
        let mut i: usize = 0;
        while i < n
            invariant
                n == missing@.len(),
                0 <= i <= n,
                commands@.len() == i,
                forall|j: int| 0 <= j < i ==> #[trigger] commands@[j] == command_at(self, missing@, j),
                need_move == missing_at(missing@, i - 1),
            decreases n - i,
        {
            let command = if missing[i] {
                need_move = true;
                PathCommand::Skip
            } else if need_move {
                need_move = false;
                PathCommand::Move
            } else {
                need_move = false;
                match self {
                    Interpolation::Linear => PathCommand::Line,
                    Interpolation::Step(_) => PathCommand::Step,
                    Interpolation::Monotone => {
                        if i + 1 >= n || missing[i + 1] {
                            PathCommand::Line
                        } else {
                            PathCommand::Smooth
                        }
                    },
                }
            };
            commands.push(command);
            i = i + 1;
        }
        commands
    }
}

} // verus!
