use chartistry::series::interpolation::PathCommand;
use chartistry::series::interpolation::StepMove::{Across, AcrossMidway, Rise, RiseMidway};
use chartistry::series::interpolation::PathCommand::{Line, Move, Skip, Smooth};
use chartistry::{Interpolation, Step};

const ALL: [Interpolation; 6] = [
    Interpolation::Linear,
    Interpolation::Step(Step::Horizontal),
    Interpolation::Step(Step::HorizontalMiddle),
    Interpolation::Step(Step::Vertical),
    Interpolation::Step(Step::VerticalMiddle),
    Interpolation::Monotone,
];

#[test]
fn interpolation_names_parse() {
    assert_eq!(Interpolation::from_str("linear"), Ok(Interpolation::Linear));
    assert_eq!(Interpolation::from_str("step-horizontal"), Ok(Interpolation::Step(Step::Horizontal)));
    assert_eq!(
        Interpolation::from_str("step-horizontal-middle"),
        Ok(Interpolation::Step(Step::HorizontalMiddle))
    );
    assert_eq!(Interpolation::from_str("step-vertical"), Ok(Interpolation::Step(Step::Vertical)));
    assert_eq!(
        Interpolation::from_str("step-vertical-middle"),
        Ok(Interpolation::Step(Step::VerticalMiddle))
    );
    assert_eq!(Interpolation::from_str("monotone"), Ok(Interpolation::Monotone));
}

#[test]
fn unknown_interpolation_is_refused_with_its_text() {
    assert_eq!(
        Interpolation::from_str("Linear"),
        Err("unknown line interpolation: `Linear`".to_string())
    );
    assert_eq!(Interpolation::from_str(""), Err("unknown line interpolation: ``".to_string()));
    assert_eq!(
        Interpolation::from_str("step"),
        Err("unknown line interpolation: `step`".to_string())
    );
}

#[test]
fn written_names_parse_back() {
    for i in ALL {
        assert_eq!(Interpolation::from_str(&i.to_string()), Ok(i));
    }
    assert_eq!(Interpolation::Step(Step::VerticalMiddle).to_string(), "step-vertical-middle");
    assert_eq!(Interpolation::Linear.to_string(), "linear");
}

#[test]
fn defaults_and_conversion() {
    assert_eq!(Interpolation::default(), Interpolation::Monotone);
    assert_eq!(Step::default(), Step::Horizontal);
    assert_eq!(Interpolation::from(Step::Vertical), Interpolation::Step(Step::Vertical));
}

#[test]
fn path_commands_break_at_missing_points() {
    let missing = vec![false, false, true, false, false, false];
    assert_eq!(
        Interpolation::Linear.path_commands(&missing),
        vec![Move, Line, Skip, Move, Line, Line]
    );
    assert_eq!(
        Interpolation::Step(Step::HorizontalMiddle).path_commands(&missing),
        vec![Move, PathCommand::Step, Skip, Move, PathCommand::Step, PathCommand::Step]
    );
    assert_eq!(
        Interpolation::Monotone.path_commands(&missing),
        vec![Move, Line, Skip, Move, Smooth, Line]
    );
}

#[test]
fn path_commands_edges() {
    assert_eq!(Interpolation::Monotone.path_commands(&vec![]), vec![]);
    assert_eq!(Interpolation::Monotone.path_commands(&vec![false]), vec![Move]);
    assert_eq!(Interpolation::Linear.path_commands(&vec![true, true]), vec![Skip, Skip]);
    assert_eq!(
        Interpolation::Linear.path_commands(&vec![true, false, true, false]),
        vec![Skip, Move, Skip, Move]
    );
}

#[test]
fn step_moves_in_order() {
    assert_eq!(Step::Horizontal.moves(), vec![Across, Rise]);
    assert_eq!(Step::HorizontalMiddle.moves(), vec![AcrossMidway, Rise, Across]);
    assert_eq!(Step::Vertical.moves(), vec![Rise, Across]);
    assert_eq!(Step::VerticalMiddle.moves(), vec![RiseMidway, Across, Rise]);
}

#[test]
fn step_move_letters_follow_the_orientation() {
    assert_eq!(Across.letter(true), 'H');
    assert_eq!(AcrossMidway.letter(true), 'H');
    assert_eq!(Rise.letter(true), 'V');
    assert_eq!(RiseMidway.letter(true), 'V');
    assert_eq!(Across.letter(false), 'V');
    assert_eq!(Rise.letter(false), 'H');
}
