use hexboard::error::RuleError;
use hexboard::phase::{DevelopmentPhase, Phase, TurnPhase};

#[test]
fn opening_rounds_snake_then_first_turn() {
    let n = 3;
    let mut phase = Phase::start_game();
    let mut order = Vec::new();
    for _ in 0..4 * n {
        order.push(phase.player());
        phase = phase.next_placement(n).unwrap();
    }
    assert_eq!(order, vec![0, 0, 1, 1, 2, 2, 2, 2, 1, 1, 0, 0]);
    assert_eq!(phase, Phase::start_turns());
    assert_eq!(phase.next_placement(n), Err(RuleError::IllegalPhase));
}

#[test]
fn end_turn_rotates_players() {
    let free = Phase::Turn { player: 2, turn_phase: TurnPhase::Free, development_phase: DevelopmentPhase::DevelopmentPlayed };
    assert_eq!(
        free.end_turn(3),
        Ok(Phase::Turn { player: 0, turn_phase: TurnPhase::PreRoll, development_phase: DevelopmentPhase::Ready })
    );
    let free1 = Phase::Turn { player: 1, turn_phase: TurnPhase::Free, development_phase: DevelopmentPhase::Ready };
    assert_eq!(
        free1.end_turn(3),
        Ok(Phase::Turn { player: 2, turn_phase: TurnPhase::PreRoll, development_phase: DevelopmentPhase::Ready })
    );
    assert_eq!(Phase::start_turns().end_turn(3), Err(RuleError::IllegalPhase));
}

#[test]
fn seven_leads_through_discards_to_thief() {
    let pre = Phase::start_turns();
    let must = vec![false, true, false, true];
    let d1 = pre.after_roll(7, &must).unwrap();
    assert_eq!(d1, Phase::Turn { player: 0, turn_phase: TurnPhase::Discard(1), development_phase: DevelopmentPhase::Ready });
    assert_eq!(d1.player(), 1);
    assert!(!d1.is_thief());
    let d3 = d1.after_discard(&must).unwrap();
    assert_eq!(d3.player(), 3);
    let thief = d3.after_discard(&must).unwrap();
    assert!(thief.is_thief());
    assert_eq!(thief.player(), 0);
    let free = thief.after_robber_moved().unwrap();
    assert_eq!(free, Phase::Turn { player: 0, turn_phase: TurnPhase::Free, development_phase: DevelopmentPhase::Ready });
    assert_eq!(pre.after_roll(8, &must).unwrap(), free);
    assert_eq!(pre.after_roll(7, &vec![false; 4]).unwrap(), thief);
    assert_eq!(free.after_roll(5, &must), Err(RuleError::IllegalPhase));
}

#[test]
fn knight_is_a_thief_gate() {
    let knight = Phase::Turn { player: 1, turn_phase: TurnPhase::Free, development_phase: DevelopmentPhase::KnightActive };
    assert!(knight.is_thief());
    assert!(knight.is_turn());
    assert_eq!(
        knight.after_robber_moved(),
        Ok(Phase::Turn { player: 1, turn_phase: TurnPhase::Free, development_phase: DevelopmentPhase::DevelopmentPlayed })
    );
    let done = Phase::FinishedGame { winner: 2 };
    assert_eq!(done.player(), 2);
    assert!(!done.is_turn());
    assert!(!Phase::start_game().is_turn());
    assert!(TurnPhase::PreRoll.unbound());
    assert!(!TurnPhase::MoveThief.unbound());
    assert!(TurnPhase::Discard(0).is_discard());
    assert!(!TurnPhase::Free.is_discard());
}

#[test]
fn finishing_is_terminal() {
    let turn = Phase::start_turns();
    let done = turn.finish(1).unwrap();
    assert_eq!(done, Phase::FinishedGame { winner: 1 });
    assert_eq!(done.finish(2), Err(RuleError::IllegalPhase));
    assert_eq!(done.end_turn(3), Err(RuleError::IllegalPhase));
    assert_eq!(Phase::start_game().finish(0), Err(RuleError::IllegalPhase));
}
