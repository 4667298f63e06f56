//! The turn and phase state machine: whose turn it is and what is legal now.
use vstd::prelude::*;
use crate::error::RuleError;

verus! {

/// The game's control state.
#[derive(Copy, Clone, Debug, PartialEq, Eq, Structural)]
pub enum Phase {
    /// The opening rounds: each player places a settlement, then a road; forward
    /// through the players, then backward for a second pair.
    InitialPlacement { player: usize, placing_second: bool, placing_road: bool },
    /// The main game.
    Turn { player: usize, turn_phase: TurnPhase, development_phase: DevelopmentPhase },
    /// The game is over.
    FinishedGame { winner: usize },
}

/// Where the active turn stands.
#[derive(Copy, Clone, Debug, PartialEq, Eq, Structural)]
pub enum TurnPhase {
    PreRoll,
    Discard(usize),
    MoveThief,
    Free,
}

/// Where the turn's development card play stands.
#[derive(Copy, Clone, Debug, PartialEq, Eq, Structural)]
pub enum DevelopmentPhase {
    Ready,
    KnightActive,
    RoadBuildingActive { two_left: bool },
    YearOfPlentyActive { two_left: bool },
    DevelopmentPlayed,
}

/// The first index at or after `from` whose player must discard.
pub open spec fn first_discarder(must_discard: Seq<bool>, from: int) -> Option<int>
    decreases must_discard.len() - from,
{
    if from < 0 || from >= must_discard.len() {
        None
    } else if must_discard[from] {
        Some(from)
    } else {
        first_discarder(must_discard, from + 1)
    }
}

/// The sub-phase that follows a seven, or a discard, once discards from `from` on
/// are looked at: the next player who must discard, else moving the robber.
pub open spec fn discard_or_thief(must_discard: Seq<bool>, from: int) -> TurnPhase {
    match first_discarder(must_discard, from) {
        Some(i) => TurnPhase::Discard(i as usize),
        None => TurnPhase::MoveThief,
    }
}

impl Phase {
    /// The first phase of a game: player 0 places a first settlement.
    pub open spec fn start_game_spec() -> Phase {
        Phase::InitialPlacement { player: 0, placing_second: false, placing_road: false }
    }

    /// The first phase of the main game: player 0 is to roll.
    pub open spec fn start_turns_spec() -> Phase {
        Phase::Turn { player: 0, turn_phase: TurnPhase::PreRoll, development_phase: DevelopmentPhase::Ready }
    }

    pub fn start_game() -> (res: Phase)
        ensures
            res == Self::start_game_spec(),
    {
        Phase::InitialPlacement { player: 0, placing_second: false, placing_road: false }
    }

    pub fn start_turns() -> (res: Phase)
        ensures
            res == Self::start_turns_spec(),
    {
        Phase::Turn { player: 0, turn_phase: TurnPhase::PreRoll, development_phase: DevelopmentPhase::Ready }
    }

    /// The player who acts now: the discarding player during a discard.
    pub open spec fn acting_player(self) -> usize {
        match self {
            Phase::InitialPlacement { player, .. } => player,
            Phase::Turn { turn_phase: TurnPhase::Discard(p), .. } => p,
            Phase::Turn { player, .. } => player,
            Phase::FinishedGame { winner } => winner,
        }
    }

    pub fn player(&self) -> (res: usize)
        ensures
            res == self.acting_player(),
    {
        match self {
            Phase::InitialPlacement { player, placing_second: _, placing_road: _ } => *player,
            Phase::Turn { player: _, turn_phase: TurnPhase::Discard(player), development_phase: _ } => *player,
            Phase::Turn { player, turn_phase: _, development_phase: _ } => *player,
            Phase::FinishedGame { winner } => *winner,
        }
    }

    pub fn is_turn(&self) -> (res: bool)
        ensures
            res == (*self is Turn),
    {
        if let Phase::Turn { player: _, turn_phase: _, development_phase: _ } = self {
            true
        } else {
            false
        }
    }

    /// Moving the robber is the only legal action: the thief sub-phase, or a knight
    /// being played.
    pub open spec fn thief_pending(self) -> bool {
        match self {
            Phase::Turn { turn_phase, development_phase, .. } => turn_phase == TurnPhase::MoveThief
                || development_phase == DevelopmentPhase::KnightActive,
            _ => false,
        }
    }

    pub fn is_thief(&self) -> (res: bool)
        ensures
            res == self.thief_pending(),
    {
        if let Phase::Turn { player: _, turn_phase, development_phase } = self {
            *turn_phase == TurnPhase::MoveThief || *development_phase == DevelopmentPhase::KnightActive
        } else {
            false
        }
    }

    /// The phase after one placement of the opening rounds with `n_players` players.
    pub open spec fn placement_successor(self, n_players: usize) -> Result<Phase, RuleError> {
        match self {
            Phase::InitialPlacement { player, placing_second, placing_road } => {
                if player >= n_players {
                    Err(RuleError::IllegalPhase)
                } else if !placing_road {
                    Ok(Phase::InitialPlacement { player, placing_second, placing_road: true })
                } else if !placing_second {
                    if player + 1 < n_players {
                        Ok(Phase::InitialPlacement { player: (player + 1) as usize, placing_second: false, placing_road: false })
                    } else {
                        Ok(Phase::InitialPlacement { player, placing_second: true, placing_road: false })
                    }
                } else if player > 0 {
                    Ok(Phase::InitialPlacement { player: (player - 1) as usize, placing_second: true, placing_road: false })
                } else {
                    Ok(Self::start_turns_spec())
                }
            },
            _ => Err(RuleError::IllegalPhase),
        }
    }

    /// Advances the opening rounds past one placement (a settlement, then its road).
    pub fn next_placement(&self, n_players: usize) -> (res: Result<Phase, RuleError>)
        ensures
            res == self.placement_successor(n_players),
    {
        match *self {
            Phase::InitialPlacement { player, placing_second, placing_road } => {
                if player >= n_players {
                    Err(RuleError::IllegalPhase)
                } else if !placing_road {
                    Ok(Phase::InitialPlacement { player, placing_second, placing_road: true })
                } else if !placing_second {
                    if player + 1 < n_players {
                        Ok(Phase::InitialPlacement { player: player + 1, placing_second: false, placing_road: false })
                    } else {
                        Ok(Phase::InitialPlacement { player, placing_second: true, placing_road: false })
                    }
                } else if player > 0 {
                    Ok(Phase::InitialPlacement { player: player - 1, placing_second: true, placing_road: false })
                } else {
                    Ok(Phase::start_turns())
                }
            },
            _ => Err(RuleError::IllegalPhase),
        }
    }

    /// The phase after rolling `roll`, where `must_discard[i]` tells whether player
    /// `i` holds more than the hand-size limit.
    pub open spec fn roll_successor(self, roll: i32, must_discard: Seq<bool>) -> Result<Phase, RuleError> {
        match self {
            Phase::Turn { player, turn_phase: TurnPhase::PreRoll, development_phase } => {
                if roll == 7 {
                    Ok(Phase::Turn { player, turn_phase: discard_or_thief(must_discard, 0), development_phase })
                } else {
                    Ok(Phase::Turn { player, turn_phase: TurnPhase::Free, development_phase })
                }
            },
            _ => Err(RuleError::IllegalPhase),
        }
    }

    /// Advances past the roll: a seven leads to the discards, then to moving the
    /// robber; any other roll straight to the free part of the turn.
    pub fn after_roll(&self, roll: i32, must_discard: &Vec<bool>) -> (res: Result<Phase, RuleError>)
        ensures
            res == self.roll_successor(roll, must_discard@),
    {
        match *self {
            Phase::Turn { player, turn_phase: TurnPhase::PreRoll, development_phase } => {
                if roll == 7 {
                    Ok(Phase::Turn { player, turn_phase: next_discard_phase(must_discard, 0), development_phase })
                } else {
                    Ok(Phase::Turn { player, turn_phase: TurnPhase::Free, development_phase })
                }
            },
            _ => Err(RuleError::IllegalPhase),
        }
    }

    /// The phase after the discarding player has discarded.
    pub open spec fn discard_successor(self, must_discard: Seq<bool>) -> Result<Phase, RuleError> {
        match self {
            Phase::Turn { player, turn_phase: TurnPhase::Discard(d), development_phase } => Ok(
                Phase::Turn { player, turn_phase: discard_or_thief(must_discard, d + 1), development_phase },
            ),
            _ => Err(RuleError::IllegalPhase),
        }
    }

    /// Advances past one discard, to the next player who must discard or to moving
    /// the robber.
    pub fn after_discard(&self, must_discard: &Vec<bool>) -> (res: Result<Phase, RuleError>)
        ensures
            res == self.discard_successor(must_discard@),
    {
        match *self {
            Phase::Turn { player, turn_phase: TurnPhase::Discard(d), development_phase } => {
                if d >= must_discard.len() {
                    Ok(Phase::Turn { player, turn_phase: TurnPhase::MoveThief, development_phase })
                } else {
                    Ok(Phase::Turn { player, turn_phase: next_discard_phase(must_discard, d + 1), development_phase })
                }
            },
            _ => Err(RuleError::IllegalPhase),
        }
    }

    /// The phase after the robber has been moved.
    pub open spec fn robber_successor(self) -> Result<Phase, RuleError> {
        match self {
            Phase::Turn { player, turn_phase: TurnPhase::MoveThief, development_phase } => Ok(
                Phase::Turn { player, turn_phase: TurnPhase::Free, development_phase },
            ),
            Phase::Turn { player, turn_phase, development_phase: DevelopmentPhase::KnightActive } => Ok(
                Phase::Turn { player, turn_phase, development_phase: DevelopmentPhase::DevelopmentPlayed },
            ),
            _ => Err(RuleError::IllegalPhase),
        }
    }

    /// Advances past a robber move: from the thief sub-phase to the free part of the
    /// turn, or from a knight to a played card.
    pub fn after_robber_moved(&self) -> (res: Result<Phase, RuleError>)
        ensures
            res == self.robber_successor(),
    {
        match *self {
            Phase::Turn { player, turn_phase: TurnPhase::MoveThief, development_phase } => Ok(
                Phase::Turn { player, turn_phase: TurnPhase::Free, development_phase },
            ),
            Phase::Turn { player, turn_phase, development_phase: DevelopmentPhase::KnightActive } => Ok(
                Phase::Turn { player, turn_phase, development_phase: DevelopmentPhase::DevelopmentPlayed },
            ),
            _ => Err(RuleError::IllegalPhase),
        }
    }

    /// The phase after `winner` is declared during the main game.
    pub open spec fn finish_successor(self, winner: usize) -> Result<Phase, RuleError> {
        match self {
            Phase::Turn { .. } => Ok(Phase::FinishedGame { winner }),
            _ => Err(RuleError::IllegalPhase),
        }
    }

    /// Ends the main game with `winner`; the finished state is terminal.
    pub fn finish(&self, winner: usize) -> (res: Result<Phase, RuleError>)
        ensures
            res == self.finish_successor(winner),
    {
        match *self {
            Phase::Turn { player: _, turn_phase: _, development_phase: _ } => Ok(Phase::FinishedGame { winner }),
            _ => Err(RuleError::IllegalPhase),
        }
    }

    /// The phase after the active player ends a turn with `n_players` players.
    pub open spec fn end_turn_successor(self, n_players: usize) -> Result<Phase, RuleError> {
        match self {
            Phase::Turn { player, turn_phase: TurnPhase::Free, .. } => {
                if n_players == 0 {
                    Err(RuleError::IllegalPhase)
                } else {
                    Ok(Phase::Turn {
                        player: ((player + 1) % (n_players as int)) as usize,
                        turn_phase: TurnPhase::PreRoll,
                        development_phase: DevelopmentPhase::Ready,
                    })
                }
            },
            _ => Err(RuleError::IllegalPhase),
        }
    }

    /// Ends a free turn: the next player, in turn order, is to roll.
    pub fn end_turn(&self, n_players: usize) -> (res: Result<Phase, RuleError>)
        ensures
            res == self.end_turn_successor(n_players),
    {
        match *self {
            Phase::Turn { player, turn_phase: TurnPhase::Free, development_phase: _ } => {
                if n_players == 0 {
                    Err(RuleError::IllegalPhase)
                } else {
                    let next = ((player as u128 + 1) % (n_players as u128)) as usize;
                    Ok(Phase::Turn { player: next, turn_phase: TurnPhase::PreRoll, development_phase: DevelopmentPhase::Ready })
                }
            },
            _ => Err(RuleError::IllegalPhase),
        }
    }
}

/// The sub-phase that follows once discards from `from` on are looked at.
fn next_discard_phase(must_discard: &Vec<bool>, from: usize) -> (res: TurnPhase)
    ensures
        res == discard_or_thief(must_discard@, from as int),
{
    let mut i = from;
    while i < must_discard.len()
        invariant
            from <= i,
            first_discarder(must_discard@, from as int) == first_discarder(must_discard@, i as int),
        decreases must_discard@.len() - i,
    {
        if must_discard[i] {
            return TurnPhase::Discard(i);
        }
        i += 1;
    }
    TurnPhase::MoveThief
}

impl TurnPhase {
    /// Whether no one but the active player is bound to act: before the roll, or in
    /// the free part of the turn.
    pub fn unbound(&self) -> (res: bool)
        ensures
            res == (*self == TurnPhase::PreRoll || *self == TurnPhase::Free),
    {
        match *self {
            TurnPhase::PreRoll | TurnPhase::Free => true,
            _ => false,
        }
    }

    pub fn is_discard(&self) -> (res: bool)
        ensures
            res == (*self is Discard),
    {
        match *self {
            TurnPhase::Discard(_) => true,
            _ => false,
        }
    }
}

/// The phase after `steps` placements from `ph` with `n_players` players; a refused
/// placement stops the count where it stands.
pub open spec fn placements_from(ph: Phase, n_players: usize, steps: nat) -> Phase
    decreases steps,
{
    if steps == 0 {
        ph
    } else {
        match ph.placement_successor(n_players) {
            Ok(next) => placements_from(next, n_players, (steps - 1) as nat),
            Err(_) => ph,
        }
    }
}

proof fn lemma_placements_compose(ph: Phase, n: usize, a: nat, b: nat)
    ensures
        placements_from(ph, n, a + b) == placements_from(placements_from(ph, n, a), n, b),
    decreases a,
{
    if a == 0 {
    } else {
        match ph.placement_successor(n) {
            Ok(next) => {
                lemma_placements_compose(next, n, (a - 1) as nat, b);
                assert((a + b - 1) as nat == ((a - 1) as nat + b) as nat);
            },
            Err(_) => {
                if b > 0 {
                    assert(placements_from(ph, n, b) == ph);
                }
            },
        }
    }
}

proof fn lemma_first_round(n: usize, p: usize)
    requires
        p < n,
    ensures
        placements_from(
            Phase::InitialPlacement { player: p, placing_second: false, placing_road: false },
            n,
            (2 * (n - p)) as nat,
        ) == (Phase::InitialPlacement { player: (n - 1) as usize, placing_second: true, placing_road: false }),
    decreases n - p,
{
    let start = Phase::InitialPlacement { player: p, placing_second: false, placing_road: false };
    let road = Phase::InitialPlacement { player: p, placing_second: false, placing_road: true };
    assert(placements_from(start, n, 2) == placements_from(road, n, 1));
    if p + 1 < n {
        let next = Phase::InitialPlacement { player: (p + 1) as usize, placing_second: false, placing_road: false };
        assert(placements_from(road, n, 1) == placements_from(next, n, 0));
        lemma_first_round(n, (p + 1) as usize);
        lemma_placements_compose(start, n, 2, (2 * (n - p - 1)) as nat);
        assert((2 + 2 * (n - p - 1)) as nat == (2 * (n - p)) as nat);
    } else {
        let second = Phase::InitialPlacement { player: p, placing_second: true, placing_road: false };
        assert(placements_from(road, n, 1) == placements_from(second, n, 0));
    }
}

proof fn lemma_second_round(n: usize, p: usize)
    requires
        p < n,
    ensures
        placements_from(
            Phase::InitialPlacement { player: p, placing_second: true, placing_road: false },
            n,
            (2 * (p + 1)) as nat,
        ) == Phase::start_turns_spec(),
    decreases p,
{
    let start = Phase::InitialPlacement { player: p, placing_second: true, placing_road: false };
    let road = Phase::InitialPlacement { player: p, placing_second: true, placing_road: true };
    assert(placements_from(start, n, 2) == placements_from(road, n, 1));
    if p > 0 {
        let next = Phase::InitialPlacement { player: (p - 1) as usize, placing_second: true, placing_road: false };
        assert(placements_from(road, n, 1) == placements_from(next, n, 0));
        lemma_second_round(n, (p - 1) as usize);
        lemma_placements_compose(start, n, 2, (2 * p) as nat);
        assert((2 + 2 * p) as nat == (2 * (p + 1)) as nat);
    } else {
        assert(placements_from(road, n, 1) == placements_from(Phase::start_turns_spec(), n, 0));
    }
}

/// With `n_players` players, the two opening rounds take four placements per player
/// (a settlement and a road, twice), and then player 0 is to roll.
pub proof fn lemma_opening_rounds(n_players: usize)
    requires
        n_players >= 1,
    ensures
        placements_from(Phase::start_game_spec(), n_players, (4 * n_players) as nat) == Phase::start_turns_spec(),
{
    lemma_first_round(n_players, 0);
    lemma_second_round(n_players, (n_players - 1) as usize);
    lemma_placements_compose(Phase::start_game_spec(), n_players, (2 * n_players) as nat, (2 * n_players) as nat);
    assert((2 * n_players + 2 * n_players) as nat == (4 * n_players) as nat);
}

/// Ending a free turn of player `k` hands the roll to player `(k + 1) mod n`, with
/// nothing played yet.
pub proof fn lemma_end_turn_rotates(k: usize, dp: DevelopmentPhase, n_players: usize)
    requires
        n_players >= 1,
    ensures
        (Phase::Turn { player: k, turn_phase: TurnPhase::Free, development_phase: dp }).end_turn_successor(n_players) == Ok::<Phase, RuleError>(
            Phase::Turn {
                player: ((k + 1) % (n_players as int)) as usize,
                turn_phase: TurnPhase::PreRoll,
                development_phase: DevelopmentPhase::Ready,
            },
        ),
{
}

} // verus!
