//! The turn coordinator: whose move it is, each player's missile
//! eligibility and tracking board, and when the game is over.

use crate::attack::{play_turn, AttackOutcome};
use crate::board::{create_board, lemma_sunk_iff_no_ship_cells, Board, Cell, Grid};
use crate::error::GameError;
use vstd::prelude::*;

verus! {

/// One of the two players.
#[derive(Clone, Copy, Debug, PartialEq, Eq, Structural)]
pub enum Player {
    One,
    Two,
}

impl Player {
    /// The other player.
    pub open spec fn other(self) -> Player {
        match self {
            Player::One => Player::Two,
            Player::Two => Player::One,
        }
    }

    /// The other player.
    pub fn opponent(self) -> (p: Player)
        ensures
            p == self.other(),
    {
        match self {
            Player::One => Player::Two,
            Player::Two => Player::One,
        }
    }
}

/// State of the turn coordinator.
#[derive(Clone, Copy, Debug, PartialEq, Eq, Structural)]
pub enum GameState {
    AwaitingPlayer1Move,
    AwaitingPlayer2Move,
    /// The game has ended and the named player has won.
    GameOver(Player),
}

impl GameState {
    /// The player whose move is awaited, if the game is still on.
    pub open spec fn mover(self) -> Option<Player> {
        match self {
            GameState::AwaitingPlayer1Move => Some(Player::One),
            GameState::AwaitingPlayer2Move => Some(Player::Two),
            GameState::GameOver(_) => None,
        }
    }

    /// The state after a move has been resolved, given whether each
    /// player's fleet is sunk. Player two's fleet is looked at first: if it
    /// is sunk, player one has won; else if player one's fleet is sunk,
    /// player two has won; else the other player moves next. A game that is
    /// over stays over.
    pub open spec fn after_move(self, one_sunk: bool, two_sunk: bool) -> GameState {
        match self {
            GameState::GameOver(winner) => GameState::GameOver(winner),
            GameState::AwaitingPlayer1Move => if two_sunk {
                GameState::GameOver(Player::One)
            } else if one_sunk {
                GameState::GameOver(Player::Two)
            } else {
                GameState::AwaitingPlayer2Move
            },
            GameState::AwaitingPlayer2Move => if two_sunk {
                GameState::GameOver(Player::One)
            } else if one_sunk {
                GameState::GameOver(Player::Two)
            } else {
                GameState::AwaitingPlayer1Move
            },
        }
    }

    /// The player whose move is awaited, if the game is still on.
    pub fn to_move(self) -> (who: Option<Player>)
        ensures
            who == self.mover(),
    {
        match self {
            GameState::AwaitingPlayer1Move => Some(Player::One),
            GameState::AwaitingPlayer2Move => Some(Player::Two),
            GameState::GameOver(_) => None,
        }
    }

    /// The state after a move has been resolved, given whether each
    /// player's fleet is sunk.
    pub fn advance(self, one_sunk: bool, two_sunk: bool) -> (next: GameState)
        ensures
            next == self.after_move(one_sunk, two_sunk),
    {
        match self.to_move() {
            None => self,
            Some(who) => {
                if two_sunk {
                    GameState::GameOver(Player::One)
                } else if one_sunk {
                    GameState::GameOver(Player::Two)
                } else {
                    match who {
                        Player::One => GameState::AwaitingPlayer2Move,
                        Player::Two => GameState::AwaitingPlayer1Move,
                    }
                }
            },
        }
    }
}

/// The mathematical model of a game in progress.
pub struct GameModel {
    /// Player one's own board, which player two attacks.
    pub fleet_one: Grid,
    /// Player two's own board, which player one attacks.
    pub fleet_two: Grid,
    /// What player one has recorded of the attacks made on player two.
    pub seen_one: Grid,
    /// What player two has recorded of the attacks made on player one.
    pub seen_two: Grid,
    /// Whether player one holds an area missile.
    pub armed_one: bool,
    /// Whether player two holds an area missile.
    pub armed_two: bool,
    pub state: GameState,
}

impl GameModel {
    /// All four grids are well formed and of one size.
    pub open spec fn wf(self) -> bool {
        &&& self.fleet_one.wf()
        &&& self.fleet_two.wf()
        &&& self.seen_one.wf()
        &&& self.seen_two.wf()
        &&& self.fleet_two.size() == self.fleet_one.size()
        &&& self.seen_one.size() == self.fleet_one.size()
        &&& self.seen_two.size() == self.fleet_one.size()
    }

    /// The board that holds the fleet of `who`.
    pub open spec fn fleet(self, who: Player) -> Grid {
        match who {
            Player::One => self.fleet_one,
            Player::Two => self.fleet_two,
        }
    }

    /// The tracking board of `who`.
    pub open spec fn seen(self, who: Player) -> Grid {
        match who {
            Player::One => self.seen_one,
            Player::Two => self.seen_two,
        }
    }

    /// Whether `who` holds an area missile.
    pub open spec fn armed(self, who: Player) -> bool {
        match who {
            Player::One => self.armed_one,
            Player::Two => self.armed_two,
        }
    }

    /// The game at its start: nothing recorded, nobody armed, player one to
    /// move.
    pub open spec fn opening(fleet_one: Grid, fleet_two: Grid) -> GameModel {
        GameModel {
            fleet_one,
            fleet_two,
            seen_one: Grid::blank(fleet_one.size()),
            seen_two: Grid::blank(fleet_one.size()),
            armed_one: false,
            armed_two: false,
            state: GameState::AwaitingPlayer1Move,
        }
    }

    /// What a move at column `col` of row `row` reports. No move is due
    /// once the game is over, and a target outside the board is refused.
    /// A player who holds an area missile attacks with it; any other attack
    /// is a single shot.
    pub open spec fn move_verdict(self, col: int, row: int) -> Result<AttackOutcome, GameError> {
        match self.state.mover() {
            None => Err(GameError::InvalidInput),
            Some(who) => if !self.fleet(who.other()).contains(col, row) {
                Err(GameError::OutOfBounds)
            } else if self.armed(who) {
                Ok(AttackOutcome::AreaResolved)
            } else {
                Ok(self.fleet(who.other()).at(col, row).verdict())
            },
        }
    }

    /// The game after a move at column `col` of row `row`. A refused move
    /// changes nothing. A resolved move strikes the opponent's board, marks
    /// the target on the mover's tracking board, settles the mover's
    /// eligibility (spent by an area attack, gained by collecting the token)
    /// and then looks at both fleets to decide whether the game is over.
    pub open spec fn after_move(self, col: int, row: int) -> GameModel {
        match self.move_verdict(col, row) {
            Err(_) => self,
            Ok(outcome) => {
                let who = self.state.mover()->0;
                let area = self.armed(who);
                let target = self.fleet(who.other());
                let struck = if area {
                    target.blast(col, row)
                } else {
                    target.strike(col, row)
                };
                let seen = self.seen(who).with(col, row, outcome.mark());
                let armed = if area {
                    false
                } else if outcome.collects_missile() {
                    true
                } else {
                    self.armed(who)
                };
                match who {
                    Player::One => GameModel {
                        fleet_two: struck,
                        seen_one: seen,
                        armed_one: armed,
                        state: self.state.after_move(self.fleet_one.fleet_sunk(), struck.fleet_sunk()),
                        ..self
                    },
                    Player::Two => GameModel {
                        fleet_one: struck,
                        seen_two: seen,
                        armed_two: armed,
                        state: self.state.after_move(struck.fleet_sunk(), self.fleet_two.fleet_sunk()),
                        ..self
                    },
                }
            },
        }
    }
}

/// A game between two players whose fleets have been set up.
pub struct Game {
    fleet_one: Board,
    fleet_two: Board,
    seen_one: Board,
    seen_two: Board,
    armed_one: bool,
    armed_two: bool,
    state: GameState,
}

impl View for Game {
    type V = GameModel;

    closed spec fn view(&self) -> GameModel {
        GameModel {
            fleet_one: self.fleet_one@,
            fleet_two: self.fleet_two@,
            seen_one: self.seen_one@,
            seen_two: self.seen_two@,
            armed_one: self.armed_one,
            armed_two: self.armed_two,
            state: self.state,
        }
    }
}

impl Game {
    /// Starts a game on the two players' boards, which must be of one size.
    /// Player one moves first.
    pub fn new(fleet_one: Board, fleet_two: Board) -> (game: Game)
        requires
            fleet_one@.wf(),
            fleet_two@.wf(),
            fleet_one@.size() == fleet_two@.size(),
        ensures
            game@ == GameModel::opening(fleet_one@, fleet_two@),
            game@.wf(),
    {
        let size = fleet_one.size();
        let seen_one = create_board(size);
        let seen_two = create_board(size);
        Game {
            fleet_one,
            fleet_two,
            seen_one,
            seen_two,
            armed_one: false,
            armed_two: false,
            state: GameState::AwaitingPlayer1Move,
        }
    }

    /// State of the turn coordinator.
    pub fn state(&self) -> (state: GameState)
        ensures
            state == self@.state,
    {
        self.state
    }

    /// Whether `who` holds an area missile, which their next attack will
    /// spend.
    pub fn has_missile(&self, who: Player) -> (armed: bool)
        ensures
            armed == self@.armed(who),
    {
        match who {
            Player::One => self.armed_one,
            Player::Two => self.armed_two,
        }
    }

    /// The board that holds the fleet of `who`.
    pub fn fleet_board(&self, who: Player) -> (board: &Board)
        ensures
            board@ == self@.fleet(who),
    {
        match who {
            Player::One => &self.fleet_one,
            Player::Two => &self.fleet_two,
        }
    }

    /// The tracking board of `who`.
    pub fn tracking_board(&self, who: Player) -> (board: &Board)
        ensures
            board@ == self@.seen(who),
    {
        match who {
            Player::One => &self.seen_one,
            Player::Two => &self.seen_two,
        }
    }

    /// Plays the move of the player who is due at column `col` of row `row`.
    ///
    /// Once the game is over no move is due, and the request is refused with
    /// `InvalidInput`; a target outside the board is refused with
    /// `OutOfBounds`. A refused move changes nothing and the same player
    /// stays due. Any other move is resolved against the opponent's board,
    /// as an area attack if the mover holds a missile and as a single shot
    /// otherwise, and the game moves on as `GameModel::after_move` says.
    pub fn take_turn(&mut self, col: usize, row: usize) -> (result: Result<
        AttackOutcome,
        GameError,
    >)
        requires
            old(self)@.wf(),
        ensures
            final(self)@.wf(),
            result == old(self)@.move_verdict(col as int, row as int),
            final(self)@ == old(self)@.after_move(col as int, row as int),
    {
        let who = match self.state.to_move() {
            None => {
                return Err(GameError::InvalidInput);
            },
            Some(who) => who,
        };
        let area = self.has_missile(who);
        let resolved = match who {
            Player::One => play_turn(&mut self.fleet_two, col, row, area),
            Player::Two => play_turn(&mut self.fleet_one, col, row, area),
        };
        let outcome = match resolved {
            Err(e) => {
                return Err(e);
            },
            Ok(outcome) => outcome,
        };
        let armed = if area {
            false
        } else if outcome.missile_collected() {
            true
        } else {
            area
        };
        match who {
            Player::One => {
                self.seen_one.put(col, row, outcome.marker());
                self.armed_one = armed;
            },
            Player::Two => {
                self.seen_two.put(col, row, outcome.marker());
                self.armed_two = armed;
            },
        }
        let one_sunk = self.fleet_one.fleet_sunk();
        let two_sunk = self.fleet_two.fleet_sunk();
        self.state = self.state.advance(one_sunk, two_sunk);
        Ok(outcome)
    }
}

/// Collecting the missile token arms the player who collected it, turns the
/// token's cell into a hit, and leaves the opponent's eligibility alone.
pub proof fn collecting_token_arms_mover(game: GameModel, who: Player, col: int, row: int)
    requires
        game.wf(),
        game.state.mover() == Some(who),
        !game.armed(who),
        game.fleet(who.other()).contains(col, row),
        game.fleet(who.other()).at(col, row) == Cell::MissileToken,
    ensures
        game.move_verdict(col, row) == Ok::<AttackOutcome, GameError>(
            AttackOutcome::MissileCollected,
        ),
        game.after_move(col, row).armed(who),
        game.after_move(col, row).armed(who.other()) == game.armed(who.other()),
        game.after_move(col, row).fleet(who.other()).at(col, row) == Cell::Hit,
        game.after_move(col, row).seen(who).at(col, row) == Cell::Hit,
{
}

/// A single shot arms the mover exactly when it collects the token.
pub proof fn single_shot_arms_only_by_token(game: GameModel, who: Player, col: int, row: int)
    requires
        game.wf(),
        game.state.mover() == Some(who),
        !game.armed(who),
        game.fleet(who.other()).contains(col, row),
    ensures
        game.after_move(col, row).armed(who) == (game.fleet(who.other()).at(col, row)
            == Cell::MissileToken),
{
}

/// An area attack spends the mover's missile whatever the block held, even
/// the token, and leaves the opponent's eligibility alone.
pub proof fn area_attack_disarms_mover(game: GameModel, who: Player, col: int, row: int)
    requires
        game.wf(),
        game.state.mover() == Some(who),
        game.armed(who),
        game.fleet(who.other()).contains(col, row),
    ensures
        game.move_verdict(col, row) == Ok::<AttackOutcome, GameError>(AttackOutcome::AreaResolved),
        !game.after_move(col, row).armed(who),
        game.after_move(col, row).armed(who.other()) == game.armed(who.other()),
        game.after_move(col, row).fleet(who.other()) == game.fleet(who.other()).blast(col, row),
        game.after_move(col, row).seen(who) == game.seen(who).with(col, row, Cell::Miss),
{
}

/// After a resolved move the game is over exactly when a fleet is sunk, and
/// the win goes to the other player: to player one if player two's fleet is
/// sunk, to player two if only player one's fleet is sunk. Otherwise the
/// other player moves next.
pub proof fn sunk_fleet_ends_game(game: GameModel, who: Player, col: int, row: int)
    requires
        game.wf(),
        game.state.mover() == Some(who),
        game.fleet(who.other()).contains(col, row),
    ensures
        ({
            let next = game.after_move(col, row);
            &&& next.wf()
            &&& next.fleet_two.ship_cells() == 0 ==> next.state == GameState::GameOver(Player::One)
            &&& next.fleet_one.ship_cells() == 0 && next.fleet_two.ship_cells() != 0 ==> next.state
                == GameState::GameOver(Player::Two)
            &&& next.fleet_one.ship_cells() != 0 && next.fleet_two.ship_cells() != 0
                ==> next.state.mover() == Some(who.other())
        }),
{
    let next = game.after_move(col, row);
    let target = game.fleet(who.other());
    assert(target.rows[row].len() == target.size());
    assert(game.seen(who).rows[row].len() == game.seen(who).size());
    lemma_sunk_iff_no_ship_cells(next.fleet_one);
    lemma_sunk_iff_no_ship_cells(next.fleet_two);
}

/// A refused move changes nothing: the same player stays due.
pub proof fn refused_move_changes_nothing(game: GameModel, col: int, row: int)
    requires
        game.move_verdict(col, row) is Err,
    ensures
        game.after_move(col, row) == game,
        game.move_verdict(col, row) == if game.state.mover() is None {
            Err::<AttackOutcome, GameError>(GameError::InvalidInput)
        } else {
            Err::<AttackOutcome, GameError>(GameError::OutOfBounds)
        },
{
}

} // verus!
