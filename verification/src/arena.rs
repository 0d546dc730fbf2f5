//! The part of the game that takes part in rollback: each player's velocity
//! and the way the player faces, driven by the input bitmasks alone.

use crate::input::{holds, Buttons, InputFrame, INPUT_LEFT, INPUT_RIGHT, INPUT_UP};
use crate::session::SessionStage;
use crate::simulation::Simulation;
use vstd::prelude::*;

verus! {

/// The speed, in world units per second, at which a player runs and jumps.
pub const PLAYER_SPEED: i32 = 400;

/// The way a player faces.
#[derive(Clone, Copy, Debug, PartialEq, Eq, Structural)]
pub enum ViewDirection {
    Left,
    Right,
}

/// What a player's sprite shows.
#[derive(Clone, Copy, Debug, PartialEq, Eq, Structural)]
pub enum AnimationState {
    Idle,
    Running,
}

/// One player of the match.
#[derive(Clone, Copy, Debug, PartialEq, Eq, Structural)]
pub struct Player {
    /// The player slot whose input drives this player.
    pub handle: usize,
    pub velocity_x: i32,
    pub velocity_y: i32,
    pub view_direction: ViewDirection,
}

/// The player after one frame with the input `input`. Left without right
/// runs to the left, right without left to the right; up jumps; no input at
/// all stops the run. Anything else leaves the player as it is.
pub open spec fn driven(player: Player, input: u8) -> Player {
    let left = holds(input, INPUT_LEFT);
    let right = holds(input, INPUT_RIGHT);
    Player {
        handle: player.handle,
        velocity_x: if input == 0 {
            0
        } else if left && !right {
            (-PLAYER_SPEED) as i32
        } else if right && !left {
            PLAYER_SPEED
        } else {
            player.velocity_x
        },
        velocity_y: if holds(input, INPUT_UP) {
            PLAYER_SPEED
        } else {
            player.velocity_y
        },
        view_direction: if left && !right {
            ViewDirection::Left
        } else if right && !left {
            ViewDirection::Right
        } else {
            player.view_direction
        },
    }
}

/// The player after one frame with the inputs of every slot: driven by the
/// input of its own slot, and left alone where there is none for it.
pub open spec fn moved(player: Player, inputs: Seq<u8>) -> Player {
    if player.handle < inputs.len() {
        driven(player, inputs[player.handle as int])
    } else {
        player
    }
}

impl Player {
    /// A player at rest, facing right.
    pub fn new(handle: usize) -> (player: Player)
        ensures
            player == (Player {
                handle,
                velocity_x: 0,
                velocity_y: 0,
                view_direction: ViewDirection::Right,
            }),
    {
        Player { handle, velocity_x: 0, velocity_y: 0, view_direction: ViewDirection::Right }
    }

    /// Applies the input of one frame to the player.
    pub fn drive(&mut self, input: u8)
        ensures
            *final(self) == driven(*old(self), input),
    {
        assert((input & 4 != 0) == ((input / 4) % 2 == 1)) by (bit_vector);
        assert((input & 8 != 0) == ((input / 8) % 2 == 1)) by (bit_vector);
        assert((input & 1 != 0) == ((input / 1) % 2 == 1)) by (bit_vector);
        if input & INPUT_LEFT != 0 && input & INPUT_RIGHT == 0 {
            self.view_direction = ViewDirection::Left;
            self.velocity_x = -PLAYER_SPEED;
        }
        if input & INPUT_LEFT == 0 && input & INPUT_RIGHT != 0 {
            self.view_direction = ViewDirection::Right;
            self.velocity_x = PLAYER_SPEED;
        }
        if input & INPUT_UP != 0 {
            self.velocity_y = PLAYER_SPEED;
        }
        if input == 0 {
            self.velocity_x = 0;
        }
    }

    /// Whether the sprite is mirrored: it is drawn facing right.
    pub fn flip_x(&self) -> (flipped: bool)
        ensures
            flipped == (self.view_direction == ViewDirection::Left),
    {
        match self.view_direction {
            ViewDirection::Left => true,
            ViewDirection::Right => false,
        }
    }

    /// What the sprite shows: the run while the player moves sideways.
    pub fn animation_state(&self) -> (state: AnimationState)
        ensures
            state == if self.velocity_x != 0 {
                AnimationState::Running
            } else {
                AnimationState::Idle
            },
    {
        if self.velocity_x != 0 {
            AnimationState::Running
        } else {
            AnimationState::Idle
        }
    }
}

/// The player after the local controls were applied outside gameplay. The
/// first control that is held decides: up jumps; else left runs to the left;
/// else down does nothing; else right runs to the right; with none of them
/// held the run stops.
pub open spec fn steered(player: Player, buttons: Buttons) -> Player {
    if buttons.up {
        Player { velocity_y: PLAYER_SPEED, ..player }
    } else if buttons.left {
        Player {
            velocity_x: (-PLAYER_SPEED) as i32,
            view_direction: ViewDirection::Left,
            ..player
        }
    } else if buttons.down {
        player
    } else if buttons.right {
        Player { velocity_x: PLAYER_SPEED, view_direction: ViewDirection::Right, ..player }
    } else {
        Player { velocity_x: 0, ..player }
    }
}

/// Moves a player by the local controls while the match is being set up.
/// Once gameplay runs the player is left to the simulation.
pub fn local_input_system(stage: SessionStage, buttons: Buttons, player: &mut Player)
    ensures
        *final(player) == if stage == SessionStage::GameplayRunning {
            *old(player)
        } else {
            steered(*old(player), buttons)
        },
{
    if stage == SessionStage::GameplayRunning {
        return;
    }
    if buttons.up {
        player.velocity_y = PLAYER_SPEED;
    } else if buttons.left {
        player.view_direction = ViewDirection::Left;
        player.velocity_x = -PLAYER_SPEED;
    } else if buttons.down {
    } else if buttons.right {
        player.view_direction = ViewDirection::Right;
        player.velocity_x = PLAYER_SPEED;
    } else {
        player.velocity_x = 0;
    }
}

/// Where a player is put up when gameplay starts.
#[derive(Clone, Copy, Debug, PartialEq, Eq, Structural)]
pub struct Spawn {
    pub handle: usize,
    pub x: i32,
    pub y: i32,
}

/// The place of the player with the handle `handle`: the first on the left,
/// the second on the right, every other at the origin.
pub open spec fn spawn_of(handle: int) -> Spawn {
    if handle == 0 {
        Spawn { handle: 0, x: (-100) as i32, y: 80 }
    } else if handle == 1 {
        Spawn { handle: 1, x: 100, y: 80 }
    } else {
        Spawn { handle: handle as usize, x: 0, y: 0 }
    }
}

/// The players to put up when gameplay starts, in place of those that exist:
/// one for each handle of the session. Where two players exist already the
/// players are set up, and none is put up.
pub fn gameplay_players(existing: usize, num_players: usize) -> (spawn: Option<Vec<Spawn>>)
    ensures
        spawn is None <==> existing >= 2,
        spawn is Some ==> spawn->0@ == Seq::new(num_players as nat, |i: int| spawn_of(i)),
{
    if existing >= 2 {
        return None;
    }
    let mut spawn: Vec<Spawn> = Vec::new();
    let mut handle: usize = 0;
    while handle < num_players
        invariant
            handle <= num_players,
            spawn@.len() == handle,
            forall|i: int| 0 <= i < handle ==> spawn@[i] == spawn_of(i),
        decreases num_players - handle,
    {
        spawn.push(
            match handle {
                0 => Spawn { handle, x: -100, y: 80 },
                1 => Spawn { handle, x: 100, y: 80 },
                _ => Spawn { handle, x: 0, y: 0 },
            },
        );
        handle += 1;
    }
    assert(spawn@ =~= Seq::new(num_players as nat, |i: int| spawn_of(i)));
    Some(spawn)
}

/// Applies the inputs of one frame to every player: each is driven by the
/// input of its own slot.
pub fn ggrs_move_player_system(players: &mut Vec<Player>, inputs: &Vec<InputFrame>)
    ensures
        final(players)@.len() == old(players)@.len(),
        forall|i: int|
            0 <= i < old(players)@.len() ==> #[trigger] final(players)@[i] == moved(
                old(players)@[i],
                crate::input::bitmasks(inputs@),
            ),
{
    let ghost before = players@;
    let ghost masks = crate::input::bitmasks(inputs@);
    let mut i: usize = 0;
    while i < players.len()
        invariant
            i <= players@.len(),
            players@.len() == before.len(),
            masks == crate::input::bitmasks(inputs@),
            forall|k: int| 0 <= k < i ==> #[trigger] players@[k] == moved(before[k], masks),
            forall|k: int| i <= k < before.len() ==> #[trigger] players@[k] == before[k],
        decreases players@.len() - i,
    {
        let mut player: Player = players[i];
        if player.handle < inputs.len() {
            player.drive(inputs[player.handle].bitmask);
        }
        players.set(i, player);
        i += 1;
    }
}

/// One player for each of the handles `0 .. num_players`, each at rest and
/// facing right.
pub open spec fn lined_up(num_players: nat) -> Seq<Player> {
    Seq::new(
        num_players,
        |i: int|
            Player {
                handle: i as usize,
                velocity_x: 0,
                velocity_y: 0,
                view_direction: ViewDirection::Right,
            },
    )
}

/// The players of a match.
pub struct Arena {
    pub players: Vec<Player>,
}

impl View for Arena {
    type V = Seq<Player>;

    open spec fn view(&self) -> Seq<Player> {
        self.players@
    }
}

impl Arena {
    /// An arena with one player per slot, each at rest.
    pub fn new(num_players: usize) -> (arena: Arena)
        ensures
            arena@ == lined_up(num_players as nat),
    {
        let mut players: Vec<Player> = Vec::new();
        let mut handle: usize = 0;
        while handle < num_players
            invariant
                handle <= num_players,
                players@.len() == handle,
                forall|i: int|
                    0 <= i < handle ==> #[trigger] players@[i] == (Player {
                        handle: i as usize,
                        velocity_x: 0,
                        velocity_y: 0,
                        view_direction: ViewDirection::Right,
                    }),
            decreases num_players - handle,
        {
            players.push(Player::new(handle));
            handle += 1;
        }
        assert(players@ =~= lined_up(num_players as nat));
        Arena { players }
    }
}

impl Simulation for Arena {
    open spec fn step_spec(state: Seq<Player>, inputs: Seq<u8>) -> Seq<Player> {
        Seq::new(state.len(), |i: int| moved(state[i], inputs))
    }

    fn step(&mut self, inputs: &Vec<InputFrame>) {
        ggrs_move_player_system(&mut self.players, inputs);
        assert(self@ =~= Self::step_spec(old(self)@, crate::input::bitmasks(inputs@)));
    }

    fn snapshot(&self) -> (copy: Self) {
        let mut players: Vec<Player> = Vec::new();
        let mut i: usize = 0;
        while i < self.players.len()
            invariant
                i <= self.players@.len(),
                players@.len() == i,
                forall|k: int| 0 <= k < i ==> players@[k] == self.players@[k],
            decreases self.players@.len() - i,
        {
            players.push(self.players[i]);
            i += 1;
        }
        assert(players@ =~= self.players@);
        Arena { players }
    }

    fn restore(&mut self, saved: &Self) {
        let copy = saved.snapshot();
        self.players = copy.players;
    }
}

} // verus!
