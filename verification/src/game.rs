//! The game: its ships and projectiles, and what one tick does to them.

use crate::entity::{
    collides_with, overlap, Kinematic, KinematicData, Player, PlayerCtrl, PlayerCtrlView,
    PlayerRepr, PlayerReprView, PlayerView, Projectile, ProjectileType, IDLE_COST, LASER_DAMAGE,
    METAL_DAMAGE, PLAYER_RADIUS, SPAWN_RADIUS,
};
use crate::fixed::{quotient, saturate, Fixed, SCALE};
use crate::ranking::{ascending, lemma_ranked, rank, ranked};
use crate::vector::{Heading, Vec2};
use vstd::prelude::*;

verus! {

/// The state of the arena. Players stand in the order in which they
/// joined, projectiles in the order in which they were fired.
pub struct Game {
    pub players: Vec<Player>,
    pub projectiles: Vec<Projectile>,
}

/// The mathematical content of a `Game`.
pub struct GameView {
    pub players: Seq<PlayerView>,
    pub projectiles: Seq<Projectile>,
}

/// The mathematical content of a sequence of players.
pub open spec fn views(players: Seq<Player>) -> Seq<PlayerView> {
    Seq::new(players.len(), |j: int| players[j]@)
}

impl View for Game {
    type V = GameView;

    open spec fn view(&self) -> GameView {
        GameView { players: views(self.players@), projectiles: self.projectiles@ }
    }
}

/// The projectile after the flight of one tick: a live one is integrated
/// with its thrust along `heading`, a deactivated one stays as it is.
pub open spec fn flown(shot: Projectile, dt: Fixed, heading: Heading) -> Projectile {
    if shot.bullet.is_live() {
        Projectile { kinematics: shot.kinematics.integrate(dt, heading), ..shot }
    } else {
        shot
    }
}

/// Whether the projectile, where it now is, strikes a ship at `ship`.
pub open spec fn strikes(shot: Projectile, ship: Vec2) -> bool {
    shot.bullet.is_live() && overlap(
        ship,
        Fixed { raw: PLAYER_RADIUS },
        shot.kinematics.location,
        shot.bullet.radius(),
    )
}

/// Whether the projectile strikes one of the first `upto` ships.
pub open spec fn strikes_any(shot: Projectile, players: Seq<PlayerView>, upto: int) -> bool {
    exists|j: int|
        0 <= j < upto && j < players.len() && strikes(shot, players[j].kinematics.location)
}

/// The projectile after the projectile phase of a tick: flown, and
/// deactivated if it then strikes at least one ship.
pub open spec fn resolved(
    shot: Projectile,
    players: Seq<PlayerView>,
    dt: Fixed,
    heading: Heading,
) -> Projectile {
    let moved = flown(shot, dt, heading);
    if strikes_any(moved, players, players.len() as int) {
        Projectile { bullet: ProjectileType::Deactivated, ..moved }
    } else {
        moved
    }
}

/// The health, in raw units, that the first `upto` projectiles take in one
/// tick from a ship at `ship`: each one that strikes it after its flight
/// takes the damage of its kind. `shot_headings` holds the heading of each
/// projectile's flight.
pub open spec fn harm(
    shots: Seq<Projectile>,
    shot_headings: Seq<Heading>,
    ship: Vec2,
    dt: Fixed,
    upto: int,
) -> int
    decreases upto,
{
    if upto <= 0 {
        0
    } else {
        harm(shots, shot_headings, ship, dt, upto - 1) + if strikes(
            flown(shots[upto - 1], dt, shot_headings[upto - 1]),
            ship,
        ) {
            shots[upto - 1].bullet.damage().raw as int
        } else {
            0
        }
    }
}

/// The ship after the projectile phase of a tick.
pub open spec fn struck(
    target: PlayerView,
    shots: Seq<Projectile>,
    shot_headings: Seq<Heading>,
    dt: Fixed,
) -> PlayerView {
    PlayerView {
        health: Fixed {
            raw: saturate(
                target.health.raw - harm(
                    shots,
                    shot_headings,
                    target.kinematics.location,
                    dt,
                    shots.len() as int,
                ),
            ),
        },
        ..target
    }
}

/// What the ship, having moved, fires in one tick: a metal slug if it
/// fires metal, then a laser bolt if it fires laser.
pub open spec fn salvo(shooter: PlayerView, heading: Heading, origin: usize) -> Seq<Projectile> {
    let metal = if shooter.fires_metal() {
        seq![Projectile::metal(shooter.kinematics, heading, origin)]
    } else {
        Seq::empty()
    };
    if shooter.fires_laser() {
        metal.push(Projectile::laser(shooter.kinematics, heading, origin))
    } else {
        metal
    }
}

/// What the first `upto` ships fire in one tick, ship after ship.
pub open spec fn volley(players: Seq<PlayerView>, headings: Seq<Heading>, upto: int) -> Seq<
    Projectile,
>
    decreases upto,
{
    if upto <= 0 {
        Seq::empty()
    } else {
        volley(players, headings, upto - 1) + salvo(
            players[upto - 1],
            headings[upto - 1],
            (upto - 1) as usize,
        )
    }
}

/// The kinematics of the players, in the order in which they joined.
pub open spec fn roster(players: Seq<PlayerView>) -> Seq<KinematicData> {
    Seq::new(players.len(), |j: int| players[j].kinematics)
}

/// What the player at `k` is told after a tick: the kinematics of every
/// player, its own among them, in ascending distance from where it is.
/// Players at the same distance stand as in the list told to the player
/// before it, and for the first player as they joined.
pub open spec fn feedback_for(players: Seq<PlayerView>, k: int) -> Seq<KinematicData>
    decreases k,
{
    if k <= 0 {
        ranked(roster(players), players[0].kinematics.location, players.len() as int)
    } else {
        let previous = feedback_for(players, k - 1);
        ranked(previous, players[k].kinematics.location, previous.len() as int)
    }
}

/// What observers are shown of a player.
pub open spec fn portrait(player: PlayerView) -> PlayerReprView {
    PlayerReprView {
        name: player.name,
        health: player.health,
        energy: player.energy,
        kinematics: player.kinematics,
    }
}

impl GameView {
    /// The game once a player has been spawned at `spawn`.
    pub open spec fn joined(self, spawn: Vec2) -> GameView {
        GameView { players: self.players.push(PlayerView::spawned(spawn)), ..self }
    }

    /// The game once a frame has arrived for the player at `id`: an active
    /// player is steered by it, anything else leaves the game as it was.
    pub open spec fn commanded(self, id: int, frame: PlayerCtrlView) -> GameView {
        if 0 <= id < self.players.len() && self.players[id].is_active() {
            GameView { players: self.players.update(id, self.players[id].steered(frame)), ..self }
        } else {
            self
        }
    }

    /// The players after one tick: each is struck by the projectiles, then
    /// moves along its heading and pays its upkeep.
    pub open spec fn ticked_players(
        self,
        dt: Fixed,
        headings: Seq<Heading>,
        shot_headings: Seq<Heading>,
    ) -> Seq<PlayerView> {
        Seq::new(
            self.players.len(),
            |j: int|
                struck(self.players[j], self.projectiles, shot_headings, dt).advanced(
                    dt,
                    headings[j],
                ),
        )
    }

    /// The game after one tick. `headings` holds the heading of each
    /// player's step, `shot_headings` the heading of each projectile's
    /// flight. The projectiles in flight come first, each flown and
    /// resolved against the ships where they stood; behind them come the
    /// projectiles fired in this tick.
    pub open spec fn ticked(
        self,
        dt: Fixed,
        headings: Seq<Heading>,
        shot_headings: Seq<Heading>,
    ) -> GameView {
        let players = self.ticked_players(dt, headings, shot_headings);
        GameView {
            players,
            projectiles: Seq::new(
                self.projectiles.len(),
                |i: int| resolved(self.projectiles[i], self.players, dt, shot_headings[i]),
            ) + volley(players, headings, players.len() as int),
        }
    }
}

/// No projectile gives health back.
pub proof fn lemma_harm_nonnegative(
    shots: Seq<Projectile>,
    shot_headings: Seq<Heading>,
    ship: Vec2,
    dt: Fixed,
    upto: int,
)
    ensures
        harm(shots, shot_headings, ship, dt, upto) >= 0,
    decreases upto,
{
    if upto > 0 {
        lemma_harm_nonnegative(shots, shot_headings, ship, dt, upto - 1);
    }
}

/// The ship after one projectile has been resolved against it.
spec fn wounded(target: PlayerView, shot: Projectile) -> PlayerView {
    if strikes(shot, target.kinematics.location) {
        PlayerView { health: target.health.minus(shot.bullet.damage()), ..target }
    } else {
        target
    }
}

/// The ship after the first `upto` projectiles of a tick have been
/// resolved against it.
spec fn struck_by_first(
    target: PlayerView,
    shots: Seq<Projectile>,
    shot_headings: Seq<Heading>,
    dt: Fixed,
    upto: int,
) -> PlayerView {
    PlayerView {
        health: Fixed {
            raw: saturate(
                target.health.raw - harm(
                    shots,
                    shot_headings,
                    target.kinematics.location,
                    dt,
                    upto,
                ),
            ),
        },
        ..target
    }
}

proof fn lemma_struck_step(
    target: PlayerView,
    shots: Seq<Projectile>,
    shot_headings: Seq<Heading>,
    dt: Fixed,
    upto: int,
)
    requires
        0 <= upto < shots.len(),
    ensures
        wounded(
            struck_by_first(target, shots, shot_headings, dt, upto),
            flown(shots[upto], dt, shot_headings[upto]),
        ) == struck_by_first(target, shots, shot_headings, dt, upto + 1),
{
    lemma_harm_nonnegative(shots, shot_headings, target.kinematics.location, dt, upto);
}

proof fn lemma_strikes_any_by_location(
    shot: Projectile,
    a: Seq<PlayerView>,
    b: Seq<PlayerView>,
    upto: int,
)
    requires
        a.len() == b.len(),
        forall|j: int|
            0 <= j < a.len() ==> (#[trigger] a[j]).kinematics.location == b[j].kinematics.location,
    ensures
        strikes_any(shot, a, upto) == strikes_any(shot, b, upto),
{
    if strikes_any(shot, a, upto) {
        let j = choose|j: int|
            0 <= j < upto && j < a.len() && strikes(shot, a[j].kinematics.location);
        assert(strikes(shot, b[j].kinematics.location));
    }
    if strikes_any(shot, b, upto) {
        let j = choose|j: int|
            0 <= j < upto && j < b.len() && strikes(shot, b[j].kinematics.location);
        assert(strikes(shot, a[j].kinematics.location));
    }
}

/// Resolves one projectile against every ship: each ship it strikes loses
/// the damage of its kind. Returns whether it struck any.
fn strike_ships(players: &mut Vec<Player>, shot: Projectile) -> (hit: bool)
    ensures
        final(players)@.len() == old(players)@.len(),
        forall|j: int|
            0 <= j < old(players)@.len() ==> (#[trigger] final(players)@[j])@ == wounded(
                old(players)@[j]@,
                shot,
            ),
        hit == strikes_any(shot, views(old(players)@), old(players)@.len() as int),
{
    let mut hit = false;
    if !shot.bullet.is_live() {
        return hit;
    }
    let count = players.len();
    let mut j: usize = 0;
    while j < count
        invariant
            j <= count,
            count == old(players)@.len(),
            players@.len() == count,
            shot.bullet.is_live(),
            forall|k: int|
                0 <= k < j ==> (#[trigger] players@[k])@ == wounded(old(players)@[k]@, shot),
            forall|k: int| j <= k < count ==> (#[trigger] players@[k]) == old(players)@[k],
            hit == strikes_any(shot, views(old(players)@), j as int),
        decreases count - j,
    {
        let ghost target = players@[j as int]@;
        if collides_with(&players[j], &shot) {
            players[j].health = players[j].health.minus(shot.bullet.damage());
            hit = true;
            assert(strikes(shot, views(old(players)@)[j as int].kinematics.location));
        }
        assert(players@[j as int]@ == wounded(target, shot));
        j += 1;
    }
    hit
}

/// Moves every ship along its heading, lets it fire, and charges it its
/// upkeep.
fn advance_ships(
    players: &mut Vec<Player>,
    projectiles: &mut Vec<Projectile>,
    dt: Fixed,
    headings: &[Heading],
)
    requires
        headings@.len() == old(players)@.len(),
    ensures
        views(final(players)@) == Seq::new(
            old(players)@.len(),
            |j: int| views(old(players)@)[j].advanced(dt, headings@[j]),
        ),
        final(projectiles)@ == old(projectiles)@ + volley(
            views(final(players)@),
            headings@,
            old(players)@.len() as int,
        ),
{
    let count = players.len();
    let ghost target = Seq::new(
        old(players)@.len(),
        |j: int| views(old(players)@)[j].advanced(dt, headings@[j]),
    );
    let mut j: usize = 0;
    while j < count
        invariant
            j <= count,
            count == old(players)@.len(),
            count == headings@.len(),
            players@.len() == count,
            target == Seq::new(
                old(players)@.len(),
                |j: int| views(old(players)@)[j].advanced(dt, headings@[j]),
            ),
            forall|k: int| 0 <= k < j ==> (#[trigger] players@[k])@ == target[k],
            forall|k: int| j <= k < count ==> (#[trigger] players@[k]) == old(players)@[k],
            projectiles@ == old(projectiles)@ + volley(target, headings@, j as int),
        decreases count - j,
    {
        let heading = headings[j];
        let cost = players[j].upkeep();
        players[j].update(dt, heading);
        let moved = players[j].kinematics;
        let ghost fired = projectiles@;
        if let Some(true) = players[j].inputs.metal_bullet {
            projectiles.push(Projectile::metal(moved, heading, j));
        }
        if let Some(true) = players[j].inputs.laser_bullet {
            projectiles.push(Projectile::laser(moved, heading, j));
        }
        players[j].energy = players[j].energy.minus(cost);
        assert(players@[j as int]@ == target[j as int]);
        assert(projectiles@ =~= fired + salvo(target[j as int], headings@[j as int], j));
        assert(projectiles@ =~= old(projectiles)@ + volley(target, headings@, j + 1));
        j += 1;
    }
    assert(views(players@) =~= target);
}

impl Game {
    /// An arena with nobody in it.
    pub fn new() -> (r: Game)
        ensures
            r@.players.len() == 0,
            r@.projectiles.len() == 0,
    {
        Game { players: Vec::new(), projectiles: Vec::new() }
    }

    /// The spawn point in the direction `bearing`: the point of the spawn
    /// circle that lies that way from the origin.
    pub fn spawn_point(bearing: Heading) -> (spawn: Vec2)
        ensures
            spawn == bearing.along(Fixed { raw: SPAWN_RADIUS }),
    {
        bearing.along(Fixed { raw: SPAWN_RADIUS })
    }

    /// Spawns a player at `spawn` and returns its place in the sequence of
    /// players.
    pub fn initialize_player(&mut self, spawn: Vec2) -> (id: usize)
        ensures
            final(self)@ == old(self)@.joined(spawn),
            id == old(self)@.players.len(),
    {
        let id = self.players.len();
        self.players.push(Player::spawned(spawn));
        assert(self@.players =~= old(self)@.joined(spawn).players);
        id
    }

    /// Hands one frame of control input to the player at `id`. Returns
    /// whether the player listened: a player whose health or energy is
    /// used up, or that does not exist, does not, and nothing changes.
    pub fn process_player_input(&mut self, id: usize, frame: PlayerCtrl) -> (heard: bool)
        ensures
            heard == (id < old(self)@.players.len() && old(self)@.players[id as int].is_active()),
            final(self)@ == old(self)@.commanded(id as int, frame@),
    {
        if id < self.players.len() && self.players[id].is_active() {
            self.players[id].steer(frame);
            assert(self@.players =~= old(self)@.commanded(id as int, frame@).players);
            true
        } else {
            false
        }
    }

    /// The angle each player will face after a tick of `dt`, player by
    /// player: the angles whose headings `physics` is to be given.
    pub fn next_angles(&self, dt: Fixed) -> (angles: Vec<Fixed>)
        ensures
            angles@.len() == self@.players.len(),
            forall|j: int|
                0 <= j < angles@.len() ==> angles@[j] == self@.players[j].kinematics.next_theta(dt),
    {
        let mut angles: Vec<Fixed> = Vec::new();
        let mut j: usize = 0;
        while j < self.players.len()
            invariant
                j <= self.players@.len(),
                angles@.len() == j,
                forall|k: int|
                    0 <= k < j ==> angles@[k] == self@.players[k].kinematics.next_theta(dt),
            decreases self.players@.len() - j,
        {
            angles.push(self.players[j].kinematics.next_theta(dt));
            j += 1;
        }
        angles
    }

    /// The angle each projectile will face after a tick of `dt`,
    /// projectile by projectile: the angles whose headings `physics` is to
    /// be given for the projectiles. A deactivated projectile has its
    /// place in the list, though it does not fly.
    pub fn next_shot_angles(&self, dt: Fixed) -> (angles: Vec<Fixed>)
        ensures
            angles@.len() == self@.projectiles.len(),
            forall|i: int|
                0 <= i < angles@.len() ==> angles@[i] == self@.projectiles[i].kinematics.next_theta(
                    dt,
                ),
    {
        let mut angles: Vec<Fixed> = Vec::new();
        let mut i: usize = 0;
        while i < self.projectiles.len()
            invariant
                i <= self.projectiles@.len(),
                angles@.len() == i,
                forall|k: int|
                    0 <= k < i ==> angles@[k] == self@.projectiles[k].kinematics.next_theta(dt),
            decreases self.projectiles@.len() - i,
        {
            angles.push(self.projectiles[i].kinematics.next_theta(dt));
            i += 1;
        }
        angles
    }

    /// What each player is to be told, player by player.
    pub fn feedback(&self) -> (lists: Vec<Vec<KinematicData>>)
        ensures
            lists@.len() == self@.players.len(),
            forall|k: int| 0 <= k < lists@.len() ==> lists@[k]@ == feedback_for(self@.players, k),
    {
        let count = self.players.len();
        let mut everyone: Vec<KinematicData> = Vec::new();
        let mut j: usize = 0;
        while j < count
            invariant
                j <= count,
                count == self.players@.len(),
                everyone@.len() == j,
                forall|k: int| 0 <= k < j ==> everyone@[k] == roster(self@.players)[k],
            decreases count - j,
        {
            everyone.push(self.players[j].kinematics);
            j += 1;
        }
        assert(everyone@ =~= roster(self@.players));
        let mut lists: Vec<Vec<KinematicData>> = Vec::new();
        let mut k: usize = 0;
        while k < count
            invariant
                k <= count,
                count == self.players@.len(),
                everyone@ == roster(self@.players),
                lists@.len() == k,
                forall|i: int|
                    0 <= i < k ==> (#[trigger] lists@[i])@ == feedback_for(self@.players, i),
            decreases count - k,
        {
            let from = self.players[k].kinematics.location;
            let list = if k == 0 {
                rank(&everyone, from)
            } else {
                rank(&lists[k - 1], from)
            };
            lists.push(list);
            k += 1;
        }
        lists
    }

    /// What observers are shown: every player, in the order in which they
    /// joined.
    pub fn snapshot(&self) -> (shown: Vec<PlayerRepr>)
        ensures
            shown@.len() == self@.players.len(),
            forall|j: int|
                0 <= j < shown@.len() ==> (#[trigger] shown@[j])@ == portrait(self@.players[j]),
    {
        let mut shown: Vec<PlayerRepr> = Vec::new();
        let mut j: usize = 0;
        while j < self.players.len()
            invariant
                j <= self.players@.len(),
                shown@.len() == j,
                forall|k: int| 0 <= k < j ==> (#[trigger] shown@[k])@ == portrait(self@.players[k]),
            decreases self.players@.len() - j,
        {
            let player = &self.players[j];
            shown.push(
                PlayerRepr {
                    name: player.name.clone(),
                    health: player.health,
                    energy: player.energy,
                    kinematics: player.kinematics,
                },
            );
            j += 1;
        }
        shown
    }

    /// One tick of `dt`. First every live projectile is integrated, with
    /// its thrust along its heading, and resolved against every ship: each
    /// ship it strikes loses the damage of its kind, and a projectile that
    /// struck is deactivated. Then every ship moves with its thrust along
    /// its heading, fires what it is set to fire, and pays its upkeep.
    ///
    /// `headings` holds, player by player, the heading of the angle that
    /// `next_angles` gives; `shot_headings` holds, projectile by
    /// projectile, the heading of the angle that `next_shot_angles` gives.
    ///
    /// Returns whether the tick was taken: it is not, and nothing changes,
    /// unless there is one heading for each player and one for each
    /// projectile.
    pub fn physics(
        &mut self,
        dt: Fixed,
        headings: &[Heading],
        shot_headings: &[Heading],
    ) -> (taken: bool)
        ensures
            taken == (headings@.len() == old(self)@.players.len() && shot_headings@.len()
                == old(self)@.projectiles.len()),
            final(self)@ == if taken {
                old(self)@.ticked(dt, headings@, shot_headings@)
            } else {
                old(self)@
            },
    {
        if headings.len() != self.players.len() || shot_headings.len() != self.projectiles.len() {
            return false;
        }
        let ghost before = self@;
        let shots = self.projectiles.len();
        let mut i: usize = 0;
        while i < shots
            invariant
                i <= shots,
                shots == before.projectiles.len(),
                shots == shot_headings@.len(),
                self.projectiles@.len() == shots,
                self.players@.len() == before.players.len(),
                forall|k: int|
                    0 <= k < i ==> self.projectiles@[k] == resolved(
                        before.projectiles[k],
                        before.players,
                        dt,
                        shot_headings@[k],
                    ),
                forall|k: int| i <= k < shots ==> self.projectiles@[k] == before.projectiles[k],
                forall|j: int|
                    0 <= j < before.players.len() ==> (#[trigger] self.players@[j])@
                        == struck_by_first(
                        before.players[j],
                        before.projectiles,
                        shot_headings@,
                        dt,
                        i as int,
                    ),
            decreases shots - i,
        {
            let ghost ships = self.players@;
            let mut shot = self.projectiles[i];
            if shot.bullet.is_live() {
                shot.update(dt, shot_headings[i]);
            }
            assert(shot == flown(before.projectiles[i as int], dt, shot_headings@[i as int]));
            let hit = strike_ships(&mut self.players, shot);
            assert forall|j: int| 0 <= j < before.players.len() implies (
            #[trigger] self.players@[j])@ == struck_by_first(
                before.players[j],
                before.projectiles,
                shot_headings@,
                dt,
                i + 1,
            ) by {
                lemma_struck_step(
                    before.players[j],
                    before.projectiles,
                    shot_headings@,
                    dt,
                    i as int,
                );
                assert(ships[j]@ == struck_by_first(
                    before.players[j],
                    before.projectiles,
                    shot_headings@,
                    dt,
                    i as int,
                ));
            }
            assert(hit == strikes_any(shot, before.players, before.players.len() as int)) by {
                assert forall|j: int| 0 <= j < ships.len() implies (#[trigger] views(
                    ships,
                )[j]).kinematics.location == before.players[j].kinematics.location by {
                    assert(ships[j]@ == struck_by_first(
                        before.players[j],
                        before.projectiles,
                        shot_headings@,
                        dt,
                        i as int,
                    ));
                }
                lemma_strikes_any_by_location(
                    shot,
                    views(ships),
                    before.players,
                    ships.len() as int,
                );
            }
            if hit {
                shot.bullet = ProjectileType::Deactivated;
            }
            self.projectiles[i] = shot;
            i += 1;
        }
        advance_ships(&mut self.players, &mut self.projectiles, dt, headings);
        proof {
            let after = before.ticked(dt, headings@, shot_headings@);
            assert forall|j: int| 0 <= j < before.players.len() implies struck_by_first(
                before.players[j],
                before.projectiles,
                shot_headings@,
                dt,
                shots as int,
            ) == struck(before.players[j], before.projectiles, shot_headings@, dt) by {}
            assert(self@.players =~= after.players);
            assert(self@.projectiles =~= after.projectiles);
        }
        true
    }
}

/// What a player is told holds every player once, its own kinematics
/// among them, in ascending distance from where that player is. So the
/// list begins with an entry at distance zero: the player itself, or a
/// player at the same place.
pub proof fn lemma_feedback_sorted(players: Seq<PlayerView>, k: int)
    requires
        0 <= k < players.len(),
    ensures
        feedback_for(players, k).len() == players.len(),
        ascending(feedback_for(players, k), players[k].kinematics.location),
        feedback_for(players, k).to_multiset() == roster(players).to_multiset(),
        feedback_for(players, k).contains(players[k].kinematics),
        feedback_for(players, k)[0].location.distance_key(players[k].kinematics.location) == 0,
    decreases k,
{
    broadcast use vstd::seq_lib::group_to_multiset_ensures;

    let everyone = roster(players);
    let told = feedback_for(players, k);
    let home = players[k].kinematics;
    if k == 0 {
        lemma_ranked(everyone, home.location, everyone.len() as int);
        assert(everyone.take(everyone.len() as int) =~= everyone);
    } else {
        lemma_feedback_sorted(players, k - 1);
        let previous = feedback_for(players, k - 1);
        lemma_ranked(previous, home.location, previous.len() as int);
        assert(previous.take(previous.len() as int) =~= previous);
    }
    assert(everyone[k] == home);
    assert(everyone.contains(home));
    assert(told.to_multiset().count(home) > 0);
    assert(told.contains(home));
    let at = choose|at: int| 0 <= at < told.len() && told[at] == home;
    home.location.lemma_distance_squared_symmetric(home.location);
    assert(told[0].location.distance_key(home.location) <= told[at].location.distance_key(
        home.location,
    ));
}

/// A tick removes nobody and nothing. Every player keeps its place, its
/// name and its controls, and its health does not rise; every projectile
/// keeps its place and its origin; what is fired stands behind. If every
/// projectile named a player as its origin before the tick, every
/// projectile does so after it; and if every projectile was unpowered
/// before the tick, every projectile is so after it.
pub proof fn lemma_tick_keeps_roster(
    game: GameView,
    dt: Fixed,
    headings: Seq<Heading>,
    shot_headings: Seq<Heading>,
)
    ensures
        ({
            let after = game.ticked(dt, headings, shot_headings);
            &&& after.players.len() == game.players.len()
            &&& forall|j: int|
                0 <= j < game.players.len() ==> {
                    let player = #[trigger] after.players[j];
                    &&& player.name == game.players[j].name
                    &&& player.inputs == game.players[j].inputs
                    &&& player.health.raw <= game.players[j].health.raw
                }
            &&& after.projectiles.len() >= game.projectiles.len()
            &&& forall|i: int|
                0 <= i < game.projectiles.len() ==> (#[trigger] after.projectiles[i]).origin
                    == game.projectiles[i].origin
            &&& (forall|i: int|
                0 <= i < game.projectiles.len() ==> (#[trigger] game.projectiles[i]).origin
                    < game.players.len()) ==> (forall|i: int|
                0 <= i < after.projectiles.len() ==> (#[trigger] after.projectiles[i]).origin
                    < game.players.len())
            &&& (forall|i: int|
                0 <= i < game.projectiles.len() ==> (
                #[trigger] game.projectiles[i]).kinematics.acceleration.raw == 0) ==> (forall|
                i: int,
            |
                0 <= i < after.projectiles.len() ==> (
                #[trigger] after.projectiles[i]).kinematics.acceleration.raw == 0)
        }),
{
    let after = game.ticked(dt, headings, shot_headings);
    assert forall|j: int| 0 <= j < game.players.len() implies (
    #[trigger] after.players[j]).health.raw <= game.players[j].health.raw by {
        lemma_harm_nonnegative(
            game.projectiles,
            shot_headings,
            game.players[j].kinematics.location,
            dt,
            game.projectiles.len() as int,
        );
    }
    lemma_volley_origins(after.players, headings, after.players.len() as int);
}

proof fn lemma_volley_origins(players: Seq<PlayerView>, headings: Seq<Heading>, upto: int)
    requires
        0 <= upto <= players.len(),
    ensures
        forall|i: int|
            0 <= i < volley(players, headings, upto).len() ==> {
                let fired = #[trigger] volley(players, headings, upto)[i];
                fired.origin < upto && fired.kinematics.acceleration.raw == 0
            },
    decreases upto,
{
    if upto > 0 {
        lemma_volley_origins(players, headings, upto - 1);
    }
}

/// What a tick does to a live projectile. It is integrated, with its
/// thrust along its heading. It is deactivated if and only if, where it
/// then is, a ship lies within the sum of the two radii; otherwise it
/// keeps its kind.
pub proof fn lemma_flight_and_resolution(
    game: GameView,
    dt: Fixed,
    headings: Seq<Heading>,
    shot_headings: Seq<Heading>,
    i: int,
)
    requires
        0 <= i < game.projectiles.len(),
        game.projectiles[i].bullet.is_live(),
    ensures
        ({
            let before = game.projectiles[i];
            let after = game.ticked(dt, headings, shot_headings).projectiles[i];
            let reached = exists|j: int|
                0 <= j < game.players.len() && overlap(
                    (#[trigger] game.players[j]).kinematics.location,
                    Fixed { raw: PLAYER_RADIUS },
                    after.kinematics.location,
                    before.bullet.radius(),
                );
            &&& after.kinematics == before.kinematics.integrate(dt, shot_headings[i])
            &&& after.origin == before.origin
            &&& after.bullet == ProjectileType::Deactivated <==> reached
            &&& !reached ==> after.bullet == before.bullet
        }),
{
    let before = game.projectiles[i];
    let moved = flown(before, dt, shot_headings[i]);
    let after = game.ticked(dt, headings, shot_headings).projectiles[i];
    assert(after == resolved(before, game.players, dt, shot_headings[i]));
    let count = game.players.len() as int;
    if strikes_any(moved, game.players, count) {
        let j = choose|j: int|
            0 <= j < count && j < game.players.len() && strikes(
                moved,
                game.players[j].kinematics.location,
            );
        assert(overlap(
            game.players[j].kinematics.location,
            Fixed { raw: PLAYER_RADIUS },
            after.kinematics.location,
            before.bullet.radius(),
        ));
    }
    if exists|j: int|
        0 <= j < game.players.len() && overlap(
            (#[trigger] game.players[j]).kinematics.location,
            Fixed { raw: PLAYER_RADIUS },
            after.kinematics.location,
            before.bullet.radius(),
        ) {
        let j = choose|j: int|
            0 <= j < game.players.len() && overlap(
                (#[trigger] game.players[j]).kinematics.location,
                Fixed { raw: PLAYER_RADIUS },
                after.kinematics.location,
                before.bullet.radius(),
            );
        assert(strikes(moved, game.players[j].kinematics.location));
    }
}

/// The harm done by the first `upto` projectiles depends on those alone.
proof fn lemma_harm_of_prefix(
    a: Seq<Projectile>,
    a_headings: Seq<Heading>,
    b: Seq<Projectile>,
    b_headings: Seq<Heading>,
    ship: Vec2,
    dt: Fixed,
    upto: int,
)
    requires
        forall|k: int| 0 <= k < upto ==> a[k] == b[k] && a_headings[k] == b_headings[k],
    ensures
        harm(a, a_headings, ship, dt, upto) == harm(b, b_headings, ship, dt, upto),
    decreases upto,
{
    if upto > 0 {
        lemma_harm_of_prefix(a, a_headings, b, b_headings, ship, dt, upto - 1);
    }
}

proof fn lemma_harm_without(
    shots: Seq<Projectile>,
    shot_headings: Seq<Heading>,
    ship: Vec2,
    dt: Fixed,
    i: int,
    upto: int,
)
    requires
        0 <= i < upto <= shots.len(),
        shots.len() == shot_headings.len(),
        !strikes(flown(shots[i], dt, shot_headings[i]), ship),
    ensures
        harm(shots, shot_headings, ship, dt, upto) == harm(
            shots.remove(i),
            shot_headings.remove(i),
            ship,
            dt,
            upto - 1,
        ),
    decreases upto,
{
    if upto - 1 == i {
        lemma_harm_of_prefix(
            shots,
            shot_headings,
            shots.remove(i),
            shot_headings.remove(i),
            ship,
            dt,
            i,
        );
    } else {
        lemma_harm_without(shots, shot_headings, ship, dt, i, upto - 1);
        assert(shots.remove(i)[upto - 2] == shots[upto - 1]);
        assert(shot_headings.remove(i)[upto - 2] == shot_headings[upto - 1]);
    }
}

/// A projectile that does not strike a ship in a tick takes nothing from
/// it: the ship fares as if the projectile were not there.
pub proof fn lemma_miss_is_inert(
    game: GameView,
    dt: Fixed,
    headings: Seq<Heading>,
    shot_headings: Seq<Heading>,
    i: int,
    j: int,
)
    requires
        shot_headings.len() == game.projectiles.len(),
        0 <= i < game.projectiles.len(),
        0 <= j < game.players.len(),
        !strikes(
            flown(game.projectiles[i], dt, shot_headings[i]),
            game.players[j].kinematics.location,
        ),
    ensures
        game.ticked(dt, headings, shot_headings).players[j] == (GameView {
            projectiles: game.projectiles.remove(i),
            ..game
        }).ticked(dt, headings, shot_headings.remove(i)).players[j],
{
    lemma_harm_without(
        game.projectiles,
        shot_headings,
        game.players[j].kinematics.location,
        dt,
        i,
        game.projectiles.len() as int,
    );
}

/// A deactivated projectile never strikes again: a tick leaves it as it
/// is, whatever its heading, and every ship fares as if it were not there.
pub proof fn lemma_deactivated_is_inert(
    game: GameView,
    dt: Fixed,
    headings: Seq<Heading>,
    shot_headings: Seq<Heading>,
    i: int,
)
    requires
        shot_headings.len() == game.projectiles.len(),
        0 <= i < game.projectiles.len(),
        game.projectiles[i].bullet == ProjectileType::Deactivated,
    ensures
        game.ticked(dt, headings, shot_headings).projectiles[i] == game.projectiles[i],
        game.ticked(dt, headings, shot_headings).players == (GameView {
            projectiles: game.projectiles.remove(i),
            ..game
        }).ticked(dt, headings, shot_headings.remove(i)).players,
{
    let shot = game.projectiles[i];
    assert(flown(shot, dt, shot_headings[i]) == shot);
    assert(!strikes_any(shot, game.players, game.players.len() as int));
    let without = GameView { projectiles: game.projectiles.remove(i), ..game };
    assert forall|j: int| 0 <= j < game.players.len() implies game.ticked(
        dt,
        headings,
        shot_headings,
    ).players[j] == without.ticked(dt, headings, shot_headings.remove(i)).players[j] by {
        lemma_miss_is_inert(game, dt, headings, shot_headings, i, j);
    }
    assert(game.ticked(dt, headings, shot_headings).players =~= without.ticked(
        dt,
        headings,
        shot_headings.remove(i),
    ).players);
}

/// A live projectile that, once integrated, lies within reach of one ship
/// and of no other is deactivated by the tick. That ship loses exactly the
/// damage of the projectile's kind (8 for a metal slug, 1 for a laser
/// bolt) and every other ship keeps its health, as far as no other
/// projectile strikes them in the same tick. (A health must lie that far
/// above the lowest value a scalar can hold.)
pub proof fn lemma_single_hit(
    game: GameView,
    dt: Fixed,
    headings: Seq<Heading>,
    shot_headings: Seq<Heading>,
    i: int,
    j: int,
)
    requires
        0 <= i < game.projectiles.len(),
        0 <= j < game.players.len(),
        game.projectiles[i].bullet.is_live(),
        forall|k: int|
            0 <= k < game.players.len() ==> (overlap(
                (#[trigger] game.players[k]).kinematics.location,
                Fixed { raw: PLAYER_RADIUS },
                game.projectiles[i].kinematics.integrate(dt, shot_headings[i]).location,
                game.projectiles[i].bullet.radius(),
            ) <==> k == j),
    ensures
        game.ticked(dt, headings, shot_headings).projectiles[i].bullet
            == ProjectileType::Deactivated,
        game.projectiles[i].bullet.damage().raw == match game.projectiles[i].bullet {
            ProjectileType::Metal => METAL_DAMAGE,
            _ => LASER_DAMAGE,
        },
        forall|k: int|
            #![trigger game.players[k]]
            0 <= k < game.players.len() && (forall|m: int|
                0 <= m < game.projectiles.len() && m != i ==> !strikes(
                    flown(#[trigger] game.projectiles[m], dt, shot_headings[m]),
                    game.players[k].kinematics.location,
                )) ==> {
                let loss = if k == j {
                    game.projectiles[i].bullet.damage().raw as int
                } else {
                    0
                };
                game.players[k].health.raw - loss >= i64::MIN ==> game.ticked(
                    dt,
                    headings,
                    shot_headings,
                ).players[k].health.raw == game.players[k].health.raw - loss
            },
{
    let shot = flown(game.projectiles[i], dt, shot_headings[i]);
    assert(strikes(shot, game.players[j].kinematics.location));
    assert(strikes_any(shot, game.players, game.players.len() as int));
    assert forall|k: int|
        #![trigger game.players[k]]
        0 <= k < game.players.len() && (forall|m: int|
            0 <= m < game.projectiles.len() && m != i ==> !strikes(
                flown(#[trigger] game.projectiles[m], dt, shot_headings[m]),
                game.players[k].kinematics.location,
            )) implies {
        let loss = if k == j {
            game.projectiles[i].bullet.damage().raw as int
        } else {
            0
        };
        game.players[k].health.raw - loss >= i64::MIN ==> game.ticked(
            dt,
            headings,
            shot_headings,
        ).players[k].health.raw == game.players[k].health.raw - loss
    } by {
        lemma_harm_of_one(
            game.projectiles,
            shot_headings,
            game.players[k].kinematics.location,
            dt,
            i,
            game.projectiles.len() as int,
        );
    }
}

proof fn lemma_harm_of_one(
    shots: Seq<Projectile>,
    shot_headings: Seq<Heading>,
    ship: Vec2,
    dt: Fixed,
    i: int,
    upto: int,
)
    requires
        0 <= upto <= shots.len(),
        0 <= i < shots.len(),
        forall|m: int|
            0 <= m < shots.len() && m != i ==> !strikes(
                flown(#[trigger] shots[m], dt, shot_headings[m]),
                ship,
            ),
    ensures
        harm(shots, shot_headings, ship, dt, upto) == if i < upto && strikes(
            flown(shots[i], dt, shot_headings[i]),
            ship,
        ) {
            shots[i].bullet.damage().raw as int
        } else {
            0
        },
    decreases upto,
{
    if upto > 0 {
        lemma_harm_of_one(shots, shot_headings, ship, dt, i, upto - 1);
    }
}

/// A ship that fires both metal and laser fires exactly two projectiles in
/// a tick: first a metal slug, then a laser bolt, each ahead of the ship
/// by the ship's speed and the muzzle distance of its kind.
pub proof fn lemma_double_fire(
    game: GameView,
    dt: Fixed,
    headings: Seq<Heading>,
    shot_headings: Seq<Heading>,
    j: int,
)
    requires
        0 <= j < game.players.len(),
        game.players[j].fires_metal(),
        game.players[j].fires_laser(),
    ensures
        ({
            let after = game.ticked(dt, headings, shot_headings);
            let shooter = after.players[j];
            let fired = salvo(shooter, headings[j], j as usize);
            &&& fired.len() == 2
            &&& fired[0] == Projectile::metal(shooter.kinematics, headings[j], j as usize)
            &&& fired[1] == Projectile::laser(shooter.kinematics, headings[j], j as usize)
            &&& volley(after.players, headings, j + 1) == volley(after.players, headings, j)
                + fired
        }),
{
}

/// A tick adds to the projectiles exactly what the ships fire: a lone ship
/// that fires both metal and laser adds two.
pub proof fn lemma_lone_double_fire(
    game: GameView,
    dt: Fixed,
    headings: Seq<Heading>,
    shot_headings: Seq<Heading>,
)
    requires
        game.players.len() == 1,
        game.players[0].fires_metal(),
        game.players[0].fires_laser(),
    ensures
        ({
            let after = game.ticked(dt, headings, shot_headings);
            let count = game.projectiles.len() as int;
            &&& after.projectiles.len() == count + 2
            &&& after.projectiles[count] == Projectile::metal(
                after.players[0].kinematics,
                headings[0],
                0,
            )
            &&& after.projectiles[count + 1] == Projectile::laser(
                after.players[0].kinematics,
                headings[0],
                0,
            )
        }),
{
    let after = game.ticked(dt, headings, shot_headings);
    lemma_double_fire(game, dt, headings, shot_headings, 0);
    assert(volley(after.players, headings, 0) =~= Seq::empty());
    assert(volley(after.players, headings, 1) =~= salvo(after.players[0], headings[0], 0));
}

/// Every tick costs every ship its upkeep, whatever else happens: the
/// magnitudes of its acceleration and of its angular acceleration, and the
/// idle cost. Where nothing saturates, the energy falls by exactly that
/// sum; and it always falls, as long as it is above the lowest value a
/// scalar can hold.
pub proof fn lemma_energy_falls(
    game: GameView,
    dt: Fixed,
    headings: Seq<Heading>,
    shot_headings: Seq<Heading>,
    j: int,
)
    requires
        0 <= j < game.players.len(),
    ensures
        ({
            let before = game.players[j];
            let after = game.ticked(dt, headings, shot_headings).players[j];
            let thrust = before.kinematics.acceleration.raw as int;
            let torque = before.kinematics.alpha.raw as int;
            let cost = (if thrust < 0 {
                -thrust
            } else {
                thrust
            }) + (if torque < 0 {
                -torque
            } else {
                torque
            }) + IDLE_COST;
            &&& after.energy == before.energy.minus(before.upkeep())
            &&& before.upkeep().raw >= IDLE_COST
            &&& cost <= i64::MAX && before.energy.raw - cost >= i64::MIN ==> after.energy.raw
                == before.energy.raw - cost
            &&& before.energy.raw > i64::MIN ==> after.energy.raw < before.energy.raw
        }),
{
}

/// A spawn point is as far from the origin as the spawn radius times the
/// length of the bearing: along a bearing of length one it lies on the
/// spawn circle. (The bearing's cosine and sine lie between -1 and 1.)
pub proof fn lemma_spawn_point_on_circle(bearing: Heading)
    requires
        -SCALE <= bearing.cos.raw <= SCALE,
        -SCALE <= bearing.sin.raw <= SCALE,
    ensures
        ({
            let spawn = bearing.along(Fixed { raw: SPAWN_RADIUS });
            let reach = SPAWN_RADIUS / SCALE;
            &&& spawn.x.raw == bearing.cos.raw * reach
            &&& spawn.y.raw == bearing.sin.raw * reach
            &&& spawn.norm_squared() * (SCALE * SCALE) == (SPAWN_RADIUS * SPAWN_RADIUS) * (
            bearing.cos.raw * bearing.cos.raw + bearing.sin.raw * bearing.sin.raw)
            &&& bearing.cos.raw * bearing.cos.raw + bearing.sin.raw * bearing.sin.raw == SCALE
                * SCALE ==> spawn.norm_squared() == SPAWN_RADIUS * SPAWN_RADIUS
        }),
{
    let c = bearing.cos.raw as int;
    let s = bearing.sin.raw as int;
    let spawn = bearing.along(Fixed { raw: SPAWN_RADIUS });
    lemma_scaled_by_spawn_radius(c);
    lemma_scaled_by_spawn_radius(s);
    assert(SPAWN_RADIUS / SCALE == 1024);
    assert(spawn.x.raw == c * 1024);
    assert(spawn.y.raw == s * 1024);
    let norm = c * c + s * s;
    assert(spawn.norm_squared() == 1024 * 1024 * norm) by (nonlinear_arith)
        requires
            spawn.norm_squared() == (c * 1024) * (c * 1024) + (s * 1024) * (s * 1024),
            norm == c * c + s * s,
    ;
    assert(SCALE * SCALE == 1_000_000_000_000 && SPAWN_RADIUS * SPAWN_RADIUS
        == 1_048_576_000_000_000_000) by (nonlinear_arith);
    assert((1024 * 1024 * norm) * 1_000_000_000_000 == 1_048_576_000_000_000_000 * norm)
        by (nonlinear_arith);
}

proof fn lemma_scaled_by_spawn_radius(c: int)
    requires
        -1_000_000 <= c <= 1_000_000,
    ensures
        quotient(c * 1_024_000_000, 1_000_000) == c * 1024,
        -1_024_000_000 <= c * 1024 <= 1_024_000_000,
{
    assert(c * 1_024_000_000 == (c * 1024) * 1_000_000) by (nonlinear_arith);
    if c >= 0 {
        assert(((c * 1024) * 1_000_000) / 1_000_000 == c * 1024) by (nonlinear_arith)
            requires
                c >= 0,
        ;
    } else {
        assert(-(c * 1_024_000_000) == ((-c) * 1024) * 1_000_000) by (nonlinear_arith);
        assert((((-c) * 1024) * 1_000_000) / 1_000_000 == (-c) * 1024) by (nonlinear_arith)
            requires
                c < 0,
        ;
    }
}

/// A frame that sets nothing changes nothing, whoever it is for.
pub proof fn lemma_absent_frame_is_noop(game: GameView, id: int)
    ensures
        game.commanded(id, PlayerCtrlView::absent()) == game,
{
    if 0 <= id < game.players.len() && game.players[id].is_active() {
        assert(game.players[id].steered(PlayerCtrlView::absent()) == game.players[id]);
        assert(game.players.update(id, game.players[id]) =~= game.players);
    }
}

} // verus!
