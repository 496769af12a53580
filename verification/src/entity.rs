//! Ships, projectiles, and the motion they share.

use crate::fixed::Fixed;
use crate::vector::{Heading, Vec2};
use vstd::prelude::*;

verus! {

/// The collision radius of every ship, in millionths.
pub const PLAYER_RADIUS: i64 = 16_000_000;

/// The collision radius of a metal slug, in millionths.
pub const METAL_RADIUS: i64 = 2_000_000;

/// The collision radius of a laser bolt, in millionths.
pub const LASER_RADIUS: i64 = 1_000_000;

/// The health a metal slug takes from each ship it strikes, in millionths.
pub const METAL_DAMAGE: i64 = 8_000_000;

/// The health a laser bolt takes from each ship it strikes, in millionths.
pub const LASER_DAMAGE: i64 = 1_000_000;

/// How far ahead of a ship at rest a metal slug appears, in millionths.
pub const METAL_MUZZLE: i64 = 4_000_000;

/// How far ahead of a ship at rest a laser bolt appears, in millionths.
pub const LASER_MUZZLE: i64 = 16_000_000;

/// The health a ship starts with, in millionths.
pub const FULL_HEALTH: i64 = 100_000_000;

/// The energy a ship starts with, in millionths.
pub const FULL_ENERGY: i64 = 100_000_000;

/// The energy a ship spends every tick whatever it does, in millionths.
pub const IDLE_COST: i64 = 10_000;

/// The distance from the origin at which ships are spawned, in millionths.
pub const SPAWN_RADIUS: i64 = 1_024_000_000;

/// The motion of a body: where it is, how it moves and how it turns.
///
/// `acceleration` is a magnitude along the heading, never a vector of its
/// own: a ship cannot push sideways.
#[derive(Clone, Copy, PartialEq, Eq, Debug, Structural)]
pub struct KinematicData {
    pub location: Vec2,
    pub velocity: Vec2,
    pub acceleration: Fixed,
    pub theta: Fixed,
    pub omega: Fixed,
    pub alpha: Fixed,
}

impl KinematicData {
    /// What `at_rest` returns.
    pub open spec fn spec_at_rest(location: Vec2) -> KinematicData {
        KinematicData {
            location,
            velocity: Vec2::zero(),
            acceleration: Fixed::zero(),
            theta: Fixed::zero(),
            omega: Fixed::zero(),
            alpha: Fixed::zero(),
        }
    }

    /// The angular velocity after `dt`.
    pub open spec fn next_omega(self, dt: Fixed) -> Fixed {
        self.omega.plus(self.alpha.times(dt))
    }

    /// The angle after `dt`: what `next_theta` returns.
    pub open spec fn spec_next_theta(self, dt: Fixed) -> Fixed {
        self.theta.plus(self.next_omega(dt).times(dt))
    }

    /// One step of semi-implicit Euler integration: the angular velocity
    /// is advanced first, the angle with the new angular velocity, the
    /// velocity with the thrust along the new angle (`heading` is that
    /// angle's direction), and the location with the new velocity.
    pub open spec fn spec_integrate(self, dt: Fixed, heading: Heading) -> KinematicData {
        let velocity = self.velocity.plus(heading.along(self.acceleration).scaled(dt));
        KinematicData {
            location: self.location.plus(velocity.scaled(dt)),
            velocity,
            acceleration: self.acceleration,
            theta: self.spec_next_theta(dt),
            omega: self.next_omega(dt),
            alpha: self.alpha,
        }
    }

    /// A body at `location` that neither moves nor turns, facing angle 0.
    #[verifier::when_used_as_spec(spec_at_rest)]
    pub fn at_rest(location: Vec2) -> (r: KinematicData)
        ensures
            r == KinematicData::spec_at_rest(location),
    {
        KinematicData {
            location,
            velocity: Vec2::zero(),
            acceleration: Fixed::zero(),
            theta: Fixed::zero(),
            omega: Fixed::zero(),
            alpha: Fixed::zero(),
        }
    }

    /// The angle the body will face after `dt`: the angle whose heading
    /// `integrate` is to be given.
    #[verifier::when_used_as_spec(spec_next_theta)]
    pub fn next_theta(self, dt: Fixed) -> (r: Fixed)
        ensures
            r == self.spec_next_theta(dt),
    {
        let omega = self.omega.plus(self.alpha.times(dt));
        self.theta.plus(omega.times(dt))
    }

    /// The state after `dt`, with the thrust applied along `heading`.
    #[verifier::when_used_as_spec(spec_integrate)]
    pub fn integrate(self, dt: Fixed, heading: Heading) -> (r: KinematicData)
        ensures
            r == self.spec_integrate(dt, heading),
    {
        let omega = self.omega.plus(self.alpha.times(dt));
        let theta = self.theta.plus(omega.times(dt));
        let velocity = self.velocity.plus(heading.along(self.acceleration).scaled(dt));
        let location = self.location.plus(velocity.scaled(dt));
        KinematicData {
            location,
            velocity,
            acceleration: self.acceleration,
            theta,
            omega,
            alpha: self.alpha,
        }
    }

}

/// Without thrust the heading does not matter: an unpowered body takes the
/// same step along every heading.
pub proof fn lemma_unpowered_heading_is_idle(
    state: KinematicData,
    dt: Fixed,
    one: Heading,
    other: Heading,
)
    requires
        state.acceleration.raw == 0,
    ensures
        state.integrate(dt, one) == state.integrate(dt, other),
        state.integrate(dt, one).velocity == state.velocity,
{
    assert(one.cos.raw * 0 == 0 && one.sin.raw * 0 == 0) by (nonlinear_arith);
    assert(other.cos.raw * 0 == 0 && other.sin.raw * 0 == 0) by (nonlinear_arith);
    assert(0 * dt.raw == 0) by (nonlinear_arith);
}

/// A body that is neither pushed nor turned only drifts: it keeps its
/// angular velocity and its velocity, whatever the step and the heading,
/// turns by its angular velocity and moves by its velocity.
pub proof fn lemma_undriven_body_drifts(state: KinematicData, dt: Fixed, heading: Heading)
    requires
        state.acceleration.raw == 0,
        state.alpha.raw == 0,
    ensures
        state.integrate(dt, heading) == (KinematicData {
            theta: state.theta.plus(state.omega.times(dt)),
            location: state.location.plus(state.velocity.scaled(dt)),
            ..state
        }),
{
    lemma_unpowered_heading_is_idle(state, dt, heading, heading);
    assert(0 * dt.raw == 0) by (nonlinear_arith);
}

/// A body that is neither pushed nor turned, and whose drift over the step
/// leaves its angle and its location where they are, is unchanged by the
/// step. A body at rest is such a body.
pub proof fn lemma_undriven_body_unchanged(state: KinematicData, dt: Fixed, heading: Heading)
    requires
        state.acceleration.raw == 0,
        state.alpha.raw == 0,
        state.theta.plus(state.omega.times(dt)) == state.theta,
        state.location.plus(state.velocity.scaled(dt)) == state.location,
    ensures
        state.integrate(dt, heading) == state,
{
    lemma_undriven_body_drifts(state, dt, heading);
}

/// A body at rest that is neither pushed nor turned stays as it is.
pub proof fn lemma_body_at_rest_unchanged(location: Vec2, theta: Fixed, dt: Fixed, heading: Heading)
    ensures
        (KinematicData { theta, ..KinematicData::at_rest(location) }).integrate(dt, heading)
            == (KinematicData { theta, ..KinematicData::at_rest(location) }),
{
    let state = KinematicData { theta, ..KinematicData::at_rest(location) };
    assert(0 * dt.raw == 0) by (nonlinear_arith);
    lemma_undriven_body_unchanged(state, dt, heading);
}

/// What a projectile is. `Deactivated` marks one that has struck: it is
/// never moved, never strikes again, and may be pruned.
#[derive(Clone, Copy, PartialEq, Eq, Debug, Structural)]
pub enum ProjectileType {
    Metal,
    Laser,
    Deactivated,
}

impl ProjectileType {
    /// What `radius` returns.
    pub open spec fn spec_radius(self) -> Fixed {
        match self {
            ProjectileType::Metal => Fixed { raw: METAL_RADIUS },
            ProjectileType::Laser => Fixed { raw: LASER_RADIUS },
            ProjectileType::Deactivated => Fixed { raw: 0 },
        }
    }

    /// What `damage` returns.
    pub open spec fn spec_damage(self) -> Fixed {
        match self {
            ProjectileType::Metal => Fixed { raw: METAL_DAMAGE },
            ProjectileType::Laser => Fixed { raw: LASER_DAMAGE },
            ProjectileType::Deactivated => Fixed { raw: 0 },
        }
    }

    /// What `is_live` returns.
    pub open spec fn spec_is_live(self) -> bool {
        self != ProjectileType::Deactivated
    }

    /// The collision radius of a projectile of this kind.
    #[verifier::when_used_as_spec(spec_radius)]
    pub fn radius(self) -> (r: Fixed)
        ensures
            r == self.spec_radius(),
    {
        match self {
            ProjectileType::Metal => Fixed { raw: METAL_RADIUS },
            ProjectileType::Laser => Fixed { raw: LASER_RADIUS },
            ProjectileType::Deactivated => Fixed { raw: 0 },
        }
    }

    /// The health a projectile of this kind takes from a ship it strikes.
    #[verifier::when_used_as_spec(spec_damage)]
    pub fn damage(self) -> (r: Fixed)
        ensures
            r == self.spec_damage(),
    {
        match self {
            ProjectileType::Metal => Fixed { raw: METAL_DAMAGE },
            ProjectileType::Laser => Fixed { raw: LASER_DAMAGE },
            ProjectileType::Deactivated => Fixed { raw: 0 },
        }
    }

    /// Whether a projectile of this kind is still in flight.
    #[verifier::when_used_as_spec(spec_is_live)]
    pub fn is_live(self) -> (r: bool)
        ensures
            r == self.spec_is_live(),
    {
        match self {
            ProjectileType::Deactivated => false,
            _ => true,
        }
    }
}

/// A projectile in flight, or the marker left by one that has struck.
///
/// `origin` is the position in the game's sequence of players of the ship
/// that fired it. It serves attribution only.
#[derive(Clone, Copy, PartialEq, Eq, Debug, Structural)]
pub struct Projectile {
    pub kinematics: KinematicData,
    pub bullet: ProjectileType,
    pub origin: usize,
}

impl Projectile {
    /// A projectile of kind `bullet` fired by a ship whose motion is
    /// `shooter` and which faces `heading`. It appears ahead of the ship,
    /// at the ship's speed plus `muzzle`, and flies with the ship's
    /// velocity plus that same displacement. It is unpowered and turns as
    /// the ship does.
    pub open spec fn spec_launch(
        bullet: ProjectileType,
        muzzle: Fixed,
        shooter: KinematicData,
        heading: Heading,
        origin: usize,
    ) -> Projectile {
        let lead = heading.along(shooter.velocity.length().plus(muzzle));
        Projectile {
            kinematics: KinematicData {
                location: shooter.location.plus(lead),
                velocity: shooter.velocity.plus(lead),
                acceleration: Fixed::zero(),
                theta: shooter.theta,
                omega: shooter.omega,
                alpha: Fixed::zero(),
            },
            bullet,
            origin,
        }
    }

    /// A metal slug fired by the ship at `origin`.
    pub open spec fn spec_metal(shooter: KinematicData, heading: Heading, origin: usize)
        -> Projectile {
        Projectile::spec_launch(
            ProjectileType::Metal,
            Fixed { raw: METAL_MUZZLE },
            shooter,
            heading,
            origin,
        )
    }

    /// A laser bolt fired by the ship at `origin`.
    pub open spec fn spec_laser(shooter: KinematicData, heading: Heading, origin: usize)
        -> Projectile {
        Projectile::spec_launch(
            ProjectileType::Laser,
            Fixed { raw: LASER_MUZZLE },
            shooter,
            heading,
            origin,
        )
    }

    fn launch(
        bullet: ProjectileType,
        muzzle: Fixed,
        shooter: KinematicData,
        heading: Heading,
        origin: usize,
    ) -> (r: Projectile)
        ensures
            r == Projectile::spec_launch(bullet, muzzle, shooter, heading, origin),
    {
        let lead = heading.along(shooter.velocity.length().plus(muzzle));
        Projectile {
            kinematics: KinematicData {
                location: shooter.location.plus(lead),
                velocity: shooter.velocity.plus(lead),
                acceleration: Fixed::zero(),
                theta: shooter.theta,
                omega: shooter.omega,
                alpha: Fixed::zero(),
            },
            bullet,
            origin,
        }
    }

    /// A metal slug fired by the ship at `origin`, whose motion is
    /// `shooter` and which faces `heading`.
    #[verifier::when_used_as_spec(spec_metal)]
    pub fn metal(shooter: KinematicData, heading: Heading, origin: usize) -> (r: Projectile)
        ensures
            r == Projectile::spec_metal(shooter, heading, origin),
    {
        Projectile::launch(
            ProjectileType::Metal,
            Fixed { raw: METAL_MUZZLE },
            shooter,
            heading,
            origin,
        )
    }

    /// A laser bolt fired by the ship at `origin`, whose motion is
    /// `shooter` and which faces `heading`.
    #[verifier::when_used_as_spec(spec_laser)]
    pub fn laser(shooter: KinematicData, heading: Heading, origin: usize) -> (r: Projectile)
        ensures
            r == Projectile::spec_laser(shooter, heading, origin),
    {
        Projectile::launch(
            ProjectileType::Laser,
            Fixed { raw: LASER_MUZZLE },
            shooter,
            heading,
            origin,
        )
    }
}

/// One frame of control input. A field that is `None` leaves the ship's
/// corresponding control as it was.
#[derive(Clone, Debug)]
pub struct PlayerCtrl {
    pub name: Option<String>,
    pub thrust: Option<Fixed>,
    pub torque: Option<Fixed>,
    pub metal_bullet: Option<bool>,
    pub laser_bullet: Option<bool>,
}

/// The mathematical content of a `PlayerCtrl`.
pub struct PlayerCtrlView {
    pub name: Option<Seq<char>>,
    pub thrust: Option<Fixed>,
    pub torque: Option<Fixed>,
    pub metal_bullet: Option<bool>,
    pub laser_bullet: Option<bool>,
}

impl PlayerCtrlView {
    /// The frame that sets nothing.
    pub open spec fn absent() -> PlayerCtrlView {
        PlayerCtrlView {
            name: None,
            thrust: None,
            torque: None,
            metal_bullet: None,
            laser_bullet: None,
        }
    }

    /// The controls in effect once `frame` has arrived on top of `self`:
    /// field by field, what the frame sets, else what was there.
    pub open spec fn overlaid(self, frame: PlayerCtrlView) -> PlayerCtrlView {
        PlayerCtrlView {
            name: if frame.name is Some { frame.name } else { self.name },
            thrust: if frame.thrust is Some { frame.thrust } else { self.thrust },
            torque: if frame.torque is Some { frame.torque } else { self.torque },
            metal_bullet: if frame.metal_bullet is Some {
                frame.metal_bullet
            } else {
                self.metal_bullet
            },
            laser_bullet: if frame.laser_bullet is Some {
                frame.laser_bullet
            } else {
                self.laser_bullet
            },
        }
    }
}

impl View for PlayerCtrl {
    type V = PlayerCtrlView;

    open spec fn view(&self) -> PlayerCtrlView {
        PlayerCtrlView {
            name: match self.name {
                Some(name) => Some(name@),
                None => None,
            },
            thrust: self.thrust,
            torque: self.torque,
            metal_bullet: self.metal_bullet,
            laser_bullet: self.laser_bullet,
        }
    }
}

impl PlayerCtrl {
    /// The frame that sets nothing: what an undecodable line stands for.
    pub fn absent() -> (r: PlayerCtrl)
        ensures
            r@ == PlayerCtrlView::absent(),
    {
        PlayerCtrl {
            name: None,
            thrust: None,
            torque: None,
            metal_bullet: None,
            laser_bullet: None,
        }
    }
}

/// A ship and the agent that steers it.
#[derive(Clone, Debug)]
pub struct Player {
    pub kinematics: KinematicData,
    pub name: String,
    pub energy: Fixed,
    pub health: Fixed,
    /// The controls in effect: every field as last set by a frame.
    pub inputs: PlayerCtrl,
}

/// The mathematical content of a `Player`.
pub struct PlayerView {
    pub kinematics: KinematicData,
    pub name: Seq<char>,
    pub energy: Fixed,
    pub health: Fixed,
    pub inputs: PlayerCtrlView,
}

impl View for Player {
    type V = PlayerView;

    open spec fn view(&self) -> PlayerView {
        PlayerView {
            kinematics: self.kinematics,
            name: self.name@,
            energy: self.energy,
            health: self.health,
            inputs: self.inputs@,
        }
    }
}

impl PlayerView {
    /// A ship newly spawned at `spawn`: at rest, nameless, with full
    /// health and energy and no control set.
    pub open spec fn spawned(spawn: Vec2) -> PlayerView {
        PlayerView {
            kinematics: KinematicData::at_rest(spawn),
            name: "[UNKNOWN]"@,
            energy: Fixed { raw: FULL_ENERGY },
            health: Fixed { raw: FULL_HEALTH },
            inputs: PlayerCtrlView::absent(),
        }
    }

    /// Whether the ship still listens to its agent: it does while both its
    /// health and its energy are above zero.
    pub open spec fn is_active(self) -> bool {
        self.health.raw > 0 && self.energy.raw > 0
    }

    /// The ship once `frame` has been applied: thrust sets the
    /// acceleration, torque the angular acceleration, a name the name, and
    /// the frame is laid over the controls in effect.
    pub open spec fn steered(self, frame: PlayerCtrlView) -> PlayerView {
        PlayerView {
            kinematics: KinematicData {
                acceleration: match frame.thrust {
                    Some(thrust) => thrust,
                    None => self.kinematics.acceleration,
                },
                alpha: match frame.torque {
                    Some(torque) => torque,
                    None => self.kinematics.alpha,
                },
                ..self.kinematics
            },
            name: match frame.name {
                Some(name) => name,
                None => self.name,
            },
            inputs: self.inputs.overlaid(frame),
            ..self
        }
    }

    /// Whether the ship fires a metal slug each tick.
    pub open spec fn fires_metal(self) -> bool {
        self.inputs.metal_bullet == Some(true)
    }

    /// Whether the ship fires a laser bolt each tick.
    pub open spec fn fires_laser(self) -> bool {
        self.inputs.laser_bullet == Some(true)
    }

    /// What one tick costs the ship in energy.
    pub open spec fn upkeep(self) -> Fixed {
        self.kinematics.acceleration.magnitude().plus(self.kinematics.alpha.magnitude()).plus(
            Fixed { raw: IDLE_COST },
        )
    }

    /// The ship after its own step of a tick: moved, and charged its upkeep.
    pub open spec fn advanced(self, dt: Fixed, heading: Heading) -> PlayerView {
        PlayerView {
            kinematics: self.kinematics.integrate(dt, heading),
            energy: self.energy.minus(self.upkeep()),
            ..self
        }
    }
}

impl Player {
    /// A ship newly spawned at `spawn`.
    pub fn spawned(spawn: Vec2) -> (r: Player)
        ensures
            r@ == PlayerView::spawned(spawn),
    {
        Player {
            kinematics: KinematicData::at_rest(spawn),
            name: "[UNKNOWN]".to_string(),
            energy: Fixed { raw: FULL_ENERGY },
            health: Fixed { raw: FULL_HEALTH },
            inputs: PlayerCtrl::absent(),
        }
    }

    /// Whether the ship still listens to its agent.
    pub fn is_active(&self) -> (r: bool)
        ensures
            r == self@.is_active(),
    {
        self.health.raw > 0 && self.energy.raw > 0
    }

    /// Applies one frame of control input.
    pub fn steer(&mut self, frame: PlayerCtrl)
        ensures
            final(self)@ == old(self)@.steered(frame@),
    {
        if let Some(thrust) = frame.thrust {
            self.kinematics.acceleration = thrust;
            self.inputs.thrust = Some(thrust);
        }
        if let Some(torque) = frame.torque {
            self.kinematics.alpha = torque;
            self.inputs.torque = Some(torque);
        }
        if let Some(fire) = frame.metal_bullet {
            self.inputs.metal_bullet = Some(fire);
        }
        if let Some(fire) = frame.laser_bullet {
            self.inputs.laser_bullet = Some(fire);
        }
        if let Some(name) = frame.name {
            self.name = name.clone();
            self.inputs.name = Some(name);
        }
    }

    /// What one tick costs the ship in energy.
    pub fn upkeep(&self) -> (r: Fixed)
        ensures
            r == self@.upkeep(),
    {
        self.kinematics.acceleration.magnitude().plus(self.kinematics.alpha.magnitude()).plus(
            Fixed { raw: IDLE_COST },
        )
    }
}

/// What observers are shown of a player.
#[derive(Clone, Debug)]
pub struct PlayerRepr {
    pub name: String,
    pub health: Fixed,
    pub energy: Fixed,
    pub kinematics: KinematicData,
}

/// The mathematical content of a `PlayerRepr`.
pub struct PlayerReprView {
    pub name: Seq<char>,
    pub health: Fixed,
    pub energy: Fixed,
    pub kinematics: KinematicData,
}

impl View for PlayerRepr {
    type V = PlayerReprView;

    open spec fn view(&self) -> PlayerReprView {
        PlayerReprView {
            name: self.name@,
            health: self.health,
            energy: self.energy,
            kinematics: self.kinematics,
        }
    }
}

/// A body that moves and can be struck.
pub trait Kinematic {
    spec fn spec_kinematics(&self) -> KinematicData;

    spec fn spec_collision_radius(&self) -> Fixed;

    /// The motion of the body.
    fn kinematics(&self) -> (r: KinematicData)
        ensures
            r == self.spec_kinematics(),
    ;

    /// The radius within which the body is struck.
    fn collision_radius(&self) -> (r: Fixed)
        ensures
            r == self.spec_collision_radius(),
    ;

    /// Moves the body by one step, with its thrust along `heading`.
    fn update(&mut self, dt: Fixed, heading: Heading)
        ensures
            final(self).spec_kinematics() == old(self).spec_kinematics().integrate(dt, heading),
            final(self).spec_collision_radius() == old(self).spec_collision_radius(),
    ;
}

impl Kinematic for Player {
    open spec fn spec_kinematics(&self) -> KinematicData {
        self.kinematics
    }

    open spec fn spec_collision_radius(&self) -> Fixed {
        Fixed { raw: PLAYER_RADIUS }
    }

    fn kinematics(&self) -> (r: KinematicData) {
        self.kinematics
    }

    fn collision_radius(&self) -> (r: Fixed) {
        Fixed { raw: PLAYER_RADIUS }
    }

    fn update(&mut self, dt: Fixed, heading: Heading)
        ensures
            final(self)@ == (PlayerView {
                kinematics: old(self).kinematics.integrate(dt, heading),
                ..old(self)@
            }),
    {
        self.kinematics = self.kinematics.integrate(dt, heading);
    }
}

impl Kinematic for Projectile {
    open spec fn spec_kinematics(&self) -> KinematicData {
        self.kinematics
    }

    open spec fn spec_collision_radius(&self) -> Fixed {
        self.bullet.radius()
    }

    fn kinematics(&self) -> (r: KinematicData) {
        self.kinematics
    }

    fn collision_radius(&self) -> (r: Fixed) {
        self.bullet.radius()
    }

    fn update(&mut self, dt: Fixed, heading: Heading)
        ensures
            *final(self) == (Projectile {
                kinematics: old(self).kinematics.integrate(dt, heading),
                ..*old(self)
            }),
    {
        self.kinematics = self.kinematics.integrate(dt, heading);
    }
}

/// Two bodies overlap when the distance between their centres is at most
/// the sum of their radii.
pub open spec fn overlap(a: Vec2, a_radius: Fixed, b: Vec2, b_radius: Fixed) -> bool {
    a.spec_within(b, a_radius.raw + b_radius.raw)
}

/// Whether `a` and `b` collide.
pub fn collides_with<A: Kinematic, B: Kinematic>(a: &A, b: &B) -> (r: bool)
    ensures
        r == overlap(
            a.spec_kinematics().location,
            a.spec_collision_radius(),
            b.spec_kinematics().location,
            b.spec_collision_radius(),
        ),
{
    let reach: i128 = a.collision_radius().raw as i128 + b.collision_radius().raw as i128;
    a.kinematics().location.within(b.kinematics().location, reach)
}

/// Collision is symmetric.
pub proof fn lemma_overlap_symmetric(a: Vec2, a_radius: Fixed, b: Vec2, b_radius: Fixed)
    ensures
        overlap(a, a_radius, b, b_radius) == overlap(b, b_radius, a, a_radius),
{
    a.lemma_distance_squared_symmetric(b);
}

/// A body whose doubled radius is not negative collides with itself.
pub proof fn lemma_overlap_reflexive(a: Vec2, a_radius: Fixed)
    requires
        2 * a_radius.raw >= 0,
    ensures
        overlap(a, a_radius, a, a_radius),
{
    a.lemma_distance_squared_symmetric(a);
    let reach = a_radius.raw + a_radius.raw;
    assert(reach * reach >= 0) by (nonlinear_arith);
}

} // verus!
