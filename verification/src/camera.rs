//! The orbit camera: it circles a fixed point at a yaw, a pitch and a distance.

use vstd::prelude::*;

use crate::physics::motion::Heading;
use crate::protocol::{CameraMsg, CAMERA_ORBIT_SENSITIVITY};
use crate::units::{clamp_int, div_round, held, hold, round_div};

verus! {

/// Just under a quarter turn, so that the camera never flips over the pole.
pub const PITCH_MAX: i64 = 1_560_796;

/// Keeps the eye above the table's rim.
pub const PITCH_MIN: i64 = 150_000;

pub const MIN_RADIUS: i64 = 2_000_000;

pub const MAX_RADIUS: i64 = 25_000_000;

/// The camera's place: microradians and micrometres. Yaw zero looks from +z.
#[derive(Debug, Clone, Copy, PartialEq, Eq)]
pub struct OrbitCamera {
    pub look_at: [i64; 3],
    pub radius: i64,
    pub yaw: i64,
    pub pitch: i64,
}

/// The yaw after a horizontal drag. A yaw stops at the ends of its range.
pub open spec fn turned_yaw(yaw: i64, dx: i64) -> i64 {
    held(yaw - dx * CAMERA_ORBIT_SENSITIVITY)
}

proof fn drag_is_small(d: i64)
    ensures
        -0x8_0000_0000_0000_0000 < d * CAMERA_ORBIT_SENSITIVITY < 0x8_0000_0000_0000_0000,
{
    let s = CAMERA_ORBIT_SENSITIVITY;
    assert(-0x8_0000_0000_0000_0000 < d * s < 0x8_0000_0000_0000_0000) by (nonlinear_arith)
        requires
            s == 5,
            -0x8000_0000_0000_0000 <= d <= 0x7fff_ffff_ffff_ffff,
    ;
}

/// The yaw after a horizontal drag.
pub fn turn_yaw(yaw: i64, dx: i64) -> (r: i64)
    ensures
        r == turned_yaw(yaw, dx),
{
    proof {
        drag_is_small(dx);
    }
    hold(yaw as i128 - dx as i128 * CAMERA_ORBIT_SENSITIVITY as i128)
}

impl OrbitCamera {
    /// The camera after a drag.
    pub open spec fn orbited(self, dx: i64, dy: i64) -> OrbitCamera {
        OrbitCamera {
            yaw: turned_yaw(self.yaw, dx),
            pitch: clamp_int(
                self.pitch - dy * CAMERA_ORBIT_SENSITIVITY,
                PITCH_MIN as int,
                PITCH_MAX as int,
            ) as i64,
            ..self
        }
    }

    /// The camera after a wheel turn: a thousandth of the distance per CSS pixel.
    pub open spec fn zoomed(self, dy: i64) -> OrbitCamera {
        OrbitCamera {
            radius: clamp_int(
                div_round(self.radius * (1_000_000 + dy), 1_000_000),
                MIN_RADIUS as int,
                MAX_RADIUS as int,
            ) as i64,
            ..self
        }
    }

    /// The camera after a gesture.
    pub open spec fn moved(self, msg: CameraMsg) -> OrbitCamera {
        match msg {
            CameraMsg::Orbit { dx, dy } => self.orbited(dx, dy),
            CameraMsg::Zoom { dy } => self.zoomed(dy),
        }
    }

    pub fn new(look_at: [i64; 3], radius: i64, yaw: i64, pitch: i64) -> (r: Self)
        ensures
            r == (OrbitCamera { look_at, radius, yaw, pitch }),
    {
        OrbitCamera { look_at, radius, yaw, pitch }
    }

    /// Applies a drag: horizontal to yaw, vertical to pitch.
    pub fn orbit(&mut self, dx: i64, dy: i64)
        ensures
            *final(self) == old(self).orbited(dx, dy),
    {
        proof {
            drag_is_small(dy);
        }
        self.yaw = turn_yaw(self.yaw, dx);
        let pitch: i128 = self.pitch as i128 - dy as i128 * CAMERA_ORBIT_SENSITIVITY as i128;
        self.pitch = if pitch < PITCH_MIN as i128 {
            PITCH_MIN
        } else if pitch > PITCH_MAX as i128 {
            PITCH_MAX
        } else {
            pitch as i64
        };
    }

    /// Applies a wheel turn: downwards moves away.
    pub fn zoom(&mut self, dy: i64)
        ensures
            *final(self) == old(self).zoomed(dy),
    {
        let r: i128 = self.radius as i128;
        let f: i128 = 1_000_000 + dy as i128;
        proof {
            assert(-0x6000_0000_0000_0000_0000_0000_0000_0000 <= r * f
                <= 0x6000_0000_0000_0000_0000_0000_0000_0000) by (nonlinear_arith)
                requires
                    -0x8000_0000_0000_0000 <= r <= 0x8000_0000_0000_0000,
                    -0x8000_0000_0000_0000 <= f <= 0xc000_0000_0000_0000,
            ;
        }
        let scaled: i128 = round_div(r * f, 1_000_000);
        self.radius = if scaled < MIN_RADIUS as i128 {
            MIN_RADIUS
        } else if scaled > MAX_RADIUS as i128 {
            MAX_RADIUS
        } else {
            scaled as i64
        };
    }

    /// Where the camera's eye is, given the sines and cosines of its yaw and its pitch: on a
    /// sphere around the point it looks at.
    pub open spec fn eye_at(self, yaw: Heading, pitch: Heading) -> (int, int, int) {
        (
            self.look_at@[0] + div_round(self.radius * (pitch.cos * yaw.sin), 1_000_000_000_000),
            self.look_at@[1] + div_round(self.radius * pitch.sin, 1_000_000),
            self.look_at@[2] + div_round(self.radius * (pitch.cos * yaw.cos), 1_000_000_000_000),
        )
    }

    /// The camera is within its limits.
    pub open spec fn wf(self) -> bool {
        &&& PITCH_MIN <= self.pitch <= PITCH_MAX
        &&& MIN_RADIUS <= self.radius <= MAX_RADIUS
    }

    /// Where the camera's eye is, as far as 64 bits reach.
    pub fn eye(&self, yaw: &Heading, pitch: &Heading) -> (r: [i64; 3])
        requires
            yaw.wf(),
            pitch.wf(),
        ensures
            r@[0] == held(self.eye_at(*yaw, *pitch).0),
            r@[1] == held(self.eye_at(*yaw, *pitch).1),
            r@[2] == held(self.eye_at(*yaw, *pitch).2),
    {
        let r: i128 = self.radius as i128;
        proof {
            unit_product(pitch.cos as int, yaw.sin as int);
            unit_product(pitch.cos as int, yaw.cos as int);
            arm(r as int, pitch.cos * yaw.sin);
            arm(r as int, pitch.cos * yaw.cos);
            arm(r as int, pitch.sin as int);
        }
        let x: i128 = round_div(r * (pitch.cos as i128 * yaw.sin as i128), 1_000_000_000_000);
        let y: i128 = round_div(r * pitch.sin as i128, 1_000_000);
        let z: i128 = round_div(r * (pitch.cos as i128 * yaw.cos as i128), 1_000_000_000_000);
        [
            hold(self.look_at[0] as i128 + x),
            hold(self.look_at[1] as i128 + y),
            hold(self.look_at[2] as i128 + z),
        ]
    }

    /// Applies a gesture.
    pub fn apply(&mut self, msg: CameraMsg)
        ensures
            *final(self) == old(self).moved(msg),
    {
        match msg {
            CameraMsg::Orbit { dx, dy } => self.orbit(dx, dy),
            CameraMsg::Zoom { dy } => self.zoom(dy),
        }
    }
}

proof fn unit_product(a: int, b: int)
    requires
        -1_000_000 <= a <= 1_000_000,
        -1_000_000 <= b <= 1_000_000,
    ensures
        -1_000_000_000_000 <= a * b <= 1_000_000_000_000,
{
    assert(-1_000_000_000_000 <= a * b <= 1_000_000_000_000) by (nonlinear_arith)
        requires
            -1_000_000 <= a <= 1_000_000,
            -1_000_000 <= b <= 1_000_000,
    ;
}

proof fn arm(r: int, unit: int)
    requires
        -0x8000_0000_0000_0000 <= r <= 0x8000_0000_0000_0000,
        -1_000_000_000_000 <= unit <= 1_000_000_000_000,
    ensures
        -0x8000_0000_0000_0000 * 1_000_000_000_000 <= r * unit <= 0x8000_0000_0000_0000
            * 1_000_000_000_000,
{
    assert(-0x8000_0000_0000_0000 * 1_000_000_000_000 <= r * unit <= 0x8000_0000_0000_0000
        * 1_000_000_000_000) by (nonlinear_arith)
        requires
            -0x8000_0000_0000_0000 <= r <= 0x8000_0000_0000_0000,
            -1_000_000_000_000 <= unit <= 1_000_000_000_000,
    ;
}

/// The camera after a run of gestures.
pub open spec fn camera_after(camera: OrbitCamera, msgs: Seq<CameraMsg>) -> OrbitCamera
    decreases msgs.len(),
{
    if msgs.len() == 0 {
        camera
    } else {
        camera_after(camera, msgs.drop_last()).moved(msgs.last())
    }
}

/// The yaw that someone who only sees the horizontal drags keeps.
pub open spec fn mirrored_yaw(yaw: i64, msgs: Seq<CameraMsg>) -> i64
    decreases msgs.len(),
{
    if msgs.len() == 0 {
        yaw
    } else {
        match msgs.last() {
            CameraMsg::Orbit { dx, .. } => turned_yaw(mirrored_yaw(yaw, msgs.drop_last()), dx),
            CameraMsg::Zoom { .. } => mirrored_yaw(yaw, msgs.drop_last()),
        }
    }
}

/// The drags among gestures.
pub open spec fn drags_in(msgs: Seq<CameraMsg>) -> Seq<CameraMsg>
    decreases msgs.len(),
{
    if msgs.len() == 0 {
        seq![]
    } else if msgs.last() is Orbit {
        drags_in(msgs.drop_last()).push(msgs.last())
    } else {
        drags_in(msgs.drop_last())
    }
}

/// Zooming changes no yaw: a mirror that only sees the drags keeps the same one.
pub proof fn only_drags_turn(yaw: i64, msgs: Seq<CameraMsg>)
    ensures
        mirrored_yaw(yaw, msgs) == mirrored_yaw(yaw, drags_in(msgs)),
    decreases msgs.len(),
{
    if msgs.len() > 0 {
        only_drags_turn(yaw, msgs.drop_last());
        if msgs.last() is Orbit {
            assert(drags_in(msgs).drop_last() =~= drags_in(msgs.drop_last()));
        }
    }
}

/// The picture and the stereo image stay in lockstep: whoever starts from the camera's yaw
/// and applies the same drags has the camera's yaw, without ever being told the angle.
pub proof fn yaw_stays_in_lockstep(camera: OrbitCamera, msgs: Seq<CameraMsg>)
    ensures
        camera_after(camera, msgs).yaw == mirrored_yaw(camera.yaw, msgs),
    decreases msgs.len(),
{
    if msgs.len() > 0 {
        yaw_stays_in_lockstep(camera, msgs.drop_last());
    }
}

/// No gesture takes the camera over the pole, under the table's rim, nearer or farther than
/// its limits, or off the point it looks at.
pub proof fn the_table_stays_in_frame(camera: OrbitCamera, msgs: Seq<CameraMsg>)
    requires
        PITCH_MIN <= camera.pitch <= PITCH_MAX,
        MIN_RADIUS <= camera.radius <= MAX_RADIUS,
    ensures
        PITCH_MIN <= camera_after(camera, msgs).pitch <= PITCH_MAX,
        MIN_RADIUS <= camera_after(camera, msgs).radius <= MAX_RADIUS,
        camera_after(camera, msgs).look_at == camera.look_at,
    decreases msgs.len(),
{
    if msgs.len() > 0 {
        the_table_stays_in_frame(camera, msgs.drop_last());
    }
}

/// The eye is above the point it looks at wherever the pitch's sine says so, and head-on from
/// the near side at yaw zero.
pub proof fn the_eye_is_where_it_looks_from(camera: OrbitCamera, pitch: Heading)
    requires
        camera.wf(),
        pitch.wf(),
        pitch.sin > 0,
    ensures
        camera.eye_at(Heading { sin: 0, cos: 1_000_000 }, pitch).0 == camera.look_at@[0],
        forall|yaw: Heading|
            (#[trigger] camera.eye_at(yaw, pitch)).1 >= camera.look_at@[1],
{
    let r = camera.radius as int;
    assert(r * (pitch.cos * 0) == 0) by (nonlinear_arith);
    assert(1_000_000_000_000int / 2_000_000_000_000int == 0);
    assert(r * pitch.sin >= 0) by (nonlinear_arith)
        requires
            r >= 0,
            pitch.sin > 0,
    ;
}

/// Dragging there and back restores the yaw, away from the ends of its range.
pub proof fn a_drag_back_restores_the_yaw(yaw: i64, dx: i64)
    requires
        dx != i64::MIN,
        i64::MIN <= yaw - dx * CAMERA_ORBIT_SENSITIVITY <= i64::MAX,
    ensures
        turned_yaw(turned_yaw(yaw, dx), (-dx) as i64) == yaw,
{
}

/// A drag turns the camera by five thousandths of a radian per pixel: to the right lowers its yaw,
/// and down lowers its pitch, as far as the pitch's limits of 0.15 and 1.560796 allow. It moves
/// the camera no nearer and no farther.
pub proof fn drags_turn_the_camera(camera: OrbitCamera, dx: i64, dy: i64)
    ensures
        ({
            let after = camera.moved(CameraMsg::Orbit { dx, dy });
            let (yaw, pitch) = (camera.yaw - 5 * dx, camera.pitch - 5 * dy);
            &&& i64::MIN <= yaw <= i64::MAX ==> after.yaw == yaw
            &&& yaw < i64::MIN ==> after.yaw == i64::MIN
            &&& yaw > i64::MAX ==> after.yaw == i64::MAX
            &&& 150_000 <= pitch <= 1_560_796 ==> after.pitch == pitch
            &&& pitch < 150_000 ==> after.pitch == 150_000
            &&& pitch > 1_560_796 ==> after.pitch == 1_560_796
            &&& after.radius == camera.radius && after.look_at == camera.look_at
        }),
{
}

/// A turn of the wheel moves the camera by a thousandth of its distance per pixel, to the nearest
/// micrometre: downwards away and upwards nearer, between two and twenty-five metres. It turns the
/// camera no way.
pub proof fn the_wheel_moves_the_camera(camera: OrbitCamera, dy: i64)
    ensures
        ({
            let after = camera.moved(CameraMsg::Zoom { dy });
            let full = camera.radius * (1_000_000 + dy);
            &&& 2_000_000 * 1_000_000 <= full <= 25_000_000 * 1_000_000 ==> -1_000_000 <= 2 * (
            after.radius * 1_000_000 - full) <= 1_000_000
            &&& full < 2_000_000 * 1_000_000 ==> after.radius == 2_000_000
            &&& full > 25_000_000 * 1_000_000 ==> after.radius == 25_000_000
            &&& camera.wf() && dy >= 0 ==> after.radius >= camera.radius
            &&& camera.wf() && dy <= 0 ==> after.radius <= camera.radius
            &&& after.yaw == camera.yaw && after.pitch == camera.pitch && after.look_at
                == camera.look_at
        }),
{
    let r = camera.radius as int;
    let full = r * (1_000_000 + dy);
    crate::units::div_round_is_nearest(full, 1_000_000);
    assert(camera.wf() && dy >= 0 ==> full >= r * 1_000_000) by (nonlinear_arith)
        requires
            full == r * (1_000_000 + dy),
            camera.wf() ==> r >= 0,
    ;
    assert(camera.wf() && dy <= 0 ==> full <= r * 1_000_000) by (nonlinear_arith)
        requires
            full == r * (1_000_000 + dy),
            camera.wf() ==> r >= 0,
    ;
}

/// The eye stands at its distance from the point the camera looks at: up by the pitch's sine, and
/// out on the ground by the pitch's cosine, to the side by the yaw's sine and to the front by its
/// cosine, each to the nearest micrometre.
pub proof fn the_eye_stands_at_its_distance(camera: OrbitCamera, yaw: Heading, pitch: Heading)
    ensures
        ({
            let eye = camera.eye_at(yaw, pitch);
            let unit = 1_000_000_000_000int;
            &&& -unit <= 2 * ((eye.0 - camera.look_at@[0]) * unit - camera.radius * (pitch.cos
                * yaw.sin)) <= unit
            &&& -1_000_000 <= 2 * ((eye.1 - camera.look_at@[1]) * 1_000_000 - camera.radius
                * pitch.sin) <= 1_000_000
            &&& -unit <= 2 * ((eye.2 - camera.look_at@[2]) * unit - camera.radius * (pitch.cos
                * yaw.cos)) <= unit
        }),
{
    crate::units::div_round_is_nearest(
        camera.radius * (pitch.cos * yaw.sin),
        1_000_000_000_000,
    );
    crate::units::div_round_is_nearest(camera.radius * pitch.sin, 1_000_000);
    crate::units::div_round_is_nearest(
        camera.radius * (pitch.cos * yaw.cos),
        1_000_000_000_000,
    );
}

} // verus!
