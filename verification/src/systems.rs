use vstd::prelude::*;

use crate::components::LodLevel;

verus! {

/// What the AI system does to an entity's velocity in one tick.
#[derive(Clone, Copy, Debug, PartialEq, Eq, Structural)]
pub enum VelocityUpdate {
    /// The velocity is left as it is.
    Keep,
    /// The velocity becomes the unit vector toward the target times the base speed.
    Seek,
    /// The velocity becomes zero.
    Halt,
}

/// The effect of one AI tick on one entity.
#[derive(Clone, Copy, Debug, PartialEq, Eq, Structural)]
pub struct AiPlan {
    pub velocity: VelocityUpdate,
    /// The position is set to the target's position.
    pub snap_to_target: bool,
    /// The target is dropped (the entity has arrived).
    pub clear_target: bool,
    /// The entity's state label becomes "Idle".
    pub mark_idle: bool,
    /// After the update, the position advances by velocity times the tick length.
    pub integrate: bool,
}

/// The plan of one AI tick for an entity of level `lod`.
///
/// `has_target` says whether the entity has a target; `far` says whether the target lies
/// farther than the arrival radius (it is only consulted when there is a target and the
/// level is not `Background`).
pub open spec fn spec_plan_ai(lod: LodLevel, has_target: bool, far: bool) -> AiPlan {
    match lod {
        LodLevel::Background => if has_target {
            AiPlan { velocity: VelocityUpdate::Halt, snap_to_target: true, clear_target: true, mark_idle: false, integrate: false }
        } else {
            AiPlan { velocity: VelocityUpdate::Keep, snap_to_target: false, clear_target: false, mark_idle: false, integrate: false }
        },
        _ => if !has_target {
            AiPlan { velocity: VelocityUpdate::Keep, snap_to_target: false, clear_target: false, mark_idle: false, integrate: true }
        } else if far {
            AiPlan { velocity: VelocityUpdate::Seek, snap_to_target: false, clear_target: false, mark_idle: false, integrate: true }
        } else {
            AiPlan {
                velocity: VelocityUpdate::Halt,
                snap_to_target: false,
                clear_target: true,
                mark_idle: lod == LodLevel::Active,
                integrate: true,
            }
        },
    }
}

/// Decides what one AI tick does to one entity.
pub fn plan_ai(lod: LodLevel, has_target: bool, far: bool) -> (plan: AiPlan)
    ensures
        plan == spec_plan_ai(lod, has_target, far),
        // background entities never move by velocity
        plan.integrate <==> lod != LodLevel::Background,
        // an entity keeps seeking only while it has a distant target and is not in the background
        (plan.velocity == VelocityUpdate::Seek) <==> (has_target && far && lod != LodLevel::Background),
        // the target is dropped exactly when the entity has one and is not sent toward it
        plan.clear_target <==> (has_target && plan.velocity != VelocityUpdate::Seek),
        // only an active entity that arrives becomes idle, and every such entity does
        plan.mark_idle <==> (lod == LodLevel::Active && has_target && !far),
        // only a background entity with a target is moved onto it; a seeking entity never is
        plan.snap_to_target <==> (lod == LodLevel::Background && has_target),
        // an entity with a target that is not sent toward it stops
        (plan.velocity == VelocityUpdate::Halt) <==> (has_target && plan.velocity != VelocityUpdate::Seek),
        // without a target nothing but integration happens
        !has_target ==> (plan.velocity == VelocityUpdate::Keep && !plan.snap_to_target && !plan.clear_target && !plan.mark_idle),
{
    match lod {
        LodLevel::Background => {
            if has_target {
                AiPlan { velocity: VelocityUpdate::Halt, snap_to_target: true, clear_target: true, mark_idle: false, integrate: false }
            } else {
                AiPlan { velocity: VelocityUpdate::Keep, snap_to_target: false, clear_target: false, mark_idle: false, integrate: false }
            }
        },
        LodLevel::Active | LodLevel::Simulated => {
            if !has_target {
                AiPlan { velocity: VelocityUpdate::Keep, snap_to_target: false, clear_target: false, mark_idle: false, integrate: true }
            } else if far {
                AiPlan { velocity: VelocityUpdate::Seek, snap_to_target: false, clear_target: false, mark_idle: false, integrate: true }
            } else {
                let active = match lod {
                    LodLevel::Active => true,
                    _ => false,
                };
                AiPlan { velocity: VelocityUpdate::Halt, snap_to_target: false, clear_target: true, mark_idle: active, integrate: true }
            }
        },
    }
}

/// The laws of one AI tick, over every level, target and distance:
/// - only background entities skip moving by velocity;
/// - an entity seeks exactly when it has a distant target and is not in the background;
/// - only a background entity with a target is placed onto it (a seeking entity never is);
/// - an entity with a target that is not sent toward it stops and drops the target;
/// - exactly the active entities that arrive become idle;
/// - without a target, only the movement by the current velocity happens.
pub proof fn lemma_plan_ai_laws(lod: LodLevel, has_target: bool, far: bool)
    ensures
        spec_plan_ai(lod, has_target, far).integrate <==> lod != LodLevel::Background,
        (spec_plan_ai(lod, has_target, far).velocity == VelocityUpdate::Seek) <==> (has_target && far && lod
            != LodLevel::Background),
        spec_plan_ai(lod, has_target, far).snap_to_target <==> (lod == LodLevel::Background && has_target),
        (spec_plan_ai(lod, has_target, far).velocity == VelocityUpdate::Seek) ==> !spec_plan_ai(lod, has_target, far).snap_to_target,
        spec_plan_ai(lod, has_target, far).clear_target <==> (has_target && !(far && lod != LodLevel::Background)),
        (spec_plan_ai(lod, has_target, far).velocity == VelocityUpdate::Halt) <==> spec_plan_ai(lod, has_target, far).clear_target,
        spec_plan_ai(lod, has_target, far).mark_idle <==> (lod == LodLevel::Active && has_target && !far),
        !has_target ==> spec_plan_ai(lod, has_target, far).velocity == VelocityUpdate::Keep
            && !spec_plan_ai(lod, has_target, far).snap_to_target && !spec_plan_ai(lod, has_target, far).clear_target
            && !spec_plan_ai(lod, has_target, far).mark_idle,
{
}

} // verus!
