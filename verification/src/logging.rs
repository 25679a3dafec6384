//! How loudly progress is traced.

use vstd::prelude::*;

verus! {

/// How many checkpoints lie between two messages at the higher log level.
pub const LOUD_WATERMARK_UPDATE_INTERVAL: i64 = 50;

/// A log level.
#[derive(Clone, Copy, Debug, PartialEq, Eq, Structural)]
pub enum Level {
    /// The higher one.
    Info,
    /// The lower one.
    Debug,
}

/// Decides at which level a task traces its progress: at the higher one whenever it has come far
/// enough since it last did, and at the lower one otherwise.
#[derive(Clone, Copy, Debug, PartialEq, Eq, Structural)]
pub struct WatermarkLogger {
    /// The checkpoint of the last message at the higher level.
    pub prev_checkpoint: i64,
}

impl WatermarkLogger {
    /// The logger after it traced that `checkpoint` was reached.
    pub open spec fn after(self, checkpoint: i64) -> WatermarkLogger {
        if checkpoint - self.prev_checkpoint >= LOUD_WATERMARK_UPDATE_INTERVAL {
            WatermarkLogger { prev_checkpoint: checkpoint }
        } else {
            self
        }
    }

    /// The level at which it traces that.
    pub open spec fn level(self, checkpoint: i64) -> Level {
        if checkpoint - self.prev_checkpoint >= LOUD_WATERMARK_UPDATE_INTERVAL {
            Level::Info
        } else {
            Level::Debug
        }
    }

    /// Progress is measured from the first checkpoint.
    pub fn new() -> (logger: Self)
        ensures
            logger.prev_checkpoint == 0,
    {
        WatermarkLogger { prev_checkpoint: 0 }
    }

    /// The level at which to trace that `checkpoint` was reached.
    pub fn log(&mut self, checkpoint: i64) -> (level: Level)
        ensures
            *final(self) == old(self).after(checkpoint),
            level == old(self).level(checkpoint),
            level == if checkpoint - old(self).prev_checkpoint >= LOUD_WATERMARK_UPDATE_INTERVAL {
                Level::Info
            } else {
                Level::Debug
            },
            final(self).prev_checkpoint == if level is Info {
                checkpoint
            } else {
                old(self).prev_checkpoint
            },
            checkpoint - final(self).prev_checkpoint < LOUD_WATERMARK_UPDATE_INTERVAL,
            level is Info <==> checkpoint - old(self).prev_checkpoint >= 50,
            level is Info ==> final(self).prev_checkpoint == checkpoint,
            level is Debug ==> final(self).prev_checkpoint == old(self).prev_checkpoint,
    {
        let advanced: i128 = checkpoint as i128 - self.prev_checkpoint as i128;
        if advanced >= LOUD_WATERMARK_UPDATE_INTERVAL as i128 {
            self.prev_checkpoint = checkpoint;
            Level::Info
        } else {
            Level::Debug
        }
    }
}

/// A message is loud exactly when at least 50 checkpoints lie between it and the last loud one. After
/// a loud message the next one is loud no earlier than 50 checkpoints on, and a quiet message does
/// not put that off.
pub proof fn law_loud_every_so_many_checkpoints(logger: WatermarkLogger, a: i64, b: i64)
    ensures
        logger.level(a) is Info <==> logger.prev_checkpoint + 50 <= a,
        logger.level(a) is Info ==> (logger.after(a).level(b) is Info <==> a + 50 <= b),
        logger.level(a) is Debug ==> (logger.after(a).level(b) is Info <==> logger.level(b) is Info),
{
}

} // verus!
