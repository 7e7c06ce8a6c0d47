//! The ZH-L16C (nitrogen) and ZH-L16A (helium) coefficient table.
use vstd::prelude::*;

verus! {

/// Fixed-point scale of the per-second decay factors.
pub const DECAY_SCALE: u128 = 1_000_000_000_000_000_000;

/// Least per-second loss of every decay factor of the table, out of `DECAY_SCALE`
/// (the slowest tissue's half-time is under 636 minutes).
pub const MIN_DECAY_LOSS: u128 = 18_000_000_000_000;

/// One row of ZH-L16C (nitrogen) and ZH-L16A (helium) coefficients.
///
/// Half-times are in hundredths of a minute, `a` in ten-thousandths of a bar and
/// `b` in ten-thousandths. The decay fields hold 2^(-1 s / half-time) scaled by
/// `DECAY_SCALE`, rounded down.
#[derive(Clone, Copy, Debug, PartialEq, Eq, Structural)]
pub struct ZhlParams {
    pub n2_half_time: u64,
    pub n2_a: u64,
    pub n2_b: u64,
    pub he_half_time: u64,
    pub he_a: u64,
    pub he_b: u64,
    pub n2_decay: u128,
    pub he_decay: u128,
}

impl ZhlParams {
    pub open spec fn wf(&self) -> bool {
        &&& 1 <= self.n2_half_time <= 100_000
        &&& 1 <= self.he_half_time <= 100_000
        &&& 1000 <= self.n2_a <= 20000
        &&& 1000 <= self.he_a <= 20000
        &&& 4000 <= self.n2_b < 10000
        &&& 4000 <= self.he_b < 10000
        &&& self.n2_decay <= DECAY_SCALE - MIN_DECAY_LOSS
        &&& self.he_decay <= DECAY_SCALE - MIN_DECAY_LOSS
    }
}

/// The sixteen compartments of ZH-L16C (nitrogen) and ZH-L16A (helium), fastest first;
/// indices past the last give the last row.
pub open spec fn zhl_row(i: int) -> ZhlParams {
    if i == 0 {
        ZhlParams { n2_half_time: 400, n2_a: 12599, n2_b: 5050, he_half_time: 151, he_a: 17424, he_b: 4245, n2_decay: 997116053334589197, he_decay: 992378560454226474 }
    } else if i == 1 {
        ZhlParams { n2_half_time: 800, n2_a: 10000, n2_b: 6514, he_half_time: 302, he_a: 13830, he_b: 5747, n2_decay: 998556985521902599, he_decay: 996181991633168639 }
    } else if i == 2 {
        ZhlParams { n2_half_time: 1250, n2_a: 8618, n2_b: 7222, he_half_time: 472, he_a: 11919, he_b: 6527, n2_decay: 999076230697064209, he_decay: 997555439213457916 }
    } else if i == 3 {
        ZhlParams { n2_half_time: 1850, n2_a: 7562, n2_b: 7825, he_half_time: 699, he_a: 10458, he_b: 7223, n2_decay: 999375738013220942, he_decay: 998348653529232107 }
    } else if i == 4 {
        ZhlParams { n2_half_time: 2700, n2_a: 6200, n2_b: 8126, he_half_time: 1021, he_a: 9220, he_b: 7582, n2_decay: 999572222892753283, he_decay: 998869155752692744 }
    } else if i == 5 {
        ZhlParams { n2_half_time: 3830, n2_a: 5043, n2_b: 8434, he_half_time: 1448, he_a: 8205, he_b: 7957, n2_decay: 999698414859068581, he_decay: 999202496834400927 }
    } else if i == 6 {
        ZhlParams { n2_half_time: 5430, n2_a: 4410, n2_b: 8693, he_half_time: 2053, he_a: 7305, he_b: 8279, n2_decay: 999787270272731627, he_decay: 999437447478139450 }
    } else if i == 7 {
        ZhlParams { n2_half_time: 7700, n2_a: 4000, n2_b: 8910, he_half_time: 2911, he_a: 6502, he_b: 8553, n2_decay: 999849979396952202, he_decay: 999603223600570679 }
    } else if i == 8 {
        ZhlParams { n2_half_time: 10900, n2_a: 3750, n2_b: 9092, he_half_time: 4120, he_a: 5950, he_b: 8757, n2_decay: 999894019808872201, he_decay: 999719639963335511 }
    } else if i == 9 {
        ZhlParams { n2_half_time: 14600, n2_a: 3500, n2_b: 9222, he_half_time: 5519, he_a: 5545, he_b: 8903, n2_decay: 999920876739935388, he_decay: 999790700416645140 }
    } else if i == 10 {
        ZhlParams { n2_half_time: 18700, n2_a: 3295, n2_b: 9319, he_half_time: 7069, he_a: 5333, he_b: 8997, n2_decay: 999938224084631130, he_decay: 999836589205179531 }
    } else if i == 11 {
        ZhlParams { n2_half_time: 23900, n2_a: 3065, n2_b: 9403, he_half_time: 9034, he_a: 5189, he_b: 9073, n2_decay: 999951664544725751, he_decay: 999872130679749458 }
    } else if i == 12 {
        ZhlParams { n2_half_time: 30500, n2_a: 2835, n2_b: 9477, he_half_time: 11529, he_a: 5181, he_b: 9122, n2_decay: 999962123822207969, he_decay: 999899801593971914 }
    } else if i == 13 {
        ZhlParams { n2_half_time: 39000, n2_a: 2610, n2_b: 9544, he_half_time: 14742, he_a: 5176, he_b: 9171, n2_decay: 999970378764334561, he_decay: 999921638852450933 }
    } else if i == 14 {
        ZhlParams { n2_half_time: 49800, n2_a: 2480, n2_b: 9602, he_half_time: 18824, he_a: 5172, he_b: 9217, n2_decay: 999976802572258599, he_decay: 999938631010813192 }
    } else {
        ZhlParams { n2_half_time: 63500, n2_a: 2327, n2_b: 9653, he_half_time: 24003, he_a: 5119, he_b: 9267, n2_decay: 999981807326103923, he_decay: 999951871953469964 }
    }
}

/// The sixteen compartments, fastest first.
pub fn zhl_16c_params(i: usize) -> (r: ZhlParams)
    requires
        i < 16,
    ensures
        r == zhl_row(i as int),
        r.wf(),
{
    match i {
        0 => ZhlParams { n2_half_time: 400, n2_a: 12599, n2_b: 5050, he_half_time: 151, he_a: 17424, he_b: 4245, n2_decay: 997116053334589197, he_decay: 992378560454226474 },
        1 => ZhlParams { n2_half_time: 800, n2_a: 10000, n2_b: 6514, he_half_time: 302, he_a: 13830, he_b: 5747, n2_decay: 998556985521902599, he_decay: 996181991633168639 },
        2 => ZhlParams { n2_half_time: 1250, n2_a: 8618, n2_b: 7222, he_half_time: 472, he_a: 11919, he_b: 6527, n2_decay: 999076230697064209, he_decay: 997555439213457916 },
        3 => ZhlParams { n2_half_time: 1850, n2_a: 7562, n2_b: 7825, he_half_time: 699, he_a: 10458, he_b: 7223, n2_decay: 999375738013220942, he_decay: 998348653529232107 },
        4 => ZhlParams { n2_half_time: 2700, n2_a: 6200, n2_b: 8126, he_half_time: 1021, he_a: 9220, he_b: 7582, n2_decay: 999572222892753283, he_decay: 998869155752692744 },
        5 => ZhlParams { n2_half_time: 3830, n2_a: 5043, n2_b: 8434, he_half_time: 1448, he_a: 8205, he_b: 7957, n2_decay: 999698414859068581, he_decay: 999202496834400927 },
        6 => ZhlParams { n2_half_time: 5430, n2_a: 4410, n2_b: 8693, he_half_time: 2053, he_a: 7305, he_b: 8279, n2_decay: 999787270272731627, he_decay: 999437447478139450 },
        7 => ZhlParams { n2_half_time: 7700, n2_a: 4000, n2_b: 8910, he_half_time: 2911, he_a: 6502, he_b: 8553, n2_decay: 999849979396952202, he_decay: 999603223600570679 },
        8 => ZhlParams { n2_half_time: 10900, n2_a: 3750, n2_b: 9092, he_half_time: 4120, he_a: 5950, he_b: 8757, n2_decay: 999894019808872201, he_decay: 999719639963335511 },
        9 => ZhlParams { n2_half_time: 14600, n2_a: 3500, n2_b: 9222, he_half_time: 5519, he_a: 5545, he_b: 8903, n2_decay: 999920876739935388, he_decay: 999790700416645140 },
        10 => ZhlParams { n2_half_time: 18700, n2_a: 3295, n2_b: 9319, he_half_time: 7069, he_a: 5333, he_b: 8997, n2_decay: 999938224084631130, he_decay: 999836589205179531 },
        11 => ZhlParams { n2_half_time: 23900, n2_a: 3065, n2_b: 9403, he_half_time: 9034, he_a: 5189, he_b: 9073, n2_decay: 999951664544725751, he_decay: 999872130679749458 },
        12 => ZhlParams { n2_half_time: 30500, n2_a: 2835, n2_b: 9477, he_half_time: 11529, he_a: 5181, he_b: 9122, n2_decay: 999962123822207969, he_decay: 999899801593971914 },
        13 => ZhlParams { n2_half_time: 39000, n2_a: 2610, n2_b: 9544, he_half_time: 14742, he_a: 5176, he_b: 9171, n2_decay: 999970378764334561, he_decay: 999921638852450933 },
        14 => ZhlParams { n2_half_time: 49800, n2_a: 2480, n2_b: 9602, he_half_time: 18824, he_a: 5172, he_b: 9217, n2_decay: 999976802572258599, he_decay: 999938631010813192 },
        _ => ZhlParams { n2_half_time: 63500, n2_a: 2327, n2_b: 9653, he_half_time: 24003, he_a: 5119, he_b: 9267, n2_decay: 999981807326103923, he_decay: 999951871953469964 },
    }
}

} // verus!
