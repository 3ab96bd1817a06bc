//! Status lines: each presenter formats one piece of the view state and
//! reports the size that line needs on screen.
use vstd::prelude::*;

use crate::decimal::{dec_len, dec_len_signed, dec_len_u128, dec_rep, dec_rep_signed, i64_to_dec, u128_to_dec, u64_to_dec};

verus! {

/// The run/pause label.
pub struct IsRunningView {
    pub is_running: bool,
}

/// The text an [`IsRunningView`] shows.
pub open spec fn spec_running_text(is_running: bool) -> Seq<char> {
    if is_running {
        "running"@
    } else {
        "stopped"@
    }
}

impl IsRunningView {
    pub fn new(is_running: bool) -> (v: Self)
        ensures
            v.is_running == is_running,
    {
        Self { is_running }
    }

    pub fn format(&self) -> (s: String)
        ensures
            s@ == spec_running_text(self.is_running),
    {
        if self.is_running {
            String::from_str("running")
        } else {
            String::from_str("stopped")
        }
    }

    /// Width and height of the rendered line.
    pub fn required_size(&self) -> (size: (usize, usize))
        ensures
            size.0 == spec_running_text(self.is_running).len(),
            size.1 == 1,
    {
        proof {
            reveal_strlit("running");
            reveal_strlit("stopped");
        }
        (7, 1)
    }
}

/// The generation counter.
pub struct GenerationView {
    pub generation: u128,
}

/// The text a [`GenerationView`] shows.
pub open spec fn spec_generation_text(generation: u128) -> Seq<char> {
    "gen: "@ + dec_rep(generation as nat)
}

impl GenerationView {
    pub fn new(generation: u128) -> (v: Self)
        ensures
            v.generation == generation,
    {
        Self { generation }
    }

    pub fn format(&self) -> (s: String)
        ensures
            s@ == spec_generation_text(self.generation),
    {
        let mut s = String::from_str("gen: ");
        s.append(u128_to_dec(self.generation).as_str());
        s
    }

    /// Width and height of the rendered line.
    pub fn required_size(&self) -> (size: (usize, usize))
        ensures
            size.0 == spec_generation_text(self.generation).len(),
            size.1 == 1,
    {
        proof {
            reveal_strlit("gen: ");
        }
        let digits = dec_len_u128(self.generation);
        proof {
            crate::decimal::lemma_dec_rep_len_u128(self.generation as nat);
        }
        (digits + 5, 1)
    }
}

/// The population counter.
pub struct PopulationView {
    pub population: u128,
}

/// The text a [`PopulationView`] shows.
pub open spec fn spec_population_text(population: u128) -> Seq<char> {
    "pop: "@ + dec_rep(population as nat)
}

impl PopulationView {
    pub fn new(population: u128) -> (v: Self)
        ensures
            v.population == population,
    {
        Self { population }
    }

    pub fn format(&self) -> (s: String)
        ensures
            s@ == spec_population_text(self.population),
    {
        let mut s = String::from_str("pop: ");
        s.append(u128_to_dec(self.population).as_str());
        s
    }

    /// Width and height of the rendered line.
    pub fn required_size(&self) -> (size: (usize, usize))
        ensures
            size.0 == spec_population_text(self.population).len(),
            size.1 == 1,
    {
        proof {
            reveal_strlit("pop: ");
        }
        let digits = dec_len_u128(self.population);
        proof {
            crate::decimal::lemma_dec_rep_len_u128(self.population as nat);
        }
        (digits + 5, 1)
    }
}

/// The step interval, in milliseconds.
pub struct DelayView {
    pub delay: u64,
}

/// The text a [`DelayView`] shows.
pub open spec fn spec_delay_text(delay: u64) -> Seq<char> {
    "delay: "@ + dec_rep(delay as nat) + " ms"@
}

impl DelayView {
    pub fn new(delay: u64) -> (v: Self)
        ensures
            v.delay == delay,
    {
        Self { delay }
    }

    pub fn format(&self) -> (s: String)
        ensures
            s@ == spec_delay_text(self.delay),
    {
        let mut s = String::from_str("delay: ");
        s.append(u64_to_dec(self.delay).as_str());
        s.append(" ms");
        s
    }

    /// Width and height of the rendered line.
    pub fn required_size(&self) -> (size: (usize, usize))
        ensures
            size.0 == spec_delay_text(self.delay).len(),
            size.1 == 1,
    {
        proof {
            reveal_strlit("delay: ");
            reveal_strlit(" ms");
        }
        let digits = dec_len(self.delay);
        proof {
            crate::decimal::lemma_dec_rep_len_u64(self.delay as nat);
        }
        (digits + 10, 1)
    }
}

/// The engine's step size.
pub struct StepView {
    pub step_size: u64,
}

/// The text a [`StepView`] shows.
pub open spec fn spec_step_text(step_size: u64) -> Seq<char> {
    "step: "@ + dec_rep(step_size as nat)
}

impl StepView {
    pub fn new(step_size: u64) -> (v: Self)
        ensures
            v.step_size == step_size,
    {
        Self { step_size }
    }

    pub fn format(&self) -> (s: String)
        ensures
            s@ == spec_step_text(self.step_size),
    {
        let mut s = String::from_str("step: ");
        s.append(u64_to_dec(self.step_size).as_str());
        s
    }

    /// Width and height of the rendered line.
    pub fn required_size(&self) -> (size: (usize, usize))
        ensures
            size.0 == spec_step_text(self.step_size).len(),
            size.1 == 1,
    {
        proof {
            reveal_strlit("step: ");
        }
        let digits = dec_len(self.step_size);
        proof {
            crate::decimal::lemma_dec_rep_len_u64(self.step_size as nat);
        }
        (digits + 6, 1)
    }
}

/// The world coordinates at the middle of the viewport.
pub struct CenterView {
    pub center: (i64, i64),
}

/// The text a [`CenterView`] shows.
pub open spec fn spec_center_text(center: (i64, i64)) -> Seq<char> {
    "center: ("@ + dec_rep_signed(center.0 as int) + ", "@ + dec_rep_signed(center.1 as int)
        + ")"@
}

impl CenterView {
    pub fn new(center: (i64, i64)) -> (v: Self)
        ensures
            v.center == center,
    {
        Self { center }
    }

    pub fn format(&self) -> (s: String)
        ensures
            s@ == spec_center_text(self.center),
    {
        let mut s = String::from_str("center: (");
        s.append(i64_to_dec(self.center.0).as_str());
        s.append(", ");
        s.append(i64_to_dec(self.center.1).as_str());
        s.append(")");
        s
    }

    /// Width and height of the rendered line.
    pub fn required_size(&self) -> (size: (usize, usize))
        ensures
            size.0 == spec_center_text(self.center).len(),
            size.1 == 1,
    {
        proof {
            reveal_strlit("center: (");
            reveal_strlit(", ");
            reveal_strlit(")");
        }
        let x_digits = dec_len_signed(self.center.0);
        let y_digits = dec_len_signed(self.center.1);
        proof {
            if self.center.0 < 0 {
                crate::decimal::lemma_dec_rep_len_u64((-(self.center.0 as int)) as nat);
            } else {
                crate::decimal::lemma_dec_rep_len_u64(self.center.0 as nat);
            }
            if self.center.1 < 0 {
                crate::decimal::lemma_dec_rep_len_u64((-(self.center.1 as int)) as nat);
            } else {
                crate::decimal::lemma_dec_rep_len_u64(self.center.1 as nat);
            }
        }
        (x_digits + y_digits + 12, 1)
    }
}

/// The zoom ratio.
pub struct ScaleView {
    pub scale: u64,
}

/// The text a [`ScaleView`] shows.
pub open spec fn spec_scale_text(scale: u64) -> Seq<char> {
    "scale: "@ + dec_rep(scale as nat) + ":1"@
}

impl ScaleView {
    pub fn new(scale: u64) -> (v: Self)
        ensures
            v.scale == scale,
    {
        Self { scale }
    }

    pub fn format(&self) -> (s: String)
        ensures
            s@ == spec_scale_text(self.scale),
    {
        let mut s = String::from_str("scale: ");
        s.append(u64_to_dec(self.scale).as_str());
        s.append(":1");
        s
    }

    /// Width and height of the rendered line.
    pub fn required_size(&self) -> (size: (usize, usize))
        ensures
            size.0 == spec_scale_text(self.scale).len(),
            size.1 == 1,
    {
        proof {
            reveal_strlit("scale: ");
            reveal_strlit(":1");
        }
        let digits = dec_len(self.scale);
        proof {
            crate::decimal::lemma_dec_rep_len_u64(self.scale as nat);
        }
        (digits + 9, 1)
    }
}

} // verus!
