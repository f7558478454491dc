//! Acceptance of an incoming sensor batch: the tower it claims, its layer
//! count and layer numbering, and the range checks of each layer and of the
//! environment, in the order the receiver applies them.
use vstd::prelude::*;

verus! {

/// One layer of a batch: its reported layer id and whether its von Mises
/// stress (0 to 200 MPa) and total tilt (0 to 30 degrees) are in range.
#[derive(Debug, Clone, Copy, PartialEq, Eq, Structural)]
pub struct LayerCheck {
    pub layer_id: u8,
    pub stress_in_range: bool,
    pub tilt_in_range: bool,
}

/// The environment of a batch: whether its temperature (-40 to 60 °C) and
/// wind speed (0 to 80 m/s) are in range.
#[derive(Debug, Clone, Copy, PartialEq, Eq, Structural)]
pub struct EnvironmentCheck {
    pub temperature_in_range: bool,
    pub wind_in_range: bool,
}

/// Why a batch is refused.
#[derive(Debug, Clone, Copy, PartialEq, Eq, Structural)]
pub enum BatchError {
    TowerMismatch { batch_tower_id: u32, tower_id: u32 },
    LayerCountMismatch { got: usize, expected: usize },
    LayerOutOfSequence { index: usize, layer_id: u8 },
    StressOutOfRange { index: usize, layer_id: u8 },
    TiltOutOfRange { index: usize, layer_id: u8 },
    TemperatureOutOfRange,
    WindOutOfRange,
}

/// What is wrong with the layer at position `i`, if anything: a layer id
/// other than `i + 1`, then stress, then tilt.
pub open spec fn layer_problem(i: int, l: LayerCheck) -> Option<BatchError> {
    if l.layer_id != i + 1 {
        Some(BatchError::LayerOutOfSequence { index: i as usize, layer_id: l.layer_id })
    } else if !l.stress_in_range {
        Some(BatchError::StressOutOfRange { index: i as usize, layer_id: l.layer_id })
    } else if !l.tilt_in_range {
        Some(BatchError::TiltOutOfRange { index: i as usize, layer_id: l.layer_id })
    } else {
        None
    }
}

/// The problem of the first layer that has one.
pub open spec fn first_layer_problem(layers: Seq<LayerCheck>) -> Option<BatchError>
    decreases layers.len(),
{
    if layers.len() == 0 {
        None
    } else {
        match first_layer_problem(layers.drop_last()) {
            Some(e) => Some(e),
            None => layer_problem(layers.len() - 1, layers.last()),
        }
    }
}

/// The verdict on a batch: the tower id must match, the layer count must be
/// the tower's, every layer must pass, and then the environment, if the
/// batch has one, must pass; the first failure is the answer.
pub open spec fn batch_verdict(
    batch_tower_id: u32,
    tower_id: u32,
    total_layers: u8,
    layers: Seq<LayerCheck>,
    environment: Option<EnvironmentCheck>,
) -> Result<(), BatchError> {
    if batch_tower_id != tower_id {
        Err(BatchError::TowerMismatch { batch_tower_id, tower_id })
    } else if layers.len() != total_layers {
        Err(
            BatchError::LayerCountMismatch {
                got: layers.len() as usize,
                expected: total_layers as usize,
            },
        )
    } else {
        match first_layer_problem(layers) {
            Some(e) => Err(e),
            None => match environment {
                Some(env) => if !env.temperature_in_range {
                    Err(BatchError::TemperatureOutOfRange)
                } else if !env.wind_in_range {
                    Err(BatchError::WindOutOfRange)
                } else {
                    Ok(())
                },
                None => Ok(()),
            },
        }
    }
}

/// Decides whether a batch is accepted, and if not, why.
pub fn check_batch(
    batch_tower_id: u32,
    tower_id: u32,
    total_layers: u8,
    layers: &Vec<LayerCheck>,
    environment: Option<EnvironmentCheck>,
) -> (r: Result<(), BatchError>)
    ensures
        r == batch_verdict(batch_tower_id, tower_id, total_layers, layers@, environment),
{
    if batch_tower_id != tower_id {
        return Err(BatchError::TowerMismatch { batch_tower_id, tower_id });
    }
    let expected = total_layers as usize;
    if layers.len() != expected {
        return Err(BatchError::LayerCountMismatch { got: layers.len(), expected });
    }
    let n = layers.len();
    let mut i: usize = 0;
    while i < n
        invariant
            n == layers@.len(),
            n <= 255,
            n == total_layers,
            batch_tower_id == tower_id,
            i <= n,
            first_layer_problem(layers@.take(i as int)) is None,
        decreases n - i,
    {
        proof {
            assert(layers@.take(i + 1).drop_last() =~= layers@.take(i as int));
        }
        let l = layers[i];
        let expected_id: u8 = (i as u8) + 1;
        if l.layer_id != expected_id {
            proof {
                lemma_first_problem_prefix(layers@, i as int);
            }
            return Err(BatchError::LayerOutOfSequence { index: i, layer_id: l.layer_id });
        }
        if !l.stress_in_range {
            proof {
                lemma_first_problem_prefix(layers@, i as int);
            }
            return Err(BatchError::StressOutOfRange { index: i, layer_id: l.layer_id });
        }
        if !l.tilt_in_range {
            proof {
                lemma_first_problem_prefix(layers@, i as int);
            }
            return Err(BatchError::TiltOutOfRange { index: i, layer_id: l.layer_id });
        }
        i = i + 1;
    }
    proof {
        assert(layers@.take(n as int) =~= layers@);
    }
    match environment {
        Some(env) => {
            if !env.temperature_in_range {
                return Err(BatchError::TemperatureOutOfRange);
            }
            if !env.wind_in_range {
                return Err(BatchError::WindOutOfRange);
            }
            Ok(())
        },
        None => Ok(()),
    }
}

/// When the first `i` layers pass and layer `i` fails, the whole batch's
/// first layer problem is layer `i`'s.
proof fn lemma_first_problem_prefix(layers: Seq<LayerCheck>, i: int)
    requires
        0 <= i < layers.len(),
        first_layer_problem(layers.take(i)) is None,
        layer_problem(i, layers[i]) is Some,
    ensures
        first_layer_problem(layers) == layer_problem(i, layers[i]),
    decreases layers.len(),
{
    if i < layers.len() - 1 {
        let p = layers.drop_last();
        assert(p.take(i) =~= layers.take(i));
        lemma_first_problem_prefix(p, i);
    } else {
        assert(layers.drop_last() =~= layers.take(i));
    }
}

/// Every layer of a prefix with no problem is numbered by its position.
proof fn lemma_no_problem_in_sequence(layers: Seq<LayerCheck>)
    requires
        first_layer_problem(layers) is None,
    ensures
        forall|i: int| 0 <= i < layers.len() ==> (#[trigger] layers[i]).layer_id == i + 1,
    decreases layers.len(),
{
    if layers.len() > 0 {
        let p = layers.drop_last();
        lemma_no_problem_in_sequence(p);
        assert forall|i: int| 0 <= i < layers.len() implies (#[trigger] layers[i]).layer_id == i
            + 1 by {
            if i < layers.len() - 1 {
                assert(layers[i] == p[i]);
            }
        }
    }
}

/// An accepted batch is for the tower it was checked against, has exactly
/// that tower's layer count, numbers its layers 1, 2, 3, ... in order, and
/// every layer and the environment are in range.
pub proof fn lemma_accepted_batch_is_well_formed(
    batch_tower_id: u32,
    tower_id: u32,
    total_layers: u8,
    layers: Seq<LayerCheck>,
    environment: Option<EnvironmentCheck>,
)
    requires
        batch_verdict(batch_tower_id, tower_id, total_layers, layers, environment) is Ok,
    ensures
        batch_tower_id == tower_id,
        layers.len() == total_layers,
        forall|i: int|
            0 <= i < layers.len() ==> (#[trigger] layers[i]).layer_id == i + 1
                && layers[i].stress_in_range && layers[i].tilt_in_range,
        environment matches Some(env) ==> env.temperature_in_range && env.wind_in_range,
{
    lemma_no_problem_in_sequence(layers);
    assert forall|i: int| 0 <= i < layers.len() implies (#[trigger] layers[i]).stress_in_range
        && layers[i].tilt_in_range by {
        lemma_layer_passes(layers, i);
    }
}

proof fn lemma_layer_passes(layers: Seq<LayerCheck>, i: int)
    requires
        first_layer_problem(layers) is None,
        0 <= i < layers.len(),
    ensures
        layer_problem(i, layers[i]) is None,
    decreases layers.len(),
{
    if i < layers.len() - 1 {
        let p = layers.drop_last();
        lemma_layer_passes(p, i);
        assert(layers[i] == p[i]);
    }
}

} // verus!
